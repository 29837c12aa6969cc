use vstd::prelude::*;

pub mod cli;

verus! {

/// When should snapshot archives be used at startup?
#[derive(Debug, Default, Clone, Copy, PartialEq, Eq, Structural)]
pub enum UseSnapshotArchivesAtStartup {
    /// If snapshot archives are used, they will be extracted and overwrite any existing state
    /// already on disk. This will incur the associated runtime costs for extracting.
    #[default]
    Always,
    /// If snapshot archives are not used, then the local snapshot state already on disk is
    /// used instead. If there is no local state on disk, startup will fail.
    Never,
}

impl UseSnapshotArchivesAtStartup {
    /// The command-line names of the variants, in declaration order.
    pub fn variants() -> (r: &'static [&'static str])
        ensures
            r@.len() == 2,
            r@[0]@ == "always"@,
            r@[1]@ == "never"@,
    {
        proof {
            reveal_strlit("always");
            reveal_strlit("never");
        }
        &["always", "never"]
    }

    /// The command-line name of this variant.
    pub fn as_str(&self) -> (r: &'static str)
        ensures
            *self is Always ==> r@ == "always"@,
            *self is Never ==> r@ == "never"@,
    {
        match self {
            UseSnapshotArchivesAtStartup::Always => "always",
            UseSnapshotArchivesAtStartup::Never => "never",
        }
    }

    /// The variant whose command-line name is `s`, if any.
    pub fn from_name(s: &str) -> (r: Option<Self>)
        ensures
            r == Some(UseSnapshotArchivesAtStartup::Always) <==> s@ == "always"@,
            r == Some(UseSnapshotArchivesAtStartup::Never) <==> s@ == "never"@,
            r is None <==> (s@ != "always"@ && s@ != "never"@),
    {
        proof {
            reveal_strlit("always");
            reveal_strlit("never");
            assert("always"@.len() != "never"@.len());
        }
        if str_equals(s, "always") {
            Some(UseSnapshotArchivesAtStartup::Always)
        } else if str_equals(s, "never") {
            Some(UseSnapshotArchivesAtStartup::Never)
        } else {
            None
        }
    }
}

/// Whether two strings hold the same characters.
fn str_equals(a: &str, b: &str) -> (r: bool)
    ensures
        r == (a@ == b@),
{
    let a_len = a.unicode_len();
    let b_len = b.unicode_len();
    if a_len != b_len {
        return false;
    }
    let mut i: usize = 0;
    while i < a_len
        invariant
            a_len == a@.len(),
            b_len == b@.len(),
            a_len == b_len,
            0 <= i <= a_len,
            forall|j: int| 0 <= j < i ==> a@[j] == b@[j],
        decreases a_len - i,
    {
        if a.get_char(i) != b.get_char(i) {
            return false;
        }
        i = i + 1;
    }
    assert(a@ =~= b@);
    true
}

} // verus!
