use vstd::prelude::*;

use std::sync::Arc;

verus! {

/// Hands out tokens that share one metric name; the metric counts the live tokens.
pub struct TokenCounter(Arc<&'static str>);

/// A token of a `TokenCounter`.
#[derive(Clone)]
pub struct CounterToken(Arc<&'static str>);

impl TokenCounter {
    /// Creates a new counter with the metric name `name`.
    pub fn new(name: &'static str) -> (r: Self)
        ensures
            r.name()@ == name@,
    {
        Self(Arc::new(name))
    }

    pub closed spec fn name(&self) -> &'static str {
        *self.0
    }

    /// Creates a new token for this counter's metric.
    pub fn create_token(&self) -> (r: CounterToken)
        ensures
            r.name() == self.name(),
    {
        CounterToken(self.0.clone())
    }
}

impl CounterToken {
    pub closed spec fn name(&self) -> &'static str {
        *self.0
    }
}

} // verus!
