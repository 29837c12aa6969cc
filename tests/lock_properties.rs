use std::collections::HashMap;
use unified_scheduler::counter::Counter;
use unified_scheduler::page::Page;
use unified_scheduler::pubkey::Pubkey;
use unified_scheduler::state_machine::SchedulingStateMachine;
use unified_scheduler::task::{PageLoader, SanitizedTransaction, Task};
use unified_scheduler::usage::Usage;

fn pubkey(n: u8) -> Pubkey {
    Pubkey::new_from_array([n; 32])
}

/// The batch index that gives a task the weight `weight`.
fn index_of_weight(weight: u64) -> usize {
    usize::MAX - weight as usize
}

struct AddressLoader<'a> {
    state_machine: &'a mut SchedulingStateMachine,
    pages: &'a mut HashMap<Pubkey, Page>,
}

impl PageLoader for AddressLoader<'_> {
    fn load_page(&mut self, address: Pubkey) -> Page {
        let state_machine = &mut *self.state_machine;
        *self
            .pages
            .entry(address)
            .or_insert_with(|| state_machine.create_page())
    }
}

fn task(
    state_machine: &mut SchedulingStateMachine,
    pages: &mut HashMap<Pubkey, Page>,
    writable: Vec<Pubkey>,
    readonly: Vec<Pubkey>,
    index: usize,
) -> Task {
    let mut loader = AddressLoader {
        state_machine,
        pages,
    };
    SchedulingStateMachine::create_task(
        SanitizedTransaction::new(writable, readonly),
        index,
        &mut loader,
    )
}

fn assert_counts_balance(state_machine: &SchedulingStateMachine) {
    assert_eq!(
        state_machine.total_task_count(),
        state_machine.active_task_count() + state_machine.handled_task_count()
    );
}

#[test]
fn writable_page_admits_no_second_writer() {
    let x = pubkey(1);
    let mut sm = SchedulingStateMachine::default();
    let mut pages = HashMap::new();
    let first = task(&mut sm, &mut pages, vec![x], vec![], 0);
    let second = task(&mut sm, &mut pages, vec![x], vec![], 1);
    let reader = task(&mut sm, &mut pages, vec![], vec![x], 2);
    assert!(sm.schedule_task_for_test(first.clone()).is_some());
    assert!(matches!(sm.page_usage(pages[&x]), Usage::Writable));
    assert!(sm.schedule_task_for_test(second.clone()).is_none());
    assert!(sm.schedule_task_for_test(reader.clone()).is_none());
    assert!(matches!(sm.page_usage(pages[&x]), Usage::Writable));
    sm.deschedule_task(&first);
    assert!(matches!(sm.page_usage(pages[&x]), Usage::Unused));
    let retried = sm.schedule_retryable_task_for_test().unwrap();
    assert_eq!(retried.task_index(), 1);
    assert!(matches!(sm.page_usage(pages[&x]), Usage::Writable));
}

#[test]
fn readers_of_one_address_all_run_together() {
    let x = pubkey(1);
    let mut sm = SchedulingStateMachine::default();
    let mut pages = HashMap::new();
    let readers: Vec<Task> = (0..5)
        .map(|i| task(&mut sm, &mut pages, vec![], vec![x], i))
        .collect();
    for reader in &readers {
        assert!(sm.schedule_task_for_test(reader.clone()).is_some());
    }
    assert!(matches!(
        sm.page_usage(pages[&x]),
        Usage::Readonly(Counter(5))
    ));
    assert_eq!(sm.active_task_count(), 5);
    assert_eq!(sm.retryable_task_count(), 0);
    for reader in &readers {
        sm.deschedule_task(reader);
    }
    assert!(matches!(sm.page_usage(pages[&x]), Usage::Unused));
    assert!(sm.is_empty());
}

#[test]
fn lower_weight_writer_waits_for_higher_one() {
    let x = pubkey(1);
    let mut sm = SchedulingStateMachine::default();
    let mut pages = HashMap::new();
    let a = task(&mut sm, &mut pages, vec![x], vec![], index_of_weight(10));
    let b = task(&mut sm, &mut pages, vec![x], vec![], index_of_weight(5));
    assert!(sm.schedule_task_for_test(a.clone()).is_some());
    assert!(sm.schedule_task_for_test(b.clone()).is_none());
    assert_eq!(sm.retryable_task_count(), 0);
    sm.deschedule_task(&a);
    assert_eq!(sm.retryable_task_count(), 1);
    let head = sm.schedule_retryable_task_for_test().unwrap();
    assert_eq!(head.task_index(), b.task_index());
    assert_eq!(sm.rescheduled_task_count(), 1);
}

#[test]
fn reader_passes_waiting_writer_only_when_heavier() {
    let x = pubkey(1);
    let mut sm = SchedulingStateMachine::default();
    let mut pages = HashMap::new();
    let holder = task(&mut sm, &mut pages, vec![], vec![x], index_of_weight(20));
    let writer = task(&mut sm, &mut pages, vec![x], vec![], index_of_weight(5));
    let heavy_reader = task(&mut sm, &mut pages, vec![], vec![x], index_of_weight(10));
    let light_reader = task(&mut sm, &mut pages, vec![], vec![x], index_of_weight(3));
    assert!(sm.schedule_task_for_test(holder.clone()).is_some());
    // the writer conflicts with the reading holder and waits
    assert!(sm.schedule_task_for_test(writer.clone()).is_none());
    // weight 10 outranks the waiting writer (weight 5): granted
    assert!(sm.schedule_task_for_test(heavy_reader.clone()).is_some());
    // weight 3 is outranked by the waiting writer: refused
    assert!(sm.schedule_task_for_test(light_reader.clone()).is_none());
    assert!(matches!(
        sm.page_usage(pages[&x]),
        Usage::Readonly(Counter(2))
    ));
}

#[test]
fn failed_schedule_gives_back_written_account() {
    let a = pubkey(1);
    let b = pubkey(2);
    let mut sm = SchedulingStateMachine::default();
    let mut pages = HashMap::new();
    let holder = task(&mut sm, &mut pages, vec![b], vec![], 0);
    let both = task(&mut sm, &mut pages, vec![a, b], vec![], 1);
    assert!(sm.schedule_task_for_test(holder).is_some());
    assert!(sm.schedule_task_for_test(both).is_none());
    assert!(matches!(sm.page_usage(pages[&a]), Usage::Unused));
    assert!(matches!(sm.page_usage(pages[&b]), Usage::Writable));
}

#[test]
fn failed_schedule_gives_back_read_account() {
    let a = pubkey(1);
    let b = pubkey(2);
    let mut sm = SchedulingStateMachine::default();
    let mut pages = HashMap::new();
    let reader = task(&mut sm, &mut pages, vec![], vec![a], 0);
    let writer = task(&mut sm, &mut pages, vec![b], vec![], 1);
    let both = task(&mut sm, &mut pages, vec![], vec![a, b], 2);
    assert!(sm.schedule_task_for_test(reader).is_some());
    assert!(sm.schedule_task_for_test(writer).is_some());
    assert!(sm.schedule_task_for_test(both).is_none());
    assert!(matches!(
        sm.page_usage(pages[&a]),
        Usage::Readonly(Counter(1))
    ));
}

#[test]
fn task_counts_balance_after_every_call() {
    let x = pubkey(1);
    let mut sm = SchedulingStateMachine::default();
    let mut pages = HashMap::new();
    let t1 = task(&mut sm, &mut pages, vec![x], vec![], 0);
    let t2 = task(&mut sm, &mut pages, vec![x], vec![], 1);
    let t3 = task(&mut sm, &mut pages, vec![], vec![x], 2);
    assert_counts_balance(&sm);
    sm.schedule_task_for_test(t1.clone());
    assert_counts_balance(&sm);
    sm.schedule_task_for_test(t2.clone());
    assert_counts_balance(&sm);
    sm.schedule_task_for_test(t3.clone());
    assert_counts_balance(&sm);
    sm.deschedule_task(&t1);
    assert_counts_balance(&sm);
    let retried = sm.schedule_retryable_task_for_test().unwrap();
    assert_counts_balance(&sm);
    sm.deschedule_task(&retried);
    assert_counts_balance(&sm);
    assert_eq!(sm.total_task_count(), 3);
    assert_eq!(sm.active_task_count(), 1);
    assert_eq!(sm.handled_task_count(), 2);
}

#[test]
fn retried_reader_wakes_next_reader() {
    let x = pubkey(1);
    let mut sm = SchedulingStateMachine::default();
    let mut pages = HashMap::new();
    let writer = task(&mut sm, &mut pages, vec![x], vec![], index_of_weight(20));
    let r1 = task(&mut sm, &mut pages, vec![], vec![x], index_of_weight(10));
    let r2 = task(&mut sm, &mut pages, vec![], vec![x], index_of_weight(8));
    assert!(sm.schedule_task_for_test(writer.clone()).is_some());
    assert!(sm.schedule_task_for_test(r1.clone()).is_none());
    assert!(sm.schedule_task_for_test(r2.clone()).is_none());
    sm.deschedule_task(&writer);
    // only the heaviest waiter is queued by the release
    assert_eq!(sm.retryable_task_count(), 1);
    let first = sm.schedule_retryable_task_for_test().unwrap();
    assert_eq!(first.task_index(), r1.task_index());
    // r1's success queued r2 without another release
    assert_eq!(sm.retryable_task_count(), 1);
    let second = sm.schedule_retryable_task_for_test().unwrap();
    assert_eq!(second.task_index(), r2.task_index());
    assert!(matches!(
        sm.page_usage(pages[&x]),
        Usage::Readonly(Counter(2))
    ));
}

#[test]
fn concrete_batch_scenario() {
    let p = pubkey(7);
    let mut sm = SchedulingStateMachine::default();
    let mut pages = HashMap::new();
    let t1 = task(&mut sm, &mut pages, vec![p], vec![], 3);
    let t2 = task(&mut sm, &mut pages, vec![p], vec![], 4);
    assert!(sm.schedule_task_for_test(t1.clone()).is_some());
    assert!(sm.schedule_task_for_test(t2.clone()).is_none());
    sm.deschedule_task(&t1);
    let retried = sm.schedule_retryable_task_for_test().unwrap();
    assert_eq!(retried.task_index(), 4);
}

#[test]
fn retry_queue_hands_out_heaviest_first() {
    let x = pubkey(1);
    let y = pubkey(2);
    let mut sm = SchedulingStateMachine::default();
    let mut pages = HashMap::new();
    let holder = task(&mut sm, &mut pages, vec![x, y], vec![], 0);
    let on_x = task(&mut sm, &mut pages, vec![x], vec![], 7);
    let on_y = task(&mut sm, &mut pages, vec![y], vec![], 5);
    assert!(sm.schedule_task_for_test(holder.clone()).is_some());
    assert!(sm.schedule_task_for_test(on_x.clone()).is_none());
    assert!(sm.schedule_task_for_test(on_y.clone()).is_none());
    sm.deschedule_task(&holder);
    assert_eq!(sm.retryable_task_count(), 2);
    assert_eq!(sm.schedule_retryable_task_for_test().unwrap().task_index(), 5);
    assert_eq!(sm.schedule_retryable_task_for_test().unwrap().task_index(), 7);
    assert!(!sm.has_retryable_task());
    assert_eq!(sm.reschedule_count(), 2);
}

#[test]
fn task_without_accounts_always_runs() {
    let mut sm = SchedulingStateMachine::default();
    let mut pages = HashMap::new();
    let empty = task(&mut sm, &mut pages, vec![], vec![], 9);
    assert_eq!(empty.lock_attempts().len(), 0);
    assert!(sm.schedule_task_for_test(empty.clone()).is_some());
    sm.deschedule_task(&empty);
    assert!(sm.is_empty());
}

#[test]
fn create_task_orders_writable_before_readonly() {
    let mut sm = SchedulingStateMachine::default();
    let mut pages = HashMap::new();
    let t = task(&mut sm, &mut pages, vec![pubkey(1), pubkey(2)], vec![pubkey(3)], 0);
    let kinds: Vec<String> = t
        .lock_attempts()
        .iter()
        .map(|a| format!("{:?}", a.requested_usage))
        .collect();
    assert_eq!(kinds, vec!["Writable", "Writable", "Readonly"]);
    assert_eq!(t.lock_attempts()[2].page, pages[&pubkey(3)]);
    assert_eq!(t.unique_weight, u64::MAX);
    assert_eq!(t.task_index(), 0);
}

#[test]
fn retry_of_blocked_task_fails_without_requeue() {
    let x = pubkey(1);
    let mut sm = SchedulingStateMachine::default();
    let mut pages = HashMap::new();
    let t1 = task(&mut sm, &mut pages, vec![x], vec![], 3);
    let t2 = task(&mut sm, &mut pages, vec![x], vec![], 4);
    let t3 = task(&mut sm, &mut pages, vec![x], vec![], 0);
    assert!(sm.schedule_task_for_test(t1.clone()).is_some());
    assert!(sm.schedule_task_for_test(t2.clone()).is_none());
    sm.deschedule_task(&t1);
    assert!(sm.schedule_task_for_test(t3.clone()).is_some());
    assert!(sm.schedule_retryable_task_for_test().is_none());
    assert_eq!(sm.retryable_task_count(), 0);
    assert_eq!(sm.reschedule_count(), 1);
    assert_eq!(sm.rescheduled_task_count(), 0);
}
