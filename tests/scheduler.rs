use std::collections::HashMap;
use unified_scheduler::counter::Counter;
use unified_scheduler::page::Page;
use unified_scheduler::state_machine::SchedulingStateMachine;
use unified_scheduler::pubkey::Pubkey;
use unified_scheduler::task::{LockAttempt, PageLoader, SanitizedTransaction};
use unified_scheduler::usage::{LockStatus, RequestedUsage, Usage};

fn pubkey(n: u8) -> Pubkey {
    Pubkey::new_from_array([n; 32])
}

fn simplest_transaction() -> SanitizedTransaction {
    SanitizedTransaction::new(vec![pubkey(200)], vec![])
}

fn readonly_transaction(address: Pubkey, payer: Pubkey) -> SanitizedTransaction {
    SanitizedTransaction::new(vec![payer], vec![address, Pubkey::default()])
}

fn transaction_with_shared_writable(address: Pubkey, payer: Pubkey) -> SanitizedTransaction {
    SanitizedTransaction::new(vec![payer, address], vec![Pubkey::default()])
}

struct AddressLoader<'a> {
    state_machine: &'a mut SchedulingStateMachine,
    pages: &'a mut HashMap<Pubkey, Page>,
}

impl PageLoader for AddressLoader<'_> {
    fn load_page(&mut self, address: Pubkey) -> Page {
        let state_machine = &mut *self.state_machine;
        *self
            .pages
            .entry(address)
            .or_insert_with(|| state_machine.create_page())
    }
}

fn create_task(
    state_machine: &mut SchedulingStateMachine,
    pages: &mut HashMap<Pubkey, Page>,
    transaction: SanitizedTransaction,
    index: usize,
) -> unified_scheduler::task::Task {
    let mut loader = AddressLoader {
        state_machine,
        pages,
    };
    SchedulingStateMachine::create_task(transaction, index, &mut loader)
}

#[test]
fn test_debug() {
    assert_eq!(
        format!("{:?}", LockStatus::Succeded(Usage::Readonly(Counter::one()))),
        "Succeded(Readonly(Counter(1)))"
    );
    assert_eq!(
        format!("{:?}", LockAttempt::new(Page(0), RequestedUsage::Writable)),
        "LockAttempt { page: Page(0), requested_usage: Writable }"
    );
    let mut state_machine = SchedulingStateMachine::default();
    let mut pages = HashMap::new();
    let task = create_task(&mut state_machine, &mut pages, simplest_transaction(), 0);
    assert!(format!("{:?}", task).contains("TaskInner"));
}

#[test]
fn test_scheduling_state_machine_default() {
    let state_machine = SchedulingStateMachine::default();
    assert_eq!(state_machine.active_task_count(), 0);
    assert_eq!(state_machine.total_task_count(), 0);
    assert!(state_machine.is_empty());
}

#[test]
fn test_create_task() {
    let sanitized = simplest_transaction();
    let mut state_machine = SchedulingStateMachine::default();
    let mut pages = HashMap::new();
    let task = create_task(&mut state_machine, &mut pages, sanitized.clone(), 3);
    assert_eq!(task.task_index(), 3);
    assert_eq!(task.transaction(), &sanitized);
}

#[test]
fn test_schedule_non_conflicting_task() {
    let sanitized = simplest_transaction();
    let mut state_machine = SchedulingStateMachine::default();
    let mut pages = HashMap::new();
    let task = create_task(&mut state_machine, &mut pages, sanitized.clone(), 3);

    let task = state_machine.schedule_task_for_test(task).unwrap();
    assert_eq!(state_machine.active_task_count(), 1);
    assert_eq!(state_machine.total_task_count(), 1);
    state_machine.deschedule_task(&task);
    assert_eq!(state_machine.active_task_count(), 0);
    assert_eq!(state_machine.total_task_count(), 1);
    drop(task);
}

#[test]
fn test_schedule_conflicting_task() {
    let sanitized = simplest_transaction();
    let mut state_machine = SchedulingStateMachine::default();
    let mut pages = HashMap::new();
    let task1 = create_task(&mut state_machine, &mut pages, sanitized.clone(), 3);
    let task2 = create_task(&mut state_machine, &mut pages, sanitized.clone(), 4);

    assert!(matches!(state_machine.schedule_task_for_test(task1.clone()), Some(_)));
    assert!(matches!(state_machine.schedule_task_for_test(task2.clone()), None));

    state_machine.deschedule_task(&task1);
    assert!(state_machine.has_retryable_task());
    assert_eq!(state_machine.retryable_task_count(), 1);
    state_machine.clear_retryable_tasks();
    assert!(!state_machine.has_retryable_task());
    assert_eq!(state_machine.retryable_task_count(), 0);

    assert!(matches!(state_machine.schedule_task_for_test(task2.clone()), Some(_)));
}

#[test]
fn test_schedule_retryable_task() {
    let sanitized = simplest_transaction();
    let mut state_machine = SchedulingStateMachine::default();
    let mut pages = HashMap::new();
    let task1 = create_task(&mut state_machine, &mut pages, sanitized.clone(), 3);
    let task2 = create_task(&mut state_machine, &mut pages, sanitized.clone(), 4);

    assert!(matches!(state_machine.schedule_task_for_test(task1.clone()), Some(_)));
    assert!(matches!(state_machine.schedule_task_for_test(task2.clone()), None));

    state_machine.deschedule_task(&task1);

    assert_eq!(state_machine.reschedule_count(), 0);
    assert_eq!(state_machine.rescheduled_task_count(), 0);
    assert_eq!(
        state_machine
            .schedule_retryable_task_for_test()
            .unwrap()
            .task_index(),
        task2.task_index()
    );
    assert_eq!(state_machine.reschedule_count(), 1);
    assert_eq!(state_machine.rescheduled_task_count(), 1);
    assert!(matches!(state_machine.schedule_retryable_task_for_test(), None));
    assert_eq!(state_machine.reschedule_count(), 1);
    assert_eq!(state_machine.rescheduled_task_count(), 1);
}

#[test]
fn test_schedule_retryable_task2() {
    let sanitized = simplest_transaction();
    let mut state_machine = SchedulingStateMachine::default();
    let mut pages = HashMap::new();
    let task1 = create_task(&mut state_machine, &mut pages, sanitized.clone(), 3);
    let task2 = create_task(&mut state_machine, &mut pages, sanitized.clone(), 4);
    let task3 = create_task(&mut state_machine, &mut pages, sanitized.clone(), 0);

    assert!(matches!(state_machine.schedule_task_for_test(task1.clone()), Some(_)));
    assert!(matches!(state_machine.schedule_task_for_test(task2.clone()), None));

    assert_eq!(state_machine.retryable_task_count(), 0);
    state_machine.deschedule_task(&task1);
    assert_eq!(state_machine.retryable_task_count(), 1);

    assert!(matches!(state_machine.schedule_task_for_test(task3.clone()), Some(_)));

    assert_eq!(state_machine.reschedule_count(), 0);
    assert_eq!(state_machine.rescheduled_task_count(), 0);
    assert!(matches!(state_machine.schedule_retryable_task_for_test(), None));
    assert_eq!(state_machine.reschedule_count(), 1);
    assert_eq!(state_machine.rescheduled_task_count(), 0);
    assert!(matches!(state_machine.schedule_retryable_task_for_test(), None));
    assert_eq!(state_machine.reschedule_count(), 1);
    assert_eq!(state_machine.rescheduled_task_count(), 0);

    state_machine.deschedule_task(&task3);

    assert!(matches!(state_machine.schedule_retryable_task_for_test(), Some(_)));
    assert_eq!(state_machine.reschedule_count(), 2);
    assert_eq!(state_machine.rescheduled_task_count(), 1);

    state_machine.deschedule_task(&task2);
    assert!(state_machine.is_empty());
}

#[test]
fn test_schedule_retryable_task3() {
    let sanitized = simplest_transaction();
    let mut state_machine = SchedulingStateMachine::default();
    let mut pages = HashMap::new();
    let task1 = create_task(&mut state_machine, &mut pages, sanitized.clone(), 3);
    let task2 = create_task(&mut state_machine, &mut pages, sanitized.clone(), 4);
    let task3 = create_task(&mut state_machine, &mut pages, sanitized.clone(), 5);

    assert!(matches!(state_machine.schedule_task_for_test(task1.clone()), Some(_)));
    assert!(matches!(state_machine.schedule_task_for_test(task2.clone()), None));

    assert_eq!(state_machine.retryable_task_count(), 0);
    state_machine.deschedule_task(&task1);
    assert_eq!(state_machine.retryable_task_count(), 1);

    assert!(matches!(state_machine.schedule_task_for_test(task3.clone()), None));
}

#[test]
fn test_schedule_multiple_readonly_task() {
    let conflicting_address = pubkey(1);
    let sanitized1 = readonly_transaction(conflicting_address, pubkey(11));
    let sanitized2 = readonly_transaction(conflicting_address, pubkey(12));
    let mut state_machine = SchedulingStateMachine::default();
    let mut pages = HashMap::new();
    let task1 = create_task(&mut state_machine, &mut pages, sanitized1, 3);
    let task2 = create_task(&mut state_machine, &mut pages, sanitized2, 4);

    assert!(matches!(state_machine.schedule_task_for_test(task1.clone()), Some(_)));
    assert!(matches!(state_machine.schedule_task_for_test(task2.clone()), Some(_)));

    assert_eq!(state_machine.active_task_count(), 2);
    assert_eq!(state_machine.handled_task_count(), 0);
    assert_eq!(state_machine.retryable_task_count(), 0);
    state_machine.deschedule_task(&task1);
    assert_eq!(state_machine.active_task_count(), 1);
    assert_eq!(state_machine.handled_task_count(), 1);
    assert_eq!(state_machine.retryable_task_count(), 0);
    state_machine.deschedule_task(&task2);
    assert_eq!(state_machine.active_task_count(), 0);
    assert_eq!(state_machine.handled_task_count(), 2);
}

#[test]
fn test_schedule_multiple_writable_tasks() {
    let conflicting_address = pubkey(1);
    let sanitized1 = readonly_transaction(conflicting_address, pubkey(11));
    let sanitized2 = readonly_transaction(conflicting_address, pubkey(12));
    let sanitized3 = transaction_with_shared_writable(conflicting_address, pubkey(13));
    let mut state_machine = SchedulingStateMachine::default();
    let mut pages = HashMap::new();
    let task1 = create_task(&mut state_machine, &mut pages, sanitized1, 3);
    let task2 = create_task(&mut state_machine, &mut pages, sanitized2, 4);
    let task3 = create_task(&mut state_machine, &mut pages, sanitized3, 5);

    assert!(matches!(
        state_machine
            .schedule_task_for_test(task1.clone())
            .map(|t| t.task_index()),
        Some(3)
    ));
    assert!(matches!(
        state_machine
            .schedule_task_for_test(task2.clone())
            .map(|t| t.task_index()),
        Some(4)
    ));
    assert!(matches!(state_machine.schedule_task_for_test(task3.clone()), None));

    assert_eq!(state_machine.active_task_count(), 3);
    assert_eq!(state_machine.handled_task_count(), 0);
    assert_eq!(state_machine.retryable_task_count(), 0);
    state_machine.deschedule_task(&task1);
    assert_eq!(state_machine.active_task_count(), 2);
    assert_eq!(state_machine.handled_task_count(), 1);
    assert_eq!(state_machine.retryable_task_count(), 0);
    state_machine.deschedule_task(&task2);
    assert_eq!(state_machine.active_task_count(), 1);
    assert_eq!(state_machine.handled_task_count(), 2);
    assert_eq!(state_machine.retryable_task_count(), 1);
}

#[test]
fn test_schedule_rw_mixed() {
    let conflicting_address = pubkey(1);
    let sanitized1 = readonly_transaction(conflicting_address, pubkey(11));
    let sanitized2 = transaction_with_shared_writable(conflicting_address, pubkey(12));
    let sanitized3 = readonly_transaction(conflicting_address, pubkey(13));
    let mut state_machine = SchedulingStateMachine::default();
    let mut pages = HashMap::new();
    let task1 = create_task(&mut state_machine, &mut pages, sanitized1, 3);
    let task2 = create_task(&mut state_machine, &mut pages, sanitized2, 4);
    let task3 = create_task(&mut state_machine, &mut pages, sanitized3, 5);

    assert!(matches!(
        state_machine
            .schedule_task_for_test(task1.clone())
            .map(|t| t.task_index()),
        Some(3)
    ));
    assert!(matches!(state_machine.schedule_task_for_test(task2.clone()), None));
    assert!(matches!(state_machine.schedule_task_for_test(task3.clone()), None));

    assert_eq!(state_machine.active_task_count(), 3);
    assert_eq!(state_machine.handled_task_count(), 0);
    assert_eq!(state_machine.retryable_task_count(), 0);
    state_machine.deschedule_task(&task1);
    assert_eq!(state_machine.active_task_count(), 2);
    assert_eq!(state_machine.handled_task_count(), 1);
    assert_eq!(state_machine.retryable_task_count(), 1);
    assert!(matches!(
        state_machine
            .schedule_retryable_task_for_test()
            .map(|t| t.task_index()),
        Some(4)
    ));
}

#[test]
fn test_schedule_writable_after_readonly() {
    let conflicting_address = pubkey(1);
    let sanitized1 = readonly_transaction(conflicting_address, pubkey(11));
    let sanitized2 = transaction_with_shared_writable(conflicting_address, pubkey(12));
    let mut state_machine = SchedulingStateMachine::default();
    let mut pages = HashMap::new();
    let task1 = create_task(&mut state_machine, &mut pages, sanitized1, 3);
    let task2 = create_task(&mut state_machine, &mut pages, sanitized2, 4);

    assert!(matches!(state_machine.schedule_task_for_test(task1.clone()), Some(_)));
    assert!(matches!(state_machine.schedule_task_for_test(task2.clone()), None));

    state_machine.deschedule_task(&task1);
    assert!(matches!(state_machine.schedule_retryable_task_for_test(), Some(_)));
    state_machine.deschedule_task(&task2);
}

#[test]
fn test_schedule_readonly_after_writable() {
    let conflicting_address = pubkey(1);
    let sanitized1 = transaction_with_shared_writable(conflicting_address, pubkey(11));
    let sanitized2 = readonly_transaction(conflicting_address, pubkey(12));
    let sanitized3 = readonly_transaction(conflicting_address, pubkey(13));
    let mut state_machine = SchedulingStateMachine::default();
    let mut pages = HashMap::new();
    let task1 = create_task(&mut state_machine, &mut pages, sanitized1, 3);
    let task2 = create_task(&mut state_machine, &mut pages, sanitized2, 4);
    let task3 = create_task(&mut state_machine, &mut pages, sanitized3, 5);

    assert!(matches!(state_machine.schedule_task_for_test(task1.clone()), Some(_)));
    assert!(matches!(state_machine.schedule_task_for_test(task2.clone()), None));
    assert!(matches!(state_machine.schedule_task_for_test(task3.clone()), None));

    state_machine.deschedule_task(&task1);
    assert!(matches!(state_machine.schedule_retryable_task_for_test(), Some(_)));
    assert!(matches!(state_machine.schedule_retryable_task_for_test(), Some(_)));
}

#[test]
fn test_rollback() {
    let conflicting_address = pubkey(1);
    let payer2 = pubkey(12);
    let sanitized1 = transaction_with_shared_writable(conflicting_address, pubkey(11));
    let sanitized2 = transaction_with_shared_writable(conflicting_address, payer2);
    let mut state_machine = SchedulingStateMachine::default();
    let mut pages = HashMap::new();
    let task1 = create_task(&mut state_machine, &mut pages, sanitized1, 3);
    let task2 = create_task(&mut state_machine, &mut pages, sanitized2, 4);

    assert!(matches!(state_machine.schedule_task_for_test(task1.clone()), Some(_)));
    assert!(matches!(state_machine.schedule_task_for_test(task2.clone()), None));
    let page = pages.get(&conflicting_address).unwrap();
    assert!(matches!(state_machine.page_usage(*page), Usage::Writable));
    let page = pages.get(&payer2).unwrap();
    assert!(matches!(state_machine.page_usage(*page), Usage::Unused));
}
