#[test]
fn test_scheduler_pool_filo() {}

#[test]
fn test_scheduler_pool_context_replace() {}
