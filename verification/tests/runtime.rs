use armx64::jit::{CodeCache, Hotness};
use armx64::runtime::{count_hit, DispatchRun, Dispatcher, GuestMemory, GuestState, MapError, RunAction, RunError, HOST_BASE};

#[test]
fn register_31_reads_as_zero_and_ignores_writes() {
    let mut state = GuestState::new();
    state.write_x(3, 77);
    state.write_x(31, 99);
    assert_eq!(state.read_x(3), 77);
    assert_eq!(state.read_x(31), 0);
    assert_eq!(state.gpr[3], 77);
    state.write_sp(0x8000);
    assert_eq!(state.read_sp(), 0x8000);
    assert_eq!(state.read_x(31), 0);
}

#[test]
fn guest_memory_only_at_host_base() {
    assert_eq!(GuestMemory::check_request(0), Err(MapError::ZeroSize));
    assert_eq!(GuestMemory::check_request(4096), Ok(()));
    assert!(matches!(GuestMemory::from_mapping(0x1000, 4096), Err(MapError::NotAtHostBase)));
    assert!(matches!(GuestMemory::from_mapping(HOST_BASE as usize, 0), Err(MapError::ZeroSize)));
    let memory = GuestMemory::from_mapping(HOST_BASE as usize, 4096).unwrap();
    assert_eq!(memory.base(), HOST_BASE as usize);
    assert_eq!(memory.size(), 4096);
    assert_eq!(memory.host_address(0x10), HOST_BASE as usize + 0x10);
    assert!(memory.access_in_bounds(4088, 8));
    assert!(!memory.access_in_bounds(4092, 8));
    assert!(!memory.access_in_bounds(usize::MAX, 8));
}

#[test]
fn hotness_counts_hits() {
    let mut hot = Hotness::default();
    assert!(hot.is_hot(0));
    assert!(!hot.is_hot(2));
    assert_eq!(hot.hit(), 1);
    assert_eq!(hot.hit(), 2);
    assert!(hot.is_hot(2));
}

#[test]
fn hit_counts_saturate() {
    assert_eq!(count_hit(5), 6);
    assert_eq!(count_hit(u32::MAX), u32::MAX);
}

#[test]
fn code_cache_publishes_the_installed_address() {
    let cache = CodeCache::default();
    assert_eq!(cache.load(), 0);
    cache.install(0xdead_0000);
    assert_eq!(cache.load(), 0xdead_0000);
}

#[test]
fn dispatch_run_spends_its_budget() {
    let mut dispatcher: Dispatcher<&'static str> = Dispatcher::new();
    dispatcher.insert_block(0x1000, "first");
    dispatcher.insert_block(0x1004, "second");
    assert!(dispatcher.has_block(0x1000));
    assert!(!dispatcher.has_block(0x1008));
    assert_eq!(dispatcher.block_count(), 2);
    let mut run = DispatchRun::new(2);
    assert_eq!(dispatcher.next_step(&mut run, 0x1000), RunAction::Execute { pc: 0x1000 });
    assert_eq!(dispatcher.code(0x1000), Some(&"first"));
    assert_eq!(dispatcher.after_block(0x1004), None);
    assert_eq!(dispatcher.next_step(&mut run, 0x1004), RunAction::Execute { pc: 0x1004 });
    assert_eq!(dispatcher.next_step(&mut run, 0x1000), RunAction::Fail(RunError::BudgetExhausted));
    assert_eq!(run.remaining, 0);
    assert_eq!(dispatcher.blocks_executed, 2);
    assert_eq!(dispatcher.hit_count(0x1000), 1);
    assert_eq!(dispatcher.hit_count(0x1004), 1);
    assert_eq!(dispatcher.hit_count(0x2000), 0);
    assert_eq!(dispatcher.after_block(0x2000), Some(0x2000));
}

#[test]
fn dispatch_run_needs_a_block_to_start() {
    let mut dispatcher: Dispatcher<u8> = Dispatcher::default();
    let mut run = DispatchRun::new(5);
    assert_eq!(dispatcher.next_step(&mut run, 0x4000), RunAction::Fail(RunError::NoBlock { pc: 0x4000 }));
    assert_eq!(run.remaining, 5);
    assert_eq!(dispatcher.blocks_executed, 0);
    assert_eq!(dispatcher.block_count(), 0);
    assert_eq!(dispatcher.code(0x4000), None);
}

#[test]
fn reinstalling_a_block_replaces_its_code_and_clears_its_hits() {
    let mut dispatcher: Dispatcher<u32> = Dispatcher::new();
    dispatcher.insert_block(0x1000, 1);
    dispatcher.insert_block(0x2000, 2);
    let mut run = DispatchRun::new(10);
    assert_eq!(dispatcher.next_step(&mut run, 0x1000), RunAction::Execute { pc: 0x1000 });
    assert_eq!(dispatcher.next_step(&mut run, 0x1000), RunAction::Execute { pc: 0x1000 });
    assert_eq!(dispatcher.hit_count(0x1000), 2);
    dispatcher.insert_block(0x1000, 3);
    assert_eq!(dispatcher.block_count(), 2);
    assert_eq!(dispatcher.hit_count(0x1000), 0);
    assert_eq!(dispatcher.code(0x1000), Some(&3));
    assert_eq!(dispatcher.code(0x2000), Some(&2));
    assert_eq!(dispatcher.blocks_executed, 2);
}
