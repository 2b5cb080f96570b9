use supamonitor::chain::{check_startup, Delegation, HookSlot, InitError, Phase};

const PHASES: [Phase; 7] = [
    Phase::Analyze,
    Phase::Plan,
    Phase::ExecutorStart,
    Phase::ExecutorRun,
    Phase::ExecutorFinish,
    Phase::ExecutorEnd,
    Phase::ProcessUtility,
];

#[test]
fn fresh_slot_is_not_installed() {
    let slot: HookSlot<u32> = HookSlot::new();
    assert!(!slot.is_installed());
    assert_eq!(slot.previous(), None);
}

#[test]
fn install_captures_the_earlier_handler_and_registers_its_own() {
    let mut slot: HookSlot<u32> = HookSlot::new();
    let mut host = Some(11);
    slot.install(&mut host, 22);
    assert!(slot.is_installed());
    assert_eq!(slot.previous(), Some(11));
    assert_eq!(host, Some(22));
}

#[test]
fn install_on_an_empty_phase_has_no_fallback() {
    let mut slot: HookSlot<u32> = HookSlot::new();
    let mut host = None;
    slot.install(&mut host, 22);
    assert!(slot.is_installed());
    assert_eq!(slot.previous(), None);
    assert_eq!(host, Some(22));
}

#[test]
fn installing_twice_does_not_make_the_observer_its_own_fallback() {
    let mut slot: HookSlot<u32> = HookSlot::new();
    let mut host = Some(11);
    slot.install(&mut host, 22);
    slot.install(&mut host, 22);
    assert_eq!(slot.previous(), Some(11));
    assert_eq!(host, Some(22));
    match slot.delegation(Phase::Plan) {
        Delegation::Previous(handler) => assert_eq!(handler, 11),
        other => panic!("unexpected delegation {:?}", other),
    }
}

#[test]
fn installing_twice_on_an_empty_phase_keeps_the_standard_behaviour() {
    let mut slot: HookSlot<u32> = HookSlot::new();
    let mut host = None;
    slot.install(&mut host, 22);
    slot.install(&mut host, 22);
    assert_eq!(slot.previous(), None);
    assert!(matches!(slot.delegation(Phase::ExecutorRun), Delegation::Standard));
}

#[test]
fn later_install_leaves_a_handler_registered_on_top_alone() {
    let mut slot: HookSlot<u32> = HookSlot::new();
    let mut host = Some(11);
    slot.install(&mut host, 22);
    host = Some(33);
    slot.install(&mut host, 22);
    assert_eq!(host, Some(33));
    assert_eq!(slot.previous(), Some(11));
}

#[test]
fn delegation_prefers_the_earlier_handler_in_every_phase() {
    for phase in PHASES {
        let mut slot: HookSlot<u32> = HookSlot::new();
        let mut host = Some(7);
        slot.install(&mut host, 8);
        assert!(matches!(slot.delegation(phase), Delegation::Previous(7)));
    }
}

#[test]
fn delegation_without_earlier_handler_goes_to_the_standard_behaviour() {
    for phase in PHASES {
        let mut slot: HookSlot<u32> = HookSlot::new();
        let mut host = None;
        slot.install(&mut host, 8);
        let delegation = slot.delegation(phase);
        if phase == Phase::Analyze {
            assert!(matches!(delegation, Delegation::Finished));
        } else {
            assert!(matches!(delegation, Delegation::Standard));
        }
    }
}

#[test]
fn only_analysis_lacks_standard_behaviour() {
    for phase in PHASES {
        assert_eq!(phase.has_standard_handler(), phase != Phase::Analyze);
    }
}

#[test]
fn slots_hold_function_pointers() {
    fn earlier(x: i32) -> i32 {
        x + 1
    }
    fn own(x: i32) -> i32 {
        x * 2
    }
    let mut slot: HookSlot<fn(i32) -> i32> = HookSlot::new();
    let mut host: Option<fn(i32) -> i32> = Some(earlier);
    slot.install(&mut host, own);
    slot.install(&mut host, own);
    assert_eq!(host.unwrap()(10), 20);
    match slot.delegation(Phase::Plan) {
        Delegation::Previous(handler) => assert_eq!(handler(10), 11),
        _ => panic!("the earlier handler was lost"),
    }
}

#[test]
fn startup_is_allowed_only_while_preloading() {
    assert_eq!(check_startup(true), Ok(()));
    assert_eq!(check_startup(false), Err(InitError::NotPreloaded));
    assert_eq!(
        InitError::NotPreloaded.message(),
        "this extension must be loaded via shared_preload_libraries."
    );
}
