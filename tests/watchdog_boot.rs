use watchdog::peripheral::{Channel, Wdt, WdtState, Watchdog};
use watchdog::registry::{
    claim_and_activate, claim_step, init_watchdogs, Activation, ClaimAction, ClaimEvent, Parts,
    RecoveryFailed, BOOT_HANDLE_COUNT, BOOT_TIMEOUT_TICKS, LFOSC_HZ,
};

fn boot(timeout: u32, count: usize) -> Parts {
    match claim_and_activate(Wdt::power_on(), timeout, count) {
        Ok(p) => p,
        Err(_) => panic!("a fresh peripheral must be claimable"),
    }
}

fn warm(watchdog: Watchdog) -> Wdt {
    watchdog.warm_reset()
}

#[test]
fn boot_constants() {
    assert_eq!(LFOSC_HZ, 32768);
    assert_eq!(BOOT_TIMEOUT_TICKS, 163840);
    assert_eq!(BOOT_HANDLE_COUNT, 4);
}

#[test]
fn fresh_activation_gives_four_unserviced_handles() {
    let p = match init_watchdogs(Wdt::power_on()) {
        Ok(p) => p,
        Err(_) => panic!("fresh boot failed"),
    };
    assert_eq!(p.activation, Activation::Fresh);
    assert_eq!(p.handles.len(), 4);
    assert_eq!(p.watchdog.handle_count(), 4);
    assert_eq!(p.watchdog.state(), WdtState::Activated);
    assert_eq!(p.watchdog.timeout_ticks(), 163840);
    for (k, h) in p.handles.iter().enumerate() {
        assert_eq!(h.index(), k);
        assert_eq!(p.watchdog.channel(k), Channel { serviced: false, remaining: 163840 });
    }
}

#[test]
fn fresh_activation_with_one_channel() {
    let p = boot(20, 1);
    assert_eq!(p.handles.len(), 1);
    assert_eq!(p.watchdog.channel(0), Channel { serviced: false, remaining: 20 });
}

#[test]
fn power_on_peripheral_is_inactive() {
    let w = Wdt::power_on();
    assert!(!w.is_active());
}

#[test]
fn recovery_services_every_handle_and_keeps_timeout() {
    let mut p = boot(BOOT_TIMEOUT_TICKS, 4);
    assert!(!p.watchdog.advance(1000));
    let again = warm(p.watchdog);
    assert!(again.is_active());
    let q = match init_watchdogs(again) {
        Ok(q) => q,
        Err(_) => panic!("recovery with the same count must succeed"),
    };
    assert_eq!(q.activation, Activation::Recovered);
    assert_eq!(q.handles.len(), 4);
    assert_eq!(q.watchdog.state(), WdtState::Activated);
    for k in 0..4 {
        assert_eq!(q.handles[k].index(), k);
        assert_eq!(q.watchdog.channel(k), Channel { serviced: true, remaining: 163840 });
    }
}

#[test]
fn recovery_does_not_reconfigure_timeout() {
    let p = boot(500, 3);
    let q = match claim_and_activate(warm(p.watchdog), 9999, 3) {
        Ok(q) => q,
        Err(_) => panic!("recovery failed"),
    };
    assert_eq!(q.activation, Activation::Recovered);
    assert_eq!(q.watchdog.timeout_ticks(), 500);
}

#[test]
fn recovery_twice_is_idempotent() {
    let p = boot(BOOT_TIMEOUT_TICKS, 4);
    let q = init_watchdogs(warm(p.watchdog)).ok().unwrap();
    let r = init_watchdogs(warm(q.watchdog)).ok().unwrap();
    assert_eq!(r.activation, Activation::Recovered);
    for k in 0..4 {
        assert_eq!(r.watchdog.channel(k), Channel { serviced: true, remaining: 163840 });
    }
}

#[test]
fn recovery_with_other_count_fails() {
    let p = boot(BOOT_TIMEOUT_TICKS, 2);
    let r = init_watchdogs(warm(p.watchdog));
    assert!(matches!(r, Err(RecoveryFailed)));
}

#[test]
fn recovery_with_larger_request_fails() {
    let p = boot(BOOT_TIMEOUT_TICKS, 4);
    assert!(claim_and_activate(warm(p.watchdog), BOOT_TIMEOUT_TICKS, 3).is_err());
}

#[test]
fn watchdog_reset_returns_peripheral_to_power_on() {
    let mut p = boot(10, 4);
    assert!(p.watchdog.advance(10));
    assert_eq!(p.watchdog.state(), WdtState::ResetPending);
    let again = warm(p.watchdog);
    assert!(!again.is_active());
    let q = init_watchdogs(again).ok().unwrap();
    assert_eq!(q.activation, Activation::Fresh);
    assert_eq!(q.watchdog.timeout_ticks(), 163840);
}

#[test]
fn claim_step_activates_inactive_peripheral() {
    assert_eq!(
        claim_step(ClaimEvent::Inactive, 163840, 4),
        ClaimAction::Activate { timeout_ticks: 163840, handle_count: 4 }
    );
}

#[test]
fn claim_step_recovers_active_peripheral() {
    assert_eq!(claim_step(ClaimEvent::Active, 163840, 3), ClaimAction::Recover { handle_count: 3 });
}

#[test]
fn claim_step_services_all_after_recovery() {
    assert_eq!(
        claim_step(ClaimEvent::RecoverAccepted, 163840, 4),
        ClaimAction::ServiceAll { handle_count: 4 }
    );
}

#[test]
fn claim_step_halts_when_recovery_rejected() {
    assert_eq!(claim_step(ClaimEvent::RecoverRejected, 163840, 4), ClaimAction::Halt);
}
