use watchdog::peripheral::{Channel, Wdt, WdtState};
use watchdog::registry::{claim_and_activate, init_watchdogs, Parts};
use watchdog::supervisor::{groom_action, groomer_task, GroomAction, Indicator};

fn boot(timeout: u32) -> Parts {
    claim_and_activate(Wdt::power_on(), timeout, 4).ok().unwrap()
}

#[test]
fn action_for_unserviced_handle() {
    assert_eq!(groom_action(false), GroomAction { service: true, indicator: Indicator::Fault });
}

#[test]
fn action_for_serviced_handle() {
    assert_eq!(groom_action(true), GroomAction { service: false, indicator: Indicator::Healthy });
}

#[test]
fn groom_services_unserviced_handle() {
    let mut p = boot(100);
    assert!(!p.watchdog.advance(40));
    let mut led = Indicator::Healthy;
    groomer_task(&mut led, &mut p.watchdog, &p.handles[2]);
    assert_eq!(led, Indicator::Fault);
    assert_eq!(p.watchdog.channel(2), Channel { serviced: true, remaining: 100 });
}

#[test]
fn groom_after_foreign_service_reports_healthy() {
    let mut p = boot(100);
    assert!(!p.watchdog.advance(30));
    p.watchdog.pet(&p.handles[0]);
    let mut led = Indicator::Fault;
    groomer_task(&mut led, &mut p.watchdog, &p.handles[0]);
    assert_eq!(led, Indicator::Healthy);
    assert_eq!(p.watchdog.channel(0), Channel { serviced: false, remaining: 100 });
}

#[test]
fn groom_after_recovery_reports_healthy() {
    let p = init_watchdogs(Wdt::power_on()).ok().unwrap();
    let mut q = init_watchdogs(p.watchdog.warm_reset()).ok().unwrap();
    let mut led = Indicator::Fault;
    groomer_task(&mut led, &mut q.watchdog, &q.handles[3]);
    assert_eq!(led, Indicator::Healthy);
}

#[test]
fn sole_servicer_always_reports_fault() {
    let mut p = boot(100);
    for _ in 0..5 {
        let mut led = Indicator::Healthy;
        groomer_task(&mut led, &mut p.watchdog, &p.handles[1]);
        assert_eq!(led, Indicator::Fault);
        assert_eq!(p.watchdog.channel(1), Channel { serviced: true, remaining: 100 });
        assert!(!p.watchdog.advance(10));
    }
}

#[test]
fn new_period_clears_serviced_flag() {
    let mut p = boot(100);
    p.watchdog.pet(&p.handles[2]);
    assert!(!p.watchdog.advance(1));
    assert!(!p.watchdog.is_pet(&p.handles[2]));
    assert_eq!(p.watchdog.channel(2).remaining, 99);
}

#[test]
fn query_consumes_serviced_flag() {
    let mut p = boot(100);
    p.watchdog.pet(&p.handles[1]);
    assert!(p.watchdog.is_pet(&p.handles[1]));
    assert!(!p.watchdog.is_pet(&p.handles[1]));
}

#[test]
fn grooming_one_handle_leaves_others() {
    let mut p = boot(100);
    assert!(!p.watchdog.advance(25));
    p.watchdog.pet(&p.handles[3]);
    let before: Vec<Channel> = (0..4).map(|k| p.watchdog.channel(k)).collect();
    let mut led = Indicator::Healthy;
    groomer_task(&mut led, &mut p.watchdog, &p.handles[1]);
    for k in [0usize, 2, 3] {
        assert_eq!(p.watchdog.channel(k), before[k]);
    }
    assert_eq!(p.watchdog.channel(3), Channel { serviced: true, remaining: 100 });
    assert_eq!(p.watchdog.channel(0), Channel { serviced: false, remaining: 75 });
}

#[test]
fn unserviced_handle_forces_reset() {
    let mut p = boot(163840);
    let mut led = Indicator::Healthy;
    let mut reset = false;
    for _ in 0..10 {
        for k in 0..3 {
            groomer_task(&mut led, &mut p.watchdog, &p.handles[k]);
        }
        reset = p.watchdog.advance(16384);
        if reset {
            break;
        }
    }
    assert!(reset);
    assert_eq!(p.watchdog.state(), WdtState::ResetPending);
    assert_eq!(p.watchdog.channel(3).remaining, 0);
}

#[test]
fn reset_not_forced_one_tick_early() {
    let mut p = boot(50);
    assert!(!p.watchdog.advance(49));
    assert_eq!(p.watchdog.state(), WdtState::Activated);
    assert!(p.watchdog.advance(1));
}

#[test]
fn all_groomed_every_period_never_resets() {
    let mut p = boot(100);
    let mut led = Indicator::Healthy;
    for _ in 0..50 {
        for k in 0..4 {
            groomer_task(&mut led, &mut p.watchdog, &p.handles[k]);
        }
        assert!(!p.watchdog.advance(99));
    }
    assert_eq!(p.watchdog.state(), WdtState::Activated);
}

#[test]
fn reset_is_sticky() {
    let mut p = boot(5);
    assert!(p.watchdog.advance(7));
    let mut led = Indicator::Healthy;
    groomer_task(&mut led, &mut p.watchdog, &p.handles[0]);
    assert!(p.watchdog.advance(0));
}
