use xycrd::reconcile::{Action, Event, Phase, ReconcileLoop};

#[test]
fn new_loop_is_idle() {
    let l = ReconcileLoop::new(10, false);
    assert_eq!(l.phase, Phase::Idle);
    assert_eq!(l.reload_delay, 10);
    assert!(!l.skip_reload);
}

#[test]
fn burst_of_changes_gives_one_write() {
    let mut l = ReconcileLoop::new(5, false);
    assert_eq!(l.step(Event::Changed), Action::StartTimer(5));
    let mut writes = 0;
    for _ in 0..10 {
        assert_eq!(l.step(Event::Changed), Action::Wait);
        assert_eq!(l.phase, Phase::Debouncing);
    }
    let a = l.step(Event::DelayElapsed);
    assert_eq!(a, Action::WriteConfig);
    if a == Action::WriteConfig {
        writes += 1;
    }
    assert_eq!(writes, 1);
    assert_eq!(l.phase, Phase::Writing);
}

#[test]
fn startup_listing_alone_reconciles_once() {
    let mut l = ReconcileLoop::new(10, false);
    assert_eq!(l.step(Event::Changed), Action::StartTimer(10));
    assert_eq!(l.step(Event::DelayElapsed), Action::WriteConfig);
    assert_eq!(l.step(Event::Written), Action::SendReload);
    assert_eq!(l.step(Event::ReloadSent), Action::Wait);
    assert_eq!(l.phase, Phase::Idle);
    assert_eq!(l.step(Event::DelayElapsed), Action::Wait);
    assert_eq!(l.phase, Phase::Idle);
}

#[test]
fn reload_failure_does_not_stop_the_loop() {
    let mut l = ReconcileLoop::new(1, false);
    assert_eq!(l.step(Event::Changed), Action::StartTimer(1));
    assert_eq!(l.step(Event::DelayElapsed), Action::WriteConfig);
    assert_eq!(l.step(Event::Written), Action::SendReload);
    assert_eq!(l.step(Event::ReloadFailed), Action::ReportReloadFailure);
    assert_eq!(l.phase, Phase::Idle);
    assert_eq!(l.step(Event::Changed), Action::StartTimer(1));
}

#[test]
fn skip_reload_returns_to_idle_after_write() {
    let mut l = ReconcileLoop::new(3, true);
    l.step(Event::Changed);
    l.step(Event::DelayElapsed);
    assert_eq!(l.step(Event::Written), Action::Wait);
    assert_eq!(l.phase, Phase::Idle);
}

#[test]
fn write_failure_is_fatal() {
    let mut l = ReconcileLoop::new(3, false);
    l.step(Event::Changed);
    l.step(Event::DelayElapsed);
    assert_eq!(l.step(Event::WriteFailed), Action::Exit);
    assert_eq!(l.phase, Phase::Stopped);
    assert_eq!(l.step(Event::Changed), Action::Exit);
}
