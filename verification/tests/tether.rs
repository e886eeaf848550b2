use jjwt::tether::{tether_initial, tether_step, TetherAction, TetherEvent, TetherState};

fn running(now_ms: u64, path_exists: bool) -> TetherEvent {
    TetherEvent::Running { now_ms, path_exists }
}

#[test]
fn tether_reports_an_exit_without_signalling() {
    let s = tether_initial();
    let (s, a) = tether_step(s, running(0, true));

    assert_eq!(a, TetherAction::Sleep(1000));

    let (s, a) = tether_step(s, TetherEvent::Exited { code: Some(3) });

    assert_eq!(a, TetherAction::Finish(3));
    assert_eq!(s, TetherState::Done { code: 3 });
}

#[test]
fn tether_terminates_when_the_workspace_goes() {
    let (s, a) = tether_step(tether_initial(), running(7000, false));

    assert_eq!(a, TetherAction::SignalTerm);
    assert_eq!(s, TetherState::Terminating { deadline_ms: 12000 });

    let (s, a) = tether_step(s, running(11999, false));

    assert_eq!(a, TetherAction::Sleep(200));

    let (s, a) = tether_step(s, TetherEvent::Exited { code: None });

    assert_eq!(a, TetherAction::Finish(-1));
    assert_eq!(s, TetherState::Done { code: -1 });
}

#[test]
fn tether_kills_after_the_grace_period() {
    let (s, _) = tether_step(tether_initial(), running(100, false));
    let (s, a) = tether_step(s, running(5100, false));

    assert_eq!(a, TetherAction::SignalKill);
    assert_eq!(s, TetherState::Killed);

    let (s, a) = tether_step(s, running(5300, false));

    assert_eq!(a, TetherAction::Sleep(200));

    let (_, a) = tether_step(s, TetherEvent::Exited { code: Some(137) });

    assert_eq!(a, TetherAction::Finish(137));
}

#[test]
fn tether_deadline_holds_at_the_clock_limit() {
    let (s, a) = tether_step(tether_initial(), running(u64::MAX - 1, false));

    assert_eq!(a, TetherAction::SignalTerm);
    assert_eq!(s, TetherState::Terminating { deadline_ms: u64::MAX });
}
