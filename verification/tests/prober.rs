use rs_relay::prober::{ProbeAction, ProbeState, Prober};

#[test]
fn a_probe_is_due_after_the_interval() {
    let mut prober = Prober::new(100, 20, 1_000);
    assert_eq!(prober.state, ProbeState::Idle { since: 1_000 });
    assert_eq!(prober.tick(1_099, 1), ProbeAction::Wait);
    assert_eq!(prober.state, ProbeState::Idle { since: 1_000 });
    assert_eq!(prober.tick(1_100, 2), ProbeAction::Send(2));
    assert_eq!(prober.state, ProbeState::Awaiting { sent_at: 1_100, nonce: 2 });
    assert_eq!(prober.tick(1_119, 3), ProbeAction::Wait);
    assert_eq!(prober.state, ProbeState::Awaiting { sent_at: 1_100, nonce: 2 });
}

#[test]
fn a_reply_in_time_gives_the_round_trip() {
    let mut prober = Prober::new(100, 20, 0);
    assert_eq!(prober.tick(100, 42), ProbeAction::Send(42));
    assert_eq!(prober.on_reply(42, 107), Some(7));
    assert_eq!(prober.state, ProbeState::Idle { since: 107 });
    assert!(!prober.has_failed());
    assert_eq!(prober.tick(206, 43), ProbeAction::Wait);
    assert_eq!(prober.tick(207, 43), ProbeAction::Send(43));
}

#[test]
fn a_wrong_or_late_reply_is_passed_over() {
    let mut prober = Prober::new(100, 20, 0);
    assert_eq!(prober.on_reply(1, 50), None);
    assert_eq!(prober.tick(100, 42), ProbeAction::Send(42));
    assert_eq!(prober.on_reply(41, 105), None);
    assert_eq!(prober.state, ProbeState::Awaiting { sent_at: 100, nonce: 42 });
    assert_eq!(prober.on_reply(42, 120), None);
    assert_eq!(prober.state, ProbeState::Awaiting { sent_at: 100, nonce: 42 });
    // A clock that went back gives a round trip of nothing.
    assert_eq!(prober.on_reply(42, 90), Some(0));
}

#[test]
fn a_probe_without_reply_fails_the_connection() {
    let mut prober = Prober::new(100, 20, 0);
    assert_eq!(prober.tick(100, 42), ProbeAction::Send(42));
    assert_eq!(prober.tick(120, 43), ProbeAction::TimedOut);
    assert_eq!(prober.state, ProbeState::Failed);
    assert!(prober.has_failed());
    assert_eq!(prober.tick(121, 44), ProbeAction::TimedOut);
    assert_eq!(prober.on_reply(42, 121), None);
    assert!(prober.has_failed());
}
