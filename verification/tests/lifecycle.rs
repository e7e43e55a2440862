use stream_proxy::endpoints::{pong, preflight, PING_PATH, PROXY_PATH};
use stream_proxy::port::{PollStep, PortState, DEFAULT_POLL_INTERVAL_MS, DEFAULT_TIMEOUT_MS};
use stream_proxy::restart::RestartSignal;
use stream_proxy::supervisor::{
    Action, Event, Phase, Supervisor, BACKOFF_MS, STARTED_NOTIFICATION,
};

#[test]
fn ping_answers_pong() {
    let response = pong();
    assert_eq!(response.status, 200);
    assert_eq!(response.body, "pong");
    assert!(response.headers.is_empty());
    assert_eq!(PING_PATH, "/ping");
}

#[test]
fn preflight_answers_no_content() {
    let response = preflight();
    assert_eq!(response.status, 204);
    assert_eq!(response.body, "");
    assert!(response.headers.is_empty());
    assert_eq!(PROXY_PATH, "/api/stream/proxy");
}

#[test]
fn port_state_holds_what_was_set_last() {
    let mut state = PortState::new();
    assert_eq!(state.get(), 0);
    state.set(43210);
    assert_eq!(state.get(), 43210);
    state.set(0);
    assert_eq!(state.get(), 0);
}

#[test]
fn waiting_ends_with_the_port_or_with_the_timeout() {
    assert_eq!(DEFAULT_TIMEOUT_MS, 10_000);
    assert_eq!(DEFAULT_POLL_INTERVAL_MS, 100);
    let mut state = PortState::new();
    assert_eq!(state.poll_default(0), PollStep::Sleep(100));
    assert_eq!(state.poll_default(9_999), PollStep::Sleep(100));
    assert_eq!(state.poll_default(10_000), PollStep::Sleep(100));
    assert_eq!(state.poll_default(10_001), PollStep::TimedOut);
    assert_eq!(state.poll(5, 4, 7), PollStep::TimedOut);
    assert_eq!(state.poll(4, 4, 7), PollStep::Sleep(7));
    assert_eq!(state.poll(u64::MAX, u64::MAX, 0), PollStep::Sleep(0));
    state.set(8080);
    assert_eq!(state.poll_default(0), PollStep::Ready(8080));
    assert_eq!(state.poll_default(20_000), PollStep::Ready(8080));
    assert_eq!(PollStep::Ready(8080).result(), Some(8080));
    assert_eq!(PollStep::TimedOut.result(), Some(0));
    assert_eq!(PollStep::Sleep(100).result(), None);
}

#[test]
fn polling_through_a_rebind_sees_zero_and_then_the_new_port() {
    let mut state = PortState::new();
    let mut elapsed = 0;
    let mut looks = 0;
    let found = loop {
        if looks == 3 {
            state.set(5151);
        }
        match state.poll_default(elapsed) {
            PollStep::Sleep(ms) => elapsed += ms,
            step => break step.result().unwrap(),
        }
        looks += 1;
    };
    assert_eq!(found, 5151);
    assert_eq!(elapsed, 300);

    let state = PortState::new();
    let mut elapsed = 0;
    let mut sleeps = 0;
    let found = loop {
        match state.poll_default(elapsed) {
            PollStep::Sleep(ms) => {
                elapsed += ms;
                sleeps += 1;
            }
            step => break step.result().unwrap(),
        }
    };
    assert_eq!(found, 0);
    assert_eq!(sleeps, 101);
}

#[test]
fn many_signals_make_one_restart() {
    let mut signal = RestartSignal::new();
    assert!(!signal.is_pending());
    assert!(!signal.consume());
    signal.signal();
    signal.signal();
    signal.signal();
    assert!(signal.is_pending());
    assert!(signal.consume());
    assert!(!signal.is_pending());
    assert!(!signal.consume());
}

#[test]
fn restart_drains_backs_off_and_binds_a_new_port() {
    assert_eq!(BACKOFF_MS, 1000);
    assert_eq!(STARTED_NOTIFICATION, "proxy-server-started");
    let mut port = PortState::new();
    let mut restart = RestartSignal::new();
    let mut supervisor = Supervisor::new();
    assert_eq!(supervisor.current_phase(), Phase::Starting);

    let action = supervisor.step(Event::Bound { port: 40001 }, &mut port, &mut restart);
    assert_eq!(action, Action::Serve { port: 40001 });
    assert_eq!(supervisor.current_phase(), Phase::Listening { port: 40001 });
    assert_eq!(port.get(), 40001);

    let action = supervisor.step(Event::Signaled, &mut port, &mut restart);
    assert_eq!(action, Action::Continue);
    assert_eq!(port.get(), 40001);

    restart.signal();
    restart.signal();
    let action = supervisor.step(Event::Signaled, &mut port, &mut restart);
    assert_eq!(action, Action::Drain);
    assert_eq!(supervisor.current_phase(), Phase::Draining { port: 40001 });
    assert_eq!(port.get(), 40001);
    assert!(!restart.is_pending());

    let action = supervisor.step(Event::Signaled, &mut port, &mut restart);
    assert_eq!(action, Action::Continue);
    assert_eq!(supervisor.current_phase(), Phase::Draining { port: 40001 });

    let action = supervisor.step(Event::Drained, &mut port, &mut restart);
    assert_eq!(action, Action::Backoff { millis: 1000 });
    assert_eq!(supervisor.current_phase(), Phase::BackingOff);
    assert_eq!(port.get(), 0);

    let action = supervisor.step(Event::BackoffElapsed, &mut port, &mut restart);
    assert_eq!(action, Action::Bind);
    assert_eq!(supervisor.current_phase(), Phase::Starting);
    assert_eq!(port.get(), 0);

    let action = supervisor.step(Event::Bound { port: 40002 }, &mut port, &mut restart);
    assert_eq!(action, Action::Serve { port: 40002 });
    assert_eq!(port.get(), 40002);
}

#[test]
fn bind_failure_backs_off_and_tries_again() {
    let mut port = PortState::new();
    let mut restart = RestartSignal::new();
    let mut supervisor = Supervisor::new();
    for _ in 0..3 {
        let action = supervisor.step(Event::BindFailed, &mut port, &mut restart);
        assert_eq!(action, Action::Backoff { millis: 1000 });
        assert_eq!(supervisor.current_phase(), Phase::BackingOff);
        assert_eq!(port.get(), 0);
        let action = supervisor.step(Event::BackoffElapsed, &mut port, &mut restart);
        assert_eq!(action, Action::Bind);
    }
    let action = supervisor.step(Event::Bound { port: 0 }, &mut port, &mut restart);
    assert_eq!(action, Action::Backoff { millis: 1000 });
    assert_eq!(port.get(), 0);
}

#[test]
fn listener_failure_resets_the_port_without_a_drain() {
    let mut port = PortState::new();
    let mut restart = RestartSignal::new();
    let mut supervisor = Supervisor::new();
    supervisor.step(Event::Bound { port: 9 }, &mut port, &mut restart);
    let action = supervisor.step(Event::ServeFailed, &mut port, &mut restart);
    assert_eq!(action, Action::Backoff { millis: 1000 });
    assert_eq!(supervisor.current_phase(), Phase::BackingOff);
    assert_eq!(port.get(), 0);
}

#[test]
fn signal_raised_while_stopping_is_kept_for_the_next_listener() {
    let mut port = PortState::new();
    let mut restart = RestartSignal::new();
    let mut supervisor = Supervisor::new();
    supervisor.step(Event::Bound { port: 7 }, &mut port, &mut restart);
    restart.signal();
    supervisor.step(Event::Signaled, &mut port, &mut restart);
    restart.signal();
    assert_eq!(supervisor.step(Event::Signaled, &mut port, &mut restart), Action::Continue);
    supervisor.step(Event::Drained, &mut port, &mut restart);
    assert_eq!(supervisor.step(Event::Signaled, &mut port, &mut restart), Action::Continue);
    supervisor.step(Event::BackoffElapsed, &mut port, &mut restart);
    assert_eq!(supervisor.step(Event::Signaled, &mut port, &mut restart), Action::Continue);
    assert!(restart.is_pending());
    supervisor.step(Event::Bound { port: 8 }, &mut port, &mut restart);
    assert_eq!(port.get(), 8);
    assert_eq!(supervisor.step(Event::Signaled, &mut port, &mut restart), Action::Drain);
    assert!(!restart.is_pending());
}

#[test]
fn events_that_do_not_belong_to_the_phase_change_nothing() {
    let mut port = PortState::new();
    let mut restart = RestartSignal::new();
    let mut supervisor = Supervisor::new();
    port.set(77);
    for event in [Event::Drained, Event::BackoffElapsed, Event::ServeFailed, Event::Signaled] {
        assert_eq!(supervisor.step(event, &mut port, &mut restart), Action::Continue);
        assert_eq!(supervisor.current_phase(), Phase::Starting);
        assert_eq!(port.get(), 0);
    }
    supervisor.step(Event::Bound { port: 5 }, &mut port, &mut restart);
    for event in [Event::Bound { port: 6 }, Event::BindFailed, Event::Drained, Event::BackoffElapsed] {
        assert_eq!(supervisor.step(event, &mut port, &mut restart), Action::Continue);
        assert_eq!(supervisor.current_phase(), Phase::Listening { port: 5 });
        assert_eq!(port.get(), 5);
    }
}
