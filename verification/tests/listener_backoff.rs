use feed_data::acceptor::accept_decision;
use feed_data::acceptor::AcceptDecision;
use feed_data::acceptor::AcceptEvent;
use feed_data::hub::BroadcastHub;
use feed_data::listener::ChangeListener;
use feed_data::listener::ListenerAction;
use feed_data::listener::ListenerEvent;

#[test]
fn session_loss_triggers_a_reconnect_attempt_not_an_exit() {
    let mut hub = BroadcastHub::new(4);
    let mut listener = ChangeListener::new(1000, 8000);
    let action = listener.on_event(&mut hub, ListenerEvent::SessionLost);
    assert_eq!(action, ListenerAction::Reconnect { delay_ms: 1000 });
    assert!(listener.running);
    assert_eq!(listener.attempts, 1);
}

#[test]
fn backoff_doubles_and_is_capped() {
    let mut hub = BroadcastHub::new(4);
    let mut listener = ChangeListener::new(1000, 4000);
    assert_eq!(
        listener.on_event(&mut hub, ListenerEvent::SessionLost),
        ListenerAction::Reconnect { delay_ms: 1000 }
    );
    assert_eq!(
        listener.on_event(&mut hub, ListenerEvent::SessionLost),
        ListenerAction::Reconnect { delay_ms: 2000 }
    );
    assert_eq!(
        listener.on_event(&mut hub, ListenerEvent::SessionLost),
        ListenerAction::Reconnect { delay_ms: 4000 }
    );
    assert_eq!(
        listener.on_event(&mut hub, ListenerEvent::SessionLost),
        ListenerAction::Reconnect { delay_ms: 4000 }
    );
    assert!(listener.running);
    assert_eq!(listener.attempts, 4);
}

#[test]
fn repeated_losses_never_stop_the_listener() {
    let mut hub = BroadcastHub::new(4);
    let mut listener = ChangeListener::new(1, 16);
    let mut i = 0;
    while i < 100 {
        let action = listener.on_event(&mut hub, ListenerEvent::SessionLost);
        assert_ne!(action, ListenerAction::Stop);
        assert!(listener.running);
        i += 1;
    }
}

#[test]
fn an_established_session_resets_the_backoff() {
    let mut hub = BroadcastHub::new(4);
    let mut listener = ChangeListener::new(1000, 8000);
    listener.on_event(&mut hub, ListenerEvent::SessionLost);
    listener.on_event(&mut hub, ListenerEvent::SessionLost);
    assert_eq!(listener.delay_ms, 4000);
    let action = listener.on_event(&mut hub, ListenerEvent::SessionEstablished);
    assert_eq!(action, ListenerAction::AwaitNext);
    assert_eq!(listener.delay_ms, 1000);
    assert_eq!(listener.attempts, 0);
}

#[test]
fn only_the_shutdown_signal_stops_the_listener() {
    let mut hub = BroadcastHub::new(4);
    let mut listener = ChangeListener::new(1000, 8000);
    assert_ne!(
        listener.on_event(&mut hub, ListenerEvent::SessionEstablished),
        ListenerAction::Stop
    );
    assert_ne!(
        listener.on_event(&mut hub, ListenerEvent::Notification("n".to_string())),
        ListenerAction::Stop
    );
    assert_ne!(
        listener.on_event(&mut hub, ListenerEvent::SessionLost),
        ListenerAction::Stop
    );
    let action = listener.on_event(&mut hub, ListenerEvent::Shutdown);
    assert_eq!(action, ListenerAction::Stop);
    assert!(!listener.running);
}

#[test]
fn notifications_are_forwarded_verbatim_to_subscribers() {
    let mut hub = BroadcastHub::new(4);
    let sub = hub.subscribe();
    let mut listener = ChangeListener::new(1000, 8000);
    let blob = "{\"anything\": \"the core does not interpret this\"}";
    let action = listener.on_event(&mut hub, ListenerEvent::Notification(blob.to_string()));
    assert_eq!(action, ListenerAction::AwaitNext);
    assert_eq!(hub.pop_next(&sub), Some(blob.to_string()));
}

#[test]
fn only_a_bind_failure_is_fatal_to_the_acceptor() {
    assert_eq!(accept_decision(&AcceptEvent::BindFailed), AcceptDecision::FailStartup);
    assert_eq!(accept_decision(&AcceptEvent::Accepted), AcceptDecision::SpawnConnection);
    assert_eq!(accept_decision(&AcceptEvent::AcceptError), AcceptDecision::ContinueListening);
    assert_eq!(
        accept_decision(&AcceptEvent::ShutdownRequested),
        AcceptDecision::StopAccepting
    );
}
