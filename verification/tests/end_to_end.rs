use feed_data::hub::BroadcastHub;
use feed_data::listener::ChangeListener;
use feed_data::listener::ListenerEvent;
use feed_data::models::health_response;
use feed_data::models::not_found_response;
use feed_data::mux::ConnectionMultiplexer;
use feed_data::mux::FrameOutcome;

#[test]
fn both_connections_receive_a_trusted_update_and_an_external_notification() {
    let mut hub = BroadcastHub::new(16);

    // two active connections, each with its own subscription and multiplexer
    let sub_a = hub.subscribe();
    let sub_b = hub.subscribe();
    let mut mux_a = ConnectionMultiplexer::new(vec!["OMS_SERVER".to_string()]);
    let _mux_b = ConnectionMultiplexer::new(vec!["OMS_SERVER".to_string()]);

    // connection A sends the trusted inbound frame
    let inbound = "{\"client_id\":\"OMS_SERVER\",\"instrument\":{\"instrument_id\":7,\"last_price\":101.5,\"prev_price\":100.0,\"change\":1.5}}";
    assert_eq!(mux_a.on_client_frame(&mut hub, inbound), FrameOutcome::Published);

    // an external notification arrives concurrently through the listener
    let mut listener = ChangeListener::new(1000, 8000);
    let notification = "{\"instrument_id\":9,\"last_price\":3.25,\"prev_price\":3.00,\"change\":0.25}";
    listener.on_event(&mut hub, ListenerEvent::Notification(notification.to_string()));

    // both connections drain both messages, in arrival order
    let expected_update = "{\"instrument_id\":7,\"last_price\":101.5,\"prev_price\":100.0,\"change\":1.5}";
    assert_eq!(hub.pop_next(&sub_a), Some(expected_update.to_string()));
    assert_eq!(hub.pop_next(&sub_a), Some(notification.to_string()));
    assert_eq!(hub.pop_next(&sub_a), None);
    assert_eq!(hub.pop_next(&sub_b), Some(expected_update.to_string()));
    assert_eq!(hub.pop_next(&sub_b), Some(notification.to_string()));
    assert_eq!(hub.pop_next(&sub_b), None);
}

#[test]
fn a_closed_connection_releases_its_subscription_and_others_continue() {
    let mut hub = BroadcastHub::new(16);
    let sub_a = hub.subscribe();
    let sub_b = hub.subscribe();
    let mut mux_a = ConnectionMultiplexer::new(vec!["OMS_SERVER".to_string()]);

    // connection A turns abusive and is closed after three malformed frames
    assert_eq!(mux_a.on_client_frame(&mut hub, "x"), FrameOutcome::Malformed);
    assert_eq!(mux_a.on_client_frame(&mut hub, "y"), FrameOutcome::Malformed);
    assert_eq!(mux_a.on_client_frame(&mut hub, "z"), FrameOutcome::CloseConnection);
    hub.unsubscribe(&sub_a);
    hub.unsubscribe(&sub_a);

    // the hub and connection B are unaffected
    hub.publish("still flowing");
    assert_eq!(hub.pop_next(&sub_b), Some("still flowing".to_string()));
    assert_eq!(hub.pop_next(&sub_a), None);
}

#[test]
fn status_replies_carry_their_fixed_messages() {
    assert_eq!(health_response().message, "Everything is working fine");
    assert_eq!(not_found_response().message, "Resource not found");
}
