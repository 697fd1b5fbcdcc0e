use feed_data::hub::BroadcastHub;
use feed_data::mux::ConnectionMultiplexer;
use feed_data::mux::FrameOutcome;

fn trusted_only() -> ConnectionMultiplexer {
    ConnectionMultiplexer::new(vec!["OMS_SERVER".to_string()])
}

const UNKNOWN_FRAME: &str = "{\"client_id\":\"UNKNOWN\",\"instrument\":{\"instrument_id\":7,\"last_price\":101.5,\"prev_price\":100.0,\"change\":1.5}}";
const TRUSTED_FRAME: &str = "{\"client_id\":\"OMS_SERVER\",\"instrument\":{\"instrument_id\":7,\"last_price\":101.5,\"prev_price\":100.0,\"change\":1.5}}";
const OUT_FRAME: &str = "{\"instrument_id\":7,\"last_price\":101.5,\"prev_price\":100.0,\"change\":1.5}";

#[test]
fn unauthorized_publish_is_never_observed_by_any_subscriber() {
    let mut hub = BroadcastHub::new(8);
    let a = hub.subscribe();
    let b = hub.subscribe();
    let mut mux = trusted_only();

    let outcome = mux.on_client_frame(&mut hub, UNKNOWN_FRAME);
    assert_eq!(outcome, FrameOutcome::Unauthorized);
    assert_eq!(hub.pop_next(&a), None);
    assert_eq!(hub.pop_next(&b), None);
    assert_eq!(mux.rejected, 1);

    let outcome = mux.on_client_frame(&mut hub, TRUSTED_FRAME);
    assert_eq!(outcome, FrameOutcome::Published);
    assert_eq!(hub.pop_next(&a), Some(OUT_FRAME.to_string()));
    assert_eq!(hub.pop_next(&b), Some(OUT_FRAME.to_string()));
    assert_eq!(mux.rejected, 1);
}

#[test]
fn identity_check_is_exact_and_case_sensitive() {
    let mut hub = BroadcastHub::new(8);
    let a = hub.subscribe();
    let mut mux = trusted_only();

    let lowercased = "{\"client_id\":\"oms_server\",\"instrument\":{\"instrument_id\":1,\"last_price\":2,\"prev_price\":3,\"change\":4}}";
    assert_eq!(mux.on_client_frame(&mut hub, lowercased), FrameOutcome::Unauthorized);
    let padded = "{\"client_id\":\"OMS_SERVER \",\"instrument\":{\"instrument_id\":1,\"last_price\":2,\"prev_price\":3,\"change\":4}}";
    assert_eq!(mux.on_client_frame(&mut hub, padded), FrameOutcome::Unauthorized);
    assert_eq!(hub.pop_next(&a), None);
    assert_eq!(mux.rejected, 2);
}

#[test]
fn third_consecutive_malformed_frame_closes_the_connection() {
    let mut hub = BroadcastHub::new(8);
    let a = hub.subscribe();
    let mut mux = trusted_only();

    assert_eq!(mux.on_client_frame(&mut hub, "not json"), FrameOutcome::Malformed);
    assert_eq!(mux.on_client_frame(&mut hub, "{\"client_id\":}"), FrameOutcome::Malformed);
    assert_eq!(mux.on_client_frame(&mut hub, ""), FrameOutcome::CloseConnection);
    assert_eq!(mux.strikes, 3);
    assert_eq!(hub.pop_next(&a), None);
}

#[test]
fn a_well_formed_frame_resets_the_strike_count() {
    let mut hub = BroadcastHub::new(8);
    let mut mux = trusted_only();

    assert_eq!(mux.on_client_frame(&mut hub, "junk"), FrameOutcome::Malformed);
    assert_eq!(mux.on_client_frame(&mut hub, "junk"), FrameOutcome::Malformed);
    assert_eq!(mux.on_client_frame(&mut hub, UNKNOWN_FRAME), FrameOutcome::Unauthorized);
    assert_eq!(mux.strikes, 0);
    assert_eq!(mux.on_client_frame(&mut hub, "junk"), FrameOutcome::Malformed);
    assert_eq!(mux.on_client_frame(&mut hub, "junk"), FrameOutcome::Malformed);
    assert_eq!(mux.on_client_frame(&mut hub, "junk"), FrameOutcome::CloseConnection);
}

#[test]
fn published_updates_are_stripped_of_the_envelope() {
    let mut hub = BroadcastHub::new(8);
    let a = hub.subscribe();
    let mut mux = trusted_only();
    let spaced = "{ \"client_id\" : \"OMS_SERVER\" , \"instrument\" : { \"instrument_id\" : 7 , \"last_price\" : 101.5 , \"prev_price\" : 100.0 , \"change\" : 1.5 } }";
    assert_eq!(mux.on_client_frame(&mut hub, spaced), FrameOutcome::Published);
    assert_eq!(hub.pop_next(&a), Some(OUT_FRAME.to_string()));
}
