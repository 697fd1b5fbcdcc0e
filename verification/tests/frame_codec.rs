use feed_data::frame::parse_envelope;
use feed_data::frame::render_update;
use feed_data::frame::InstrumentUpdate;

const GOOD: &str = "{\"client_id\":\"OMS_SERVER\",\"instrument\":{\"instrument_id\":7,\"last_price\":101.5,\"prev_price\":100.0,\"change\":1.5}}";

#[test]
fn parses_the_canonical_frame() {
    let p = parse_envelope(GOOD).expect("well-formed frame");
    assert_eq!(p.client_id, "OMS_SERVER");
    assert_eq!(p.instrument.instrument_id, "7");
    assert_eq!(p.instrument.last_price, "101.5");
    assert_eq!(p.instrument.prev_price, "100.0");
    assert_eq!(p.instrument.change, "1.5");
}

#[test]
fn parses_with_whitespace_between_tokens() {
    let spaced = " {\n  \"client_id\" : \"OMS_SERVER\" ,\r\n  \"instrument\" : {\t\"instrument_id\" : -12 , \"last_price\" : 0.25 , \"prev_price\" : 0 , \"change\" : -0.5 } }  ";
    let p = parse_envelope(spaced).expect("whitespace is allowed between tokens");
    assert_eq!(p.client_id, "OMS_SERVER");
    assert_eq!(p.instrument.instrument_id, "-12");
    assert_eq!(p.instrument.last_price, "0.25");
    assert_eq!(p.instrument.prev_price, "0");
    assert_eq!(p.instrument.change, "-0.5");
}

#[test]
fn rejects_malformed_frames() {
    // not an object at all
    assert!(parse_envelope("").is_none());
    assert!(parse_envelope("hello").is_none());
    // missing members
    assert!(parse_envelope("{\"client_id\":\"X\"}").is_none());
    assert!(parse_envelope("{\"instrument\":{}}").is_none());
    // unquoted identity
    assert!(parse_envelope(
        "{\"client_id\":OMS,\"instrument\":{\"instrument_id\":1,\"last_price\":1,\"prev_price\":1,\"change\":1}}"
    ).is_none());
    // escape inside the identity
    assert!(parse_envelope(
        "{\"client_id\":\"O\\\"MS\",\"instrument\":{\"instrument_id\":1,\"last_price\":1,\"prev_price\":1,\"change\":1}}"
    ).is_none());
    // superfluous leading zero
    assert!(parse_envelope(
        "{\"client_id\":\"X\",\"instrument\":{\"instrument_id\":007,\"last_price\":1,\"prev_price\":1,\"change\":1}}"
    ).is_none());
    // fraction without digits
    assert!(parse_envelope(
        "{\"client_id\":\"X\",\"instrument\":{\"instrument_id\":1,\"last_price\":1.,\"prev_price\":1,\"change\":1}}"
    ).is_none());
    // bare minus sign
    assert!(parse_envelope(
        "{\"client_id\":\"X\",\"instrument\":{\"instrument_id\":-,\"last_price\":1,\"prev_price\":1,\"change\":1}}"
    ).is_none());
    // fractional instrument id
    assert!(parse_envelope(
        "{\"client_id\":\"X\",\"instrument\":{\"instrument_id\":1.5,\"last_price\":1,\"prev_price\":1,\"change\":1}}"
    ).is_none());
    // trailing garbage after the envelope
    let mut with_garbage = String::from(GOOD);
    with_garbage.push_str("x");
    assert!(parse_envelope(&with_garbage).is_none());
    // truncated frame
    assert!(parse_envelope(&GOOD[..GOOD.len() - 1]).is_none());
    // keys in the wrong order
    assert!(parse_envelope(
        "{\"instrument\":{\"instrument_id\":1,\"last_price\":1,\"prev_price\":1,\"change\":1},\"client_id\":\"X\"}"
    ).is_none());
}

#[test]
fn renders_the_canonical_outbound_frame() {
    let u = InstrumentUpdate {
        instrument_id: "7".to_string(),
        last_price: "101.5".to_string(),
        prev_price: "100.0".to_string(),
        change: "1.5".to_string(),
    };
    assert_eq!(
        render_update(&u),
        "{\"instrument_id\":7,\"last_price\":101.5,\"prev_price\":100.0,\"change\":1.5}"
    );
}

#[test]
fn parsed_tokens_render_back_verbatim() {
    let p = parse_envelope(GOOD).expect("well-formed frame");
    let rendered = render_update(&p.instrument);
    assert_eq!(
        rendered,
        "{\"instrument_id\":7,\"last_price\":101.5,\"prev_price\":100.0,\"change\":1.5}"
    );
    // the rendered update embeds into a fresh envelope that parses again
    let mut envelope = String::from("{\"client_id\":\"OMS_SERVER\",\"instrument\":");
    envelope.push_str(&rendered);
    envelope.push_str("}");
    let p2 = parse_envelope(&envelope).expect("round-tripped frame");
    assert_eq!(p2.instrument, p.instrument);
}
