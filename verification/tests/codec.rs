//! The envelope codec, end to end: building, parsing, escaping, and
//! the peer-identifier hex form.
use z4_client::envelope::{build_request, build_request_with_tag, parse_request, parse_response, ParseError};
use z4_client::json::{parse_json, JsonValue};
use z4_client::peer::PeerId;

fn peer_of(bytes: Vec<u8>) -> PeerId {
    PeerId::from_bytes(bytes).unwrap()
}

#[test]
fn round_trip_gid_and_method() {
    let peer = peer_of(vec![1u8; 20]);
    let msg = build_request("join", vec![JsonValue::Uint(9)], &peer, 42);
    let (gid, method, params, peer_tag) = parse_request(msg.as_str()).unwrap();
    assert_eq!(gid, 42);
    assert_eq!(method, "join");
    assert_eq!(params.len(), 1);
    assert!(matches!(params[0], JsonValue::Uint(9)));
    assert_eq!(peer_tag, peer.to_hex());
}

#[test]
fn round_trip_empty_params() {
    let peer = peer_of(vec![7u8; 20]);
    let msg = build_request("connect", vec![], &peer, 5);
    let (gid, method, params, _) = parse_request(msg.as_str()).unwrap();
    assert_eq!(gid, 5);
    assert_eq!(method, "connect");
    assert!(params.is_empty());
}

#[test]
fn requests_carry_no_result() {
    // A request envelope holds no `result`, so the response decoder
    // must refuse it.
    let peer = peer_of(vec![2u8; 20]);
    let msg = build_request("join", vec![], &peer, 3);
    assert!(matches!(parse_response(msg.as_str()), Err(ParseError::Malformed)));
}

#[test]
fn malformed_text_is_an_error_not_an_abort() {
    assert!(matches!(parse_response("{not json"), Err(ParseError::Malformed)));
}

#[test]
fn missing_result_field_is_malformed() {
    assert!(matches!(
        parse_response("{\"gid\":7,\"method\":\"roomInfo\"}"),
        Err(ParseError::Malformed)
    ));
}

#[test]
fn response_envelope_decodes() {
    let (gid, method, result) =
        parse_response("{\"gid\":4,\"method\":\"room_market\",\"result\":[]}").unwrap();
    assert_eq!(gid, 4);
    assert_eq!(method, "room_market");
    assert!(result.is_empty());
}

#[test]
fn response_fields_of_wrong_type_are_malformed() {
    assert!(matches!(
        parse_response("{\"gid\":\"x\",\"method\":\"m\",\"result\":[]}"),
        Err(ParseError::Malformed)
    ));
    assert!(matches!(
        parse_response("{\"gid\":1,\"method\":2,\"result\":[]}"),
        Err(ParseError::Malformed)
    ));
    assert!(matches!(
        parse_response("{\"gid\":1,\"method\":\"m\",\"result\":{}}"),
        Err(ParseError::Malformed)
    ));
    assert!(matches!(parse_response("[1,2]"), Err(ParseError::Malformed)));
}

#[test]
fn escaped_unicode_in_method_survives() {
    let (_, method, _) =
        parse_response("{\"gid\":1,\"method\":\"m\\u0041\",\"result\":[]}").unwrap();
    assert_eq!(method, "mA");
}

#[test]
fn exact_wire_text() {
    let msg = build_request_with_tag(
        "room_market",
        vec![JsonValue::Text("mygame".chars().collect())],
        "0x0000000000000000000000000000000000000000",
        4,
    );
    assert_eq!(
        msg,
        "{\"jsonrpc\":\"2.0\",\"id\":0,\"gid\":4,\"method\":\"room_market\",\
         \"params\":[\"mygame\"],\"peer\":\"0x0000000000000000000000000000000000000000\"}"
    );
}

#[test]
fn writer_escapes_quotes_backslashes_and_controls() {
    let text: Vec<char> = "a\"b\\c\nd".chars().collect();
    let msg = build_request_with_tag("m", vec![JsonValue::Text(text)], "p", 0);
    assert_eq!(
        msg,
        "{\"jsonrpc\":\"2.0\",\"id\":0,\"gid\":0,\"method\":\"m\",\
         \"params\":[\"a\\\"b\\\\c\\u000ad\"],\"peer\":\"p\"}"
    );
    // And the parser reads the escapes back.
    let (_, _, params, _) = parse_request(msg.as_str()).unwrap();
    match &params[0] {
        JsonValue::Text(t) => assert_eq!(t.iter().collect::<String>(), "a\"b\\c\nd"),
        _ => panic!("params[0] should be a string"),
    }
}

#[test]
fn largest_room_id_round_trips() {
    let peer = peer_of(vec![0u8; 20]);
    let msg = build_request("m", vec![], &peer, u64::MAX);
    let (gid, _, _, _) = parse_request(msg.as_str()).unwrap();
    assert_eq!(gid, u64::MAX);
}

#[test]
fn parse_json_maps_shapes() {
    assert!(parse_json("null").is_some());
    assert!(matches!(parse_json("true"), Some(JsonValue::Bool(true))));
    assert!(matches!(parse_json("17"), Some(JsonValue::Uint(17))));
    assert!(parse_json("{").is_none());
}

#[test]
fn peer_id_needs_twenty_bytes() {
    assert!(PeerId::from_bytes(vec![0u8; 19]).is_none());
    assert!(PeerId::from_bytes(vec![0u8; 21]).is_none());
    assert!(PeerId::from_bytes(vec![0u8; 20]).is_some());
}

#[test]
fn zero_peer_id_hex_is_the_zero_tag() {
    let peer = peer_of(vec![0u8; 20]);
    assert_eq!(peer.to_hex(), "0x0000000000000000000000000000000000000000");
}

#[test]
fn peer_id_hex_is_checksummed() {
    // A well-known checksummed-address vector.
    let bytes = vec![
        0x5au8, 0xae, 0xb6, 0x05, 0x3f, 0x3e, 0x94, 0xc9, 0xb9, 0xa0, 0x9f, 0x33, 0x66, 0x94,
        0x35, 0xe7, 0xef, 0x1b, 0xea, 0xed,
    ];
    let peer = peer_of(bytes);
    assert_eq!(peer.to_hex(), "0x5aAeb6053F3E94C9b9A09f33669435E7Ef1BeAed");
}
