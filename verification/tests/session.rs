//! The market poller and the resolver state machine, driven through
//! whole protocol rounds.
use z4_client::envelope::{parse_request, ParseError};
use z4_client::market::{MarketAction, PollOutcome, RoomMarket, SessionPhase};
use z4_client::peer::PeerId;
use z4_client::resolver::{ChainCall, ConfigurationError, Token};
use z4_client::INIT_ROOM_MARKET_GROUP;

fn configured_market() -> RoomMarket {
    let mut m = RoomMarket::new();
    m.url = String::from("http://market.example");
    m.game = String::from("mygame");
    m.contract = Some(vec![9u8; 20]);
    m
}

fn payload(text: &str) -> PollOutcome {
    PollOutcome::Payload(String::from(text))
}

#[test]
fn poll_needs_configuration() {
    let mut m = RoomMarket::new();
    assert!(m.fetch_room_market().is_none());
    m.url = String::from("http://market.example");
    assert!(m.fetch_room_market().is_none());
}

#[test]
fn poll_builds_the_market_query() {
    let mut m = configured_market();
    let q = m.fetch_room_market().unwrap();
    assert_eq!(q.url, "http://market.example");
    assert_eq!(q.method, "room_market");
    assert_eq!(q.group, INIT_ROOM_MARKET_GROUP);
    assert_eq!(
        q.body,
        "{\"jsonrpc\":\"2.0\",\"id\":0,\"gid\":4,\"method\":\"room_market\",\
         \"params\":[\"mygame\"],\"peer\":\"0x0000000000000000000000000000000000000000\"}"
    );
}

#[test]
fn no_duplicate_poll_while_outstanding() {
    let mut m = configured_market();
    assert!(m.fetch_room_market().is_some());
    // A second poll while the request is outstanding is a no-op.
    assert!(m.fetch_room_market().is_none());
    // `NotReady` keeps it outstanding.
    assert!(matches!(m.handle_room_market(PollOutcome::NotReady), Ok(MarketAction::Keep)));
    assert!(m.fetch_room_market().is_none());
    // A completed response frees the slot.
    assert!(matches!(m.handle_room_market(payload("[]")), Ok(MarketAction::Keep)));
    assert!(m.fetch_room_market().is_some());
}

#[test]
fn market_payload_replaces_room_list() {
    let mut m = configured_market();
    m.fetch_room_market();
    let r = m.handle_room_market(payload("[{\"room\":5,\"players\":[\"0x01\"]}]"));
    assert!(matches!(r, Ok(MarketAction::Keep)));
    assert_eq!(m.rooms.len(), 1);
    assert_eq!(m.rooms[0].room, 5);
    assert_eq!(m.rooms[0].players, vec![String::from("0x01")]);
    assert!(m.rooms[0].sequencer.is_none());
    assert!(m.rooms[0].websocket.is_none());
    // The next successful poll replaces the list wholesale.
    m.fetch_room_market();
    m.handle_room_market(payload("[{\"room\":8,\"players\":[]}]")).unwrap();
    assert_eq!(m.rooms.len(), 1);
    assert_eq!(m.rooms[0].room, 8);
}

#[test]
fn empty_market_payload_clears_room_list() {
    let mut m = configured_market();
    m.fetch_room_market();
    m.handle_room_market(payload("[{\"room\":5,\"players\":[]}]")).unwrap();
    assert_eq!(m.rooms.len(), 1);
    m.fetch_room_market();
    m.handle_room_market(payload("[]")).unwrap();
    assert!(m.rooms.is_empty());
}

#[test]
fn market_rows_may_carry_optional_fields() {
    let mut m = configured_market();
    m.fetch_room_market();
    m.handle_room_market(payload(
        "[{\"room\":5,\"players\":[],\"sequencer\":\"0xab\",\"websocket\":null,\"extra\":1}]",
    ))
    .unwrap();
    assert_eq!(m.rooms.len(), 1);
    assert_eq!(m.rooms[0].sequencer.as_deref(), Some("0xab"));
    assert!(m.rooms[0].websocket.is_none());
}

#[test]
fn undecodable_market_payload_is_a_typed_error() {
    let mut m = configured_market();
    m.fetch_room_market();
    m.handle_room_market(payload("[{\"room\":5,\"players\":[]}]")).unwrap();
    assert_eq!(m.rooms.len(), 1);
    m.fetch_room_market();
    // Missing required `room` field: the whole payload is refused,
    // with a typed error, and the cached list is kept.
    let r = m.handle_room_market(payload("[{\"players\":[\"0x01\"]}]"));
    assert!(matches!(r, Err(ParseError::Malformed)));
    assert_eq!(m.rooms.len(), 1);
    assert_eq!(m.rooms[0].room, 5);
    // Non-string player entry: refused too.
    m.fetch_room_market();
    let r2 = m.handle_room_market(payload("[{\"room\":6,\"players\":[1]}]"));
    assert!(matches!(r2, Err(ParseError::Malformed)));
    assert_eq!(m.rooms[0].room, 5);
    // Text that is not JSON at all: refused, and the next poll may
    // still go out (the request slot was freed).
    let r3 = m.handle_room_market(payload("{not json"));
    assert!(matches!(r3, Err(ParseError::Malformed)));
    assert_eq!(m.rooms[0].room, 5);
    assert!(m.fetch_room_market().is_some());
}

#[test]
fn market_errors_release_the_connection() {
    let mut m = configured_market();
    m.fetch_room_market();
    assert!(matches!(m.handle_room_market(PollOutcome::RemoteError), Ok(MarketAction::Drop)));
    let mut m2 = configured_market();
    m2.fetch_room_market();
    assert!(matches!(m2.handle_room_market(PollOutcome::Closed), Ok(MarketAction::Drop)));
}

#[test]
fn selecting_a_room_enters_waiting() {
    let mut m = configured_market();
    m.select_room(5);
    assert!(matches!(m.phase, SessionPhase::Waiting));
    let w = m.waiting.as_ref().unwrap();
    assert_eq!(w.room, 5);
    assert!(w.players.is_empty());
    assert!(w.sequencer.is_none());
    assert!(w.websocket.is_none());
}

#[test]
fn room_status_poll_issues_room_info() {
    let mut m = configured_market();
    m.select_room(5);
    match m.fetch_room_status() {
        Ok(Some(ChainCall::RoomInfo { room })) => assert_eq!(room, 5),
        _ => panic!("expected a roomInfo call"),
    }
    assert!(matches!(m.phase, SessionPhase::RoomInfoPending));
    // It re-polls while the room info is pending.
    assert!(matches!(m.fetch_room_status(), Ok(Some(_))));
}

#[test]
fn missing_contract_binding_is_surfaced() {
    let mut m = configured_market();
    m.contract = None;
    m.select_room(5);
    let r = m.fetch_room_status();
    assert!(matches!(r, Err(ConfigurationError::MissingContract)));
    assert!(matches!(m.phase, SessionPhase::Waiting));
    // Outside a fetching phase the missing binding is not an error:
    // there is nothing to issue.
    let mut idle = RoomMarket::new();
    assert!(matches!(idle.fetch_room_status(), Ok(None)));
}

fn room_info_words(sequencer: Vec<u8>) -> Vec<Token> {
    vec![
        Token::List(vec![Token::Address(vec![1u8; 20])]),
        Token::Address(vec![3u8; 20]),
        Token::Address(sequencer),
        Token::Uint(0),
        Token::Uint(1),
    ]
}

#[test]
fn zero_sequencer_keeps_polling() {
    let mut m = configured_market();
    m.select_room(5);
    m.fetch_room_status().unwrap();
    let r = m.handle_room_status("roomInfo", room_info_words(vec![0u8; 20]));
    // No sequencers call is issued and the state stays put.
    assert!(matches!(r, Ok(None)));
    assert!(matches!(m.phase, SessionPhase::RoomInfoPending));
    let w = m.waiting.as_ref().unwrap();
    assert!(w.players.is_empty());
    assert!(w.sequencer.is_none());
}

#[test]
fn nonzero_sequencer_advances_and_issues_one_lookup() {
    let mut m = configured_market();
    m.select_room(5);
    m.fetch_room_status().unwrap();
    let seq_bytes = vec![
        0xabu8, 0xc0, 0, 0, 0, 0, 0, 0, 0, 0, 0, 0, 0, 0, 0, 0, 0, 0, 0, 0,
    ];
    let r = m.handle_room_status("roomInfo", room_info_words(seq_bytes.clone()));
    match r {
        Ok(Some(ChainCall::Sequencers { sequencer, game })) => {
            assert_eq!(sequencer, seq_bytes);
            assert!(game.is_none());
        },
        _ => panic!("expected exactly one sequencers call"),
    }
    assert!(matches!(m.phase, SessionPhase::PlayersKnown));
    let w = m.waiting.as_ref().unwrap();
    let expected_seq = PeerId::from_bytes(seq_bytes).unwrap().to_hex();
    assert_eq!(w.sequencer.as_deref(), Some(expected_seq.as_str()));
    let expected_player = PeerId::from_bytes(vec![1u8; 20]).unwrap().to_hex();
    assert_eq!(w.players, vec![expected_player]);
    assert!(w.websocket.is_none());
}

#[test]
fn sequencers_schema_may_take_the_game_address() {
    let mut m = configured_market();
    m.seq_call_with_game = true;
    m.select_room(5);
    m.fetch_room_status().unwrap();
    let r = m.handle_room_status("roomInfo", room_info_words(vec![8u8; 20]));
    match r {
        Ok(Some(ChainCall::Sequencers { sequencer, game })) => {
            assert_eq!(sequencer, vec![8u8; 20]);
            assert_eq!(game, Some(vec![3u8; 20]));
        },
        _ => panic!("expected a sequencers call"),
    }
}

#[test]
fn short_room_info_word_list_is_discarded() {
    let mut m = configured_market();
    m.select_room(5);
    m.fetch_room_status().unwrap();
    let r = m.handle_room_status("roomInfo", vec![Token::Uint(1)]);
    assert!(matches!(r, Err(ParseError::Malformed)));
    assert!(matches!(m.phase, SessionPhase::RoomInfoPending));
    assert!(m.waiting.as_ref().unwrap().sequencer.is_none());
}

#[test]
fn malformed_room_info_words_are_discarded() {
    let mut m = configured_market();
    m.select_room(5);
    m.fetch_room_status().unwrap();
    // The roster word is not an address array.
    let r = m.handle_room_status(
        "roomInfo",
        vec![Token::Uint(7), Token::Address(vec![3u8; 20]), Token::Address(vec![8u8; 20])],
    );
    assert!(matches!(r, Err(ParseError::Malformed)));
    // The sequencer word is not an address.
    let r2 = m.handle_room_status(
        "roomInfo",
        vec![Token::List(vec![]), Token::Address(vec![3u8; 20]), Token::Uint(9)],
    );
    assert!(matches!(r2, Err(ParseError::Malformed)));
    assert!(matches!(m.phase, SessionPhase::RoomInfoPending));
    assert!(m.waiting.as_ref().unwrap().sequencer.is_none());
}

#[test]
fn unknown_method_tag_is_ignored() {
    let mut m = configured_market();
    m.select_room(5);
    m.fetch_room_status().unwrap();
    let r = m.handle_room_status("somethingElse", room_info_words(vec![7u8; 20]));
    assert!(matches!(r, Ok(None)));
    assert!(matches!(m.phase, SessionPhase::RoomInfoPending));
}

#[test]
fn sequencer_info_resolves_the_address() {
    let mut m = configured_market();
    m.select_room(5);
    m.fetch_room_status().unwrap();
    m.handle_room_status("roomInfo", room_info_words(vec![7u8; 20])).unwrap();
    let r = m.handle_room_status(
        "sequencers",
        vec![Token::Other, Token::Str(String::from("ws://seq.example"))],
    );
    assert!(matches!(r, Ok(None)));
    assert!(matches!(m.phase, SessionPhase::Resolved));
    let w = m.waiting.as_ref().unwrap();
    assert_eq!(w.websocket.as_deref(), Some("ws://seq.example"));
}

#[test]
fn malformed_sequencer_info_is_discarded() {
    let mut m = configured_market();
    m.select_room(5);
    m.fetch_room_status().unwrap();
    m.handle_room_status("roomInfo", room_info_words(vec![7u8; 20])).unwrap();
    // Too short a word list: discarded with a typed error, nothing
    // applied — in particular no empty reachable address.
    let r = m.handle_room_status("sequencers", vec![Token::Other]);
    assert!(matches!(r, Err(ParseError::Malformed)));
    assert!(matches!(m.phase, SessionPhase::PlayersKnown));
    assert!(m.waiting.as_ref().unwrap().websocket.is_none());
    // A second word that is not a string: likewise discarded.
    let r2 = m.handle_room_status("sequencers", vec![Token::Other, Token::Uint(3)]);
    assert!(matches!(r2, Err(ParseError::Malformed)));
    assert!(matches!(m.phase, SessionPhase::PlayersKnown));
    assert!(m.waiting.as_ref().unwrap().websocket.is_none());
    // A well-formed response afterwards still resolves.
    let r3 = m.handle_room_status("sequencers", vec![Token::Other, Token::Str(String::from("ws://x"))]);
    assert!(matches!(r3, Ok(None)));
    assert!(matches!(m.phase, SessionPhase::Resolved));
}

#[test]
fn stray_sequencer_info_is_ignored() {
    let mut m = configured_market();
    m.select_room(5);
    let r = m.handle_room_status(
        "sequencers",
        vec![Token::Other, Token::Str(String::from("ws://seq.example"))],
    );
    assert!(matches!(r, Ok(None)));
    assert!(matches!(m.phase, SessionPhase::Waiting));
    assert!(m.waiting.as_ref().unwrap().websocket.is_none());
}

#[test]
fn handoff_connects_with_a_signed_first_frame() {
    let mut m = configured_market();
    m.select_room(5);
    m.fetch_room_status().unwrap();
    m.handle_room_status("roomInfo", room_info_words(vec![7u8; 20])).unwrap();
    m.handle_room_status("sequencers", vec![Token::Other, Token::Str(String::from("ws://x"))])
        .unwrap();
    let peer = PeerId::from_bytes(vec![4u8; 20]).unwrap();
    let (url, first_frame) = m.handoff(&peer).unwrap();
    assert_eq!(url, "ws://x");
    assert!(matches!(m.phase, SessionPhase::Connected));
    let (gid, method, params, peer_tag) = parse_request(first_frame.as_str()).unwrap();
    assert_eq!(gid, 5);
    assert_eq!(method, "connect");
    assert!(params.is_empty());
    assert_eq!(peer_tag, peer.to_hex());
    // A second handoff does not fire.
    assert!(m.handoff(&peer).is_none());
}

#[test]
fn handoff_waits_for_resolution() {
    let mut m = configured_market();
    m.select_room(5);
    let peer = PeerId::from_bytes(vec![4u8; 20]).unwrap();
    assert!(m.handoff(&peer).is_none());
    assert!(matches!(m.phase, SessionPhase::Waiting));
}
