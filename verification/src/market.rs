//! The room market: the client session record, the market poller and
//! the decoding of the pending-rooms payload.
use vstd::prelude::*;
use vstd::string::StringExecFns;
use crate::{RoomId, INIT_ROOM_MARKET_GROUP};
use crate::json::{
    JsonValue, Jv, jview, jviews, jview_fields, lookup, lemma_jviews, parse_json, json_of,
    str_to_chars, chars_to_string, clone_chars,
};
use crate::envelope::{build_request_with_tag, request_text, ParseError};
use crate::peer::{zero_peer_tag, zero_peer_tag_text};

verus! {

/// A room the market lists as open for joining, and the record the
/// session keeps while one such room is being resolved.
pub struct PendingRoom {
    pub room: RoomId,
    pub players: Vec<String>,
    pub sequencer: Option<String>,
    pub websocket: Option<String>,
}

/// The model of a `PendingRoom`.
pub struct PendingRoomV {
    pub room: RoomId,
    pub players: Seq<Seq<char>>,
    pub sequencer: Option<Seq<char>>,
    pub websocket: Option<Seq<char>>,
}

/// Models of a sequence of strings.
pub open spec fn strs_view(s: Seq<String>) -> Seq<Seq<char>> {
    s.map_values(|x: String| x@)
}

/// Model of an optional string.
pub open spec fn opt_str_view(o: Option<String>) -> Option<Seq<char>> {
    match o {
        Option::None => Option::None,
        Option::Some(s) => Option::Some(s@),
    }
}

impl View for PendingRoom {
    type V = PendingRoomV;

    open spec fn view(&self) -> PendingRoomV {
        PendingRoomV {
            room: self.room,
            players: strs_view(self.players@),
            sequencer: opt_str_view(self.sequencer),
            websocket: opt_str_view(self.websocket),
        }
    }
}

/// Models of a sequence of pending rooms.
pub open spec fn prooms_view(s: Seq<PendingRoom>) -> Seq<PendingRoomV> {
    s.map_values(|p: PendingRoom| p@)
}

/// How far the chosen room's resolution has come.
#[derive(Clone, Copy, Debug, PartialEq, Eq, Structural)]
pub enum SessionPhase {
    /// No room chosen.
    Idle,
    /// A room is chosen; no room-info call has gone out yet.
    Waiting,
    /// A room-info call is out; may loop while no sequencer is assigned.
    RoomInfoPending,
    /// Players and sequencer are known; the sequencer lookup is out.
    PlayersKnown,
    /// The sequencer's reachable address is known.
    Resolved,
    /// The connect handoff has been issued.
    Connected,
}

/// The client session: market endpoint and cached room list, the
/// chosen room with its resolution progress, and the contract binding
/// the resolver calls through.  Owned by the host's single-threaded
/// tick loop; every mutation goes through one of the methods below.
pub struct RoomMarket {
    /// Address of the bound RoomMarket contract, once configured.
    pub contract: Option<Vec<u8>>,
    /// Market service endpoint; empty until configured.
    pub url: String,
    /// Game identifier the market is filtered by; empty until configured.
    pub game: String,
    /// Pending rooms, replaced wholesale on each successful poll.
    pub rooms: Vec<PendingRoom>,
    /// The chosen room being resolved, if any.
    pub waiting: Option<PendingRoom>,
    /// Resolution progress of the chosen room.
    pub phase: SessionPhase,
    /// Whether a `room_market` request is outstanding.
    pub market_inflight: bool,
    /// Whether the deployed schema's sequencer lookup takes the game
    /// address as a second argument.
    pub seq_call_with_game: bool,
    /// The room's game contract address, as the room-info decode gave it.
    pub game_contract: Option<Vec<u8>>,
}

impl RoomMarket {
    /// The session invariant: the phase and the chosen room's fields
    /// agree — a sequencer is recorded only from `PlayersKnown` on,
    /// a reachable address only from `Resolved` on.
    pub open spec fn wf(&self) -> bool {
        &&& (self.phase is Idle <==> self.waiting is None)
        &&& (self.phase is Waiting || self.phase is RoomInfoPending) ==> (self.waiting matches Some(
            w,
        ) && w.sequencer is None && w.websocket is None)
        &&& self.phase is PlayersKnown ==> (self.waiting matches Some(w) && w.sequencer is Some
            && w.websocket is None)
        &&& (self.phase is Resolved || self.phase is Connected) ==> (self.waiting matches Some(w)
            && w.sequencer is Some && w.websocket is Some)
    }

    /// A fresh, unconfigured session: idle, nothing cached, nothing
    /// outstanding.
    pub fn new() -> (r: RoomMarket)
        ensures
            r.wf(),
            r.phase is Idle,
            r.contract is None,
            r.url@ == Seq::<char>::empty(),
            r.game@ == Seq::<char>::empty(),
            r.rooms@ == Seq::<PendingRoom>::empty(),
            r.waiting is None,
            !r.market_inflight,
            !r.seq_call_with_game,
            r.game_contract is None,
    {
        RoomMarket {
            contract: None,
            url: String::new(),
            game: String::new(),
            rooms: Vec::new(),
            waiting: None,
            phase: SessionPhase::Idle,
            market_inflight: false,
            seq_call_with_game: false,
            game_contract: None,
        }
    }

    /// Commits the session to a room: the state enters `Waiting` with
    /// an empty roster and nothing resolved.  Everything else is kept.
    pub fn select_room(&mut self, room: RoomId)
        ensures
            final(self).wf(),
            final(self).phase is Waiting,
            final(self).waiting matches Some(w) && w.room == room && w@.players
                == Seq::<Seq<char>>::empty() && w.sequencer is None && w.websocket is None,
            final(self).contract == old(self).contract,
            final(self).url == old(self).url,
            final(self).game == old(self).game,
            final(self).rooms == old(self).rooms,
            final(self).market_inflight == old(self).market_inflight,
            final(self).seq_call_with_game == old(self).seq_call_with_game,
            final(self).game_contract == old(self).game_contract,
    {
        self.waiting = Some(
            PendingRoom { room, players: Vec::new(), sequencer: None, websocket: None },
        );
        self.phase = SessionPhase::Waiting;
    }
}

impl Default for RoomMarket {
    /// Same as `RoomMarket::new`.
    fn default() -> (r: RoomMarket)
        ensures
            r.wf(),
            r.phase is Idle,
            r.waiting is None,
            r.contract is None,
            r.url@ == Seq::<char>::empty(),
            r.game@ == Seq::<char>::empty(),
            r.rooms@ == Seq::<PendingRoom>::empty(),
            !r.market_inflight,
    {
        RoomMarket::new()
    }
}

/// The market query a poll issues, for the host to put on the wire:
/// the endpoint, the method tag the response will carry, and the full
/// envelope text, tagged with the anonymous zero address.
pub struct MarketRequest {
    pub url: String,
    pub method: String,
    pub group: RoomId,
    pub body: String,
}

/// The `room_market` method name.
pub open spec fn m_room_market() -> Seq<char> {
    seq!['r', 'o', 'o', 'm', '_', 'm', 'a', 'r', 'k', 'e', 't']
}

/// What a non-blocking receive on a channel yielded.
pub enum PollOutcome {
    /// A completed response: the payload text, not yet parsed.
    Payload(String),
    /// The remote answered with an error; the payload is discarded.
    RemoteError,
    /// Nothing has arrived yet; not an error, retry next tick.
    NotReady,
    /// The channel is permanently closed.
    Closed,
}

/// What the host should do with the connection resource afterwards.
#[derive(Clone, Copy, Debug, PartialEq, Eq, Structural)]
pub enum MarketAction {
    /// Keep the connection.
    Keep,
    /// Release the connection resource; no automatic reconnect.
    Drop,
}

/// The `room` key.
pub open spec fn k_room() -> Seq<char> {
    seq!['r', 'o', 'o', 'm']
}

/// The `players` key.
pub open spec fn k_players() -> Seq<char> {
    seq!['p', 'l', 'a', 'y', 'e', 'r', 's']
}

/// The `sequencer` key.
pub open spec fn k_sequencer() -> Seq<char> {
    seq!['s', 'e', 'q', 'u', 'e', 'n', 'c', 'e', 'r']
}

/// The `websocket` key.
pub open spec fn k_websocket() -> Seq<char> {
    seq!['w', 'e', 'b', 's', 'o', 'c', 'k', 'e', 't']
}

/// Whether every element is a JSON string.
pub open spec fn all_texts(els: Seq<Jv>) -> bool {
    forall|i: int| 0 <= i < els.len() ==> (#[trigger] els[i]) is Text
}

/// The strings of a sequence of JSON strings.
pub open spec fn texts_of(els: Seq<Jv>) -> Seq<Seq<char>> {
    els.map_values(|e: Jv| e->Text_0)
}

/// Decode of an optional string field: absent or JSON `null` is no
/// value, a string is a value, anything else refuses the record.
pub open spec fn decode_opt_text(o: Option<Jv>) -> Option<Option<Seq<char>>> {
    match o {
        Option::None => Option::Some(Option::None),
        Option::Some(v) => match v {
            Jv::Null => Option::Some(Option::None),
            Jv::Text(t) => Option::Some(Option::Some(t)),
            _ => Option::None,
        },
    }
}

/// Decode of one pending-room record: an object with a numeric `room`
/// and a string-array `players`, both required; `sequencer` and
/// `websocket` optional strings.  Any other shape refuses the record.
pub open spec fn decode_room(v: Jv) -> Option<PendingRoomV> {
    match v {
        Jv::Obj(fs) => if !(lookup(fs, k_room()) matches Some(r) && r is Uint) {
            Option::None
        } else if !(lookup(fs, k_players()) matches Some(p) && p is Arr && all_texts(p->Arr_0)) {
            Option::None
        } else {
            match decode_opt_text(lookup(fs, k_sequencer())) {
                Option::None => Option::None,
                Option::Some(sq) => match decode_opt_text(lookup(fs, k_websocket())) {
                    Option::None => Option::None,
                    Option::Some(ws) => Option::Some(
                        PendingRoomV {
                            room: lookup(fs, k_room())->0->Uint_0,
                            players: texts_of(lookup(fs, k_players())->0->Arr_0),
                            sequencer: sq,
                            websocket: ws,
                        },
                    ),
                },
            }
        },
        _ => Option::None,
    }
}

/// Decode of the market payload: an array whose every element decodes
/// as a pending-room record.
pub open spec fn decode_rooms(v: Jv) -> Option<Seq<PendingRoomV>> {
    match v {
        Jv::Arr(els) => if forall|i: int|
            0 <= i < els.len() ==> decode_room(#[trigger] els[i]) is Some {
            Option::Some(els.map_values(|e: Jv| decode_room(e)->0))
        } else {
            Option::None
        },
        _ => Option::None,
    }
}

/// The pending-room list a payload text yields: parse the text, then
/// decode the value; either step can refuse.
pub open spec fn rooms_of_text(s: Seq<char>) -> Option<Seq<PendingRoomV>> {
    match json_of(s) {
        Option::None => Option::None,
        Option::Some(v) => decode_rooms(v),
    }
}

/// Decodes a JSON array of strings.
fn decode_texts(a: &Vec<JsonValue>) -> (r: Option<Vec<String>>)
    ensures
        match r {
            Some(v) => all_texts(jviews(a@)) && strs_view(v@) == texts_of(jviews(a@)),
            None => !all_texts(jviews(a@)),
        },
{
    proof {
        lemma_jviews(a@);
    }
    let mut out: Vec<String> = Vec::new();
    let mut i: usize = 0;
    while i < a.len()
        invariant
            i <= a@.len(),
            out@.len() == i,
            jviews(a@).len() == a@.len(),
            forall|k: int| 0 <= k < a@.len() ==> jviews(a@)[k] == jview(a@[k]),
            forall|k: int|
                0 <= k < i ==> (#[trigger] jviews(a@)[k]) is Text && out@[k]@ == jviews(
                    a@,
                )[k]->Text_0,
        decreases a@.len() - i,
    {
        match &a[i] {
            JsonValue::Text(t) => {
                let c = clone_chars(t);
                out.push(chars_to_string(&c));
            },
            _ => {
                proof {
                    assert(!((jviews(a@)[i as int]) is Text));
                    assert(!all_texts(jviews(a@)));
                }
                return None;
            },
        }
        i = i + 1;
    }
    proof {
        assert(all_texts(jviews(a@)));
        assert forall|k: int| 0 <= k < a@.len() implies strs_view(out@)[k] == texts_of(
            jviews(a@),
        )[k] by {}
        assert(strs_view(out@) =~= texts_of(jviews(a@)));
    }
    Some(out)
}

/// Decodes one pending-room record.
fn decode_room_x(j: &JsonValue) -> (r: Option<PendingRoom>)
    ensures
        match r {
            Some(p) => decode_room(jview(*j)) == Some(p@),
            None => decode_room(jview(*j)) is None,
        },
{
    let fields = match j {
        JsonValue::Object(f) => f,
        _ => {
            return None;
        },
    };
    let kr = str_to_chars("room");
    let kp = str_to_chars("players");
    let ks = str_to_chars("sequencer");
    let kw = str_to_chars("websocket");
    proof {
        reveal_strlit("room");
        reveal_strlit("players");
        reveal_strlit("sequencer");
        reveal_strlit("websocket");
        assert(kr@ =~= k_room());
        assert(kp@ =~= k_players());
        assert(ks@ =~= k_sequencer());
        assert(kw@ =~= k_websocket());
    }
    let room: RoomId = match crate::envelope::find_key(fields, &kr) {
        Some(i) => {
            match &fields[i].1 {
                JsonValue::Uint(u) => *u,
                _ => {
                    return None;
                },
            }
        },
        None => {
            return None;
        },
    };
    let players: Vec<String> = match crate::envelope::find_key(fields, &kp) {
        Some(i) => {
            match &fields[i].1 {
                JsonValue::Array(arr) => {
                    match decode_texts(arr) {
                        Some(v) => v,
                        None => {
                            return None;
                        },
                    }
                },
                _ => {
                    return None;
                },
            }
        },
        None => {
            return None;
        },
    };
    let sequencer: Option<String> = match crate::envelope::find_key(fields, &ks) {
        Some(i) => {
            match &fields[i].1 {
                JsonValue::Null => None,
                JsonValue::Text(t) => {
                    let c = clone_chars(t);
                    Some(chars_to_string(&c))
                },
                _ => {
                    return None;
                },
            }
        },
        None => None,
    };
    let websocket: Option<String> = match crate::envelope::find_key(fields, &kw) {
        Some(i) => {
            match &fields[i].1 {
                JsonValue::Null => None,
                JsonValue::Text(t) => {
                    let c = clone_chars(t);
                    Some(chars_to_string(&c))
                },
                _ => {
                    return None;
                },
            }
        },
        None => None,
    };
    let p = PendingRoom { room, players, sequencer, websocket };
    Some(p)
}

/// Decodes the market payload, a JSON array of pending-room records.
pub fn decode_pending_rooms(j: &JsonValue) -> (r: Option<Vec<PendingRoom>>)
    ensures
        match r {
            Some(v) => decode_rooms(jview(*j)) == Some(prooms_view(v@)),
            None => decode_rooms(jview(*j)) is None,
        },
{
    let a = match j {
        JsonValue::Array(a) => a,
        _ => {
            return None;
        },
    };
    proof {
        lemma_jviews(a@);
    }
    let ghost els = jviews(a@);
    let mut out: Vec<PendingRoom> = Vec::new();
    let mut i: usize = 0;
    while i < a.len()
        invariant
            i <= a@.len(),
            out@.len() == i,
            els == jviews(a@),
            jview(*j) == Jv::Arr(els),
            els.len() == a@.len(),
            forall|k: int| 0 <= k < a@.len() ==> els[k] == jview(a@[k]),
            forall|k: int|
                0 <= k < i ==> decode_room(#[trigger] els[k]) is Some && decode_room(els[k])->0
                    == out@[k]@,
        decreases a@.len() - i,
    {
        match decode_room_x(&a[i]) {
            Some(p) => {
                out.push(p);
            },
            None => {
                proof {
                    assert(jview(*j) == Jv::Arr(els));
                    assert(decode_room(els[i as int]) is None);
                    assert(!(forall|k: int|
                        0 <= k < els.len() ==> decode_room(#[trigger] els[k]) is Some));
                    assert(decode_rooms(jview(*j)) is None);
                }
                return None;
            },
        }
        i = i + 1;
    }
    proof {
        assert forall|k: int| 0 <= k < a@.len() implies prooms_view(out@)[k] == els.map_values(
            |e: Jv| decode_room(e)->0,
        )[k] by {}
        assert(prooms_view(out@) =~= els.map_values(|e: Jv| decode_room(e)->0));
    }
    Some(out)
}

impl RoomMarket {
    /// One poll step of the market poller: when the endpoint and the
    /// game identifier are configured and no `room_market` request is
    /// outstanding, yields the query to put on the wire and marks it
    /// outstanding; otherwise a no-op.  Polling is idempotent under
    /// backpressure: while a request is outstanding, no second one is
    /// created.
    pub fn fetch_room_market(&mut self) -> (r: Option<MarketRequest>)
        requires
            old(self).wf(),
        ensures
            final(self).wf(),
            ({
                let fire = old(self).url@.len() > 0 && old(self).game@.len() > 0
                    && !old(self).market_inflight;
                &&& fire <==> r is Some
                &&& fire ==> (r matches Some(q) && q.url@ == old(self).url@ && q.method@
                    == m_room_market() && q.group == INIT_ROOM_MARKET_GROUP && q.body@
                    == request_text(
                    m_room_market(),
                    seq![Jv::Text(old(self).game@)],
                    zero_peer_tag(),
                    INIT_ROOM_MARKET_GROUP,
                ) && *final(self) == (RoomMarket { market_inflight: true, ..*old(self) }))
                &&& !fire ==> *final(self) == *old(self)
            }),
    {
        if !self.url.as_str().is_empty() && !self.game.as_str().is_empty() && !self.market_inflight {
            let mut params: Vec<JsonValue> = Vec::new();
            params.push(JsonValue::Text(str_to_chars(self.game.as_str())));
            let tag = zero_peer_tag_text();
            let url = self.url.clone();
            let body = build_request_with_tag(
                "room_market",
                params,
                tag.as_str(),
                INIT_ROOM_MARKET_GROUP,
            );
            proof {
                reveal_strlit("room_market");
                assert("room_market"@ =~= m_room_market());
                assert(params@.drop_first() =~= Seq::<JsonValue>::empty());
                assert(jviews(params@.drop_first()) =~= Seq::<Jv>::empty());
                assert(jview(params@[0]) == Jv::Text(old(self).game@));
                assert(jviews(params@) =~= seq![Jv::Text(old(self).game@)]);
            }
            self.market_inflight = true;
            Some(
                MarketRequest {
                    url,
                    method: String::from_str("room_market"),
                    group: INIT_ROOM_MARKET_GROUP,
                    body,
                },
            )
        } else {
            None
        }
    }

    /// Applies the outcome of a non-blocking receive on the market
    /// channel.  A payload that parses and decodes as a pending-room
    /// list replaces the cached list wholesale; one that does not is
    /// discarded with a typed error, the cached list and the
    /// connection kept.  A remote error or a closed channel releases
    /// the connection; only `NotReady` leaves the request outstanding.
    pub fn handle_room_market(&mut self, outcome: PollOutcome) -> (r: Result<
        MarketAction,
        ParseError,
    >)
        requires
            old(self).wf(),
        ensures
            final(self).wf(),
            final(self).url == old(self).url,
            final(self).game == old(self).game,
            final(self).waiting == old(self).waiting,
            final(self).phase == old(self).phase,
            final(self).contract == old(self).contract,
            final(self).seq_call_with_game == old(self).seq_call_with_game,
            final(self).game_contract == old(self).game_contract,
            match outcome {
                PollOutcome::Payload(text) => {
                    &&& !final(self).market_inflight
                    &&& (rooms_of_text(text@) matches Some(rs) ==> (r matches Ok(a) && a is Keep
                        && prooms_view(final(self).rooms@) == rs))
                    &&& (rooms_of_text(text@) is None ==> (r matches Err(e) && e
                        == ParseError::Malformed && final(self).rooms == old(self).rooms))
                },
                PollOutcome::RemoteError => r matches Ok(a) && a is Drop
                    && !final(self).market_inflight && final(self).rooms == old(self).rooms,
                PollOutcome::NotReady => r matches Ok(a) && a is Keep
                    && *final(self) == *old(self),
                PollOutcome::Closed => r matches Ok(a) && a is Drop
                    && !final(self).market_inflight && final(self).rooms == old(self).rooms,
            },
    {
        match outcome {
            PollOutcome::Payload(text) => {
                self.market_inflight = false;
                match parse_json(text.as_str()) {
                    None => Err(ParseError::Malformed),
                    Some(j) => {
                        match decode_pending_rooms(&j) {
                            Some(rs) => {
                                self.rooms = rs;
                                Ok(MarketAction::Keep)
                            },
                            None => Err(ParseError::Malformed),
                        }
                    },
                }
            },
            PollOutcome::RemoteError => {
                self.market_inflight = false;
                Ok(MarketAction::Drop)
            },
            PollOutcome::NotReady => Ok(MarketAction::Keep),
            PollOutcome::Closed => {
                self.market_inflight = false;
                Ok(MarketAction::Drop)
            },
        }
    }
}

} // verus!
