//! The on-chain room resolver: decoded contract words, the two-phase
//! room-info / sequencer-info exchange, and the transport handoff.
use vstd::prelude::*;
use crate::RoomId;
use crate::json::{Jv, str_to_chars, chars_eq};
use crate::envelope::{connect_message, m_connect, request_text, ParseError};
use crate::market::{PendingRoom, RoomMarket, SessionPhase, strs_view, opt_str_view};
use crate::peer::{PeerId, peer_hex_of, bytes_hex, zero_peer_tag, zero_peer_tag_text};

verus! {

/// A decoded contract word, as the resolver reads it.  The host's
/// chain library decodes the raw response; the resolver only looks at
/// addresses, numbers, strings and arrays of words.
pub enum Token {
    /// An address word; on this chain, 20 bytes.
    Address(Vec<u8>),
    /// An unsigned integer word.
    Uint(u64),
    /// A string word.
    Str(String),
    /// An array of words.
    List(Vec<Token>),
    /// Any word shape the resolver has no use for.
    Other,
}

/// The model of a `Token`.
pub enum TokenV {
    Address(Seq<u8>),
    Uint(u64),
    Str(Seq<char>),
    List(Seq<TokenV>),
    Other,
}

/// The model of a concrete `Token`.
pub open spec fn tview(t: Token) -> TokenV
    decreases t,
{
    match t {
        Token::Address(b) => TokenV::Address(b@),
        Token::Uint(u) => TokenV::Uint(u),
        Token::Str(s) => TokenV::Str(s@),
        Token::List(l) => TokenV::List(tviews(l@)),
        Token::Other => TokenV::Other,
    }
}

/// Models of a sequence of words.
pub open spec fn tviews(s: Seq<Token>) -> Seq<TokenV>
    decreases s,
{
    if s.len() == 0 {
        Seq::empty()
    } else {
        seq![tview(s[0])] + tviews(s.drop_first())
    }
}

/// Length and elementwise shape of `tviews`.
pub proof fn lemma_tviews(s: Seq<Token>)
    ensures
        tviews(s).len() == s.len(),
        forall|i: int| 0 <= i < s.len() ==> tviews(s)[i] == tview(s[i]),
    decreases s,
{
    if s.len() > 0 {
        lemma_tviews(s.drop_first());
        assert forall|i: int| 0 <= i < s.len() implies tviews(s)[i] == tview(s[i]) by {
            if i > 0 {
                assert(s.drop_first()[i - 1] == s[i]);
            }
        }
    }
}

/// Twenty zero bytes: the unassigned address.
pub open spec fn zero20() -> Seq<u8> {
    Seq::new(20, |i: int| 0u8)
}

/// Whether every byte of an address is zero.
pub open spec fn is_zero_addr(b: Seq<u8>) -> bool {
    forall|i: int| 0 <= i < b.len() ==> b[i] == 0
}

/// The address a decoded word yields; anything that is not a 20-byte
/// address falls back to the zero address.  The contracts apply this
/// only under `room_info_ok`, whose sequencer word is an address.
pub open spec fn word_addr(t: TokenV) -> Seq<u8> {
    match t {
        TokenV::Address(b) => if b.len() == 20 {
            b
        } else {
            zero20()
        },
        _ => zero20(),
    }
}

/// The peer tag a decoded player word yields: the checksummed hex of a
/// 20-byte address, the zero tag for anything else.  The contracts
/// apply this only under `room_info_ok`, whose roster words are all
/// addresses.
pub open spec fn player_tag(t: TokenV) -> Seq<char> {
    match t {
        TokenV::Address(b) => if b.len() == 20 {
            peer_hex_of(b)
        } else {
            zero_peer_tag()
        },
        _ => zero_peer_tag(),
    }
}

/// The array of words inside a decoded word; empty for anything else.
pub open spec fn room_words(t: TokenV) -> Seq<TokenV> {
    match t {
        TokenV::List(l) => l,
        _ => Seq::empty(),
    }
}

/// The peer tags of the decoded player roster.
pub open spec fn players_of(ts: Seq<TokenV>) -> Seq<Seq<char>> {
    ts.map_values(|t: TokenV| player_tag(t))
}

/// The game contract address a room-info decode yields, if its word is
/// a 20-byte address.
pub open spec fn game_word(ts: Seq<TokenV>) -> Option<Seq<u8>> {
    if 2 <= ts.len() {
        match ts[1] {
            TokenV::Address(g) => if g.len() == 20 {
                Option::Some(g)
            } else {
                Option::None
            },
            _ => Option::None,
        }
    } else {
        Option::None
    }
}

/// The reachable address a sequencer-info decode yields: its second
/// word.  The contracts apply this only under `seq_info_ok`, which
/// makes that word a string.
pub open spec fn ws_word(ts: Seq<TokenV>) -> Seq<char> {
    if 2 <= ts.len() && ts[1] is Str {
        ts[1]->Str_0
    } else {
        Seq::empty()
    }
}

/// Model of an optional byte vector.
pub open spec fn opt_bytes_view(o: Option<Vec<u8>>) -> Option<Seq<u8>> {
    match o {
        Option::None => Option::None,
        Option::Some(b) => Option::Some(b@),
    }
}

/// A chain call for the host to encode and send: the resolver's two
/// lookups.  The optional game address follows the deployed schema's
/// argument list.
pub enum ChainCall {
    /// `roomInfo(room)`.
    RoomInfo { room: RoomId },
    /// `sequencers(sequencer[, game])`.
    Sequencers { sequencer: Vec<u8>, game: Option<Vec<u8>> },
}

/// The `roomInfo` method name.
pub open spec fn m_room_info() -> Seq<char> {
    seq!['r', 'o', 'o', 'm', 'I', 'n', 'f', 'o']
}

/// The `sequencers` method name.
pub open spec fn m_sequencers() -> Seq<char> {
    seq!['s', 'e', 'q', 'u', 'e', 'n', 'c', 'e', 'r', 's']
}

/// A missing contract binding.  No resolution can proceed without
/// one, so the condition is surfaced at the point of use instead of
/// being silently skipped.
#[derive(Clone, Copy, Debug, PartialEq, Eq, Structural)]
pub enum ConfigurationError {
    MissingContract,
}

/// What a well-formed `roomInfo` decode must hold: at least the three
/// words the resolver reads, a roster word that is an array of
/// 20-byte addresses, and a 20-byte sequencer address word.  Anything
/// else is a malformed response, discarded with a typed error.
pub open spec fn room_info_ok(ts: Seq<TokenV>) -> bool {
    &&& ts.len() >= 3
    &&& ts[0] matches TokenV::List(items) && (forall|i: int|
        0 <= i < items.len() ==> ((#[trigger] items[i]) matches TokenV::Address(b) && b.len()
            == 20))
    &&& ts[2] matches TokenV::Address(b2) && b2.len() == 20
}

/// What a well-formed `sequencers` decode must hold: at least two
/// words, the second a string.
pub open spec fn seq_info_ok(ts: Seq<TokenV>) -> bool {
    ts.len() >= 2 && ts[1] is Str
}

/// A copy of a byte vector.
fn clone_bytes(v: &Vec<u8>) -> (r: Vec<u8>)
    ensures
        r@ == v@,
{
    let mut r: Vec<u8> = Vec::new();
    let mut i: usize = 0;
    while i < v.len()
        invariant
            i <= v@.len(),
            r@ == v@.take(i as int),
        decreases v@.len() - i,
    {
        r.push(v[i]);
        proof {
            assert(v@.take(i as int).push(v@[i as int]) =~= v@.take(i as int + 1));
        }
        i = i + 1;
    }
    proof {
        assert(v@.take(v@.len() as int) =~= v@);
    }
    r
}

/// A copy of a string vector, same texts.
fn clone_strings(v: &Vec<String>) -> (r: Vec<String>)
    ensures
        strs_view(r@) == strs_view(v@),
        r@.len() == v@.len(),
{
    let mut r: Vec<String> = Vec::new();
    let mut i: usize = 0;
    while i < v.len()
        invariant
            i <= v@.len(),
            r@.len() == i,
            forall|k: int| 0 <= k < i ==> r@[k]@ == v@[k]@,
        decreases v@.len() - i,
    {
        r.push(v[i].clone());
        i = i + 1;
    }
    proof {
        assert(strs_view(r@) =~= strs_view(v@));
    }
    r
}

/// Whether all bytes are zero.
fn bytes_all_zero(v: &Vec<u8>) -> (r: bool)
    ensures
        r == is_zero_addr(v@),
{
    let mut i: usize = 0;
    while i < v.len()
        invariant
            i <= v@.len(),
            forall|k: int| 0 <= k < i ==> v@[k] == 0,
        decreases v@.len() - i,
    {
        if v[i] != 0 {
            return false;
        }
        i = i + 1;
    }
    true
}

/// The peer tags of a decoded player array.
fn players_from(items: &Vec<Token>) -> (r: Vec<String>)
    ensures
        strs_view(r@) == players_of(tviews(items@)),
{
    proof {
        lemma_tviews(items@);
    }
    let mut out: Vec<String> = Vec::new();
    let mut i: usize = 0;
    while i < items.len()
        invariant
            i <= items@.len(),
            out@.len() == i,
            tviews(items@).len() == items@.len(),
            forall|k: int| 0 <= k < items@.len() ==> tviews(items@)[k] == tview(items@[k]),
            forall|k: int| 0 <= k < i ==> out@[k]@ == player_tag(tviews(items@)[k]),
        decreases items@.len() - i,
    {
        let tag: String = match &items[i] {
            Token::Address(b) => {
                if b.len() == 20 {
                    bytes_hex(b)
                } else {
                    zero_peer_tag_text()
                }
            },
            _ => zero_peer_tag_text(),
        };
        out.push(tag);
        i = i + 1;
    }
    proof {
        assert(strs_view(out@) =~= players_of(tviews(items@)));
    }
    out
}

/// Whether every word of a roster is a 20-byte address.
fn roster_addresses_ok(items: &Vec<Token>) -> (r: bool)
    ensures
        r == (forall|i: int|
            0 <= i < tviews(items@).len() ==> ((#[trigger] tviews(items@)[i]) matches
                TokenV::Address(b) && b.len() == 20)),
{
    proof {
        lemma_tviews(items@);
    }
    let mut i: usize = 0;
    while i < items.len()
        invariant
            i <= items@.len(),
            tviews(items@).len() == items@.len(),
            forall|k: int| 0 <= k < items@.len() ==> tviews(items@)[k] == tview(items@[k]),
            forall|k: int|
                0 <= k < i ==> ((#[trigger] tviews(items@)[k]) matches TokenV::Address(b)
                    && b.len() == 20),
        decreases items@.len() - i,
    {
        let ok = match &items[i] {
            Token::Address(b) => b.len() == 20,
            _ => false,
        };
        if !ok {
            proof {
                assert(!(tviews(items@)[i as int] matches TokenV::Address(b) && b.len() == 20));
            }
            return false;
        }
        i = i + 1;
    }
    true
}

impl RoomMarket {
    /// One resolver step: while a chosen room awaits its room info,
    /// issues the `roomInfo` chain call for it through the bound
    /// contract; a missing binding at that point is a configuration
    /// error, surfaced, with nothing changed.  In any other phase the
    /// step is a no-op.  The call repeats on later ticks as long as
    /// the room's sequencer stays unassigned.
    pub fn fetch_room_status(&mut self) -> (r: Result<Option<ChainCall>, ConfigurationError>)
        requires
            old(self).wf(),
        ensures
            final(self).wf(),
            ({
                let fetching = old(self).phase is Waiting || old(self).phase is RoomInfoPending;
                &&& !fetching ==> (r matches Ok(c) && c is None && *final(self) == *old(self))
                &&& (fetching && old(self).contract is None) ==> (r matches Err(e) && e
                    == ConfigurationError::MissingContract && *final(self) == *old(self))
                &&& (fetching && old(self).contract is Some) ==> (r matches Ok(c) && c matches Some(
                    cc,
                ) && cc matches ChainCall::RoomInfo { room: rm } && rm == old(
                    self,
                ).waiting->0.room && *final(self) == (RoomMarket {
                    phase: SessionPhase::RoomInfoPending,
                    ..*old(self)
                }))
            }),
    {
        let fetching = match self.phase {
            SessionPhase::Waiting => true,
            SessionPhase::RoomInfoPending => true,
            _ => false,
        };
        if !fetching {
            return Ok(None);
        }
        if self.contract.is_none() {
            return Err(ConfigurationError::MissingContract);
        }
        let room = match &self.waiting {
            Some(w) => w.room,
            None => {
                proof {
                    assert(false);
                }
                0
            },
        };
        self.phase = SessionPhase::RoomInfoPending;
        Ok(Some(ChainCall::RoomInfo { room }))
    }

    /// Applies a decoded chain response, handed over as its method tag
    /// and decoded words.  A well-formed `roomInfo` response while
    /// room info is awaited: a zero sequencer leaves the state
    /// untouched (the room has no sequencer yet; the next tick
    /// re-polls), a nonzero one records the roster and the sequencer
    /// and yields exactly one `sequencers` lookup for that address.  A
    /// well-formed `sequencers` response while that lookup is out
    /// records the reachable address.  A malformed word list — too
    /// short, a roster that is not an array of 20-byte addresses, a
    /// sequencer word that is no address, or a reachable-address word
    /// that is no string — is discarded with a typed error and changes
    /// nothing.  An unknown method tag, and a response in a phase it
    /// does not belong to, are ignored.
    pub fn handle_room_status(&mut self, method: &str, words: Vec<Token>) -> (r: Result<
        Option<ChainCall>,
        ParseError,
    >)
        requires
            old(self).wf(),
        ensures
            final(self).wf(),
            final(self).url == old(self).url,
            final(self).game == old(self).game,
            final(self).rooms == old(self).rooms,
            final(self).contract == old(self).contract,
            final(self).market_inflight == old(self).market_inflight,
            final(self).seq_call_with_game == old(self).seq_call_with_game,
            ({
                let ts = tviews(words@);
                &&& (method@ == m_room_info() && old(self).phase is RoomInfoPending
                    && room_info_ok(ts) && !is_zero_addr(word_addr(ts[2]))) ==> {
                    &&& r matches Ok(c) && c matches Some(cc) && cc matches ChainCall::Sequencers {
                        sequencer: sq,
                        game: g,
                    } && sq@ == word_addr(ts[2]) && (old(self).seq_call_with_game
                        ==> opt_bytes_view(g) == game_word(ts)) && (!old(self).seq_call_with_game
                        ==> g is None)
                    &&& final(self).phase is PlayersKnown
                    &&& final(self).waiting matches Some(w) && w.room == old(
                        self,
                    ).waiting->0.room && strs_view(w.players@) == players_of(room_words(ts[0]))
                        && opt_str_view(w.sequencer) == Some(peer_hex_of(word_addr(ts[2])))
                        && w.websocket is None
                    &&& opt_bytes_view(final(self).game_contract) == game_word(ts)
                }
                &&& (method@ == m_room_info() && old(self).phase is RoomInfoPending
                    && room_info_ok(ts) && is_zero_addr(word_addr(ts[2]))) ==> (r matches Ok(c)
                    && c is None && *final(self) == *old(self))
                &&& (method@ == m_room_info() && old(self).phase is RoomInfoPending
                    && !room_info_ok(ts)) ==> (r matches Err(e) && e == ParseError::Malformed
                    && *final(self) == *old(self))
                &&& (method@ == m_room_info() && !(old(self).phase is RoomInfoPending))
                    ==> (r matches Ok(c) && c is None && *final(self) == *old(self))
                &&& (method@ == m_sequencers() && old(self).phase is PlayersKnown && seq_info_ok(
                    ts,
                )) ==> {
                    &&& r matches Ok(c) && c is None
                    &&& final(self).phase is Resolved
                    &&& final(self).waiting matches Some(w) && w.room == old(
                        self,
                    ).waiting->0.room && strs_view(w.players@) == strs_view(
                        old(self).waiting->0.players@,
                    ) && opt_str_view(w.sequencer) == opt_str_view(old(self).waiting->0.sequencer)
                        && opt_str_view(w.websocket) == Some(ws_word(ts))
                    &&& final(self).game_contract == old(self).game_contract
                }
                &&& (method@ == m_sequencers() && old(self).phase is PlayersKnown && !seq_info_ok(
                    ts,
                )) ==> (r matches Err(e) && e == ParseError::Malformed && *final(self) == *old(
                    self,
                ))
                &&& (method@ == m_sequencers() && !(old(self).phase is PlayersKnown))
                    ==> (r matches Ok(c) && c is None && *final(self) == *old(self))
                &&& (method@ != m_room_info() && method@ != m_sequencers()) ==> (r matches Ok(c)
                    && c is None && *final(self) == *old(self))
            }),
    {
        let mc = str_to_chars(method);
        let t_ri = str_to_chars("roomInfo");
        let t_sq = str_to_chars("sequencers");
        proof {
            reveal_strlit("roomInfo");
            reveal_strlit("sequencers");
            assert(t_ri@ =~= m_room_info());
            assert(t_sq@ =~= m_sequencers());
            lemma_tviews(words@);
        }
        let ghost ts = tviews(words@);
        if chars_eq(&mc, &t_ri) {
            let phase_ok = match self.phase {
                SessionPhase::RoomInfoPending => true,
                _ => false,
            };
            if !phase_ok {
                return Ok(None);
            }
            if words.len() < 3 {
                return Err(ParseError::Malformed);
            }
            let roster_ok = match &words[0] {
                Token::List(items) => roster_addresses_ok(items),
                _ => false,
            };
            let seq_word_ok = match &words[2] {
                Token::Address(b) => b.len() == 20,
                _ => false,
            };
            if !roster_ok || !seq_word_ok {
                proof {
                    assert(!room_info_ok(ts));
                }
                return Err(ParseError::Malformed);
            }
            proof {
                assert(room_info_ok(ts));
            }
            let sb = match &words[2] {
                Token::Address(b) => clone_bytes(b),
                _ => {
                    proof {
                        assert(false);
                    }
                    Vec::new()
                },
            };
            if bytes_all_zero(&sb) {
                // The room has no sequencer assigned yet: no change,
                // no call; the resolver re-polls on a later tick.
                return Ok(None);
            }
            let players: Vec<String> = match &words[0] {
                Token::List(items) => players_from(items),
                _ => {
                    proof {
                        assert(false);
                    }
                    Vec::new()
                },
            };
            let gw: Option<Vec<u8>> = match &words[1] {
                Token::Address(g) => {
                    if g.len() == 20 {
                        Some(clone_bytes(g))
                    } else {
                        None
                    }
                },
                _ => None,
            };
            let gw_call: Option<Vec<u8>> = if self.seq_call_with_game {
                match &words[1] {
                    Token::Address(g) => {
                        if g.len() == 20 {
                            Some(clone_bytes(g))
                        } else {
                            None
                        }
                    },
                    _ => None,
                }
            } else {
                None
            };
            let seq_hex = bytes_hex(&sb);
            let room = match &self.waiting {
                Some(w) => w.room,
                None => {
                    proof {
                        assert(false);
                    }
                    0
                },
            };
            self.waiting = Some(
                PendingRoom { room, players, sequencer: Some(seq_hex), websocket: None },
            );
            self.game_contract = gw;
            self.phase = SessionPhase::PlayersKnown;
            Ok(Some(ChainCall::Sequencers { sequencer: sb, game: gw_call }))
        } else if chars_eq(&mc, &t_sq) {
            let phase_ok = match self.phase {
                SessionPhase::PlayersKnown => true,
                _ => false,
            };
            if !phase_ok {
                return Ok(None);
            }
            if words.len() < 2 {
                return Err(ParseError::Malformed);
            }
            let ws: String = match &words[1] {
                Token::Str(s) => s.clone(),
                _ => {
                    return Err(ParseError::Malformed);
                },
            };
            match &self.waiting {
                Some(w) => {
                    let room = w.room;
                    let players = clone_strings(&w.players);
                    let sequencer: Option<String> = match &w.sequencer {
                        Some(s) => Some(s.clone()),
                        None => {
                            proof {
                                assert(false);
                            }
                            None
                        },
                    };
                    self.waiting = Some(
                        PendingRoom { room, players, sequencer, websocket: Some(ws) },
                    );
                    self.phase = SessionPhase::Resolved;
                },
                None => {
                    proof {
                        assert(false);
                    }
                },
            }
            Ok(None)
        } else {
            Ok(None)
        }
    }

    /// The transport handoff: once the reachable address is known,
    /// yields it together with the signed first frame — a `connect`
    /// envelope for the room, identifying the peer — and marks the
    /// session connected.
    pub fn handoff(&mut self, peer: &PeerId) -> (r: Option<(String, String)>)
        requires
            old(self).wf(),
            peer.wf(),
        ensures
            final(self).wf(),
            old(self).phase is Resolved <==> r is Some,
            old(self).phase is Resolved ==> (r matches Some(t) && t.0@ == old(
                self,
            ).waiting->0.websocket->0@ && t.1@ == request_text(
                m_connect(),
                Seq::<Jv>::empty(),
                peer_hex_of(peer.bytes@),
                old(self).waiting->0.room,
            ) && *final(self) == (RoomMarket { phase: SessionPhase::Connected, ..*old(self) })),
            !(old(self).phase is Resolved) ==> *final(self) == *old(self),
    {
        let phase_ok = match self.phase {
            SessionPhase::Resolved => true,
            _ => false,
        };
        if phase_ok {
            match &self.waiting {
                Some(w) => {
                    let url = match &w.websocket {
                        Some(u) => u.clone(),
                        None => {
                            proof {
                                assert(false);
                            }
                            String::new()
                        },
                    };
                    let msg = connect_message(peer, w.room);
                    self.phase = SessionPhase::Connected;
                    Some((url, msg))
                },
                None => {
                    proof {
                        assert(false);
                    }
                    None
                },
            }
        } else {
            None
        }
    }
}

} // verus!


