//! Client-side room matchmaking and session-coordination protocol:
//! a JSON envelope codec, a room-market poller, an on-chain room
//! resolver, and the session state machine that ties them together.
use vstd::prelude::*;

pub mod json;
pub mod market;
pub mod envelope;
pub mod peer;
pub mod resolver;

pub use envelope::{build_request, parse_request, parse_response, ParseError};
pub use market::{PendingRoom, RoomMarket};
pub use peer::PeerId;

verus! {

/// Identifier of a matchmaking room / session group.
pub type RoomId = u64;

/// Group id used for anonymous room-market queries.
pub const INIT_ROOM_MARKET_GROUP: RoomId = 4;

} // verus!
