//! Peer identities: the 20-byte identifier a peer is known by on the
//! wire, and its checksummed hexadecimal text form.
use vstd::prelude::*;

verus! {

/// A name for what `tdn_types`' checksummed hexadecimal encoding
/// returns for an identifier: it is a function of the bytes alone.
pub uninterp spec fn peer_hex_of(b: Seq<u8>) -> Seq<char>;

/// A peer identity as this protocol reads it: the derived 20-byte
/// identifier.  Private keys stay outside the library; nothing here
/// signs.
pub struct PeerId {
    pub bytes: Vec<u8>,
}

impl PeerId {
    /// An identifier holds exactly 20 bytes.
    pub open spec fn wf(&self) -> bool {
        self.bytes@.len() == 20
    }

    /// Wraps raw bytes, refusing any length but 20.
    pub fn from_bytes(bytes: Vec<u8>) -> (r: Option<PeerId>)
        ensures
            bytes@.len() == 20 ==> (r matches Some(p) && p.wf() && p.bytes@ == bytes@),
            bytes@.len() != 20 ==> r is None,
    {
        if bytes.len() == 20 {
            Some(PeerId { bytes })
        } else {
            None
        }
    }

    /// The wire text of the identifier.
    pub fn to_hex(&self) -> (r: String)
        requires
            self.wf(),
        ensures
            r@ == peer_hex_of(self.bytes@),
            r@.len() == 42,
    {
        tdn_peer_hex(&self.bytes)
    }
}

/// Relies on `tdn_types::primitives::PeerId::to_hex`: the checksummed
/// hexadecimal form of a 20-byte identifier, `0x` followed by the 40
/// hexadecimal digits of the bytes in a digest-chosen letter case; a
/// function of the bytes alone, 42 characters in all.
#[verifier::external_body]
fn tdn_peer_hex(b: &Vec<u8>) -> (r: String)
    requires
        b@.len() == 20,
    ensures
        r@ == peer_hex_of(b@),
        r@.len() == 42,
{
    let mut raw = [0u8; 20];
    raw.copy_from_slice(b.as_slice());
    tdn_types::primitives::PeerId(raw).to_hex()
}

/// The wire text of a bare 20-byte address, as the resolver needs it
/// when it maps decoded player and sequencer addresses to peer tags.
pub fn bytes_hex(b: &Vec<u8>) -> (r: String)
    requires
        b@.len() == 20,
    ensures
        r@ == peer_hex_of(b@),
        r@.len() == 42,
{
    tdn_peer_hex(b)
}

/// The anonymous zero-address peer tag: `0x` and forty `0` digits,
/// used when a caller queries the market without an identity.
pub open spec fn zero_peer_tag() -> Seq<char> {
    seq!['0', 'x'] + Seq::new(40, |i: int| '0')
}

/// The anonymous tag, as text.
pub fn zero_peer_tag_text() -> (r: String)
    ensures
        r@ == zero_peer_tag(),
{
    let mut v: Vec<char> = Vec::new();
    v.push('0');
    v.push('x');
    let mut i: usize = 0;
    while i < 40
        invariant
            i <= 40,
            v@.len() == i + 2,
            v@[0] == '0',
            v@[1] == 'x',
            forall|k: int| 2 <= k < i + 2 ==> v@[k] == '0',
        decreases 40 - i,
    {
        v.push('0');
        i = i + 1;
    }
    proof {
        assert(zero_peer_tag().len() == 42);
        assert forall|k: int| 0 <= k < 42 implies v@[k] == zero_peer_tag()[k] by {
            if k >= 2 {
                assert(zero_peer_tag()[k] == Seq::new(40, |i: int| '0')[k - 2]);
            }
        }
        assert(v@ =~= zero_peer_tag());
    }
    crate::json::chars_to_string(&v)
}

} // verus!
