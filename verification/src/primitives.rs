//! Plain-value identities used throughout the node: peer identifiers and
//! addresses on the peer-to-peer network, wallet addresses, 256-bit amounts
//! and ECDSA signatures.

use vstd::prelude::*;

verus! {

/// Identifier of a node on the peer-to-peer network, held as its byte encoding.
#[derive(Debug, Clone, PartialEq, Eq, Hash)]
pub struct PeerId {
    pub bytes: Vec<u8>,
}

/// Network address of a node, held as its byte encoding.
#[derive(Debug, Clone, PartialEq, Eq, Hash)]
pub struct Multiaddr {
    pub bytes: Vec<u8>,
}

/// A 20-byte wallet address.
#[derive(Debug, Clone, Copy, PartialEq, Eq, Hash)]
pub struct Address {
    pub bytes: [u8; 20],
}

/// An unsigned 256-bit integer, as four 64-bit limbs, least significant first.
#[derive(Debug, Clone, Copy, PartialEq, Eq, Hash)]
pub struct Uint256 {
    pub limbs: [u64; 4],
}

/// An ECDSA signature over secp256k1 with its recovery value.
#[derive(Debug, Clone, Copy, PartialEq, Eq, Hash)]
pub struct Signature {
    pub r: Uint256,
    pub s: Uint256,
    pub v: u64,
}

impl View for PeerId {
    type V = Seq<u8>;

    open spec fn view(&self) -> Seq<u8> {
        self.bytes@
    }
}

impl View for Multiaddr {
    type V = Seq<u8>;

    open spec fn view(&self) -> Seq<u8> {
        self.bytes@
    }
}

impl View for Address {
    type V = Seq<u8>;

    open spec fn view(&self) -> Seq<u8> {
        self.bytes@
    }
}

/// The number that four little-endian 64-bit limbs stand for.
pub open spec fn limbs_value(limbs: Seq<u64>) -> nat {
    limbs[0] as nat + 0x1_0000_0000_0000_0000 * (limbs[1] as nat + 0x1_0000_0000_0000_0000 * (
    limbs[2] as nat + 0x1_0000_0000_0000_0000 * (limbs[3] as nat)))
}

impl View for Uint256 {
    type V = nat;

    open spec fn view(&self) -> nat {
        limbs_value(self.limbs@)
    }
}

/// Byte-wise equality of two byte strings.
pub fn bytes_equal(a: &Vec<u8>, b: &Vec<u8>) -> (r: bool)
    ensures
        r == (a@ == b@),
{
    if a.len() != b.len() {
        return false;
    }
    let mut i: usize = 0;
    while i < a.len()
        invariant
            a.len() == b.len(),
            i <= a.len(),
            forall|j: int| 0 <= j < i ==> a@[j] == b@[j],
        decreases a.len() - i,
    {
        if a[i] != b[i] {
            return false;
        }
        i += 1;
    }
    assert(a@ =~= b@);
    true
}

/// A copy of a byte string.
pub fn copy_bytes(a: &Vec<u8>) -> (r: Vec<u8>)
    ensures
        r@ == a@,
{
    let mut r: Vec<u8> = Vec::new();
    let mut i: usize = 0;
    while i < a.len()
        invariant
            i <= a.len(),
            r@ == a@.take(i as int),
        decreases a.len() - i,
    {
        r.push(a[i]);
        i += 1;
        assert(r@ =~= a@.take(i as int));
    }
    assert(a@.take(a.len() as int) =~= a@);
    r
}

impl PeerId {
    /// Whether two peer identifiers are the same.
    pub fn same_as(&self, other: &PeerId) -> (r: bool)
        ensures
            r == (self@ == other@),
    {
        bytes_equal(&self.bytes, &other.bytes)
    }

    /// A copy of this peer identifier.
    pub fn duplicate(&self) -> (r: PeerId)
        ensures
            r@ == self@,
    {
        PeerId { bytes: copy_bytes(&self.bytes) }
    }
}

impl Multiaddr {
    /// A copy of this network address.
    pub fn duplicate(&self) -> (r: Multiaddr)
        ensures
            r@ == self@,
    {
        Multiaddr { bytes: copy_bytes(&self.bytes) }
    }
}

impl Address {
    /// The all-zero address.
    pub fn zero() -> (r: Address)
        ensures
            r@ == Seq::new(20, |i: int| 0u8),
    {
        let r = Address { bytes: [0u8; 20] };
        assert(r@ =~= Seq::new(20, |i: int| 0u8));
        r
    }

    /// Whether two wallet addresses are the same.
    pub fn same_as(&self, other: &Address) -> (r: bool)
        ensures
            r == (self@ == other@),
    {
        let mut i: usize = 0;
        while i < 20
            invariant
                i <= 20,
                forall|j: int| 0 <= j < i ==> self@[j] == other@[j],
            decreases 20 - i,
        {
            if self.bytes[i] != other.bytes[i] {
                return false;
            }
            i += 1;
        }
        assert(self@ =~= other@);
        true
    }
}

impl Uint256 {
    /// The number zero.
    pub fn zero() -> (r: Uint256)
        ensures
            r@ == 0,
    {
        Uint256 { limbs: [0u64; 4] }
    }

    /// The 256-bit integer holding a 64-bit value.
    pub fn from_u64(x: u64) -> (r: Uint256)
        ensures
            r@ == x,
    {
        Uint256 { limbs: [x, 0, 0, 0] }
    }
}

} // verus!
