//! The 256-bit values that name things: record identifiers and accounts.
//!
//! Both are kept as two 128-bit limbs. Read as bytes, a value is the sixteen
//! little-endian bytes of its low limb followed by those of its high limb.

use vstd::prelude::*;
use vstd::bytes::*;

verus! {

/// The thirty-two bytes that two limbs stand for.
pub open spec fn limb_bytes(lo: u128, hi: u128) -> Seq<u8> {
    spec_u128_to_le_bytes(lo) + spec_u128_to_le_bytes(hi)
}

/// The low limb that thirty-two bytes stand for.
pub open spec fn low_limb(bytes: Seq<u8>) -> u128 {
    spec_u128_from_le_bytes(bytes.subrange(0, 16))
}

/// The high limb that thirty-two bytes stand for.
pub open spec fn high_limb(bytes: Seq<u8>) -> u128 {
    spec_u128_from_le_bytes(bytes.subrange(16, 32))
}

/// Limbs and bytes determine each other.
pub proof fn lemma_limb_bytes(lo: u128, hi: u128)
    ensures
        limb_bytes(lo, hi).len() == 32,
        low_limb(limb_bytes(lo, hi)) == lo,
        high_limb(limb_bytes(lo, hi)) == hi,
{
    lemma_auto_spec_u128_to_from_le_bytes();
    let l = spec_u128_to_le_bytes(lo);
    let h = spec_u128_to_le_bytes(hi);
    assert((l + h).subrange(0, 16) =~= l);
    assert((l + h).subrange(16, 32) =~= h);
}

/// Thirty-two bytes are the bytes of the limbs read from them.
pub proof fn lemma_bytes_of_limbs(bytes: Seq<u8>)
    requires
        bytes.len() == 32,
    ensures
        limb_bytes(low_limb(bytes), high_limb(bytes)) == bytes,
{
    lemma_auto_spec_u128_to_from_le_bytes();
    let l = bytes.subrange(0, 16);
    let h = bytes.subrange(16, 32);
    assert(spec_u128_to_le_bytes(spec_u128_from_le_bytes(l)) == l);
    assert(spec_u128_to_le_bytes(spec_u128_from_le_bytes(h)) == h);
    assert(l + h =~= bytes);
}

/// Writes two limbs out as thirty-two bytes.
pub fn limbs_to_bytes(lo: u128, hi: u128) -> (out: [u8; 32])
    ensures
        out@ == limb_bytes(lo, hi),
{
    let low = u128_to_le_bytes(lo);
    let high = u128_to_le_bytes(hi);
    let mut out = [0u8; 32];
    let mut i: usize = 0;
    while i < 16
        invariant
            i <= 16,
            low@.len() == 16,
            high@.len() == 16,
            forall|j: int| 0 <= j < i ==> out@[j] == low@[j],
            forall|j: int| 0 <= j < i ==> out@[16 + j] == high@[j],
        decreases 16 - i,
    {
        out[i] = low[i];
        out[i + 16] = high[i];
        i = i + 1;
    }
    assert(out@ =~= low@ + high@);
    out
}

/// Reads the two limbs, low then high, from thirty-two bytes.
pub fn limbs_from_bytes(bytes: &[u8; 32]) -> (limbs: (u128, u128))
    ensures
        limbs.0 == low_limb(bytes@),
        limbs.1 == high_limb(bytes@),
{
    let all = bytes.as_slice();
    let lo = u128_from_le_bytes(vstd::slice::slice_subrange(all, 0, 16));
    let hi = u128_from_le_bytes(vstd::slice::slice_subrange(all, 16, 32));
    (lo, hi)
}

/// A value that two 128-bit limbs determine, and that can therefore key a
/// [`crate::table::Table`].
pub trait Key256: Sized + Copy {
    /// The limbs of the key, low then high.
    spec fn limbs(&self) -> (u128, u128);

    /// No two keys share their limbs.
    proof fn limbs_determine(a: &Self, b: &Self)
        requires
            a.limbs() == b.limbs(),
        ensures
            *a == *b,
    ;

    /// The low limb.
    fn low(&self) -> (r: u128)
        ensures
            r == self.limbs().0,
    ;

    /// The high limb.
    fn high(&self) -> (r: u128)
        ensures
            r == self.limbs().1,
    ;
}

/// The identifier of a record: of an identity or of a token.
#[derive(Clone, Copy, Debug, PartialEq, Eq, Structural)]
pub struct H256 {
    pub lo: u128,
    pub hi: u128,
}

impl H256 {
    /// The identifier as thirty-two bytes.
    pub open spec fn bytes(&self) -> Seq<u8> {
        limb_bytes(self.lo, self.hi)
    }

    /// The identifier that thirty-two bytes stand for.
    pub open spec fn of_bytes(bytes: Seq<u8>) -> H256 {
        H256 { lo: low_limb(bytes), hi: high_limb(bytes) }
    }

    pub fn new(lo: u128, hi: u128) -> (h: H256)
        ensures
            h == (H256 { lo, hi }),
    {
        H256 { lo, hi }
    }

    pub fn from_bytes(bytes: &[u8; 32]) -> (h: H256)
        ensures
            h == H256::of_bytes(bytes@),
            h.bytes() == bytes@,
    {
        proof {
            lemma_bytes_of_limbs(bytes@);
        }
        let limbs = limbs_from_bytes(bytes);
        H256 { lo: limbs.0, hi: limbs.1 }
    }

    pub fn to_bytes(&self) -> (out: [u8; 32])
        ensures
            out@ == self.bytes(),
            H256::of_bytes(out@) == *self,
    {
        proof {
            lemma_limb_bytes(self.lo, self.hi);
        }
        limbs_to_bytes(self.lo, self.hi)
    }
}

impl Default for H256 {
    fn default() -> (h: H256)
        ensures
            h == (H256 { lo: 0, hi: 0 }),
    {
        H256 { lo: 0, hi: 0 }
    }
}

impl Key256 for H256 {
    open spec fn limbs(&self) -> (u128, u128) {
        (self.lo, self.hi)
    }

    proof fn limbs_determine(a: &Self, b: &Self) {
    }

    fn low(&self) -> (r: u128) {
        self.lo
    }

    fn high(&self) -> (r: u128) {
        self.hi
    }
}

/// An account: the authenticated party that calls the registry and owns
/// records.
#[derive(Clone, Copy, Debug, PartialEq, Eq, Structural)]
pub struct AccountId {
    pub lo: u128,
    pub hi: u128,
}

impl AccountId {
    /// The account as thirty-two bytes.
    pub open spec fn bytes(&self) -> Seq<u8> {
        limb_bytes(self.lo, self.hi)
    }

    /// The account that thirty-two bytes stand for.
    pub open spec fn of_bytes(bytes: Seq<u8>) -> AccountId {
        AccountId { lo: low_limb(bytes), hi: high_limb(bytes) }
    }

    pub fn new(lo: u128, hi: u128) -> (a: AccountId)
        ensures
            a == (AccountId { lo, hi }),
    {
        AccountId { lo, hi }
    }

    pub fn from_bytes(bytes: &[u8; 32]) -> (a: AccountId)
        ensures
            a == AccountId::of_bytes(bytes@),
            a.bytes() == bytes@,
    {
        proof {
            lemma_bytes_of_limbs(bytes@);
        }
        let limbs = limbs_from_bytes(bytes);
        AccountId { lo: limbs.0, hi: limbs.1 }
    }

    pub fn to_bytes(&self) -> (out: [u8; 32])
        ensures
            out@ == self.bytes(),
            AccountId::of_bytes(out@) == *self,
    {
        proof {
            lemma_limb_bytes(self.lo, self.hi);
        }
        limbs_to_bytes(self.lo, self.hi)
    }
}

impl Key256 for AccountId {
    open spec fn limbs(&self) -> (u128, u128) {
        (self.lo, self.hi)
    }

    proof fn limbs_determine(a: &Self, b: &Self) {
    }

    fn low(&self) -> (r: u128) {
        self.lo
    }

    fn high(&self) -> (r: u128) {
        self.hi
    }
}

} // verus!
