//! Arbitrary-precision integers as sign and little-endian magnitude.
use vstd::prelude::*;
use num::bigint::{BigInt, Sign};
use crate::utils::{append_bytes, push_be32};
use crate::wire::bignum_of;

verus! {

/// A little-endian magnitude without its most significant zero bytes.
pub open spec fn trim_le(s: Seq<u8>) -> Seq<u8>
    decreases s.len(),
{
    if s.len() > 0 && s.last() == 0 {
        trim_le(s.drop_last())
    } else {
        s
    }
}

/// Sign and magnitude as a big integer holds them: no most significant zero
/// byte, and zero is never negative.
pub open spec fn canonical_bignum(negative: bool, magnitude: Seq<u8>) -> bool {
    &&& magnitude.len() > 0 ==> magnitude.last() != 0
    &&& magnitude.len() == 0 ==> !negative
}

pub proof fn lemma_trim_le(s: Seq<u8>)
    ensures
        trim_le(s).len() <= s.len(),
        trim_le(s) == s.subrange(0, trim_le(s).len() as int),
        trim_le(s).len() > 0 ==> trim_le(s).last() != 0,
        canonical_bignum(false, trim_le(s)),
    decreases s.len(),
{
    if s.len() > 0 && s.last() == 0 {
        lemma_trim_le(s.drop_last());
        let t = trim_le(s.drop_last());
        assert(s.drop_last().subrange(0, t.len() as int) =~= s.subrange(0, t.len() as int));
    } else {
        assert(s.subrange(0, s.len() as int) =~= s);
    }
}

/// Relies on `BigInt::from_bytes_le` and `BigInt::to_bytes_le`: the integer
/// is rebuilt from sign and little-endian magnitude and handed back in the
/// same form, without most significant zero bytes; zero loses its sign and
/// comes out as the single byte 0.
#[verifier::external_body]
fn bigint_le_normalize(negative: bool, magnitude: &[u8]) -> (r: (bool, Vec<u8>))
    ensures
        r.0 == (negative && trim_le(magnitude@).len() > 0),
        r.1@ == (if trim_le(magnitude@).len() == 0 { seq![0u8] } else { trim_le(magnitude@) }),
{
    let sign = match negative {
        true => Sign::Minus,
        false => Sign::Plus,
    };
    let (sign, bytes) = BigInt::from_bytes_le(sign, magnitude).to_bytes_le();
    let negative = match sign {
        Sign::Minus => true,
        Sign::NoSign => false,
        Sign::Plus => false,
    };
    (negative, bytes)
}

/// An arbitrary-precision integer as sign and magnitude, least significant
/// byte first. Zero is positive with an empty magnitude.
#[derive(Debug, PartialEq, Eq)]
pub struct BertBigInteger {
    negative: bool,
    magnitude: Vec<u8>,
}

impl BertBigInteger {
    /// Sign and magnitude are always canonical.
    #[verifier::type_invariant]
    closed spec fn inv(self) -> bool {
        canonical_bignum(self.negative, self.magnitude@)
    }

    pub closed spec fn spec_negative(self) -> bool {
        self.negative
    }

    pub closed spec fn spec_magnitude(self) -> Seq<u8> {
        self.magnitude@
    }

    /// The integer with the given sign and little-endian magnitude; high zero
    /// bytes are dropped and zero is never negative.
    pub fn from_sign_magnitude(negative: bool, magnitude: &[u8]) -> (r: BertBigInteger)
        ensures
            r.spec_negative() == (negative && trim_le(magnitude@).len() > 0),
            r.spec_magnitude() == trim_le(magnitude@),
            canonical_bignum(r.spec_negative(), r.spec_magnitude()),
    {
        proof {
            lemma_trim_le(magnitude@);
        }
        let (sign, bytes) = bigint_le_normalize(negative, magnitude);
        let magnitude = if bytes.len() == 1 && bytes[0] == 0 {
            Vec::new()
        } else {
            bytes
        };
        BertBigInteger { negative: sign, magnitude }
    }

    /// Whether the integer is below zero.
    pub fn is_negative(&self) -> (r: bool)
        ensures
            r == self.spec_negative(),
            canonical_bignum(self.spec_negative(), self.spec_magnitude()),
    {
        proof {
            use_type_invariant(self);
        }
        self.negative
    }

    /// The magnitude, least significant byte first.
    pub fn magnitude(&self) -> (r: &[u8])
        ensures
            r@ == self.spec_magnitude(),
            canonical_bignum(self.spec_negative(), self.spec_magnitude()),
    {
        proof {
            use_type_invariant(self);
        }
        self.magnitude.as_slice()
    }

    /// The wire form: SmallBigNum up to 255 bytes of magnitude, else LargeBigNum.
    pub fn to_binary(&self) -> (r: Vec<u8>)
        requires
            self.spec_magnitude().len() <= u32::MAX,
        ensures
            r@ == bignum_of(self.spec_negative(), self.spec_magnitude()),
    {
        let len = self.magnitude.len();
        let sign: u8 = if self.negative {
            1
        } else {
            0
        };
        let mut r: Vec<u8> = Vec::new();
        if len <= 255 {
            r.push(110u8);
            r.push(len as u8);
            r.push(sign);
        } else {
            r.push(111u8);
            push_be32(&mut r, len as u32);
            r.push(sign);
        }
        append_bytes(&mut r, self.magnitude.as_slice());
        proof {
            let mag = self.magnitude@;
            assert(r@ =~= bignum_of(self.negative, mag));
        }
        r
    }
}

} // verus!
