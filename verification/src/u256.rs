//! 256-bit unsigned keyspace arithmetic: checked increment, checked
//! addition of a word, comparison, and big-endian 32-byte conversion.
//!
//! A `U256` is four 64-bit words, most significant first. Its
//! mathematical value is given by [`U256::value`], and every operation is
//! specified against that value.

use crate::VmError;
use vstd::prelude::*;

verus! {

/// 2^64
pub open spec fn pow64() -> nat {
    0x1_0000_0000_0000_0000nat
}

/// 2^128
pub open spec fn pow128() -> nat {
    0x1_0000_0000_0000_0000_0000_0000_0000_0000nat
}

/// 2^192
pub open spec fn pow192() -> nat {
    0x1_0000_0000_0000_0000_0000_0000_0000_0000_0000_0000_0000_0000nat
}

/// 2^256, one past the largest slot index.
pub open spec fn pow256() -> nat {
    0x1_0000_0000_0000_0000_0000_0000_0000_0000_0000_0000_0000_0000_0000_0000_0000_0000nat
}

/// The value of eight big-endian bytes of `s` starting at index `8 * i`.
pub open spec fn word_of_bytes(s: Seq<u8>, i: int) -> nat {
    (s[8 * i] as nat) * 0x100_0000_0000_0000 + (s[8 * i + 1] as nat) * 0x1_0000_0000_0000 + (s[8
        * i + 2] as nat) * 0x100_0000_0000 + (s[8 * i + 3] as nat) * 0x1_0000_0000 + (s[8 * i
        + 4] as nat) * 0x100_0000 + (s[8 * i + 5] as nat) * 0x1_0000 + (s[8 * i + 6] as nat) * 0x100
        + (s[8 * i + 7] as nat)
}

/// The integer value of 32 bytes read big-endian.
pub open spec fn be_bytes_value(s: Seq<u8>) -> nat
    recommends
        s.len() == 32,
{
    word_of_bytes(s, 0) * pow192() + word_of_bytes(s, 1) * pow128() + word_of_bytes(s, 2) * pow64()
        + word_of_bytes(s, 3)
}

/// A 256-bit unsigned integer: four 64-bit words, most significant first.
#[derive(Clone, Copy, PartialEq, Eq, Structural, Debug)]
pub struct U256 {
    pub w0: u64,
    pub w1: u64,
    pub w2: u64,
    pub w3: u64,
}

impl U256 {
    /// The mathematical value of this integer.
    pub open spec fn value(self) -> nat {
        (self.w0 as nat) * pow192() + (self.w1 as nat) * pow128() + (self.w2 as nat) * pow64()
            + (self.w3 as nat)
    }
}

/// Lexicographic word order, most significant word first.
pub open spec fn lex_lt(a: U256, b: U256) -> bool {
    ||| a.w0 < b.w0
    ||| (a.w0 == b.w0 && a.w1 < b.w1)
    ||| (a.w0 == b.w0 && a.w1 == b.w1 && a.w2 < b.w2)
    ||| (a.w0 == b.w0 && a.w1 == b.w1 && a.w2 == b.w2 && a.w3 < b.w3)
}

/// Every `U256` value lies below 2^256.
pub proof fn lemma_value_bound(a: U256)
    ensures
        a.value() < pow256(),
{
    assert((a.w0 as nat) * pow192() <= 0xffff_ffff_ffff_ffffnat * pow192()) by {
        vstd::arithmetic::mul::lemma_mul_inequality(a.w0 as int, 0xffff_ffff_ffff_ffff as int, pow192() as int);
    }
    assert((a.w1 as nat) * pow128() <= 0xffff_ffff_ffff_ffffnat * pow128()) by {
        vstd::arithmetic::mul::lemma_mul_inequality(a.w1 as int, 0xffff_ffff_ffff_ffff as int, pow128() as int);
    }
    assert((a.w2 as nat) * pow64() <= 0xffff_ffff_ffff_ffffnat * pow64()) by {
        vstd::arithmetic::mul::lemma_mul_inequality(a.w2 as int, 0xffff_ffff_ffff_ffff as int, pow64() as int);
    }
}

/// Word-lexicographic order agrees with the order of values.
pub proof fn lemma_lex_lt_value(a: U256, b: U256)
    requires
        lex_lt(a, b),
    ensures
        a.value() < b.value(),
{
    if a.w0 < b.w0 {
        assert((a.w0 as nat) * pow192() + pow192() <= (b.w0 as nat) * pow192()) by {
            vstd::arithmetic::mul::lemma_mul_inequality(a.w0 as int + 1, b.w0 as int, pow192() as int);
        }
        lemma_value_bound(U256 { w0: 0, w1: a.w1, w2: a.w2, w3: a.w3 });
    } else if a.w1 < b.w1 {
        assert((a.w1 as nat) * pow128() + pow128() <= (b.w1 as nat) * pow128()) by {
            vstd::arithmetic::mul::lemma_mul_inequality(a.w1 as int + 1, b.w1 as int, pow128() as int);
        }
        lemma_value_bound(U256 { w0: 0, w1: 0, w2: a.w2, w3: a.w3 });
    } else if a.w2 < b.w2 {
        assert((a.w2 as nat) * pow64() + pow64() <= (b.w2 as nat) * pow64()) by {
            vstd::arithmetic::mul::lemma_mul_inequality(a.w2 as int + 1, b.w2 as int, pow64() as int);
        }
    }
}

/// Values order exactly as the words do; equal values are equal words.
pub proof fn lemma_value_order(a: U256, b: U256)
    ensures
        (a.value() < b.value()) <==> lex_lt(a, b),
        (a.value() == b.value()) <==> a == b,
{
    if lex_lt(a, b) {
        lemma_lex_lt_value(a, b);
    }
    if lex_lt(b, a) {
        lemma_lex_lt_value(b, a);
    }
}

impl U256 {
    /// The all-zero integer.
    pub fn zero() -> (r: U256)
        ensures
            r.value() == 0,
            r == (U256 { w0: 0, w1: 0, w2: 0, w3: 0 }),
    {
        U256 { w0: 0, w1: 0, w2: 0, w3: 0 }
    }

    /// Build from four 64-bit words, most significant first.
    pub fn from_words(w0: u64, w1: u64, w2: u64, w3: u64) -> (r: U256)
        ensures
            r == (U256 { w0, w1, w2, w3 }),
    {
        U256 { w0, w1, w2, w3 }
    }

    /// Embed a 64-bit integer.
    pub fn from_u64(v: u64) -> (r: U256)
        ensures
            r.value() == v as nat,
    {
        U256 { w0: 0, w1: 0, w2: 0, w3: v }
    }

    /// Strict order on values.
    pub fn lt(&self, other: &U256) -> (r: bool)
        ensures
            r == (self.value() < other.value()),
    {
        proof {
            lemma_value_order(*self, *other);
        }
        if self.w0 != other.w0 {
            self.w0 < other.w0
        } else if self.w1 != other.w1 {
            self.w1 < other.w1
        } else if self.w2 != other.w2 {
            self.w2 < other.w2
        } else {
            self.w3 < other.w3
        }
    }

    /// Checked increment: the sole way the range engines advance a key
    /// cursor. Fails exactly on the largest key, where the next slot
    /// would lie outside the keyspace.
    pub fn increase(&self) -> (r: Result<U256, VmError>)
        ensures
            (r is Ok) <==> self.value() + 1 < pow256(),
            r is Ok ==> r->Ok_0.value() == self.value() + 1,
            r is Err ==> r->Err_0 == VmError::KeyspaceOverflow,
    {
        if self.w3 < u64::MAX {
            Ok(U256 { w0: self.w0, w1: self.w1, w2: self.w2, w3: self.w3 + 1 })
        } else if self.w2 < u64::MAX {
            Ok(U256 { w0: self.w0, w1: self.w1, w2: self.w2 + 1, w3: 0 })
        } else if self.w1 < u64::MAX {
            Ok(U256 { w0: self.w0, w1: self.w1 + 1, w2: 0, w3: 0 })
        } else if self.w0 < u64::MAX {
            Ok(U256 { w0: self.w0 + 1, w1: 0, w2: 0, w3: 0 })
        } else {
            Err(VmError::KeyspaceOverflow)
        }
    }

    /// Checked addition of a 64-bit count, used to preflight a range.
    /// Returns `None` exactly when `self + n` would reach 2^256.
    pub fn checked_add_u64(&self, n: u64) -> (r: Option<U256>)
        ensures
            (r is Some) <==> self.value() + n < pow256(),
            r is Some ==> r->0.value() == self.value() + n,
    {
        let space = u64::MAX - self.w3;
        if n <= space {
            Some(U256 { w0: self.w0, w1: self.w1, w2: self.w2, w3: self.w3 + n })
        } else {
            let rem = n - space - 1;
            if self.w2 < u64::MAX {
                Some(U256 { w0: self.w0, w1: self.w1, w2: self.w2 + 1, w3: rem })
            } else if self.w1 < u64::MAX {
                Some(U256 { w0: self.w0, w1: self.w1 + 1, w2: 0, w3: rem })
            } else if self.w0 < u64::MAX {
                Some(U256 { w0: self.w0 + 1, w1: 0, w2: 0, w3: rem })
            } else {
                None
            }
        }
    }

    /// One word from eight big-endian bytes.
    fn word_from_bytes(b0: u8, b1: u8, b2: u8, b3: u8, b4: u8, b5: u8, b6: u8, b7: u8) -> (w: u64)
        ensures
            w as nat == (b0 as nat) * 0x100_0000_0000_0000 + (b1 as nat) * 0x1_0000_0000_0000 + (
            b2 as nat) * 0x100_0000_0000 + (b3 as nat) * 0x1_0000_0000 + (b4 as nat) * 0x100_0000
                + (b5 as nat) * 0x1_0000 + (b6 as nat) * 0x100 + (b7 as nat),
    {
        (b0 as u64) * 0x100_0000_0000_0000 + (b1 as u64) * 0x1_0000_0000_0000 + (b2 as u64)
            * 0x100_0000_0000 + (b3 as u64) * 0x1_0000_0000 + (b4 as u64) * 0x100_0000 + (
        b5 as u64) * 0x1_0000 + (b6 as u64) * 0x100 + (b7 as u64)
    }

    /// Read a 256-bit integer from 32 big-endian bytes.
    pub fn from_be_bytes(b: &[u8]) -> (r: U256)
        requires
            b@.len() == 32,
        ensures
            r.value() == be_bytes_value(b@),
    {
        let w0 = Self::word_from_bytes(b[0], b[1], b[2], b[3], b[4], b[5], b[6], b[7]);
        let w1 = Self::word_from_bytes(b[8], b[9], b[10], b[11], b[12], b[13], b[14], b[15]);
        let w2 = Self::word_from_bytes(b[16], b[17], b[18], b[19], b[20], b[21], b[22], b[23]);
        let w3 = Self::word_from_bytes(b[24], b[25], b[26], b[27], b[28], b[29], b[30], b[31]);
        U256 { w0, w1, w2, w3 }
    }

    /// Append one word as eight big-endian bytes.
    fn push_word_be(out: &mut Vec<u8>, w: u64)
        ensures
            final(out)@.len() == old(out)@.len() + 8,
            forall|i: int| 0 <= i < old(out)@.len() ==> final(out)@[i] == old(out)@[i],
            word_of_bytes(final(out)@.skip(old(out)@.len() as int), 0) == w as nat,
    {
        let b0 = (w / 0x100_0000_0000_0000) as u8;
        let r0 = w % 0x100_0000_0000_0000;
        let b1 = (r0 / 0x1_0000_0000_0000) as u8;
        let r1 = r0 % 0x1_0000_0000_0000;
        let b2 = (r1 / 0x100_0000_0000) as u8;
        let r2 = r1 % 0x100_0000_0000;
        let b3 = (r2 / 0x1_0000_0000) as u8;
        let r3 = r2 % 0x1_0000_0000;
        let b4 = (r3 / 0x100_0000) as u8;
        let r4 = r3 % 0x100_0000;
        let b5 = (r4 / 0x1_0000) as u8;
        let r5 = r4 % 0x1_0000;
        let b6 = (r5 / 0x100) as u8;
        let b7 = (r5 % 0x100) as u8;
        out.push(b0);
        out.push(b1);
        out.push(b2);
        out.push(b3);
        out.push(b4);
        out.push(b5);
        out.push(b6);
        out.push(b7);
    }

    /// Write this integer as 32 big-endian bytes.
    pub fn to_be_bytes(&self) -> (r: Vec<u8>)
        ensures
            r@.len() == 32,
            be_bytes_value(r@) == self.value(),
    {
        let mut out: Vec<u8> = Vec::new();
        Self::push_word_be(&mut out, self.w0);
        Self::push_word_be(&mut out, self.w1);
        Self::push_word_be(&mut out, self.w2);
        Self::push_word_be(&mut out, self.w3);
        proof {
            assert(word_of_bytes(out@, 0) == self.w0 as nat) by {
                assert(out@.skip(0) =~= out@);
            }
            assert(word_of_bytes(out@, 1) == self.w1 as nat) by {
                let t = out@.skip(8);
                assert forall|k: int| 0 <= k < 8 implies t[k] == out@[8 + k] by {}
            }
            assert(word_of_bytes(out@, 2) == self.w2 as nat) by {
                let t = out@.skip(16);
                assert forall|k: int| 0 <= k < 8 implies t[k] == out@[16 + k] by {}
            }
            assert(word_of_bytes(out@, 3) == self.w3 as nat) by {
                let t = out@.skip(24);
                assert forall|k: int| 0 <= k < 8 implies t[k] == out@[24 + k] by {}
            }
        }
        out
    }
}

} // verus!
