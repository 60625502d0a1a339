//! Fixed-width 256-bit unsigned integers.
//!
//! Field elements of BN254 fit in 254 bits, so one four-limb integer type
//! carries every scalar and coordinate value of the crate. The limbs are
//! little-endian: `l0` holds the least significant 64 bits.

use vstd::prelude::*;

verus! {

/// An unsigned integer below 2^256, as four 64-bit limbs (little-endian).
#[derive(Clone, Copy, Debug, PartialEq, Eq, Structural)]
pub struct U252 {
    pub l0: u64,
    pub l1: u64,
    pub l2: u64,
    pub l3: u64,
}

/// 2^256, the first value that does not fit in a `U252`.
pub open spec fn value_bound() -> nat {
    0x1_0000_0000_0000_0000_0000_0000_0000_0000_0000_0000_0000_0000_0000_0000_0000_0000nat
}

/// The BN254 scalar-field modulus (the prime `r`): public inputs and
/// challenges are canonical below it.
pub open spec fn fr_modulus() -> nat {
    21888242871839275222246405745257275088548364400416034343698204186575808495617nat
}

/// The BN254 base-field modulus (the prime `q`): point coordinates are
/// canonical below it.
pub open spec fn fq_modulus() -> nat {
    21888242871839275222246405745257275088696311157297823662689037894645226208583nat
}

/// The integer a byte string denotes, most significant byte first.
pub open spec fn be_val(s: Seq<u8>) -> nat
    decreases s.len(),
{
    if s.len() == 0 {
        0
    } else {
        be_val(s.drop_last()) * 256 + s.last() as nat
    }
}

/// Appending one byte scales the denoted value by 256 and adds the byte.
pub proof fn lemma_be_val_push(s: Seq<u8>, b: u8)
    ensures
        be_val(s.push(b)) == be_val(s) * 256 + b,
{
    assert(s.push(b).drop_last() =~= s);
    assert(s.push(b).last() == b);
}

impl U252 {
    /// The mathematical value of the four limbs.
    pub open spec fn value(self) -> nat {
        self.l0 as nat + self.l1 as nat * 0x1_0000_0000_0000_0000nat
            + self.l2 as nat * 0x1_0000_0000_0000_0000_0000_0000_0000_0000nat
            + self.l3 as nat * 0x1_0000_0000_0000_0000_0000_0000_0000_0000_0000_0000_0000_0000nat
    }

    /// Zero.
    pub fn zero() -> (r: U252)
        ensures
            r.value() == 0,
    {
        U252 { l0: 0, l1: 0, l2: 0, l3: 0 }
    }

    /// The scalar-field modulus as a `U252`.
    pub fn fr_modulus_val() -> (r: U252)
        ensures
            r.value() == fr_modulus(),
    {
        U252 {
            l0: 0x43e1f593f0000001,
            l1: 0x2833e84879b97091,
            l2: 0xb85045b68181585d,
            l3: 0x30644e72e131a029,
        }
    }

    /// The base-field modulus as a `U252`.
    pub fn fq_modulus_val() -> (r: U252)
        ensures
            r.value() == fq_modulus(),
    {
        U252 {
            l0: 0x3c208c16d87cfd47,
            l1: 0x97816a916871ca8d,
            l2: 0xb85045b68181585d,
            l3: 0x30644e72e131a029,
        }
    }

    /// Whether the value is zero.
    pub fn is_zero(&self) -> (r: bool)
        ensures
            r == (self.value() == 0),
    {
        self.l0 == 0 && self.l1 == 0 && self.l2 == 0 && self.l3 == 0
    }

    /// Strict comparison of the values.
    pub fn lt(&self, other: &U252) -> (r: bool)
        ensures
            r == (self.value() < other.value()),
    {
        if self.l3 != other.l3 {
            self.l3 < other.l3
        } else if self.l2 != other.l2 {
            self.l2 < other.l2
        } else if self.l1 != other.l1 {
            self.l1 < other.l1
        } else {
            self.l0 < other.l0
        }
    }

    /// Multiply by ten and add one decimal digit; `None` reports that the
    /// result does not fit in 256 bits.
    pub fn mul10_add(&self, d: u8) -> (r: Option<U252>)
        requires
            d < 10,
        ensures
            match r {
                Some(u) => u.value() == self.value() * 10 + d,
                None => self.value() * 10 + d >= value_bound(),
            },
    {
        let c0: u128 = (self.l0 as u128) * 10 + (d as u128);
        let n0: u64 = c0 as u64;
        let k0: u64 = (c0 >> 64) as u64;
        let c1: u128 = (self.l1 as u128) * 10 + (k0 as u128);
        let n1: u64 = c1 as u64;
        let k1: u64 = (c1 >> 64) as u64;
        let c2: u128 = (self.l2 as u128) * 10 + (k1 as u128);
        let n2: u64 = c2 as u64;
        let k2: u64 = (c2 >> 64) as u64;
        let c3: u128 = (self.l3 as u128) * 10 + (k2 as u128);
        let n3: u64 = c3 as u64;
        let k3: u64 = (c3 >> 64) as u64;
        proof {
            assert(c0 == ((c0 >> 64) as u64) as u128 * 0x1_0000_0000_0000_0000 + (
            c0 as u64) as u128) by (bit_vector);
            assert(c1 == ((c1 >> 64) as u64) as u128 * 0x1_0000_0000_0000_0000 + (
            c1 as u64) as u128) by (bit_vector);
            assert(c2 == ((c2 >> 64) as u64) as u128 * 0x1_0000_0000_0000_0000 + (
            c2 as u64) as u128) by (bit_vector);
            assert(c3 == ((c3 >> 64) as u64) as u128 * 0x1_0000_0000_0000_0000 + (
            c3 as u64) as u128) by (bit_vector);
        }
        if k3 != 0 {
            None
        } else {
            Some(U252 { l0: n0, l1: n1, l2: n2, l3: n3 })
        }
    }

    /// The 32 bytes of the value, most significant byte first.
    pub fn to_be_bytes(&self) -> (r: Vec<u8>)
        ensures
            r@.len() == 32,
            be_val(r@) == self.value(),
    {
        let mut out: Vec<u8> = Vec::new();
        assert(out@ =~= Seq::<u8>::empty());
        push_be_limb(&mut out, self.l3);
        push_be_limb(&mut out, self.l2);
        push_be_limb(&mut out, self.l1);
        push_be_limb(&mut out, self.l0);
        out
    }

    /// Divide the value by ten, returning quotient and remainder.
    pub fn div_rem_10(&self) -> (r: (U252, u8))
        ensures
            r.0.value() == self.value() / 10,
            r.1 == self.value() % 10,
            r.1 < 10,
    {
        let c3: u128 = self.l3 as u128;
        let q3: u64 = (c3 / 10) as u64;
        let r3: u64 = (c3 % 10) as u64;
        let c2: u128 = (r3 as u128) * 0x1_0000_0000_0000_0000 + (self.l2 as u128);
        let q2: u64 = (c2 / 10) as u64;
        let r2: u64 = (c2 % 10) as u64;
        let c1: u128 = (r2 as u128) * 0x1_0000_0000_0000_0000 + (self.l1 as u128);
        let q1: u64 = (c1 / 10) as u64;
        let r1: u64 = (c1 % 10) as u64;
        let c0: u128 = (r1 as u128) * 0x1_0000_0000_0000_0000 + (self.l0 as u128);
        let q0: u64 = (c0 / 10) as u64;
        let r0: u64 = (c0 % 10) as u64;
        let q = U252 { l0: q0, l1: q1, l2: q2, l3: q3 };
        proof {
            assert(self.value() == q.value() * 10 + r0);
            vstd::arithmetic::div_mod::lemma_fundamental_div_mod_converse(
                self.value() as int,
                10,
                q.value() as int,
                r0 as int,
            );
        }
        (q, r0 as u8)
    }
}

/// Append the eight bytes of one limb, most significant byte first.
fn push_be_limb(out: &mut Vec<u8>, l: u64)
    ensures
        final(out)@.len() == old(out)@.len() + 8,
        be_val(final(out)@) == be_val(old(out)@) * 0x1_0000_0000_0000_0000 + l,
{
    let b0: u8 = (l >> 56) as u8;
    let b1: u8 = (l >> 48) as u8;
    let b2: u8 = (l >> 40) as u8;
    let b3: u8 = (l >> 32) as u8;
    let b4: u8 = (l >> 24) as u8;
    let b5: u8 = (l >> 16) as u8;
    let b6: u8 = (l >> 8) as u8;
    let b7: u8 = l as u8;
    proof {
        assert(((l >> 56) as u8) as u64 * 0x100000000000000 + ((l >> 48) as u8) as u64
            * 0x1000000000000 + ((l >> 40) as u8) as u64 * 0x10000000000 + ((l >> 32) as u8) as u64
            * 0x100000000 + ((l >> 24) as u8) as u64 * 0x1000000 + ((l >> 16) as u8) as u64
            * 0x10000 + ((l >> 8) as u8) as u64 * 0x100 + (l as u8) as u64 == l) by (bit_vector);
    }
    let ghost start = out@;
    out.push(b0);
    proof {
        lemma_be_val_push(start, b0);
    }
    out.push(b1);
    proof {
        lemma_be_val_push(start.push(b0), b1);
    }
    out.push(b2);
    proof {
        lemma_be_val_push(start.push(b0).push(b1), b2);
    }
    out.push(b3);
    proof {
        lemma_be_val_push(start.push(b0).push(b1).push(b2), b3);
    }
    out.push(b4);
    proof {
        lemma_be_val_push(start.push(b0).push(b1).push(b2).push(b3), b4);
    }
    out.push(b5);
    proof {
        lemma_be_val_push(start.push(b0).push(b1).push(b2).push(b3).push(b4), b5);
    }
    out.push(b6);
    proof {
        lemma_be_val_push(start.push(b0).push(b1).push(b2).push(b3).push(b4).push(b5), b6);
    }
    out.push(b7);
    proof {
        lemma_be_val_push(start.push(b0).push(b1).push(b2).push(b3).push(b4).push(b5).push(b6), b7);
    }
}

} // verus!
