//! 256-bit EVM words and 160-bit addresses, as plain limbs.
//!
//! Balances, storage slots and call values are 256-bit quantities; the
//! interpreter's gas accounting mixes them with 64-bit gas counters.  A word
//! is four little-endian 64-bit limbs; every arithmetic operation is checked
//! and its result is pinned to the mathematical value `as_nat`.

use vstd::prelude::*;
use vstd::arithmetic::div_mod::lemma_fundamental_div_mod;

verus! {

/// A 256-bit word: `l0` is the least significant limb.
#[derive(Clone, Copy, Debug, PartialEq, Eq, Structural)]
pub struct Word {
    pub l0: u64,
    pub l1: u64,
    pub l2: u64,
    pub l3: u64,
}

/// A 160-bit account address, big-endian split as 4 + 8 + 8 bytes.
#[derive(Clone, Copy, Debug, PartialEq, Eq, Structural)]
pub struct Address {
    pub hi: u32,
    pub mid: u64,
    pub lo: u64,
}

impl Word {
    /// The mathematical value of the word.
    pub open spec fn as_nat(self) -> nat {
        (self.l0 + self.l1 * 0x1_0000_0000_0000_0000
            + self.l2 * 0x1_0000_0000_0000_0000_0000_0000_0000_0000
            + self.l3 * 0x1_0000_0000_0000_0000_0000_0000_0000_0000_0000_0000_0000_0000) as nat
    }

    pub fn zero() -> (r: Word)
        ensures
            r.as_nat() == 0,
    {
        Word { l0: 0, l1: 0, l2: 0, l3: 0 }
    }

    pub fn one() -> (r: Word)
        ensures
            r.as_nat() == 1,
    {
        Word { l0: 1, l1: 0, l2: 0, l3: 0 }
    }

    pub fn from_u64(v: u64) -> (r: Word)
        ensures
            r.as_nat() == v,
    {
        Word { l0: v, l1: 0, l2: 0, l3: 0 }
    }

    pub fn is_zero(&self) -> (r: bool)
        ensures
            r == (self.as_nat() == 0),
    {
        self.l0 == 0 && self.l1 == 0 && self.l2 == 0 && self.l3 == 0
    }

    /// Big-endian byte `i` of the word (byte 0 is the most significant).
    pub open spec fn be_byte(self, i: int) -> u8 {
        let limb = if i < 8 {
            self.l3
        } else if i < 16 {
            self.l2
        } else if i < 24 {
            self.l1
        } else {
            self.l0
        };
        let j = 7 - (i % 8);
        ((limb >> (8 * j)) & 0xff) as u8
    }

    /// The 32 big-endian bytes of the word.
    pub fn to_be_bytes(&self) -> (r: Vec<u8>)
        ensures
            r@.len() == 32,
            forall|i: int| 0 <= i < 32 ==> r@[i] == self.be_byte(i),
    {
        let mut out: Vec<u8> = Vec::new();
        let limbs: [u64; 4] = [self.l3, self.l2, self.l1, self.l0];
        for k in 0..4
            invariant
                out@.len() == 8 * k,
                limbs@ == seq![self.l3, self.l2, self.l1, self.l0],
                forall|i: int| 0 <= i < out@.len() ==> out@[i] == self.be_byte(i),
        {
            let limb = limbs[k];
            for j in 0..8
                invariant
                    k < 4,
                    out@.len() == 8 * k + j,
                    limb == limbs@[k as int],
                    limbs@ == seq![self.l3, self.l2, self.l1, self.l0],
                    forall|i: int| 0 <= i < out@.len() ==> out@[i] == self.be_byte(i),
            {
                let shift: u64 = 8 * (7 - j as u64);
                let b: u8 = #[verifier::truncate] (((limb >> shift) & 0xff) as u8);
                assert(b == self.be_byte(8 * k + j)) by {
                    assert((8 * (k as int) + j) % 8 == j as int) by (nonlinear_arith)
                        requires 0 <= j < 8, 0 <= k;
                };
                out.push(b);
            }
        }
        out
    }
}

/// The big-endian value of the `k` bytes of `bs` starting at `start`.
pub open spec fn be_limb(bs: Seq<u8>, start: int, k: int) -> u64
    decreases k,
{
    if k <= 0 {
        0
    } else {
        (be_limb(bs, start, k - 1) * 256 + bs[start + k - 1]) as u64
    }
}

/// A big-endian limb of `k` bytes is below 256^k, so its accumulation in a
/// 64-bit integer never wraps.
pub proof fn lemma_be_limb_bound(bs: Seq<u8>, start: int, k: int)
    requires
        0 <= k <= 8,
    ensures
        be_limb(bs, start, k) <= if k <= 0 {
            0int
        } else if k == 1 {
            0xffint
        } else if k == 2 {
            0xffffint
        } else if k == 3 {
            0xff_ffffint
        } else if k == 4 {
            0xffff_ffffint
        } else if k == 5 {
            0xff_ffff_ffffint
        } else if k == 6 {
            0xffff_ffff_ffffint
        } else if k == 7 {
            0xff_ffff_ffff_ffffint
        } else {
            0xffff_ffff_ffff_ffffint
        },
    decreases k,
{
    if k > 0 {
        lemma_be_limb_bound(bs, start, k - 1);
    }
}

/// The word whose 32 big-endian bytes start at `start` in `bs`.
pub open spec fn word_from_be_spec(bs: Seq<u8>, start: int) -> Word {
    Word {
        l3: be_limb(bs, start, 8),
        l2: be_limb(bs, start + 8, 8),
        l1: be_limb(bs, start + 16, 8),
        l0: be_limb(bs, start + 24, 8),
    }
}

/// Reads one big-endian 64-bit limb out of a byte buffer.
fn read_be_limb(bytes: &Vec<u8>, start: usize) -> (r: u64)
    requires
        start + 8 <= bytes@.len(),
    ensures
        r == be_limb(bytes@, start as int, 8),
{
    let n = bytes.len();
    let mut acc: u64 = 0;
    for k in 0..8
        invariant
            start + 8 <= n,
            n == bytes@.len(),
            acc == be_limb(bytes@, start as int, k as int),
    {
        proof {
            lemma_be_limb_bound(bytes@, start as int, k as int);
        }
        acc = acc * 256 + bytes[start + k] as u64;
    }
    acc
}

impl Word {
    /// The word held in 32 big-endian bytes of a buffer.
    pub fn from_be_bytes(bytes: &Vec<u8>, start: usize) -> (r: Word)
        requires
            start + 32 <= bytes@.len(),
        ensures
            r == word_from_be_spec(bytes@, start as int),
    {
        let n = bytes.len();
        proof {
            assert(start + 32 <= n);
        }
        Word {
            l3: read_be_limb(bytes, start),
            l2: read_be_limb(bytes, start + 8),
            l1: read_be_limb(bytes, start + 16),
            l0: read_be_limb(bytes, start + 24),
        }
    }
}

/// Adds one limb column: `x + y + c` split into a low limb and a carry.
fn add_limb(x: u64, y: u64, c: u64) -> (r: (u64, u64))
    requires
        c <= 1,
    ensures
        r.0 + r.1 * 0x1_0000_0000_0000_0000 == x + y + c,
        r.1 <= 1,
{
    let s: u128 = x as u128 + y as u128 + c as u128;
    let lo: u64 = (s % 0x1_0000_0000_0000_0000) as u64;
    let hi: u64 = (s / 0x1_0000_0000_0000_0000) as u64;
    proof {
        lemma_fundamental_div_mod(s as int, 0x1_0000_0000_0000_0000);
    }
    (lo, hi)
}

/// Subtracts one limb column: `x - y - b`, borrowing when negative.
fn sub_limb(x: u64, y: u64, b: u64) -> (r: (u64, u64))
    requires
        b <= 1,
    ensures
        x + r.1 * 0x1_0000_0000_0000_0000 == r.0 + y + b,
        r.1 <= 1,
{
    let need: u128 = y as u128 + b as u128;
    if x as u128 >= need {
        ((x as u128 - need) as u64, 0)
    } else {
        ((x as u128 + 0x1_0000_0000_0000_0000u128 - need) as u64, 1)
    }
}

/// Multiplies one limb by `m` and adds the incoming carry.
fn mul_limb(x: u64, m: u64, c: u64) -> (r: (u64, u64))
    ensures
        r.0 + r.1 * 0x1_0000_0000_0000_0000 == x * m + c,
{
    proof {
        assert(x * m <= 0xffff_ffff_ffff_ffffu64 * 0xffff_ffff_ffff_ffffu64) by (nonlinear_arith)
            requires x <= 0xffff_ffff_ffff_ffffu64, m <= 0xffff_ffff_ffff_ffffu64;
    }
    let s: u128 = x as u128 * m as u128 + c as u128;
    let lo: u64 = (s % 0x1_0000_0000_0000_0000) as u64;
    let hi: u64 = (s / 0x1_0000_0000_0000_0000) as u64;
    proof {
        lemma_fundamental_div_mod(s as int, 0x1_0000_0000_0000_0000);
    }
    (lo, hi)
}

/// Checked 256-bit addition; `None` exactly on overflow.
pub fn word_add(a: &Word, b: &Word) -> (r: Option<Word>)
    ensures
        match r {
            Some(s) => s.as_nat() == a.as_nat() + b.as_nat(),
            None => a.as_nat() + b.as_nat()
                >= 0x1_0000_0000_0000_0000_0000_0000_0000_0000_0000_0000_0000_0000_0000_0000_0000_0000,
        },
{
    let (r0, c0) = add_limb(a.l0, b.l0, 0);
    let (r1, c1) = add_limb(a.l1, b.l1, c0);
    let (r2, c2) = add_limb(a.l2, b.l2, c1);
    let (r3, c3) = add_limb(a.l3, b.l3, c2);
    let w = Word { l0: r0, l1: r1, l2: r2, l3: r3 };
    proof {
        assert(w.as_nat() + c3
            * 0x1_0000_0000_0000_0000_0000_0000_0000_0000_0000_0000_0000_0000_0000_0000_0000_0000
            == a.as_nat() + b.as_nat());
    }
    if c3 == 0 {
        Some(w)
    } else {
        None
    }
}

/// Checked 256-bit subtraction; `None` exactly when `a < b`.
pub fn word_sub(a: &Word, b: &Word) -> (r: Option<Word>)
    ensures
        match r {
            Some(d) => a.as_nat() >= b.as_nat() && d.as_nat() == a.as_nat() - b.as_nat(),
            None => a.as_nat() < b.as_nat(),
        },
{
    let (r0, b0) = sub_limb(a.l0, b.l0, 0);
    let (r1, b1) = sub_limb(a.l1, b.l1, b0);
    let (r2, b2) = sub_limb(a.l2, b.l2, b1);
    let (r3, b3) = sub_limb(a.l3, b.l3, b2);
    let w = Word { l0: r0, l1: r1, l2: r2, l3: r3 };
    proof {
        assert(a.as_nat() + b3
            * 0x1_0000_0000_0000_0000_0000_0000_0000_0000_0000_0000_0000_0000_0000_0000_0000_0000
            == w.as_nat() + b.as_nat());
    }
    if b3 == 0 {
        Some(w)
    } else {
        None
    }
}

/// Distributes a 64-bit factor over the limb decomposition of a word.
proof fn lemma_limb_distribute(l0: int, l1: int, l2: int, l3: int, m: int)
    ensures
        (l0 + l1 * 0x1_0000_0000_0000_0000
            + l2 * 0x1_0000_0000_0000_0000_0000_0000_0000_0000
            + l3 * 0x1_0000_0000_0000_0000_0000_0000_0000_0000_0000_0000_0000_0000) * m
        == l0 * m + (l1 * m) * 0x1_0000_0000_0000_0000
            + (l2 * m) * 0x1_0000_0000_0000_0000_0000_0000_0000_0000
            + (l3 * m) * 0x1_0000_0000_0000_0000_0000_0000_0000_0000_0000_0000_0000_0000,
{
    assert((l0 + l1 * 0x1_0000_0000_0000_0000
        + l2 * 0x1_0000_0000_0000_0000_0000_0000_0000_0000
        + l3 * 0x1_0000_0000_0000_0000_0000_0000_0000_0000_0000_0000_0000_0000) * m
        == l0 * m + (l1 * m) * 0x1_0000_0000_0000_0000
            + (l2 * m) * 0x1_0000_0000_0000_0000_0000_0000_0000_0000
            + (l3 * m) * 0x1_0000_0000_0000_0000_0000_0000_0000_0000_0000_0000_0000_0000)
        by (nonlinear_arith);
}

/// Checked multiplication of a word by a 64-bit factor; `None` on overflow.
pub fn word_mul_u64(a: &Word, m: u64) -> (r: Option<Word>)
    ensures
        match r {
            Some(p) => p.as_nat() == a.as_nat() * m,
            None => a.as_nat() * m
                >= 0x1_0000_0000_0000_0000_0000_0000_0000_0000_0000_0000_0000_0000_0000_0000_0000_0000,
        },
{
    let (r0, c0) = mul_limb(a.l0, m, 0);
    let (r1, c1) = mul_limb(a.l1, m, c0);
    let (r2, c2) = mul_limb(a.l2, m, c1);
    let (r3, c3) = mul_limb(a.l3, m, c2);
    let w = Word { l0: r0, l1: r1, l2: r2, l3: r3 };
    proof {
        lemma_limb_distribute(a.l0 as int, a.l1 as int, a.l2 as int, a.l3 as int, m as int);
        assert(w.as_nat()
            + c3 * 0x1_0000_0000_0000_0000_0000_0000_0000_0000_0000_0000_0000_0000_0000_0000_0000_0000
            == a.as_nat() * m);
    }
    if c3 == 0 {
        Some(w)
    } else {
        None
    }
}

/// Strict comparison of two words as natural numbers.
pub fn word_lt(a: &Word, b: &Word) -> (r: bool)
    ensures
        r == (a.as_nat() < b.as_nat()),
{
    if a.l3 != b.l3 {
        a.l3 < b.l3
    } else if a.l2 != b.l2 {
        a.l2 < b.l2
    } else if a.l1 != b.l1 {
        a.l1 < b.l1
    } else {
        a.l0 < b.l0
    }
}

impl Address {
    /// An address is identified with its 160-bit value.
    pub open spec fn as_nat(self) -> nat {
        (self.lo + self.mid * 0x1_0000_0000_0000_0000
            + self.hi * 0x1_0000_0000_0000_0000_0000_0000_0000_0000) as nat
    }

    pub fn zero() -> (r: Address)
        ensures
            r.as_nat() == 0,
    {
        Address { hi: 0, mid: 0, lo: 0 }
    }

    /// The address held in the low 64 bits of a stack word; the interpreter's
    /// stack machine is 64-bit, so addresses popped from it fit one limb.
    pub fn from_stack_word(w: u64) -> (r: Address)
        ensures
            r.as_nat() == w,
    {
        Address { hi: 0, mid: 0, lo: w }
    }

    /// Whether this address belongs to a precompiled contract (1 to 9).
    pub fn is_precompiled(&self) -> (r: bool)
        ensures
            r == (1 <= self.as_nat() && self.as_nat() <= 9),
    {
        self.hi == 0 && self.mid == 0 && 1 <= self.lo && self.lo <= 9
    }

    /// The address as a 256-bit word (zero-extended).
    pub fn to_word(&self) -> (r: Word)
        ensures
            r == (Word { l0: self.lo, l1: self.mid, l2: self.hi as u64, l3: 0 }),
            r.as_nat() == self.as_nat(),
    {
        let l2: u64 = self.hi as u64;
        Word { l0: self.lo, l1: self.mid, l2, l3: 0 }
    }
}

} // verus!
