//! Bit sequences, least significant bit first.

use vstd::arithmetic::div_mod::{lemma_basic_div, lemma_div_denominator, lemma_div_non_zero};
use vstd::arithmetic::power2::{
    lemma2_to64_rest, lemma_pow2_adds, lemma_pow2_pos, lemma_pow2_strictly_increases,
    lemma_pow2_unfold, pow2,
};
use vstd::prelude::*;

verus! {

/// Bit `i` of the number `v`.
pub open spec fn bit_of(v: nat, i: nat) -> bool {
    (v / pow2(i)) % 2 == 1
}

/// Whether `bits` is the binary expansion of `v` over its whole width.
pub open spec fn is_bits_of(bits: Seq<bool>, v: nat) -> bool {
    &&& v < pow2(bits.len())
    &&& forall|i: int| 0 <= i < bits.len() ==> bits[i] == bit_of(v, i as nat)
}

/// The position one past the highest set bit of `bits`; 0 when no bit is set.
pub open spec fn bit_length(bits: Seq<bool>) -> nat
    decreases bits.len(),
{
    if bits.len() == 0 {
        0
    } else if bits.last() {
        bits.len()
    } else {
        bit_length(bits.drop_last())
    }
}

/// `bit_length(bits)` is a position `n` at or below the width such that no
/// bit at or above `n` is set and, unless `n` is 0, bit `n - 1` is set. So it
/// is 0 where no bit is set, and the full width where the top bit is set.
pub proof fn lemma_bit_length_is_highest(bits: Seq<bool>)
    ensures
        bit_length(bits) <= bits.len(),
        bit_length(bits) > 0 ==> bits[bit_length(bits) - 1],
        forall|i: int| bit_length(bits) <= i < bits.len() ==> !bits[i],
        (forall|i: int| 0 <= i < bits.len() ==> !bits[i]) ==> bit_length(bits) == 0,
        bits.len() > 0 && bits.last() ==> bit_length(bits) == bits.len(),
    decreases bits.len(),
{
    if bits.len() > 0 && !bits.last() {
        let rest = bits.drop_last();
        lemma_bit_length_is_highest(rest);
        assert forall|i: int| bit_length(bits) <= i < bits.len() implies !bits[i] by {
            if i < rest.len() {
                assert(rest[i] == bits[i]);
            }
        }
    }
}

/// Any position that bounds the set bits from above and sits right after a
/// set bit (or is 0) is the bit length.
pub proof fn lemma_bit_length_unique(bits: Seq<bool>, n: nat)
    requires
        n <= bits.len(),
        n > 0 ==> bits[n - 1],
        forall|i: int| n <= i < bits.len() ==> !bits[i],
    ensures
        bit_length(bits) == n,
    decreases bits.len(),
{
    if bits.len() > 0 && !bits.last() {
        let rest = bits.drop_last();
        assert forall|i: int| n <= i < rest.len() implies !rest[i] by {
            assert(rest[i] == bits[i]);
        }
        lemma_bit_length_unique(rest, n);
    }
}

/// The bit length of a number's expansion is the least `n` with `v < 2^n`.
pub proof fn lemma_bit_length_bounds(bits: Seq<bool>, v: nat)
    requires
        is_bits_of(bits, v),
    ensures
        v < pow2(bit_length(bits)),
        bit_length(bits) > 0 ==> v >= pow2((bit_length(bits) - 1) as nat),
    decreases bits.len(),
{
    if bits.len() > 0 {
        let top = (bits.len() - 1) as nat;
        let d = pow2(top);
        lemma_pow2_pos(top);
        lemma_pow2_unfold(bits.len());
        assert(bits.last() == bit_of(v, top));
        if bits.last() {
            if v < d {
                lemma_basic_div(v as int, d as int);
            }
        } else {
            if v >= d {
                lemma_div_non_zero(v as int, d as int);
                assert(v / d < 2) by (nonlinear_arith)
                    requires
                        v < 2 * d,
                        d > 0,
                ;
            }
            let rest = bits.drop_last();
            assert forall|i: int| 0 <= i < rest.len() implies rest[i] == bit_of(v, i as nat) by {
                assert(rest[i] == bits[i]);
            }
            lemma_bit_length_bounds(rest, v);
        }
    }
}

/// A number below `2^n` has a bit length of at most `n`.
pub proof fn lemma_bit_length_at_most(bits: Seq<bool>, v: nat, n: nat)
    requires
        is_bits_of(bits, v),
        v < pow2(n),
    ensures
        bit_length(bits) <= n,
{
    lemma_bit_length_bounds(bits, v);
    let top = (bit_length(bits) - 1) as nat;
    if bit_length(bits) > n && n < top {
        lemma_pow2_strictly_increases(n, top);
    }
}

/// The value of 2^256, the bound on what four 64-bit limbs hold.
pub(crate) proof fn lemma_pow2_256()
    ensures
        pow2(256)
            == 0x1_0000_0000_0000_0000_0000_0000_0000_0000_0000_0000_0000_0000_0000_0000_0000_0000nat,
{
    lemma2_to64_rest();
    lemma_pow2_adds(64, 64);
    lemma_pow2_adds(128, 128);
    assert(pow2(64) == 0x1_0000_0000_0000_0000nat);
    assert(0x1_0000_0000_0000_0000nat * 0x1_0000_0000_0000_0000nat
        == 0x1_0000_0000_0000_0000_0000_0000_0000_0000nat);
    assert(pow2(128) == 0x1_0000_0000_0000_0000_0000_0000_0000_0000nat);
    assert(0x1_0000_0000_0000_0000_0000_0000_0000_0000nat
        * 0x1_0000_0000_0000_0000_0000_0000_0000_0000nat
        == 0x1_0000_0000_0000_0000_0000_0000_0000_0000_0000_0000_0000_0000_0000_0000_0000_0000nat);
}

/// Shifting a number right by one more place halves what the shorter shift
/// left, and the bit shifted out is the parity of that.
pub(crate) proof fn lemma_shift_step(v: nat, j: nat)
    ensures
        (v / pow2(j)) / 2 == v / pow2(j + 1),
        bit_of(v, j) == ((v / pow2(j)) % 2 == 1),
{
    lemma_pow2_pos(j);
    lemma_pow2_unfold(j + 1);
    lemma_div_denominator(v as int, pow2(j) as int, 2);
    assert(pow2(j) * 2 == 2 * pow2(j)) by (nonlinear_arith);
}

/// A number at or above `2^j` leaves something when shifted right by `j`;
/// one below `2^j` leaves nothing.
pub(crate) proof fn lemma_shift_zero(v: nat, j: nat)
    ensures
        v < pow2(j) <==> v / pow2(j) == 0,
{
    lemma_pow2_pos(j);
    if v < pow2(j) {
        lemma_basic_div(v as int, pow2(j) as int);
    } else {
        lemma_div_non_zero(v as int, pow2(j) as int);
    }
}

/// Returns the position one past the highest set bit of `a`: 0 when every bit
/// is clear, the full width when the top bit is set.
pub fn get_bits(a: &[bool]) -> (res: u16)
    requires
        a@.len() <= u16::MAX,
    ensures
        res == bit_length(a@),
        res <= a@.len(),
        res > 0 ==> a@[res - 1],
        forall|i: int| res <= i < a@.len() ==> !a@[i],
        (forall|i: int| 0 <= i < a@.len() ==> !a@[i]) ==> res == 0,
        a@.len() > 0 && a@.last() ==> res == a@.len(),
{
    let mut n: usize = a.len();
    while n > 0 && !a[n - 1]
        invariant
            n <= a@.len(),
            forall|i: int| n <= i < a@.len() ==> !a@[i],
        decreases n,
    {
        n = n - 1;
    }
    proof {
        lemma_bit_length_unique(a@, n as nat);
    }
    n as u16
}

} // verus!
