//! Natural numbers held in machine words, least significant word first.

use vstd::prelude::*;

verus! {

/// The number that four 64-bit limbs stand for.
pub open spec fn limbs_value(l: [u64; 4]) -> nat {
    (l[0] as nat) + (l[1] as nat) * 0x1_0000_0000_0000_0000nat + (l[2] as nat)
        * 0x1_0000_0000_0000_0000_0000_0000_0000_0000nat + (l[3] as nat)
        * 0x1_0000_0000_0000_0000_0000_0000_0000_0000_0000_0000_0000_0000nat
}

/// The number that a sequence of 32-bit digits stands for.
pub open spec fn digits_value(d: Seq<u32>) -> nat
    decreases d.len(),
{
    if d.len() == 0 {
        0
    } else {
        (d[0] as nat) + 0x1_0000_0000nat * digits_value(d.drop_first())
    }
}

/// Limbs compare as the numbers they stand for, most significant limb first.
pub proof fn lemma_limbs_order(a: [u64; 4], b: [u64; 4])
    ensures
        limbs_value(a) < limbs_value(b) <==> (a[3] < b[3] || (a[3] == b[3] && (a[2] < b[2] || (a[2]
            == b[2] && (a[1] < b[1] || (a[1] == b[1] && a[0] < b[0])))))),
        limbs_value(a) == limbs_value(b) <==> (a[3] == b[3] && a[2] == b[2] && a[1] == b[1] && a[0]
            == b[0]),
{
}

/// Whether `a` stands for a smaller number than `b`.
pub fn limbs_lt(a: &[u64; 4], b: &[u64; 4]) -> (r: bool)
    ensures
        r == (limbs_value(*a) < limbs_value(*b)),
{
    proof {
        lemma_limbs_order(*a, *b);
    }
    if a[3] != b[3] {
        a[3] < b[3]
    } else if a[2] != b[2] {
        a[2] < b[2]
    } else if a[1] != b[1] {
        a[1] < b[1]
    } else {
        a[0] < b[0]
    }
}

} // verus!
