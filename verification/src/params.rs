//! The constants of the GLV method on Bandersnatch, as numbers.

use crate::fields::scalar_modulus;
use vstd::prelude::*;

verus! {

/// The eigenvalue of the endomorphism on the prime-order subgroup:
/// `phi(P) = lambda * P`. It is a root of `x^2 + 2` modulo `r`.
pub open spec fn lambda() -> nat {
    8913659658109529928382530854484400854125314752504019737736543920008458395397nat
}

/// Entry (1, 1) of the reduced lattice basis; entry (2, 2) is its negative.
pub open spec fn lattice_n11() -> nat {
    113482231691339203864511368254957623327nat
}

/// Entry (1, 2) of the reduced lattice basis.
pub open spec fn lattice_n12() -> nat {
    10741319382058138887739339959866629956nat
}

/// Entry (2, 1) of the reduced lattice basis.
pub open spec fn lattice_n21() -> nat {
    21482638764116277775478679919733259912nat
}

/// Coefficient `A1` of the endomorphism: `f(y) = A1 * (y + A2) * (y + A3)`.
pub open spec fn endo_a1() -> nat {
    16179988757916560824577558193084210236647645729299773892093730683504906651604nat
}

/// Coefficient `A2` of the endomorphism.
pub open spec fn endo_a2() -> nat {
    37446463827641770816307242315180085052603635617490163568005256780843403514036nat
}

/// Coefficient `A3` of the endomorphism.
pub open spec fn endo_a3() -> nat {
    14989411347484419663140498193005880785086916883037474254598401919095177670477nat
}

/// Coefficient `B1` of the endomorphism: `g(y) = B1 * (y + B2) * (y + B3)`.
pub open spec fn endo_b1() -> nat {
    37446463827641770816307242315180085052603635617490163568005256780843403514036nat
}

/// Coefficient `B2` of the endomorphism.
pub open spec fn endo_b2() -> nat {
    36553259151239542273674161596529768046449890757310263666255995151154432137034nat
}

/// Coefficient `B3` of the endomorphism.
pub open spec fn endo_b3() -> nat {
    15882616023886648205773578911656197791240661743217374156347663548784149047479nat
}

/// Coefficient `C1` of the endomorphism: `h(y) = (y + C1) * (y + C2)`.
pub open spec fn endo_c1() -> nat {
    42910309089382041158038545419309140955400939872179826051492616687477682993077nat
}

/// Coefficient `C2` of the endomorphism.
pub open spec fn endo_c2() -> nat {
    9525566085744149321409195088876824882289612628347811771111042012460898191436nat
}

/// The rows of the lattice basis are short vectors of the lattice
/// `{(x, y) : x + lambda * y = 0 (mod r)}`, and the basis has determinant
/// `-r`.
pub proof fn lemma_lattice_basis()
    ensures
        (lattice_n11() + lambda() * lattice_n12()) % scalar_modulus() == 0,
        (lattice_n21() - lambda() * lattice_n11()) % (scalar_modulus() as int) == 0,
        lattice_n11() * lattice_n11() + lattice_n12() * lattice_n21() == scalar_modulus(),
        (lambda() * lambda() + 2) % scalar_modulus() == 0,
{
}

} // verus!
