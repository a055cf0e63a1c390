//! What the contracts of the matrices say of the machine integers: as long
//! as no step leaves the range of the type, the sums and products are those
//! of the mathematical integers.
use super::amath::{
    cofactor_req_seq, cofactor_seq, det_req_seq, det_seq, expansion, expansion_req, minor_seq,
};
use super::arithmetic::{dot, dot_req};
use super::prelude::entry;
use vstd::prelude::*;
use super::prelude::spec_one;
use vstd::std_specs::convert::FromSpec;
use vstd::std_specs::ops::{AddSpec, MulSpec, NegSpec, SubSpec};

verus! {

/// The sum of the first `k` products of row `i` of `a` (rows of length `n`)
/// with column `j` of `b` (rows of length `nb`), in the integers.
pub open spec fn int_dot(a: Seq<i64>, b: Seq<i64>, n: int, nb: int, i: int, j: int, k: int) -> int
    decreases k,
{
    if k <= 0 {
        0
    } else {
        int_dot(a, b, n, nb, i, j, k - 1) + entry(a, n, i, k - 1) * entry(b, nb, k - 1, j)
    }
}

/// An integer fits in 64 bits.
pub open spec fn fits(x: int) -> bool {
    i64::MIN <= x <= i64::MAX
}

/// Each of the first `k` products, and each sum of the first of them, fits
/// in 64 bits.
pub open spec fn dot_fits(a: Seq<i64>, b: Seq<i64>, n: int, nb: int, i: int, j: int, k: int) -> bool
    decreases k,
{
    if k <= 0 {
        true
    } else {
        &&& dot_fits(a, b, n, nb, i, j, k - 1)
        &&& fits(entry(a, n, i, k - 1) * entry(b, nb, k - 1, j))
        &&& fits(int_dot(a, b, n, nb, i, j, k))
    }
}

/// Over 64 bit integers, a scalar product none of whose steps overflows can
/// be computed, and is the sum of the products in the integers.
pub proof fn lemma_dot_of_integers(
    a: Seq<i64>,
    b: Seq<i64>,
    n: int,
    nb: int,
    i: int,
    j: int,
    k: int,
)
    requires
        k >= 1,
        dot_fits(a, b, n, nb, i, j, k),
    ensures
        dot_req(a, b, n, nb, i, j, k),
        dot(a, b, n, nb, i, j, k) == int_dot(a, b, n, nb, i, j, k),
    decreases k,
{
    reveal_with_fuel(int_dot, 2);
    reveal_with_fuel(dot_fits, 2);
    if k > 1 {
        lemma_dot_of_integers(a, b, n, nb, i, j, k - 1);
    }
}

/// The determinant of a square buffer of side `n`, in the integers: of a
/// single entry the entry, of two by two `ad - bc`, else the expansion along
/// row 0.
pub open spec fn int_det(s: Seq<i64>, n: nat) -> int
    decreases n, 1nat, 0nat,
{
    if n <= 1 {
        s[0] as int
    } else if n == 2 {
        s[0] * s[3] - s[1] * s[2]
    } else {
        int_expansion(s, n, n)
    }
}

/// The cofactor at `(i, j)`, in the integers.
pub open spec fn int_cofactor(s: Seq<i64>, n: nat, i: int, j: int) -> int
    decreases n - 1, 2nat, 0nat,
{
    if n <= 1 {
        s[0] as int
    } else {
        let minor = int_det(minor_seq(s, n as int, i, j), (n - 1) as nat);
        if (i + j) % 2 == 1 {
            -minor
        } else {
            minor
        }
    }
}

/// The first `k` terms of the expansion along row 0, in the integers.
pub open spec fn int_expansion(s: Seq<i64>, n: nat, k: nat) -> int
    decreases n, 0nat, k,
{
    if n <= 1 {
        s[0] as int
    } else if k == 0 {
        0
    } else {
        int_expansion(s, n, (k - 1) as nat) + s[k - 1] * int_cofactor(s, n, 0, k - 1)
    }
}

/// No step of the determinant leaves the range of 64 bits.
pub open spec fn det_fits(s: Seq<i64>, n: nat) -> bool
    decreases n, 1nat, 0nat,
{
    if n <= 1 {
        true
    } else if n == 2 {
        &&& fits(s[0] * s[3])
        &&& fits(s[1] * s[2])
        &&& fits(s[0] * s[3] - s[1] * s[2])
    } else {
        expansion_fits(s, n, n)
    }
}

/// No step of the cofactor at `(i, j)` leaves the range of 64 bits.
pub open spec fn cofactor_fits(s: Seq<i64>, n: nat, i: int, j: int) -> bool
    decreases n - 1, 2nat, 0nat,
{
    if n <= 1 {
        true
    } else {
        &&& det_fits(minor_seq(s, n as int, i, j), (n - 1) as nat)
        &&& fits(-int_det(minor_seq(s, n as int, i, j), (n - 1) as nat))
    }
}

/// No step of the first `k` terms of the expansion leaves the range of 64
/// bits.
pub open spec fn expansion_fits(s: Seq<i64>, n: nat, k: nat) -> bool
    decreases n, 0nat, k,
{
    if n <= 1 || k == 0 {
        true
    } else {
        &&& expansion_fits(s, n, (k - 1) as nat)
        &&& cofactor_fits(s, n, 0, k - 1)
        &&& fits(s[k - 1] * int_cofactor(s, n, 0, k - 1))
        &&& fits(int_expansion(s, n, k))
    }
}

/// Over 64 bit integers, a determinant none of whose steps overflows can be
/// computed, and is the determinant in the integers.
pub proof fn lemma_det_of_integers(s: Seq<i64>, n: nat)
    requires
        det_fits(s, n),
    ensures
        det_req_seq(s, n),
        det_seq(s, n) == int_det(s, n),
    decreases n, 1nat, 0nat,
{
    if n > 2 {
        lemma_expansion_of_integers(s, n, n);
    }
}

/// Over 64 bit integers, a cofactor none of whose steps overflows can be
/// computed, and is the cofactor in the integers.
pub proof fn lemma_cofactor_of_integers(s: Seq<i64>, n: nat, i: int, j: int)
    requires
        cofactor_fits(s, n, i, j),
    ensures
        cofactor_req_seq(s, n, i, j),
        cofactor_seq(s, n, i, j) == int_cofactor(s, n, i, j),
    decreases n - 1, 2nat, 0nat,
{
    if n > 1 {
        let sub = minor_seq(s, n as int, i, j);
        lemma_det_of_integers(sub, (n - 1) as nat);
        let minor = int_det(sub, (n - 1) as nat);
        assert(spec_one::<i64>() == 1i64);
        assert((-1) * minor == -minor) by (nonlinear_arith);
    }
}

/// Over 64 bit integers, an expansion along row 0 none of whose steps
/// overflows can be computed, and is the expansion in the integers.
pub proof fn lemma_expansion_of_integers(s: Seq<i64>, n: nat, k: nat)
    requires
        n >= 2,
        k >= 1,
        expansion_fits(s, n, k),
    ensures
        expansion_req(s, n, k),
        expansion(s, n, k) == int_expansion(s, n, k),
    decreases n, 0nat, k,
{
    reveal_with_fuel(int_expansion, 2);
    reveal_with_fuel(expansion_fits, 2);
    lemma_cofactor_of_integers(s, n, 0, k - 1);
    if k > 1 {
        lemma_expansion_of_integers(s, n, (k - 1) as nat);
    }
}

} // verus!
