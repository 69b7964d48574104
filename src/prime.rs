use vstd::prelude::*;
use vstd::arithmetic::div_mod::{lemma_fundamental_div_mod, lemma_mod_multiples_basic};

verus! {

/// `d` divides `n` exactly.
pub open spec fn divides(d: nat, n: nat) -> bool {
    d != 0 && n % d == 0
}

/// A prime is an integer of at least two with no divisor strictly between one and itself.
pub open spec fn is_prime(n: nat) -> bool {
    n >= 2 && forall|d: nat| 2 <= d < n ==> !#[trigger] divides(d, n)
}

/// A divisor `d` of `n` with `2 <= d < n` has a cofactor that also lies strictly
/// between one and `n`, and the two multiply to `n`.
pub proof fn lemma_cofactor(n: nat, d: nat)
    requires
        2 <= d < n,
        divides(d, n),
    ensures
        2 <= n / d,
        (n / d) * d == n,
        divides(n / d, n),
{
    let e = n / d;
    lemma_fundamental_div_mod(n as int, d as int);
    assert(n == d * e);
    assert(e * d == n) by (nonlinear_arith)
        requires n == d * e;
    assert(e >= 2) by (nonlinear_arith)
        requires e * d == n, d < n, 2 <= d;
    lemma_mod_multiples_basic(d as int, e as int);
}

/// When no integer in `[2, i)` divides `n` and `n < i * i`, then `n` (at least two) is prime.
pub proof fn lemma_trial_division_complete(n: nat, i: nat)
    requires
        n >= 2,
        2 <= i,
        n < i * i,
        forall|d: nat| 2 <= d < i ==> !#[trigger] divides(d, n),
    ensures
        is_prime(n),
{
    assert forall|d: nat| 2 <= d < n implies !#[trigger] divides(d, n) by {
        if divides(d, n) && d >= i {
            lemma_cofactor(n, d);
            let e = n / d;
            assert(e < i) by (nonlinear_arith)
                requires e * d == n, d >= i, n < i * i, e >= 0;
            assert(divides(e, n));
        }
    }
}

} // verus!
