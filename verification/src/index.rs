//! Row-major flat indexing of three-dimensional arrays, as every layer lays out its data.
use vstd::prelude::*;
use vstd::arithmetic::div_mod::lemma_fundamental_div_mod_converse;

verus! {

/// Flat row-major position of the element `(i, j, k)` of an array of shape `[_, n, m]`.
pub open spec fn flat3(i: int, j: int, k: int, n: int, m: int) -> int {
    i * n * m + j * m + k
}

/// The flat position regrouped: `(i * n + j) * m + k`.
proof fn lemma_flat3_regroup(i: int, j: int, k: int, n: int, m: int)
    ensures
        flat3(i, j, k, n, m) == (i * n + j) * m + k,
{
    assert(i * n * m + j * m == (i * n + j) * m) by (nonlinear_arith);
}

/// Every in-range element of an array of shape `[a, n, m]` has a flat position inside
/// `0 .. a * n * m`.
pub proof fn lemma_flat3_bound(i: int, j: int, k: int, a: int, n: int, m: int)
    requires
        0 <= i < a,
        0 <= j < n,
        0 <= k < m,
    ensures
        0 <= flat3(i, j, k, n, m) < a * n * m,
        0 <= flat3(i, j, k, n, m) + 1 <= a * n * m,
{
    lemma_flat3_regroup(i, j, k, n, m);
    let q = i * n + j;
    assert(0 <= q < a * n) by (nonlinear_arith)
        requires
            0 <= i < a,
            0 <= j < n,
            q == i * n + j,
    ;
    assert(0 <= q * m + k < (a * n) * m) by (nonlinear_arith)
        requires
            0 <= q < a * n,
            0 <= k < m,
    ;
}

/// The flat position determines the element: the components are recovered by division
/// and remainder.
pub proof fn lemma_flat3_unflatten(i: int, j: int, k: int, n: int, m: int)
    requires
        0 <= i,
        0 <= j < n,
        0 <= k < m,
    ensures
        flat3(i, j, k, n, m) % m == k,
        (flat3(i, j, k, n, m) / m) % n == j,
        (flat3(i, j, k, n, m) / m) / n == i,
{
    lemma_flat3_regroup(i, j, k, n, m);
    let q = i * n + j;
    lemma_fundamental_div_mod_converse(flat3(i, j, k, n, m), m, q, k);
    lemma_fundamental_div_mod_converse(q, n, i, j);
}

/// Distinct in-range elements have distinct flat positions.
pub proof fn lemma_flat3_injective(
    i1: int,
    j1: int,
    k1: int,
    i2: int,
    j2: int,
    k2: int,
    n: int,
    m: int,
)
    requires
        0 <= i1,
        0 <= j1 < n,
        0 <= k1 < m,
        0 <= i2,
        0 <= j2 < n,
        0 <= k2 < m,
        flat3(i1, j1, k1, n, m) == flat3(i2, j2, k2, n, m),
    ensures
        i1 == i2,
        j1 == j2,
        k1 == k2,
{
    lemma_flat3_unflatten(i1, j1, k1, n, m);
    lemma_flat3_unflatten(i2, j2, k2, n, m);
}

/// Every position inside `0 .. a * n * m` is the flat position of an in-range element.
pub proof fn lemma_flat3_cover(x: int, a: int, n: int, m: int)
    requires
        0 <= x < a * n * m,
        n > 0,
        m > 0,
    ensures
        0 <= (x / m) / n < a,
        0 <= (x / m) % n < n,
        0 <= x % m < m,
        x == flat3((x / m) / n, (x / m) % n, x % m, n, m),
{
    let q = x / m;
    let k = x % m;
    let i = q / n;
    let j = q % n;
    assert(x == m * q + k && 0 <= k < m) by {
        vstd::arithmetic::div_mod::lemma_fundamental_div_mod(x, m);
        vstd::arithmetic::div_mod::lemma_mod_pos_bound(x, m);
    }
    assert(q == n * i + j && 0 <= j < n) by {
        vstd::arithmetic::div_mod::lemma_fundamental_div_mod(q, n);
        vstd::arithmetic::div_mod::lemma_mod_pos_bound(q, n);
    }
    assert(q >= 0) by (nonlinear_arith)
        requires
            x == m * q + k,
            0 <= k < m,
            x >= 0,
    ;
    assert(q < a * n) by (nonlinear_arith)
        requires
            x == m * q + k,
            0 <= k,
            x < a * n * m,
            m > 0,
    ;
    assert(0 <= i < a) by (nonlinear_arith)
        requires
            q == n * i + j,
            0 <= j < n,
            0 <= q < a * n,
    ;
    lemma_flat3_regroup(i, j, k, n, m);
    assert(x == (i * n + j) * m + k) by (nonlinear_arith)
        requires
            x == m * q + k,
            q == n * i + j,
    ;
}

/// Whether the element count `a * b * c` of an array of shape `[a, b, c]` fits a `usize`.
pub fn fits_product3(a: usize, b: usize, c: usize) -> (r: bool)
    ensures
        r == (a * b * c <= usize::MAX),
{
    if a == 0 || b == 0 || c == 0 {
        proof {
            assert(a * b * c == 0) by (nonlinear_arith)
                requires
                    a == 0 || b == 0 || c == 0,
            ;
        }
        return true;
    }
    match a.checked_mul(b) {
        None => {
            proof {
                assert(a * b * c >= a * b) by (nonlinear_arith)
                    requires
                        c >= 1,
                        a * b >= 0,
                ;
            }
            false
        },
        Some(ab) => match ab.checked_mul(c) {
            None => false,
            Some(_) => true,
        },
    }
}

/// Flat row-major index of `(i, j, k)` in an array of shape `[a, n, m]` whose element
/// count fits a `usize`.
pub fn flat_index3(i: usize, j: usize, k: usize, a: usize, n: usize, m: usize) -> (x: usize)
    requires
        i < a,
        j < n,
        k < m,
        a * n * m <= usize::MAX,
    ensures
        x == flat3(i as int, j as int, k as int, n as int, m as int),
        x < a * n * m,
{
    proof {
        lemma_flat3_bound(i as int, j as int, k as int, a as int, n as int, m as int);
        assert(i * n <= a * n) by (nonlinear_arith)
            requires
                i < a,
        ;
        assert(a * n <= a * n * m) by (nonlinear_arith)
            requires
                m >= 1,
        ;
        assert(i * n * m <= a * n * m) by (nonlinear_arith)
            requires
                i < a,
        ;
        assert(j * m <= n * m) by (nonlinear_arith)
            requires
                j < n,
        ;
        assert(i * n * m + j * m <= a * n * m) by (nonlinear_arith)
            requires
                i < a,
                j < n,
                i * n * m + j * m + k < a * n * m,
        ;
    }
    i * n * m + j * m + k
}

} // verus!
