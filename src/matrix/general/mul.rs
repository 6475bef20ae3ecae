use vstd::prelude::*;
use vstd::std_specs::ops::{AddSpec, MulSpec, MulSpecImpl};

use super::GeneralMatrix;
use crate::matrix::{is_default, AsMatrix};

use core::ops::{Add, Mul};

verus! {

/// The products `lhs(row, k) * rhs(k, col)` for `k < n`, added one after the other to
/// `acc`, in increasing `k`.
pub open spec fn dot<const LH: usize, const K: usize, const RW: usize, T>(
    lhs: &GeneralMatrix<LH, K, T>,
    rhs: &GeneralMatrix<K, RW, T>,
    row: int,
    col: int,
    n: nat,
    acc: T,
) -> T where T: Add<Output = T> + Mul<Output = T>
    decreases n,
{
    if n == 0 {
        acc
    } else {
        dot(lhs, rhs, row, col, (n - 1) as nat, acc).add_spec(
            lhs.entry(row, n - 1).mul_spec(rhs.entry(n - 1, col)),
        )
    }
}

/// Output cell (`row`, `col`) of the product, accumulated from `acc`.
pub open spec fn product_cell<const LH: usize, const K: usize, const RW: usize, T>(
    lhs: &GeneralMatrix<LH, K, T>,
    rhs: &GeneralMatrix<K, RW, T>,
    row: int,
    col: int,
    acc: T,
) -> T where T: Add<Output = T> + Mul<Output = T> {
    dot(lhs, rhs, row, col, K as nat, acc)
}

/// Every product and every partial sum of [`dot`] from `acc` can be formed, for every
/// output cell.
pub open spec fn dots_defined<const LH: usize, const K: usize, const RW: usize, T>(
    lhs: &GeneralMatrix<LH, K, T>,
    rhs: &GeneralMatrix<K, RW, T>,
    acc: T,
) -> bool where T: Add<Output = T> + Mul<Output = T> {
    forall|row: int, col: int, k: int|
        0 <= row < LH && 0 <= col < RW && 0 <= k < K ==> {
            &&& lhs.entry(row, k).mul_req(rhs.entry(k, col))
            &&& (#[trigger] dot(lhs, rhs, row, col, k as nat, acc)).add_req(
                lhs.entry(row, k).mul_spec(rhs.entry(k, col)),
            )
        }
}

/// [`product_cell`], computed.
fn dot_product<const LH: usize, const K: usize, const RW: usize, T>(
    lhs: &GeneralMatrix<LH, K, T>,
    rhs: &GeneralMatrix<K, RW, T>,
    row: usize,
    col: usize,
    acc: T,
) -> (r: T) where T: Copy + Add<Output = T> + Mul<Output = T>
    requires
        T::obeys_add_spec(),
        T::obeys_mul_spec(),
        lhs.wf(),
        rhs.wf(),
        row < LH,
        col < RW,
        dots_defined(lhs, rhs, acc),
    ensures
        r == product_cell(lhs, rhs, row as int, col as int, acc),
{
    let mut sum = acc;
    let mut k: usize = 0;
    while k < K
        invariant
            T::obeys_add_spec(),
            T::obeys_mul_spec(),
            lhs.wf(),
            rhs.wf(),
            row < LH,
            col < RW,
            k <= K,
            dots_defined(lhs, rhs, acc),
            sum == dot(lhs, rhs, row as int, col as int, k as nat, acc),
        decreases K - k,
    {
        proof {
            let kk = k as int;
            assert(dot(lhs, rhs, row as int, col as int, kk as nat, acc) == sum);
        }
        let p = *lhs.at(row, k) * *rhs.at(k, col);
        sum = sum + p;
        k = k + 1;
    }
    sum
}

/// Matrix product by the generic fallback: each output cell starts from
/// `T::default()` (zero) and accumulates `lhs(row, k) * rhs(k, col)` for `k` in
/// increasing order. Stated for element types whose `+` and `*` carry a specification,
/// which std's integer types do.
pub fn general_matrix_mul<const LH: usize, const K: usize, const RW: usize, T>(
    lhs: GeneralMatrix<LH, K, T>,
    rhs: GeneralMatrix<K, RW, T>,
) -> (out: GeneralMatrix<LH, RW, T>) where T: Copy + Default + Add<Output = T> + Mul<Output = T>
    requires
        T::obeys_add_spec(),
        T::obeys_mul_spec(),
        lhs.wf(),
        rhs.wf(),
        LH * RW <= usize::MAX,
        forall|z: T| is_default(z) ==> dots_defined(&lhs, &rhs, z),
    ensures
        out.wf(),
        exists|z: T|
            is_default(z) && forall|row: int, col: int|
                0 <= row < LH && 0 <= col < RW ==> #[trigger] out.entry(row, col)
                    == product_cell(&lhs, &rhs, row, col, z),
{
    let z = T::default();
    let a = &lhs;
    let b = &rhs;
    assert(is_default(z));
    assert(dots_defined(a, b, z));
    let cell = (|row: usize, col: usize| -> (r: T)
        requires
            T::obeys_add_spec(),
            T::obeys_mul_spec(),
            a.wf(),
            b.wf(),
            dots_defined(a, b, z),
            row < LH,
            col < RW,
        ensures
            r == product_cell(a, b, row as int, col as int, z),
        { dot_product(a, b, row, col, z) });
    let out = GeneralMatrix::by_f(cell);
    assert forall|row: int, col: int| 0 <= row < LH && 0 <= col < RW implies #[trigger] out.entry(
        row,
        col,
    ) == product_cell(&lhs, &rhs, row, col, z) by {
        assert(out.entry(row as usize as int, col as usize as int) == out.entry(row, col));
    }
    assert(is_default(z));
    out
}

impl<const LH: usize, const K: usize, const RW: usize, T> Mul<GeneralMatrix<K, RW, T>> for GeneralMatrix<LH, K, T> where T: Copy + Default + Add<Output = T> + Mul<Output = T> {
    type Output = GeneralMatrix<LH, RW, T>;

    /// See [`general_matrix_mul`].
    fn mul(self, rhs: GeneralMatrix<K, RW, T>) -> (out: GeneralMatrix<LH, RW, T>)
        ensures
            out.wf(),
            exists|z: T|
                is_default(z) && forall|row: int, col: int|
                    0 <= row < LH && 0 <= col < RW ==> #[trigger] out.entry(row, col)
                        == product_cell(&self, &rhs, row, col, z),
    {
        general_matrix_mul(self, rhs)
    }
}

impl<const LH: usize, const K: usize, const RW: usize, T> MulSpecImpl<GeneralMatrix<K, RW, T>> for GeneralMatrix<LH, K, T> where T: Copy + Default + Add<Output = T> + Mul<Output = T> {
    /// The result of `*` on matrices is stated by the `ensures` of `mul` above, cell by
    /// cell, rather than by a single spec value.
    open spec fn obeys_mul_spec() -> bool {
        false
    }

    open spec fn mul_req(self, rhs: GeneralMatrix<K, RW, T>) -> bool {
        &&& T::obeys_add_spec()
        &&& T::obeys_mul_spec()
        &&& self.wf()
        &&& rhs.wf()
        &&& LH * RW <= usize::MAX
        &&& forall|z: T| is_default(z) ==> dots_defined(&self, &rhs, z)
    }

    open spec fn mul_spec(self, rhs: GeneralMatrix<K, RW, T>) -> GeneralMatrix<LH, RW, T> {
        choose|out: GeneralMatrix<LH, RW, T>|
            out.wf() && exists|z: T|
                is_default(z) && forall|row: int, col: int|
                    0 <= row < LH && 0 <= col < RW ==> #[trigger] out.entry(row, col)
                        == product_cell(&self, &rhs, row, col, z)
    }
}

/// The terms `alpha * (a(row, k) * b(k, col))` for `k < n`, added one after the other to
/// `acc`, in increasing `k`.
pub open spec fn scaled_dot<const LH: usize, const K: usize, const RW: usize, T>(
    a: &GeneralMatrix<LH, K, T>,
    b: &GeneralMatrix<K, RW, T>,
    alpha: T,
    row: int,
    col: int,
    n: nat,
    acc: T,
) -> T where T: Add<Output = T> + Mul<Output = T>
    decreases n,
{
    if n == 0 {
        acc
    } else {
        scaled_dot(a, b, alpha, row, col, (n - 1) as nat, acc).add_spec(
            alpha.mul_spec(a.entry(row, n - 1).mul_spec(b.entry(n - 1, col))),
        )
    }
}

/// Cell (`row`, `col`) of `alpha * a * b + beta * c`: starts from `beta * c(row, col)`
/// and adds the scaled products in increasing `k`.
pub open spec fn gemm_cell<const LH: usize, const K: usize, const RW: usize, T>(
    a: &GeneralMatrix<LH, K, T>,
    b: &GeneralMatrix<K, RW, T>,
    c: &GeneralMatrix<LH, RW, T>,
    alpha: T,
    beta: T,
    row: int,
    col: int,
) -> T where T: Add<Output = T> + Mul<Output = T> {
    scaled_dot(a, b, alpha, row, col, K as nat, beta.mul_spec(c.entry(row, col)))
}

/// Every product and partial sum of [`gemm_cell`] can be formed, for every cell.
pub open spec fn gemm_defined<const LH: usize, const K: usize, const RW: usize, T>(
    a: &GeneralMatrix<LH, K, T>,
    b: &GeneralMatrix<K, RW, T>,
    c: &GeneralMatrix<LH, RW, T>,
    alpha: T,
    beta: T,
) -> bool where T: Add<Output = T> + Mul<Output = T> {
    &&& forall|row: int, col: int|
        0 <= row < LH && 0 <= col < RW ==> beta.mul_req(#[trigger] c.entry(row, col))
    &&& forall|row: int, col: int, k: int|
        0 <= row < LH && 0 <= col < RW && 0 <= k < K ==> {
            &&& a.entry(row, k).mul_req(b.entry(k, col))
            &&& alpha.mul_req(a.entry(row, k).mul_spec(b.entry(k, col)))
            &&& (#[trigger] scaled_dot(
                a,
                b,
                alpha,
                row,
                col,
                k as nat,
                beta.mul_spec(c.entry(row, col)),
            )).add_req(alpha.mul_spec(a.entry(row, k).mul_spec(b.entry(k, col))))
        }
}

/// [`gemm_cell`], computed.
fn gemm_entry<const LH: usize, const K: usize, const RW: usize, T>(
    a: &GeneralMatrix<LH, K, T>,
    b: &GeneralMatrix<K, RW, T>,
    c: &GeneralMatrix<LH, RW, T>,
    alpha: T,
    beta: T,
    row: usize,
    col: usize,
) -> (r: T) where T: Copy + Add<Output = T> + Mul<Output = T>
    requires
        T::obeys_add_spec(),
        T::obeys_mul_spec(),
        a.wf(),
        b.wf(),
        c.wf(),
        row < LH,
        col < RW,
        gemm_defined(a, b, c, alpha, beta),
    ensures
        r == gemm_cell(a, b, c, alpha, beta, row as int, col as int),
{
    let ghost start = beta.mul_spec(c.entry(row as int, col as int));
    let mut sum = beta * *c.at(row, col);
    let mut k: usize = 0;
    while k < K
        invariant
            T::obeys_add_spec(),
            T::obeys_mul_spec(),
            a.wf(),
            b.wf(),
            c.wf(),
            row < LH,
            col < RW,
            k <= K,
            gemm_defined(a, b, c, alpha, beta),
            start == beta.mul_spec(c.entry(row as int, col as int)),
            sum == scaled_dot(a, b, alpha, row as int, col as int, k as nat, start),
        decreases K - k,
    {
        proof {
            let kk = k as int;
            assert(scaled_dot(a, b, alpha, row as int, col as int, kk as nat, start) == sum);
        }
        let p = alpha * (*a.at(row, k) * *b.at(k, col));
        sum = sum + p;
        k = k + 1;
    }
    sum
}

/// General multiply-accumulate: every cell of `c` becomes
/// `beta * c(row, col) + alpha * a(row, 0) * b(0, col) + ... ` over the shared dimension,
/// i.e. `c := alpha * a * b + beta * c`. Stated for element types whose `+` and `*` carry
/// a specification, which std's integer types do.
pub fn general_matrix_gemm<const LH: usize, const K: usize, const RW: usize, T>(
    a: &GeneralMatrix<LH, K, T>,
    b: &GeneralMatrix<K, RW, T>,
    c: &mut GeneralMatrix<LH, RW, T>,
    alpha: T,
    beta: T,
) where T: Copy + Add<Output = T> + Mul<Output = T>
    requires
        T::obeys_add_spec(),
        T::obeys_mul_spec(),
        a.wf(),
        b.wf(),
        old(c).wf(),
        gemm_defined(a, b, &*old(c), alpha, beta),
    ensures
        final(c).wf(),
        forall|row: int, col: int|
            0 <= row < LH && 0 <= col < RW ==> #[trigger] final(c).entry(row, col) == gemm_cell(
                a,
                b,
                &*old(c),
                alpha,
                beta,
                row,
                col,
            ),
{
    let prior = &*c;
    let cell = (|row: usize, col: usize| -> (r: T)
        requires
            T::obeys_add_spec(),
            T::obeys_mul_spec(),
            a.wf(),
            b.wf(),
            prior.wf(),
            gemm_defined(a, b, prior, alpha, beta),
            row < LH,
            col < RW,
        ensures
            r == gemm_cell(a, b, prior, alpha, beta, row as int, col as int),
        { gemm_entry(a, b, prior, alpha, beta, row, col) });
    let fresh = GeneralMatrix::by_f(cell);
    assert forall|row: int, col: int| 0 <= row < LH && 0 <= col < RW implies #[trigger] fresh.entry(
        row,
        col,
    ) == gemm_cell(a, b, prior, alpha, beta, row, col) by {
        assert(fresh.entry(row as usize as int, col as usize as int) == fresh.entry(row, col));
    }
    *c = fresh;
}

} // verus!
