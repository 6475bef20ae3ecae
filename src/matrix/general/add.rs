use vstd::prelude::*;
use vstd::std_specs::ops::{AddSpec, AddSpecImpl, MulSpec};

use super::GeneralMatrix;

use core::ops::{Add, Mul};

verus! {

/// Every pair of corresponding elements of `a` and `b` can be added.
pub open spec fn sums_defined<L: Add<R>, R>(a: Seq<L>, b: Seq<R>) -> bool {
    forall|k: int| 0 <= k < a.len() ==> (#[trigger] a[k]).add_req(b[k])
}

/// Elementwise sum: a freshly built matrix whose element at each position is
/// `lhs[k] + rhs[k]`. Both operands are consumed; each of their elements is used once.
pub fn general_matrix_add<const H: usize, const W: usize, L, R, O>(
    lhs: GeneralMatrix<H, W, L>,
    rhs: GeneralMatrix<H, W, R>,
) -> (out: GeneralMatrix<H, W, O>) where L: Add<R, Output = O>
    requires
        lhs.wf(),
        rhs.wf(),
        sums_defined(lhs@, rhs@),
    ensures
        out.wf(),
        L::obeys_add_spec() ==> forall|k: int|
            0 <= k < H * W ==> #[trigger] out@[k] == lhs@[k].add_spec(rhs@[k]),
{
    let a = lhs.into_buffer();
    let b = rhs.into_buffer();
    let f = (|x: L, y: R| -> (z: O)
        requires
            x.add_req(y),
        ensures
            L::obeys_add_spec() ==> z == x.add_spec(y),
        { x + y });
    GeneralMatrix::from_buffer(super::combine_buffers(a, b, f))
}

impl<const H: usize, const W: usize, L, R, O> Add<GeneralMatrix<H, W, R>> for GeneralMatrix<H, W, L> where L: Add<R, Output = O> {
    type Output = GeneralMatrix<H, W, O>;

    /// See [`general_matrix_add`].
    fn add(self, rhs: GeneralMatrix<H, W, R>) -> (out: GeneralMatrix<H, W, O>)
        ensures
            out.wf(),
            L::obeys_add_spec() ==> forall|k: int|
                0 <= k < H * W ==> #[trigger] out@[k] == self@[k].add_spec(rhs@[k]),
    {
        general_matrix_add(self, rhs)
    }
}

impl<const H: usize, const W: usize, L, R, O> AddSpecImpl<GeneralMatrix<H, W, R>> for GeneralMatrix<H, W, L> where L: Add<R, Output = O> {
    /// The result of `+` on matrices is stated by the `ensures` of `add` above, cell by
    /// cell, rather than by a single spec value.
    open spec fn obeys_add_spec() -> bool {
        false
    }

    open spec fn add_req(self, rhs: GeneralMatrix<H, W, R>) -> bool {
        &&& self.wf()
        &&& rhs.wf()
        &&& sums_defined(self@, rhs@)
    }

    open spec fn add_spec(self, rhs: GeneralMatrix<H, W, R>) -> GeneralMatrix<H, W, O> {
        choose|out: GeneralMatrix<H, W, O>|
            out.wf() && forall|k: int|
                0 <= k < H * W ==> #[trigger] out@[k] == self@[k].add_spec(rhs@[k])
    }
}

/// Scaled accumulation in place: `dest[k]` becomes `alpha * x[k] + dest[k]` for every
/// buffer position `k`. Stated for element types whose `+` and `*` carry a specification,
/// which std's integer types do.
pub fn general_matrix_axpy<const H: usize, const W: usize, T>(
    dest: &mut GeneralMatrix<H, W, T>,
    alpha: T,
    x: &GeneralMatrix<H, W, T>,
) where T: Copy + Add<Output = T> + Mul<Output = T>
    requires
        T::obeys_add_spec(),
        T::obeys_mul_spec(),
        old(dest).wf(),
        x.wf(),
        forall|k: int|
            0 <= k < H * W ==> alpha.mul_req(#[trigger] x@[k]) && alpha.mul_spec(x@[k]).add_req(
                old(dest)@[k],
            ),
    ensures
        final(dest).wf(),
        forall|k: int|
            0 <= k < H * W ==> #[trigger] final(dest)@[k] == alpha.mul_spec(x@[k]).add_spec(
                old(dest)@[k],
            ),
{
    let ghost d0 = dest@;
    let n = H * W;
    let mut k: usize = 0;
    while k < n
        invariant
            n == H * W,
            k <= n,
            dest.wf(),
            x.wf(),
            forall|j: int| k <= j < n ==> dest@[j] == d0[j],
            forall|j: int|
                0 <= j < H * W ==> alpha.mul_req(#[trigger] x@[j]) && alpha.mul_spec(x@[j]).add_req(
                    d0[j],
                ),
            T::obeys_add_spec(),
            T::obeys_mul_spec(),
            forall|j: int|
                0 <= j < k ==> #[trigger] dest@[j] == alpha.mul_spec(x@[j]).add_spec(d0[j]),
        decreases n - k,
    {
        let scaled = alpha * *x.get(k);
        let sum = scaled + *dest.get(k);
        dest.set(k, sum);
        k = k + 1;
    }
}

} // verus!
