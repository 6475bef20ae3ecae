use vstd::prelude::*;
use vstd::std_specs::ops::{SubSpec, SubSpecImpl};

use super::GeneralMatrix;

use core::ops::Sub;

verus! {

/// Every element of `b` can be subtracted from the corresponding element of `a`.
pub open spec fn differences_defined<L: Sub<R>, R>(a: Seq<L>, b: Seq<R>) -> bool {
    forall|k: int| 0 <= k < a.len() ==> (#[trigger] a[k]).sub_req(b[k])
}

/// Elementwise difference: a freshly built matrix whose element at each position is
/// `lhs[k] - rhs[k]`. Both operands are consumed; each of their elements is used once.
pub fn general_matrix_sub<const H: usize, const W: usize, L, R, O>(
    lhs: GeneralMatrix<H, W, L>,
    rhs: GeneralMatrix<H, W, R>,
) -> (out: GeneralMatrix<H, W, O>) where L: Sub<R, Output = O>
    requires
        lhs.wf(),
        rhs.wf(),
        differences_defined(lhs@, rhs@),
    ensures
        out.wf(),
        L::obeys_sub_spec() ==> forall|k: int|
            0 <= k < H * W ==> #[trigger] out@[k] == lhs@[k].sub_spec(rhs@[k]),
{
    let a = lhs.into_buffer();
    let b = rhs.into_buffer();
    let f = (|x: L, y: R| -> (z: O)
        requires
            x.sub_req(y),
        ensures
            L::obeys_sub_spec() ==> z == x.sub_spec(y),
        { x - y });
    GeneralMatrix::from_buffer(super::combine_buffers(a, b, f))
}

impl<const H: usize, const W: usize, L, R, O> Sub<GeneralMatrix<H, W, R>> for GeneralMatrix<H, W, L> where L: Sub<R, Output = O> {
    type Output = GeneralMatrix<H, W, O>;

    /// See [`general_matrix_sub`].
    fn sub(self, rhs: GeneralMatrix<H, W, R>) -> (out: GeneralMatrix<H, W, O>)
        ensures
            out.wf(),
            L::obeys_sub_spec() ==> forall|k: int|
                0 <= k < H * W ==> #[trigger] out@[k] == self@[k].sub_spec(rhs@[k]),
    {
        general_matrix_sub(self, rhs)
    }
}

impl<const H: usize, const W: usize, L, R, O> SubSpecImpl<GeneralMatrix<H, W, R>> for GeneralMatrix<H, W, L> where L: Sub<R, Output = O> {
    /// The result of `-` on matrices is stated by the `ensures` of `sub` above, cell by
    /// cell, rather than by a single spec value.
    open spec fn obeys_sub_spec() -> bool {
        false
    }

    open spec fn sub_req(self, rhs: GeneralMatrix<H, W, R>) -> bool {
        &&& self.wf()
        &&& rhs.wf()
        &&& differences_defined(self@, rhs@)
    }

    open spec fn sub_spec(self, rhs: GeneralMatrix<H, W, R>) -> GeneralMatrix<H, W, O> {
        choose|out: GeneralMatrix<H, W, O>|
            out.wf() && forall|k: int|
                0 <= k < H * W ==> #[trigger] out@[k] == self@[k].sub_spec(rhs@[k])
    }
}

} // verus!
