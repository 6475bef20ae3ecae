use vstd::prelude::*;

use crate::matrix::is_default;

verus! {

/// Storage of an LU factorization: the matrix it was made from, whose buffer the backend
/// overwrites with the packed factors, and the pivot record.
pub trait LuFormat<Base, Pivot>: Sized where Pivot: Default {
    /// The matrix buffer held.
    spec fn base(&self) -> Base;

    /// The pivot record held.
    spec fn pivots(&self) -> Pivot;

    fn new_with(mt: Base, pivot: Pivot) -> (r: Self)
        ensures
            r.base() == mt,
            r.pivots() == pivot,
    ;

    fn data_ref(&self) -> (r: (&Base, &Pivot))
        ensures
            *r.0 == self.base(),
            *r.1 == self.pivots(),
    ;

    /// Exclusive access to both buffers at once, as a backend call needs them.
    fn data_mut(&mut self) -> (r: (&mut Base, &mut Pivot))
        ensures
            *r.0 == old(self).base(),
            *r.1 == old(self).pivots(),
            final(self).base() == *final(r.0),
            final(self).pivots() == *final(r.1),
    ;

    /// Takes ownership of `mt`, with a default pivot record.
    fn new(mt: Base) -> (r: Self)
        ensures
            r.base() == mt,
            is_default(r.pivots()),
    {
        Self::new_with(mt, Pivot::default())
    }
}

/// A status code of the dense backend: `0` for success, `-k` when the `k`-th argument
/// of the call was invalid, `k > 0` when the factorization finished with an exact zero
/// at diagonal position `k` of `U`.
pub trait AsLuError: Sized {
    /// The status code.
    spec fn code(&self) -> i32;

    fn as_lapack_into_mut(&mut self) -> (r: &mut i32)
        ensures
            *r == old(self).code(),
            final(self).code() == *final(r),
    ;

    fn as_lapack_into(&self) -> (r: &i32)
        ensures
            *r == self.code(),
    ;

    /// An argument of the call was invalid.
    fn is_invalid(&self) -> (r: bool)
        ensures
            r == (self.code() < 0),
    {
        *self.as_lapack_into() < 0
    }

    /// Anything but success.
    fn is_error(&self) -> (r: bool)
        ensures
            r == (self.code() != 0),
    {
        *self.as_lapack_into() != 0
    }
}

/// The outcome of a factorization attempt on `dest`, given the status the backend
/// reported. An invalid argument discards the attempt; any other status, a zero pivot
/// included, hands the factorization back with its status for the caller to inspect.
pub fn lu_result<L, E: AsLuError>(dest: L, err: E) -> (r: Result<(L, E), E>)
    ensures
        err.code() < 0 <==> r is Err,
        r is Err ==> r->Err_0 == err,
        r is Ok ==> r->Ok_0 == (dest, err),
{
    if err.is_invalid() {
        Err(err)
    } else {
        Ok((dest, err))
    }
}

} // verus!
