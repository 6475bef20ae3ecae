use vstd::prelude::*;

pub mod general;

verus! {

/// A value that `T::default()` may return; for std's numeric types it is zero.
pub open spec fn is_default<T: Default>(v: T) -> bool {
    call_ensures(T::default, (), v)
}

/// Read access to an `H`×`W` matrix by logical (row, column) position.
pub trait AsMatrix<const H: usize, const W: usize, Inner> {
    /// The value holds its `H * W` elements.
    spec fn well_formed(&self) -> bool;

    /// The element at logical position (`row`, `col`).
    spec fn element(&self, row: int, col: int) -> Inner;

    fn at(&self, row: usize, col: usize) -> (r: &Inner)
        requires
            self.well_formed(),
            row < H,
            col < W,
        ensures
            *r == self.element(row as int, col as int),
    ;

    fn size(&self) -> (r: (usize, usize))
        ensures
            r == (H, W),
    {
        Self::type_size()
    }

    fn type_size() -> (r: (usize, usize))
        ensures
            r == (H, W),
    {
        (H, W)
    }
}

} // verus!
