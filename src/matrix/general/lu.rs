use vstd::prelude::*;

use super::{lemma_single_cell_write, GeneralMatrix};
use crate::factorizations::lu::{AsLuError, LuFormat};
use crate::matrix::AsMatrix;

verus! {

/// The smaller of `a` and `b`.
pub open spec fn spec_min(a: int, b: int) -> int {
    if a < b {
        a
    } else {
        b
    }
}

/// The smaller of `a` and `b`; the length of the pivot record of an `a`×`b`
/// factorization.
pub fn min(a: usize, b: usize) -> (r: usize)
    ensures
        r == spec_min(a as int, b as int),
{
    if a < b {
        a
    } else {
        b
    }
}

/// Row interchanges of an LU factorization, rows counted from 1: at step `i` of the
/// elimination row `i + 1` was exchanged with row `pivot[i]`, so `pivot[i] == i + 1`
/// records no exchange. A record for an `H`×`W` matrix has `min(H, W)` entries; the same
/// convention holds for factoring, solving and inverting.
#[derive(Debug, Clone, Copy, PartialEq, Eq)]
pub struct GeneralLuPivot<const S: usize> {
    pub pivot: [i32; S],
}

impl<const S: usize> Default for GeneralLuPivot<S> {
    /// No interchange recorded yet: every entry is 0.
    fn default() -> (r: Self)
        ensures
            forall|i: int| 0 <= i < S ==> r.pivot@[i] == 0,
    {
        let r = GeneralLuPivot { pivot: [0i32; S] };
        proof {
            broadcast use vstd::array::axiom_spec_array_fill_for_copy_type;
        }
        r
    }
}

/// The row whose contents reach row `r` once the first `n` interchanges of `pivot` have
/// been applied in order (interchange `i` exchanges rows `i` and `pivot[i] - 1`).
pub open spec fn source_row(pivot: Seq<i32>, n: nat, r: int) -> int
    decreases n,
{
    if n == 0 {
        r
    } else {
        let i = n - 1;
        let j = pivot[i] - 1;
        source_row(pivot, (n - 1) as nat, if r == i { j } else if r == j { i } else { r })
    }
}

impl<const S: usize> GeneralLuPivot<S> {
    /// A record that a factorization of a matrix with `rows` rows can produce: at most
    /// `rows` entries, entry `i` naming a row from `i + 1` to `rows`.
    pub open spec fn valid_for(&self, rows: int) -> bool {
        &&& S <= rows
        &&& forall|i: int| 0 <= i < S ==> i + 1 <= #[trigger] self.pivot@[i] <= rows
    }

    pub fn is_valid_for(&self, rows: usize) -> (r: bool)
        ensures
            r == self.valid_for(rows as int),
    {
        if S > rows {
            return false;
        }
        let mut i: usize = 0;
        while i < S
            invariant
                S <= rows,
                i <= S,
                forall|k: int| 0 <= k < i ==> k + 1 <= #[trigger] self.pivot@[k] <= rows,
            decreases S - i,
        {
            let p = self.pivot[i];
            if p < 1 || (p as usize) < i + 1 || (p as usize) > rows {
                return false;
            }
            i = i + 1;
        }
        true
    }

    /// Applies the recorded interchanges to the rows of `m`, first to last: afterwards row
    /// `r` holds what row `source_row(pivot, S, r)` held. For a factorization `P A = L U`
    /// this turns `A` into `P A`.
    pub fn apply_to_rows<const H: usize, const W: usize, T: Copy>(&self, m: &mut GeneralMatrix<H, W, T>)
        requires
            self.valid_for(H as int),
            old(m).wf(),
        ensures
            final(m).wf(),
            forall|row: int, col: int|
                0 <= row < H && 0 <= col < W ==> #[trigger] final(m).entry(row, col) == old(m).entry(
                    source_row(self.pivot@, S as nat, row),
                    col,
                ),
    {
        let ghost m0 = *m;
        let mut i: usize = 0;
        while i < S
            invariant
                self.valid_for(H as int),
                i <= S,
                m.wf(),
                forall|row: int, col: int|
                    0 <= row < H && 0 <= col < W ==> #[trigger] m.entry(row, col) == m0.entry(
                        source_row(self.pivot@, i as nat, row),
                        col,
                    ),
            decreases S - i,
        {
            let j = (self.pivot[i] - 1) as usize;
            assert(i < H && j < H && j as int == self.pivot@[i as int] - 1);
            let mut col: usize = 0;
            while col < W
                invariant
                    self.valid_for(H as int),
                    i < S,
                    i < H,
                    j < H,
                    j as int == self.pivot@[i as int] - 1,
                    col <= W,
                    m.wf(),
                    forall|row: int, c: int|
                        0 <= row < H && 0 <= c < W ==> #[trigger] m.entry(row, c) == m0.entry(
                            source_row(self.pivot@, if c < col { (i + 1) as nat } else { i as nat }, row),
                            c,
                        ),
                decreases W - col,
            {
                let ghost before = *m;
                let a = *m.at(i, col);
                let b = *m.at(j, col);
                *m.at_mut(i, col) = b;
                let ghost middle = *m;
                proof {
                    lemma_single_cell_write(before, middle, i as int, col as int, b);
                }
                *m.at_mut(j, col) = a;
                proof {
                    lemma_single_cell_write(middle, *m, j as int, col as int, a);
                    assert forall|row: int, c: int| 0 <= row < H && 0 <= c < W implies #[trigger] m.entry(
                        row,
                        c,
                    ) == m0.entry(
                        source_row(self.pivot@, if c < col + 1 { (i + 1) as nat } else { i as nat }, row),
                        c,
                    ) by {
                        if c == col {
                            let swapped = if row == i { j as int } else if row == j { i as int } else { row };
                            assert(source_row(self.pivot@, (i + 1) as nat, row) == source_row(
                                self.pivot@,
                                i as nat,
                                swapped,
                            ));
                            assert(m.entry(row, c) == before.entry(swapped, c));
                        }
                    }
                }
                col = col + 1;
            }
            i = i + 1;
        }
    }
}

/// An LU factorization in compact form: `internal_matrix` holds `U` on and above the
/// diagonal and the strictly lower part of the unit lower factor `L` below it (its unit
/// diagonal is implicit), together with the pivot record. It is made by taking ownership
/// of the matrix being factored.
#[derive(Debug, PartialEq)]
pub struct GeneralLuFormat<const H: usize, const W: usize, Inner, Pivot> {
    pub internal_matrix: GeneralMatrix<H, W, Inner>,
    pub pivot: Pivot,
}

impl<const H: usize, const W: usize, Inner, Pivot> GeneralLuFormat<H, W, Inner, Pivot> {
    /// Takes ownership of `matrix` and `pivot`; no second view of either remains.
    pub fn new(matrix: GeneralMatrix<H, W, Inner>, pivot: Pivot) -> (r: Self)
        ensures
            r.internal_matrix == matrix,
            r.pivot == pivot,
    {
        Self { internal_matrix: matrix, pivot }
    }

    /// The packed buffer, read as a plain dense matrix: the form in which an in-place
    /// inversion leaves its result.
    pub fn into_matrix(self) -> (m: GeneralMatrix<H, W, Inner>)
        ensures
            m == self.internal_matrix,
    {
        self.internal_matrix
    }
}

impl<const H: usize, const W: usize, Inner, Pivot> LuFormat<
    GeneralMatrix<H, W, Inner>,
    Pivot,
> for GeneralLuFormat<H, W, Inner, Pivot> where Pivot: Default {
    open spec fn base(&self) -> GeneralMatrix<H, W, Inner> {
        self.internal_matrix
    }

    open spec fn pivots(&self) -> Pivot {
        self.pivot
    }

    fn new_with(internal_matrix: GeneralMatrix<H, W, Inner>, pivot: Pivot) -> (r: Self) {
        Self { internal_matrix, pivot }
    }

    fn data_ref(&self) -> (r: (&GeneralMatrix<H, W, Inner>, &Pivot)) {
        (&self.internal_matrix, &self.pivot)
    }

    fn data_mut(&mut self) -> (r: (&mut GeneralMatrix<H, W, Inner>, &mut Pivot)) {
        (&mut self.internal_matrix, &mut self.pivot)
    }
}

impl<const S: usize, Inner, Pivot> GeneralLuFormat<S, S, Inner, Pivot> {
    /// Packs a unit lower factor `l` and an upper factor `u` into compact form: below the
    /// diagonal the element comes from `l`, on and above it from `u`; `l`'s diagonal and
    /// upper part, and `u`'s lower part, are not read.
    pub fn from_l_u(
        l: GeneralMatrix<S, S, Inner>,
        u: GeneralMatrix<S, S, Inner>,
        pivot: Pivot,
    ) -> (r: Self) where Inner: Copy
        requires
            l.wf(),
            u.wf(),
        ensures
            r.internal_matrix.wf(),
            r.pivot == pivot,
            forall|row: int, col: int|
                0 <= row < S && 0 <= col < S ==> #[trigger] r.internal_matrix.entry(row, col) == if row
                    > col {
                    l.entry(row, col)
                } else {
                    u.entry(row, col)
                },
    {
        let lref = &l;
        let uref = &u;
        let pick = (|row: usize, col: usize| -> (x: Inner)
            requires
                lref.wf(),
                uref.wf(),
                row < S,
                col < S,
            ensures
                x == if row > col {
                    lref.entry(row as int, col as int)
                } else {
                    uref.entry(row as int, col as int)
                },
            {
                if row > col {
                    *lref.at(row, col)
                } else {
                    *uref.at(row, col)
                }
            });
        let packed = GeneralMatrix::by_f(pick);
        assert forall|row: int, col: int| 0 <= row < S && 0 <= col < S implies #[trigger] packed.entry(
            row,
            col,
        ) == if row > col {
            l.entry(row, col)
        } else {
            u.entry(row, col)
        } by {
            assert(packed.entry(row as usize as int, col as usize as int) == packed.entry(row, col));
        }
        Self { internal_matrix: packed, pivot }
    }
}

/// Status of an LU factorization call, as the backend reports it (see [`AsLuError`]).
#[derive(PartialEq, Eq, Debug, Clone, Copy)]
pub struct GeneralLuError(i32);

impl GeneralLuError {
    /// The status with code `code`.
    pub fn from_code(code: i32) -> (r: Self)
        ensures
            r.code() == code,
    {
        GeneralLuError(code)
    }
}

impl AsLuError for GeneralLuError {
    closed spec fn code(&self) -> i32 {
        self.0
    }

    fn as_lapack_into_mut(&mut self) -> (r: &mut i32) {
        &mut self.0
    }

    fn as_lapack_into(&self) -> (r: &i32) {
        &self.0
    }
}

} // verus!
