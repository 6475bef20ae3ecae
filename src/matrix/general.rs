use vstd::prelude::*;

use super::{is_default, AsMatrix};

pub mod add;
pub mod lu;
pub mod mul;
pub mod sub;

verus! {

/// Position of logical cell (`row`, `col`) in the column-major buffer of a matrix of
/// height `height`.
pub open spec fn offset(height: int, row: int, col: int) -> int {
    col * height + row
}

/// Every cell of an `height`×`width` matrix has an offset inside the buffer.
pub proof fn lemma_offset_in_bounds(height: int, width: int, row: int, col: int)
    requires
        0 <= row < height,
        0 <= col < width,
    ensures
        0 <= offset(height, row, col) < height * width,
        0 <= col * height <= offset(height, row, col),
{
    assert(0 <= col * height) by (nonlinear_arith)
        requires
            0 <= col,
            0 <= height,
    ;
    assert(col * height + row < height * width) by (nonlinear_arith)
        requires
            0 <= row < height,
            0 <= col < width,
    ;
}

/// Cells of the columns before `col` lie below `col * height`.
pub proof fn lemma_offset_before_column(height: int, row: int, c: int, col: int)
    requires
        0 <= row < height,
        0 <= c < col,
    ensures
        offset(height, row, c) < col * height,
{
    assert(c * height + row < col * height) by (nonlinear_arith)
        requires
            0 <= row < height,
            0 <= c < col,
    ;
}

/// Distinct cells have distinct offsets.
pub proof fn lemma_offset_injective(height: int, r1: int, c1: int, r2: int, c2: int)
    requires
        0 <= r1 < height,
        0 <= r2 < height,
        0 <= c1,
        0 <= c2,
        offset(height, r1, c1) == offset(height, r2, c2),
    ensures
        r1 == r2,
        c1 == c2,
{
    assert(c1 == c2) by (nonlinear_arith)
        requires
            0 <= r1 < height,
            0 <= r2 < height,
            0 <= c1,
            0 <= c2,
            c1 * height + r1 == c2 * height + r2,
    ;
}

/// Every offset inside the buffer belongs to exactly the cell (`k % height`, `k / height`).
pub proof fn lemma_offset_cell(height: int, width: int, k: int)
    requires
        0 <= height,
        0 <= k < height * width,
    ensures
        0 < height,
        0 <= k % height < height,
        0 <= k / height < width,
        offset(height, k % height, k / height) == k,
{
    assert(0 < height) by (nonlinear_arith)
        requires
            0 <= height,
            0 <= k < height * width,
    ;
    vstd::arithmetic::div_mod::lemma_fundamental_div_mod(k, height);
    assert(k / height < width) by (nonlinear_arith)
        requires
            0 < height,
            0 <= k < height * width,
            k == height * (k / height) + k % height,
            0 <= k % height < height,
    ;
    assert(0 <= k / height) by (nonlinear_arith)
        requires
            0 < height,
            0 <= k,
            k == height * (k / height) + k % height,
            0 <= k % height < height,
    ;
    assert(offset(height, k % height, k / height) == k) by (nonlinear_arith)
        requires
            k == height * (k / height) + k % height,
    ;
}

/// Writing one cell changes no other: when `after`'s buffer is `before`'s with only the
/// slot of (`row`, `col`) replaced by `x` (what [`GeneralMatrix::at_mut`] guarantees),
/// that cell reads `x` and every other cell reads as before.
pub proof fn lemma_single_cell_write<const H: usize, const W: usize, Inner>(
    before: GeneralMatrix<H, W, Inner>,
    after: GeneralMatrix<H, W, Inner>,
    row: int,
    col: int,
    x: Inner,
)
    requires
        before.wf(),
        0 <= row < H,
        0 <= col < W,
        after@ == before@.update(offset(H as int, row, col), x),
    ensures
        after.wf(),
        after.entry(row, col) == x,
        forall|r: int, c: int|
            0 <= r < H && 0 <= c < W && (r != row || c != col) ==> #[trigger] after.entry(r, c)
                == before.entry(r, c),
{
    lemma_offset_in_bounds(H as int, W as int, row, col);
    assert forall|r: int, c: int|
        0 <= r < H && 0 <= c < W && (r != row || c != col) implies #[trigger] after.entry(r, c)
        == before.entry(r, c) by {
        lemma_offset_in_bounds(H as int, W as int, r, c);
        if offset(H as int, r, c) == offset(H as int, row, col) {
            lemma_offset_injective(H as int, r, c, row, col);
        }
    }
}

/// A dense `H`×`W` matrix that owns its `H * W` elements, stored column-major: the
/// element at (row, col) sits at offset `col * H + row`.
#[derive(Debug, Clone, PartialEq)]
pub struct GeneralMatrix<const H: usize, const W: usize, Inner> {
    inner: Vec<Inner>,
}

impl<const H: usize, const W: usize, Inner> View for GeneralMatrix<H, W, Inner> {
    type V = Seq<Inner>;

    /// The column-major buffer.
    closed spec fn view(&self) -> Seq<Inner> {
        self.inner@
    }
}

/// A buffer of `n` empty slots, each to be written exactly once.
pub(crate) fn empty_slots<T>(n: usize) -> (s: Vec<Option<T>>)
    ensures
        s@.len() == n,
        forall|k: int| 0 <= k < n ==> s@[k] is None,
{
    let mut s: Vec<Option<T>> = Vec::with_capacity(n);
    let mut k: usize = 0;
    while k < n
        invariant
            k <= n,
            s@.len() == k,
            forall|j: int| 0 <= j < k ==> s@[j] is None,
        decreases n - k,
    {
        s.push(None);
        k = k + 1;
    }
    s
}

/// Turns a buffer whose slots have all been written into a buffer of values, moving each
/// value out of its slot.
pub(crate) fn seal_slots<T>(mut s: Vec<Option<T>>) -> (v: Vec<T>)
    requires
        forall|k: int| 0 <= k < s@.len() ==> s@[k] is Some,
    ensures
        v@.len() == s@.len(),
        forall|k: int| 0 <= k < s@.len() ==> s@[k] == Some(v@[k]),
{
    let ghost written = s@;
    let n = s.len();
    let mut v: Vec<T> = Vec::with_capacity(n);
    let mut k: usize = 0;
    while k < n
        invariant
            k <= n,
            n == written.len(),
            s@.len() == n,
            v@.len() == k,
            forall|j: int| 0 <= j < n ==> written[j] is Some,
            forall|j: int| 0 <= j < k ==> written[j] == Some(v@[j]),
            forall|j: int| k <= j < n ==> s@[j] == written[j],
        decreases n - k,
    {
        let x = s[k].take();
        assert(x == written[k as int]);
        v.push(x.unwrap());
        k = k + 1;
    }
    v
}

/// Combines two buffers of equal length position by position, consuming both: output
/// element `k` is `f(a[k], b[k])`, and `f` is called exactly once per position.
pub(crate) fn combine_buffers<L, R, O, F: Fn(L, R) -> O>(a: Vec<L>, b: Vec<R>, f: F) -> (out: Vec<O>)
    requires
        a@.len() == b@.len(),
        forall|k: int| 0 <= k < a@.len() ==> f.requires((#[trigger] a@[k], b@[k])),
    ensures
        out@.len() == a@.len(),
        forall|k: int| 0 <= k < a@.len() ==> f.ensures((#[trigger] a@[k], b@[k]), out@[k]),
{
    let ghost a0 = a@;
    let ghost b0 = b@;
    let mut a = a;
    let mut b = b;
    let n = a.len();
    let mut slots: Vec<Option<O>> = empty_slots(n);
    while a.len() > 0
        invariant
            a0.len() == n,
            b0.len() == n,
            a@.len() <= n,
            a@ == a0.subrange(0, a@.len() as int),
            b@ == b0.subrange(0, a@.len() as int),
            slots@.len() == n,
            forall|k: int| 0 <= k < n ==> f.requires((#[trigger] a0[k], b0[k])),
            forall|k: int| 0 <= k < a@.len() ==> #[trigger] slots@[k] is None,
            forall|k: int|
                a@.len() <= k < n ==> #[trigger] slots@[k] is Some && f.ensures(
                    (a0[k], b0[k]),
                    slots@[k]->Some_0,
                ),
        decreases a@.len(),
    {
        let x = a.pop().unwrap();
        let y = b.pop().unwrap();
        let k = a.len();
        assert(x == a0[k as int] && y == b0[k as int]);
        let z = f(x, y);
        slots.set(k, Some(z));
    }
    let ghost filled = slots@;
    let out = seal_slots(slots);
    assert forall|k: int| 0 <= k < n implies f.ensures((#[trigger] a0[k], b0[k]), out@[k]) by {
        assert(filled[k] == Some(out@[k]));
    }
    out
}

/// Relies on std's `From<[T; N]> for Vec<T>`: the array's elements are moved, in order,
/// into a new vector.
pub assume_specification<T, const N: usize>[ <Vec<T> as From<[T; N]>>::from ](s: [T; N]) -> (r:
    Vec<T>)
    ensures
        r@ == s@,
;

impl<const H: usize, const W: usize, Inner> GeneralMatrix<H, W, Inner> {
    /// The buffer holds exactly `H * W` elements.
    pub open spec fn wf(&self) -> bool {
        &&& self@.len() == H * W
        &&& H * W <= usize::MAX
    }

    /// The element at logical position (`row`, `col`).
    pub open spec fn entry(&self, row: int, col: int) -> Inner {
        self@[offset(H as int, row, col)]
    }

    /// A matrix over the buffer `inner`, read column-major.
    pub(crate) fn from_buffer(inner: Vec<Inner>) -> (m: Self)
        requires
            inner@.len() == H * W,
            H * W <= usize::MAX,
        ensures
            m.wf(),
            m@ == inner@,
    {
        GeneralMatrix { inner }
    }

    /// Every element is a fresh `Inner::default()`: zero for std's numeric types.
    pub fn zero() -> (m: Self) where Inner: Default
        requires
            H * W <= usize::MAX,
        ensures
            m.wf(),
            forall|k: int| 0 <= k < H * W ==> is_default(#[trigger] m@[k]),
    {
        let n = H * W;
        let mut inner: Vec<Inner> = Vec::with_capacity(n);
        let mut k: usize = 0;
        while k < n
            invariant
                k <= n,
                n == H * W,
                inner@.len() == k,
                forall|j: int| 0 <= j < k ==> is_default(#[trigger] inner@[j]),
            decreases n - k,
        {
            inner.push(Inner::default());
            k = k + 1;
        }
        Self::from_buffer(inner)
    }

    /// Every element is a clone of `v`.
    pub fn by_value(v: Inner) -> (m: Self) where Inner: Clone
        requires
            H * W <= usize::MAX,
        ensures
            m.wf(),
            forall|k: int| 0 <= k < H * W ==> cloned::<Inner>(v, #[trigger] m@[k]),
    {
        let n = H * W;
        let mut inner: Vec<Inner> = Vec::with_capacity(n);
        let mut k: usize = 0;
        while k < n
            invariant
                k <= n,
                n == H * W,
                inner@.len() == k,
                forall|j: int| 0 <= j < k ==> cloned::<Inner>(v, #[trigger] inner@[j]),
            decreases n - k,
        {
            inner.push(v.clone());
            k = k + 1;
        }
        Self::from_buffer(inner)
    }

    /// The element at (row, col) is `f(row, col)`; `f` is called exactly once per cell.
    pub fn by_f<F: Fn(usize, usize) -> Inner>(f: F) -> (m: Self)
        requires
            H * W <= usize::MAX,
            forall|row: usize, col: usize| row < H && col < W ==> f.requires((row, col)),
        ensures
            m.wf(),
            forall|row: usize, col: usize|
                row < H && col < W ==> f.ensures((row, col), #[trigger] m.entry(row as int, col as int)),
    {
        let mut inner: Vec<Inner> = Vec::with_capacity(H * W);
        let mut col: usize = 0;
        while col < W
            invariant
                col <= W,
                H * W <= usize::MAX,
                inner@.len() == col * H,
                forall|row: usize, col: usize| row < H && col < W ==> f.requires((row, col)),
                forall|r: usize, c: usize|
                    r < H && c < col ==> f.ensures((r, c), #[trigger] inner@[offset(H as int, r as int, c as int)]),
            decreases W - col,
        {
            let mut row: usize = 0;
            while row < H
                invariant
                    row <= H,
                    col < W,
                    H * W <= usize::MAX,
                    inner@.len() == col * H + row,
                    forall|row: usize, col: usize| row < H && col < W ==> f.requires((row, col)),
                    forall|r: usize, c: usize|
                        (r < H && c < col) || (r < row && c == col) ==> f.ensures((r, c), #[trigger] inner@[offset(H as int, r as int, c as int)]),
                decreases H - row,
            {
                proof {
                    lemma_offset_in_bounds(H as int, W as int, row as int, col as int);
                }
                let ghost before = inner@;
                let x = f(row, col);
                inner.push(x);
                proof {
                    assert forall|r: usize, c: usize|
                        (r < H && c < col) || (r < row + 1 && c == col) implies f.ensures(
                        (r, c),
                        #[trigger] inner@[offset(H as int, r as int, c as int)],
                    ) by {
                        if c < col {
                            lemma_offset_before_column(H as int, r as int, c as int, col as int);
                            assert(inner@[offset(H as int, r as int, c as int)] == before[offset(
                                H as int,
                                r as int,
                                c as int,
                            )]);
                        } else if r < row {
                            assert(inner@[offset(H as int, r as int, c as int)] == before[offset(
                                H as int,
                                r as int,
                                c as int,
                            )]);
                        }
                    }
                }
                row = row + 1;
            }
            proof {
                assert((col + 1) * H == col * H + H) by (nonlinear_arith);
            }
            col = col + 1;
        }
        proof {
            assert(W * H == H * W) by (nonlinear_arith);
        }
        Self::from_buffer(inner)
    }

    /// Takes a column-major literal (`W` columns of `H` elements) by value; the element
    /// at (row, col) is `inner[col][row]`.
    pub fn new_col_major(inner: [[Inner; H]; W]) -> (m: Self)
        requires
            H * W <= usize::MAX,
        ensures
            m.wf(),
            forall|row: int, col: int|
                0 <= row < H && 0 <= col < W ==> #[trigger] m.entry(row, col) == inner@[col]@[row],
    {
        let ghost src = inner@;
        let mut cols: Vec<[Inner; H]> = Vec::from(inner);
        let mut slots: Vec<Option<Inner>> = empty_slots(H * W);
        proof {
            assert forall|r: int, c: int| 0 <= r < H && 0 <= c < W implies #[trigger] slots@[offset(
                H as int,
                r,
                c,
            )] is None by {
                lemma_offset_in_bounds(H as int, W as int, r, c);
            }
        }
        let mut w: usize = W;
        while w > 0
            invariant
                w <= W,
                H * W <= usize::MAX,
                src.len() == W,
                cols@ == src.subrange(0, w as int),
                slots@.len() == H * W,
                forall|r: int, c: int|
                    0 <= r < H && 0 <= c < W ==> #[trigger] slots@[offset(H as int, r, c)] == if c
                        >= w {
                        Some(src[c]@[r])
                    } else {
                        None::<Inner>
                    },
            decreases w,
        {
            let column = cols.pop().unwrap();
            w = w - 1;
            assert(column == src[w as int]);
            let ghost col_src = column@;
            let mut cells: Vec<Inner> = Vec::from(column);
            let mut h: usize = H;
            while h > 0
                invariant
                    w < W,
                    h <= H,
                    H * W <= usize::MAX,
                    col_src == src[w as int]@,
                    col_src.len() == H,
                    cells@ == col_src.subrange(0, h as int),
                    slots@.len() == H * W,
                    forall|r: int, c: int|
                        0 <= r < H && 0 <= c < W ==> #[trigger] slots@[offset(H as int, r, c)] == if c
                            > w || (c == w && r >= h) {
                            Some(src[c]@[r])
                        } else {
                            None::<Inner>
                        },
                decreases h,
            {
                let x = cells.pop().unwrap();
                h = h - 1;
                proof {
                    lemma_offset_in_bounds(H as int, W as int, h as int, w as int);
                }
                let ghost before = slots@;
                slots[w * H + h] = Some(x);
                proof {
                    assert forall|r: int, c: int| 0 <= r < H && 0 <= c < W implies #[trigger] slots@[offset(
                        H as int,
                        r,
                        c,
                    )] == if c > w || (c == w && r >= h) {
                        Some(src[c]@[r])
                    } else {
                        None::<Inner>
                    } by {
                        lemma_offset_in_bounds(H as int, W as int, r, c);
                        if offset(H as int, r, c) == offset(H as int, h as int, w as int) {
                            lemma_offset_injective(H as int, r, c, h as int, w as int);
                        } else {
                            assert(slots@[offset(H as int, r, c)] == before[offset(H as int, r, c)]);
                        }
                    }
                }
            }
        }
        proof {
            assert forall|k: int| 0 <= k < slots@.len() implies #[trigger] slots@[k] is Some by {
                lemma_offset_cell(H as int, W as int, k);
            }
        }
        let ghost filled = slots@;
        let buffer = seal_slots(slots);
        let m = Self::from_buffer(buffer);
        proof {
            assert forall|row: int, col: int| 0 <= row < H && 0 <= col < W implies #[trigger] m.entry(
                row,
                col,
            ) == inner@[col]@[row] by {
                lemma_offset_in_bounds(H as int, W as int, row, col);
                assert(filled[offset(H as int, row, col)] == Some(src[col]@[row]));
            }
        }
        m
    }

    /// [`Self::new_col_major`] on a boxed literal.
    pub fn new_col_major_box(inner: Box<[[Inner; H]; W]>) -> (m: Self)
        requires
            H * W <= usize::MAX,
        ensures
            m.wf(),
            forall|row: int, col: int|
                0 <= row < H && 0 <= col < W ==> #[trigger] m.entry(row, col) == inner@[col]@[row],
    {
        Self::new_col_major(*inner)
    }

    /// Takes a row-major literal (`H` rows of `W` elements) by value and moves each
    /// element, exactly once, into its column-major slot. The storage is sealed only
    /// after every slot has been written.
    pub fn new_row_major(v: [[Inner; W]; H]) -> (m: Self)
        requires
            H * W <= usize::MAX,
        ensures
            m.wf(),
            forall|row: int, col: int|
                0 <= row < H && 0 <= col < W ==> #[trigger] m.entry(row, col) == v@[row]@[col],
    {
        let ghost src = v@;
        let mut rows: Vec<[Inner; W]> = Vec::from(v);
        let mut slots: Vec<Option<Inner>> = empty_slots(H * W);
        proof {
            assert forall|r: int, c: int| 0 <= r < H && 0 <= c < W implies #[trigger] slots@[offset(
                H as int,
                r,
                c,
            )] is None by {
                lemma_offset_in_bounds(H as int, W as int, r, c);
            }
        }
        let mut h: usize = H;
        while h > 0
            invariant
                h <= H,
                H * W <= usize::MAX,
                src.len() == H,
                rows@ == src.subrange(0, h as int),
                slots@.len() == H * W,
                forall|r: int, c: int|
                    0 <= r < H && 0 <= c < W ==> #[trigger] slots@[offset(H as int, r, c)] == if r
                        >= h {
                        Some(src[r]@[c])
                    } else {
                        None::<Inner>
                    },
            decreases h,
        {
            let row = rows.pop().unwrap();
            h = h - 1;
            assert(row == src[h as int]);
            let ghost row_src = row@;
            let mut cells: Vec<Inner> = Vec::from(row);
            let mut w: usize = W;
            while w > 0
                invariant
                    h < H,
                    w <= W,
                    H * W <= usize::MAX,
                    row_src == src[h as int]@,
                    row_src.len() == W,
                    cells@ == row_src.subrange(0, w as int),
                    slots@.len() == H * W,
                    forall|r: int, c: int|
                        0 <= r < H && 0 <= c < W ==> #[trigger] slots@[offset(H as int, r, c)] == if r
                            > h || (r == h && c >= w) {
                            Some(src[r]@[c])
                        } else {
                            None::<Inner>
                        },
                decreases w,
            {
                let x = cells.pop().unwrap();
                w = w - 1;
                proof {
                    lemma_offset_in_bounds(H as int, W as int, h as int, w as int);
                }
                let ghost before = slots@;
                slots[w * H + h] = Some(x);
                proof {
                    assert forall|r: int, c: int| 0 <= r < H && 0 <= c < W implies #[trigger] slots@[offset(
                        H as int,
                        r,
                        c,
                    )] == if r > h || (r == h && c >= w) {
                        Some(src[r]@[c])
                    } else {
                        None::<Inner>
                    } by {
                        lemma_offset_in_bounds(H as int, W as int, r, c);
                        if offset(H as int, r, c) == offset(H as int, h as int, w as int) {
                            lemma_offset_injective(H as int, r, c, h as int, w as int);
                        } else {
                            assert(slots@[offset(H as int, r, c)] == before[offset(H as int, r, c)]);
                        }
                    }
                }
            }
        }
        proof {
            assert forall|k: int| 0 <= k < slots@.len() implies #[trigger] slots@[k] is Some by {
                lemma_offset_cell(H as int, W as int, k);
            }
        }
        let ghost filled = slots@;
        let inner = seal_slots(slots);
        let m = Self::from_buffer(inner);
        proof {
            assert forall|row: int, col: int| 0 <= row < H && 0 <= col < W implies #[trigger] m.entry(
                row,
                col,
            ) == v@[row]@[col] by {
                lemma_offset_in_bounds(H as int, W as int, row, col);
                assert(filled[offset(H as int, row, col)] == Some(src[row]@[col]));
            }
        }
        m
    }

    /// [`Self::new_row_major`] on a boxed literal.
    pub fn new_row_major_box(v: Box<[[Inner; W]; H]>) -> (m: Self)
        requires
            H * W <= usize::MAX,
        ensures
            m.wf(),
            forall|row: int, col: int|
                0 <= row < H && 0 <= col < W ==> #[trigger] m.entry(row, col) == v@[row]@[col],
    {
        Self::new_row_major(*v)
    }

    /// Gives up the column-major buffer.
    pub(crate) fn into_buffer(self) -> (v: Vec<Inner>)
        requires
            self.wf(),
        ensures
            v@ == self@,
    {
        self.inner
    }

    /// The element at buffer offset `k`.
    pub(crate) fn get(&self, k: usize) -> (r: &Inner)
        requires
            self.wf(),
            k < H * W,
        ensures
            *r == self@[k as int],
    {
        &self.inner[k]
    }

    /// Overwrites the element at buffer offset `k`.
    pub(crate) fn set(&mut self, k: usize, x: Inner)
        requires
            old(self).wf(),
            k < H * W,
        ensures
            final(self)@ == old(self)@.update(k as int, x),
    {
        self.inner.set(k, x);
    }

    /// Mutable access to the element at (`row`, `col`); every other element is left as it
    /// was.
    pub fn at_mut(&mut self, row: usize, col: usize) -> (r: &mut Inner)
        requires
            old(self).wf(),
            row < H,
            col < W,
        ensures
            final(self).wf(),
            *r == old(self).entry(row as int, col as int),
            final(self)@ == old(self)@.update(
                offset(H as int, row as int, col as int),
                *final(r),
            ),
    {
        proof {
            lemma_offset_in_bounds(H as int, W as int, row as int, col as int);
        }
        &mut self.inner[col * H + row]
    }

    /// The column-major buffer.
    pub fn inner(&self) -> (r: &[Inner])
        ensures
            r@ == self@,
    {
        self.inner.as_slice()
    }

    /// The column-major buffer, writable in place. A slice cannot change its length, so
    /// the matrix keeps its `H * W` elements.
    pub fn inner_mut(&mut self) -> (r: &mut [Inner])
        ensures
            r@ == old(self)@,
            final(self)@ == final(r)@,
    {
        self.inner.as_mut_slice()
    }
}

impl<const H: usize, const W: usize, Inner> AsMatrix<H, W, Inner> for GeneralMatrix<
    H,
    W,
    Inner,
> {
    open spec fn well_formed(&self) -> bool {
        self.wf()
    }

    open spec fn element(&self, row: int, col: int) -> Inner {
        self.entry(row, col)
    }

    fn at(&self, row: usize, col: usize) -> (r: &Inner) {
        proof {
            lemma_offset_in_bounds(H as int, W as int, row as int, col as int);
        }
        &self.inner[col * H + row]
    }
}

} // verus!
