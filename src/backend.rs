//! Scalar arguments for the routines of a dense linear-algebra backend (BLAS/LAPACK
//! conventions). Each routine takes its dimensions and leading strides as 32-bit integers;
//! every record here is built only when those values fit and satisfy the routine's rules,
//! so a call made with it cannot fail on its arguments.
use vstd::prelude::*;

use crate::matrix::general::lu::spec_min;

verus! {

/// The largest value of the backend's integer type.
const BACKEND_INT_MAX: usize = 2147483647;

/// `n` as the backend's integer type, when it fits.
pub fn backend_dim(n: usize) -> (r: Option<i32>)
    ensures
        r == if n <= i32::MAX {
            Some(n as i32)
        } else {
            None::<i32>
        },
{
    if n <= BACKEND_INT_MAX {
        Some(n as i32)
    } else {
        None
    }
}

/// Leading dimension of a column-major buffer with `rows` rows: the backend asks for at
/// least 1, even for an empty buffer.
pub open spec fn leading_dim(rows: int) -> int {
    if rows < 1 {
        1
    } else {
        rows
    }
}

/// [`leading_dim`], as the backend's integer type, when it fits.
fn backend_leading_dim(rows: usize) -> (r: Option<i32>)
    ensures
        r == if rows <= i32::MAX {
            Some(leading_dim(rows as int) as i32)
        } else {
            None::<i32>
        },
{
    if rows > BACKEND_INT_MAX {
        None
    } else if rows < 1 {
        Some(1)
    } else {
        Some(rows as i32)
    }
}

/// Arguments of the LU factorization routine (`?getrf`) for an `H`×`W` matrix.
#[derive(Debug, Clone, Copy, PartialEq, Eq)]
pub struct GetrfArgs {
    /// Rows.
    pub m: i32,
    /// Columns.
    pub n: i32,
    /// Leading dimension of the matrix buffer.
    pub lda: i32,
}

impl GetrfArgs {
    /// The arguments for an `H`×`W` matrix whose pivot record has `S` entries; none when a
    /// dimension does not fit or `S` is not `min(H, W)`.
    pub fn for_shape<const H: usize, const W: usize, const S: usize>() -> (r: Option<Self>)
        ensures
            r is Some <==> H <= i32::MAX && W <= i32::MAX && S == spec_min(H as int, W as int),
            r is Some ==> r->Some_0 == (GetrfArgs {
                m: H as i32,
                n: W as i32,
                lda: leading_dim(H as int) as i32,
            }),
    {
        if S != crate::matrix::general::lu::min(H, W) {
            return None;
        }
        match (backend_dim(H), backend_dim(W), backend_leading_dim(H)) {
            (Some(m), Some(n), Some(lda)) => Some(GetrfArgs { m, n, lda }),
            _ => None,
        }
    }
}

/// Arguments of the general solver (`?gesv`) for `A X = B`, `A` being `AS`×`AS` and `B`
/// `AS`×`XW`.
#[derive(Debug, Clone, Copy, PartialEq, Eq)]
pub struct GesvArgs {
    /// Order of `A`.
    pub n: i32,
    /// Columns of `B`.
    pub nrhs: i32,
    /// Leading dimension of `A`.
    pub lda: i32,
    /// Leading dimension of `B`.
    pub ldb: i32,
}

impl GesvArgs {
    /// The arguments for solving with an `AS`×`AS` matrix and `XW` right-hand sides; none
    /// when a dimension does not fit.
    pub fn for_shape<const AS: usize, const XW: usize>() -> (r: Option<Self>)
        ensures
            r is Some <==> AS <= i32::MAX && XW <= i32::MAX,
            r is Some ==> r->Some_0 == (GesvArgs {
                n: AS as i32,
                nrhs: XW as i32,
                lda: leading_dim(AS as int) as i32,
                ldb: leading_dim(AS as int) as i32,
            }),
    {
        match (backend_dim(AS), backend_dim(XW), backend_leading_dim(AS)) {
            (Some(n), Some(nrhs), Some(ld)) => Some(GesvArgs { n, nrhs, lda: ld, ldb: ld }),
            _ => None,
        }
    }
}

/// Arguments of the solver that reuses an LU factorization (`?getrs`).
#[derive(Debug, Clone, Copy, PartialEq, Eq)]
pub struct GetrsArgs {
    /// `b'N'`: solve with `A` itself, not its transpose.
    pub trans: u8,
    /// Order of `A`.
    pub n: i32,
    /// Columns of `B`.
    pub nrhs: i32,
    /// Leading dimension of the factors.
    pub lda: i32,
    /// Leading dimension of `B`.
    pub ldb: i32,
}

impl GetrsArgs {
    /// The arguments for an `AS`×`AS` factorization and `XW` right-hand sides; none when a
    /// dimension does not fit.
    pub fn for_shape<const AS: usize, const XW: usize>() -> (r: Option<Self>)
        ensures
            r is Some <==> AS <= i32::MAX && XW <= i32::MAX,
            r is Some ==> r->Some_0 == (GetrsArgs {
                trans: 78u8,
                n: AS as i32,
                nrhs: XW as i32,
                lda: leading_dim(AS as int) as i32,
                ldb: leading_dim(AS as int) as i32,
            }),
    {
        match (backend_dim(AS), backend_dim(XW), backend_leading_dim(AS)) {
            (Some(n), Some(nrhs), Some(ld)) => Some(
                GetrsArgs { trans: 78u8, n, nrhs, lda: ld, ldb: ld },
            ),
            _ => None,
        }
    }
}

/// Arguments of the in-place inversion from LU factors (`?getri`).
#[derive(Debug, Clone, Copy, PartialEq, Eq)]
pub struct GetriArgs {
    /// Order of the matrix.
    pub n: i32,
    /// Leading dimension of the factors.
    pub lda: i32,
    /// Length of the workspace; the backend asks for at least `max(1, n)`.
    pub lwork: i32,
}

impl GetriArgs {
    /// The arguments for an `S`×`S` matrix; none when `S` does not fit.
    pub fn for_shape<const S: usize>() -> (r: Option<Self>)
        ensures
            r is Some <==> S <= i32::MAX,
            r is Some ==> r->Some_0 == (GetriArgs {
                n: S as i32,
                lda: leading_dim(S as int) as i32,
                lwork: leading_dim(S as int) as i32,
            }),
    {
        match (backend_dim(S), backend_leading_dim(S)) {
            (Some(n), Some(ld)) => Some(GetriArgs { n, lda: ld, lwork: ld }),
            _ => None,
        }
    }
}

/// Arguments of the vector scale-and-add routine (`?axpy`) over whole `H`×`W` buffers.
#[derive(Debug, Clone, Copy, PartialEq, Eq)]
pub struct AxpyArgs {
    /// Number of elements.
    pub n: i32,
    /// Stride through `x`.
    pub incx: i32,
    /// Stride through `y`.
    pub incy: i32,
}

impl AxpyArgs {
    /// The arguments for two `H`×`W` buffers, walked with stride 1; none when `H * W` does
    /// not fit.
    pub fn for_shape<const H: usize, const W: usize>() -> (r: Option<Self>)
        ensures
            r is Some <==> H * W <= i32::MAX,
            r is Some ==> r->Some_0 == (AxpyArgs { n: (H * W) as i32, incx: 1, incy: 1 }),
    {
        if H == 0 || W == 0 {
            proof {
                assert(H * W == 0) by (nonlinear_arith)
                    requires
                        H == 0 || W == 0,
                ;
            }
            return Some(AxpyArgs { n: 0, incx: 1, incy: 1 });
        }
        if W > BACKEND_INT_MAX / H {
            proof {
                assert(H * W > i32::MAX) by (nonlinear_arith)
                    requires
                        H > 0,
                        W > BACKEND_INT_MAX / H,
                ;
            }
            return None;
        }
        proof {
            assert(H * W <= i32::MAX) by (nonlinear_arith)
                requires
                    H > 0,
                    W <= BACKEND_INT_MAX / H,
            ;
        }
        Some(AxpyArgs { n: (H * W) as i32, incx: 1, incy: 1 })
    }
}

/// Arguments of the general matrix multiply (`?gemm`), `C := alpha A B + beta C`, with
/// `A` `LH`×`K`, `B` `K`×`RW` and `C` `LH`×`RW`, none of them transposed.
#[derive(Debug, Clone, Copy, PartialEq, Eq)]
pub struct GemmArgs {
    /// `b'N'`: `A` as stored.
    pub transa: u8,
    /// `b'N'`: `B` as stored.
    pub transb: u8,
    /// Rows of `A` and `C`.
    pub m: i32,
    /// Columns of `B` and `C`.
    pub n: i32,
    /// Columns of `A`, rows of `B`.
    pub k: i32,
    /// Leading dimension of `A`.
    pub lda: i32,
    /// Leading dimension of `B`.
    pub ldb: i32,
    /// Leading dimension of `C`.
    pub ldc: i32,
}

impl GemmArgs {
    /// The arguments for the given shapes; none when a dimension does not fit.
    pub fn for_shape<const LH: usize, const K: usize, const RW: usize>() -> (r: Option<Self>)
        ensures
            r is Some <==> LH <= i32::MAX && K <= i32::MAX && RW <= i32::MAX,
            r is Some ==> r->Some_0 == (GemmArgs {
                transa: 78u8,
                transb: 78u8,
                m: LH as i32,
                n: RW as i32,
                k: K as i32,
                lda: leading_dim(LH as int) as i32,
                ldb: leading_dim(K as int) as i32,
                ldc: leading_dim(LH as int) as i32,
            }),
    {
        match (
            backend_dim(LH),
            backend_dim(RW),
            backend_dim(K),
            backend_leading_dim(LH),
            backend_leading_dim(K),
        ) {
            (Some(m), Some(n), Some(k), Some(lda), Some(ldb)) => Some(
                GemmArgs { transa: 78u8, transb: 78u8, m, n, k, lda, ldb, ldc: lda },
            ),
            _ => None,
        }
    }
}

} // verus!
