//! Solving `A X = B`: the decisions around the backend's solver calls, either directly on
//! `(A, B)` or reusing an LU factorization of `A`.
use vstd::prelude::*;

use crate::factorizations::lu::AsLuError;

verus! {

/// Why a solve failed.
#[derive(Debug, Clone, Copy, PartialEq, Eq, Structural)]
pub enum AXEqBError {
    /// The backend rejected the argument at this position (counted from 1); a defect of
    /// the packaging, not of the data.
    ArgumentError(u32),
    /// Any other failure status, kept for diagnostics (a positive one: `A` is singular).
    Unknown(i32),
}

impl AXEqBError {
    /// How a backend status reads for a solve: none for success, the position of the
    /// rejected argument for a negative code `-k`, and the code itself for a positive one.
    pub open spec fn spec_from_status(code: i32) -> Option<AXEqBError> {
        if code == 0 {
            None
        } else if code < 0 {
            Some(AXEqBError::ArgumentError((-code) as u32))
        } else {
            Some(AXEqBError::Unknown(code))
        }
    }

    pub fn from_status(code: i32) -> (r: Option<AXEqBError>)
        ensures
            r == Self::spec_from_status(code),
    {
        if code == 0 {
            None
        } else if code < 0 {
            Some(AXEqBError::ArgumentError((0i64 - code as i64) as u32))
        } else {
            Some(AXEqBError::Unknown(code))
        }
    }
}

/// The outcome of a solver call that reported `status` after overwriting the right-hand
/// side with `x`: `x` is the solution exactly when `status` is 0.
pub fn solve_result<X>(x: X, status: i32) -> (r: Result<X, AXEqBError>)
    ensures
        status == 0 ==> r == Ok::<X, AXEqBError>(x),
        status != 0 ==> r == Err::<X, AXEqBError>(
            AXEqBError::spec_from_status(status).unwrap(),
        ),
{
    match AXEqBError::from_status(status) {
        None => Ok(x),
        Some(e) => Err(e),
    }
}

/// Factors may be reused for solving only when the factorization ended with status 0;
/// otherwise its status is the error.
pub fn solve_factors<L, E: AsLuError>(factored: (L, E)) -> (r: Result<L, AXEqBError>)
    ensures
        factored.1.code() == 0 ==> r == Ok::<L, AXEqBError>(factored.0),
        factored.1.code() != 0 ==> r == Err::<L, AXEqBError>(
            AXEqBError::spec_from_status(factored.1.code()).unwrap(),
        ),
{
    let (lu, status) = factored;
    let code = *status.as_lapack_into();
    match AXEqBError::from_status(code) {
        None => Ok(lu),
        Some(e) => Err(e),
    }
}

} // verus!
