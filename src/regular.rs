//! Inversion of square matrices: the decisions around the backend's factorization and
//! in-place inversion calls.
use vstd::prelude::*;

use crate::factorizations::lu::AsLuError;
use crate::matrix::general::lu::GeneralLuFormat;
use crate::matrix::general::GeneralMatrix;

verus! {

/// Why an inversion failed.
#[derive(Debug, Clone, Copy, PartialEq, Eq, Structural)]
pub enum InverseError {
    /// The backend rejected the argument at this position (counted from 1); a defect of
    /// the packaging, not of the data.
    ArgumentError(u32),
    /// The matrix has an exact zero pivot and no inverse.
    Singular,
}

impl InverseError {
    /// How a backend status reads for an inversion: none for success, the position of
    /// the rejected argument for a negative code `-k`, and a singular matrix for a
    /// positive one.
    pub open spec fn spec_from_status(code: i32) -> Option<InverseError> {
        if code == 0 {
            None
        } else if code < 0 {
            Some(InverseError::ArgumentError((-code) as u32))
        } else {
            Some(InverseError::Singular)
        }
    }

    pub fn from_status(code: i32) -> (r: Option<InverseError>)
        ensures
            r == Self::spec_from_status(code),
    {
        if code == 0 {
            None
        } else if code < 0 {
            Some(InverseError::ArgumentError((0i64 - code as i64) as u32))
        } else {
            Some(InverseError::Singular)
        }
    }
}

/// A zero pivot never passes for an inverse, and a rejected argument is never taken
/// for one: a positive status, from the factorization or from the inversion routine,
/// always reads as `Singular`, and a negative status `-k` always as `ArgumentError(k)`.
pub proof fn lemma_zero_pivot_is_singular(code: i32)
    ensures
        code > 0 ==> InverseError::spec_from_status(code) == Some(InverseError::Singular),
        code < 0 ==> InverseError::spec_from_status(code) == Some(
            InverseError::ArgumentError((-code) as u32),
        ),
{
}

/// First step of an inversion: the factorization attempt must have succeeded with
/// status 0. A rejected call gives its argument position; a zero pivot, `Singular`; a
/// discarded attempt never yields factors.
pub fn inverse_factors<L, E: AsLuError>(factored: Result<(L, E), E>) -> (r: Result<L, InverseError>)
    ensures
        match factored {
            Ok((lu, status)) => if status.code() == 0 {
                r == Ok::<L, InverseError>(lu)
            } else {
                r == Err::<L, InverseError>(
                    InverseError::spec_from_status(status.code()).unwrap(),
                )
            },
            Err(status) => if status.code() == 0 {
                r == Err::<L, InverseError>(InverseError::Singular)
            } else {
                r == Err::<L, InverseError>(
                    InverseError::spec_from_status(status.code()).unwrap(),
                )
            },
        },
{
    match factored {
        Ok((lu, status)) => {
            let code = *status.as_lapack_into();
            match InverseError::from_status(code) {
                None => Ok(lu),
                Some(e) => Err(e),
            }
        },
        Err(status) => {
            let code = *status.as_lapack_into();
            match InverseError::from_status(code) {
                None => Err(InverseError::Singular),
                Some(e) => Err(e),
            }
        },
    }
}

/// Last step of an inversion: after the in-place inversion routine reported `status`,
/// the packed buffer is the inverse, read as a plain matrix, exactly when `status` is 0.
pub fn inverse_result<const S: usize, Inner, Pivot>(
    lu: GeneralLuFormat<S, S, Inner, Pivot>,
    status: i32,
) -> (r: Result<GeneralMatrix<S, S, Inner>, InverseError>)
    ensures
        status == 0 ==> r == Ok::<GeneralMatrix<S, S, Inner>, InverseError>(lu.internal_matrix),
        status != 0 ==> r == Err::<GeneralMatrix<S, S, Inner>, InverseError>(
            InverseError::spec_from_status(status).unwrap(),
        ),
{
    match InverseError::from_status(status) {
        None => Ok(lu.into_matrix()),
        Some(e) => Err(e),
    }
}

} // verus!
