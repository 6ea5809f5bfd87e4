//! Shared validation helpers.

use crate::constants::{MAX_COURSE_ID_LEN, MAX_GRADE, MIN_GRADE, PASSING_GRADE};
use crate::errors::AcademicChainError;
use crate::state::str_bytes;
use vstd::prelude::*;

verus! {

/// Accept a course identifier exactly when it is non-empty and at most
/// [`MAX_COURSE_ID_LEN`] bytes long.
pub fn validate_course_id(course_id: &str) -> (r: Result<(), AcademicChainError>)
    ensures
        r is Ok <==> 0 < str_bytes(course_id@).len() <= MAX_COURSE_ID_LEN,
        r is Err ==> r == Err::<(), AcademicChainError>(AcademicChainError::InvalidCourseId),
{
    let n = course_id.as_bytes().len();
    if n == 0 || n > MAX_COURSE_ID_LEN {
        Err(AcademicChainError::InvalidCourseId)
    } else {
        Ok(())
    }
}

/// Accept a grade exactly when it lies between [`MIN_GRADE`] and
/// [`MAX_GRADE`].
pub fn validate_grade(grade: u8) -> (r: Result<(), AcademicChainError>)
    ensures
        r is Ok <==> MIN_GRADE <= grade <= MAX_GRADE,
        r is Err ==> r == Err::<(), AcademicChainError>(AcademicChainError::InvalidGrade),
{
    if grade >= MIN_GRADE && grade <= MAX_GRADE {
        Ok(())
    } else {
        Err(AcademicChainError::InvalidGrade)
    }
}

/// Whether a grade counts as passing.
pub fn is_passing_grade(grade: u8) -> (r: bool)
    ensures
        r == (grade >= PASSING_GRADE),
{
    grade >= PASSING_GRADE
}

} // verus!
