//! Business-logic constants shared by the modules.

use vstd::prelude::*;

verus! {

/// Longest accepted course identifier, in bytes.
pub const MAX_COURSE_ID_LEN: usize = 32;

/// Longest accepted course name, in bytes.
pub const MAX_COURSE_NAME_LEN: usize = 100;

/// Lowest accepted grade.
pub const MIN_GRADE: u8 = 0;

/// Highest accepted grade.
pub const MAX_GRADE: u8 = 100;

/// Lowest grade that counts as passing.
pub const PASSING_GRADE: u8 = 50;

/// Native-currency units charged per credit until the authority changes it.
pub const DEFAULT_CREDIT_PRICE: u64 = 1000000;

} // verus!
