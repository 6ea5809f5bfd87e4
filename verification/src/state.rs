//! The typed records that the state machine places in its store.
//!
//! Each record carries the disambiguation nonce ("bump") that was chosen
//! when its deterministic address was derived, so later operations can
//! reproduce the address.

use crate::constants::{MAX_COURSE_ID_LEN, MAX_COURSE_NAME_LEN, MAX_GRADE};
use crate::identity::Identity;
use vstd::prelude::*;

verus! {

/// The UTF-8 bytes of a string value, as key material and for length limits.
pub open spec fn str_bytes(s: Seq<char>) -> Seq<u8> {
    vstd::utf8::encode_utf8(s)
}

/// The singleton configuration of the credit economy.
pub struct ProgramConfig {
    /// Identity allowed to administer the economy.
    pub authority: Identity,
    /// Mint of the fungible credit token.
    pub credit_mint: Identity,
    /// Identity that receives native-currency payments.
    pub treasury: Identity,
    /// Native-currency units charged per credit.
    pub credit_price: u64,
    /// Disambiguation nonce of the configuration's address.
    pub bump: u8,
}

/// A course that students can enroll in.
pub struct Course {
    /// Key of the course, at most [`MAX_COURSE_ID_LEN`] bytes.
    pub course_id: String,
    /// Display name, at most [`MAX_COURSE_NAME_LEN`] bytes.
    pub course_name: String,
    /// Identity allowed to record completions for this course.
    pub instructor: Identity,
    /// Credits burned by a registration; always positive.
    pub required_credits: u64,
    /// Whether the course accepts registrations.
    pub is_active: bool,
    /// Timestamp at creation.
    pub created_at: i64,
    /// Disambiguation nonce of the course's address.
    pub bump: u8,
}

impl Course {
    /// The structural invariant every stored course satisfies.
    pub open spec fn valid(self) -> bool {
        &&& str_bytes(self.course_id@).len() <= MAX_COURSE_ID_LEN
        &&& str_bytes(self.course_name@).len() <= MAX_COURSE_NAME_LEN
        &&& self.required_credits > 0
    }
}

/// One student's enrollment in one course.
pub struct CourseEnrollment {
    /// The enrolled student; part of the record's key.
    pub student: Identity,
    /// The course; part of the record's key.
    pub course_id: String,
    /// Credits burned when the enrollment was created.
    pub credits_paid: u64,
    /// Timestamp at registration.
    pub enrollment_date: i64,
    /// Timestamp at completion, once completed.
    pub completion_date: Option<i64>,
    /// Whether the instructor recorded completion.
    pub is_completed: bool,
    /// Grade recorded at completion, at most [`MAX_GRADE`].
    pub grade: u8,
    /// Certificate marker, set at most once, only after completion.
    pub certificate_mint: Option<Identity>,
    /// Disambiguation nonce of the enrollment's address.
    pub bump: u8,
}

impl CourseEnrollment {
    /// The structural invariant every stored enrollment satisfies: the
    /// grade is bounded, and an enrollment that is not completed carries
    /// neither a completion timestamp, nor a grade, nor a certificate.
    pub open spec fn valid(self) -> bool {
        &&& str_bytes(self.course_id@).len() <= MAX_COURSE_ID_LEN
        &&& self.grade <= MAX_GRADE
        &&& !self.is_completed ==> {
            &&& self.completion_date is None
            &&& self.grade == 0
            &&& self.certificate_mint is None
        }
        &&& self.is_completed ==> self.completion_date is Some
    }
}

/// Per-student counters and the graduation marker.
pub struct StudentProfile {
    /// The student; the record's key.
    pub student: Identity,
    /// Sum of all credits ever purchased; never decreases.
    pub total_credits_purchased: u64,
    /// Sum of all credits ever burned for registrations; never decreases.
    pub total_credits_spent: u64,
    /// Number of completions recorded; never decreases.
    pub courses_completed: u16,
    /// Graduation marker, set at most once.
    pub graduation_nft: Option<Identity>,
    /// Timestamp at the first purchase.
    pub created_at: i64,
    /// Disambiguation nonce of the profile's address.
    pub bump: u8,
}

} // verus!
