//! The named error kinds of the state machine.
//!
//! Every operation aborts on its first violated precondition with one of
//! these kinds, so a caller can branch on the cause.  No operation ever
//! leaves a partial mutation behind.

use vstd::prelude::*;

verus! {

#[derive(Clone, Copy, Debug, PartialEq, Eq, Structural)]
pub enum AcademicChainError {
    /// Registration: the caller's credit balance is below the course price.
    InsufficientCredits,
    /// Registration: the course exists but is not open for enrollment.
    CourseNotActive,
    /// Registration: an enrollment for this student and course already exists.
    AlreadyEnrolled,
    /// Certification: the enrollment has not been marked completed.
    CourseNotCompleted,
    /// Completion: the grade lies outside the accepted range.
    InvalidGrade,
    /// Completion: the caller is not the instructor of the course.
    UnauthorizedInstructor,
    /// Certification or graduation: the marker was already recorded.
    CertificateAlreadyMinted,
    /// Graduation: fewer courses completed than the requirement lists.
    RequirementsNotMet,
    /// Course creation: a course with this identifier already exists.
    DuplicateCourse,
    /// Course creation: the course identifier is too long.
    InvalidCourseId,
    /// Course creation: the course name is too long.
    InvalidCourseName,
    /// Course creation: the credit requirement is zero.
    InvalidCredits,
    /// The caller lacks the capability the operation demands.
    Unauthorized,
    /// A checked addition or multiplication overflowed.
    ArithmeticOverflow,
    /// Bootstrap: the configuration record already exists.
    AlreadyInitialized,
    /// An economy operation ran before the configuration was created.
    NotInitialized,
    /// No course record exists under the given identifier.
    CourseNotFound,
    /// No enrollment record exists for the given student and course.
    EnrollmentNotFound,
    /// No profile record exists for the given student.
    ProfileNotFound,
    /// Purchase: the caller's native-currency balance cannot cover the cost.
    InsufficientFunds,
    /// Completion was already recorded for this enrollment.
    AlreadyCompleted,
}

impl AcademicChainError {
    /// A short, stable label for the error kind.
    pub fn label(&self) -> &'static str {
        match self {
            AcademicChainError::InsufficientCredits => "insufficient credits",
            AcademicChainError::CourseNotActive => "course not active",
            AcademicChainError::AlreadyEnrolled => "already enrolled",
            AcademicChainError::CourseNotCompleted => "course not completed",
            AcademicChainError::InvalidGrade => "invalid grade",
            AcademicChainError::UnauthorizedInstructor => "unauthorized instructor",
            AcademicChainError::CertificateAlreadyMinted => "certificate already minted",
            AcademicChainError::RequirementsNotMet => "requirements not met",
            AcademicChainError::DuplicateCourse => "duplicate course",
            AcademicChainError::InvalidCourseId => "invalid course id",
            AcademicChainError::InvalidCourseName => "invalid course name",
            AcademicChainError::InvalidCredits => "invalid credits",
            AcademicChainError::Unauthorized => "unauthorized",
            AcademicChainError::ArithmeticOverflow => "arithmetic overflow",
            AcademicChainError::AlreadyInitialized => "already initialized",
            AcademicChainError::NotInitialized => "not initialized",
            AcademicChainError::CourseNotFound => "course not found",
            AcademicChainError::EnrollmentNotFound => "enrollment not found",
            AcademicChainError::ProfileNotFound => "profile not found",
            AcademicChainError::InsufficientFunds => "insufficient funds",
            AcademicChainError::AlreadyCompleted => "already completed",
        }
    }
}

} // verus!
