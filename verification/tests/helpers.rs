use academic_chain::constants::{MAX_GRADE, PASSING_GRADE};
use academic_chain::eduapp::Eduapp;
use academic_chain::errors::AcademicChainError;
use academic_chain::token_operations::calculate_credit_cost;
use academic_chain::validations::{is_passing_grade, validate_course_id, validate_grade};

#[test]
fn course_id_must_be_nonempty_and_at_most_32_bytes() {
    assert!(validate_course_id("CS101").is_ok());
    assert_eq!(validate_course_id(""), Err(AcademicChainError::InvalidCourseId));
    let long = "x".repeat(33);
    assert_eq!(validate_course_id(&long), Err(AcademicChainError::InvalidCourseId));
    let edge = "x".repeat(32);
    assert!(validate_course_id(&edge).is_ok());
}

#[test]
fn grades_above_the_maximum_are_rejected() {
    assert!(validate_grade(0).is_ok());
    assert!(validate_grade(MAX_GRADE).is_ok());
    assert_eq!(validate_grade(101), Err(AcademicChainError::InvalidGrade));
}

#[test]
fn passing_grade_threshold() {
    assert!(is_passing_grade(PASSING_GRADE));
    assert!(is_passing_grade(100));
    assert!(!is_passing_grade(PASSING_GRADE - 1));
    assert!(!is_passing_grade(0));
}

#[test]
fn credit_cost_is_the_exact_product() {
    assert_eq!(calculate_credit_cost(10, 1_000_000), Ok(10_000_000));
    assert_eq!(calculate_credit_cost(0, 1_000_000), Ok(0));
    assert_eq!(
        calculate_credit_cost(u64::MAX, 2),
        Err(AcademicChainError::ArithmeticOverflow)
    );
}

#[test]
fn eduapp_counter_roundtrip() {
    let mut counter = Eduapp::initialize();
    assert_eq!(counter.count, 0);
    counter.increment();
    counter.increment();
    assert_eq!(counter.count, 2);
    counter.decrement();
    assert_eq!(counter.count, 1);
    counter.set(42);
    assert_eq!(counter.count, 42);
    counter.close();
}
