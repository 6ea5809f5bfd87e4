use academic_chain::addressing::{
    certificate_mint_address, config_address, course_address, enrollment_address,
    graduation_mint_address, student_profile_address,
};
use academic_chain::chain::AcademicChain;
use academic_chain::errors::AcademicChainError;
use academic_chain::identity::Identity;
use academic_chain::state::Course;

fn id(b: u8) -> Identity {
    Identity::new([b; 32])
}

const PRICE: u64 = 1_000_000;

/// A chain bootstrapped with authority 10, treasury 11, mint 12.
fn bootstrapped() -> AcademicChain {
    let mut chain = AcademicChain::new(id(9));
    chain.initialize(id(10), id(11), id(12)).unwrap();
    chain
}

/// The bootstrapped chain with student 1 funded and holding credits.
fn with_funded_student(credits: u64) -> AcademicChain {
    let mut chain = bootstrapped();
    chain.native.deposit(&id(1), credits * PRICE).unwrap();
    chain.purchase_credits(id(1), credits, 100).unwrap();
    chain
}

#[test]
fn bootstrap_sets_default_configuration() {
    let chain = bootstrapped();
    let config = chain.config.as_ref().unwrap();
    assert_eq!(config.authority, id(10));
    assert_eq!(config.treasury, id(11));
    assert_eq!(config.credit_mint, id(12));
    assert_eq!(config.credit_price, PRICE);
}

#[test]
fn bootstrap_twice_fails_already_initialized() {
    let mut chain = bootstrapped();
    let r = chain.initialize(id(10), id(11), id(12));
    assert_eq!(r, Err(AcademicChainError::AlreadyInitialized));
}

#[test]
fn purchase_before_bootstrap_fails_not_initialized() {
    let mut chain = AcademicChain::new(id(9));
    let r = chain.purchase_credits(id(1), 1, 100);
    assert_eq!(r, Err(AcademicChainError::NotInitialized));
}

#[test]
fn purchase_without_funds_fails_insufficient_funds() {
    let mut chain = bootstrapped();
    let r = chain.purchase_credits(id(1), 1, 100);
    assert_eq!(r, Err(AcademicChainError::InsufficientFunds));
}

#[test]
fn purchase_cost_overflow_fails_arithmetic_overflow() {
    let mut chain = bootstrapped();
    chain.native.deposit(&id(1), u64::MAX).unwrap();
    let r = chain.purchase_credits(id(1), u64::MAX / 2, 100);
    assert_eq!(r, Err(AcademicChainError::ArithmeticOverflow));
}

#[test]
fn purchase_moves_cost_and_mints_credits() {
    let mut chain = bootstrapped();
    chain.native.deposit(&id(1), 10 * PRICE + 7).unwrap();
    chain.purchase_credits(id(1), 10, 100).unwrap();
    assert_eq!(chain.native_balance(&id(1)), 7);
    assert_eq!(chain.native_balance(&id(11)), 10 * PRICE);
    assert_eq!(chain.credit_balance(&id(1)), 10);
    let profile = chain.get_profile(&id(1)).unwrap();
    assert_eq!(profile.total_credits_purchased, 10);
    assert_eq!(profile.total_credits_spent, 0);
    assert_eq!(profile.courses_completed, 0);
    assert_eq!(profile.created_at, 100);
    assert!(profile.graduation_nft.is_none());
}

#[test]
fn purchased_counter_sums_over_successive_purchases() {
    let mut chain = bootstrapped();
    chain.native.deposit(&id(1), 100 * PRICE).unwrap();
    chain.purchase_credits(id(1), 3, 100).unwrap();
    chain.purchase_credits(id(1), 4, 101).unwrap();
    chain.purchase_credits(id(1), 5, 102).unwrap();
    let profile = chain.get_profile(&id(1)).unwrap();
    assert_eq!(profile.total_credits_purchased, 12);
}

#[test]
fn create_course_records_all_fields() {
    let mut chain = bootstrapped();
    chain
        .create_course("CS101".to_string(), "Algorithms".to_string(), id(20), 5, 50)
        .unwrap();
    let course = chain.get_course(&"CS101".to_string()).unwrap();
    assert_eq!(course.course_id, "CS101");
    assert_eq!(course.course_name, "Algorithms");
    assert_eq!(course.instructor, id(20));
    assert_eq!(course.required_credits, 5);
    assert!(course.is_active);
    assert_eq!(course.created_at, 50);
}

#[test]
fn create_course_duplicate_fails_duplicate_course() {
    let mut chain = bootstrapped();
    chain
        .create_course("CS101".to_string(), "Algorithms".to_string(), id(20), 5, 50)
        .unwrap();
    let r = chain.create_course("CS101".to_string(), "Other".to_string(), id(21), 3, 51);
    assert_eq!(r, Err(AcademicChainError::DuplicateCourse));
}

#[test]
fn create_course_id_over_32_bytes_fails_invalid_course_id() {
    let mut chain = bootstrapped();
    let long_id = "x".repeat(33);
    let r = chain.create_course(long_id, "Name".to_string(), id(20), 5, 50);
    assert_eq!(r, Err(AcademicChainError::InvalidCourseId));
    let edge_id = "x".repeat(32);
    assert!(chain.create_course(edge_id, "Name".to_string(), id(20), 5, 50).is_ok());
}

#[test]
fn create_course_name_over_100_bytes_fails_invalid_course_name() {
    let mut chain = bootstrapped();
    let r = chain.create_course("CS101".to_string(), "n".repeat(101), id(20), 5, 50);
    assert_eq!(r, Err(AcademicChainError::InvalidCourseName));
    assert!(chain.create_course("CS101".to_string(), "n".repeat(100), id(20), 5, 50).is_ok());
}

#[test]
fn create_course_zero_credits_fails_invalid_credits() {
    let mut chain = bootstrapped();
    let r = chain.create_course("CS101".to_string(), "Name".to_string(), id(20), 0, 50);
    assert_eq!(r, Err(AcademicChainError::InvalidCredits));
}

#[test]
fn register_unknown_course_fails_course_not_found() {
    let mut chain = with_funded_student(10);
    let r = chain.register_course(id(1), "CS999".to_string(), 200);
    assert_eq!(r, Err(AcademicChainError::CourseNotFound));
}

#[test]
fn register_inactive_course_fails_course_not_active() {
    let mut chain = with_funded_student(10);
    chain.courses.push(Course {
        course_id: "CS900".to_string(),
        course_name: "Closed".to_string(),
        instructor: id(20),
        required_credits: 1,
        is_active: false,
        created_at: 50,
        bump: 0,
    });
    let r = chain.register_course(id(1), "CS900".to_string(), 200);
    assert_eq!(r, Err(AcademicChainError::CourseNotActive));
}

#[test]
fn register_without_credits_fails_insufficient_credits() {
    let mut chain = with_funded_student(2);
    chain
        .create_course("CS101".to_string(), "Algorithms".to_string(), id(20), 5, 50)
        .unwrap();
    let r = chain.register_course(id(1), "CS101".to_string(), 200);
    assert_eq!(r, Err(AcademicChainError::InsufficientCredits));
}

#[test]
fn register_burns_credits_and_raises_spent_by_same_amount() {
    let mut chain = with_funded_student(10);
    chain
        .create_course("CS101".to_string(), "Algorithms".to_string(), id(20), 5, 50)
        .unwrap();
    let balance_before = chain.credit_balance(&id(1));
    let spent_before = chain.get_profile(&id(1)).unwrap().total_credits_spent;
    chain.register_course(id(1), "CS101".to_string(), 200).unwrap();
    let balance_after = chain.credit_balance(&id(1));
    let spent_after = chain.get_profile(&id(1)).unwrap().total_credits_spent;
    assert_eq!(balance_before - balance_after, 5);
    assert_eq!(spent_after - spent_before, 5);
    let enrollment = chain.get_enrollment(&id(1), &"CS101".to_string()).unwrap();
    assert_eq!(enrollment.student, id(1));
    assert_eq!(enrollment.course_id, "CS101");
    assert_eq!(enrollment.credits_paid, 5);
    assert_eq!(enrollment.enrollment_date, 200);
    assert!(!enrollment.is_completed);
    assert_eq!(enrollment.grade, 0);
    assert!(enrollment.completion_date.is_none());
    assert!(enrollment.certificate_mint.is_none());
}

#[test]
fn register_twice_fails_already_enrolled() {
    let mut chain = with_funded_student(10);
    chain
        .create_course("CS101".to_string(), "Algorithms".to_string(), id(20), 5, 50)
        .unwrap();
    chain.register_course(id(1), "CS101".to_string(), 200).unwrap();
    let r = chain.register_course(id(1), "CS101".to_string(), 201);
    assert_eq!(r, Err(AcademicChainError::AlreadyEnrolled));
}

#[test]
fn register_without_profile_fails_profile_not_found() {
    let mut chain = bootstrapped();
    chain
        .create_course("CS101".to_string(), "Algorithms".to_string(), id(20), 0 + 5, 50)
        .unwrap();
    chain.credits.deposit(&id(3), 5).unwrap();
    let r = chain.register_course(id(3), "CS101".to_string(), 200);
    assert_eq!(r, Err(AcademicChainError::ProfileNotFound));
}

fn enrolled_student() -> AcademicChain {
    let mut chain = with_funded_student(10);
    chain
        .create_course("CS101".to_string(), "Algorithms".to_string(), id(20), 5, 50)
        .unwrap();
    chain.register_course(id(1), "CS101".to_string(), 200).unwrap();
    chain
}

#[test]
fn complete_by_non_instructor_fails_and_leaves_enrollment_unmodified() {
    let mut chain = enrolled_student();
    let r = chain.complete_course(id(21), id(1), "CS101".to_string(), 85, 300);
    assert_eq!(r, Err(AcademicChainError::UnauthorizedInstructor));
    let enrollment = chain.get_enrollment(&id(1), &"CS101".to_string()).unwrap();
    assert!(!enrollment.is_completed);
    assert_eq!(enrollment.grade, 0);
    assert!(enrollment.completion_date.is_none());
}

#[test]
fn complete_with_grade_101_fails_invalid_grade() {
    let mut chain = enrolled_student();
    let r = chain.complete_course(id(20), id(1), "CS101".to_string(), 101, 300);
    assert_eq!(r, Err(AcademicChainError::InvalidGrade));
}

#[test]
fn complete_accepts_grade_bounds_zero_and_hundred() {
    let mut chain = enrolled_student();
    chain
        .create_course("CS102".to_string(), "Proofs".to_string(), id(20), 5, 51)
        .unwrap();
    chain.native.deposit(&id(1), 5 * PRICE).unwrap();
    chain.purchase_credits(id(1), 5, 210).unwrap();
    chain.register_course(id(1), "CS102".to_string(), 220).unwrap();
    assert!(chain.complete_course(id(20), id(1), "CS101".to_string(), 0, 300).is_ok());
    assert!(chain.complete_course(id(20), id(1), "CS102".to_string(), 100, 301).is_ok());
    assert_eq!(chain.get_enrollment(&id(1), &"CS101".to_string()).unwrap().grade, 0);
    assert_eq!(chain.get_enrollment(&id(1), &"CS102".to_string()).unwrap().grade, 100);
}

#[test]
fn complete_records_grade_and_counts_completion() {
    let mut chain = enrolled_student();
    chain.complete_course(id(20), id(1), "CS101".to_string(), 85, 300).unwrap();
    let enrollment = chain.get_enrollment(&id(1), &"CS101".to_string()).unwrap();
    assert!(enrollment.is_completed);
    assert_eq!(enrollment.grade, 85);
    assert_eq!(enrollment.completion_date, Some(300));
    assert_eq!(chain.get_profile(&id(1)).unwrap().courses_completed, 1);
}

#[test]
fn complete_twice_fails_already_completed() {
    let mut chain = enrolled_student();
    chain.complete_course(id(20), id(1), "CS101".to_string(), 85, 300).unwrap();
    let r = chain.complete_course(id(20), id(1), "CS101".to_string(), 90, 301);
    assert_eq!(r, Err(AcademicChainError::AlreadyCompleted));
    assert_eq!(chain.get_enrollment(&id(1), &"CS101".to_string()).unwrap().grade, 85);
    assert_eq!(chain.get_profile(&id(1)).unwrap().courses_completed, 1);
}

#[test]
fn complete_unknown_enrollment_fails_enrollment_not_found() {
    let mut chain = enrolled_student();
    let r = chain.complete_course(id(20), id(2), "CS101".to_string(), 85, 300);
    assert_eq!(r, Err(AcademicChainError::EnrollmentNotFound));
}

#[test]
fn mint_certificate_before_completion_fails_course_not_completed() {
    let mut chain = enrolled_student();
    let r = chain.mint_certificate(id(1), "CS101".to_string(), "uri://cert".to_string());
    assert_eq!(r, Err(AcademicChainError::CourseNotCompleted));
}

#[test]
fn mint_certificate_once_then_fails_certificate_already_minted() {
    let mut chain = enrolled_student();
    chain.complete_course(id(20), id(1), "CS101".to_string(), 85, 300).unwrap();
    let first = chain.mint_certificate(id(1), "CS101".to_string(), "uri://cert".to_string());
    assert_eq!(first, Ok(()));
    assert!(chain.get_enrollment(&id(1), &"CS101".to_string()).unwrap().certificate_mint.is_some());
    let second = chain.mint_certificate(id(1), "CS101".to_string(), "uri://cert".to_string());
    assert_eq!(second, Err(AcademicChainError::CertificateAlreadyMinted));
}

#[test]
fn claim_graduation_requires_enough_completions() {
    let mut chain = enrolled_student();
    let r = chain.claim_graduation(id(1), vec!["CS101".to_string()]);
    assert_eq!(r, Err(AcademicChainError::RequirementsNotMet));
    chain.complete_course(id(20), id(1), "CS101".to_string(), 85, 300).unwrap();
    assert!(chain.claim_graduation(id(1), vec!["CS101".to_string()]).is_ok());
    assert!(chain.get_profile(&id(1)).unwrap().graduation_nft.is_some());
    let again = chain.claim_graduation(id(1), vec!["CS101".to_string()]);
    assert_eq!(again, Err(AcademicChainError::CertificateAlreadyMinted));
}

#[test]
fn claim_graduation_without_profile_fails_profile_not_found() {
    let mut chain = bootstrapped();
    let r = chain.claim_graduation(id(5), vec![]);
    assert_eq!(r, Err(AcademicChainError::ProfileNotFound));
}

#[test]
fn end_to_end_scenario() {
    let student = id(1);
    let instructor = id(20);
    let mut chain = AcademicChain::new(id(9));
    chain.initialize(id(10), id(11), id(12)).unwrap();
    assert_eq!(chain.config.as_ref().unwrap().credit_price, 1_000_000);

    chain.native.deposit(&student, 10 * 1_000_000).unwrap();
    chain.purchase_credits(student, 10, 1000).unwrap();
    assert_eq!(chain.credit_balance(&student), 10);
    assert_eq!(chain.get_profile(&student).unwrap().total_credits_purchased, 10);

    chain
        .create_course("CS101".to_string(), "Intro".to_string(), instructor, 5, 1001)
        .unwrap();

    chain.register_course(student, "CS101".to_string(), 1002).unwrap();
    assert_eq!(chain.credit_balance(&student), 5);
    let enrollment = chain.get_enrollment(&student, &"CS101".to_string()).unwrap();
    assert!(!enrollment.is_completed);

    chain.complete_course(instructor, student, "CS101".to_string(), 85, 1003).unwrap();
    assert_eq!(chain.get_enrollment(&student, &"CS101".to_string()).unwrap().grade, 85);
    assert_eq!(chain.get_profile(&student).unwrap().courses_completed, 1);

    chain.mint_certificate(student, "CS101".to_string(), "uri://cert".to_string()).unwrap();
    assert!(chain.get_enrollment(&student, &"CS101".to_string()).unwrap().certificate_mint.is_some());

    chain.claim_graduation(student, vec!["CS101".to_string()]).unwrap();
    assert!(chain.get_profile(&student).unwrap().graduation_nft.is_some());
}

#[test]
fn create_course_accepts_an_empty_identifier() {
    let mut chain = bootstrapped();
    assert!(chain.create_course(String::new(), "Name".to_string(), id(20), 5, 50).is_ok());
    assert!(chain.get_course(&String::new()).is_some());
}

#[test]
fn claim_graduation_with_no_required_courses_succeeds_for_any_profile() {
    let mut chain = with_funded_student(1);
    assert!(chain.claim_graduation(id(1), vec![]).is_ok());
}

#[test]
fn records_carry_the_derived_nonces_and_markers() {
    let program = id(9);
    let student = id(1);
    let mut chain = enrolled_student();
    chain.complete_course(id(20), student, "CS101".to_string(), 85, 300).unwrap();
    chain.mint_certificate(student, "CS101".to_string(), "uri://cert".to_string()).unwrap();
    chain.claim_graduation(student, vec!["CS101".to_string()]).unwrap();

    assert_eq!(chain.config.as_ref().unwrap().bump, config_address(&program).1);
    let course_id = "CS101".to_string();
    assert_eq!(chain.get_course(&course_id).unwrap().bump, course_address(&course_id, &program).1);
    let enrollment = chain.get_enrollment(&student, &course_id).unwrap();
    assert_eq!(enrollment.bump, enrollment_address(&student, &course_id, &program).1);
    assert_eq!(
        enrollment.certificate_mint.unwrap(),
        certificate_mint_address(&student, &course_id, &program).0
    );
    let profile = chain.get_profile(&student).unwrap();
    assert_eq!(profile.bump, student_profile_address(&student, &program).1);
    assert_eq!(
        profile.graduation_nft.unwrap(),
        graduation_mint_address(&student, &program).0
    );
}

#[test]
fn operations_of_one_student_leave_another_untouched() {
    let mut chain = with_funded_student(10);
    chain.native.deposit(&id(2), 3 * PRICE).unwrap();
    chain.purchase_credits(id(2), 3, 110).unwrap();
    chain
        .create_course("CS101".to_string(), "Algorithms".to_string(), id(20), 5, 50)
        .unwrap();
    chain.register_course(id(1), "CS101".to_string(), 200).unwrap();
    assert_eq!(chain.credit_balance(&id(2)), 3);
    let other = chain.get_profile(&id(2)).unwrap();
    assert_eq!(other.total_credits_purchased, 3);
    assert_eq!(other.total_credits_spent, 0);
    assert!(chain.get_enrollment(&id(2), &"CS101".to_string()).is_none());
}
