use academic_chain::addressing::{
    certificate_mint_address, config_address, course_address, enrollment_address,
    graduation_mint_address, student_profile_address,
};
use academic_chain::identity::Identity;

fn id(b: u8) -> Identity {
    Identity::new([b; 32])
}

#[test]
fn resolving_the_same_key_twice_yields_the_same_address() {
    let program = id(9);
    let first = course_address(&"CS101".to_string(), &program);
    let second = course_address(&"CS101".to_string(), &program);
    assert_eq!(first.0, second.0);
    assert_eq!(first.1, second.1);
}

#[test]
fn different_keys_yield_different_addresses() {
    let program = id(9);
    let a = course_address(&"CS101".to_string(), &program);
    let b = course_address(&"CS102".to_string(), &program);
    assert_ne!(a.0, b.0);
}

#[test]
fn derived_addresses_are_not_the_key_material() {
    let program = id(9);
    let (address, _bump) = course_address(&"CS101".to_string(), &program);
    assert_ne!(address, program);
    assert_ne!(&address.bytes[..5], b"CS101");
}

#[test]
fn namespaces_separate_records_with_the_same_key_material() {
    let program = id(9);
    let student = id(1);
    let enrollment = enrollment_address(&student, &"CS101".to_string(), &program);
    let certificate = certificate_mint_address(&student, &"CS101".to_string(), &program);
    let profile = student_profile_address(&student, &program);
    let graduation = graduation_mint_address(&student, &program);
    assert_ne!(enrollment.0, certificate.0);
    assert_ne!(profile.0, graduation.0);
}

#[test]
fn config_address_depends_on_the_program() {
    let a = config_address(&id(9));
    let b = config_address(&id(8));
    assert_ne!(a.0, b.0);
    let again = config_address(&id(9));
    assert_eq!(a.0, again.0);
    assert_eq!(a.1, again.1);
}
