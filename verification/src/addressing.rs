//! The deterministic address resolver.
//!
//! Every record's address is derived from a namespace tag plus key
//! material, together with a disambiguation nonce ("bump") chosen by the
//! derivation so that the address is usable.  The derivation is a pure
//! function: the same seeds and program identity always yield the same
//! address and nonce, which is what lets any party locate a record
//! without a registry.

use crate::identity::Identity;
use crate::state::str_bytes;
use vstd::prelude::*;
use vstd::slice::slice_to_vec;
use vstd::string::StrSliceExecFns;

verus! {

/// The address and disambiguation nonce that the host derivation yields
/// for the given seeds and program identity.
pub uninterp spec fn derived_address(seeds: Seq<Seq<u8>>, program: Seq<u8>) -> (Seq<u8>, u8);

/// Relies on `anchor_lang::derive_program_address` (const_crypto's
/// SHA-256 derivation): the address and nonce it returns depend on the
/// seeds and the program identity alone.  Assumes, as every deployment
/// does, that a usable nonce exists for the given seeds.
#[verifier::external_body]
fn derive_pda(seeds: &Vec<Vec<u8>>, program: &Identity) -> (r: ([u8; 32], u8))
    ensures
        (r.0@, r.1) == derived_address(seeds.deep_view(), program.bytes@),
{
    let refs: Vec<&[u8]> = seeds.iter().map(|s| s.as_slice()).collect();
    anchor_lang::derive_program_address(&refs, &program.bytes)
}

/// Seeds of the singleton configuration record.
pub open spec fn config_seeds() -> Seq<Seq<u8>> {
    seq![str_bytes("config"@)]
}

/// Seeds of the course record keyed by `course_id`.
pub open spec fn course_seeds(course_id: Seq<char>) -> Seq<Seq<u8>> {
    seq![str_bytes("course"@), str_bytes(course_id)]
}

/// Seeds of the enrollment record keyed by student and course.
pub open spec fn enrollment_seeds(student: Identity, course_id: Seq<char>) -> Seq<Seq<u8>> {
    seq![str_bytes("enrollment"@), student.bytes@, str_bytes(course_id)]
}

/// Seeds of the profile record keyed by student.
pub open spec fn student_profile_seeds(student: Identity) -> Seq<Seq<u8>> {
    seq![str_bytes("student_profile"@), student.bytes@]
}

/// Seeds of the certificate marker for one completed enrollment.
pub open spec fn certificate_mint_seeds(student: Identity, course_id: Seq<char>) -> Seq<Seq<u8>> {
    seq![str_bytes("certificate_mint"@), student.bytes@, str_bytes(course_id)]
}

/// Seeds of the graduation marker for one student.
pub open spec fn graduation_mint_seeds(student: Identity) -> Seq<Seq<u8>> {
    seq![str_bytes("graduation_mint"@), student.bytes@]
}

/// Address and nonce of the configuration record.
pub fn config_address(program: &Identity) -> (r: (Identity, u8))
    ensures
        (r.0.bytes@, r.1) == derived_address(config_seeds(), program.bytes@),
{
    let mut seeds: Vec<Vec<u8>> = Vec::new();
    seeds.push("config".as_bytes_vec());
    proof {
        assert(seeds.deep_view() =~~= config_seeds());
    }
    let (addr, bump) = derive_pda(&seeds, program);
    (Identity::new(addr), bump)
}

/// Address and nonce of the course record for `course_id`.
pub fn course_address(course_id: &String, program: &Identity) -> (r: (Identity, u8))
    ensures
        (r.0.bytes@, r.1) == derived_address(course_seeds(course_id@), program.bytes@),
{
    let mut seeds: Vec<Vec<u8>> = Vec::new();
    seeds.push("course".as_bytes_vec());
    seeds.push(course_id.as_str().as_bytes_vec());
    proof {
        assert(seeds.deep_view() =~~= course_seeds(course_id@));
    }
    let (addr, bump) = derive_pda(&seeds, program);
    (Identity::new(addr), bump)
}

/// Address and nonce of the enrollment record for `student` in `course_id`.
pub fn enrollment_address(student: &Identity, course_id: &String, program: &Identity) -> (r: (
    Identity,
    u8,
))
    ensures
        (r.0.bytes@, r.1) == derived_address(
            enrollment_seeds(*student, course_id@),
            program.bytes@,
        ),
{
    let mut seeds: Vec<Vec<u8>> = Vec::new();
    seeds.push("enrollment".as_bytes_vec());
    seeds.push(slice_to_vec(student.bytes.as_slice()));
    seeds.push(course_id.as_str().as_bytes_vec());
    proof {
        assert(seeds.deep_view() =~~= enrollment_seeds(*student, course_id@));
    }
    let (addr, bump) = derive_pda(&seeds, program);
    (Identity::new(addr), bump)
}

/// Address and nonce of the profile record for `student`.
pub fn student_profile_address(student: &Identity, program: &Identity) -> (r: (Identity, u8))
    ensures
        (r.0.bytes@, r.1) == derived_address(student_profile_seeds(*student), program.bytes@),
{
    let mut seeds: Vec<Vec<u8>> = Vec::new();
    seeds.push("student_profile".as_bytes_vec());
    seeds.push(slice_to_vec(student.bytes.as_slice()));
    proof {
        assert(seeds.deep_view() =~~= student_profile_seeds(*student));
    }
    let (addr, bump) = derive_pda(&seeds, program);
    (Identity::new(addr), bump)
}

/// Address and nonce of the certificate marker for `student` in `course_id`.
pub fn certificate_mint_address(student: &Identity, course_id: &String, program: &Identity) -> (r: (
    Identity,
    u8,
))
    ensures
        (r.0.bytes@, r.1) == derived_address(
            certificate_mint_seeds(*student, course_id@),
            program.bytes@,
        ),
{
    let mut seeds: Vec<Vec<u8>> = Vec::new();
    seeds.push("certificate_mint".as_bytes_vec());
    seeds.push(slice_to_vec(student.bytes.as_slice()));
    seeds.push(course_id.as_str().as_bytes_vec());
    proof {
        assert(seeds.deep_view() =~~= certificate_mint_seeds(*student, course_id@));
    }
    let (addr, bump) = derive_pda(&seeds, program);
    (Identity::new(addr), bump)
}

/// Address and nonce of the graduation marker for `student`.
pub fn graduation_mint_address(student: &Identity, program: &Identity) -> (r: (Identity, u8))
    ensures
        (r.0.bytes@, r.1) == derived_address(graduation_mint_seeds(*student), program.bytes@),
{
    let mut seeds: Vec<Vec<u8>> = Vec::new();
    seeds.push("graduation_mint".as_bytes_vec());
    seeds.push(slice_to_vec(student.bytes.as_slice()));
    proof {
        assert(seeds.deep_view() =~~= graduation_mint_seeds(*student));
    }
    let (addr, bump) = derive_pda(&seeds, program);
    (Identity::new(addr), bump)
}

/// Resolving the address for the same namespace and key material twice
/// always yields the same identifier and nonce: the derivation is a pure
/// function of the seeds and the program identity.
pub proof fn lemma_addressing_deterministic(
    r1: (Seq<u8>, u8),
    r2: (Seq<u8>, u8),
    seeds: Seq<Seq<u8>>,
    program: Seq<u8>,
)
    requires
        r1 == derived_address(seeds, program),
        r2 == derived_address(seeds, program),
    ensures
        r1 == r2,
{
}

} // verus!
