//! An academic-credit economy and course-credential state machine.
//!
//! Actors purchase fungible credits with native currency, spend them to
//! enroll in courses, have completion recorded by the course instructor,
//! and receive certificate and graduation markers once the conditions are
//! met.  Records live in a store keyed by deterministic addresses derived
//! from a namespace tag and key material.

pub mod addressing;
pub mod chain;
pub mod constants;
pub mod eduapp;
pub mod ledger;
pub mod errors;
pub mod identity;
pub mod state;
pub mod token_operations;
pub mod validations;
