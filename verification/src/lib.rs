//! Coordination core of a multi-party trusted-setup ceremony.
//!
//! The library holds the verified heart of a long-running coordinator: the
//! authenticated request pipeline that gates every mutating operation, the
//! round/queue state machine that orders contributors, the cohort token store
//! with its update guard, and the object-store key schema and retry policy.
//! HTTP plumbing, object-store I/O and persistence live outside the library
//! and hand it plain values.

pub mod archive;
pub mod authentication;
pub mod coordinator;
pub mod crypto;
pub mod decimal;
pub mod errors;
pub mod headers;
pub mod objects;
pub mod participant;
pub mod rest;
pub mod s3;
pub mod tokens;
