//! Core of a confidential-balance token ledger: the byte layout of mint and
//! account records, the wire format of the operations that change them, and
//! the record transitions those operations are allowed to make.
//!
//! Balances are never stored in the clear. An account holds a commitment to
//! its balance, and the operations that move value carry a proof payload that
//! a separate verifier checks. This crate treats both as opaque bytes; what it
//! pins down is the boundary between untrusted input bytes and structured
//! ledger state.

pub mod error;
pub mod instruction;
pub mod payload;
pub mod pubkey;
pub mod state;
pub mod sysvar;
pub mod wire;
