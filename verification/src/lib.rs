//! A permissioned registry of non-fungible certification records.
//!
//! The registry issues, queries, and invalidates certification tokens kept in
//! a token ledger. Every rule of the registry — who may mint, transfer, and
//! invalidate, how validity is encoded in a token's payload, and how
//! configuration and fund withdrawal are bounded — is stated as a contract
//! and proved. The execution environment (caller identity, attached deposit,
//! balance and storage accounting) enters each operation as an explicit
//! argument, so every decision the registry takes is verified for every
//! environment it can meet.

pub mod codec;
pub mod contract;
pub mod errors;
pub mod identity;
pub mod laws;
pub mod ledger;
