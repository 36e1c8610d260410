//! Allocation of unique lucky numbers to paying participants.
//!
//! Each participant pays a fixed price into a treasury and receives a number
//! in `0..DOMAIN_SIZE` that it does not hold yet; a global counter caps the
//! total number of allocations, and only the administrator may drain the
//! treasury.
pub mod entropy;
pub mod errors;
pub mod instructions;
pub mod resolver;
pub mod state;
