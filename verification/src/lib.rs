//! Verified core of the Simplex SDK: the SimplicityHL type and value model,
//! witness injection, Rust bindings generation for contracts, and the
//! arithmetic of taproot trees and fees.
pub mod text;
pub mod hl_type;
pub mod hl_value;
pub mod wtns_error;
pub mod wtns_injector;
pub mod rust_type;
pub mod codegen;
pub mod names;
pub mod bindings;
pub mod generator;
pub mod program;
pub mod signer;
pub mod contract_id;
pub mod enum_types;
pub mod abi;
