//! Capability-based access control for a persistent-object system.
//!
//! A capability is a signed token binding a target object, an accessor,
//! a permission mask, a revocation epoch, and a gate table to a signature
//! over a canonical byte encoding of those fields.  Construction and
//! verification of tokens, the keypair service backing them, the
//! revocation registry, and gate tables live here, together with the
//! path arithmetic used by the toolchain tooling around the system.

pub mod abi;
pub mod token;
pub mod wire;
pub mod crypto;
pub mod store;
pub mod keys;
pub mod registry;
pub mod cap;
pub mod pathfinding;
pub mod tagging;
