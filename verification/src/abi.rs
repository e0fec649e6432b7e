//! The data model shared with the persistent-object substrate: object
//! identifiers, raw permission masks, and the parameters of an object
//! creation request.

use vstd::prelude::*;

verus! {

/// Opaque, globally unique, fixed-width identifier of a persistent object.
#[derive(Clone, Copy, Debug, PartialEq, Eq, Structural)]
pub struct ObjectId {
    pub raw: u128,
}

impl ObjectId {
    pub fn new(raw: u128) -> (r: ObjectId)
        ensures
            r.raw == raw,
    {
        ObjectId { raw }
    }
}

/// Permission bit for reading the protected object.
pub const PROT_READ: u64 = 0x1;

/// Permission bit for writing the protected object.
pub const PROT_WRITE: u64 = 0x2;

/// Permission bit for executing code in the protected object.
pub const PROT_EXEC: u64 = 0x4;

/// Permission bit for deleting the protected object.
pub const PROT_DELETE: u64 = 0x8;

/// Mask of every defined permission bit.
pub const PROT_ALL_MASK: u64 = 0xf;

/// A bitmask of capability-independent permission bits, one machine word
/// wide.  The empty mask (no access) and the full mask (unrestricted) are
/// both meaningful values.
#[derive(Clone, Copy, Debug, PartialEq, Eq, Structural)]
pub struct Protections {
    pub mask: u64,
}

impl Protections {
    pub fn new(mask: u64) -> (r: Protections)
        ensures
            r.mask == mask,
    {
        Protections { mask }
    }

    /// The mask granting no access at all.
    pub fn empty() -> (r: Protections)
        ensures
            r.mask == 0,
    {
        Protections { mask: 0 }
    }

    /// The mask granting every defined permission.
    pub fn all() -> (r: Protections)
        ensures
            r.mask == PROT_ALL_MASK,
    {
        Protections { mask: PROT_ALL_MASK }
    }

    /// Combine two masks; the result grants what either grants.
    pub fn union(&self, other: &Protections) -> (r: Protections)
        ensures
            r.mask == self.mask | other.mask,
    {
        Protections { mask: self.mask | other.mask }
    }

    /// Restrict to the permissions both masks grant.
    pub fn intersect(&self, other: &Protections) -> (r: Protections)
        ensures
            r.mask == self.mask & other.mask,
    {
        Protections { mask: self.mask & other.mask }
    }

    /// Whether every bit of `bits` is granted by this mask.
    pub fn contains(&self, bits: u64) -> (r: bool)
        ensures
            r == (self.mask & bits == bits),
    {
        self.mask & bits == bits
    }
}

impl Default for Protections {
    /// The default mask grants nothing.
    fn default() -> (r: Protections)
        ensures
            r.mask == 0,
    {
        Protections { mask: 0 }
    }
}

/// Lifetime of a backing object: reclaimed at session end, or surviving
/// process exit.
#[derive(Clone, Copy, Debug, PartialEq, Eq, Structural)]
pub enum LifetimeType {
    Volatile,
    Persistent,
}

/// Parameters of an object creation request handed to the storage
/// substrate: the backing object's lifetime and its protection flags.
#[derive(Clone, Copy, Debug, PartialEq, Eq, Structural)]
pub struct ObjectCreateSpec {
    pub lifetime: LifetimeType,
    pub prot: Protections,
}

impl ObjectCreateSpec {
    pub fn new(lifetime: LifetimeType, prot: Protections) -> (r: ObjectCreateSpec)
        ensures
            r.lifetime == lifetime,
            r.prot == prot,
    {
        ObjectCreateSpec { lifetime, prot }
    }
}

impl Default for ObjectCreateSpec {
    /// By default a backing object is volatile and inaccessible to others.
    fn default() -> (r: ObjectCreateSpec)
        ensures
            r.lifetime == LifetimeType::Volatile,
            r.prot.mask == 0,
    {
        ObjectCreateSpec { lifetime: LifetimeType::Volatile, prot: Protections { mask: 0 } }
    }
}

} // verus!
