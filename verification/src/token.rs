//! The fields a capability binds besides the two object identifiers: the
//! digest algorithm tag, the signature scheme tag, the revocation value
//! fixed at mint time, and the table of permitted cross-domain gates.

use vstd::prelude::*;

verus! {

/// Tag of the digest function used to hash the canonical encoding before
/// signing.  The wire discriminant of each variant is frozen by
/// [`spec_algo_tag`]; adding a variant must not renumber existing ones.
#[derive(Clone, Copy, Debug, PartialEq, Eq, Structural)]
pub enum HashingAlgo {
    Sha256,
    Sha512,
}

/// The frozen one-byte wire discriminant of a digest algorithm tag.
pub open spec fn spec_algo_tag(algo: HashingAlgo) -> u8 {
    match algo {
        HashingAlgo::Sha256 => 0,
        HashingAlgo::Sha512 => 1,
    }
}

/// The one-byte wire discriminant of a digest algorithm tag.
pub fn algo_tag(algo: HashingAlgo) -> (r: u8)
    ensures
        r == spec_algo_tag(algo),
{
    match algo {
        HashingAlgo::Sha256 => 0,
        HashingAlgo::Sha512 => 1,
    }
}

/// Distinct algorithm tags have distinct wire discriminants, so the tag
/// byte of the canonical encoding identifies the algorithm.
pub proof fn lemma_algo_tag_injective(a: HashingAlgo, b: HashingAlgo)
    requires
        spec_algo_tag(a) == spec_algo_tag(b),
    ensures
        a == b,
{
}

/// Tag of the signature algorithm family that authenticated a capability.
/// A capability records its scheme so that verification selects the right
/// adapter instead of inferring it from key length.
#[derive(Clone, Copy, Debug, PartialEq, Eq, Structural)]
pub enum SigningScheme {
    Ecdsa,
    Ed25519,
}

/// The frozen one-byte wire discriminant of a signature scheme tag.
pub open spec fn spec_scheme_tag(scheme: SigningScheme) -> u8 {
    match scheme {
        SigningScheme::Ecdsa => 0,
        SigningScheme::Ed25519 => 1,
    }
}

/// The one-byte wire discriminant of a signature scheme tag.
pub fn scheme_tag(scheme: SigningScheme) -> (r: u8)
    ensures
        r == spec_scheme_tag(scheme),
{
    match scheme {
        SigningScheme::Ecdsa => 0,
        SigningScheme::Ed25519 => 1,
    }
}

/// The revocation value embedded in a capability at mint time.  The token
/// stays valid while this value is at least the issuer's currently
/// published epoch; the issuer only ever raises its epoch.
#[derive(Clone, Copy, Debug, PartialEq, Eq, Structural)]
pub struct Revoc {
    pub value: u64,
}

impl Revoc {
    pub fn new(value: u64) -> (r: Revoc)
        ensures
            r.value == value,
    {
        Revoc { value }
    }
}

impl Default for Revoc {
    /// The default embedded value is the initial issuer epoch, so a token
    /// minted with it is revoked by the issuer's first epoch advance.
    fn default() -> (r: Revoc)
        ensures
            r.value == 0,
    {
        Revoc { value: 0 }
    }
}

/// The allow-list of entry points a capability authorizes crossing into
/// from another protection domain.  It is fixed at mint time; an empty
/// table authorizes no cross-domain call at all.
#[derive(Clone, Debug)]
pub struct Gates {
    pub entries: Vec<u64>,
}

impl View for Gates {
    type V = Seq<u64>;

    open spec fn view(&self) -> Seq<u64> {
        self.entries@
    }
}

impl Gates {
    pub fn new(entries: Vec<u64>) -> (r: Gates)
        ensures
            r@ == entries@,
    {
        Gates { entries }
    }

    /// Membership test: whether a cross-domain call to `entry_id` is
    /// authorized by this table.
    pub fn permits(&self, entry_id: u64) -> (r: bool)
        ensures
            r == self@.contains(entry_id),
    {
        let mut i: usize = 0;
        while i < self.entries.len()
            invariant
                i <= self.entries.len(),
                forall|j: int| 0 <= j < i ==> self.entries@[j] != entry_id,
            decreases self.entries.len() - i,
        {
            if self.entries[i] == entry_id {
                assert(self@[i as int] == entry_id);
                return true;
            }
            i = i + 1;
        }
        false
    }

    pub fn len(&self) -> (r: usize)
        ensures
            r == self@.len(),
    {
        self.entries.len()
    }
}

impl Default for Gates {
    /// The default table is empty: no cross-domain call is authorized.
    fn default() -> (r: Gates)
        ensures
            r@ == Seq::<u64>::empty(),
    {
        Gates { entries: Vec::new() }
    }
}

} // verus!
