//! The keypair service: generate a signing/verifying keypair for a
//! requested scheme, backed by two freshly allocated persistent objects.
//! The private half's bytes stay inside the service and its backing
//! object; the public half's bytes are meant to be published.

use vstd::prelude::*;
use crate::abi::ObjectCreateSpec;
use crate::abi::ObjectId;
use crate::crypto::ecdsa_public_key;
use crate::crypto::ecdsa_sk_ok;
use crate::crypto::ecdsa_vk_of;
use crate::crypto::random_bytes_32;
use crate::store::ObjectStore;
use crate::token::SigningScheme;

verus! {

broadcast use vstd::map::group_map_axioms;

/// Which half of a keypair an error is about.
#[derive(Clone, Copy, Debug, PartialEq, Eq, Structural)]
pub enum KeyHalf {
    /// The private, signing half.
    Signing,
    /// The public, verifying half.
    Verifying,
}

/// A failure of keypair generation.
#[derive(Clone, Copy, Debug, PartialEq, Eq, Structural)]
pub enum KeyError {
    /// The requested signature scheme has no adapter.
    UnsupportedScheme,
    /// The named half's backing object could not be allocated; nothing
    /// was left behind.
    AllocationFailed(KeyHalf),
    /// The entropy source failed or produced unusable key material.
    RandomSourceFailed,
}

/// The private half of a keypair: scalar bytes and the scheme they belong
/// to.  The bytes never leave through this type; only signing uses them.
pub struct SigningKey {
    bytes: Vec<u8>,
    scheme: SigningScheme,
}

impl SigningKey {
    /// The key's bytes, visible to specifications only.
    pub closed spec fn spec_bytes(&self) -> Seq<u8> {
        self.bytes@
    }

    pub closed spec fn spec_scheme(&self) -> SigningScheme {
        self.scheme
    }

    /// Import private key material, an explicit operation; nothing checks
    /// the bytes here, and signing fails later when they are unusable.
    pub fn from_bytes(bytes: Vec<u8>, scheme: SigningScheme) -> (r: SigningKey)
        ensures
            r.spec_bytes() == bytes@,
            r.spec_scheme() == scheme,
    {
        SigningKey { bytes, scheme }
    }

    pub fn scheme(&self) -> (r: SigningScheme)
        ensures
            r == self.spec_scheme(),
    {
        self.scheme
    }

    pub(crate) fn raw_bytes(&self) -> (r: &Vec<u8>)
        ensures
            r@ == self.spec_bytes(),
    {
        &self.bytes
    }
}

/// The public half of a keypair: SEC1 point bytes and their scheme.  The
/// bytes are meant to be published and embedded by relying parties.
pub struct VerifyingKey {
    bytes: Vec<u8>,
    scheme: SigningScheme,
}

impl VerifyingKey {
    pub closed spec fn spec_bytes(&self) -> Seq<u8> {
        self.bytes@
    }

    pub closed spec fn spec_scheme(&self) -> SigningScheme {
        self.scheme
    }

    /// Import published public key bytes.
    pub fn from_bytes(bytes: Vec<u8>, scheme: SigningScheme) -> (r: VerifyingKey)
        ensures
            r.spec_bytes() == bytes@,
            r.spec_scheme() == scheme,
    {
        VerifyingKey { bytes, scheme }
    }

    pub fn scheme(&self) -> (r: SigningScheme)
        ensures
            r == self.spec_scheme(),
    {
        self.scheme
    }

    /// Export the public key bytes.
    pub fn bytes(&self) -> (r: &Vec<u8>)
        ensures
            r@ == self.spec_bytes(),
    {
        &self.bytes
    }
}

/// The signing half as returned by the service: the key material together
/// with the identifier of its backing object.
pub struct SigningKeyObject {
    pub id: ObjectId,
    pub base: SigningKey,
}

impl SigningKeyObject {
    /// The stable addressing handle of the key material.
    pub fn base(&self) -> (r: &SigningKey)
        ensures
            r == &self.base,
    {
        &self.base
    }
}

/// The verifying half as returned by the service.
pub struct VerifyingKeyObject {
    pub id: ObjectId,
    pub base: VerifyingKey,
}

impl VerifyingKeyObject {
    /// The stable addressing handle of the published key bytes.
    pub fn base(&self) -> (r: &VerifyingKey)
        ensures
            r == &self.base,
    {
        &self.base
    }
}

impl SigningKey {
    /// Generate a keypair for `scheme`, allocating two backing objects in
    /// `store` (one per half) and writing each half into its object.
    ///
    /// On success the two backing objects are fresh and distinct, the
    /// signing half is well-formed key material, and the verifying half is
    /// exactly the public key derived from it.  On any failure the store's
    /// contents are as before: a half-allocated pair is rolled back, and
    /// an allocation error names the half whose backing object failed.
    /// The scheme is checked first: any scheme without an adapter is
    /// refused with `UnsupportedScheme`, and no error other than the
    /// three listed ones is ever produced.
    pub fn new_keypair(
        scheme: &SigningScheme,
        create_spec: ObjectCreateSpec,
        store: &mut ObjectStore,
    ) -> (r: Result<(SigningKeyObject, VerifyingKeyObject), KeyError>)
        requires
            old(store).wf(),
        ensures
            final(store).wf(),
            r matches Ok(pair) ==> {
                &&& pair.0.base.spec_scheme() == *scheme
                &&& pair.1.base.spec_scheme() == *scheme
                &&& ecdsa_sk_ok(pair.0.base.spec_bytes())
                &&& pair.1.base.spec_bytes() == ecdsa_vk_of(pair.0.base.spec_bytes())
                &&& pair.0.id.raw != pair.1.id.raw
                &&& !old(store).contents().contains_key(pair.0.id.raw)
                &&& !old(store).contents().contains_key(pair.1.id.raw)
                &&& final(store).contents() == old(store).contents().insert(
                    pair.0.id.raw,
                    pair.0.base.spec_bytes(),
                ).insert(pair.1.id.raw, pair.1.base.spec_bytes())
            },
            r is Err ==> final(store).contents() == old(store).contents(),
            r == Err::<(SigningKeyObject, VerifyingKeyObject), KeyError>(KeyError::UnsupportedScheme)
                <==> *scheme != SigningScheme::Ecdsa,
            old(store).spec_full() ==> r is Err,
            r == Err::<(SigningKeyObject, VerifyingKeyObject), KeyError>(
                KeyError::AllocationFailed(KeyHalf::Signing),
            ) ==> old(store).spec_full(),
    {
        match scheme {
            SigningScheme::Ecdsa => (),
            SigningScheme::Ed25519 => {
                return Err(KeyError::UnsupportedScheme);
            },
        }
        let seed = match random_bytes_32() {
            Some(seed) => seed,
            None => {
                return Err(KeyError::RandomSourceFailed);
            },
        };
        let vk_bytes = match ecdsa_public_key(&seed) {
            Some(vk_bytes) => vk_bytes,
            None => {
                return Err(KeyError::RandomSourceFailed);
            },
        };
        let sk_id = match store.create(&create_spec) {
            Ok(id) => id,
            Err(_) => {
                return Err(KeyError::AllocationFailed(KeyHalf::Signing));
            },
        };
        match store.write(sk_id, &seed) {
            Ok(()) => (),
            Err(_) => {
                return vstd::pervasive::unreached();
            },
        }
        let vk_id = match store.create(&create_spec) {
            Ok(id) => id,
            Err(_) => {
                // Roll the half-made pair back: no orphaned private key
                // material survives an allocation failure.
                store.delete(sk_id);
                proof {
                    assert(store.contents() =~= old(store).contents());
                }
                return Err(KeyError::AllocationFailed(KeyHalf::Verifying));
            },
        };
        match store.write(vk_id, &vk_bytes) {
            Ok(()) => (),
            Err(_) => {
                return vstd::pervasive::unreached();
            },
        }
        let sko = SigningKeyObject {
            id: sk_id,
            base: SigningKey { bytes: seed, scheme: SigningScheme::Ecdsa },
        };
        let vko = VerifyingKeyObject {
            id: vk_id,
            base: VerifyingKey { bytes: vk_bytes, scheme: SigningScheme::Ecdsa },
        };
        proof {
            assert(store.contents() =~= old(store).contents().insert(
                sko.id.raw,
                sko.base.spec_bytes(),
            ).insert(vko.id.raw, vko.base.spec_bytes()));
        }
        Ok((sko, vko))
    }
}

} // verus!
