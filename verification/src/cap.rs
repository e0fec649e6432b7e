//! The capability token: construction signs the canonical encoding of the
//! bound fields, verification recomputes that encoding and checks the
//! signature, then revocation, then gates.  That ordering is
//! deliberate: nothing after the signature check runs for a token that is
//! not authentic, so attacker-controlled bytes cannot steer which failure
//! a caller observes before authenticity is settled.

use vstd::prelude::*;
use crate::abi::ObjectId;
use crate::abi::Protections;
use crate::crypto::digest_select;
use crate::crypto::ecdsa_accepts;
use crate::crypto::ecdsa_sig_of;
use crate::crypto::ecdsa_sign;
use crate::crypto::ecdsa_signing_ok;
use crate::crypto::ecdsa_sk_ok;
use crate::crypto::ecdsa_verify;
use crate::crypto::ecdsa_vk_of;
use crate::crypto::spec_digest_of;
use crate::keys::SigningKey;
use crate::keys::VerifyingKey;
use crate::token::Gates;
use crate::token::HashingAlgo;
use crate::token::Revoc;
use crate::token::SigningScheme;
use crate::token::scheme_tag;
use crate::token::spec_algo_tag;
use crate::token::spec_scheme_tag;
use crate::wire::canonical_encode;
use crate::wire::gate_list_bytes;
use crate::wire::le_bytes_128;
use crate::wire::le_bytes_64;
use crate::wire::lemma_canonical_injective;
use crate::wire::lemma_canonical_parts;
use crate::wire::lemma_gate_list_bytes_push;
use crate::wire::lemma_le_bytes_128_injective;
use crate::wire::lemma_le_bytes_64_injective;
use crate::wire::lemma_subrange_concat;
use crate::wire::read_le_128;
use crate::wire::read_le_64;
use crate::wire::spec_canonical_bytes;

verus! {

/// A failure of capability construction.
#[derive(Clone, Copy, Debug, PartialEq, Eq, Structural)]
pub enum CapError {
    /// The digest algorithm is not usable with the key's scheme.
    UnsupportedAlgo,
    /// The signing key's scheme has no adapter.
    UnsupportedScheme,
    /// The key material is unreadable or scheme-level signing failed.
    SigningFailed,
}

/// A failure of capability verification; each outcome is distinct so that
/// callers can audit a forged token differently from a revoked or
/// gate-limited authentic one.
#[derive(Clone, Copy, Debug, PartialEq, Eq, Structural)]
pub enum VerifyError {
    /// The signature does not authenticate the token's fields under the
    /// supplied key.
    BadSignature,
    /// The token is authentic but its embedded revocation value is behind
    /// the issuer's published epoch.
    Revoked,
    /// The token is authentic and current, but does not authorize the
    /// requested cross-domain entry point.
    GateDenied,
}

/// The signed capability token.  It is immutable once minted; revocation
/// happens in the registry, never by rewriting the token.
#[derive(Clone, Debug)]
pub struct Cap {
    pub target: ObjectId,
    pub accessor: ObjectId,
    pub protections: Protections,
    pub revocation: Revoc,
    pub gates: Gates,
    pub algo: HashingAlgo,
    pub scheme: SigningScheme,
    pub signature: Vec<u8>,
}

/// Which digest algorithms each scheme's adapter signs: the ECDSA P-256
/// adapter takes 256-bit digests, matching its curve size.
pub open spec fn spec_scheme_supports(scheme: SigningScheme, algo: HashingAlgo) -> bool {
    scheme == SigningScheme::Ecdsa && algo == HashingAlgo::Sha256
}

/// The bytes a capability's signature is computed over: the digest, under
/// the token's own algorithm tag, of the canonical encoding of its bound
/// fields.
pub open spec fn spec_cap_message(cap: Cap) -> Seq<u8> {
    spec_digest_of(
        cap.algo,
        spec_canonical_bytes(
            cap.target,
            cap.accessor,
            cap.protections,
            cap.revocation,
            cap.gates@,
            cap.algo,
        ),
    )
}

/// Whether the token's signature authenticates its fields under the given
/// verifying key: the recorded scheme has an adapter, the key carries the
/// same scheme tag, and the adapter accepts the signature over the
/// recomputed message.
pub open spec fn spec_sig_authentic(cap: Cap, vk: &VerifyingKey) -> bool {
    &&& cap.scheme == SigningScheme::Ecdsa
    &&& vk.spec_scheme() == cap.scheme
    &&& ecdsa_accepts(vk.spec_bytes(), spec_cap_message(cap), cap.signature@)
}

/// The outcome of a full access check at a given published epoch, for an
/// in-domain access (`None`) or a cross-domain call to an entry point
/// (`Some`): signature first, then revocation, then gates.
pub open spec fn spec_access_outcome(
    cap: Cap,
    vk: &VerifyingKey,
    current_epoch: u64,
    call: Option<u64>,
) -> Result<(), VerifyError> {
    if !spec_sig_authentic(cap, vk) {
        Err(VerifyError::BadSignature)
    } else if cap.revocation.value < current_epoch {
        Err(VerifyError::Revoked)
    } else if (match call {
        Some(entry) => !cap.gates@.contains(entry),
        None => false,
    }) {
        Err(VerifyError::GateDenied)
    } else {
        Ok(())
    }
}

/// Whether a token is one that `Cap::new` can have minted with this
/// signing key: the schemes agree, and the signature verifies under the
/// public key derived from the key's own bytes.
pub open spec fn spec_minted(cap: Cap, sk: &SigningKey) -> bool {
    &&& cap.scheme == sk.spec_scheme()
    &&& cap.scheme == SigningScheme::Ecdsa
    &&& ecdsa_accepts(ecdsa_vk_of(sk.spec_bytes()), spec_cap_message(cap), cap.signature@)
}

/// Whether a verifying key is the published half of a signing key.
pub open spec fn spec_keypair_matched(sk: &SigningKey, vk: &VerifyingKey) -> bool {
    &&& vk.spec_bytes() == ecdsa_vk_of(sk.spec_bytes())
    &&& vk.spec_scheme() == sk.spec_scheme()
}

impl Cap {
    /// Mint a capability: validate that the key's scheme has an adapter
    /// and that the digest algorithm fits it, canonically encode the
    /// fields, digest them, and sign the digest with the supplied key.
    ///
    /// Every outcome is exact: a scheme without an adapter is
    /// `UnsupportedScheme`; an algorithm the scheme does not sign is
    /// `UnsupportedAlgo`; `SigningFailed` comes exactly when the key
    /// material is unusable or the scheme's deterministic signing fails
    /// on this key and digest — otherwise minting succeeds.  A minted
    /// token carries the fields as given and a signature that verifies
    /// under the key's published half; nothing is retried.
    pub fn new(
        target: ObjectId,
        accessor: ObjectId,
        protections: Protections,
        signing_key: &SigningKey,
        revocation: Revoc,
        gates: Gates,
        algo: HashingAlgo,
    ) -> (r: Result<Cap, CapError>)
        ensures
            r == Err::<Cap, CapError>(CapError::UnsupportedScheme) <==> signing_key.spec_scheme()
                != SigningScheme::Ecdsa,
            r == Err::<Cap, CapError>(CapError::UnsupportedAlgo) <==> signing_key.spec_scheme()
                == SigningScheme::Ecdsa && !spec_scheme_supports(signing_key.spec_scheme(), algo),
            r is Ok <==> spec_scheme_supports(signing_key.spec_scheme(), algo) && ecdsa_sk_ok(
                signing_key.spec_bytes(),
            ) && ecdsa_signing_ok(
                signing_key.spec_bytes(),
                spec_digest_of(
                    algo,
                    spec_canonical_bytes(target, accessor, protections, revocation, gates@, algo),
                ),
            ),
            r == Err::<Cap, CapError>(CapError::SigningFailed) <==> spec_scheme_supports(
                signing_key.spec_scheme(),
                algo,
            ) && !(ecdsa_sk_ok(signing_key.spec_bytes()) && ecdsa_signing_ok(
                signing_key.spec_bytes(),
                spec_digest_of(
                    algo,
                    spec_canonical_bytes(target, accessor, protections, revocation, gates@, algo),
                ),
            )),
            r matches Ok(cap) ==> {
                &&& cap.target == target
                &&& cap.accessor == accessor
                &&& cap.protections == protections
                &&& cap.revocation == revocation
                &&& cap.gates@ == gates@
                &&& cap.algo == algo
                &&& cap.scheme == signing_key.spec_scheme()
                &&& cap.signature@ == ecdsa_sig_of(signing_key.spec_bytes(), spec_cap_message(cap))
                &&& spec_minted(cap, signing_key)
            },
    {
        match signing_key.scheme() {
            SigningScheme::Ecdsa => (),
            SigningScheme::Ed25519 => {
                return Err(CapError::UnsupportedScheme);
            },
        }
        match algo {
            HashingAlgo::Sha256 => (),
            HashingAlgo::Sha512 => {
                return Err(CapError::UnsupportedAlgo);
            },
        }
        let encoded = canonical_encode(target, accessor, protections, revocation, &gates, algo);
        let digest = digest_select(algo, &encoded);
        let signature = match ecdsa_sign(signing_key.raw_bytes(), &digest) {
            Some(signature) => signature,
            None => {
                return Err(CapError::SigningFailed);
            },
        };
        Ok(
            Cap {
                target,
                accessor,
                protections,
                revocation,
                gates,
                algo,
                scheme: SigningScheme::Ecdsa,
                signature,
            },
        )
    }

    /// Check the token's signature against a published verifying key:
    /// recompute the canonical encoding and digest under the token's own
    /// recorded algorithm, and verify under its recorded scheme.  This is
    /// the whole of the check — revocation and gates are separate, later
    /// steps — and it is read-only and deterministic.
    pub fn verify_sig(&self, verifying_key: &VerifyingKey) -> (r: Result<(), VerifyError>)
        ensures
            r is Ok <==> spec_sig_authentic(*self, verifying_key),
            r is Err ==> r == Err::<(), VerifyError>(VerifyError::BadSignature),
    {
        match self.scheme {
            SigningScheme::Ecdsa => (),
            SigningScheme::Ed25519 => {
                return Err(VerifyError::BadSignature);
            },
        }
        match verifying_key.scheme() {
            SigningScheme::Ecdsa => (),
            SigningScheme::Ed25519 => {
                return Err(VerifyError::BadSignature);
            },
        }
        let encoded = canonical_encode(
            self.target,
            self.accessor,
            self.protections,
            self.revocation,
            &self.gates,
            self.algo,
        );
        let digest = digest_select(self.algo, &encoded);
        if ecdsa_verify(verifying_key.bytes(), &digest, &self.signature) {
            Ok(())
        } else {
            Err(VerifyError::BadSignature)
        }
    }

    /// The full access check of a received token, at the issuer epoch the
    /// caller observed, for an in-domain access (`None`) or a
    /// cross-domain call to an entry point (`Some`).  Signature first:
    /// a token that is not authentic reports `BadSignature` and nothing
    /// else.  An authentic token whose embedded revocation value is
    /// behind the observed epoch is `Revoked`; an authentic, current
    /// token whose gate table lacks the requested entry point is
    /// `GateDenied`; otherwise access is granted.
    pub fn verify_access(
        &self,
        verifying_key: &VerifyingKey,
        current_epoch: u64,
        cross_domain_call: Option<u64>,
    ) -> (r: Result<(), VerifyError>)
        ensures
            r == spec_access_outcome(*self, verifying_key, current_epoch, cross_domain_call),
    {
        match self.verify_sig(verifying_key) {
            Ok(()) => (),
            Err(_) => {
                return Err(VerifyError::BadSignature);
            },
        }
        if self.revocation.value < current_epoch {
            return Err(VerifyError::Revoked);
        }
        match cross_domain_call {
            Some(entry) => {
                if !self.gates.permits(entry) {
                    return Err(VerifyError::GateDenied);
                }
            },
            None => (),
        }
        Ok(())
    }
}

/// The token's serialized form, the shape in which it crosses process or
/// object boundaries: the canonical encoding of the signed fields,
/// followed by the scheme's one-byte discriminant and the signature
/// bytes, whose length the scheme determines.
pub open spec fn spec_wire_form(cap: Cap) -> Seq<u8> {
    spec_canonical_bytes(
        cap.target,
        cap.accessor,
        cap.protections,
        cap.revocation,
        cap.gates@,
        cap.algo,
    ) + seq![spec_scheme_tag(cap.scheme)] + cap.signature@
}

impl Cap {
    /// Serialize the token for persistence or transmission.
    pub fn to_wire_bytes(&self) -> (r: Vec<u8>)
        ensures
            r@ == spec_wire_form(*self),
    {
        let mut out = canonical_encode(
            self.target,
            self.accessor,
            self.protections,
            self.revocation,
            &self.gates,
            self.algo,
        );
        out.push(scheme_tag(self.scheme));
        let mut i: usize = 0;
        let ghost prefix = out@;
        while i < self.signature.len()
            invariant
                i <= self.signature@.len(),
                out@ == prefix + self.signature@.take(i as int),
            decreases self.signature@.len() - i,
        {
            out.push(self.signature[i]);
            proof {
                assert(self.signature@.take(i + 1 as int) =~= self.signature@.take(i as int).push(
                    self.signature@[i as int],
                ));
            }
            i = i + 1;
        }
        proof {
            assert(self.signature@.take(self.signature@.len() as int) =~= self.signature@);
            assert(out@ =~= spec_wire_form(*self));
        }
        out
    }
}

/// Where each part of a token's serialized form sits.  The count field at
/// a fixed offset determines where the canonical encoding ends, so the
/// form parses unambiguously; every field is recoverable from its range.
pub proof fn lemma_wire_parts(cap: Cap, s: Seq<u8>)
    requires
        s == spec_wire_form(cap),
    ensures
        s.len() == 58 + 8 * cap.gates@.len() + cap.signature@.len(),
        s.subrange(0, 16) == le_bytes_128(cap.target.raw),
        s.subrange(16, 32) == le_bytes_128(cap.accessor.raw),
        s.subrange(32, 40) == le_bytes_64(cap.protections.mask),
        s.subrange(40, 48) == le_bytes_64(cap.revocation.value),
        s.subrange(48, 56) == le_bytes_64(cap.gates@.len() as u64),
        s.subrange(56, 56 + 8 * cap.gates@.len() as int) == gate_list_bytes(cap.gates@),
        s[56 + 8 * cap.gates@.len() as int] == spec_algo_tag(cap.algo),
        s[57 + 8 * cap.gates@.len() as int] == spec_scheme_tag(cap.scheme),
        s.subrange(58 + 8 * cap.gates@.len() as int, s.len() as int) == cap.signature@,
        s.subrange(0, 57 + 8 * cap.gates@.len() as int) == spec_canonical_bytes(
            cap.target,
            cap.accessor,
            cap.protections,
            cap.revocation,
            cap.gates@,
            cap.algo,
        ),
{
    let c = spec_canonical_bytes(
        cap.target,
        cap.accessor,
        cap.protections,
        cap.revocation,
        cap.gates@,
        cap.algo,
    );
    lemma_canonical_parts(
        cap.target,
        cap.accessor,
        cap.protections,
        cap.revocation,
        cap.gates@,
        cap.algo,
        c,
    );
    let g = cap.gates@.len() as int;
    assert forall|i: int| 0 <= i < c.len() implies s[i] == c[i] by {
        assert((c + seq![spec_scheme_tag(cap.scheme)] + cap.signature@)[i] == c[i]);
    }
    assert(s.subrange(0, 16) =~= c.subrange(0, 16));
    assert(s.subrange(16, 32) =~= c.subrange(16, 32));
    assert(s.subrange(32, 40) =~= c.subrange(32, 40));
    assert(s.subrange(40, 48) =~= c.subrange(40, 48));
    assert(s.subrange(48, 56) =~= c.subrange(48, 56));
    assert(s.subrange(56, 56 + 8 * g) =~= c.subrange(56, 56 + 8 * g));
    assert(s[56 + 8 * g] == c[c.len() - 1]);
    assert((c + seq![spec_scheme_tag(cap.scheme)] + cap.signature@)[c.len() as int]
        == spec_scheme_tag(cap.scheme));
    assert(s.subrange(58 + 8 * g, s.len() as int) =~= cap.signature@);
    assert(s.subrange(0, 57 + 8 * g) =~= c);
}

/// A token's count field names its gate-table length: reading the eight
/// bytes at the count's fixed offset recovers it.
proof fn lemma_count_field(cap: Cap, s: Seq<u8>, count64: u64)
    requires
        cap.gates@.len() <= u64::MAX,
        s == spec_wire_form(cap),
        le_bytes_64(count64) == s.subrange(48, 56),
    ensures
        count64 == cap.gates@.len(),
{
    lemma_wire_parts(cap, s);
    lemma_le_bytes_64_injective(count64, cap.gates@.len() as u64);
}

impl Cap {
    /// Parse a serialized token.  A returned token re-serializes to
    /// exactly the input bytes; and whenever the input is the serialized
    /// form of some token whose gate table the count field can name, a
    /// token is returned.
    #[verifier::loop_isolation(false)]
    #[verifier::spinoff_prover]
    #[verifier::rlimit(100)]
    pub fn from_wire_bytes(bytes: &Vec<u8>) -> (r: Option<Cap>)
        ensures
            r matches Some(cap) ==> spec_wire_form(cap) == bytes@,
            forall|cap: Cap|
                cap.gates@.len() <= u64::MAX && bytes@ == spec_wire_form(cap) ==> r is Some,
    {
        let n = bytes.len();
        if n < 58 {
            proof {
                assert forall|cap: Cap|
                    cap.gates@.len() <= u64::MAX implies bytes@ != spec_wire_form(cap) by {
                    if bytes@ == spec_wire_form(cap) {
                        lemma_wire_parts(cap, bytes@);
                    }
                }
            }
            return None;
        }
        let count64 = read_le_64(bytes, 48);
        if count64 > (n as u64 - 58) / 8 {
            proof {
                assert forall|cap: Cap|
                    cap.gates@.len() <= u64::MAX implies bytes@ != spec_wire_form(cap) by {
                    if bytes@ == spec_wire_form(cap) {
                        lemma_wire_parts(cap, bytes@);
                        lemma_count_field(cap, bytes@, count64);
                        assert(8 * cap.gates@.len() <= n - 58);
                        assert(count64 <= (n as u64 - 58) / 8) by (nonlinear_arith)
                            requires
                                8 * count64 <= n as u64 - 58,
                        ;
                    }
                }
            }
            return None;
        }
        proof {
            assert(8 * count64 <= n as u64 - 58) by (nonlinear_arith)
                requires
                    count64 <= (n as u64 - 58) / 8,
                    n as u64 >= 58,
            ;
        }
        let count = count64 as usize;
        let c_end = 57 + 8 * count;
        let target = ObjectId::new(read_le_128(bytes, 0));
        let accessor = ObjectId::new(read_le_128(bytes, 16));
        let protections = Protections::new(read_le_64(bytes, 32));
        let revocation = Revoc::new(read_le_64(bytes, 40));
        let mut entries: Vec<u64> = Vec::new();
        let mut i: usize = 0;
        while i < count
            invariant
                i <= count,
                entries@.len() == i,
                gate_list_bytes(entries@) == bytes@.subrange(56, 56 + 8 * i),
            decreases count - i,
        {
            let entry = read_le_64(bytes, 56 + 8 * i);
            proof {
                lemma_gate_list_bytes_push(entries@, entry);
                lemma_subrange_concat(bytes@, 56, 56 + 8 * i, 56 + 8 * (i + 1));
            }
            entries.push(entry);
            i = i + 1;
        }
        let algo_byte = bytes[c_end - 1];
        let algo = if algo_byte == 0 {
            HashingAlgo::Sha256
        } else if algo_byte == 1 {
            HashingAlgo::Sha512
        } else {
            proof {
                assert forall|cap: Cap|
                    cap.gates@.len() <= u64::MAX implies bytes@ != spec_wire_form(cap) by {
                    if bytes@ == spec_wire_form(cap) {
                        lemma_wire_parts(cap, bytes@);
                        lemma_count_field(cap, bytes@, count64);
                        assert(bytes@[c_end - 1] == spec_algo_tag(cap.algo));
                    }
                }
            }
            return None;
        };
        let scheme_byte = bytes[c_end];
        let scheme = if scheme_byte == 0 {
            SigningScheme::Ecdsa
        } else if scheme_byte == 1 {
            SigningScheme::Ed25519
        } else {
            proof {
                assert forall|cap: Cap|
                    cap.gates@.len() <= u64::MAX implies bytes@ != spec_wire_form(cap) by {
                    if bytes@ == spec_wire_form(cap) {
                        lemma_wire_parts(cap, bytes@);
                        lemma_count_field(cap, bytes@, count64);
                        assert(bytes@[c_end as int] == spec_scheme_tag(cap.scheme));
                    }
                }
            }
            return None;
        };
        let mut signature: Vec<u8> = Vec::new();
        let mut j: usize = c_end + 1;
        while j < n
            invariant
                c_end + 1 <= j <= n,
                signature@ == bytes@.subrange(c_end + 1, j as int),
            decreases n - j,
        {
            signature.push(bytes[j]);
            proof {
                assert(bytes@.subrange(c_end + 1, j + 1) =~= bytes@.subrange(c_end + 1,
                    j as int).push(bytes@[j as int]));
            }
            j = j + 1;
        }
        let cap = Cap {
            target,
            accessor,
            protections,
            revocation,
            gates: Gates::new(entries),
            algo,
            scheme,
            signature,
        };
        proof {
            let s = bytes@;
            lemma_subrange_concat(s, 0, 16, 32);
            lemma_subrange_concat(s, 0, 32, 40);
            lemma_subrange_concat(s, 0, 40, 48);
            lemma_subrange_concat(s, 0, 48, 56);
            lemma_subrange_concat(s, 0, 56, c_end - 1);
            lemma_subrange_concat(s, 0, c_end - 1, c_end as int);
            lemma_subrange_concat(s, 0, c_end as int, c_end + 1);
            lemma_subrange_concat(s, 0, c_end + 1, n as int);
            assert(seq![spec_algo_tag(cap.algo)] =~= s.subrange(c_end - 1, c_end as int));
            assert(seq![spec_scheme_tag(cap.scheme)] =~= s.subrange(c_end as int, c_end + 1));
            assert(le_bytes_64(cap.gates@.len() as u64) == s.subrange(48, 56));
            assert(s.subrange(0, n as int) =~= s);
            assert(spec_wire_form(cap) == s);
        }
        Some(cap)
    }
}

/// Distinct scheme tags have distinct wire discriminants.
proof fn lemma_scheme_tag_injective(a: SigningScheme, b: SigningScheme)
    requires
        spec_scheme_tag(a) == spec_scheme_tag(b),
    ensures
        a == b,
{
}

/// The serialized form is unambiguous: two tokens with one wire form
/// agree on every field, the signature included.
pub proof fn lemma_wire_form_injective(c1: Cap, c2: Cap)
    requires
        spec_wire_form(c1) == spec_wire_form(c2),
        c1.gates@.len() <= u64::MAX,
        c2.gates@.len() <= u64::MAX,
    ensures
        c1.target == c2.target,
        c1.accessor == c2.accessor,
        c1.protections == c2.protections,
        c1.revocation == c2.revocation,
        c1.gates@ == c2.gates@,
        c1.algo == c2.algo,
        c1.scheme == c2.scheme,
        c1.signature@ == c2.signature@,
{
    let s = spec_wire_form(c1);
    lemma_wire_parts(c1, s);
    lemma_wire_parts(c2, s);
    lemma_le_bytes_64_injective(c1.gates@.len() as u64, c2.gates@.len() as u64);
    assert(c1.gates@.len() == c2.gates@.len());
    assert(spec_canonical_bytes(
        c1.target,
        c1.accessor,
        c1.protections,
        c1.revocation,
        c1.gates@,
        c1.algo,
    ) == spec_canonical_bytes(
        c2.target,
        c2.accessor,
        c2.protections,
        c2.revocation,
        c2.gates@,
        c2.algo,
    ));
    lemma_canonical_injective(
        c1.target,
        c1.accessor,
        c1.protections,
        c1.revocation,
        c1.gates@,
        c1.algo,
        c2.target,
        c2.accessor,
        c2.protections,
        c2.revocation,
        c2.gates@,
        c2.algo,
    );
    lemma_scheme_tag_injective(c1.scheme, c2.scheme);
}

/// Round trip: a token minted by `Cap::new` verifies under the matching
/// published key, at every epoch not beyond its embedded revocation value,
/// for an in-domain access or any cross-domain call its gate table
/// permits.
pub proof fn lemma_mint_roundtrip(
    cap: Cap,
    sk: &SigningKey,
    vk: &VerifyingKey,
    current_epoch: u64,
    call: Option<u64>,
)
    requires
        spec_minted(cap, sk),
        spec_keypair_matched(sk, vk),
        current_epoch <= cap.revocation.value,
        match call {
            Some(entry) => cap.gates@.contains(entry),
            None => true,
        },
    ensures
        spec_access_outcome(cap, vk, current_epoch, call) == Ok::<(), VerifyError>(()),
{
}

/// Revocation is permanent: once the issuer's published epoch is past the
/// token's embedded value, verification of the authentic token reports
/// `Revoked` at that epoch and at every later one — there is no
/// resurrection, because the registry's epoch never decreases.
pub proof fn lemma_revocation_permanent(
    cap: Cap,
    vk: &VerifyingKey,
    current_epoch: u64,
    call: Option<u64>,
)
    requires
        spec_sig_authentic(cap, vk),
        cap.revocation.value < current_epoch,
    ensures
        spec_access_outcome(cap, vk, current_epoch, call) == Err::<(), VerifyError>(
            VerifyError::Revoked,
        ),
        forall|later_epoch: u64|
            later_epoch >= current_epoch ==> spec_access_outcome(cap, vk, later_epoch, call)
                == Err::<(), VerifyError>(VerifyError::Revoked),
{
}

/// Gate enforcement: an authentic, unrevoked token still fails, with
/// `GateDenied`, for a cross-domain call to an entry point absent from
/// its gate table.
pub proof fn lemma_gate_enforced(cap: Cap, vk: &VerifyingKey, current_epoch: u64, entry: u64)
    requires
        spec_sig_authentic(cap, vk),
        current_epoch <= cap.revocation.value,
        !cap.gates@.contains(entry),
    ensures
        spec_access_outcome(cap, vk, current_epoch, Some(entry)) == Err::<(), VerifyError>(
            VerifyError::GateDenied,
        ),
{
}

} // verus!
