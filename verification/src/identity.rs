//! Ed25519 identities: a node is known by its public key, and signs with the
//! secret seed that the key was derived from.

use libp2p::identity::ed25519;
use vstd::prelude::*;

use crate::bytes::copy_bytes;

verus! {

/// A peer is identified by the bytes of its Ed25519 public key.
pub type PeerId = Vec<u8>;

/// The compressed public key that Ed25519 derives from a 32-byte secret seed.
pub uninterp spec fn ed25519_public(secret: Seq<u8>) -> Seq<u8>;

/// The Ed25519 signature of `msg` under the secret seed `secret`.
pub uninterp spec fn ed25519_signature(secret: Seq<u8>, msg: Seq<u8>) -> Seq<u8>;

/// Whether Ed25519 verification accepts `sig` as a signature of `msg` under
/// the public key bytes `public`.
pub uninterp spec fn ed25519_accepts(public: Seq<u8>, msg: Seq<u8>, sig: Seq<u8>) -> bool;

/// Calls `ed25519::Keypair::public` on the keypair that
/// `ed25519::SecretKey::try_from_bytes` and `Keypair::from` make of the seed.
/// Trusted: the seed is accepted exactly when it is 32 bytes long, and the
/// key handed back is the 32-byte public key of that seed.
#[verifier::external_body]
fn derive_public(secret: &Vec<u8>) -> (r: Option<Vec<u8>>)
    ensures
        r is Some <==> secret@.len() == 32,
        r matches Some(p) ==> p@ == ed25519_public(secret@) && p@.len() == 32,
{
    let mut seed = secret.clone();
    match ed25519::SecretKey::try_from_bytes(&mut seed) {
        Ok(sk) => Some(ed25519::Keypair::from(sk).public().to_bytes().to_vec()),
        Err(_) => None,
    }
}

/// Calls `ed25519::Keypair::sign` on the keypair made of the seed.
/// Trusted: the seed is accepted exactly when it is 32 bytes long; signing is
/// deterministic, the signature is 64 bytes long, and it is one that
/// verification accepts for the same message under the public key of the
/// same seed.
#[verifier::external_body]
fn sign_with_seed(secret: &Vec<u8>, msg: &Vec<u8>) -> (r: Option<Vec<u8>>)
    ensures
        r is Some <==> secret@.len() == 32,
        r matches Some(s) ==> s@ == ed25519_signature(secret@, msg@) && s@.len() == 64
            && ed25519_accepts(ed25519_public(secret@), msg@, s@),
{
    let mut seed = secret.clone();
    match ed25519::SecretKey::try_from_bytes(&mut seed) {
        Ok(sk) => Some(ed25519::Keypair::from(sk).sign(msg)),
        Err(_) => None,
    }
}

/// Calls `ed25519::PublicKey::verify` on the key that
/// `ed25519::PublicKey::try_from_bytes` makes of `public`; bytes that are no
/// public key accept nothing.
/// Trusted: the answer depends on the three byte strings alone.
#[verifier::external_body]
fn verify_with_key(public: &Vec<u8>, msg: &Vec<u8>, sig: &Vec<u8>) -> (r: bool)
    ensures
        r == ed25519_accepts(public@, msg@, sig@),
{
    match ed25519::PublicKey::try_from_bytes(public) {
        Ok(pk) => pk.verify(msg, sig),
        Err(_) => false,
    }
}

/// A node's identity: the secret seed and the public key derived from it.
pub struct Keypair {
    secret: Vec<u8>,
    public: Vec<u8>,
}

impl Keypair {
    pub closed spec fn secret_bytes(&self) -> Seq<u8> {
        self.secret@
    }

    pub closed spec fn public_bytes(&self) -> Seq<u8> {
        self.public@
    }

    /// The public key is the one that belongs to the seed.
    #[verifier::type_invariant]
    spec fn well_formed(self) -> bool {
        &&& self.secret@.len() == 32
        &&& self.public@.len() == 32
        &&& self.public@ == ed25519_public(self.secret@)
    }

    /// Makes a keypair of a 32-byte seed; any other length is refused.
    pub fn from_secret(secret: Vec<u8>) -> (r: Option<Keypair>)
        ensures
            r is Some <==> secret@.len() == 32,
            r matches Some(k) ==> k.secret_bytes() == secret@ && k.public_bytes() == ed25519_public(
                secret@,
            ),
    {
        match derive_public(&secret) {
            Some(public) => Some(Keypair { secret, public }),
            None => None,
        }
    }

    /// The peer identifier of this keypair.
    pub fn peer_id(&self) -> (r: PeerId)
        ensures
            r@ == self.public_bytes(),
    {
        copy_bytes(&self.public)
    }

    /// Signs `msg`. The signature verifies under this keypair's public key.
    pub fn sign(&self, msg: &Vec<u8>) -> (r: Vec<u8>)
        ensures
            r@ == ed25519_signature(self.secret_bytes(), msg@),
            r@.len() == 64,
            ed25519_accepts(self.public_bytes(), msg@, r@),
    {
        proof {
            use_type_invariant(self);
        }
        match sign_with_seed(&self.secret, msg) {
            Some(sig) => sig,
            None => Vec::new(),
        }
    }
}

/// Whether `sig` is a valid signature of `msg` by the peer `signer`.
pub fn verify_signature(signer: &PeerId, msg: &Vec<u8>, sig: &Vec<u8>) -> (r: bool)
    ensures
        r == ed25519_accepts(signer@, msg@, sig@),
{
    verify_with_key(signer, msg, sig)
}

} // verus!
