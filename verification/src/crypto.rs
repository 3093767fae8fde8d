//! The hash functions and the signature scheme the chain relies on. Each of them is
//! computed by an outside crate; what the library knows of them is stated here.
use vstd::prelude::*;
use ed25519_dalek::Verifier;
use sha1::Digest;

verus! {

/// The BLAKE3 digest of a byte string.
pub uninterp spec fn blake3_digest(data: Seq<u8>) -> [u8; 32];

/// The SHA-256 digest of a byte string.
pub uninterp spec fn sha256_digest(data: Seq<u8>) -> Seq<u8>;

/// The SHA-1 digest of a byte string.
pub uninterp spec fn sha1_digest(data: Seq<u8>) -> Seq<u8>;

/// The RIPEMD-160 digest of a byte string.
pub uninterp spec fn ripemd160_digest(data: Seq<u8>) -> Seq<u8>;

/// Whether 32 bytes are the compressed form of a point on the Edwards curve.
pub uninterp spec fn ed25519_point_decompresses(bytes: Seq<u8>) -> bool;

/// Whether an Ed25519 verification of `signature` over `message` under the key
/// `public_key` succeeds.
pub uninterp spec fn ed25519_verifies(
    public_key: Seq<u8>,
    message: Seq<u8>,
    signature: Seq<u8>,
) -> bool;

/// `blake3::hash`: the digest of `data`, as 32 bytes. Claimed: the result is the named
/// digest of the input bytes.
#[verifier::external_body]
pub(crate) fn blake3_hash(data: &[u8]) -> (r: [u8; 32])
    ensures
        r == blake3_digest(data@),
{
    blake3::hash(data).into()
}

/// `sha2::Sha256::digest`: claimed to give the named digest of the input, 32 bytes long.
#[verifier::external_body]
pub(crate) fn sha256(data: &[u8]) -> (r: Vec<u8>)
    ensures
        r@ == sha256_digest(data@),
        r@.len() == 32,
{
    sha2::Sha256::digest(data).to_vec()
}

/// `sha1::Sha1::digest`: claimed to give the named digest of the input, 20 bytes long.
#[verifier::external_body]
pub(crate) fn sha1(data: &[u8]) -> (r: Vec<u8>)
    ensures
        r@ == sha1_digest(data@),
        r@.len() == 20,
{
    sha1::Sha1::digest(data).to_vec()
}

/// `ripemd::Ripemd160::digest`: claimed to give the named digest of the input, 20 bytes long.
#[verifier::external_body]
pub(crate) fn ripemd160(data: &[u8]) -> (r: Vec<u8>)
    ensures
        r@ == ripemd160_digest(data@),
        r@.len() == 20,
{
    ripemd::Ripemd160::digest(data).to_vec()
}

#[verifier::external_type_specification]
#[verifier::external_body]
pub struct ExDalekPublicKey(ed25519_dalek::PublicKey);

#[verifier::external_type_specification]
#[verifier::external_body]
pub struct ExDalekSignature(ed25519_dalek::Signature);

/// An Ed25519 public key that decoded, together with the bytes it was decoded from.
pub struct DecodedPublicKey {
    bytes: Vec<u8>,
    key: ed25519_dalek::PublicKey,
}

impl DecodedPublicKey {
    /// The bytes the key was decoded from.
    pub closed spec fn encoded(&self) -> Seq<u8> {
        self.bytes@
    }
}

/// An Ed25519 signature that decoded, together with the bytes it was decoded from.
pub struct DecodedSignature {
    bytes: Vec<u8>,
    sig: ed25519_dalek::Signature,
}

impl DecodedSignature {
    /// The bytes the signature was decoded from.
    pub closed spec fn encoded(&self) -> Seq<u8> {
        self.bytes@
    }
}

/// Whether `ed25519_dalek::Signature::from_bytes` accepts these bytes: exactly 64 of them,
/// with the three highest bits of the last one clear.
pub open spec fn signature_decodes(bytes: Seq<u8>) -> bool {
    bytes.len() == 64 && bytes[63] < 0x20
}

/// `ed25519_dalek::PublicKey::from_bytes`. Claimed: it succeeds exactly on 32 bytes that
/// decompress to a curve point, and the key keeps the bytes it came from.
#[verifier::external_body]
pub(crate) fn decode_public_key(bytes: &[u8]) -> (r: Option<DecodedPublicKey>)
    ensures
        r is Some <==> (bytes@.len() == 32 && ed25519_point_decompresses(bytes@)),
        r matches Some(k) ==> k.encoded() == bytes@,
{
    match ed25519_dalek::PublicKey::from_bytes(bytes) {
        Ok(key) => Some(DecodedPublicKey { bytes: bytes.to_vec(), key }),
        Err(_) => None,
    }
}

/// `ed25519_dalek::Signature::from_bytes` (the `ed25519` crate's). Claimed, as its source
/// shows: it succeeds exactly on 64 bytes whose last byte has its three highest bits clear.
#[verifier::external_body]
pub(crate) fn decode_signature(bytes: &[u8]) -> (r: Option<DecodedSignature>)
    ensures
        r is Some <==> signature_decodes(bytes@),
        r matches Some(s) ==> s.encoded() == bytes@,
{
    match ed25519_dalek::Signature::from_bytes(bytes) {
        Ok(sig) => Some(DecodedSignature { bytes: bytes.to_vec(), sig }),
        Err(_) => None,
    }
}

/// `ed25519_dalek::PublicKey::verify`. Claimed: the outcome is the named verification
/// predicate of the key's bytes, the message and the signature's bytes.
#[verifier::external_body]
pub(crate) fn ed25519_verify(key: &DecodedPublicKey, message: &[u8], sig: &DecodedSignature) -> (r: bool)
    ensures
        r == ed25519_verifies(key.encoded(), message@, sig.encoded()),
{
    key.key.verify(message, &sig.sig).is_ok()
}

} // verus!
