//! The encryption codec: AES-256-GCM under a key derived from a configured
//! secret. An encrypted artifact is a 12-byte nonce followed by the
//! ciphertext and its 16-byte authentication tag.

use crate::error::bytes_of;
use crate::error::SyncError;
use aes_gcm::aead::Aead;
use aes_gcm::KeyInit;
use rand::RngCore;
use sha2::Digest;
use vstd::prelude::*;
use vstd::slice::slice_subrange;
use vstd::slice::slice_to_vec;
use vstd::string::*;

verus! {

/// Length of a symmetric key, in bytes.
pub const KEY_LEN: usize = 32;

/// Length of a nonce, in bytes.
pub const NONCE_LEN: usize = 12;

/// Length of an authentication tag, in bytes.
pub const TAG_LEN: usize = 16;

/// The longest plaintext that one AES-GCM call accepts, in bytes.
pub const MAX_PLAINTEXT_LEN: u64 = 0x10_0000_0000;

/// `aes_gcm::Error`, the error of the cipher. Carried through as it is;
/// nothing is read from it.
#[verifier::external_type_specification]
#[verifier::external_body]
pub struct ExAeadError(aes_gcm::Error);

/// `hex::FromHexError`, the error of the hexadecimal decoder. Carried
/// through as it is; nothing is read from it.
#[verifier::external_type_specification]
#[verifier::external_body]
pub struct ExFromHexError(hex::FromHexError);

/// `rand::Error`, the error of the random source. Carried through as it
/// is; nothing is read from it.
#[verifier::external_type_specification]
#[verifier::external_body]
pub struct ExRandError(rand::Error);

/// The SHA-256 digest of `data`, as `sha2::Sha256` computes it.
pub uninterp spec fn sha256_digest(data: Seq<u8>) -> Seq<u8>;

/// What `Aes256Gcm::encrypt` returns for a 32-byte key, a 12-byte nonce and
/// a plaintext, with no associated data: the ciphertext followed by its tag,
/// or `None` where the call fails.
pub uninterp spec fn aes256gcm_encrypted(key: Seq<u8>, nonce: Seq<u8>, plaintext: Seq<u8>) -> Option<
    Seq<u8>,
>;

/// What `Aes256Gcm::decrypt` returns for a 32-byte key, a 12-byte nonce and
/// a ciphertext with its tag, with no associated data: the plaintext, or
/// `None` where the tag does not verify.
pub uninterp spec fn aes256gcm_decrypted(key: Seq<u8>, nonce: Seq<u8>, ciphertext: Seq<u8>) -> Option<
    Seq<u8>,
>;

/// The tag of a ciphertext: its last 16 bytes.
pub open spec fn tag_of(ciphertext: Seq<u8>) -> Seq<u8> {
    ciphertext.subrange(ciphertext.len() - 16, ciphertext.len() as int)
}

/// A ciphertext with its tag replaced by `tag`.
pub open spec fn retagged(ciphertext: Seq<u8>, tag: Seq<u8>) -> Seq<u8> {
    ciphertext.subrange(0, ciphertext.len() - 16) + tag
}

/// True when the tag that `ciphertext` carries is the only one under which
/// its bytes decrypt: with any other 16-byte tag in its place, decryption
/// under `key` and `nonce` fails.
pub open spec fn only_own_tag_verifies(key: Seq<u8>, nonce: Seq<u8>, ciphertext: Seq<u8>) -> bool {
    forall|tag: Seq<u8>|
        tag.len() == 16 && tag != tag_of(ciphertext) ==> aes256gcm_decrypted(
            key,
            nonce,
            #[trigger] retagged(ciphertext, tag),
        ) is None
}

/// True when the nonce that `ciphertext` was sealed under is the only one
/// under which it decrypts: under any other 12-byte nonce, decryption under
/// `key` fails.
pub open spec fn only_own_nonce_verifies(key: Seq<u8>, nonce: Seq<u8>, ciphertext: Seq<u8>) -> bool {
    forall|other: Seq<u8>|
        other.len() == 12 && other != nonce ==> #[trigger] aes256gcm_decrypted(
            key,
            other,
            ciphertext,
        ) is None
}

/// The value of one hexadecimal digit, upper or lower case.
pub open spec fn hex_digit_value(c: u8) -> Option<int> {
    if 0x30 <= c <= 0x39 {
        Some(c - 0x30)
    } else if 0x41 <= c <= 0x46 {
        Some(c - 0x41 + 10)
    } else if 0x61 <= c <= 0x66 {
        Some(c - 0x61 + 10)
    } else {
        None
    }
}

/// True when `text` is an even number of hexadecimal digits.
pub open spec fn is_hex_text(text: Seq<u8>) -> bool {
    &&& text.len() % 2 == 0
    &&& forall|i: int| 0 <= i < text.len() ==> hex_digit_value(#[trigger] text[i]) is Some
}

/// The byte that the digit pair at position `i` of `text` stands for.
pub open spec fn hex_pair_value(text: Seq<u8>, i: int) -> u8 {
    (hex_digit_value(text[2 * i])->0 * 16 + hex_digit_value(text[2 * i + 1])->0) as u8
}

/// The bytes that hexadecimal `text` stands for, two digits per byte;
/// `None` where `text` has odd length or holds anything but digits.
pub open spec fn hex_decoded(text: Seq<u8>) -> Option<Seq<u8>> {
    if is_hex_text(text) {
        Some(Seq::new((text.len() / 2) as nat, |i: int| hex_pair_value(text, i)))
    } else {
        None
    }
}

/// Calls `hex::decode`. Trusted: the outcome is `hex_decoded` of the text,
/// an error exactly where that is `None`.
#[verifier::external_body]
fn hex_decode(text: &[u8]) -> (r: Result<Vec<u8>, hex::FromHexError>)
    ensures
        match r {
            Ok(bytes) => hex_decoded(text@) == Some(bytes@),
            Err(_) => hex_decoded(text@) is None,
        },
{
    hex::decode(text)
}

/// Calls `sha2::Sha256::new`, `update` and `finalize`. Trusted: the result
/// is the SHA-256 digest of the data, 32 bytes long.
#[verifier::external_body]
fn sha256(data: &[u8]) -> (digest: Vec<u8>)
    ensures
        digest@ == sha256_digest(data@),
        digest@.len() == 32,
{
    let mut hasher = sha2::Sha256::new();
    hasher.update(data);
    hasher.finalize().to_vec()
}

/// Calls `rand::rngs::OsRng.try_fill_bytes` on a buffer of `len` bytes.
/// Trusted: what comes back is `len` bytes long. Nothing is claimed of the
/// bytes themselves, nor that the call succeeds.
#[verifier::external_body]
fn os_random_bytes(len: usize) -> (r: Result<Vec<u8>, rand::Error>)
    ensures
        r matches Ok(bytes) ==> bytes@.len() == len,
{
    let mut bytes = vec![0u8; len];
    rand::rngs::OsRng.try_fill_bytes(&mut bytes)?;
    Ok(bytes)
}

/// Calls `Aes256Gcm::new` and `encrypt`. Trusted: the outcome is
/// `aes256gcm_encrypted` of the arguments; the call fails exactly where the
/// plaintext is longer than `MAX_PLAINTEXT_LEN`; a ciphertext that comes
/// back is 16 bytes longer than the plaintext and decrypts, under the same
/// key and nonce, to that plaintext; it does not decrypt with another tag in
/// place of its own, the expected tag being a function of the key, the
/// nonce and the bytes before the tag; and it does not decrypt under
/// another nonce, the expected tag being masked with the block cipher's
/// image of the nonce, which differs for different nonces.
#[verifier::external_body]
fn aes256gcm_seal(key: &[u8], nonce: &[u8], plaintext: &[u8]) -> (r: Result<Vec<u8>, aes_gcm::Error>)
    requires
        key@.len() == 32,
        nonce@.len() == 12,
    ensures
        match r {
            Ok(ciphertext) => {
                &&& aes256gcm_encrypted(key@, nonce@, plaintext@) == Some(ciphertext@)
                &&& ciphertext@.len() == plaintext@.len() + 16
                &&& aes256gcm_decrypted(key@, nonce@, ciphertext@) == Some(plaintext@)
                &&& only_own_tag_verifies(key@, nonce@, ciphertext@)
                &&& only_own_nonce_verifies(key@, nonce@, ciphertext@)
            },
            Err(_) => aes256gcm_encrypted(key@, nonce@, plaintext@) is None,
        },
        r is Ok <==> plaintext@.len() <= MAX_PLAINTEXT_LEN,
{
    let cipher = aes_gcm::Aes256Gcm::new(aes_gcm::Key::<aes_gcm::Aes256Gcm>::from_slice(key));
    cipher.encrypt(aes_gcm::Nonce::from_slice(nonce), plaintext)
}

/// Calls `Aes256Gcm::new` and `decrypt`. Trusted: the outcome is
/// `aes256gcm_decrypted` of the arguments, and a plaintext that comes back
/// is 16 bytes shorter than the ciphertext.
#[verifier::external_body]
fn aes256gcm_open(key: &[u8], nonce: &[u8], ciphertext: &[u8]) -> (r: Result<
    Vec<u8>,
    aes_gcm::Error,
>)
    requires
        key@.len() == 32,
        nonce@.len() == 12,
    ensures
        match r {
            Ok(plaintext) => {
                &&& aes256gcm_decrypted(key@, nonce@, ciphertext@) == Some(plaintext@)
                &&& plaintext@.len() + 16 == ciphertext@.len()
            },
            Err(_) => aes256gcm_decrypted(key@, nonce@, ciphertext@) is None,
        },
{
    let cipher = aes_gcm::Aes256Gcm::new(aes_gcm::Key::<aes_gcm::Aes256Gcm>::from_slice(key));
    cipher.decrypt(aes_gcm::Nonce::from_slice(nonce), ciphertext)
}

/// The key that a configured secret stands for. A secret that is 64
/// hexadecimal digits is the 32 bytes it spells; every other secret, one of
/// 64 other characters included, is hashed with SHA-256. No secret is
/// refused.
pub open spec fn derived_key(secret: Seq<u8>) -> Seq<u8> {
    if secret.len() == 64 && is_hex_text(secret) {
        hex_decoded(secret)->0
    } else {
        sha256_digest(secret)
    }
}

/// True when `ciphertext` seals `plaintext` soundly: it is 16 bytes longer,
/// decrypts to the plaintext again, and verifies under no tag but its own
/// and under no nonce but its own.
pub open spec fn seals(key: Seq<u8>, nonce: Seq<u8>, plaintext: Seq<u8>, ciphertext: Seq<u8>) -> bool {
    &&& ciphertext.len() == plaintext.len() + 16
    &&& aes256gcm_decrypted(key, nonce, ciphertext) == Some(plaintext)
    &&& only_own_tag_verifies(key, nonce, ciphertext)
    &&& only_own_nonce_verifies(key, nonce, ciphertext)
}

/// The ciphertext and tag that seal `plaintext` under `key` and `nonce`: the
/// cipher's output, which seals the plaintext soundly. `None` where the
/// cipher refuses the plaintext.
pub open spec fn sealed(key: Seq<u8>, nonce: Seq<u8>, plaintext: Seq<u8>) -> Option<Seq<u8>> {
    match aes256gcm_encrypted(key, nonce, plaintext) {
        Some(ciphertext) => if seals(key, nonce, plaintext, ciphertext) {
            Some(ciphertext)
        } else {
            None
        },
        None => None,
    }
}

/// The nonce of an artifact: its first 12 bytes.
pub open spec fn artifact_nonce(artifact: Seq<u8>) -> Seq<u8> {
    artifact.subrange(0, 12)
}

/// The ciphertext and tag of an artifact: all that follows the nonce.
pub open spec fn artifact_body(artifact: Seq<u8>) -> Seq<u8> {
    artifact.subrange(12, artifact.len() as int)
}

/// True when `artifact` is an encryption of `plaintext` under `key`: a
/// 12-byte nonce followed by what seals the plaintext under that nonce.
pub open spec fn is_artifact_of(key: Seq<u8>, plaintext: Seq<u8>, artifact: Seq<u8>) -> bool {
    &&& artifact.len() == 12 + plaintext.len() + 16
    &&& sealed(key, artifact_nonce(artifact), plaintext) == Some(artifact_body(artifact))
}

/// What decrypting `artifact` under `key` gives: the plaintext, or an
/// `Authentication` error where the artifact is too short to hold a nonce or
/// its tag does not verify.
pub open spec fn opened(key: Seq<u8>, artifact: Seq<u8>) -> Result<Seq<u8>, SyncError> {
    if artifact.len() < 12 {
        Err(SyncError::Authentication)
    } else {
        match aes256gcm_decrypted(key, artifact_nonce(artifact), artifact_body(artifact)) {
            Some(plaintext) => Ok(plaintext),
            None => Err(SyncError::Authentication),
        }
    }
}

/// Lays an artifact out: the nonce, then the ciphertext with its tag.
pub fn frame_artifact(nonce: &[u8], ciphertext: &[u8]) -> (artifact: Vec<u8>)
    ensures
        artifact@ == nonce@ + ciphertext@,
{
    let mut artifact = slice_to_vec(nonce);
    artifact.extend_from_slice(ciphertext);
    assert(artifact@ =~= nonce@ + ciphertext@);
    artifact
}

/// Splits an artifact into its nonce and the ciphertext with its tag;
/// `None` where it is shorter than a nonce.
pub fn split_artifact(artifact: &[u8]) -> (parts: Option<(&[u8], &[u8])>)
    ensures
        match parts {
            Some((nonce, body)) => {
                &&& artifact@.len() >= 12
                &&& nonce@ == artifact_nonce(artifact@)
                &&& body@ == artifact_body(artifact@)
            },
            None => artifact@.len() < 12,
        },
{
    if artifact.len() < NONCE_LEN {
        None
    } else {
        let nonce = slice_subrange(artifact, 0, NONCE_LEN);
        let body = slice_subrange(artifact, NONCE_LEN, artifact.len());
        Some((nonce, body))
    }
}

/// The AES-256-GCM codec, holding the derived key.
pub struct AesEncryption {
    key: Vec<u8>,
}

impl AesEncryption {
    #[verifier::type_invariant]
    spec fn key_has_full_length(self) -> bool {
        self.key@.len() == 32
    }

    /// The 32 bytes of the key.
    pub closed spec fn key(self) -> Seq<u8> {
        self.key@
    }

    /// True when this codec holds the key that `secret` stands for.
    pub open spec fn derived_from(self, secret: Seq<u8>) -> bool {
        self.key() == derived_key(secret)
    }

    /// Builds the codec from raw key bytes. Any length but 32 is a `Key`
    /// error, raised here and not at first use.
    pub fn from_key_bytes(key: &[u8]) -> (r: Result<AesEncryption, SyncError>)
        ensures
            match r {
                Ok(codec) => key@.len() == 32 && codec.key() == key@,
                Err(e) => key@.len() != 32 && e == SyncError::Key,
            },
    {
        if key.len() == KEY_LEN {
            Ok(AesEncryption { key: slice_to_vec(key) })
        } else {
            Err(SyncError::Key)
        }
    }

    /// Builds the codec from a configured secret, deriving the key as
    /// `derived_key` says: the secret is the key where it is 64 hexadecimal
    /// digits, and is hashed in every other case. Always succeeds.
    pub fn new(key: &str) -> (r: Result<AesEncryption, SyncError>)
        ensures
            r matches Ok(codec) && codec.derived_from(key.spec_bytes()),
    {
        let secret = key.as_bytes();
        if secret.len() == 64 {
            match hex_decode(secret) {
                Ok(bytes) => {
                    assert(bytes@.len() == 32);
                    Ok(AesEncryption { key: bytes })
                },
                Err(_) => Ok(AesEncryption { key: sha256(secret) }),
            }
        } else {
            Ok(AesEncryption { key: sha256(secret) })
        }
    }

    /// Seals `plaintext` under the given nonce and frames the artifact.
    fn seal_under(&self, nonce: &[u8], plaintext: &[u8]) -> (r: Result<Vec<u8>, SyncError>)
        requires
            nonce@.len() == 12,
        ensures
            match r {
                Ok(artifact) => {
                    &&& sealed(self.key(), nonce@, plaintext@) == Some(artifact_body(artifact@))
                    &&& artifact_nonce(artifact@) == nonce@
                    &&& is_artifact_of(self.key(), plaintext@, artifact@)
                },
                Err(e) => e == SyncError::Transform,
            },
            r is Ok <==> plaintext@.len() <= MAX_PLAINTEXT_LEN,
    {
        proof {
            use_type_invariant(self);
        }
        match aes256gcm_seal(self.key.as_slice(), nonce, plaintext) {
            Ok(ciphertext) => {
                let artifact = frame_artifact(nonce, ciphertext.as_slice());
                assert(artifact_nonce(artifact@) =~= nonce@);
                assert(artifact_body(artifact@) =~= ciphertext@);
                Ok(artifact)
            },
            Err(_) => Err(SyncError::Transform),
        }
    }

    /// Encrypts the contents of a file under a nonce freshly drawn from the
    /// operating system's random source. The caller cannot supply the nonce.
    ///
    /// An artifact that comes back is an encryption of `plaintext` under this
    /// codec's key, and `opened` turns it back into `plaintext`. The call
    /// fails, with a `Transform` error, where the plaintext is longer than
    /// `MAX_PLAINTEXT_LEN` or the random source gives no nonce.
    pub fn encrypt_file(&self, plaintext: &[u8]) -> (r: Result<Vec<u8>, SyncError>)
        ensures
            match r {
                Ok(artifact) => {
                    &&& is_artifact_of(self.key(), plaintext@, artifact@)
                    &&& opened(self.key(), artifact@) == Ok::<Seq<u8>, SyncError>(plaintext@)
                },
                Err(e) => e == SyncError::Transform,
            },
            plaintext@.len() > MAX_PLAINTEXT_LEN ==> r is Err,
    {
        match os_random_bytes(NONCE_LEN) {
            Ok(nonce) => self.seal_under(nonce.as_slice(), plaintext),
            Err(_) => Err(SyncError::Transform),
        }
    }

    /// Decrypts an encrypted artifact: the first 12 bytes are the nonce, the
    /// rest the ciphertext with its tag. Fails with an `Authentication`
    /// error, and releases no plaintext, where the artifact is too short or
    /// its tag does not verify under this codec's key.
    pub fn decrypt_file(&self, artifact: &[u8]) -> (r: Result<Vec<u8>, SyncError>)
        ensures
            bytes_of(r) == opened(self.key(), artifact@),
            r matches Ok(plaintext) ==> artifact@.len() == 12 + plaintext@.len() + 16,
    {
        proof {
            use_type_invariant(self);
        }
        match split_artifact(artifact) {
            Some((nonce, body)) => match aes256gcm_open(self.key.as_slice(), nonce, body) {
                Ok(plaintext) => Ok(plaintext),
                Err(_) => Err(SyncError::Authentication),
            },
            None => Err(SyncError::Authentication),
        }
    }
}

/// Decryption inverts encryption: an artifact that encrypts `plaintext`
/// under `key`, whatever its nonce, opens under `key` to `plaintext`.
pub proof fn lemma_decrypt_inverts_encrypt(key: Seq<u8>, plaintext: Seq<u8>, artifact: Seq<u8>)
    ensures
        is_artifact_of(key, plaintext, artifact) ==> opened(key, artifact) == Ok::<
            Seq<u8>,
            SyncError,
        >(plaintext),
{
}

/// True when `tampered` is `artifact` with some of its last 16 bytes
/// changed and nothing else.
pub open spec fn differs_in_tag_only(artifact: Seq<u8>, tampered: Seq<u8>) -> bool {
    &&& tampered.len() == artifact.len()
    &&& tampered.subrange(0, tampered.len() - 16) == artifact.subrange(0, artifact.len() - 16)
    &&& tampered != artifact
}

/// A tampered tag is always detected: an artifact that differs from an
/// encryption of `plaintext` under `key` only within its last 16 bytes does
/// not open under `key`.
pub proof fn lemma_tampered_tag_is_rejected(
    key: Seq<u8>,
    plaintext: Seq<u8>,
    artifact: Seq<u8>,
    tampered: Seq<u8>,
)
    ensures
        differs_in_tag_only(artifact, tampered) && is_artifact_of(key, plaintext, artifact)
            ==> opened(key, tampered) == Err::<Seq<u8>, SyncError>(SyncError::Authentication),
{
    if differs_in_tag_only(artifact, tampered) && is_artifact_of(key, plaintext, artifact) {
        let n = artifact.len() as int;
        let body = artifact_body(artifact);
        let tag = tag_of(artifact_body(tampered));
        assert forall|i: int| 0 <= i < n - 16 implies tampered[i] == artifact[i] by {
            assert(tampered[i] == tampered.subrange(0, n - 16)[i]);
            assert(artifact[i] == artifact.subrange(0, n - 16)[i]);
        }
        assert(artifact_nonce(tampered) =~= artifact_nonce(artifact));
        assert(artifact_body(tampered) =~= retagged(body, tag));
        if tag == tag_of(body) {
            assert forall|i: int| n - 16 <= i < n implies tampered[i] == artifact[i] by {
                assert(tampered[i] == tag[i - (n - 16)]);
                assert(artifact[i] == tag_of(body)[i - (n - 16)]);
            }
            assert(tampered =~= artifact);
        }
    }
}

/// True when `tampered` is `artifact` with some of its first 12 bytes
/// changed and nothing else.
pub open spec fn differs_in_nonce_only(artifact: Seq<u8>, tampered: Seq<u8>) -> bool {
    &&& tampered.len() == artifact.len()
    &&& artifact_body(tampered) == artifact_body(artifact)
    &&& tampered != artifact
}

/// A tampered nonce is always detected: an artifact that differs from an
/// encryption of `plaintext` under `key` only within its first 12 bytes does
/// not open under `key`.
pub proof fn lemma_tampered_nonce_is_rejected(
    key: Seq<u8>,
    plaintext: Seq<u8>,
    artifact: Seq<u8>,
    tampered: Seq<u8>,
)
    ensures
        differs_in_nonce_only(artifact, tampered) && is_artifact_of(key, plaintext, artifact)
            ==> opened(key, tampered) == Err::<Seq<u8>, SyncError>(SyncError::Authentication),
{
    if differs_in_nonce_only(artifact, tampered) && is_artifact_of(key, plaintext, artifact) {
        let n = artifact.len() as int;
        if artifact_nonce(tampered) == artifact_nonce(artifact) {
            assert forall|i: int| 0 <= i < n implies tampered[i] == artifact[i] by {
                if i < 12 {
                    assert(tampered[i] == artifact_nonce(tampered)[i]);
                    assert(artifact[i] == artifact_nonce(artifact)[i]);
                } else {
                    assert(tampered[i] == artifact_body(tampered)[i - 12]);
                    assert(artifact[i] == artifact_body(artifact)[i - 12]);
                }
            }
            assert(tampered =~= artifact);
        }
    }
}

/// Decryption fails closed: whatever the key and the artifact, it yields
/// either the plaintext that the cipher authenticates or an
/// `Authentication` error, and an artifact shorter than a nonce is always
/// refused.
pub proof fn lemma_rejection_is_authentication_error(key: Seq<u8>, artifact: Seq<u8>)
    ensures
        match opened(key, artifact) {
            Ok(plaintext) => artifact.len() >= 12 && aes256gcm_decrypted(
                key,
                artifact_nonce(artifact),
                artifact_body(artifact),
            ) == Some(plaintext),
            Err(e) => e == SyncError::Authentication,
        },
        artifact.len() < 12 ==> opened(key, artifact) is Err,
{
}

/// Key derivation is a function of the secret alone: two codecs built from
/// the same secret hold the same key.
pub proof fn lemma_key_derivation_deterministic(
    first: AesEncryption,
    second: AesEncryption,
    secret: Seq<u8>,
)
    ensures
        first.derived_from(secret) && second.derived_from(secret) ==> first.key() == second.key(),
{
}

} // verus!
