//! Identity: offline-mode player UUIDs, and the checks and hash of the
//! online-mode key exchange.
use vstd::prelude::*;
use vstd::utf8::encode_utf8;

use crate::buffer::{be_value, pow256, put_slice};

verus! {

/// The MD5 digest of `data`.
pub uninterp spec fn md5_of(data: Seq<u8>) -> Seq<u8>;

/// The SHA-1 digest of `data`.
pub uninterp spec fn sha1_of(data: Seq<u8>) -> Seq<u8>;

/// Relies on `md5::Md5` (the `Digest` trait's `digest`): the 16-byte MD5
/// digest of `data`.
#[verifier::external_body]
fn md5_digest(data: &[u8]) -> (r: Vec<u8>)
    ensures
        r@ == md5_of(data@),
        r@.len() == 16,
{
    <md5::Md5 as md5::Digest>::digest(data).to_vec()
}

/// Relies on `sha1::Sha1` (the `Digest` trait's `digest`): the 20-byte SHA-1
/// digest of `data`.
#[verifier::external_body]
fn sha1_digest(data: &[u8]) -> (r: Vec<u8>)
    ensures
        r@ == sha1_of(data@),
        r@.len() == 20,
{
    <sha1::Sha1 as sha1::Digest>::digest(data).to_vec()
}

/// The UUID bytes `uuid::Builder::from_md5_bytes` makes of a digest: the
/// version nibble set to 3 and the variant bits to RFC 4122.
pub open spec fn md5_uuid_bytes(d: Seq<u8>) -> Seq<u8> {
    d.update(6, (d[6] & 0x0f) | 0x30).update(8, (d[8] & 0x3f) | 0x80)
}

/// Relies on `uuid::Builder::from_md5_bytes`, read back with `as_u128`
/// (big-endian).
#[verifier::external_body]
fn uuid_from_md5(d: &[u8]) -> (r: u128)
    requires
        d@.len() == 16,
    ensures
        r as nat == be_value(md5_uuid_bytes(d@)),
{
    let mut bytes = [0u8; 16];
    bytes.copy_from_slice(d);
    uuid::Builder::from_md5_bytes(bytes).into_uuid().as_u128()
}

/// The lowercase hexadecimal digits of `n`, without leading zeros.
pub open spec fn hex_digits(n: nat) -> Seq<char>
    decreases n,
{
    if n < 16 {
        seq![hex_char(n)]
    } else {
        hex_digits(n / 16) + seq![hex_char(n % 16)]
    }
}

pub open spec fn hex_char(d: nat) -> char {
    if d < 10 {
        (48 + d) as char
    } else {
        (87 + d) as char
    }
}

/// The value of `b` read as a big-endian two's-complement integer.
pub open spec fn signed_be_value(b: Seq<u8>) -> int {
    if b.len() > 0 && b[0] >= 128 {
        be_value(b) - pow256(b.len())
    } else {
        be_value(b) as int
    }
}

/// `v` in hexadecimal, with a leading `-` where it is negative.
pub open spec fn signed_hex(v: int) -> Seq<char> {
    if v < 0 {
        seq!['-'] + hex_digits((-v) as nat)
    } else {
        hex_digits(v as nat)
    }
}

/// Relies on `num_bigint::BigInt::from_signed_bytes_be`, then
/// `to_str_radix(16)`: lowercase digits, `-` before a negative value, "0"
/// for zero.
#[verifier::external_body]
fn signed_hex_of(b: &[u8]) -> (r: String)
    ensures
        r@ == signed_hex(signed_be_value(b@)),
{
    num_bigint::BigInt::from_signed_bytes_be(b).to_str_radix(16)
}

/// The bytes an offline player's UUID is hashed from.
pub open spec fn offline_seed(username: Seq<char>) -> Seq<u8> {
    encode_utf8("OfflinePlayer:"@) + encode_utf8(username)
}

/// The offline-mode UUID of a digest: the digest shaped as a version-3 UUID.
pub fn uuid_from_digest(digest: &[u8]) -> (r: u128)
    requires
        digest@.len() == 16,
    ensures
        r as nat == be_value(md5_uuid_bytes(digest@)),
{
    uuid_from_md5(digest)
}

/// The UUID of a player who did not supply one: MD5 of
/// `OfflinePlayer:<username>`, shaped as a version-3 UUID.
pub fn generate_offline_uuid(username: &str) -> (r: u128)
    ensures
        r as nat == be_value(md5_uuid_bytes(md5_of(offline_seed(username@)))),
{
    let mut seed: Vec<u8> = Vec::new();
    put_slice(&mut seed, "OfflinePlayer:".as_bytes());
    put_slice(&mut seed, username.as_bytes());
    let digest = md5_digest(seed.as_slice());
    uuid_from_digest(digest.as_slice())
}

/// The server id of a SHA-1 digest: the digest read as a signed big-endian
/// integer, in hexadecimal.
pub fn server_id_from_digest(digest: &[u8]) -> (r: String)
    ensures
        r@ == signed_hex(signed_be_value(digest@)),
{
    signed_hex_of(digest)
}

/// The hash the session server checks a join against: SHA-1 over the empty
/// server id, the shared secret and the public key, read as a signed
/// big-endian integer, in hexadecimal.
pub fn generate_server_id(shared_secret: &[u8], public_key: &[u8]) -> (r: String)
    ensures
        r@ == signed_hex(signed_be_value(sha1_of(shared_secret@ + public_key@))),
{
    let mut data: Vec<u8> = Vec::new();
    put_slice(&mut data, shared_secret);
    put_slice(&mut data, public_key);
    let digest = sha1_digest(data.as_slice());
    server_id_from_digest(digest.as_slice())
}

/// Why an encryption response is refused.
#[derive(Clone, Copy, Debug, PartialEq, Eq, Structural)]
pub enum AuthError {
    /// The verify token that came back is not the one sent.
    InvalidVerifyToken,
    /// The shared secret is not 16 bytes long.
    InvalidSharedSecret,
    /// A field does not decrypt with the server's key.
    DecryptFailed,
}

/// `openssl::pkey::PKey`, a key pair, carried opaquely.
#[verifier::external_type_specification]
#[verifier::external_body]
#[verifier::reject_recursive_types(T)]
pub struct ExPKey<T>(openssl::pkey::PKey<T>);

/// `openssl::pkey::Private`, the marker of a key with its private half.
#[verifier::external_type_specification]
#[verifier::external_body]
pub struct ExPrivate(openssl::pkey::Private);

/// Relies on `openssl::encrypt::Decrypter` with PKCS#1 padding: the RSA
/// decryption of `data` with the private key, or `None` where it fails.
#[verifier::external_body]
fn rsa_decrypt(key: &openssl::pkey::PKey<openssl::pkey::Private>, data: &[u8]) -> (r: Option<Vec<u8>>) {
    let mut d = openssl::encrypt::Decrypter::new(key).ok()?;
    d.set_rsa_padding(openssl::rsa::Padding::PKCS1).ok()?;
    let mut out = vec![0u8; d.decrypt_len(data).ok()?];
    let n = d.decrypt(data, &mut out).ok()?;
    out.truncate(n);
    Some(out)
}

/// Decrypts the fields of an encryption response with the server's private
/// key and checks them: whatever the decryption gives, a shared secret comes
/// back only where the token decrypted to the one sent and the secret to
/// 16 bytes.
pub fn verify_encryption_response(
    key: &openssl::pkey::PKey<openssl::pkey::Private>,
    sent_token: &[u8],
    shared_secret: &[u8],
    verify_token: &[u8],
) -> (r: Result<Vec<u8>, AuthError>)
    ensures
        r matches Ok(secret) ==> secret@.len() == 16,
{
    let token = match rsa_decrypt(key, verify_token) {
        Some(t) => t,
        None => return Err(AuthError::DecryptFailed),
    };
    let secret = match rsa_decrypt(key, shared_secret) {
        Some(s) => s,
        None => return Err(AuthError::DecryptFailed),
    };
    check_encryption_response(sent_token, token.as_slice(), secret)
}

/// Checks the decrypted fields of an encryption response: the verify token
/// must be the one sent, and the shared secret must be 16 bytes, the AES
/// key and IV.
pub fn check_encryption_response(sent_token: &[u8], token: &[u8], secret: Vec<u8>) -> (r: Result<
    Vec<u8>,
    AuthError,
>)
    ensures
        token@ != sent_token@ ==> r == Err::<Vec<u8>, AuthError>(AuthError::InvalidVerifyToken),
        token@ == sent_token@ && secret@.len() != 16 ==> r == Err::<Vec<u8>, AuthError>(
            AuthError::InvalidSharedSecret,
        ),
        token@ == sent_token@ && secret@.len() == 16 ==> (r matches Ok(k) && k@ == secret@),
{
    if !bytes_equal(sent_token, token) {
        return Err(AuthError::InvalidVerifyToken);
    }
    if secret.len() != 16 {
        return Err(AuthError::InvalidSharedSecret);
    }
    Ok(secret)
}

/// Whether two byte strings are equal.
pub fn bytes_equal(a: &[u8], b: &[u8]) -> (r: bool)
    ensures
        r == (a@ == b@),
{
    if a.len() != b.len() {
        return false;
    }
    let mut i: usize = 0;
    while i < a.len()
        invariant
            i <= a@.len(),
            a@.len() == b@.len(),
            forall|j: int| 0 <= j < i ==> a@[j] == b@[j],
        decreases a@.len() - i,
    {
        if a[i] != b[i] {
            return false;
        }
        i = i + 1;
    }
    assert(a@ =~= b@);
    true
}

} // verus!
