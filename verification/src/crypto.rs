//! Cryptographic primitives and the key material derived from them.
//!
//! The primitives (MD5, SHA-1, HMAC-SHA-1, PBKDF2) are computed by outside
//! crates through trusted wrappers.  Their results are pure functions of the
//! inputs, so each is given an uninterpreted name; everything built on top
//! speaks of those names exactly.

use vstd::prelude::*;
use crate::codec::{hex_encode, hex_of};
use hmac::{Hmac, KeyInit, Mac};
use md5::Md5;
use sha1::{Digest, Sha1};

verus! {

/// The 16-byte MD5 digest of `data`.
pub uninterp spec fn md5_of(data: Seq<u8>) -> Seq<u8>;

/// The 20-byte SHA-1 digest of `data`.
pub uninterp spec fn sha1_of(data: Seq<u8>) -> Seq<u8>;

/// The 20-byte HMAC-SHA-1 of `data` under `key`.
pub uninterp spec fn hmac_sha1_of(key: Seq<u8>, data: Seq<u8>) -> Seq<u8>;

/// The 20-byte PBKDF2-HMAC-SHA-1 derivation from `password` and `salt` over
/// `rounds` rounds.
pub uninterp spec fn pbkdf2_sha1_of(password: Seq<u8>, salt: Seq<u8>, rounds: u32) -> Seq<u8>;

/// Relies on md5::Md5 (through the Digest trait): the 16-byte MD5 digest.
#[verifier::external_body]
pub(crate) fn md5_digest(data: &[u8]) -> (r: Vec<u8>)
    ensures
        r@ == md5_of(data@),
        r@.len() == 16,
{
    Md5::digest(data).to_vec()
}

/// Relies on sha1::Sha1 (through the Digest trait): the 20-byte SHA-1 digest.
#[verifier::external_body]
pub(crate) fn sha1_digest(data: &[u8]) -> (r: Vec<u8>)
    ensures
        r@ == sha1_of(data@),
        r@.len() == 20,
{
    Sha1::digest(data).to_vec()
}

/// Relies on hmac::Hmac over sha1::Sha1: the 20-byte HMAC-SHA-1 tag; a key
/// of any length is accepted.
#[verifier::external_body]
pub(crate) fn hmac_sha1(key: &[u8], data: &[u8]) -> (r: Vec<u8>)
    ensures
        r@ == hmac_sha1_of(key@, data@),
        r@.len() == 20,
{
    let mut mac = <Hmac<Sha1> as KeyInit>::new_from_slice(key).expect(
        "HMAC accepts a key of any length",
    );
    mac.update(data);
    mac.finalize().into_bytes().to_vec()
}

/// Relies on pbkdf2::pbkdf2 with Hmac<Sha1>: fills the 20-byte output from
/// the password, salt and round count; an HMAC key of any length is accepted.
#[verifier::external_body]
pub(crate) fn pbkdf2_hmac_sha1(password: &[u8], salt: &[u8], rounds: u32) -> (r: Vec<u8>)
    ensures
        r@ == pbkdf2_sha1_of(password@, salt@, rounds),
        r@.len() == 20,
{
    let mut out = [0u8; 20];
    pbkdf2::pbkdf2::<Hmac<Sha1>>(password, salt, rounds, &mut out).expect(
        "HMAC accepts a key of any length",
    );
    out.to_vec()
}

/// Relies on textnonce::TextNonce::sized: with length 64 it yields, on
/// success, a 64-character base64 text built from the time and fresh
/// randomness; nothing more is promised of a random value.
#[verifier::external_body]
pub(crate) fn generate_nonce() -> (r: Option<Vec<u8>>)
    ensures
        r matches Some(v) ==> v@.len() == 64,
{
    match textnonce::TextNonce::sized(64) {
        Ok(t) => Some(t.into_string().into_bytes()),
        Err(_) => None,
    }
}

/// Bytewise XOR of two equal-length byte sequences.
pub open spec fn xor_bytes(a: Seq<u8>, b: Seq<u8>) -> Seq<u8>
    recommends
        a.len() == b.len(),
{
    Seq::new(a.len(), |i: int| a[i] ^ b[i])
}

/// Bytewise XOR, the executable side of `xor_bytes`.
pub fn xor_pairwise(a: &[u8], b: &[u8]) -> (r: Vec<u8>)
    requires
        a@.len() == b@.len(),
    ensures
        r@ == xor_bytes(a@, b@),
{
    let n = a.len();
    let mut r: Vec<u8> = Vec::new();
    let mut i: usize = 0;
    while i < n
        invariant
            n == a@.len() == b@.len(),
            0 <= i <= n,
            r@.len() == i,
            forall|k: int| 0 <= k < i ==> r@[k] == (a@[k] ^ b@[k]),
        decreases n - i,
    {
        r.push(a[i] ^ b[i]);
        i += 1;
    }
    proof {
        assert(r@ =~= xor_bytes(a@, b@));
    }
    r
}

/// XOR round trip: masking a value and unmasking it with the same mask gives
/// the value back.  The server, after recomputing the client signature,
/// recovers the client key from the proof this way.
pub proof fn lemma_xor_involution(a: Seq<u8>, b: Seq<u8>)
    requires
        a.len() == b.len(),
    ensures
        xor_bytes(xor_bytes(a, b), b) == a,
{
    assert forall|i: int| 0 <= i < a.len() implies xor_bytes(xor_bytes(a, b), b)[i] == a[i] by {
        let x = a[i];
        let y = b[i];
        assert((x ^ y) ^ y == x) by (bit_vector);
    }
    assert(xor_bytes(xor_bytes(a, b), b) =~= a);
}

/// The label whose HMAC under the salted password gives the client key.
pub open spec fn client_key_label() -> Seq<u8> {
    seq![0x43u8, 0x6c, 0x69, 0x65, 0x6e, 0x74, 0x20, 0x4b, 0x65, 0x79]  // "Client Key"
}

/// The label whose HMAC under the salted password gives the server key.
pub open spec fn server_key_label() -> Seq<u8> {
    seq![0x53u8, 0x65, 0x72, 0x76, 0x65, 0x72, 0x20, 0x4b, 0x65, 0x79]  // "Server Key"
}

/// The legacy pre-hash of the password: the lower-case hex of the MD5 of
/// `<user>:mongo:<password>` (the argument is that joined text).
pub open spec fn hashed_password_spec(full_password: Seq<u8>) -> Seq<u8> {
    hex_of(md5_of(full_password))
}

/// The 20-byte salted password: PBKDF2-HMAC-SHA-1 of the pre-hashed
/// password.
pub open spec fn salted_password_spec(full_password: Seq<u8>, salt: Seq<u8>, iterations: u32) -> Seq<u8> {
    pbkdf2_sha1_of(hashed_password_spec(full_password), salt, iterations)
}

/// The client key: HMAC of the fixed client label under the salted password.
pub open spec fn client_key_spec(salted_password: Seq<u8>) -> Seq<u8> {
    hmac_sha1_of(salted_password, client_key_label())
}

/// The stored key: SHA-1 of the client key.
pub open spec fn stored_key_spec(salted_password: Seq<u8>) -> Seq<u8> {
    sha1_of(client_key_spec(salted_password))
}

/// The client signature: HMAC of the auth message under the stored key.
pub open spec fn client_signature_spec(salted_password: Seq<u8>, auth_message: Seq<u8>) -> Seq<u8> {
    hmac_sha1_of(stored_key_spec(salted_password), auth_message)
}

/// The client proof: client key XOR client signature.
pub open spec fn client_proof_spec(salted_password: Seq<u8>, auth_message: Seq<u8>) -> Seq<u8> {
    xor_bytes(client_key_spec(salted_password), client_signature_spec(salted_password, auth_message))
}

/// The server key: HMAC of the fixed server label under the salted password.
pub open spec fn server_key_spec(salted_password: Seq<u8>) -> Seq<u8> {
    hmac_sha1_of(salted_password, server_key_label())
}

/// The server signature: HMAC of the auth message under the server key.
pub open spec fn server_signature_spec(salted_password: Seq<u8>, auth_message: Seq<u8>) -> Seq<u8> {
    hmac_sha1_of(server_key_spec(salted_password), auth_message)
}

/// The client-key label as bytes.
pub(crate) fn client_key_label_bytes() -> (r: Vec<u8>)
    ensures
        r@ == client_key_label(),
{
    let mut v: Vec<u8> = Vec::new();
    v.push(0x43u8);
    v.push(0x6c);
    v.push(0x69);
    v.push(0x65);
    v.push(0x6e);
    v.push(0x74);
    v.push(0x20);
    v.push(0x4b);
    v.push(0x65);
    v.push(0x79);
    proof {
        assert(v@ =~= client_key_label());
    }
    v
}

/// The server-key label as bytes.
pub(crate) fn server_key_label_bytes() -> (r: Vec<u8>)
    ensures
        r@ == server_key_label(),
{
    let mut v: Vec<u8> = Vec::new();
    v.push(0x53u8);
    v.push(0x65);
    v.push(0x72);
    v.push(0x76);
    v.push(0x65);
    v.push(0x72);
    v.push(0x20);
    v.push(0x4b);
    v.push(0x65);
    v.push(0x79);
    proof {
        assert(v@ =~= server_key_label());
    }
    v
}

/// Derives the salted password from the joined password text, the decoded
/// salt, and the iteration count.
pub fn derive_salted_password(full_password: &[u8], salt: &[u8], iterations: u32) -> (r: Vec<u8>)
    ensures
        r@ == salted_password_spec(full_password@, salt@, iterations),
        r@.len() == 20,
{
    let digest = md5_digest(full_password);
    let hashed = hex_encode(digest.as_slice());
    pbkdf2_hmac_sha1(hashed.as_slice(), salt, iterations)
}

/// The key derivation is a pure function of its inputs: equal passwords,
/// salts and iteration counts give equal salted passwords.
pub proof fn lemma_salted_password_deterministic(
    full_password1: Seq<u8>,
    salt1: Seq<u8>,
    iterations1: u32,
    full_password2: Seq<u8>,
    salt2: Seq<u8>,
    iterations2: u32,
)
    requires
        full_password1 == full_password2,
        salt1 == salt2,
        iterations1 == iterations2,
    ensures
        salted_password_spec(full_password1, salt1, iterations1) == salted_password_spec(
            full_password2,
            salt2,
            iterations2,
        ),
{
}

} // verus!
