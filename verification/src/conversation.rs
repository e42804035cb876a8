//! The three-phase SCRAM-SHA-1 conversation.
//!
//! Phase one builds the client-first message and takes the server's first
//! reply apart.  Phase two checks the server nonce, derives the key
//! material, and builds the client-final message.  Phase three verifies the
//! server's own proof and recognises the completion flag.  Sending and
//! receiving stay with the caller: every function here maps plain values to
//! plain values.

use vstd::prelude::*;
use vstd::utf8::valid_utf8;
use crate::codec::{
    base64_decode,
    base64_encode,
    base64_of,
    lemma_ascii_valid_utf8,
    lemma_base64_ascii,
    utf8_check,
};
use crate::crypto::{
    client_key_label_bytes,
    client_proof_spec,
    derive_salted_password,
    generate_nonce,
    hmac_sha1,
    salted_password_spec,
    server_key_label_bytes,
    server_signature_spec,
    sha1_digest,
    xor_pairwise,
};
use crate::document::{clone_value, lookup, Document, FieldKey, Value, ValueView};
use crate::errors::{AuthError, MaliciousServerErrorType};
use crate::manager::ClientOptions;
use crate::parse::{comma, parse_server_final, parse_server_final_spec, parse_server_first, parse_server_first_spec};

verus! {

/// `n=`, the tag of the user name in the client-first message.
pub open spec fn user_tag() -> Seq<u8> {
    seq![0x6eu8, 0x3d]
}

/// `,r=`, the tag of the nonce in the client-first message.
pub open spec fn nonce_tag() -> Seq<u8> {
    seq![0x2cu8, 0x72, 0x3d]
}

/// `n,,`, the GS2 header prefixed to the client-first message.
pub open spec fn gs2_header() -> Seq<u8> {
    seq![0x6eu8, 0x2c, 0x2c]
}

/// `c=biws,r=`, the channel-binding flag and nonce tag of the client-final
/// message (`biws` is the base64 of the GS2 header).
pub open spec fn channel_binding_prefix() -> Seq<u8> {
    seq![0x63u8, 0x3d, 0x62, 0x69, 0x77, 0x73, 0x2c, 0x72, 0x3d]
}

/// `,p=`, the tag of the proof in the client-final message.
pub open spec fn proof_tag() -> Seq<u8> {
    seq![0x2cu8, 0x70, 0x3d]
}

/// `v=`, the tag of the server signature in the server-final payload.
pub open spec fn verifier_tag() -> Seq<u8> {
    seq![0x76u8, 0x3d]
}

/// `:mongo:`, the historical separator joining user and password before the
/// legacy MD5 pre-hash.
pub open spec fn password_separator() -> Seq<u8> {
    seq![0x3au8, 0x6d, 0x6f, 0x6e, 0x67, 0x6f, 0x3a]
}

/// The client-first message body: `n=<user>,r=<nonce>`.
pub open spec fn client_first_bare_spec(user: Seq<u8>, nonce: Seq<u8>) -> Seq<u8> {
    user_tag() + user + nonce_tag() + nonce
}

/// The client-first message with its GS2 header: `n,,n=<user>,r=<nonce>`.
pub open spec fn gs2_wrapped_spec(bare: Seq<u8>) -> Seq<u8> {
    gs2_header() + bare
}

/// The client-final message before the proof: `c=biws,r=<rnonce>`.
pub open spec fn without_proof_spec(rnonce: Seq<u8>) -> Seq<u8> {
    channel_binding_prefix() + rnonce
}

/// The auth message both sides sign: the three message fragments joined by
/// commas, byte for byte.
pub open spec fn auth_message_spec(bare: Seq<u8>, server_first: Seq<u8>, without_proof: Seq<u8>) -> Seq<u8> {
    bare + seq![comma()] + server_first + seq![comma()] + without_proof
}

/// The full client-final message: `c=biws,r=<rnonce>,p=<proof-base64>`.
pub open spec fn client_final_spec(rnonce: Seq<u8>, proof: Seq<u8>) -> Seq<u8> {
    without_proof_spec(rnonce) + proof_tag() + base64_of(proof)
}

/// The joined password text `<user>:mongo:<password>` that the legacy
/// pre-hash digests.
pub open spec fn full_password_spec(user: Seq<u8>, password: Seq<u8>) -> Seq<u8> {
    user + password_separator() + password
}

/// The server-final payload carrying the server's signature:
/// `v=<signature-base64>`.
pub open spec fn verifier_payload_spec(signature: Seq<u8>) -> Seq<u8> {
    verifier_tag() + base64_of(signature)
}

/// The start-of-conversation command document.
pub open spec fn start_document_spec(payload: Seq<u8>) -> Seq<(FieldKey, ValueView)> {
    seq![
        (FieldKey::SaslStart, ValueView::Int(1)),
        (FieldKey::AutoAuthorize, ValueView::Int(1)),
        (FieldKey::Payload, ValueView::Bin(payload)),
        (FieldKey::Mechanism, ValueView::Str("SCRAM-SHA-1"@)),
    ]
}

/// A continue-conversation command document.
pub open spec fn continue_document_spec(payload: Seq<u8>, conversation_id: ValueView) -> Seq<
    (FieldKey, ValueView),
> {
    seq![
        (FieldKey::SaslContinue, ValueView::Int(1)),
        (FieldKey::Payload, ValueView::Bin(payload)),
        (FieldKey::ConversationId, conversation_id),
    ]
}

/// Appends `src` to `dst`.
fn append_bytes(dst: &mut Vec<u8>, src: &[u8])
    ensures
        final(dst)@ == old(dst)@ + src@,
{
    let n = src.len();
    let mut i: usize = 0;
    proof {
        assert(dst@ =~= old(dst)@ + src@.take(0));
    }
    while i < n
        invariant
            n == src@.len(),
            0 <= i <= n,
            dst@ == old(dst)@ + src@.take(i as int),
        decreases n - i,
    {
        let ghost prev = dst@;
        dst.push(src[i]);
        proof {
            assert(dst@ =~= old(dst)@ + src@.take(i as int + 1));
        }
        i += 1;
    }
    proof {
        assert(old(dst)@ + src@.take(n as int) =~= old(dst)@ + src@);
    }
}

/// True when `prefix` starts `s`.
pub fn starts_with_bytes(s: &[u8], prefix: &[u8]) -> (r: bool)
    ensures
        r == prefix@.is_prefix_of(s@),
{
    let plen = prefix.len();
    if plen > s.len() {
        return false;
    }
    let mut i: usize = 0;
    while i < plen
        invariant
            plen == prefix@.len() <= s@.len(),
            0 <= i <= plen,
            forall|k: int| 0 <= k < i ==> prefix@[k] == s@[k],
        decreases plen - i,
    {
        if prefix[i] != s[i] {
            assert(prefix@[i as int] != s@.subrange(0, plen as int)[i as int]);
            return false;
        }
        i += 1;
    }
    proof {
        assert(prefix@ =~= s@.subrange(0, plen as int));
    }
    true
}

/// True when the two byte strings are equal.
pub fn bytes_eq(a: &[u8], b: &[u8]) -> (r: bool)
    ensures
        r == (a@ == b@),
{
    if a.len() != b.len() {
        return false;
    }
    let n = a.len();
    let mut i: usize = 0;
    while i < n
        invariant
            n == a@.len() == b@.len(),
            0 <= i <= n,
            forall|k: int| 0 <= k < i ==> a@[k] == b@[k],
        decreases n - i,
    {
        if a[i] != b[i] {
            assert(a@[i as int] != b@[i as int]);
            return false;
        }
        i += 1;
    }
    proof {
        assert(a@ =~= b@);
    }
    true
}

/// Builds the client-first message body `n=<user>,r=<nonce>`.
pub fn build_client_first_bare(user: &[u8], nonce: &[u8]) -> (r: Vec<u8>)
    ensures
        r@ == client_first_bare_spec(user@, nonce@),
{
    let mut r: Vec<u8> = Vec::new();
    r.push(0x6e);
    r.push(0x3d);
    append_bytes(&mut r, user);
    r.push(0x2c);
    r.push(0x72);
    r.push(0x3d);
    append_bytes(&mut r, nonce);
    proof {
        assert(r@ =~= client_first_bare_spec(user@, nonce@));
    }
    r
}

/// Wraps a message body in the GS2 header `n,,`.
pub fn gs2_wrap(bare: &[u8]) -> (r: Vec<u8>)
    ensures
        r@ == gs2_wrapped_spec(bare@),
{
    let mut r: Vec<u8> = Vec::new();
    r.push(0x6e);
    r.push(0x2c);
    r.push(0x2c);
    append_bytes(&mut r, bare);
    proof {
        assert(r@ =~= gs2_wrapped_spec(bare@));
    }
    r
}

/// Builds the pre-proof client-final message `c=biws,r=<rnonce>`.
pub fn build_without_proof(rnonce: &[u8]) -> (r: Vec<u8>)
    ensures
        r@ == without_proof_spec(rnonce@),
{
    let mut r: Vec<u8> = Vec::new();
    r.push(0x63);
    r.push(0x3d);
    r.push(0x62);
    r.push(0x69);
    r.push(0x77);
    r.push(0x73);
    r.push(0x2c);
    r.push(0x72);
    r.push(0x3d);
    append_bytes(&mut r, rnonce);
    proof {
        assert(r@ =~= without_proof_spec(rnonce@));
    }
    r
}

/// Builds the auth message: the three fragments joined by commas, exactly.
pub fn build_auth_message(bare: &[u8], server_first: &[u8], without_proof: &[u8]) -> (r: Vec<u8>)
    ensures
        r@ == auth_message_spec(bare@, server_first@, without_proof@),
{
    let mut r: Vec<u8> = Vec::new();
    append_bytes(&mut r, bare);
    r.push(0x2c);
    append_bytes(&mut r, server_first);
    r.push(0x2c);
    append_bytes(&mut r, without_proof);
    proof {
        assert(r@ =~= auth_message_spec(bare@, server_first@, without_proof@));
    }
    r
}

/// Joins user and password with the historical `:mongo:` separator.
pub fn build_full_password(user: &[u8], password: &[u8]) -> (r: Vec<u8>)
    ensures
        r@ == full_password_spec(user@, password@),
{
    let mut r: Vec<u8> = Vec::new();
    append_bytes(&mut r, user);
    r.push(0x3a);
    r.push(0x6d);
    r.push(0x6f);
    r.push(0x6e);
    r.push(0x67);
    r.push(0x6f);
    r.push(0x3a);
    append_bytes(&mut r, password);
    proof {
        assert(r@ =~= full_password_spec(user@, password@));
    }
    r
}

/// What phase one yields: the pieces of the conversation that later phases
/// read.
#[derive(Debug)]
pub struct InitialData {
    /// The client-first message body.
    pub message: Vec<u8>,
    /// The server-first message text.
    pub response: Vec<u8>,
    /// The locally generated client nonce.
    pub nonce: Vec<u8>,
    /// The server-issued conversation identifier, echoed verbatim.
    pub conversation_id: Value,
}

/// What phase two yields: the secrets and transcript phase three verifies.
#[derive(Debug)]
pub struct AuthData {
    /// The 20-byte salted password.
    pub salted_password: Vec<u8>,
    /// The auth message both sides sign.
    pub message: Vec<u8>,
    /// The reply to the client-final message.
    pub response: Document,
}

/// Builds the client-first message and the start-of-conversation command.
/// Returns the message body, the fresh nonce, and the command document; the
/// only error is a failure of local nonce generation.
pub fn begin_conversation(user: &[u8]) -> (r: Result<(Vec<u8>, Vec<u8>, Document), AuthError>)
    ensures
        r matches Ok(t) ==> {
            &&& t.0@ == client_first_bare_spec(user@, t.1@)
            &&& t.1@.len() == 64
            &&& t.2@ == start_document_spec(gs2_wrapped_spec(t.0@))
        },
        r matches Err(e) ==> e == AuthError::LocalGenerationError,
{
    let nonce = match generate_nonce() {
        Some(n) => n,
        None => {
            return Err(AuthError::LocalGenerationError);
        },
    };
    let bare = build_client_first_bare(user, nonce.as_slice());
    let payload = gs2_wrap(bare.as_slice());
    let mut doc = Document::new();
    doc.push(FieldKey::SaslStart, Value::Int(1));
    doc.push(FieldKey::AutoAuthorize, Value::Int(1));
    doc.push(FieldKey::Payload, Value::Bin(payload));
    doc.push(FieldKey::Mechanism, Value::Str(String::from_str("SCRAM-SHA-1")));
    proof {
        assert(doc@ =~= start_document_spec(gs2_wrapped_spec(bare@)));
    }
    Ok((bare, nonce, doc))
}

/// True when the reply to the start command is well-formed: a binary payload
/// holding UTF-8 text, and a conversation identifier.
pub open spec fn server_first_reply_ok(doc: Seq<(FieldKey, ValueView)>) -> bool {
    match lookup(doc, FieldKey::Payload) {
        Some(ValueView::Bin(p)) => valid_utf8(p) && lookup(doc, FieldKey::ConversationId) is Some,
        _ => false,
    }
}

/// Takes the reply to the start command apart: the server-first text and the
/// conversation identifier, joined with the pieces phase two needs.  Any
/// missing or ill-typed part is a response-format error.
pub fn accept_server_first(message: Vec<u8>, nonce: Vec<u8>, reply: &Document) -> (r: Result<
    InitialData,
    AuthError,
>)
    ensures
        r is Ok <==> server_first_reply_ok(reply@),
        r matches Ok(init) ==> {
            &&& init.message@ == message@
            &&& init.nonce@ == nonce@
            &&& lookup(reply@, FieldKey::Payload) == Some(ValueView::Bin(init.response@))
            &&& lookup(reply@, FieldKey::ConversationId) == Some(init.conversation_id@)
        },
        r matches Err(e) ==> e == AuthError::ResponseFormatError,
{
    let payload = match reply.get(FieldKey::Payload) {
        Some(v) => match v {
            Value::Bin(p) => p,
            _ => {
                return Err(AuthError::ResponseFormatError);
            },
        },
        None => {
            return Err(AuthError::ResponseFormatError);
        },
    };
    if !utf8_check(payload.as_slice()) {
        return Err(AuthError::ResponseFormatError);
    }
    let conversation_id = match reply.get(FieldKey::ConversationId) {
        Some(v) => clone_value(v),
        None => {
            return Err(AuthError::ResponseFormatError);
        },
    };
    let response = vstd::slice::slice_to_vec(payload.as_slice());
    Ok(InitialData { message, response, nonce, conversation_id })
}

/// Checks the server-first message, derives the key material, and builds the
/// client-final command.  Returns the salted password, the auth message, and
/// the command document.
///
/// The contract walks the phases: a server-first text that breaks the
/// `r=,s=,i=` layout is a response-format error; a server nonce that does
/// not extend the client nonce marks the server malicious before any
/// derivation; a salt that is no canonical base64 encoding is refused by the
/// decoder as a response-format error; otherwise the outputs are pinned to
/// the derived key material.
pub fn derive_and_respond(full_password: &[u8], initial_data: &InitialData) -> (r: Result<
    (Vec<u8>, Vec<u8>, Document),
    AuthError,
>)
    ensures
        parse_server_first_spec(initial_data.response@) is None ==> (r matches Err(e) && e
            == AuthError::ResponseFormatError),
        r is Ok ==> parse_server_first_spec(initial_data.response@) is Some,
        parse_server_first_spec(initial_data.response@) matches Some(f) ==> {
            &&& !initial_data.nonce@.is_prefix_of(f.0) ==> (r matches Err(e) && e
                == AuthError::MaliciousServerError(MaliciousServerErrorType::InvalidRnonce))
            &&& initial_data.nonce@.is_prefix_of(f.0) ==> {
                &&& (exists|d: Seq<u8>| base64_of(d) == f.1) ==> r is Ok
                &&& r matches Err(e) ==> e == AuthError::ResponseFormatError
                &&& r matches Ok(t) ==> {
                    let msg = auth_message_spec(
                        initial_data.message@,
                        initial_data.response@,
                        without_proof_spec(f.0),
                    );
                    &&& t.0@.len() == 20
                    &&& forall|d: Seq<u8>| base64_of(d) == f.1 ==> t.0@ == salted_password_spec(
                        full_password@,
                        d,
                        f.2 as u32,
                    )
                    &&& t.1@ == msg
                    &&& t.2@ == continue_document_spec(
                        client_final_spec(f.0, client_proof_spec(t.0@, msg)),
                        initial_data.conversation_id@,
                    )
                }
            }
        },
{
    let parsed = match parse_server_first(initial_data.response.as_slice()) {
        Some(t) => t,
        None => {
            return Err(AuthError::ResponseFormatError);
        },
    };
    let (rnonce, salt_b64, iterations) = parsed;

    // The server's nonce must extend ours; otherwise the server is treated
    // as malicious before any cryptographic work is done.
    if !starts_with_bytes(rnonce.as_slice(), initial_data.nonce.as_slice()) {
        return Err(AuthError::MaliciousServerError(MaliciousServerErrorType::InvalidRnonce));
    }

    let salt = match base64_decode(salt_b64.as_slice()) {
        Some(v) => v,
        None => {
            return Err(AuthError::ResponseFormatError);
        },
    };

    let salted_password = derive_salted_password(full_password, salt.as_slice(), iterations);
    let client_key_label = client_key_label_bytes();
    let client_key = hmac_sha1(salted_password.as_slice(), client_key_label.as_slice());
    let stored_key = sha1_digest(client_key.as_slice());

    let without_proof = build_without_proof(rnonce.as_slice());
    let auth_message = build_auth_message(
        initial_data.message.as_slice(),
        initial_data.response.as_slice(),
        without_proof.as_slice(),
    );
    let client_signature = hmac_sha1(stored_key.as_slice(), auth_message.as_slice());

    // Defensive length check; both are 20-byte HMAC-SHA-1 outputs.
    if client_key.len() != client_signature.len() {
        return Err(AuthError::InternalConsistencyError);
    }
    let proof_bytes = xor_pairwise(client_key.as_slice(), client_signature.as_slice());
    let proof_b64 = base64_encode(proof_bytes.as_slice());

    let mut final_message = without_proof;
    final_message.push(0x2c);
    final_message.push(0x70);
    final_message.push(0x3d);
    append_bytes(&mut final_message, proof_b64.as_slice());
    proof {
        assert(final_message@ =~= client_final_spec(rnonce@, proof_bytes@));
    }

    let mut doc = Document::new();
    doc.push(FieldKey::SaslContinue, Value::Int(1));
    doc.push(FieldKey::Payload, Value::Bin(final_message));
    doc.push(FieldKey::ConversationId, clone_value(&initial_data.conversation_id));
    proof {
        assert(doc@ =~= continue_document_spec(
            client_final_spec(rnonce@, proof_bytes@),
            initial_data.conversation_id@,
        ));
    }
    Ok((salted_password, auth_message, doc))
}

/// Computes the server signature phase three checks every reply against.
pub fn compute_server_signature(auth_data: &AuthData) -> (r: Vec<u8>)
    ensures
        r@ == server_signature_spec(auth_data.salted_password@, auth_data.message@),
        r@.len() == 20,
{
    let server_key_label = server_key_label_bytes();
    let server_key = hmac_sha1(auth_data.salted_password.as_slice(), server_key_label.as_slice());
    hmac_sha1(server_key.as_slice(), auth_data.message.as_slice())
}

/// The verdict on one reply document during phase three.  A reply without a
/// binary payload carries nothing to verify; one with a payload must name a
/// signature (`v=`) equal to the one computed locally.
pub open spec fn check_reply_spec(doc: Seq<(FieldKey, ValueView)>, signature: Seq<u8>) -> Result<
    (),
    AuthError,
> {
    match lookup(doc, FieldKey::Payload) {
        Some(ValueView::Bin(p)) => if !valid_utf8(p) {
            Err(AuthError::ResponseFormatError)
        } else {
            match parse_server_final_spec(p) {
                None => Err(
                    AuthError::MaliciousServerError(MaliciousServerErrorType::NoServerSignature),
                ),
                Some(v) => if v == base64_of(signature) {
                    Ok(())
                } else {
                    Err(
                        AuthError::MaliciousServerError(
                            MaliciousServerErrorType::InvalidServerSignature,
                        ),
                    )
                },
            }
        },
        _ => Ok(()),
    }
}

/// Verifies one reply document against the locally computed server
/// signature.
pub fn check_server_reply(reply: &Document, server_signature: &[u8]) -> (r: Result<(), AuthError>)
    ensures
        r == check_reply_spec(reply@, server_signature@),
{
    let payload = match reply.get(FieldKey::Payload) {
        Some(v) => match v {
            Value::Bin(p) => p,
            _ => {
                return Ok(());
            },
        },
        None => {
            return Ok(());
        },
    };
    if !utf8_check(payload.as_slice()) {
        return Err(AuthError::ResponseFormatError);
    }
    let verifier = match parse_server_final(payload.as_slice()) {
        Some(v) => v,
        None => {
            return Err(
                AuthError::MaliciousServerError(MaliciousServerErrorType::NoServerSignature),
            );
        },
    };
    let expected = base64_encode(server_signature);
    if bytes_eq(verifier.as_slice(), expected.as_slice()) {
        Ok(())
    } else {
        Err(AuthError::MaliciousServerError(MaliciousServerErrorType::InvalidServerSignature))
    }
}

/// Builds the empty-payload continue command that advances phase three.
pub fn build_final_document(conversation_id: &Value) -> (r: Document)
    ensures
        r@ == continue_document_spec(Seq::<u8>::empty(), conversation_id@),
{
    let mut doc = Document::new();
    let empty: Vec<u8> = Vec::new();
    proof {
        assert(empty@ =~= Seq::<u8>::empty());
    }
    doc.push(FieldKey::SaslContinue, Value::Int(1));
    doc.push(FieldKey::Payload, Value::Bin(empty));
    doc.push(FieldKey::ConversationId, clone_value(conversation_id));
    proof {
        assert(doc@ =~= continue_document_spec(Seq::<u8>::empty(), conversation_id@));
    }
    doc
}

/// True when a reply carries the completion flag.
pub fn is_done(reply: &Document) -> (r: bool)
    ensures
        r == (lookup(reply@, FieldKey::Done) == Some(ValueView::Bool(true))),
{
    match reply.get(FieldKey::Done) {
        Some(v) => match v {
            Value::Bool(b) => *b,
            _ => false,
        },
        None => false,
    }
}

/// Drives a whole conversation against the server, consuming the
/// authenticator.
pub struct Authenticator {
    /// The name of the administrative database authentication commands go
    /// to.
    pub auth_source: String,
}

impl Authenticator {
    /// Reads the authentication database from the connection options,
    /// falling back to the fixed default.
    pub fn new(client_options: Option<ClientOptions>) -> (r: Authenticator)
        ensures
            match client_options {
                Some(co) => match co.auth_source {
                    Some(s) => r.auth_source@ == s@,
                    None => r.auth_source@ == "admin"@,
                },
                None => r.auth_source@ == "admin"@,
            },
    {
        let auth_source = match client_options {
            Some(co) => match co.auth_source {
                Some(s) => s,
                None => String::from_str("admin"),
            },
            None => String::from_str("admin"),
        };
        Authenticator { auth_source }
    }

    /// The database name authentication commands are addressed to.
    pub fn auth_database(&self) -> (r: &String)
        ensures
            r@ == self.auth_source@,
    {
        &self.auth_source
    }
}

/// The auth message is nothing but the byte-for-byte concatenation of the
/// client-first body, the server-first text, and the pre-proof client-final
/// message, with a single comma between each pair.
pub proof fn lemma_auth_message_is_concatenation(
    bare: Seq<u8>,
    server_first: Seq<u8>,
    without_proof: Seq<u8>,
)
    ensures
        auth_message_spec(bare, server_first, without_proof) == bare + seq![0x2cu8] + server_first
            + seq![0x2cu8] + without_proof,
{
}

/// A server that holds the same secrets computes the same signature, and its
/// `v=` payload passes the check: mutual authentication accepts an honest
/// peer.
pub proof fn lemma_honest_server_accepted(
    doc: Seq<(FieldKey, ValueView)>,
    salted_password: Seq<u8>,
    auth_message: Seq<u8>,
)
    requires
        lookup(doc, FieldKey::Payload) == Some(
            ValueView::Bin(verifier_payload_spec(server_signature_spec(salted_password, auth_message))),
        ),
    ensures
        check_reply_spec(doc, server_signature_spec(salted_password, auth_message)) == Ok::<
            (),
            AuthError,
        >(()),
{
    let sig = server_signature_spec(salted_password, auth_message);
    let p = verifier_payload_spec(sig);
    lemma_base64_ascii(sig);
    assert forall|i: int| 0 <= i < p.len() implies p[i] < 0x80 by {
        if i >= 2 {
            assert(p[i] == base64_of(sig)[i - 2]);
        }
    }
    lemma_ascii_valid_utf8(p);
    assert(p.skip(2) =~= base64_of(sig));
}

/// A payload that names a different signature is rejected as a malicious
/// server, never accepted.
pub proof fn lemma_forged_signature_rejected(
    doc: Seq<(FieldKey, ValueView)>,
    signature: Seq<u8>,
    verifier: Seq<u8>,
)
    requires
        lookup(doc, FieldKey::Payload) == Some(ValueView::Bin(verifier_tag() + verifier)),
        verifier != base64_of(signature),
        forall|i: int| 0 <= i < verifier.len() ==> verifier[i] < 0x80,
    ensures
        check_reply_spec(doc, signature) == Err::<(), AuthError>(
            AuthError::MaliciousServerError(MaliciousServerErrorType::InvalidServerSignature),
        ),
{
    let p = verifier_tag() + verifier;
    assert forall|i: int| 0 <= i < p.len() implies p[i] < 0x80 by {
        if i >= 2 {
            assert(p[i] == verifier[i - 2]);
        }
    }
    lemma_ascii_valid_utf8(p);
    assert(p.skip(2) =~= verifier);
}

} // verus!
