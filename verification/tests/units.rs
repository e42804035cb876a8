//! Unit tests for the parsers, the message builders, and the document
//! model.

use data_encoding::BASE64;
use mongo_scram::conversation::{
    accept_server_first, begin_conversation, build_auth_message, build_client_first_bare,
    build_final_document, build_full_password, build_without_proof, bytes_eq, derive_and_respond,
    gs2_wrap, is_done, starts_with_bytes, InitialData,
};
use mongo_scram::document::{Document, FieldKey, Value};
use mongo_scram::errors::AuthError;
use mongo_scram::manager::{ClientOptions, ConnectionString, MongoConnectionManager};
use mongo_scram::parse::{parse_server_final, parse_server_first, parse_u32};

fn initial_data(response: &[u8], nonce: &[u8]) -> InitialData {
    InitialData {
        message: b"n=alice,r=".iter().chain(nonce).copied().collect(),
        response: response.to_vec(),
        nonce: nonce.to_vec(),
        conversation_id: Value::Int(1),
    }
}

#[test]
fn parse_u32_accepts_plain_decimals() {
    assert_eq!(parse_u32(b"0"), Some(0));
    assert_eq!(parse_u32(b"10000"), Some(10000));
    assert_eq!(parse_u32(b"004096"), Some(4096));
    assert_eq!(parse_u32(b"4294967295"), Some(u32::MAX));
}

#[test]
fn parse_u32_rejects_bad_input() {
    assert_eq!(parse_u32(b""), None);
    assert_eq!(parse_u32(b"-1"), None);
    assert_eq!(parse_u32(b"12a"), None);
    assert_eq!(parse_u32(b"4294967296"), None);
    assert_eq!(parse_u32(b"99999999999"), None);
}

#[test]
fn parse_server_first_extracts_fields() {
    let parsed = parse_server_first(b"r=abcdef,s=c2FsdA==,i=4096").unwrap();
    assert_eq!(parsed.0, b"abcdef".to_vec());
    assert_eq!(parsed.1, b"c2FsdA==".to_vec());
    assert_eq!(parsed.2, 4096);
}

#[test]
fn parse_server_first_rejects_broken_layouts() {
    assert_eq!(parse_server_first(b""), None);
    assert_eq!(parse_server_first(b"r=abc"), None);
    assert_eq!(parse_server_first(b"r=abc,s=def"), None);
    assert_eq!(parse_server_first(b"r=abc,s=def,j=1"), None);
    assert_eq!(parse_server_first(b"x=abc,s=def,i=1"), None);
    assert_eq!(parse_server_first(b"r=abc,s=def,i="), None);
    assert_eq!(parse_server_first(b"r=abc,s=def,i=12x"), None);
    // A fourth comma-separated field lands in the digits and is refused.
    assert_eq!(parse_server_first(b"r=abc,s=def,i=1,z=2"), None);
}

#[test]
fn parse_server_final_requires_the_verifier_tag() {
    assert_eq!(parse_server_final(b"v=abc"), Some(b"abc".to_vec()));
    assert_eq!(parse_server_final(b"v="), Some(Vec::new()));
    assert_eq!(parse_server_final(b"w=abc"), None);
    assert_eq!(parse_server_final(b""), None);
}

#[test]
fn message_builders_produce_exact_bytes() {
    assert_eq!(build_client_first_bare(b"alice", b"NONCE"), b"n=alice,r=NONCE".to_vec());
    assert_eq!(gs2_wrap(b"n=alice,r=NONCE"), b"n,,n=alice,r=NONCE".to_vec());
    assert_eq!(build_without_proof(b"NONCEplus"), b"c=biws,r=NONCEplus".to_vec());
    assert_eq!(
        build_auth_message(b"n=a,r=N", b"r=Nx,s=QQ==,i=1", b"c=biws,r=Nx"),
        b"n=a,r=N,r=Nx,s=QQ==,i=1,c=biws,r=Nx".to_vec()
    );
    assert_eq!(build_full_password(b"alice", b"hunter2"), b"alice:mongo:hunter2".to_vec());
}

#[test]
fn byte_helpers_behave() {
    assert!(starts_with_bytes(b"abcdef", b"abc"));
    assert!(starts_with_bytes(b"abc", b""));
    assert!(!starts_with_bytes(b"abc", b"abcd"));
    assert!(!starts_with_bytes(b"abcdef", b"abd"));
    assert!(bytes_eq(b"same", b"same"));
    assert!(!bytes_eq(b"same", b"sam"));
    assert!(!bytes_eq(b"same", b"samX"));
}

#[test]
fn begin_conversation_builds_start_command() {
    let (bare, nonce, doc) = begin_conversation(b"alice").unwrap();
    assert_eq!(nonce.len(), 64);
    let mut expected = b"n=alice,r=".to_vec();
    expected.extend_from_slice(&nonce);
    assert_eq!(bare, expected);
    match doc.get(FieldKey::SaslStart) {
        Some(Value::Int(1)) => {},
        other => panic!("unexpected saslStart {:?}", other),
    }
    match doc.get(FieldKey::Mechanism) {
        Some(Value::Str(s)) => assert_eq!(s.as_str(), "SCRAM-SHA-1"),
        other => panic!("unexpected mechanism {:?}", other),
    }
    match doc.get(FieldKey::AutoAuthorize) {
        Some(Value::Int(1)) => {},
        other => panic!("unexpected autoAuthorize {:?}", other),
    }
}

#[test]
fn two_conversations_use_fresh_nonces() {
    let (_, nonce1, _) = begin_conversation(b"alice").unwrap();
    let (_, nonce2, _) = begin_conversation(b"alice").unwrap();
    assert_ne!(nonce1, nonce2);
}

#[test]
fn accept_server_first_requires_payload_and_id() {
    let no_payload = Document::new();
    assert_eq!(
        accept_server_first(Vec::new(), Vec::new(), &no_payload).unwrap_err(),
        AuthError::ResponseFormatError
    );

    let mut wrong_type = Document::new();
    wrong_type.push(FieldKey::Payload, Value::Str("text".to_string()));
    wrong_type.push(FieldKey::ConversationId, Value::Int(1));
    assert_eq!(
        accept_server_first(Vec::new(), Vec::new(), &wrong_type).unwrap_err(),
        AuthError::ResponseFormatError
    );

    let mut no_id = Document::new();
    no_id.push(FieldKey::Payload, Value::Bin(b"r=x,s=y,i=1".to_vec()));
    assert_eq!(
        accept_server_first(Vec::new(), Vec::new(), &no_id).unwrap_err(),
        AuthError::ResponseFormatError
    );

    let mut bad_utf8 = Document::new();
    bad_utf8.push(FieldKey::Payload, Value::Bin(vec![0x80, 0x80]));
    bad_utf8.push(FieldKey::ConversationId, Value::Int(1));
    assert_eq!(
        accept_server_first(Vec::new(), Vec::new(), &bad_utf8).unwrap_err(),
        AuthError::ResponseFormatError
    );
}

#[test]
fn derive_rejects_malformed_server_first() {
    let fp = build_full_password(b"alice", b"hunter2");
    let init = initial_data(b"r=NONCExyz,s=c2FsdA==", b"NONCE");
    assert_eq!(derive_and_respond(&fp, &init).unwrap_err(), AuthError::ResponseFormatError);
}

#[test]
fn derive_rejects_bad_base64_salt() {
    let fp = build_full_password(b"alice", b"hunter2");
    let init = initial_data(b"r=NONCExyz,s=!!!,i=4096", b"NONCE");
    assert_eq!(derive_and_respond(&fp, &init).unwrap_err(), AuthError::ResponseFormatError);
}

#[test]
fn derive_rejects_iteration_overflow() {
    let fp = build_full_password(b"alice", b"hunter2");
    let init = initial_data(b"r=NONCExyz,s=c2FsdA==,i=99999999999", b"NONCE");
    assert_eq!(derive_and_respond(&fp, &init).unwrap_err(), AuthError::ResponseFormatError);
}

#[test]
fn derive_decodes_known_base64_salt() {
    // "Zm9vYmFy" is the canonical base64 of "foobar"; the derivation must
    // run over those decoded bytes.
    let fp = build_full_password(b"alice", b"hunter2");
    let init = initial_data(b"r=NONCExyz,s=Zm9vYmFy,i=3", b"NONCE");
    let (salted, _, _) = derive_and_respond(&fp, &init).unwrap();
    let expected = mongo_scram::crypto::derive_salted_password(&fp, b"foobar", 3);
    assert_eq!(salted, expected);
}

#[test]
fn client_final_payload_has_expected_shape() {
    let fp = build_full_password(b"alice", b"hunter2");
    let init = initial_data(b"r=NONCExyz,s=Zm9vYmFy,i=3", b"NONCE");
    let (_, _, doc) = derive_and_respond(&fp, &init).unwrap();
    let payload = match doc.get(FieldKey::Payload) {
        Some(Value::Bin(b)) => b.clone(),
        other => panic!("expected binary payload, got {:?}", other),
    };
    let text = String::from_utf8(payload).unwrap();
    assert!(text.starts_with("c=biws,r=NONCExyz,p="));
    let proof = BASE64.decode(text["c=biws,r=NONCExyz,p=".len()..].as_bytes()).unwrap();
    assert_eq!(proof.len(), 20);
    match doc.get(FieldKey::ConversationId) {
        Some(Value::Int(1)) => {},
        other => panic!("unexpected conversation id {:?}", other),
    }
}

#[test]
fn final_document_echoes_conversation_id() {
    let doc = build_final_document(&Value::Str("token".to_string()));
    match doc.get(FieldKey::Payload) {
        Some(Value::Bin(b)) => assert!(b.is_empty()),
        other => panic!("expected empty binary payload, got {:?}", other),
    }
    match doc.get(FieldKey::ConversationId) {
        Some(Value::Str(s)) => assert_eq!(s.as_str(), "token"),
        other => panic!("unexpected conversation id {:?}", other),
    }
    match doc.get(FieldKey::SaslContinue) {
        Some(Value::Int(1)) => {},
        other => panic!("unexpected saslContinue {:?}", other),
    }
}

#[test]
fn done_flag_is_recognised() {
    let mut done = Document::new();
    done.push(FieldKey::Done, Value::Bool(true));
    assert!(is_done(&done));

    let mut not_done = Document::new();
    not_done.push(FieldKey::Done, Value::Bool(false));
    assert!(!is_done(&not_done));

    assert!(!is_done(&Document::new()));

    let mut wrong_type = Document::new();
    wrong_type.push(FieldKey::Done, Value::Int(1));
    assert!(!is_done(&wrong_type));
}

#[test]
fn document_lookup_takes_first_binding() {
    let mut doc = Document::new();
    doc.push(FieldKey::Done, Value::Bool(true));
    doc.push(FieldKey::Done, Value::Bool(false));
    match doc.get(FieldKey::Done) {
        Some(Value::Bool(true)) => {},
        other => panic!("expected the first binding, got {:?}", other),
    }
    assert!(doc.get(FieldKey::Payload).is_none());
}

#[test]
fn manager_keeps_its_configuration() {
    let manager = MongoConnectionManager::new(
        ConnectionString { uri: "mongodb://localhost:27017".to_string() },
        "app".to_string(),
        Some(ClientOptions { auth_source: Some("admin".to_string()) }),
    );
    assert_eq!(manager.conn_str.uri, "mongodb://localhost:27017");
    assert_eq!(manager.db_name, "app");
    assert_eq!(manager.client_options.unwrap().auth_source.unwrap(), "admin");
}
