use echat::encryption::cipher::{self, EncryptedPayload};
use echat::encryption::disguise::{self, BodyKind};
use echat::encryption::export::{
    base64_export, decrypt_seed, export_metadata, import_keypair, mnemonic_export, mnemonic_to_seed,
    seed_to_mnemonic, ExportFormat, ExportedKey,
};
use echat::encryption::group::{self, GroupCipher, GroupMember};
use echat::encryption::handshake::{signing_data, HandshakeKind, HandshakeMessage};
use echat::encryption::keypair::{IdentityKeypair, KeySeed};
use echat::encryption::session::{derive_from_bytes, derive_shared_secret, SharedSecret};
use echat::encryption::Error;

fn make_shared_secret() -> SharedSecret {
    let alice = IdentityKeypair::generate();
    let bob = IdentityKeypair::generate();
    derive_shared_secret(alice.secret_key(), bob.public_key(), "direct-chat").unwrap()
}

fn make_member(keypair: &IdentityKeypair, email: &str) -> GroupMember {
    GroupMember { email: email.to_string(), public_key_bytes: *keypair.public_key() }
}

// ── cipher ───────────────────────────────────────────────────────────────────

#[test]
fn test_encrypt_decrypt_roundtrip() {
    let alice = IdentityKeypair::generate();
    let bob = IdentityKeypair::generate();
    let alice_secret = derive_shared_secret(alice.secret_key(), bob.public_key(), "direct-chat").unwrap();
    let bob_secret = derive_shared_secret(bob.secret_key(), alice.public_key(), "direct-chat").unwrap();
    let plaintext = b"Hello, Bob! This is a secret message.";
    let payload = cipher::encrypt(plaintext, &alice_secret).unwrap();
    let decrypted = cipher::decrypt(&payload, &bob_secret).unwrap();
    assert_eq!(decrypted, plaintext);
}

#[test]
fn test_wrong_key_fails() {
    let secret = make_shared_secret();
    let wrong_secret = make_shared_secret();
    let payload = cipher::encrypt(b"secret", &secret).unwrap();
    assert!(cipher::decrypt(&payload, &wrong_secret).is_err());
}

#[test]
fn test_tampered_ciphertext_fails() {
    let secret = make_shared_secret();
    let mut payload = cipher::encrypt(b"secret", &secret).unwrap();
    payload.ciphertext[0] ^= 0xFF;
    assert!(cipher::decrypt(&payload, &secret).is_err());
}

#[test]
fn cipher_test_base64_roundtrip() {
    let secret = make_shared_secret();
    let payload = cipher::encrypt(b"test message", &secret).unwrap();
    let encoded = payload.to_base64();
    let decoded = EncryptedPayload::from_base64(&encoded).unwrap();
    assert_eq!(payload.nonce, decoded.nonce);
    assert_eq!(payload.ciphertext, decoded.ciphertext);
}

#[test]
fn test_magic_prefix_detection() {
    let secret = make_shared_secret();
    let payload = cipher::encrypt(b"msg", &secret).unwrap();
    let b64 = payload.to_base64();
    assert!(EncryptedPayload::has_magic_prefix(&b64));
    assert!(!EncryptedPayload::has_magic_prefix("aGVsbG8gd29ybGQ="));
}

#[test]
fn test_nonce_is_unique() {
    let secret = make_shared_secret();
    let p1 = cipher::encrypt(b"msg", &secret).unwrap();
    let p2 = cipher::encrypt(b"msg", &secret).unwrap();
    assert_ne!(p1.nonce, p2.nonce);
    assert_ne!(p1.ciphertext, p2.ciphertext);
}

#[test]
fn payload_wire_format_starts_with_magic_and_version() {
    let payload = EncryptedPayload { version: 1, nonce: [7u8; 12], ciphertext: vec![9u8; 16] };
    let b64 = payload.to_base64();
    // 4 + 1 + 12 + 16 = 33 bytes -> 44 base64 characters.
    assert_eq!(b64.len(), 44);
    assert!(b64.starts_with("7MSnAQE"));
    let back = EncryptedPayload::from_base64(&format!("  {}\n", &b64)).unwrap();
    assert_eq!(back.version, 1);
    assert_eq!(back.nonce, [7u8; 12]);
    assert_eq!(back.ciphertext, vec![9u8; 16]);
}

#[test]
fn payload_from_base64_rejects_short_and_foreign_data() {
    assert_eq!(EncryptedPayload::from_base64("not base64!").unwrap_err(), Error::Decrypt);
    assert_eq!(EncryptedPayload::from_base64("aGVsbG8=").unwrap_err(), Error::Decrypt);
    let foreign = EncryptedPayload::from_base64(
        "AAAAAAAAAAAAAAAAAAAAAAAAAAAAAAAAAAAAAAAAAAAAAAAAAAAAAAA=",
    );
    assert_eq!(foreign.unwrap_err(), Error::Decrypt);
}

#[test]
fn decrypt_rejects_other_version() {
    let secret = make_shared_secret();
    let mut payload = cipher::encrypt(b"msg", &secret).unwrap();
    payload.version = 2;
    assert_eq!(cipher::decrypt(&payload, &secret).unwrap_err(), Error::Decrypt);
}

#[test]
fn magic_check_takes_any_text() {
    // "7MSnAQAA" is the base64 of the magic followed by 01 00 00.
    assert!(EncryptedPayload::has_magic_prefix("7MSnAQAA"));
    assert!(EncryptedPayload::has_magic_prefix("  7MSnAQAArest of it  "));
    assert!(EncryptedPayload::has_magic_prefix("7MSnAQAAПривет"));
    assert!(!EncryptedPayload::has_magic_prefix("  short "));
    assert!(!EncryptedPayload::has_magic_prefix("aПривет"));
    assert!(!EncryptedPayload::has_magic_prefix(""));
}

// ── session ──────────────────────────────────────────────────────────────────

#[test]
fn test_dh_is_symmetric() {
    let alice = IdentityKeypair::generate();
    let bob = IdentityKeypair::generate();
    let alice_shared = derive_shared_secret(alice.secret_key(), bob.public_key(), "direct-chat").unwrap();
    let bob_shared = derive_shared_secret(bob.secret_key(), alice.public_key(), "direct-chat").unwrap();
    assert_eq!(alice_shared.as_bytes(), bob_shared.as_bytes());
}

#[test]
fn test_different_context_gives_different_secret() {
    let alice = IdentityKeypair::generate();
    let bob = IdentityKeypair::generate();
    let s1 = derive_shared_secret(alice.secret_key(), bob.public_key(), "ctx-1").unwrap();
    let s2 = derive_shared_secret(alice.secret_key(), bob.public_key(), "ctx-2").unwrap();
    assert_ne!(s1.as_bytes(), s2.as_bytes());
}

#[test]
fn zero_public_key_is_rejected() {
    let alice = IdentityKeypair::generate();
    let r = derive_shared_secret(alice.secret_key(), &[0u8; 32], "direct-chat");
    assert!(matches!(r, Err(Error::InvalidPublicKey(_))));
}

#[test]
fn shared_secret_is_hkdf_of_dh() {
    // Known X25519 vector (RFC 7748 section 6.1).
    let a: [u8; 32] = hex32("77076d0a7318a57d3c16c17251b26645df4c2f87ebc0992ab177fba51db92c2a");
    let b_pub: [u8; 32] = hex32("de9edb7d7b7dc1b4d35b61c2ece435373f8343c85b78674dadfc7e146f882b4f");
    let s = derive_from_bytes(&a, &b_pub, "direct-chat").unwrap();
    let again = derive_from_bytes(&a, &b_pub, "direct-chat").unwrap();
    assert_eq!(s.as_bytes(), again.as_bytes());
    assert_ne!(s.as_bytes(), &[0u8; 32]);
}

fn hex32(s: &str) -> [u8; 32] {
    let mut out = [0u8; 32];
    for i in 0..32 {
        out[i] = u8::from_str_radix(&s[2 * i..2 * i + 2], 16).unwrap();
    }
    out
}

// ── keypair ──────────────────────────────────────────────────────────────────

#[test]
fn test_generate_is_unique() {
    let kp1 = IdentityKeypair::generate();
    let kp2 = IdentityKeypair::generate();
    assert_ne!(kp1.public_keys().x25519, kp2.public_keys().x25519);
}

#[test]
fn test_from_seed_is_deterministic() {
    let seed = KeySeed::generate();
    let seed_bytes = *seed.as_bytes();
    let kp1 = IdentityKeypair::from_seed(KeySeed::from_bytes(seed_bytes));
    let kp2 = IdentityKeypair::from_seed(KeySeed::from_bytes(seed_bytes));
    assert_eq!(kp1.public_keys(), kp2.public_keys());
}

#[test]
fn test_sign_and_verify() {
    let kp = IdentityKeypair::generate();
    let data = b"test message";
    let sig = kp.sign(data);
    let pubkey = kp.public_keys();
    assert!(IdentityKeypair::verify(&pubkey.ed25519, data, &sig).is_ok());
    assert!(IdentityKeypair::verify(&pubkey.ed25519, b"wrong data", &sig).is_err());
}

#[test]
fn verify_reports_bad_signature_and_bad_key() {
    let kp = IdentityKeypair::generate();
    let sig = kp.sign(b"data");
    let pubkey = kp.public_keys();
    assert_eq!(IdentityKeypair::verify(&pubkey.ed25519, b"other", &sig).unwrap_err(), Error::InvalidSignature);
}

#[test]
fn x25519_secret_is_the_seed() {
    let kp = IdentityKeypair::from_seed(KeySeed::from_bytes([5u8; 32]));
    assert_eq!(kp.secret_key(), &[5u8; 32]);
    assert_eq!(kp.seed().as_bytes(), &[5u8; 32]);
    assert_ne!(kp.signing_key(), &[5u8; 32]);
}

// ── handshake ────────────────────────────────────────────────────────────────

#[test]
fn test_init_verify() {
    let alice = IdentityKeypair::generate();
    let msg = HandshakeMessage::new_init(&alice, "alice@mail.ru");
    assert!(msg.verify(3600).is_ok());
}

#[test]
fn test_tampered_message_fails() {
    let alice = IdentityKeypair::generate();
    let mut msg = HandshakeMessage::new_init(&alice, "alice@mail.ru");
    msg.public_keys.x25519[0] ^= 0xFF;
    assert!(msg.verify(3600).is_err());
}

#[test]
fn bad_signature_fails_whatever_the_age_limit() {
    let alice = IdentityKeypair::generate();
    let mut msg = HandshakeMessage::new_init(&alice, "alice@mail.ru");
    msg.signature[0] ^= 0x01;
    assert_eq!(msg.verify(u64::MAX).unwrap_err(), Error::InvalidSignature);
    assert_eq!(msg.verify(0).unwrap_err(), Error::InvalidSignature);
}

#[test]
fn handshake_fields_and_expiry() {
    let bob = IdentityKeypair::generate();
    let msg = HandshakeMessage::new_ack(&bob, "bob@yandex.ru");
    assert_eq!(msg.kind, HandshakeKind::Ack);
    assert_eq!(msg.version, 1);
    assert_eq!(msg.from_email, "bob@yandex.ru");
    assert_eq!(msg.public_keys, bob.public_keys());
    // An hour and a second later the message is too old.
    assert_eq!(msg.verify_at(3600, msg.timestamp_secs + 3601).unwrap_err(), Error::InvalidSignature);
    assert!(msg.verify_at(3600, msg.timestamp_secs + 3600).is_ok());
    // A timestamp in the future counts as age zero.
    assert!(msg.verify_at(0, 0).is_ok());
}

#[test]
fn signing_data_layout() {
    let kp = IdentityKeypair::from_seed(KeySeed::from_bytes([1u8; 32]));
    let pk = kp.public_keys();
    let d = signing_data(&pk, 0x0102030405060708);
    assert_eq!(d.len(), 72);
    assert_eq!(&d[..32], &pk.x25519);
    assert_eq!(&d[32..64], &pk.ed25519);
    assert_eq!(&d[64..], &[8, 7, 6, 5, 4, 3, 2, 1]);
}

// ── group ────────────────────────────────────────────────────────────────────

#[test]
fn test_group_encrypt_decrypt() {
    let alice = IdentityKeypair::generate();
    let bob = IdentityKeypair::generate();
    let carol = IdentityKeypair::generate();
    let members = vec![
        make_member(&alice, "alice@mail.ru"),
        make_member(&bob, "bob@yandex.ru"),
        make_member(&carol, "carol@mail.ru"),
    ];
    let group_id = "test-group-uuid";
    let plaintext = b"Hello, group!";
    let payload = group::encrypt(plaintext, &alice, group_id, &members).unwrap();
    let decrypted_by_bob =
        group::decrypt(&payload, &bob, "bob@yandex.ru", alice.public_key(), group_id).unwrap();
    assert_eq!(decrypted_by_bob, plaintext);
    let decrypted_by_carol =
        group::decrypt(&payload, &carol, "carol@mail.ru", alice.public_key(), group_id).unwrap();
    assert_eq!(decrypted_by_carol, plaintext);
}

#[test]
fn test_non_member_cannot_decrypt() {
    let alice = IdentityKeypair::generate();
    let bob = IdentityKeypair::generate();
    let eve = IdentityKeypair::generate();
    let members = vec![make_member(&bob, "bob@yandex.ru")];
    let payload = group::encrypt(b"secret", &alice, "group-1", &members).unwrap();
    let result = group::decrypt(&payload, &eve, "eve@evil.com", alice.public_key(), "group-1");
    assert!(result.is_err());
    assert!(matches!(result, Err(Error::MemberNotFound(_))));
}

#[test]
fn group_errors() {
    let alice = IdentityKeypair::generate();
    let bob = IdentityKeypair::generate();
    assert!(matches!(group::encrypt(b"x", &alice, "g", &[]), Err(Error::MemberNotFound(_))));
    let bad = vec![GroupMember { email: "z@mail.ru".into(), public_key_bytes: [0u8; 32] }];
    assert!(matches!(group::encrypt(b"x", &alice, "g", &bad), Err(Error::InvalidPublicKey(_))));
    // Another group id gives another key: the entry does not open.
    let members = vec![make_member(&bob, "bob@yandex.ru")];
    let payload = group::encrypt(b"x", &alice, "g1", &members).unwrap();
    assert_eq!(
        group::decrypt(&payload, &bob, "bob@yandex.ru", alice.public_key(), "g2").unwrap_err(),
        Error::Decrypt
    );
}

#[test]
fn group_keeps_one_entry_per_address() {
    let alice = IdentityKeypair::generate();
    let bob = IdentityKeypair::generate();
    let bob2 = IdentityKeypair::generate();
    let members = vec![make_member(&bob, "bob@yandex.ru"), make_member(&bob2, "bob@yandex.ru")];
    let payload = group::encrypt(b"hi", &alice, "g", &members).unwrap();
    assert_eq!(payload.member_keys.len(), 1);
    assert_eq!(payload.version, 1);
    // The later member with the address holds the entry.
    assert_eq!(group::decrypt(&payload, &bob2, "bob@yandex.ru", alice.public_key(), "g").unwrap(), b"hi");
}

#[test]
fn test_full_group_chat_flow() {
    let alice = IdentityKeypair::generate();
    let bob = IdentityKeypair::generate();
    let carol = IdentityKeypair::generate();
    let group_id = "550e8400-e29b-41d4-a716-446655440000";
    let cipher = GroupCipher::new(group_id);
    let members = vec![
        GroupMember { email: "alice@mail.ru".into(), public_key_bytes: *alice.public_key() },
        GroupMember { email: "bob@yandex.ru".into(), public_key_bytes: *bob.public_key() },
        GroupMember { email: "carol@mail.ru".into(), public_key_bytes: *carol.public_key() },
    ];
    let message = b"Hello, everyone!";
    let payload = cipher.encrypt(message, &alice, &members).unwrap();
    let alice_decrypted = cipher.decrypt(&payload, &alice, "alice@mail.ru", alice.public_key()).unwrap();
    assert_eq!(alice_decrypted, message);
    let bob_decrypted = cipher.decrypt(&payload, &bob, "bob@yandex.ru", alice.public_key()).unwrap();
    assert_eq!(bob_decrypted, message);
    let carol_decrypted = cipher.decrypt(&payload, &carol, "carol@mail.ru", alice.public_key()).unwrap();
    assert_eq!(carol_decrypted, message);
}

// ── disguise ─────────────────────────────────────────────────────────────────

#[test]
fn test_random_subject_not_empty() {
    for _ in 0..20 {
        let s = disguise::random_subject();
        assert!(!s.is_empty());
    }
}

#[test]
fn test_build_encrypted_email() {
    let email = disguise::build_email("dGVzdA==", BodyKind::EncryptedMessage);
    assert!(!email.subject.is_empty());
    assert_eq!(email.body, "dGVzdA==");
    assert!(email.extra_headers.iter().any(|(k, v)| k == "X-EChat" && v == "1"));
}

#[test]
fn test_build_invite_email() {
    let email = disguise::build_email(
        "dGVzdA==",
        BodyKind::Invite { app_url: "https://echat.app".to_string() },
    );
    assert!(email.body.contains("https://echat.app"));
    assert!(email.body.contains("dGVzdA=="));
}

#[test]
fn invite_body_text() {
    let email = disguise::build_email("QUJD", BodyKind::Invite { app_url: "https://x.y".to_string() });
    assert_eq!(
        email.body,
        "Привет!\n\nЯ использую защищённый мессенджер EChat.\nУстанови приложение по ссылке: https://x.y\n\nПосле установки ты увидишь моё сообщение автоматически.\n\n---\nQUJD"
    );
    assert_eq!(disguise::extract_payload(&email.body), "QUJD");
    let hs = disguise::build_email("QUJD", BodyKind::Handshake);
    assert_eq!(hs.body, "QUJD");
    assert_eq!(hs.extra_headers, vec![("X-EChat".to_string(), "1".to_string())]);
}

#[test]
fn test_is_echat_message_by_header() {
    let headers = vec![("X-EChat", "1"), ("From", "alice@mail.ru")];
    assert!(disguise::is_echat_message(&headers, None, false));
}

#[test]
fn test_is_not_echat_message() {
    let headers = vec![("From", "alice@mail.ru"), ("Subject", "Hello")];
    assert!(!disguise::is_echat_message(&headers, None, false));
}

#[test]
fn echat_header_any_case_and_trimmed_value() {
    assert!(disguise::is_echat_message(&[("x-echat", " 1 ")], None, false));
    assert!(!disguise::is_echat_message(&[("X-EChat", "2")], None, false));
    assert!(!disguise::is_echat_message(&[("X-EChat-Other", "1")], None, false));
}

#[test]
fn echat_message_by_body() {
    let secret = make_shared_secret();
    let payload = cipher::encrypt(b"msg", &secret).unwrap();
    let b64 = payload.to_base64();
    let wrapped = format!("{}\n{}", &b64[..20], &b64[20..]);
    assert!(disguise::is_echat_message(&[], Some(&wrapped), false));
    assert!(!disguise::is_echat_message(&[], Some("aGVsbG8gd29ybGQ="), false));
    assert!(disguise::is_echat_message(&[], Some("aGVsbG8gd29ybGQ="), true));
}

#[test]
fn test_extract_payload_from_invite() {
    let body = "Привет!\n\nУстанови приложение.\n\n---\naGVsbG8=";
    assert_eq!(disguise::extract_payload(body), "aGVsbG8=");
}

#[test]
fn test_extract_payload_direct() {
    let body = "  aGVsbG8=  ";
    assert_eq!(disguise::extract_payload(body), "aGVsbG8=");
}

#[test]
fn invite_round_trip_edges() {
    let url = || BodyKind::Invite { app_url: "https://x.y".to_string() };
    // Inside an invitation the blob may hold a separator line of its own.
    let email = disguise::build_email("x\n---\ny", url());
    assert_eq!(disguise::extract_payload(&email.body), "x\n---\ny");
    // A link that ends in "\n---" completes a separator before the real one.
    let odd = disguise::build_email("QUJD", BodyKind::Invite { app_url: "https://x.y\n---".to_string() });
    assert_ne!(disguise::extract_payload(&odd.body), "QUJD");
    // Outside an invitation a separator in the blob is taken as one.
    let plain = disguise::build_email("x\n---\ny", BodyKind::EncryptedMessage);
    assert_eq!(disguise::extract_payload(&plain.body), "y");
}

#[test]
fn extract_payload_uses_first_separator() {
    assert_eq!(disguise::extract_payload("a\n---\n b \n---\nc"), "b \n---\nc");
    assert_eq!(disguise::extract_payload("\n---\n"), "");
}

// ── export ───────────────────────────────────────────────────────────────────

#[test]
fn test_export_import_base64() {
    let keypair = IdentityKeypair::generate();
    let original_pubkeys = keypair.public_keys();
    let metadata = export_metadata(&keypair, "my-strong-password", ExportFormat::Base64).unwrap();
    let exported = base64_export(metadata, "{}");
    let restored = import_keypair(&exported, "my-strong-password").unwrap();
    assert_eq!(original_pubkeys, restored.public_keys());
}

#[test]
fn test_export_import_mnemonic() {
    let keypair = IdentityKeypair::generate();
    let original_pubkeys = keypair.public_keys();
    let metadata = export_metadata(&keypair, "pass123", ExportFormat::Mnemonic).unwrap();
    let exported = mnemonic_export(&keypair, metadata);
    if let ExportedKey::Mnemonic { words, .. } = &exported {
        assert_eq!(words.split_whitespace().count(), 24);
    }
    let restored = import_keypair(&exported, "pass123").unwrap();
    assert_eq!(original_pubkeys, restored.public_keys());
}

#[test]
fn test_wrong_password_fails() {
    let keypair = IdentityKeypair::generate();
    let metadata = export_metadata(&keypair, "correct-password", ExportFormat::Base64).unwrap();
    let exported = base64_export(metadata, "{}");
    assert!(import_keypair(&exported, "wrong-password").is_err());
}

#[test]
fn export_metadata_fields() {
    let keypair = IdentityKeypair::from_seed(KeySeed::from_bytes([3u8; 32]));
    let md = export_metadata(&keypair, "pw", ExportFormat::Mnemonic).unwrap();
    assert_eq!(md.version, 1);
    assert_eq!(md.format, "mnemonic");
    assert_eq!(md.argon2_memory_kb, 65536);
    assert_eq!(md.argon2_iterations, 3);
    assert_eq!(md.argon2_parallelism, 4);
    assert_eq!(md.checksum.len(), 8);
    assert_eq!(md.argon2_salt.len(), 24);
    assert_eq!(md.nonce.len(), 16);
    assert_eq!(md.ciphertext.len(), 64);
    assert_eq!(decrypt_seed(&md, "pw").unwrap(), [3u8; 32]);
    let mut damaged = md.clone();
    damaged.nonce = "not base64".to_string();
    assert_eq!(decrypt_seed(&damaged, "pw").unwrap_err(), Error::Import);
}

#[test]
fn exported_key_accessors() {
    let keypair = IdentityKeypair::generate();
    let md = export_metadata(&keypair, "pw", ExportFormat::Base64).unwrap();
    let exported = base64_export(md, "{\"a\":1}");
    assert_eq!(exported.display_string(), "eyJhIjoxfQ==");
    assert_eq!(exported.metadata().format, "base64");
}

#[test]
fn mnemonic_roundtrip_and_errors() {
    let words = seed_to_mnemonic(&[0u8; 32]).unwrap();
    assert!(words.starts_with("abandon abandon"));
    assert!(words.ends_with("art"));
    assert_eq!(mnemonic_to_seed(&words).unwrap(), [0u8; 32]);
    assert!(matches!(mnemonic_to_seed("not a mnemonic"), Err(Error::InvalidMnemonic(_))));
    // 12 valid words encode 16 bytes, not 32.
    let twelve = "abandon abandon abandon abandon abandon abandon abandon abandon abandon abandon abandon about";
    assert!(matches!(mnemonic_to_seed(twelve), Err(Error::InvalidMnemonic(_))));
}

#[test]
fn decode_string_detects_format() {
    let words = seed_to_mnemonic(&[1u8; 32]).unwrap();
    assert_eq!(ExportedKey::decode_string(&words).unwrap_err(), Error::Import);
    assert!(matches!(
        ExportedKey::decode_string("a b c d e f g h i j k l m n o p q r s t u v w x"),
        Err(Error::InvalidMnemonic(_))
    ));
    let (data, json) = ExportedKey::decode_string("  eyJhIjoxfQ==  ").unwrap();
    assert_eq!(data, "eyJhIjoxfQ==");
    assert_eq!(json, b"{\"a\":1}");
    assert_eq!(ExportedKey::decode_string("%%%").unwrap_err(), Error::Import);
}

#[test]
fn test_key_export_preserves_chat_history() {
    let alice = IdentityKeypair::generate();
    let bob = IdentityKeypair::generate();
    let shared = derive_from_bytes(alice.secret_key(), &bob.public_keys().x25519, "direct-chat").unwrap();
    let payload = cipher::encrypt("важное сообщение".as_bytes(), &shared).unwrap();
    let metadata = export_metadata(&alice, "secret123", ExportFormat::Base64).unwrap();
    let exported = base64_export(metadata, "{}");
    let alice_restored = import_keypair(&exported, "secret123").unwrap();
    let restored_shared =
        derive_from_bytes(alice_restored.secret_key(), &bob.public_keys().x25519, "direct-chat").unwrap();
    assert_eq!(shared.as_bytes(), restored_shared.as_bytes());
    let bob_shared =
        derive_from_bytes(bob.secret_key(), &alice_restored.public_keys().x25519, "direct-chat").unwrap();
    let decrypted = cipher::decrypt(&payload, &bob_shared).unwrap();
    assert_eq!(decrypted, "важное сообщение".as_bytes());
}

// ── a whole direct conversation ──────────────────────────────────────────────

#[test]
fn test_full_direct_chat_flow() {
    let alice_kp = IdentityKeypair::generate();
    let bob_kp = IdentityKeypair::generate();
    let alice_init = HandshakeMessage::new_init(&alice_kp, "alice@mail.ru");
    assert!(alice_init.verify(3600).is_ok());
    assert!(alice_init.verify(3600).is_ok());
    let bob_ack = HandshakeMessage::new_ack(&bob_kp, "bob@yandex.ru");
    assert!(bob_ack.verify(3600).is_ok());
    let alice_secret = derive_from_bytes(alice_kp.secret_key(), &bob_kp.public_keys().x25519, "direct-chat").unwrap();
    let bob_secret = derive_from_bytes(bob_kp.secret_key(), &alice_kp.public_keys().x25519, "direct-chat").unwrap();
    assert_eq!(alice_secret.as_bytes(), bob_secret.as_bytes());
    let message = b"Hello Bob! This is a secret message.";
    let payload = cipher::encrypt(message, &alice_secret).unwrap();
    let b64 = payload.to_base64();
    let email = disguise::build_email(&b64, BodyKind::EncryptedMessage);
    assert!(!email.subject.is_empty());
    let headers: Vec<(&str, &str)> = email.extra_headers.iter().map(|(k, v)| (k.as_str(), v.as_str())).collect();
    assert!(disguise::is_echat_message(&headers, None, false));
    let extracted = disguise::extract_payload(&email.body);
    let received_payload = EncryptedPayload::from_base64(extracted).unwrap();
    let decrypted = cipher::decrypt(&received_payload, &bob_secret).unwrap();
    assert_eq!(decrypted, message);
}

#[test]
fn error_texts() {
    assert_eq!(Error::Decrypt.to_string(), "Ошибка расшифровки (неверный ключ или повреждённые данные)");
    assert_eq!(Error::MemberNotFound("x".into()).to_string(), "Участник группы не найден: x");
}
