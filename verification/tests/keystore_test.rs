use pick_up_sound_text::error::AppError;
use pick_up_sound_text::keystore::KeyStore;

const SALT: [u8; 32] = [7u8; 32];

fn store() -> KeyStore {
    KeyStore::new(b"default-machine-id", &SALT).unwrap()
}

#[test]
fn test_encrypt_decrypt() {
    let keystore = store();
    let plaintext = "test-api-key-12345";

    let encrypted = keystore.encrypt(plaintext).unwrap();
    let decrypted = keystore.decrypt(&encrypted).unwrap();

    assert_eq!(plaintext, decrypted);
}

#[test]
fn fixed_nonce_roundtrip_and_layout() {
    let ks = store();
    let nonce = [1u8; 12];
    let a = ks.encrypt_with_nonce(&nonce, "secret").unwrap();
    let b = ks.encrypt_with_nonce(&nonce, "secret").unwrap();
    assert_eq!(a, b);
    // 12 nonce bytes + 6 plaintext bytes + 16 tag bytes = 34 bytes -> 48 Base64 chars.
    assert_eq!(a.len(), 48);
    // The nonce bytes come first: twelve 0x01 bytes encode as "AQEB" x 4.
    assert!(a.starts_with("AQEBAQEBAQEBAQEB"));
    assert_ne!(a, "secret");
    assert_eq!(ks.decrypt(&a).unwrap(), "secret");
    let other = ks.encrypt_with_nonce(&[2u8; 12], "secret").unwrap();
    assert_ne!(a, other);
}

#[test]
fn fresh_nonces_differ() {
    let ks = store();
    let a = ks.encrypt("k").unwrap();
    let b = ks.encrypt("k").unwrap();
    assert_ne!(a, b);
    assert_eq!(ks.decrypt(&a).unwrap(), "k");
    assert_eq!(ks.decrypt(&b).unwrap(), "k");
}

#[test]
fn unicode_and_empty_roundtrip() {
    let ks = store();
    for p in ["", "密钥-ключ-🔑"] {
        let e = ks.encrypt(p).unwrap();
        assert_eq!(ks.decrypt(&e).unwrap(), p);
    }
}

#[test]
fn short_salt_is_refused() {
    match KeyStore::new(b"default-machine-id", b"short") {
        Err(AppError::Config(m)) => assert!(m.starts_with("Key derivation failed: ")),
        _ => panic!("expected a key derivation error"),
    }
    assert!(KeyStore::new(b"id", &[0u8; 8]).is_ok());
}

#[test]
fn derived_key_depends_on_salt() {
    let a = KeyStore::new(b"id", &[1u8; 16]).unwrap();
    let b = KeyStore::new(b"id", &[2u8; 16]).unwrap();
    let e = a.encrypt_with_nonce(&[0u8; 12], "x").unwrap();
    let f = b.encrypt_with_nonce(&[0u8; 12], "x").unwrap();
    assert_ne!(e, f);
    match b.decrypt(&e) {
        Err(AppError::Config(m)) => assert!(m.starts_with("Decryption failed: ")),
        _ => panic!("expected a decryption error"),
    }
}

#[test]
fn decrypt_errors() {
    let ks = store();
    match ks.decrypt("not base64!") {
        Err(AppError::Config(m)) => assert!(m.starts_with("Base64 decode failed: ")),
        _ => panic!("expected a Base64 error"),
    }
    // "AAAA" decodes to three bytes: shorter than a nonce.
    match ks.decrypt("AAAA") {
        Err(AppError::Config(m)) => assert_eq!(m, "Invalid ciphertext length"),
        _ => panic!("expected a length error"),
    }
    // Sixteen zero bytes: a nonce and four bytes that no tag authenticates.
    match ks.decrypt("AAAAAAAAAAAAAAAAAAAAAA==") {
        Err(AppError::Config(m)) => assert!(m.starts_with("Decryption failed: ")),
        _ => panic!("expected a decryption error"),
    }
}

fn sample_config() -> pick_up_sound_text::config::AppConfig {
    let mut c = pick_up_sound_text::config::AppConfig::default();
    c.asr.api_key = "sk-asr".to_string();
    c.translate.api_key = "sk-tr".to_string();
    c.oss = Some(pick_up_sound_text::config::OssConfig {
        endpoint: "oss-cn-beijing.aliyuncs.com".to_string(),
        bucket: "media".to_string(),
        access_key_id: "LTAI".to_string(),
        access_key_secret: "oss-secret".to_string(),
        path_prefix: None,
    });
    c
}

#[test]
fn stored_configuration_keeps_credentials_encrypted() {
    let ks = store();
    let plain = sample_config();
    let sealed = ks.seal_keys(&plain).unwrap();
    assert_ne!(sealed.asr.api_key, "sk-asr");
    assert_ne!(sealed.translate.api_key, "sk-tr");
    assert_ne!(sealed.oss.as_ref().unwrap().access_key_secret, "oss-secret");
    assert_eq!(sealed.asr.model, plain.asr.model);
    assert_eq!(sealed.oss.as_ref().unwrap().access_key_id, "LTAI");
    let opened = ks.open_keys(sealed);
    assert_eq!(opened.asr.api_key, "sk-asr");
    assert_eq!(opened.translate.api_key, "sk-tr");
    assert_eq!(opened.oss.unwrap().access_key_secret, "oss-secret");
}

#[test]
fn plaintext_configuration_is_kept_as_it_is() {
    let ks = store();
    let opened = ks.open_keys(sample_config());
    assert_eq!(opened.asr.api_key, "sk-asr");
    assert_eq!(opened.translate.api_key, "sk-tr");
}
