//! Tests for JWT authentication and the token cache.

use asc_mcp::auth::{AuthError, Credentials};

/// A fixed wall-clock time (2023-11-14T22:13:20Z).
const UNIX_NOW: i64 = 1_700_000_000;

/// A fresh P-256 private key in PKCS#8 PEM form, generated for each test.
fn test_ec_key_pem() -> Vec<u8> {
    let rng = ring::rand::SystemRandom::new();
    let doc = ring::signature::EcdsaKeyPair::generate_pkcs8(
        &ring::signature::ECDSA_P256_SHA256_FIXED_SIGNING,
        &rng,
    )
    .expect("key generation failed");
    pem::encode(&pem::Pem::new("PRIVATE KEY", doc.as_ref().to_vec())).into_bytes()
}

#[test]
fn test_token_generation() {
    let mut creds = Credentials::new(
        "TEST_KEY_ID".into(),
        "TEST_ISSUER".into(),
        test_ec_key_pem(),
    );
    let token = creds.token();
    assert!(token.is_ok(), "token generation failed");
    let token = token.unwrap();
    assert_eq!(token.split('.').count(), 3);
}

#[test]
fn test_token_caching() {
    let mut creds = Credentials::new(
        "TEST_KEY_ID".into(),
        "TEST_ISSUER".into(),
        test_ec_key_pem(),
    );
    let t1 = creds.token().unwrap();
    let t2 = creds.token().unwrap();
    assert_eq!(t1, t2, "second call should return cached token");
}

#[test]
fn test_token_expiry_regenerates() {
    let mut creds = Credentials::new(
        "TEST_KEY_ID".into(),
        "TEST_ISSUER".into(),
        test_ec_key_pem(),
    );
    let _t1 = creds.token_at(0, UNIX_NOW, 5).unwrap();
    let expired_time = creds.cached_at_ms().unwrap();

    // Request a token 16 minutes later (> 15 min lifetime): it is regenerated.
    let _t2 = creds.token_at(16 * 60 * 1000, UNIX_NOW + 960, 16 * 60 * 1000 + 5).unwrap();
    let new_created_at = creds.cached_at_ms().unwrap();

    assert!(
        new_created_at > expired_time,
        "cache should have been refreshed with a newer timestamp"
    );
}

#[test]
fn test_invalid_key() {
    let mut creds = Credentials::new("K".into(), "I".into(), b"bogus-data-not-pem".to_vec());
    let result = creds.token();
    assert!(result.is_err());
    assert!(matches!(result.unwrap_err(), AuthError::InvalidKey(_)));
}

#[test]
fn test_empty_key_fails() {
    let mut creds = Credentials::new("K".into(), "I".into(), vec![]);
    assert!(matches!(creds.token(), Err(AuthError::InvalidKey(_))));
    assert!(creds.cached_at_ms().is_none());
}

#[test]
fn test_token_served_within_lifetime() {
    let mut creds = Credentials::new("KID".into(), "ISS".into(), test_ec_key_pem());
    let t1 = creds.token_at(1_000, UNIX_NOW, 1_002).unwrap();
    // Just before the 15-minute lifetime ends the same token is served.
    let t2 = creds.token_at(1_000 + 899_999, UNIX_NOW + 900, 1_000 + 900_001).unwrap();
    assert_eq!(t1, t2);
    assert_eq!(creds.cached_at_ms(), Some(1_002));
    // At the end of the lifetime a new token is issued and cached.
    let t3 = creds.token_at(1_002 + 900_000, UNIX_NOW + 900, 901_010).unwrap();
    assert_ne!(t1, t3);
    assert_eq!(creds.cached_at_ms(), Some(901_010));
}

#[test]
fn test_token_segments_carry_header_and_claims() {
    let mut creds = Credentials::new("KID".into(), "ISS".into(), test_ec_key_pem());
    let t = creds.token_at(0, UNIX_NOW, 3).unwrap();
    let parts: Vec<&str> = t.split('.').collect();
    assert_eq!(parts.len(), 3);
    assert!(parts.iter().all(|p| !p.is_empty()));
    // Every segment is base64url text.
    let base64url = |c: char| c.is_ascii_alphanumeric() || c == '-' || c == '_';
    assert!(parts.iter().all(|p| p.chars().all(base64url)));
}

#[test]
fn test_auth_error_messages() {
    assert_eq!(
        AuthError::MissingEnvVar("ASC_KEY_ID".into()).message(),
        "missing environment variable: ASC_KEY_ID"
    );
    assert_eq!(AuthError::KeyReadError("gone".into()).message(), "failed to read key file: gone");
    assert_eq!(AuthError::InvalidKey("bad".into()).message(), "invalid key data: bad");
    assert_eq!(AuthError::EncodingError("x".into()).message(), "jwt encoding failed: x");
}

/// Decodes unpadded base64url text.
fn base64url_decode(s: &str) -> Vec<u8> {
    let value = |c: u8| -> u32 {
        match c {
            b'A'..=b'Z' => (c - b'A') as u32,
            b'a'..=b'z' => (c - b'a') as u32 + 26,
            b'0'..=b'9' => (c - b'0') as u32 + 52,
            b'-' => 62,
            b'_' => 63,
            _ => panic!("not base64url"),
        }
    };
    let mut out = Vec::new();
    let mut acc: u32 = 0;
    let mut bits = 0;
    for c in s.bytes() {
        acc = (acc << 6) | value(c);
        bits += 6;
        if bits >= 8 {
            bits -= 8;
            out.push(((acc >> bits) & 0xff) as u8);
        }
    }
    out
}

#[test]
fn test_token_claims_in_order() {
    let mut creds = Credentials::new("KID".into(), "ISS".into(), test_ec_key_pem());
    let t = creds.token_at(0, UNIX_NOW, 2).unwrap();
    let parts: Vec<&str> = t.split('.').collect();
    let header = String::from_utf8(base64url_decode(parts[0])).unwrap();
    assert!(header.contains("\"alg\":\"ES256\""));
    assert!(header.contains("\"kid\":\"KID\""));
    let payload = String::from_utf8(base64url_decode(parts[1])).unwrap();
    assert_eq!(
        payload,
        format!(
            "{{\"iss\":\"ISS\",\"iat\":{},\"exp\":{},\"aud\":\"appstoreconnect-v1\"}}",
            UNIX_NOW,
            UNIX_NOW + 1200
        )
    );
}

#[test]
fn test_served_token_keeps_expiry_margin() {
    let mut creds = Credentials::new("KID".into(), "ISS".into(), test_ec_key_pem());
    let t1 = creds.token_at(0, UNIX_NOW, 0).unwrap();
    // Just before the lifetime ends, with the wall clock 900 s later, the cached token is served
    // and still has 300 s before its expiry.
    let wall_now = UNIX_NOW + 900;
    let t2 = creds.token_at(899_999, wall_now, 900_000).unwrap();
    assert_eq!(t1, t2);
    let payload: serde_json::Value =
        serde_json::from_slice(&base64url_decode(t2.split('.').nth(1).unwrap())).unwrap();
    let exp = payload["exp"].as_i64().unwrap();
    assert_eq!(exp - payload["iat"].as_i64().unwrap(), 1200);
    assert!(exp - wall_now > 298);
}

#[test]
fn test_bad_key_leaves_cache_unchanged() {
    let mut creds = Credentials::new("K".into(), "I".into(), b"bogus-data-not-pem".to_vec());
    assert!(matches!(creds.token_at(0, UNIX_NOW, 1), Err(AuthError::InvalidKey(_))));
    assert!(creds.cached_at_ms().is_none());
    assert!(matches!(creds.token_at(10, UNIX_NOW, 11), Err(AuthError::InvalidKey(_))));
}
