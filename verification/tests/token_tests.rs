use urlessen::auth::hashing::{hash_password, verify_password};
use urlessen::auth::{authenticate, parse_bearer, AuthenticatedUser, Claims};
use urlessen::config::Config;
use urlessen::utils::compute_random_32_bytes_key;

fn identity() -> AuthenticatedUser {
    AuthenticatedUser { id: 7, username: "alice".to_string(), created_at: 1700000000 }
}

#[test]
fn hash_verify_round_trip() {
    let pepper = "server-pepper";
    let stored = hash_password(pepper, "abcdef123!xy").expect("hashing succeeds");
    assert!(verify_password(pepper, "abcdef123!xy", &stored));
    assert!(!verify_password(pepper, "abcdef123!xz", &stored));
}

#[test]
fn verify_is_keyed_with_the_pepper() {
    let stored = hash_password("pepper-one", "abcdef123!xy").expect("hashing succeeds");
    assert!(!verify_password("pepper-two", "abcdef123!xy", &stored));
}

#[test]
fn verify_fails_closed_on_malformed_hash() {
    assert!(!verify_password("pepper", "abcdef123!xy", "not a phc string"));
    assert!(!verify_password("pepper", "abcdef123!xy", ""));
    assert!(!verify_password("pepper", "abcdef123!xy", "$argon2id$broken"));
}

#[test]
fn token_round_trip_before_expiry() {
    let claims = Claims { user: identity(), exp: 5000, nonce: 42 };
    let token = claims.encode(b"access-secret");
    let back = Claims::decode(&token, b"access-secret", 4999).expect("decodes before expiry");
    assert_eq!(back.user.id, 7);
    assert_eq!(back.user.username, "alice");
    assert_eq!(back.user.created_at, 1700000000);
    assert_eq!(back.exp, 5000);
    assert_eq!(back.nonce, 42);
}

#[test]
fn token_rejected_after_expiry() {
    let claims = Claims { user: identity(), exp: 5000, nonce: 42 };
    let token = claims.encode(b"access-secret");
    assert!(Claims::decode(&token, b"access-secret", 5000).is_none());
    assert!(Claims::decode(&token, b"access-secret", 6000).is_none());
}

#[test]
fn token_rejected_under_wrong_secret() {
    let claims = Claims { user: identity(), exp: 5000, nonce: 42 };
    let token = claims.encode(b"access-secret");
    assert!(Claims::decode(&token, b"refresh-secret", 100).is_none());
}

#[test]
fn token_rejected_when_malformed() {
    assert!(Claims::decode(&"garbage".to_string(), b"access-secret", 100).is_none());
    assert!(Claims::decode(&"a.b.c".to_string(), b"access-secret", 100).is_none());
    assert!(Claims::decode(&String::new(), b"access-secret", 100).is_none());
}

#[test]
fn distinct_expiries_give_distinct_tokens() {
    let c1 = Claims { user: identity(), exp: 5000, nonce: 1 };
    let c2 = Claims { user: identity(), exp: 5001, nonce: 1 };
    assert_ne!(c1.encode(b"s"), c2.encode(b"s"));
}

#[test]
fn distinct_nonces_give_distinct_tokens() {
    let c1 = Claims { user: identity(), exp: 5000, nonce: 1 };
    let c2 = Claims { user: identity(), exp: 5000, nonce: 2 };
    assert_ne!(c1.encode(b"s"), c2.encode(b"s"));
}

#[test]
fn bearer_header_parsing() {
    assert_eq!(parse_bearer("Bearer abc.def.ghi").as_deref(), Some("abc.def.ghi"));
    assert_eq!(parse_bearer("BEARER tok").as_deref(), Some("tok"));
    assert_eq!(parse_bearer("bearer tok").as_deref(), Some("tok"));
    assert!(parse_bearer("Bearertok").is_none());
    assert!(parse_bearer("Basic tok").is_none());
    assert!(parse_bearer("Bearer").is_none());
    assert!(parse_bearer("").is_none());
}

#[test]
fn authenticate_accepts_a_current_bearer_token() {
    let claims = Claims { user: identity(), exp: 5000, nonce: 42 };
    let token = claims.encode(b"access-secret");
    let header = format!("Bearer {}", token);
    let got = authenticate(Some(&header), b"access-secret", 1000).expect("authenticates");
    assert_eq!(got.id, 7);
    assert_eq!(got.username, "alice");
}

#[test]
fn authenticate_forwards_on_absence_or_defect() {
    let claims = Claims { user: identity(), exp: 5000, nonce: 42 };
    let token = claims.encode(b"access-secret");
    assert!(authenticate(None, b"access-secret", 1000).is_none());
    let expired = format!("Bearer {}", token);
    assert!(authenticate(Some(&expired), b"access-secret", 9000).is_none());
    let wrong_scheme = format!("Basic {}", token);
    assert!(authenticate(Some(&wrong_scheme), b"access-secret", 1000).is_none());
    let wrong_secret = format!("Bearer {}", token);
    assert!(authenticate(Some(&wrong_secret), b"refresh-secret", 1000).is_none());
}

#[test]
fn random_key_is_64_hex_chars() {
    let k1 = compute_random_32_bytes_key();
    let k2 = compute_random_32_bytes_key();
    assert_eq!(k1.len(), 64);
    assert!(k1.chars().all(|c| c.is_ascii_hexdigit() && !c.is_ascii_uppercase()));
    assert_ne!(k1, k2);
}

#[test]
fn default_config_shape() {
    let c = Config::default();
    assert_eq!(c.access_token_ttl_sec, 3600);
    assert_eq!(c.refresh_token_ttl_sec, 172800);
    assert_eq!(c.argon_secret.len(), 64);
    assert_eq!(c.access_token_secret.len(), 64);
    assert_eq!(c.refresh_token_secret.len(), 64);
    assert_ne!(c.access_token_secret, c.refresh_token_secret);
}
