use take_it_easy_core::jwt::{claims_at, claims_from_members, JwtConfig, JwtError, JwtManager};
use take_it_easy_core::middleware::{
    authenticate_request, extract_token, try_authenticate_request, validate_token, AuthError, AUTH_HEADER,
};
use take_it_easy_core::models::{OAuthProvider, TokenType};

fn create_test_jwt() -> JwtManager {
    JwtManager::new(JwtConfig::new("test-secret".to_string(), 24))
}

#[test]
fn test_create_and_verify_token() {
    let config = JwtConfig::new("test-secret".to_string(), 24);
    let manager = JwtManager::new(config);

    let token = manager.create_token("user_123", "test@example.com", "testuser").unwrap();

    let verified = manager.verify_token(&token).unwrap();
    assert_eq!(verified.claims.sub, "user_123");
    assert_eq!(verified.claims.email, "test@example.com");
    assert_eq!(verified.claims.username, "testuser");
}

#[test]
fn test_invalid_token() {
    let config = JwtConfig::new("test-secret".to_string(), 24);
    let manager = JwtManager::new(config);

    let result = manager.verify_token("invalid.token.here");
    assert!(result.is_err());
}

#[test]
fn test_extract_token_valid() {
    let jwt = create_test_jwt();
    let token = jwt.create_token("user_123", "test@example.com", "testuser").unwrap();

    let header = format!("Bearer {}", token);
    let extracted = extract_token(Some(header.as_str()));
    assert!(extracted.is_some());
    assert_eq!(extracted.unwrap(), token);
}

#[test]
fn test_extract_token_missing() {
    let extracted = extract_token(None);
    assert!(extracted.is_none());
}

#[test]
fn test_authenticate_request_valid() {
    let jwt = create_test_jwt();
    let token = jwt.create_token("user_123", "test@example.com", "testuser").unwrap();

    let header = format!("Bearer {}", token);
    let claims = authenticate_request(&jwt, Some(header.as_str())).unwrap();
    assert_eq!(claims.sub, "user_123");
    assert_eq!(claims.email, "test@example.com");
}

#[test]
fn test_authenticate_request_invalid() {
    let jwt = create_test_jwt();

    let result = authenticate_request(&jwt, Some("Bearer invalid.token.here"));
    assert!(result.is_err());
}

#[test]
fn auth_header_key_is_authorization() {
    assert_eq!(AUTH_HEADER, "authorization");
}

#[test]
fn extract_token_needs_bearer_prefix() {
    assert_eq!(extract_token(Some("Basic abc")), None);
    assert_eq!(extract_token(Some("bearer abc")), None);
    assert_eq!(extract_token(Some("Bearer ")), Some(""));
    assert_eq!(extract_token(Some("Bearer a.b.c")), Some("a.b.c"));
}

#[test]
fn authenticate_without_token_is_refused_with_message() {
    let jwt = create_test_jwt();
    match authenticate_request(&jwt, None) {
        Err(AuthError::Unauthenticated(m)) => assert_eq!(m, "Missing authorization token"),
        Ok(_) => panic!("accepted a request without a token"),
    }
    match authenticate_request(&jwt, Some("Token x")) {
        Err(AuthError::Unauthenticated(m)) => assert_eq!(m, "Missing authorization token"),
        Ok(_) => panic!("accepted a request without a bearer token"),
    }
}

#[test]
fn invalid_token_message_names_the_cause() {
    let jwt = create_test_jwt();
    match validate_token(&jwt, "invalid.token.here") {
        Err(AuthError::Unauthenticated(m)) => assert!(m.starts_with("Invalid token: ")),
        Ok(_) => panic!("accepted an invalid token"),
    }
}

#[test]
fn try_authenticate_distinguishes_missing_from_invalid() {
    let jwt = create_test_jwt();
    assert!(matches!(try_authenticate_request(&jwt, None), Ok(None)));
    assert!(try_authenticate_request(&jwt, Some("Bearer nope")).is_err());
    let token = jwt.create_token("u1", "a@b.cd", "name").unwrap();
    let header = format!("Bearer {}", token);
    let claims = try_authenticate_request(&jwt, Some(header.as_str())).unwrap().unwrap();
    assert_eq!(claims.sub, "u1");
    assert_eq!(claims.username, "name");
}

#[test]
fn token_signed_with_other_secret_is_refused() {
    let a = create_test_jwt();
    let b = JwtManager::new(JwtConfig::new("other-secret".to_string(), 24));
    let token = a.create_token("user_123", "test@example.com", "testuser").unwrap();
    assert!(b.verify_token(&token).is_err());
    let unchecked = b.decode_token_unsafe(&token).unwrap();
    assert_eq!(unchecked.sub, "user_123");
}

#[test]
fn token_lifetime_matches_configuration() {
    let jwt = create_test_jwt();
    let token = jwt.create_token_at("u", "e@x.io", "n", 1_700_000_000).unwrap();
    let claims = jwt.decode_token_unsafe(&token).unwrap();
    assert_eq!(claims.iat, 1_700_000_000);
    assert_eq!(claims.exp, 1_700_000_000 + 24 * 3600);
    // Issued long ago: expired, so a checked read refuses it.
    assert!(jwt.verify_token(&token).is_err());
}

#[test]
fn token_is_deterministic_for_same_inputs() {
    let jwt = create_test_jwt();
    let t1 = jwt.create_token_at("u", "e@x.io", "n", 1_000).unwrap();
    let t2 = jwt.create_token_at("u", "e@x.io", "n", 1_000).unwrap();
    let t3 = jwt.create_token_at("u", "e@x.io", "n", 1_001).unwrap();
    assert_eq!(t1, t2);
    assert_ne!(t1, t3);
    assert_eq!(t1.split('.').count(), 3);
}

#[test]
fn expiry_overflow_is_an_error() {
    let jwt = JwtManager::new(JwtConfig::new("s".to_string(), u64::MAX));
    assert!(matches!(jwt.create_token_at("u", "e", "n", 5), Err(JwtError::ExpiryOverflow)));
    assert!(claims_at("u", "e", "n", 5, u64::MAX).is_none());
}

#[test]
fn claims_at_computes_expiry() {
    let c = claims_at("id", "mail", "name", 100, 2).unwrap();
    assert_eq!(c.sub, "id");
    assert_eq!(c.email, "mail");
    assert_eq!(c.username, "name");
    assert_eq!(c.iat, 100);
    assert_eq!(c.exp, 100 + 7200);
}

#[test]
fn claims_from_members_needs_every_member() {
    let ok = claims_from_members(
        Some("s".to_string()),
        Some("e".to_string()),
        Some("u".to_string()),
        Some(10),
        Some(5),
    )
    .unwrap();
    assert_eq!((ok.exp, ok.iat), (10, 5));
    let missing = claims_from_members(None, Some("e".to_string()), Some("u".to_string()), Some(1), Some(1));
    match missing {
        Err(e) => assert_eq!(e.describe(), "JSON error: missing field `sub`"),
        Ok(_) => panic!("accepted claims without a subject"),
    }
    assert!(claims_from_members(
        Some("s".to_string()),
        Some("e".to_string()),
        Some("u".to_string()),
        None,
        Some(5)
    )
    .is_err());
}

#[test]
fn provider_names_round_trip() {
    for p in [OAuthProvider::Google, OAuthProvider::Github, OAuthProvider::Discord] {
        assert_eq!(OAuthProvider::from_str(p.as_str()), Some(p));
    }
    assert_eq!(OAuthProvider::from_str("GitHub"), Some(OAuthProvider::Github));
    assert_eq!(OAuthProvider::from_str("GOOGLE"), Some(OAuthProvider::Google));
    assert_eq!(OAuthProvider::from_str("DiScOrD"), Some(OAuthProvider::Discord));
    assert_eq!(OAuthProvider::from_str("twitter"), None);
    assert_eq!(OAuthProvider::from_str("googl"), None);
    assert_eq!(OAuthProvider::from_str(""), None);
    assert_eq!(OAuthProvider::Discord.as_str(), "discord");
}

#[test]
fn token_type_names_round_trip() {
    for t in [TokenType::EmailVerification, TokenType::PasswordReset] {
        assert_eq!(TokenType::from_str(t.as_str()), Some(t));
    }
    assert_eq!(TokenType::EmailVerification.as_str(), "email_verification");
    assert_eq!(TokenType::PasswordReset.as_str(), "password_reset");
    assert_eq!(TokenType::from_str("Password_Reset"), None);
    assert_eq!(TokenType::from_str("other"), None);
}
