use take_it_easy_core::grid::check_straight_line;
use take_it_easy_core::jwt::{expiry_check, claims_at, JwtConfig, JwtError, JwtManager, TokenData};
use take_it_easy_core::middleware::{validation_reply, AuthError};
use take_it_easy_core::models::{OAuthProvider, OAuthUserInfo, User};
use take_it_easy_core::oauth::{OAuthConfig, OAuthManager};
use take_it_easy_core::routes::{generate_token, oauth_link_plan};

fn manager(secret: &str) -> JwtManager {
    JwtManager::new(JwtConfig::new(secret.to_string(), 24))
}

#[test]
fn issued_token_verifies_until_expiry_plus_leeway() {
    let jwt = manager("test-secret");
    let issued = 1_700_000_000u64;
    let token = jwt.create_token_at("user_123", "test@example.com", "testuser", issued).unwrap();
    let exp = issued + 24 * 3600;
    let d = jwt.verify_token_at(&token, issued).unwrap();
    assert_eq!(d.header.alg, jsonwebtoken::Algorithm::HS256);
    let c = d.claims;
    assert_eq!((c.sub.as_str(), c.email.as_str(), c.username.as_str()), ("user_123", "test@example.com", "testuser"));
    assert_eq!((c.iat as u64, c.exp as u64), (issued, exp));
    assert!(jwt.verify_token_at(&token, exp + 60).is_ok());
    assert!(matches!(jwt.verify_token_at(&token, exp + 61), Err(JwtError::Expired)));
    assert!(matches!(manager("other").verify_token_at(&token, issued), Err(JwtError::Jwt(_))));
    assert!(jwt.verify_token_at("invalid.token.here", issued).is_err());
}

#[test]
fn unchecked_decode_reads_any_secret_and_expired_tokens() {
    let token = manager("a").create_token_at("u", "e@x.io", "n", 10).unwrap();
    let c = manager("b").decode_token_unsafe(&token).unwrap();
    assert_eq!((c.sub.as_str(), c.iat, c.exp), ("u", 10, 10 + 24 * 3600));
}

#[test]
fn expiry_check_outcomes() {
    let c = claims_at("u", "e", "n", 100, 1).unwrap();
    assert!(matches!(expiry_check(c, None), Err(JwtError::ClockBeforeEpoch)));
    let c = claims_at("u", "e", "n", 100, 1).unwrap();
    assert!(expiry_check(c, Some(3760)).is_ok());
    let c = claims_at("u", "e", "n", 100, 1).unwrap();
    assert!(matches!(expiry_check(c, Some(3761)), Err(JwtError::Expired)));
}

#[test]
fn validation_reply_maps_outcomes() {
    let c = claims_at("u", "e", "n", 100, 1).unwrap();
    let d = TokenData { header: jsonwebtoken::Header::default(), claims: c };
    assert_eq!(validation_reply(Ok(d)).unwrap().sub, "u");
    match validation_reply(Err(JwtError::Expired)) {
        Err(AuthError::Unauthenticated(m)) => assert_eq!(m, "Invalid token: ExpiredSignature"),
        _ => panic!("expected a refusal"),
    }
    match validation_reply(Err(JwtError::MissingClaim("sub".into()))) {
        Err(AuthError::Unauthenticated(m)) => assert_eq!(m, "Invalid token: JSON error: missing field `sub`"),
        _ => panic!("expected a refusal"),
    }
}

fn config(base: &str) -> OAuthConfig {
    OAuthConfig::from_values(
        Some("gid".into()),
        Some("gsecret".into()),
        None,
        None,
        Some("did".into()),
        None,
        Some(base.into()),
    )
}

#[test]
fn authorization_url_carries_settings_scopes_and_state() {
    let m = OAuthManager::new(config("http://localhost:3000"));
    let (url, csrf) = m.get_auth_url(OAuthProvider::Google).unwrap();
    assert!(url.starts_with("https://accounts.google.com/o/oauth2/v2/auth?"));
    assert!(url.contains("client_id=gid"));
    assert!(url.contains("response_type=code"));
    assert!(url.contains("scope=email+profile"));
    assert!(url.contains(&format!("state={}", csrf)));
    assert!(url.contains("redirect_uri=http%3A%2F%2Flocalhost%3A3000%2Fauth%2Fcallback%2Fgoogle"));
    assert_eq!(csrf.len(), 22);
    assert_eq!(m.get_auth_url(OAuthProvider::Github).unwrap_err(), "GitHub client ID not configured");
    assert_eq!(m.get_auth_url(OAuthProvider::Discord).unwrap_err(), "Discord client secret not configured");
    assert!(OAuthManager::new(config("not a url")).get_auth_url(OAuthProvider::Google).is_err());
}

#[test]
fn random_tokens_are_fresh_base64() {
    let a = generate_token().unwrap();
    let b = generate_token().unwrap();
    assert_eq!(a.len(), 43);
    assert_ne!(a, b);
    assert!(a.chars().all(|c| c.is_ascii_alphanumeric() || c == '-' || c == '_'));
}

fn info() -> OAuthUserInfo {
    OAuthUserInfo {
        provider: OAuthProvider::Github,
        provider_user_id: "42".into(),
        email: "a@b.io".into(),
        username: "alice".into(),
    }
}

#[test]
fn link_plan_links_existing_or_creates() {
    let existing = User {
        id: "u1".into(),
        email: "a@b.io".into(),
        username: "old".into(),
        password_hash: Some("h".into()),
        email_verified: false,
        created_at: "t0".into(),
        updated_at: "t0".into(),
    };
    let p = oauth_link_plan(Ok(Some(existing)), "nu".into(), "acc".into(), OAuthProvider::Github, &info(), "t1".into()).unwrap();
    assert!(!p.create_user);
    assert_eq!(p.user.id, "u1");
    assert_eq!((p.account.id.as_str(), p.account.user_id.as_str(), p.account.provider_user_id.as_str()), ("acc", "u1", "42"));
    let p = oauth_link_plan(Ok(None), "nu".into(), "acc".into(), OAuthProvider::Github, &info(), "t1".into()).unwrap();
    assert!(p.create_user);
    assert_eq!((p.user.id.as_str(), p.user.username.as_str()), ("nu", "alice"));
    assert!(p.user.email_verified && p.user.password_hash.is_none());
    assert_eq!(p.account.user_id, "nu");
    let e = oauth_link_plan(Err("db".into()), "nu".into(), "acc".into(), OAuthProvider::Github, &info(), "t1".into());
    assert_eq!(e.unwrap_err().status, 500);
}

#[test]
fn straight_lines_with_large_coordinates() {
    assert!(check_straight_line(&[(0, 0), (4_294_967_297, 1)]));
    assert!(!check_straight_line(&[(5, usize::MAX), (5, usize::MAX)]));
    assert!(check_straight_line(&[(5, usize::MAX - 1), (5, usize::MAX)]));
}

#[test]
fn text_without_token_parts_is_refused() {
    let jwt = manager("s");
    assert!(matches!(jwt.decode_token_unsafe("garbage"), Err(JwtError::Jwt(_))));
    assert!(matches!(jwt.decode_token_unsafe("a.b"), Err(JwtError::Jwt(_))));
    assert!(jwt.verify_token("garbage").is_err());
}
