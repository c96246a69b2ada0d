use take_it_easy_core::database::{flag_of, flag_value, oauth_account_from_row, token_from_row, user_from_row};
use take_it_easy_core::email::{
    app_url_or_default, password_reset_email_html, password_reset_email_subject, reset_link, sender_mailbox,
    verification_email_html, verification_email_subject, verification_link, EmailConfig, MockEmailService,
};
use take_it_easy_core::jwt::JwtError;
use take_it_easy_core::models::{OAuthProvider, OAuthUserInfo, TokenType, User};
use take_it_easy_core::oauth::{
    discord_user_info, github_primary_email, github_user_info, google_user_info, provider_scopes, GithubEmail,
    OAuthConfig, OAuthManager,
};
use take_it_easy_core::routes::{
    bearer_from_header, check_email_unused, check_password_match, check_registration, current_user_reply,
    email_verified_reply, forgot_password_reply, generate_token, linked_user, linked_user_id, login_account,
    login_password_hash, new_oauth_user, new_registered_user, oauth_callback_reply, oauth_redirect_reply,
    provider_from_path, providers_reply, registration_reply, reset_requester, token_claims, token_record,
    usable_token, ApiReply, ReplyBody,
};

fn error_of(r: &ApiReply) -> (u16, String) {
    match &r.body {
        ReplyBody::Error(m) => (r.status, m.clone()),
        other => panic!("not an error reply: {:?}", other),
    }
}

fn sample_user(hash: Option<&str>) -> User {
    User {
        id: "user_123".to_string(),
        email: "test@example.com".to_string(),
        username: "testuser".to_string(),
        password_hash: hash.map(|h| h.to_string()),
        email_verified: false,
        created_at: "t0".to_string(),
        updated_at: "t0".to_string(),
    }
}

fn config(google: bool, github_id_only: bool, discord: bool) -> OAuthConfig {
    OAuthConfig::from_values(
        if google { Some("gid".to_string()) } else { None },
        if google { Some("gsecret".to_string()) } else { None },
        if github_id_only { Some("hid".to_string()) } else { None },
        None,
        if discord { Some("did".to_string()) } else { None },
        if discord { Some("dsecret".to_string()) } else { None },
        None,
    )
}

#[test]
fn oauth_configuration_and_providers() {
    let c = config(true, true, true);
    assert_eq!(c.redirect_base_url, "http://localhost:3000");
    assert!(c.is_provider_configured(OAuthProvider::Google));
    assert!(!c.is_provider_configured(OAuthProvider::Github));
    assert!(c.is_provider_configured(OAuthProvider::Discord));
    let m = OAuthManager::new(c);
    assert_eq!(m.get_configured_providers(), vec![OAuthProvider::Google, OAuthProvider::Discord]);
    let reply = providers_reply(&m.get_configured_providers());
    match reply.body {
        ReplyBody::Providers(names) => assert_eq!(names, vec!["google".to_string(), "discord".to_string()]),
        _ => panic!("expected provider names"),
    }
}

#[test]
fn oauth_client_settings_per_provider() {
    let m = OAuthManager::new(config(true, true, false));
    let s = m.client_settings(OAuthProvider::Google).unwrap();
    assert_eq!(s.client_id, "gid");
    assert_eq!(s.client_secret, "gsecret");
    assert_eq!(s.auth_url, "https://accounts.google.com/o/oauth2/v2/auth");
    assert_eq!(s.token_url, "https://oauth2.googleapis.com/token");
    assert_eq!(s.redirect_url, "http://localhost:3000/auth/callback/google");
    assert_eq!(m.client_settings(OAuthProvider::Github).unwrap_err(), "GitHub client secret not configured");
    assert_eq!(m.client_settings(OAuthProvider::Discord).unwrap_err(), "Discord client ID not configured");
    assert_eq!(m.get_auth_url(OAuthProvider::Discord).unwrap_err(), "Discord client ID not configured");
}

#[test]
fn oauth_authorization_url_carries_settings() {
    let m = OAuthManager::new(config(true, false, false));
    let (url, csrf) = m.get_auth_url(OAuthProvider::Google).unwrap();
    assert!(url.starts_with("https://accounts.google.com/o/oauth2/v2/auth?"));
    assert!(url.contains("client_id=gid"));
    assert!(url.contains("scope=email+profile"));
    assert!(url.contains(&format!("state={}", csrf)));
    assert!(!csrf.is_empty());
}

#[test]
fn oauth_scopes() {
    assert_eq!(provider_scopes(OAuthProvider::Google), vec!["email".to_string(), "profile".to_string()]);
    assert_eq!(provider_scopes(OAuthProvider::Github), vec!["user:email".to_string(), "read:user".to_string()]);
    assert_eq!(provider_scopes(OAuthProvider::Discord), vec!["identify".to_string(), "email".to_string()]);
}

#[test]
fn provider_user_info() {
    let g = google_user_info("1".to_string(), "a@b.c".to_string(), None);
    assert_eq!(g.username, "GoogleUser");
    assert_eq!(g.provider, OAuthProvider::Google);
    let g = google_user_info("1".to_string(), "a@b.c".to_string(), Some("Ann".to_string()));
    assert_eq!(g.username, "Ann");
    let h = github_user_info(-42, "octo".to_string(), "o@c.t".to_string());
    assert_eq!(h.provider_user_id, "-42");
    let h = github_user_info(583231, "octo".to_string(), "o@c.t".to_string());
    assert_eq!(h.provider_user_id, "583231");
    let h = github_user_info(i64::MIN, "x".to_string(), "y".to_string());
    assert_eq!(h.provider_user_id, i64::MIN.to_string());
    assert_eq!(discord_user_info("9".to_string(), "d".to_string(), None).unwrap_err(), "Discord email not available");
    let d = discord_user_info("9".to_string(), "d".to_string(), Some("d@x.y".to_string())).unwrap();
    assert_eq!(d.email, "d@x.y");
}

#[test]
fn github_picks_first_verified_primary_address() {
    let e = |email: &str, primary: bool, verified: bool| GithubEmail { email: email.to_string(), primary, verified };
    let emails = vec![e("a", true, false), e("b", false, true), e("c", true, true), e("d", true, true)];
    assert_eq!(github_primary_email(&emails).unwrap(), "c");
    assert_eq!(github_primary_email(&vec![e("a", true, false)]).unwrap_err(), "No verified primary email found");
    assert!(github_primary_email(&vec![]).is_err());
}

#[test]
fn email_configuration_defaults() {
    let c = EmailConfig::from_values(
        Some("smtp.x".to_string()),
        Some("2525".to_string()),
        Some("u".to_string()),
        Some("p".to_string()),
        Some("f@x".to_string()),
        None,
        None,
    )
    .unwrap();
    assert_eq!(c.smtp_port, 2525);
    assert_eq!(c.from_name, "Take It Easy");
    assert_eq!(c.app_url, "http://localhost:3000");
    let c = EmailConfig::from_values(
        Some("smtp.x".to_string()),
        Some("not-a-port".to_string()),
        Some("u".to_string()),
        Some("p".to_string()),
        Some("f@x".to_string()),
        Some("Me".to_string()),
        Some("https://app".to_string()),
    )
    .unwrap();
    assert_eq!(c.smtp_port, 587);
    assert_eq!(c.from_name, "Me");
    assert_eq!(c.app_url, "https://app");
    let c = EmailConfig::from_values(
        Some("h".to_string()),
        Some("70000".to_string()),
        Some("u".to_string()),
        Some("p".to_string()),
        Some("f".to_string()),
        None,
        None,
    )
    .unwrap();
    assert_eq!(c.smtp_port, 587);
    assert!(EmailConfig::from_values(None, None, Some("u".to_string()), Some("p".to_string()), Some("f".to_string()), None, None).is_none());
    assert_eq!(app_url_or_default(None), "http://localhost:3000");
}

#[test]
fn email_links_and_bodies() {
    assert_eq!(verification_link("https://app", "tok"), "https://app/auth/verify-email?token=tok");
    assert_eq!(reset_link("https://app", "tok"), "https://app/auth/reset-password?token=tok");
    let mock = MockEmailService::new("http://localhost:3000".to_string());
    assert_eq!(mock.verification_url("abc"), "http://localhost:3000/auth/verify-email?token=abc");
    assert_eq!(mock.password_reset_url("abc"), "http://localhost:3000/auth/reset-password?token=abc");
    assert_eq!(sender_mailbox("Take It Easy", "no-reply@x.io"), "Take It Easy <no-reply@x.io>");
    assert_eq!(verification_email_subject(), "Verify your email - Take It Easy");
    assert_eq!(password_reset_email_subject(), "Reset your password - Take It Easy");
    let html = verification_email_html("Ann", "https://l");
    assert!(html.starts_with("<!DOCTYPE html>"));
    assert!(html.contains("Welcome to Take It Easy, Ann!"));
    assert_eq!(html.matches("https://l").count(), 2);
    assert!(html.contains("expire in 24 hours"));
    let html = password_reset_email_html("Bob", "https://r");
    assert!(html.contains("<p>Hi Bob,</p>"));
    assert_eq!(html.matches("https://r").count(), 2);
    assert!(html.ends_with("</html>"));
}

#[test]
fn registration_checks() {
    let bad_email = check_registration("abc", "testuser", Ok(())).unwrap();
    assert_eq!(error_of(&bad_email), (400, "Invalid email format".to_string()));
    let short = check_registration("a@b", "testuser", Ok(())).unwrap();
    assert_eq!(error_of(&short), (400, "Invalid email format".to_string()));
    let bad_name = check_registration("a@b.c", "ab", Ok(())).unwrap();
    assert_eq!(error_of(&bad_name), (400, "Username must be 3-30 characters".to_string()));
    let long_name = "x".repeat(31);
    assert!(check_registration("a@b.c", &long_name, Ok(())).is_some());
    assert!(check_registration("a@b.c", &"x".repeat(30), Ok(())).is_none());
    let bad_pw = check_registration("a@b.c", "abc", Err("Password too short".to_string())).unwrap();
    assert_eq!(error_of(&bad_pw), (400, "Password too short".to_string()));
    // Byte lengths: two two-byte letters make a 4-byte name.
    assert!(check_registration("a@b.c", "éé", Ok(())).is_none());
}

#[test]
fn registration_steps() {
    let taken = check_email_unused(&Ok(Some(sample_user(None)))).unwrap();
    assert_eq!(error_of(&taken), (409, "Email already registered".to_string()));
    assert!(check_email_unused(&Ok(None)).is_none());
    assert_eq!(error_of(&check_email_unused(&Err("db".to_string())).unwrap()), (500, "Database error".to_string()));
    let u = new_registered_user(
        "id1".to_string(),
        "e@x.io".to_string(),
        "name".to_string(),
        "hash".to_string(),
        "now".to_string(),
    );
    assert!(!u.email_verified);
    assert_eq!(u.password_hash.as_deref(), Some("hash"));
    assert_eq!((u.created_at.as_str(), u.updated_at.as_str()), ("now", "now"));
    let t = token_record(
        "tid".to_string(),
        "id1".to_string(),
        "tok".to_string(),
        TokenType::EmailVerification,
        "later".to_string(),
    );
    assert!(!t.used);
    let reply = registration_reply(Ok("jwt".to_string()), u);
    assert_eq!(reply.status, 201);
    match reply.body {
        ReplyBody::Auth(a) => {
            assert_eq!(a.token, "jwt");
            assert_eq!(a.user.id, "id1");
        },
        _ => panic!("expected an auth reply"),
    }
    let failed = registration_reply(Err(JwtError::ExpiryOverflow), sample_user(None));
    assert_eq!(error_of(&failed), (500, "Registration failed".to_string()));
}

#[test]
fn login_steps() {
    assert_eq!(error_of(&login_account(Ok(None)).unwrap_err()), (401, "Invalid credentials".to_string()));
    assert_eq!(error_of(&login_account(Err("x".to_string())).unwrap_err()), (500, "Login failed".to_string()));
    let oauth_only = sample_user(None);
    assert_eq!(error_of(&login_password_hash(&oauth_only).unwrap_err()), (401, "Account uses OAuth login only".to_string()));
    let with_pw = sample_user(Some("h"));
    assert_eq!(login_password_hash(&with_pw).unwrap(), "h");
    assert!(check_password_match(Ok(true)).is_none());
    assert_eq!(error_of(&check_password_match(Ok(false)).unwrap()), (401, "Invalid credentials".to_string()));
    assert_eq!(error_of(&check_password_match(Err("x".to_string())).unwrap()), (500, "Login failed".to_string()));
}

#[test]
fn token_kinds_are_not_interchangeable() {
    let reset = token_record("i".to_string(), "u".to_string(), "t".to_string(), TokenType::PasswordReset, "e".to_string());
    let r = usable_token(Ok(Some(reset)), TokenType::EmailVerification, "Verification failed");
    assert_eq!(error_of(&r.unwrap_err()), (400, "Invalid or expired token".to_string()));
    let verify = token_record("i".to_string(), "u".to_string(), "t".to_string(), TokenType::EmailVerification, "e".to_string());
    assert_eq!(usable_token(Ok(Some(verify)), TokenType::EmailVerification, "Verification failed").unwrap().user_id, "u");
    let r = usable_token(Err("db".to_string()), TokenType::PasswordReset, "Reset failed");
    assert_eq!(error_of(&r.unwrap_err()), (500, "Reset failed".to_string()));
    match email_verified_reply().body {
        ReplyBody::Message(m) => assert_eq!(m, "Email verified successfully"),
        _ => panic!("expected a message"),
    }
}

#[test]
fn forgot_password_reply_is_always_the_same() {
    let r = forgot_password_reply();
    assert_eq!(r.status, 200);
    match r.body {
        ReplyBody::Message(m) => {
            assert_eq!(m, "If an account exists with this email, a reset link has been sent")
        },
        _ => panic!("expected a message"),
    }
    assert!(reset_requester(Ok(None)).is_none());
    assert!(reset_requester(Err("db".to_string())).is_none());
    assert_eq!(reset_requester(Ok(Some(sample_user(None)))).unwrap().id, "user_123");
}

#[test]
fn oauth_callback_steps() {
    assert_eq!(provider_from_path("GitHub").unwrap(), OAuthProvider::Github);
    assert_eq!(error_of(&provider_from_path("myspace").unwrap_err()), (400, "Unknown OAuth provider".to_string()));
    let redirect = oauth_redirect_reply(Ok(("https://p/auth".to_string(), "csrf".to_string())));
    assert_eq!(redirect.status, 307);
    assert_eq!(error_of(&oauth_redirect_reply(Err("bad url".to_string()))), (500, "bad url".to_string()));
    assert_eq!(linked_user_id(Ok(None)).unwrap(), None);
    assert_eq!(error_of(&linked_user_id(Err("x".to_string())).unwrap_err()), (500, "Login failed".to_string()));
    assert_eq!(error_of(&linked_user(Ok(None)).unwrap_err()), (500, "User not found".to_string()));
    let info = OAuthUserInfo {
        provider: OAuthProvider::Discord,
        provider_user_id: "77".to_string(),
        email: "d@x.y".to_string(),
        username: "dee".to_string(),
    };
    let u = new_oauth_user("nid".to_string(), &info, "now".to_string());
    assert!(u.email_verified);
    assert!(u.password_hash.is_none());
    assert_eq!(u.username, "dee");
    let reply = oauth_callback_reply(Ok("jwt".to_string()), &u, None);
    match reply.body {
        ReplyBody::Redirect(url) => assert_eq!(url, "/?token=jwt&user_id=nid&username=dee"),
        _ => panic!("expected a redirect"),
    }
    let reply = oauth_callback_reply(Ok("jwt".to_string()), &u, Some("https://front/done".to_string()));
    match reply.body {
        ReplyBody::Redirect(url) => assert_eq!(url, "https://front/done?token=jwt&user_id=nid&username=dee"),
        _ => panic!("expected a redirect"),
    }
    let failed = oauth_callback_reply(Err(JwtError::ClockBeforeEpoch), &u, None);
    assert_eq!(error_of(&failed), (500, "Login failed".to_string()));
}

#[test]
fn current_user_steps() {
    assert_eq!(error_of(&bearer_from_header(None).unwrap_err()), (401, "Missing authorization header".to_string()));
    assert_eq!(error_of(&bearer_from_header(Some("Basic x")).unwrap_err()), (401, "Invalid authorization header".to_string()));
    assert_eq!(bearer_from_header(Some("Bearer abc")).unwrap(), "abc");
    assert_eq!(error_of(&token_claims(Err(JwtError::ExpiryOverflow)).unwrap_err()), (401, "Invalid or expired token".to_string()));
    assert_eq!(error_of(&current_user_reply(Ok(None))), (404, "User not found".to_string()));
    assert_eq!(error_of(&current_user_reply(Err("x".to_string()))), (500, "Failed to get user".to_string()));
    assert_eq!(current_user_reply(Ok(Some(sample_user(None)))).status, 200);
}

#[test]
fn random_tokens_are_43_url_safe_characters() {
    let a = generate_token().unwrap();
    let b = generate_token().unwrap();
    assert_eq!(a.len(), 43);
    assert!(a.chars().all(|c| c.is_ascii_alphanumeric() || c == '-' || c == '_'));
    assert_ne!(a, b);
}

#[test]
fn rows_map_to_records() {
    assert_eq!(flag_value(true), 1);
    assert_eq!(flag_value(false), 0);
    assert!(flag_of(7));
    assert!(!flag_of(0));
    let u = user_from_row(
        "i".to_string(),
        "e".to_string(),
        "n".to_string(),
        None,
        1,
        "c".to_string(),
        "u".to_string(),
    );
    assert!(u.email_verified);
    let a = oauth_account_from_row("i".to_string(), "u".to_string(), "discord", "p".to_string(), None, None, "c".to_string());
    assert_eq!(a.provider, OAuthProvider::Discord);
    let a = oauth_account_from_row("i".to_string(), "u".to_string(), "myspace", "p".to_string(), None, None, "c".to_string());
    assert_eq!(a.provider, OAuthProvider::Google);
    let t = token_from_row("i".to_string(), "u".to_string(), "t".to_string(), "password_reset", "e".to_string(), 0);
    assert_eq!(t.token_type, TokenType::PasswordReset);
    assert!(!t.used);
    let t = token_from_row("i".to_string(), "u".to_string(), "t".to_string(), "??", "e".to_string(), 1);
    assert_eq!(t.token_type, TokenType::EmailVerification);
    assert!(t.used);
}
