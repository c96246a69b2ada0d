//! Authentication data models.

use vstd::prelude::*;
use crate::text::{ascii_lower, ascii_lower_all, eq_lowered};

verus! {

/// A user account.
#[derive(Debug, Clone)]
pub struct User {
    pub id: String,
    pub email: String,
    pub username: String,
    pub password_hash: Option<String>,
    pub email_verified: bool,
    pub created_at: String,
    pub updated_at: String,
}

/// An OAuth account linked to a user.
#[derive(Debug, Clone)]
pub struct OAuthAccount {
    pub id: String,
    pub user_id: String,
    pub provider: OAuthProvider,
    pub provider_user_id: String,
    pub access_token: Option<String>,
    pub refresh_token: Option<String>,
    pub created_at: String,
}

/// The supported OAuth providers.
#[derive(Debug, Clone, Copy, PartialEq, Eq, Structural)]
pub enum OAuthProvider {
    Google,
    Github,
    Discord,
}

pub open spec fn google_name() -> Seq<char> {
    seq!['g', 'o', 'o', 'g', 'l', 'e']
}

pub open spec fn github_name() -> Seq<char> {
    seq!['g', 'i', 't', 'h', 'u', 'b']
}

pub open spec fn discord_name() -> Seq<char> {
    seq!['d', 'i', 's', 'c', 'o', 'r', 'd']
}

/// The provider whose lower-case name is `name`.
pub open spec fn provider_named(name: Seq<char>) -> Option<OAuthProvider> {
    if name == google_name() {
        Some(OAuthProvider::Google)
    } else if name == github_name() {
        Some(OAuthProvider::Github)
    } else if name == discord_name() {
        Some(OAuthProvider::Discord)
    } else {
        None
    }
}

impl OAuthProvider {
    /// The lower-case name of the provider.
    pub open spec fn name(self) -> Seq<char> {
        match self {
            OAuthProvider::Google => google_name(),
            OAuthProvider::Github => github_name(),
            OAuthProvider::Discord => discord_name(),
        }
    }

    pub fn as_str(&self) -> (r: &'static str)
        ensures
            r@ == self.name(),
    {
        proof {
            reveal_strlit("google");
            reveal_strlit("github");
            reveal_strlit("discord");
        }
        match self {
            OAuthProvider::Google => "google",
            OAuthProvider::Github => "github",
            OAuthProvider::Discord => "discord",
        }
    }

    /// The provider named by `s`, compared without regard to letter case.
    ///
    /// Only ASCII letters are folded. Outside ASCII, only U+212A (to `k`) and
    /// U+0130 (to `i` followed by a combining dot) lower-case to ASCII
    /// letters, and neither can spell one of the three names, so this agrees
    /// with comparing `s.to_lowercase()`.
    pub fn from_str(s: &str) -> (r: Option<OAuthProvider>)
        ensures
            r == provider_named(ascii_lower_all(s@)),
    {
        proof {
            reveal_strlit("google");
            reveal_strlit("github");
            reveal_strlit("discord");
            assert("google"@ =~= google_name());
            assert("github"@ =~= github_name());
            assert("discord"@ =~= discord_name());
        }
        if eq_lowered(s, "google") {
            Some(OAuthProvider::Google)
        } else if eq_lowered(s, "github") {
            Some(OAuthProvider::Github)
        } else if eq_lowered(s, "discord") {
            Some(OAuthProvider::Discord)
        } else {
            None
        }
    }
}

/// A verification token (email verification, password reset).
#[derive(Debug, Clone)]
pub struct VerificationToken {
    pub id: String,
    pub user_id: String,
    pub token: String,
    pub token_type: TokenType,
    pub expires_at: String,
    pub used: bool,
}

/// What a verification token is for.
#[derive(Debug, Clone, Copy, PartialEq, Eq, Structural)]
pub enum TokenType {
    EmailVerification,
    PasswordReset,
}

pub open spec fn email_verification_name() -> Seq<char> {
    seq!['e', 'm', 'a', 'i', 'l', '_', 'v', 'e', 'r', 'i', 'f', 'i', 'c', 'a', 't', 'i', 'o', 'n']
}

pub open spec fn password_reset_name() -> Seq<char> {
    seq!['p', 'a', 's', 's', 'w', 'o', 'r', 'd', '_', 'r', 'e', 's', 'e', 't']
}

/// The token type whose stored name is exactly `name`.
pub open spec fn token_type_named(name: Seq<char>) -> Option<TokenType> {
    if name == email_verification_name() {
        Some(TokenType::EmailVerification)
    } else if name == password_reset_name() {
        Some(TokenType::PasswordReset)
    } else {
        None
    }
}

impl TokenType {
    /// The name under which the token type is stored.
    pub open spec fn name(self) -> Seq<char> {
        match self {
            TokenType::EmailVerification => email_verification_name(),
            TokenType::PasswordReset => password_reset_name(),
        }
    }

    pub fn as_str(&self) -> (r: &'static str)
        ensures
            r@ == self.name(),
    {
        proof {
            reveal_strlit("email_verification");
            reveal_strlit("password_reset");
        }
        match self {
            TokenType::EmailVerification => "email_verification",
            TokenType::PasswordReset => "password_reset",
        }
    }

    /// The token type stored under `s` (the comparison is exact).
    pub fn from_str(s: &str) -> (r: Option<TokenType>)
        ensures
            r == token_type_named(s@),
    {
        proof {
            reveal_strlit("email_verification");
            reveal_strlit("password_reset");
            assert("email_verification"@ =~= email_verification_name());
            assert("password_reset"@ =~= password_reset_name());
        }
        if crate::text::str_eq(s, "email_verification") {
            Some(TokenType::EmailVerification)
        } else if crate::text::str_eq(s, "password_reset") {
            Some(TokenType::PasswordReset)
        } else {
            None
        }
    }
}

/// The claims carried by a session token.
#[derive(Debug, Clone)]
pub struct Claims {
    /// The user id.
    pub sub: String,
    pub email: String,
    pub username: String,
    /// Expiration time, in seconds since the Unix epoch.
    pub exp: usize,
    /// Issue time, in seconds since the Unix epoch.
    pub iat: usize,
}

/// Body of a registration request.
#[derive(Debug)]
pub struct RegisterRequest {
    pub email: String,
    pub username: String,
    pub password: String,
}

/// Body of a login request.
#[derive(Debug)]
pub struct LoginRequest {
    pub email: String,
    pub password: String,
}

/// Reply to a successful registration or login.
#[derive(Debug)]
pub struct AuthResponse {
    pub token: String,
    pub user: User,
}

/// Body of a password-reset request.
#[derive(Debug)]
pub struct ForgotPasswordRequest {
    pub email: String,
}

/// Body of a password change made with a reset token.
#[derive(Debug)]
pub struct ResetPasswordRequest {
    pub token: String,
    pub new_password: String,
}

/// Query of an email verification.
#[derive(Debug)]
pub struct VerifyEmailRequest {
    pub token: String,
}

/// A reply that carries a message only.
#[derive(Debug)]
pub struct MessageResponse {
    pub message: String,
}

/// Query of an OAuth callback.
#[derive(Debug)]
pub struct OAuthCallback {
    pub code: String,
    pub state: Option<String>,
}

/// What an OAuth provider tells about a user.
#[derive(Debug, Clone)]
pub struct OAuthUserInfo {
    pub provider: OAuthProvider,
    pub provider_user_id: String,
    pub email: String,
    pub username: String,
}

/// Each provider's name leads back to the provider: reading back what
/// `as_str` writes, in any letter case that ASCII folding undoes, gives
/// the same provider.
pub proof fn lemma_provider_name_round_trip(p: OAuthProvider)
    ensures
        provider_named(ascii_lower_all(p.name())) == Some(p),
{
    assert(ascii_lower_all(p.name()) =~= p.name());
}

/// Distinct providers have distinct names.
pub proof fn lemma_provider_names_distinct(p: OAuthProvider, q: OAuthProvider)
    ensures
        p.name() == q.name() <==> p == q,
{
    if p != q {
        assert(p.name()[1] != q.name()[1] || p.name().len() != q.name().len());
    }
}

/// Each token type's stored name leads back to the token type, and
/// distinct token types have distinct names.
pub proof fn lemma_token_type_name_round_trip(t: TokenType, u: TokenType)
    ensures
        token_type_named(t.name()) == Some(t),
        t.name() == u.name() <==> t == u,
{
    if t != u {
        assert(t.name()[0] != u.name()[0]);
    }
}

} // verus!
