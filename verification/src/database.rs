//! How authentication records map to and from the rows of the SQLite
//! tables: flags are stored as integers, providers and token types by name.

use vstd::prelude::*;
use crate::models::{
    provider_named, token_type_named, OAuthAccount, OAuthProvider, TokenType, User, VerificationToken,
};
use crate::text::ascii_lower_all;

verus! {

/// A boolean as the tables store it.
pub fn flag_value(b: bool) -> (r: i32)
    ensures
        r == (if b { 1i32 } else { 0i32 }),
{
    if b {
        1
    } else {
        0
    }
}

/// A stored flag: any non-zero integer is true.
pub fn flag_of(v: i32) -> (r: bool)
    ensures
        r == (v != 0),
{
    v != 0
}

/// A `users` row: id, email, username, password hash, verified flag,
/// creation and update times.
pub fn user_from_row(
    id: String,
    email: String,
    username: String,
    password_hash: Option<String>,
    email_verified: i32,
    created_at: String,
    updated_at: String,
) -> (r: User)
    ensures
        r.id == id,
        r.email == email,
        r.username == username,
        r.password_hash == password_hash,
        r.email_verified == (email_verified != 0),
        r.created_at == created_at,
        r.updated_at == updated_at,
{
    User { id, email, username, password_hash, email_verified: flag_of(email_verified), created_at, updated_at }
}

/// The provider stored under `name`; an unknown name reads as Google.
pub open spec fn stored_provider(name: Seq<char>) -> OAuthProvider {
    match provider_named(ascii_lower_all(name)) {
        Some(p) => p,
        None => OAuthProvider::Google,
    }
}

/// An `oauth_accounts` row: id, user id, provider name, provider user id,
/// access and refresh tokens, creation time.
pub fn oauth_account_from_row(
    id: String,
    user_id: String,
    provider: &str,
    provider_user_id: String,
    access_token: Option<String>,
    refresh_token: Option<String>,
    created_at: String,
) -> (r: OAuthAccount)
    ensures
        r.id == id,
        r.user_id == user_id,
        r.provider == stored_provider(provider@),
        r.provider_user_id == provider_user_id,
        r.access_token == access_token,
        r.refresh_token == refresh_token,
        r.created_at == created_at,
{
    let provider = match OAuthProvider::from_str(provider) {
        Some(p) => p,
        None => OAuthProvider::Google,
    };
    OAuthAccount { id, user_id, provider, provider_user_id, access_token, refresh_token, created_at }
}

/// The token type stored under `name`; an unknown name reads as email
/// verification.
pub open spec fn stored_token_type(name: Seq<char>) -> TokenType {
    match token_type_named(name) {
        Some(t) => t,
        None => TokenType::EmailVerification,
    }
}

/// A `verification_tokens` row: id, user id, token, token type name,
/// expiry time, used flag.
pub fn token_from_row(
    id: String,
    user_id: String,
    token: String,
    token_type: &str,
    expires_at: String,
    used: i32,
) -> (r: VerificationToken)
    ensures
        r.id == id,
        r.user_id == user_id,
        r.token == token,
        r.token_type == stored_token_type(token_type@),
        r.expires_at == expires_at,
        r.used == (used != 0),
{
    let token_type = match TokenType::from_str(token_type) {
        Some(t) => t,
        None => TokenType::EmailVerification,
    };
    VerificationToken { id, user_id, token, token_type, expires_at, used: flag_of(used) }
}

/// What the tables store is read back unchanged: a flag, a provider and a
/// token type each survive being written and read.
pub proof fn lemma_stored_values_round_trip(b: bool, p: OAuthProvider, t: TokenType)
    ensures
        (if b { 1i32 } else { 0i32 }) != 0 <==> b,
        stored_provider(p.name()) == p,
        stored_token_type(t.name()) == t,
{
    crate::models::lemma_provider_name_round_trip(p);
    crate::models::lemma_token_type_name_round_trip(t, t);
}

} // verus!
