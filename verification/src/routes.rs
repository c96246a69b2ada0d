//! Decisions of the authentication REST API.
//!
//! Each handler alternates outside work (database, password hashing, mail,
//! token signing, OAuth exchanges) with decisions. The decisions stand here
//! as functions from the outcome of one piece of outside work to either the
//! next input or the reply the handler gives; the server runs them in the
//! order their documentation states and performs the work in between.

use vstd::prelude::*;
use crate::jwt::JwtError;
use crate::models::{
    AuthResponse, Claims, OAuthAccount, OAuthProvider, OAuthUserInfo, TokenType, User, VerificationToken,
};
use crate::random::{base64_url_no_pad, random_text};
use crate::text::{ascii_lower_all, contains_char, strip_prefix};

verus! {

pub const STATUS_OK: u16 = 200;
pub const STATUS_CREATED: u16 = 201;
pub const STATUS_TEMPORARY_REDIRECT: u16 = 307;
pub const STATUS_BAD_REQUEST: u16 = 400;
pub const STATUS_UNAUTHORIZED: u16 = 401;
pub const STATUS_NOT_FOUND: u16 = 404;
pub const STATUS_CONFLICT: u16 = 409;
pub const STATUS_INTERNAL_SERVER_ERROR: u16 = 500;

/// What a reply carries.
#[derive(Debug)]
pub enum ReplyBody {
    /// `{"error": ...}`
    Error(String),
    /// `{"message": ...}`
    Message(String),
    /// A session token and the user it belongs to.
    Auth(AuthResponse),
    /// The user record.
    User(User),
    /// `{"providers": [...]}`
    Providers(Vec<String>),
    /// A temporary redirect to this URL.
    Redirect(String),
}

/// An HTTP reply: status code and body.
#[derive(Debug)]
pub struct ApiReply {
    pub status: u16,
    pub body: ReplyBody,
}

/// The reply is an error with this status and message.
pub open spec fn is_error(r: ApiReply, status: u16, message: Seq<char>) -> bool {
    &&& r.status == status
    &&& r.body matches ReplyBody::Error(m) && m@ == message
}

/// The reply is a message with status 200.
pub open spec fn is_message(r: ApiReply, message: Seq<char>) -> bool {
    &&& r.status == STATUS_OK
    &&& r.body matches ReplyBody::Message(m) && m@ == message
}

/// An error reply.
pub fn error_response(status: u16, message: &str) -> (r: ApiReply)
    ensures
        is_error(r, status, message@),
{
    ApiReply { status, body: ReplyBody::Error(String::from_str(message)) }
}

fn message_response(message: &str) -> (r: ApiReply)
    ensures
        is_message(r, message@),
{
    ApiReply { status: STATUS_OK, body: ReplyBody::Message(String::from_str(message)) }
}

/// Number of bytes of the UTF-8 encoding of `s`.
pub open spec fn byte_len(s: Seq<char>) -> nat {
    vstd::utf8::encode_utf8(s).len()
}

// ------------------------------------------------------------ registration

/// An address holds an `@` and is at least 5 bytes long.
pub open spec fn email_shape_ok(email: Seq<char>) -> bool {
    email.contains('@') && byte_len(email) >= 5
}

/// A username is 3 to 30 bytes long.
pub open spec fn username_length_ok(username: Seq<char>) -> bool {
    3 <= byte_len(username) <= 30
}

/// Registration, step 1: the request's shape. `password_check` is the
/// outcome of the password policy for the requested password.
pub fn check_registration(email: &str, username: &str, password_check: Result<(), String>) -> (r: Option<ApiReply>)
    ensures
        !email_shape_ok(email@) ==> (r matches Some(reply) && is_error(reply, STATUS_BAD_REQUEST, "Invalid email format"@)),
        email_shape_ok(email@) && !username_length_ok(username@) ==> (r matches Some(reply) && is_error(
            reply,
            STATUS_BAD_REQUEST,
            "Username must be 3-30 characters"@,
        )),
        email_shape_ok(email@) && username_length_ok(username@) ==> (match password_check {
            Ok(_) => r is None,
            Err(e) => r matches Some(reply) && is_error(reply, STATUS_BAD_REQUEST, e@),
        }),
{
    let email_bytes = email.as_bytes().len();
    let username_bytes = username.as_bytes().len();
    if !contains_char(email, '@') || email_bytes < 5 {
        return Some(error_response(STATUS_BAD_REQUEST, "Invalid email format"));
    }
    if username_bytes < 3 || username_bytes > 30 {
        return Some(error_response(STATUS_BAD_REQUEST, "Username must be 3-30 characters"));
    }
    match password_check {
        Ok(()) => None,
        Err(e) => Some(ApiReply { status: STATUS_BAD_REQUEST, body: ReplyBody::Error(e) }),
    }
}

/// Registration, step 2: the outcome of looking the address up. An address
/// already in use is refused.
pub fn check_email_unused(found: &Result<Option<User>, String>) -> (r: Option<ApiReply>)
    ensures
        found matches Ok(Some(_)) ==> (r matches Some(reply) && is_error(reply, STATUS_CONFLICT, "Email already registered"@)),
        found matches Ok(None) ==> r is None,
        found is Err ==> (r matches Some(reply) && is_error(reply, STATUS_INTERNAL_SERVER_ERROR, "Database error"@)),
{
    match found {
        Ok(Some(_)) => Some(error_response(STATUS_CONFLICT, "Email already registered")),
        Ok(None) => None,
        Err(_) => Some(error_response(STATUS_INTERNAL_SERVER_ERROR, "Database error")),
    }
}

/// Registration, step 3: the outcome of hashing the password.
pub fn registration_hash(hash: Result<String, String>) -> (r: Result<String, ApiReply>)
    ensures
        hash matches Ok(h) ==> r == Ok::<String, ApiReply>(h),
        hash is Err ==> (r matches Err(reply) && is_error(reply, STATUS_INTERNAL_SERVER_ERROR, "Registration failed"@)),
{
    match hash {
        Ok(h) => Ok(h),
        Err(_) => Err(error_response(STATUS_INTERNAL_SERVER_ERROR, "Registration failed")),
    }
}

/// Registration, step 4: the new account, with a fresh id and the current
/// time; its address is not yet verified.
pub fn new_registered_user(id: String, email: String, username: String, password_hash: String, now: String) -> (r: User)
    ensures
        r.id == id,
        r.email == email,
        r.username == username,
        r.password_hash == Some(password_hash),
        !r.email_verified,
        r.created_at == now,
        r.updated_at == now,
{
    let updated_at = now.clone();
    User { id, email, username, password_hash: Some(password_hash), email_verified: false, created_at: now, updated_at }
}

/// Registration, step 5: the outcome of storing the new account.
pub fn check_user_created(created: &Result<(), String>) -> (r: Option<ApiReply>)
    ensures
        created is Ok ==> r is None,
        created is Err ==> (r matches Some(reply) && is_error(reply, STATUS_INTERNAL_SERVER_ERROR, "Registration failed"@)),
{
    match created {
        Ok(()) => None,
        Err(_) => Some(error_response(STATUS_INTERNAL_SERVER_ERROR, "Registration failed")),
    }
}

/// A verification token record, unused, of the given kind.
pub fn token_record(id: String, user_id: String, token: String, token_type: TokenType, expires_at: String) -> (r: VerificationToken)
    ensures
        r.id == id,
        r.user_id == user_id,
        r.token == token,
        r.token_type == token_type,
        r.expires_at == expires_at,
        !r.used,
{
    VerificationToken { id, user_id, token, token_type, expires_at, used: false }
}

/// How many hours a verification token of each kind stays valid: a day to
/// verify an address, an hour to reset a password.
pub fn token_lifetime_hours(kind: TokenType) -> (r: i64)
    ensures
        kind == TokenType::EmailVerification ==> r == 24,
        kind == TokenType::PasswordReset ==> r == 1,
{
    match kind {
        TokenType::EmailVerification => 24,
        TokenType::PasswordReset => 1,
    }
}

/// Registration, step 6: the verification email goes out only when its
/// token was stored; a failure there does not stop the registration.
pub fn should_send_verification(stored: &Result<(), String>) -> (r: bool)
    ensures
        r == stored is Ok,
{
    stored.is_ok()
}

/// Registration, last step: the outcome of signing the session token.
pub fn registration_reply(token: Result<String, JwtError>, user: User) -> (r: ApiReply)
    ensures
        token matches Ok(t) ==> (r.status == STATUS_CREATED && (r.body matches ReplyBody::Auth(a) && a.token == t
            && a.user == user)),
        token is Err ==> is_error(r, STATUS_INTERNAL_SERVER_ERROR, "Registration failed"@),
{
    match token {
        Ok(t) => ApiReply { status: STATUS_CREATED, body: ReplyBody::Auth(AuthResponse { token: t, user }) },
        Err(_) => error_response(STATUS_INTERNAL_SERVER_ERROR, "Registration failed"),
    }
}

// ------------------------------------------------------------------- login

/// What login answers, given the lookup of the address.
pub open spec fn login_account_outcome(found: Result<Option<User>, String>, r: Result<User, ApiReply>) -> bool {
    &&& found matches Ok(Some(u)) ==> r == Ok::<User, ApiReply>(u)
    &&& found matches Ok(None) ==> (r matches Err(reply) && is_error(reply, STATUS_UNAUTHORIZED, "Invalid credentials"@))
    &&& found is Err ==> (r matches Err(reply) && is_error(reply, STATUS_INTERNAL_SERVER_ERROR, "Login failed"@))
}

/// What login answers, given the check of the password.
pub open spec fn password_check_outcome(matched: Result<bool, String>, r: Option<ApiReply>) -> bool {
    &&& matched matches Ok(true) ==> r is None
    &&& matched matches Ok(false) ==> (r matches Some(reply) && is_error(reply, STATUS_UNAUTHORIZED, "Invalid credentials"@))
    &&& matched is Err ==> (r matches Some(reply) && is_error(reply, STATUS_INTERNAL_SERVER_ERROR, "Login failed"@))
}

/// Login does not tell an unknown address from a wrong password: both are
/// refused with the same status and the same message.
pub proof fn lemma_login_refusals_alike(r1: Result<User, ApiReply>, r2: Option<ApiReply>)
    requires
        login_account_outcome(Ok(None), r1),
        password_check_outcome(Ok(false), r2),
    ensures
        r1 matches Err(a) && r2 matches Some(b) && a.status == b.status && (a.body matches ReplyBody::Error(m1) && (
        b.body matches ReplyBody::Error(m2) && m1@ == m2@)),
{
}

/// Login, step 1: the account with the given address.
pub fn login_account(found: Result<Option<User>, String>) -> (r: Result<User, ApiReply>)
    ensures
        login_account_outcome(found, r),
{
    match found {
        Ok(Some(u)) => Ok(u),
        Ok(None) => Err(error_response(STATUS_UNAUTHORIZED, "Invalid credentials")),
        Err(_) => Err(error_response(STATUS_INTERNAL_SERVER_ERROR, "Login failed")),
    }
}

/// Login, step 2: the stored password hash; accounts created through OAuth
/// have none.
pub fn login_password_hash(user: &User) -> (r: Result<&String, ApiReply>)
    ensures
        user.password_hash matches Some(h) ==> r == Ok::<&String, ApiReply>(&h),
        user.password_hash is None ==> (r matches Err(reply) && is_error(
            reply,
            STATUS_UNAUTHORIZED,
            "Account uses OAuth login only"@,
        )),
{
    match &user.password_hash {
        Some(h) => Ok(h),
        None => Err(error_response(STATUS_UNAUTHORIZED, "Account uses OAuth login only")),
    }
}

/// Login, step 3: the outcome of checking the password against the hash.
pub fn check_password_match(matched: Result<bool, String>) -> (r: Option<ApiReply>)
    ensures
        password_check_outcome(matched, r),
{
    match matched {
        Ok(true) => None,
        Ok(false) => Some(error_response(STATUS_UNAUTHORIZED, "Invalid credentials")),
        Err(_) => Some(error_response(STATUS_INTERNAL_SERVER_ERROR, "Login failed")),
    }
}

/// Login, last step: the outcome of signing the session token.
pub fn login_reply(token: Result<String, JwtError>, user: User) -> (r: ApiReply)
    ensures
        token matches Ok(t) ==> (r.status == STATUS_OK && (r.body matches ReplyBody::Auth(a) && a.token == t
            && a.user == user)),
        token is Err ==> is_error(r, STATUS_INTERNAL_SERVER_ERROR, "Login failed"@),
{
    match token {
        Ok(t) => ApiReply { status: STATUS_OK, body: ReplyBody::Auth(AuthResponse { token: t, user }) },
        Err(_) => error_response(STATUS_INTERNAL_SERVER_ERROR, "Login failed"),
    }
}

// ------------------------------------------------ verification tokens

/// Email verification (step 1) and password reset (step 2): a valid, unused
/// token of the expected kind. Tokens of the other kind count as invalid.
/// `failure` is the message of a database error.
pub fn usable_token(found: Result<Option<VerificationToken>, String>, kind: TokenType, failure: &str) -> (r: Result<
    VerificationToken,
    ApiReply,
>)
    ensures
        found matches Ok(Some(t)) ==> (t.token_type == kind ==> r == Ok::<VerificationToken, ApiReply>(t)),
        found matches Ok(Some(t)) ==> (t.token_type != kind ==> (r matches Err(reply) && is_error(
            reply,
            STATUS_BAD_REQUEST,
            "Invalid or expired token"@,
        ))),
        found matches Ok(None) ==> (r matches Err(reply) && is_error(reply, STATUS_BAD_REQUEST, "Invalid or expired token"@)),
        found is Err ==> (r matches Err(reply) && is_error(reply, STATUS_INTERNAL_SERVER_ERROR, failure@)),
{
    match found {
        Ok(Some(t)) => {
            if t.token_type == kind {
                Ok(t)
            } else {
                Err(error_response(STATUS_BAD_REQUEST, "Invalid or expired token"))
            }
        },
        Ok(None) => Err(error_response(STATUS_BAD_REQUEST, "Invalid or expired token")),
        Err(_) => Err(error_response(STATUS_INTERNAL_SERVER_ERROR, failure)),
    }
}

/// The outcome of a database update that the reply depends on; `failure`
/// is the message of the 500 reply.
pub fn check_update(updated: &Result<(), String>, failure: &str) -> (r: Option<ApiReply>)
    ensures
        updated is Ok ==> r is None,
        updated is Err ==> (r matches Some(reply) && is_error(reply, STATUS_INTERNAL_SERVER_ERROR, failure@)),
{
    match updated {
        Ok(()) => None,
        Err(_) => Some(error_response(STATUS_INTERNAL_SERVER_ERROR, failure)),
    }
}

/// Email verification, last step (marking the token used may fail unnoticed).
pub fn email_verified_reply() -> (r: ApiReply)
    ensures
        is_message(r, "Email verified successfully"@),
{
    message_response("Email verified successfully")
}

pub open spec fn reset_requested_message() -> Seq<char> {
    "If an account exists with this email, a reset link has been sent"@
}

/// Password reset request: the reply is the same whatever happens, so that
/// it does not tell which addresses have accounts.
pub fn forgot_password_reply() -> (r: ApiReply)
    ensures
        is_message(r, reset_requested_message()),
{
    message_response("If an account exists with this email, a reset link has been sent")
}

/// Password reset request, step 1: the account to send a link to, if the
/// address has one and the lookup worked.
pub fn reset_requester(found: Result<Option<User>, String>) -> (r: Option<User>)
    ensures
        found matches Ok(Some(u)) ==> r == Some(u),
        !(found matches Ok(Some(_))) ==> r is None,
{
    match found {
        Ok(Some(u)) => Some(u),
        _ => None,
    }
}

/// Password reset, step 1: the new password must pass the password policy.
pub fn check_new_password(password_check: Result<(), String>) -> (r: Option<ApiReply>)
    ensures
        password_check is Ok ==> r is None,
        password_check matches Err(e) ==> (r matches Some(reply) && is_error(reply, STATUS_BAD_REQUEST, e@)),
{
    match password_check {
        Ok(()) => None,
        Err(e) => Some(ApiReply { status: STATUS_BAD_REQUEST, body: ReplyBody::Error(e) }),
    }
}

/// Password reset, step 3: the outcome of hashing the new password.
pub fn reset_hash(hash: Result<String, String>) -> (r: Result<String, ApiReply>)
    ensures
        hash matches Ok(h) ==> r == Ok::<String, ApiReply>(h),
        hash is Err ==> (r matches Err(reply) && is_error(reply, STATUS_INTERNAL_SERVER_ERROR, "Reset failed"@)),
{
    match hash {
        Ok(h) => Ok(h),
        Err(_) => Err(error_response(STATUS_INTERNAL_SERVER_ERROR, "Reset failed")),
    }
}

/// Password reset, last step.
pub fn password_reset_reply() -> (r: ApiReply)
    ensures
        is_message(r, "Password reset successfully"@),
{
    message_response("Password reset successfully")
}

// ------------------------------------------------------------------- OAuth

/// The provider named in the path (letter case does not matter).
pub fn provider_from_path(name: &str) -> (r: Result<OAuthProvider, ApiReply>)
    ensures
        crate::models::provider_named(ascii_lower_all(name@)) matches Some(p) ==> r == Ok::<OAuthProvider, ApiReply>(p),
        crate::models::provider_named(ascii_lower_all(name@)) is None ==> (r matches Err(reply) && is_error(
            reply,
            STATUS_BAD_REQUEST,
            "Unknown OAuth provider"@,
        )),
{
    match OAuthProvider::from_str(name) {
        Some(p) => Ok(p),
        None => Err(error_response(STATUS_BAD_REQUEST, "Unknown OAuth provider")),
    }
}

/// OAuth redirect: to the provider's authorization URL, or a 500 reply
/// with the reason the URL could not be built.
pub fn oauth_redirect_reply(auth: Result<(String, String), String>) -> (r: ApiReply)
    ensures
        auth matches Ok((url, _)) ==> r.status == STATUS_TEMPORARY_REDIRECT && r.body == ReplyBody::Redirect(url),
        auth matches Err(e) ==> is_error(r, STATUS_INTERNAL_SERVER_ERROR, e@),
{
    match auth {
        Ok((url, _csrf)) => ApiReply { status: STATUS_TEMPORARY_REDIRECT, body: ReplyBody::Redirect(url) },
        Err(e) => ApiReply { status: STATUS_INTERNAL_SERVER_ERROR, body: ReplyBody::Error(e) },
    }
}

/// OAuth callback, step 1: the user information the provider returned for
/// the code.
pub fn exchanged_user_info(info: Result<OAuthUserInfo, String>) -> (r: Result<OAuthUserInfo, ApiReply>)
    ensures
        info matches Ok(i) ==> r == Ok::<OAuthUserInfo, ApiReply>(i),
        info is Err ==> (r matches Err(reply) && is_error(reply, STATUS_INTERNAL_SERVER_ERROR, "OAuth login failed"@)),
{
    match info {
        Ok(i) => Ok(i),
        Err(_) => Err(error_response(STATUS_INTERNAL_SERVER_ERROR, "OAuth login failed")),
    }
}

/// OAuth callback, step 2: the user id of the account already linked to
/// this provider identity, if any.
pub fn linked_user_id(found: Result<Option<OAuthAccount>, String>) -> (r: Result<Option<String>, ApiReply>)
    ensures
        found matches Ok(Some(a)) ==> r == Ok::<Option<String>, ApiReply>(Some(a.user_id)),
        found matches Ok(None) ==> r == Ok::<Option<String>, ApiReply>(None),
        found is Err ==> (r matches Err(reply) && is_error(reply, STATUS_INTERNAL_SERVER_ERROR, "Login failed"@)),
{
    match found {
        Ok(Some(a)) => Ok(Some(a.user_id)),
        Ok(None) => Ok(None),
        Err(_) => Err(error_response(STATUS_INTERNAL_SERVER_ERROR, "Login failed")),
    }
}

/// OAuth callback, step 3 for a linked identity: the linked user.
pub fn linked_user(found: Result<Option<User>, String>) -> (r: Result<User, ApiReply>)
    ensures
        found matches Ok(Some(u)) ==> r == Ok::<User, ApiReply>(u),
        found matches Ok(None) ==> (r matches Err(reply) && is_error(reply, STATUS_INTERNAL_SERVER_ERROR, "User not found"@)),
        found is Err ==> (r matches Err(reply) && is_error(reply, STATUS_INTERNAL_SERVER_ERROR, "Login failed"@)),
{
    match found {
        Ok(Some(u)) => Ok(u),
        Ok(None) => Err(error_response(STATUS_INTERNAL_SERVER_ERROR, "User not found")),
        Err(_) => Err(error_response(STATUS_INTERNAL_SERVER_ERROR, "Login failed")),
    }
}

/// OAuth callback, step 3 for a new identity: the account that already
/// has the provider's address, if any.
pub fn account_with_email(found: Result<Option<User>, String>) -> (r: Result<Option<User>, ApiReply>)
    ensures
        found matches Ok(u) ==> r == Ok::<Option<User>, ApiReply>(u),
        found is Err ==> (r matches Err(reply) && is_error(reply, STATUS_INTERNAL_SERVER_ERROR, "Login failed"@)),
{
    match found {
        Ok(u) => Ok(u),
        Err(_) => Err(error_response(STATUS_INTERNAL_SERVER_ERROR, "Login failed")),
    }
}

/// The link between a user and a provider identity, without provider tokens.
pub fn oauth_account_record(
    id: String,
    user_id: String,
    provider: OAuthProvider,
    provider_user_id: String,
    now: String,
) -> (r: OAuthAccount)
    ensures
        r.id == id,
        r.user_id == user_id,
        r.provider == provider,
        r.provider_user_id == provider_user_id,
        r.access_token is None,
        r.refresh_token is None,
        r.created_at == now,
{
    OAuthAccount { id, user_id, provider, provider_user_id, access_token: None, refresh_token: None, created_at: now }
}

/// A new account for a provider identity: no password, and an address the
/// provider vouches for.
pub fn new_oauth_user(id: String, info: &OAuthUserInfo, now: String) -> (r: User)
    ensures
        r.id == id,
        r.email == info.email,
        r.username == info.username,
        r.password_hash is None,
        r.email_verified,
        r.created_at == now,
        r.updated_at == now,
{
    let updated_at = now.clone();
    User {
        id,
        email: info.email.clone(),
        username: info.username.clone(),
        password_hash: None,
        email_verified: true,
        created_at: now,
        updated_at,
    }
}

/// What to do for a provider identity that no account is linked to yet:
/// the user to sign in, whether that user must first be stored, and the
/// link to store.
#[derive(Debug)]
pub struct OAuthLinkPlan {
    pub user: User,
    pub create_user: bool,
    pub account: OAuthAccount,
}

/// OAuth callback, step 3 for a new identity: an account that already has
/// the provider's address is linked to the identity; otherwise a new,
/// verified, password-less user is created (with id `user_id`) and linked.
/// The link gets id `account_id`; `now` stamps the new records.
pub fn oauth_link_plan(
    found: Result<Option<User>, String>,
    user_id: String,
    account_id: String,
    provider: OAuthProvider,
    info: &OAuthUserInfo,
    now: String,
) -> (r: Result<OAuthLinkPlan, ApiReply>)
    ensures
        found is Err ==> (r matches Err(reply) && is_error(reply, STATUS_INTERNAL_SERVER_ERROR, "Login failed"@)),
        found matches Ok(Some(u)) ==> (r matches Ok(p) && p.user == u && !p.create_user),
        found matches Ok(None) ==> (r matches Ok(p) && p.create_user && p.user.id == user_id && p.user.email
            == info.email && p.user.username == info.username && p.user.password_hash is None
            && p.user.email_verified && p.user.created_at == now && p.user.updated_at == now),
        r matches Ok(p) ==> (p.account.id == account_id && p.account.user_id == p.user.id && p.account.provider
            == provider && p.account.provider_user_id == info.provider_user_id && p.account.access_token is None
            && p.account.refresh_token is None && p.account.created_at == now),
{
    match account_with_email(found) {
        Err(reply) => Err(reply),
        Ok(Some(existing)) => {
            let account = oauth_account_record(
                account_id,
                existing.id.clone(),
                provider,
                info.provider_user_id.clone(),
                now,
            );
            Ok(OAuthLinkPlan { user: existing, create_user: false, account })
        },
        Ok(None) => {
            let stamp = now.clone();
            let user = new_oauth_user(user_id, info, now);
            let account = oauth_account_record(account_id, user.id.clone(), provider, info.provider_user_id.clone(), stamp);
            Ok(OAuthLinkPlan { user, create_user: true, account })
        },
    }
}

/// `<base>?token=<token>&user_id=<id>&username=<name>`
pub open spec fn success_redirect_text(base: Seq<char>, token: Seq<char>, user_id: Seq<char>, username: Seq<char>) -> Seq<
    char,
> {
    base + "?token="@ + token + "&user_id="@ + user_id + "&username="@ + username
}

/// OAuth callback, last step: a redirect to the front end (by default `/`)
/// carrying the session token, or a 500 reply when it could not be signed.
pub fn oauth_callback_reply(token: Result<String, JwtError>, user: &User, success_base: Option<String>) -> (r: ApiReply)
    ensures
        token is Err ==> is_error(r, STATUS_INTERNAL_SERVER_ERROR, "Login failed"@),
        token matches Ok(t) ==> (r.status == STATUS_TEMPORARY_REDIRECT && (r.body matches ReplyBody::Redirect(url)
            && url@ == success_redirect_text(
            match success_base {
                Some(b) => b@,
                None => "/"@,
            },
            t@,
            user.id@,
            user.username@,
        ))),
{
    match token {
        Ok(t) => {
            let mut url = match success_base {
                Some(b) => b,
                None => String::from_str("/"),
            };
            url.append("?token=");
            url.append(t.as_str());
            url.append("&user_id=");
            url.append(user.id.as_str());
            url.append("&username=");
            url.append(user.username.as_str());
            ApiReply { status: STATUS_TEMPORARY_REDIRECT, body: ReplyBody::Redirect(url) }
        },
        Err(_) => error_response(STATUS_INTERNAL_SERVER_ERROR, "Login failed"),
    }
}

/// The configured providers, by name.
pub fn providers_reply(providers: &Vec<OAuthProvider>) -> (r: ApiReply)
    ensures
        r.status == STATUS_OK,
        r.body matches ReplyBody::Providers(names) && names@.len() == providers@.len() && forall|k: int|
            0 <= k < providers@.len() ==> (#[trigger] names@[k])@ == providers@[k].name(),
{
    let mut names: Vec<String> = Vec::new();
    let mut k: usize = 0;
    while k < providers.len()
        invariant
            k <= providers@.len(),
            names@.len() == k,
            forall|j: int| 0 <= j < k ==> (#[trigger] names@[j])@ == providers@[j].name(),
        decreases providers@.len() - k,
    {
        names.push(String::from_str(providers[k].as_str()));
        k = k + 1;
    }
    ApiReply { status: STATUS_OK, body: ReplyBody::Providers(names) }
}

// ------------------------------------------------------------ current user

/// Current user, step 1: the bearer token of the `Authorization` header
/// (an unreadable header counts as empty).
pub fn bearer_from_header(header: Option<&str>) -> (r: Result<&str, ApiReply>)
    ensures
        header is None ==> (r matches Err(reply) && is_error(reply, STATUS_UNAUTHORIZED, "Missing authorization header"@)),
        header matches Some(h) ==> (crate::middleware::bearer_prefix().is_prefix_of(h@) ==> (r matches Ok(t) && t@
            == h@.skip(7))),
        header matches Some(h) ==> (!crate::middleware::bearer_prefix().is_prefix_of(h@) ==> (r matches Err(reply)
            && is_error(reply, STATUS_UNAUTHORIZED, "Invalid authorization header"@))),
{
    match header {
        Some(value) => {
            proof {
                reveal_strlit("Bearer ");
                assert("Bearer "@ =~= crate::middleware::bearer_prefix());
            }
            match strip_prefix(value, "Bearer ") {
                Some(t) => Ok(t),
                None => Err(error_response(STATUS_UNAUTHORIZED, "Invalid authorization header")),
            }
        },
        None => Err(error_response(STATUS_UNAUTHORIZED, "Missing authorization header")),
    }
}

/// Current user, step 2: the outcome of checking the token.
pub fn token_claims(checked: Result<Claims, JwtError>) -> (r: Result<Claims, ApiReply>)
    ensures
        checked matches Ok(c) ==> r == Ok::<Claims, ApiReply>(c),
        checked is Err ==> (r matches Err(reply) && is_error(reply, STATUS_UNAUTHORIZED, "Invalid or expired token"@)),
{
    match checked {
        Ok(c) => Ok(c),
        Err(_) => Err(error_response(STATUS_UNAUTHORIZED, "Invalid or expired token")),
    }
}

/// Current user, last step: the user the token names.
pub fn current_user_reply(found: Result<Option<User>, String>) -> (r: ApiReply)
    ensures
        found matches Ok(Some(u)) ==> r.status == STATUS_OK && r.body == ReplyBody::User(u),
        found matches Ok(None) ==> is_error(r, STATUS_NOT_FOUND, "User not found"@),
        found is Err ==> is_error(r, STATUS_INTERNAL_SERVER_ERROR, "Failed to get user"@),
{
    match found {
        Ok(Some(u)) => ApiReply { status: STATUS_OK, body: ReplyBody::User(u) },
        Ok(None) => error_response(STATUS_NOT_FOUND, "User not found"),
        Err(_) => error_response(STATUS_INTERNAL_SERVER_ERROR, "Failed to get user"),
    }
}


// ---------------------------------------------------------- random tokens

/// A fresh random token: 32 bytes from the system's random source, in
/// unpadded URL-safe Base64. `None` when the source fails.
pub fn generate_token() -> (r: Option<String>)
    ensures
        r matches Some(t) ==> exists|b: Seq<u8>| b.len() == 32 && t@ == base64_url_no_pad(b),
        r matches Some(t) ==> t@.len() == 43,
{
    random_text(32)
}

} // verus!
