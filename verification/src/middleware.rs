//! Authentication of gRPC requests: the bearer token of the
//! `authorization` metadata entry is checked as a session token.

use vstd::prelude::*;
use crate::jwt::{verify_outcome, described_as, hs256_signed, reads_back, written_with, JwtError, JwtManager, TokenData};
use crate::models::Claims;
use crate::text::strip_prefix;

verus! {

/// Key of the authorization metadata entry.
pub const AUTH_HEADER: &'static str = "authorization";

pub open spec fn bearer_prefix() -> Seq<char> {
    seq!['B', 'e', 'a', 'r', 'e', 'r', ' ']
}

/// The entry is present and starts with `Bearer `.
pub open spec fn carries_bearer(authorization: Option<&str>) -> bool {
    authorization matches Some(h) && bearer_prefix().is_prefix_of(h@)
}

pub open spec fn missing_token_message() -> Seq<char> {
    "Missing authorization token"@
}

pub open spec fn invalid_token_prefix() -> Seq<char> {
    "Invalid token: "@
}

/// Why a request was refused; it maps to the gRPC status `UNAUTHENTICATED`.
#[derive(Debug)]
pub enum AuthError {
    Unauthenticated(String),
}

/// The bearer token in the text of an `authorization` entry: the entry must
/// be present and start with `Bearer `.
pub fn extract_token<'a>(authorization: Option<&'a str>) -> (r: Option<&'a str>)
    ensures
        authorization is None ==> r is None,
        authorization matches Some(h) ==> (r is Some <==> bearer_prefix().is_prefix_of(h@)),
        authorization matches Some(h) ==> (r matches Some(t) ==> t@ == h@.skip(7)),
{
    proof {
        reveal_strlit("Bearer ");
        assert("Bearer "@ =~= bearer_prefix());
    }
    match authorization {
        Some(h) => strip_prefix(h, "Bearer "),
        None => None,
    }
}

/// The answer to a request given the outcome of checking its token.
pub open spec fn validation_answer(checked: Result<TokenData, JwtError>, r: Result<Claims, AuthError>) -> bool {
    &&& checked matches Ok(d) ==> r == Ok::<Claims, AuthError>(d.claims)
    &&& checked matches Err(e) ==> (r matches Err(AuthError::Unauthenticated(m)) && invalid_token_prefix().is_prefix_of(
        m@,
    ) && described_as(e, m@.skip(15)))
}

/// The answer to a request given the outcome of checking its token: the
/// claims, or a refusal whose message is `Invalid token: ` followed by the
/// description of the error.
pub fn validation_reply(checked: Result<TokenData, JwtError>) -> (r: Result<Claims, AuthError>)
    ensures
        validation_answer(checked, r),
{
    match checked {
        Ok(data) => Ok(data.claims),
        Err(e) => {
            let mut m = String::from_str("Invalid token: ");
            let detail = e.describe();
            m.append(detail.as_str());
            proof {
                reveal_strlit("Invalid token: ");
            }
            assert(m@.subrange(0, invalid_token_prefix().len() as int) =~= invalid_token_prefix());
            assert(m@.skip(15) =~= detail@);
            Err(AuthError::Unauthenticated(m))
        },
    }
}

/// Checks a token and returns its claims: only a token signed with the
/// manager's secret is accepted, and one it issued is accepted unless it has
/// expired or the clock reads earlier than the Unix epoch.
pub fn validate_token(jwt: &JwtManager, token: &str) -> (r: Result<Claims, AuthError>)
    ensures
        r matches Err(AuthError::Unauthenticated(m)) ==> invalid_token_prefix().is_prefix_of(m@),
        r matches Ok(c) ==> reads_back(jwt.config().secret_view(), token@, Ok::<Claims, JwtError>(c)),
        r is Ok ==> hs256_signed(token@, jwt.config().secret_view()),
        forall|sub: Seq<char>, email: Seq<char>, username: Seq<char>, exp: nat, iat: nat|
            #[trigger] written_with(token@, jwt.config().secret_view(), sub, email, username, exp, iat) && exp
                <= usize::MAX && iat <= usize::MAX ==> (r is Ok || (r matches Err(AuthError::Unauthenticated(m)) && (
            m@ == invalid_token_prefix() + "ExpiredSignature"@ || m@ == invalid_token_prefix() + "Time went backwards"@))),
        // The answer is the one for what checking the token gave.
        exists|v: Result<TokenData, JwtError>|
            #[trigger] verify_outcome(jwt.config().secret_view(), token@, v) && validation_answer(v, r),
{
    let v = jwt.verify_token(token);
    let ghost checked = v;
    let r = validation_reply(v);
    assert(verify_outcome(jwt.config().secret_view(), token@, checked) && validation_answer(checked, r));
    proof {
        reveal_strlit("Invalid token: ");
        if r is Err {
            let m = r->Err_0->Unauthenticated_0;
            assert(m@ =~= invalid_token_prefix() + m@.skip(15));
        }
    }
    r
}

/// Extracts and checks the token of a request, returning its claims; a
/// request without a bearer token is refused.
pub fn authenticate_request(jwt: &JwtManager, authorization: Option<&str>) -> (r: Result<Claims, AuthError>)
    ensures
        !carries_bearer(authorization) ==> (r matches Err(AuthError::Unauthenticated(m)) && m@
            == missing_token_message()),
        r matches Err(AuthError::Unauthenticated(m)) ==> (m@ == missing_token_message()
            || invalid_token_prefix().is_prefix_of(m@)),
        r matches Ok(c) ==> (authorization matches Some(h) && bearer_prefix().is_prefix_of(h@) && reads_back(
            jwt.config().secret_view(),
            h@.skip(7),
            Ok::<Claims, JwtError>(c),
        )),
        forall|sub: Seq<char>, email: Seq<char>, username: Seq<char>, exp: nat, iat: nat|
            carries_bearer(authorization) && #[trigger] written_with(
                authorization->0@.skip(7),
                jwt.config().secret_view(),
                sub,
                email,
                username,
                exp,
                iat,
            ) && exp <= usize::MAX && iat <= usize::MAX ==> (r is Ok || (r matches Err(AuthError::Unauthenticated(m))
                && (m@ == invalid_token_prefix() + "ExpiredSignature"@ || m@ == invalid_token_prefix()
                + "Time went backwards"@))),
        // With a bearer token, the answer is the one for what checking it gave.
        carries_bearer(authorization) ==> exists|v: Result<TokenData, JwtError>|
            #[trigger] verify_outcome(jwt.config().secret_view(), authorization->0@.skip(7), v) && validation_answer(v, r),
{
    match extract_token(authorization) {
        Some(token) => validate_token(jwt, token),
        None => Err(AuthError::Unauthenticated(String::from_str("Missing authorization token"))),
    }
}

/// Optional authentication: `None` when the request carries no bearer
/// token, an error when it carries an invalid one.
pub fn try_authenticate_request(jwt: &JwtManager, authorization: Option<&str>) -> (r: Result<
    Option<Claims>,
    AuthError,
>)
    ensures
        !carries_bearer(authorization) ==> r matches Ok(None),
        carries_bearer(authorization) ==> !(r matches Ok(None)),
        r matches Err(AuthError::Unauthenticated(m)) ==> invalid_token_prefix().is_prefix_of(m@),
        r matches Ok(Some(c)) ==> (authorization matches Some(h) && bearer_prefix().is_prefix_of(h@) && reads_back(
            jwt.config().secret_view(),
            h@.skip(7),
            Ok::<Claims, JwtError>(c),
        )),
        forall|sub: Seq<char>, email: Seq<char>, username: Seq<char>, exp: nat, iat: nat|
            carries_bearer(authorization) && #[trigger] written_with(
                authorization->0@.skip(7),
                jwt.config().secret_view(),
                sub,
                email,
                username,
                exp,
                iat,
            ) && exp <= usize::MAX && iat <= usize::MAX ==> (r matches Ok(Some(_)) || (r matches Err(AuthError::Unauthenticated(m))
                && (m@ == invalid_token_prefix() + "ExpiredSignature"@ || m@ == invalid_token_prefix()
                + "Time went backwards"@))),
        // With a bearer token, the answer is the one for what checking it gave.
        carries_bearer(authorization) ==> exists|v: Result<TokenData, JwtError>|
            #[trigger] verify_outcome(jwt.config().secret_view(), authorization->0@.skip(7), v) && validation_answer(
                v,
                match r {
                    Ok(Some(c)) => Ok(c),
                    Ok(None) => Err(AuthError::Unauthenticated(arbitrary())),
                    Err(e) => Err(e),
                },
            ),
{
    match extract_token(authorization) {
        Some(token) => match validate_token(jwt, token) {
            Ok(c) => Ok(Some(c)),
            Err(e) => Err(e),
        },
        None => Ok(None),
    }
}

} // verus!
