//! Session tokens: HS256-signed JWTs carrying the user's id, email and name.

use vstd::prelude::*;
use crate::models::Claims;
use crate::text::{parse_unsigned, unsigned_text_value, within};

verus! {

#[verifier::external_type_specification]
#[verifier::external_body]
pub struct ExJwtError(jsonwebtoken::errors::Error);

#[verifier::external_type_specification]
#[verifier::external_body]
pub struct ExJwtHeader(jsonwebtoken::Header);

/// The token that `jsonwebtoken::encode` produces with the default header
/// (HS256) for the claims object `{sub, email, username, exp, iat}`, in
/// that field order, signed with `secret`.
pub uninterp spec fn hs256_token(
    secret: Seq<char>,
    sub: Seq<char>,
    email: Seq<char>,
    username: Seq<char>,
    exp: nat,
    iat: nat,
) -> Seq<char>;

/// Whether the signature part of `token` is the HS256 signature of the rest
/// of it under the key made from the bytes of `secret`, as
/// `jsonwebtoken::decode` checks it.
pub uninterp spec fn hs256_signed(token: Seq<char>, secret: Seq<char>) -> bool;

/// Calls `jsonwebtoken::encode` with the default header and an HMAC key made
/// from the bytes of `secret`, on a JSON object holding the five claims in
/// the order `sub, email, username, exp, iat`. Claimed: it succeeds (an HMAC
/// key and a JSON object cannot fail to encode), the token is `hs256_token`
/// of the arguments, and its signature is the HS256 signature under `secret`.
#[verifier::external_body]
fn encode_hs256(
    secret: &str,
    sub: &str,
    email: &str,
    username: &str,
    exp: usize,
    iat: usize,
) -> (r: Result<String, jsonwebtoken::errors::Error>)
    ensures
        r is Ok,
        r matches Ok(t) ==> t@ == hs256_token(secret@, sub@, email@, username@, exp as nat, iat as nat),
        r matches Ok(t) ==> hs256_signed(t@, secret@),
{
    let mut m = serde_json::Map::new();
    m.insert("sub".to_string(), serde_json::Value::from(sub));
    m.insert("email".to_string(), serde_json::Value::from(email));
    m.insert("username".to_string(), serde_json::Value::from(username));
    m.insert("exp".to_string(), serde_json::Value::from(exp));
    m.insert("iat".to_string(), serde_json::Value::from(iat));
    let key = jsonwebtoken::EncodingKey::from_secret(secret.as_bytes());
    jsonwebtoken::encode(&jsonwebtoken::Header::default(), &m, &key)
}

/// The members of a token payload that the claims are read from, each
/// present only when the payload holds it with the expected JSON type.
#[derive(Debug)]
pub struct ClaimMembers {
    pub sub: Option<String>,
    pub email: Option<String>,
    pub username: Option<String>,
    pub exp: Option<u64>,
    pub iat: Option<u64>,
}

/// The members hold exactly the claims that were written.
pub open spec fn members_are(
    m: ClaimMembers,
    sub: Seq<char>,
    email: Seq<char>,
    username: Seq<char>,
    exp: nat,
    iat: nat,
) -> bool {
    &&& m.sub matches Some(s) && s@ == sub
    &&& m.email matches Some(e) && e@ == email
    &&& m.username matches Some(u) && u@ == username
    &&& m.exp == Some(exp as u64)
    &&& m.iat == Some(iat as u64)
}

/// Whether a token was written by `encode_hs256` with this secret.
pub open spec fn written_with(token: Seq<char>, secret: Seq<char>, sub: Seq<char>, email: Seq<char>, username: Seq<char>, exp: nat, iat: nat) -> bool {
    token == hs256_token(secret, sub, email, username, exp, iat)
}

/// The number of `.` separators in a text.
pub open spec fn dot_count(s: Seq<char>) -> nat
    decreases s.len(),
{
    if s.len() == 0 {
        0
    } else {
        dot_count(s.drop_last()) + if s.last() == '.' { 1nat } else { 0nat }
    }
}

/// Calls `jsonwebtoken::decode` into a JSON value, with an HMAC key made
/// from `secret` and the default validation with its `exp` check off (the
/// expiry is compared by the caller, with the clock it reads itself), and
/// with the signature check off too when `check_signature` is false; then
/// reads the five members with `Value::get`, `Value::as_str` and
/// `Value::as_u64`, and returns them with the token's header. With the
/// `exp` check off, `decode` does not read the clock. Claimed: with the signature check on, a payload comes back only
/// for a token signed with `secret`, and a token that `encode_hs256` wrote
/// with `secret` (times within a `usize`) gives back the members written;
/// with the check off, a token that `encode_hs256` wrote with any secret
/// does; a token without the two `.` between its three parts is refused.
#[verifier::external_body]
fn decode_members(token: &str, secret: &str, check_signature: bool) -> (r: Result<(jsonwebtoken::Header, ClaimMembers), jsonwebtoken::errors::Error>)
    ensures
        r is Ok ==> (check_signature ==> hs256_signed(token@, secret@)),
        dot_count(token@) < 2 ==> r is Err,
        forall|sub: Seq<char>, email: Seq<char>, username: Seq<char>, exp: nat, iat: nat|
            #[trigger] written_with(token@, secret@, sub, email, username, exp, iat) && exp <= usize::MAX && iat
                <= usize::MAX ==> (r matches Ok(d) ==> members_are(d.1, sub, email, username, exp, iat)),
        forall|sub: Seq<char>, email: Seq<char>, username: Seq<char>, exp: nat, iat: nat|
            #[trigger] written_with(token@, secret@, sub, email, username, exp, iat) && exp <= usize::MAX && iat
                <= usize::MAX ==> r is Ok,
        forall|key: Seq<char>, sub: Seq<char>, email: Seq<char>, username: Seq<char>, exp: nat, iat: nat|
            #[trigger] written_with(token@, key, sub, email, username, exp, iat) && exp <= usize::MAX && iat
                <= usize::MAX && !check_signature ==> (r matches Ok(d) ==> members_are(d.1, sub, email, username, exp, iat)),
        forall|key: Seq<char>, sub: Seq<char>, email: Seq<char>, username: Seq<char>, exp: nat, iat: nat|
            #[trigger] written_with(token@, key, sub, email, username, exp, iat) && exp <= usize::MAX && iat
                <= usize::MAX && !check_signature ==> r is Ok,
{
    let mut validation = jsonwebtoken::Validation::default();
    validation.validate_exp = false;
    if !check_signature {
        validation.insecure_disable_signature_validation();
    }
    let key = jsonwebtoken::DecodingKey::from_secret(secret.as_bytes());
    let data = jsonwebtoken::decode::<serde_json::Value>(token, &key, &validation)?;
    let v = data.claims;
    let s = |k: &str| v.get(k).and_then(|m| m.as_str()).map(String::from);
    let n = |k: &str| v.get(k).and_then(|m| m.as_u64());
    Ok((data.header, ClaimMembers { sub: s("sub"), email: s("email"), username: s("username"), exp: n("exp"), iat: n("iat") }))
}

/// Calls `SystemTime::now().duration_since(UNIX_EPOCH)`: whole seconds since
/// the Unix epoch, or `None` when the clock reads earlier. Nothing is
/// claimed of the value.
#[verifier::external_body]
fn unix_time_now() -> (r: Option<u64>) {
    match std::time::SystemTime::now().duration_since(std::time::UNIX_EPOCH) {
        Ok(d) => Some(d.as_secs()),
        Err(_) => None,
    }
}

/// Formats a `jsonwebtoken` error with its `Display` impl. Nothing is claimed.
#[verifier::external_body]
fn jwt_error_text(e: &jsonwebtoken::errors::Error) -> (r: String) {
    format!("{}", e)
}

/// Why a token could not be made or read.
#[derive(Debug)]
pub enum JwtError {
    /// The `jsonwebtoken` crate refused the token.
    Jwt(jsonwebtoken::errors::Error),
    /// The payload lacks a claim, or holds one of the wrong type.
    MissingClaim(String),
    /// The system clock reads earlier than the Unix epoch.
    ClockBeforeEpoch,
    /// The expiration time does not fit in a `usize`.
    ExpiryOverflow,
    /// The token's expiry lies more than the 60 seconds of leeway in the past.
    Expired,
}

/// `text` describes the error `e`; the description of an error of the
/// `jsonwebtoken` crate is that crate's own.
pub open spec fn described_as(e: JwtError, text: Seq<char>) -> bool {
    match e {
        JwtError::Jwt(_) => true,
        JwtError::MissingClaim(name) => text == "JSON error: missing field `"@ + name@ + "`"@,
        JwtError::ClockBeforeEpoch => text == "Time went backwards"@,
        JwtError::ExpiryOverflow => text == "expiration time overflows"@,
        JwtError::Expired => text == "ExpiredSignature"@,
    }
}

impl JwtError {
    /// A human-readable description of the error.
    pub fn describe(&self) -> (r: String)
        ensures
            described_as(*self, r@),
    {
        match self {
            JwtError::Jwt(e) => jwt_error_text(e),
            JwtError::MissingClaim(name) => {
                let mut s = String::from_str("JSON error: missing field `");
                s.append(name.as_str());
                s.append("`");
                s
            },
            JwtError::ClockBeforeEpoch => String::from_str("Time went backwards"),
            JwtError::ExpiryOverflow => String::from_str("expiration time overflows"),
            JwtError::Expired => String::from_str("ExpiredSignature"),
        }
    }
}

/// JWT configuration.
#[derive(Clone)]
pub struct JwtConfig {
    secret: String,
    expiration_hours: u64,
}

impl JwtConfig {
    pub closed spec fn secret_view(&self) -> Seq<char> {
        self.secret@
    }

    pub closed spec fn hours(&self) -> u64 {
        self.expiration_hours
    }

    pub fn new(secret: String, expiration_hours: u64) -> (r: JwtConfig)
        ensures
            r.secret_view() == secret@,
            r.hours() == expiration_hours,
    {
        JwtConfig { secret, expiration_hours }
    }

    /// A configuration from the values of its settings: the secret defaults
    /// to `default-secret-change-me`, the lifetime to 24 hours (also when the
    /// setting does not read as a `u64`).
    pub fn from_values(secret: Option<String>, expiration_hours: Option<String>) -> (r: JwtConfig)
        ensures
            secret matches Some(s) ==> r.secret_view() == s@,
            secret is None ==> r.secret_view() == default_secret(),
            r.hours() == hours_setting(expiration_hours),
    {
        let secret = match secret {
            Some(s) => s,
            None => String::from_str("default-secret-change-me"),
        };
        let hours: u64 = match expiration_hours {
            Some(h) => match parse_unsigned(h.as_str(), u64::MAX) {
                Some(v) => v,
                None => 24,
            },
            None => 24,
        };
        JwtConfig { secret, expiration_hours: hours }
    }
}

pub open spec fn default_secret() -> Seq<char> {
    "default-secret-change-me"@
}

/// The token lifetime a setting names: its value when it reads as a `u64`,
/// otherwise 24 hours.
pub open spec fn hours_setting(setting: Option<String>) -> u64 {
    match setting {
        Some(h) => match within(unsigned_text_value(h@), 0, u64::MAX as int) {
            Some(v) => v as u64,
            None => 24,
        },
        None => 24,
    }
}

/// Seconds from issue to expiry for a lifetime of `hours` hours, in the
/// machine's word size.
pub open spec fn lifetime_secs(hours: u64) -> int {
    (hours as usize) * 3600
}

/// Claims for a token issued at `now` that lives `hours` hours, when the
/// expiration time fits in a `usize`.
pub open spec fn claims_fit(now: u64, hours: u64) -> bool {
    (now as usize) + lifetime_secs(hours) <= usize::MAX
}

/// Builds the claims of a token issued at `now` (seconds since the Unix
/// epoch) that expires `expiration_hours` hours later.
pub fn claims_at(user_id: &str, email: &str, username: &str, now: u64, expiration_hours: u64) -> (r: Option<Claims>)
    ensures
        r is Some <==> claims_fit(now, expiration_hours),
        r matches Some(c) ==> {
            &&& c.sub@ == user_id@
            &&& c.email@ == email@
            &&& c.username@ == username@
            &&& c.iat == now as usize
            &&& c.exp == (now as usize) + lifetime_secs(expiration_hours)
        },
{
    let now_secs = now as usize;
    let hours = expiration_hours as usize;
    let lifetime = match hours.checked_mul(3600) {
        Some(l) => l,
        None => return None,
    };
    let expiration = match now_secs.checked_add(lifetime) {
        Some(e) => e,
        None => return None,
    };
    Some(Claims {
        sub: String::from_str(user_id),
        email: String::from_str(email),
        username: String::from_str(username),
        exp: expiration,
        iat: now_secs,
    })
}

/// Claims from the members read out of a token payload: every member must
/// be there, with the expected type, and the times must fit in a `usize`.
pub fn claims_from_members(
    sub: Option<String>,
    email: Option<String>,
    username: Option<String>,
    exp: Option<u64>,
    iat: Option<u64>,
) -> (r: Result<Claims, JwtError>)
    ensures
        r is Ok <==> (sub is Some && email is Some && username is Some && exp is Some && iat is Some
            && exp->0 <= usize::MAX && iat->0 <= usize::MAX),
        r matches Ok(c) ==> {
            &&& c.sub == sub->0
            &&& c.email == email->0
            &&& c.username == username->0
            &&& c.exp == exp->0
            &&& c.iat == iat->0
        },
        r matches Err(e) ==> e is MissingClaim,
{
    let sub = match sub {
        Some(s) => s,
        None => return Err(JwtError::MissingClaim(String::from_str("sub"))),
    };
    let email = match email {
        Some(s) => s,
        None => return Err(JwtError::MissingClaim(String::from_str("email"))),
    };
    let username = match username {
        Some(s) => s,
        None => return Err(JwtError::MissingClaim(String::from_str("username"))),
    };
    let exp = match exp {
        Some(v) => v,
        None => return Err(JwtError::MissingClaim(String::from_str("exp"))),
    };
    let iat = match iat {
        Some(v) => v,
        None => return Err(JwtError::MissingClaim(String::from_str("iat"))),
    };
    if exp > usize::MAX as u64 {
        return Err(JwtError::MissingClaim(String::from_str("exp")));
    }
    if iat > usize::MAX as u64 {
        return Err(JwtError::MissingClaim(String::from_str("iat")));
    }
    Ok(Claims { sub, email, username, exp: exp as usize, iat: iat as usize })
}

fn claims_of_members(m: ClaimMembers) -> (r: Result<Claims, JwtError>)
    ensures
        r matches Err(e) ==> e is MissingClaim,
        forall|sub: Seq<char>, email: Seq<char>, username: Seq<char>, exp: nat, iat: nat|
            #[trigger] members_are(m, sub, email, username, exp, iat) && exp <= usize::MAX && iat <= usize::MAX
                ==> (r matches Ok(c) && c.sub@ == sub && c.email@ == email && c.username@ == username && c.exp
                == exp && c.iat == iat),
{
    claims_from_members(m.sub, m.email, m.username, m.exp, m.iat)
}

/// Reading a token back: when the token is one that was issued with this
/// secret for some claims (with times that fit in a `usize`), claims that
/// are read from it are those claims.
pub open spec fn reads_back(secret: Seq<char>, token: Seq<char>, r: Result<Claims, JwtError>) -> bool {
    forall|sub: Seq<char>, email: Seq<char>, username: Seq<char>, exp: nat, iat: nat|
        #[trigger] written_with(token, secret, sub, email, username, exp, iat) && exp <= usize::MAX && iat
            <= usize::MAX ==> (r matches Ok(c) ==> (c.sub@ == sub && c.email@ == email && c.username@
            == username && c.exp == exp && c.iat == iat))
}

/// A token expiring at `exp` is past at `now`: more than the 60 seconds of
/// leeway that the default validation of `jsonwebtoken` allows have gone by.
pub open spec fn expired(exp: int, now: int) -> bool {
    exp + 60 < now
}

/// What checking a token with `secret` at time `now` gives: only a token
/// signed with the secret is accepted, and a token issued with the secret
/// for some claims (times within a `usize`) gives those claims unless it has
/// expired, in which case the answer is `Expired`.
pub open spec fn checked_at(secret: Seq<char>, token: Seq<char>, now: int, r: Result<Claims, JwtError>) -> bool {
    &&& r is Ok ==> hs256_signed(token, secret)
    &&& r matches Ok(c) ==> !expired(c.exp as int, now)
    &&& forall|sub: Seq<char>, email: Seq<char>, username: Seq<char>, exp: nat, iat: nat|
        #[trigger] written_with(token, secret, sub, email, username, exp, iat) && exp <= usize::MAX && iat
            <= usize::MAX ==> if expired(exp as int, now) {
            r matches Err(JwtError::Expired)
        } else {
            r matches Ok(c) && c.sub@ == sub && c.email@ == email && c.username@ == username && c.exp == exp
                && c.iat == iat
        }
}

/// The expiry check of a token's claims at the time the clock gave: `None`
/// is a clock that reads earlier than the Unix epoch.
pub fn expiry_check(claims: Claims, now: Option<u64>) -> (r: Result<Claims, JwtError>)
    ensures
        now is None ==> r matches Err(JwtError::ClockBeforeEpoch),
        now matches Some(t) ==> (expired(claims.exp as int, t as int) ==> r matches Err(JwtError::Expired)),
        now matches Some(t) ==> (!expired(claims.exp as int, t as int) ==> r == Ok::<Claims, JwtError>(claims)),
{
    match now {
        None => Err(JwtError::ClockBeforeEpoch),
        Some(t) => {
            if claims.exp as u128 + 60 < t as u128 {
                Err(JwtError::Expired)
            } else {
                Ok(claims)
            }
        },
    }
}

/// A checked token: its header and its claims.
#[derive(Debug)]
pub struct TokenData {
    pub header: jsonwebtoken::Header,
    pub claims: Claims,
}

/// The claims of a checked token, or the error that refused it.
pub open spec fn claims_part(r: Result<TokenData, JwtError>) -> Result<Claims, JwtError> {
    match r {
        Ok(d) => Ok(d.claims),
        Err(e) => Err(e),
    }
}

fn with_claims(header: jsonwebtoken::Header, checked: Result<Claims, JwtError>) -> (r: Result<TokenData, JwtError>)
    ensures
        claims_part(r) == checked,
{
    match checked {
        Ok(claims) => Ok(TokenData { header, claims }),
        Err(e) => Err(e),
    }
}

/// What checking a token against the system clock can give: only a token
/// signed with the secret is accepted, with the claims it was written with;
/// the errors are those of decoding, a missing claim, an expired token or a
/// clock before the Unix epoch; a token written with the secret is accepted
/// unless it expired or the clock failed; a text without the two `.` of a
/// token is refused; and apart from a failed clock, the outcome is the
/// check at the time the clock read.
pub open spec fn verify_outcome(secret: Seq<char>, token: Seq<char>, r: Result<TokenData, JwtError>) -> bool {
    &&& r is Ok ==> hs256_signed(token, secret)
    &&& dot_count(token) < 2 ==> r is Err
    &&& reads_back(secret, token, claims_part(r))
    &&& r matches Err(e) ==> (e is Jwt || e is MissingClaim || e is Expired || e is ClockBeforeEpoch)
    &&& forall|sub: Seq<char>, email: Seq<char>, username: Seq<char>, exp: nat, iat: nat|
        #[trigger] written_with(token, secret, sub, email, username, exp, iat) && exp <= usize::MAX && iat
            <= usize::MAX ==> (r is Ok || r matches Err(JwtError::Expired) || r matches Err(
            JwtError::ClockBeforeEpoch))
    &&& (r matches Err(JwtError::ClockBeforeEpoch)) || exists|now: u64|
        #[trigger] checked_at(secret, token, now as int, claims_part(r))
}

/// Issues and reads session tokens.
#[derive(Clone)]
pub struct JwtManager {
    config: JwtConfig,
}

impl JwtManager {
    pub closed spec fn config(&self) -> JwtConfig {
        self.config
    }

    pub fn new(config: JwtConfig) -> (r: JwtManager)
        ensures
            r.config() == config,
    {
        JwtManager { config }
    }

    /// A token for the user, issued at `now` (seconds since the Unix epoch).
    pub fn create_token_at(&self, user_id: &str, email: &str, username: &str, now: u64) -> (r: Result<String, JwtError>)
        ensures
            !claims_fit(now, self.config().hours()) ==> r matches Err(JwtError::ExpiryOverflow),
            claims_fit(now, self.config().hours()) ==> (r matches Ok(t) && t@ == hs256_token(
                self.config().secret_view(),
                user_id@,
                email@,
                username@,
                ((now as usize) + lifetime_secs(self.config().hours())) as nat,
                (now as usize) as nat,
            ) && hs256_signed(t@, self.config().secret_view())),
    {
        let claims = match claims_at(user_id, email, username, now, self.config.expiration_hours) {
            Some(c) => c,
            None => return Err(JwtError::ExpiryOverflow),
        };
        match encode_hs256(
            self.config.secret.as_str(),
            claims.sub.as_str(),
            claims.email.as_str(),
            claims.username.as_str(),
            claims.exp,
            claims.iat,
        ) {
            Ok(t) => Ok(t),
            Err(e) => Err(JwtError::Jwt(e)),
        }
    }

    /// A token for the user, issued now and valid for the configured number
    /// of hours.
    pub fn create_token(&self, user_id: &str, email: &str, username: &str) -> (r: Result<String, JwtError>)
        ensures
            r is Ok || r matches Err(JwtError::ClockBeforeEpoch) || r matches Err(JwtError::ExpiryOverflow),
            r matches Ok(t) ==> exists|now: u64| claims_fit(now, self.config().hours()) && t@ == hs256_token(
                self.config().secret_view(),
                user_id@,
                email@,
                username@,
                ((now as usize) + lifetime_secs(self.config().hours())) as nat,
                (now as usize) as nat,
            ),
    {
        match unix_time_now() {
            Some(now) => self.create_token_at(user_id, email, username, now),
            None => Err(JwtError::ClockBeforeEpoch),
        }
    }

    /// The header and claims of a token signed with the secret, before the
    /// expiry check.
    fn signed_claims(&self, token: &str) -> (r: Result<TokenData, JwtError>)
        ensures
            r is Ok ==> hs256_signed(token@, self.config().secret_view()),
            dot_count(token@) < 2 ==> r is Err,
            r matches Err(e) ==> (e is Jwt || e is MissingClaim),
            forall|sub: Seq<char>, email: Seq<char>, username: Seq<char>, exp: nat, iat: nat|
                #[trigger] written_with(token@, self.config().secret_view(), sub, email, username, exp, iat) && exp
                    <= usize::MAX && iat <= usize::MAX ==> (r matches Ok(d) && d.claims.sub@ == sub && d.claims.email@
                    == email && d.claims.username@ == username && d.claims.exp == exp && d.claims.iat == iat),
    {
        match decode_members(token, self.config.secret.as_str(), true) {
            Ok((header, members)) => match claims_of_members(members) {
                Ok(claims) => Ok(TokenData { header, claims }),
                Err(e) => Err(e),
            },
            Err(e) => Err(JwtError::Jwt(e)),
        }
    }

    /// Checks the signature and the expiry of a token at time `now` (seconds
    /// since the Unix epoch) and returns its header and claims.
    pub fn verify_token_at(&self, token: &str, now: u64) -> (r: Result<TokenData, JwtError>)
        ensures
            checked_at(self.config().secret_view(), token@, now as int, claims_part(r)),
            r matches Err(e) ==> (e is Jwt || e is MissingClaim || e is Expired),
    {
        match self.signed_claims(token) {
            Ok(d) => with_claims(d.header, expiry_check(d.claims, Some(now))),
            Err(e) => Err(e),
        }
    }

    /// Checks the signature and the expiry (against the system clock) of a
    /// token and returns its header and claims.
    pub fn verify_token(&self, token: &str) -> (r: Result<TokenData, JwtError>)
        ensures
            verify_outcome(self.config().secret_view(), token@, r),
    {
        let now = unix_time_now();
        let r = match self.signed_claims(token) {
            Ok(d) => with_claims(d.header, expiry_check(d.claims, now)),
            Err(e) => Err(e),
        };
        proof {
            let t: u64 = match now {
                Some(t) => t,
                None => 0,
            };
            if !(r matches Err(JwtError::ClockBeforeEpoch)) {
                assert(checked_at(self.config().secret_view(), token@, t as int, claims_part(r)));
            }
        }
        r
    }

    /// Reads the claims of a token without checking its signature or expiry
    /// (for debugging): a token issued with any secret reads back as the
    /// claims it was issued with.
    pub fn decode_token_unsafe(&self, token: &str) -> (r: Result<Claims, JwtError>)
        ensures
            r matches Err(e) ==> (e is Jwt || e is MissingClaim),
            dot_count(token@) < 2 ==> r matches Err(JwtError::Jwt(_)),
            forall|key: Seq<char>, sub: Seq<char>, email: Seq<char>, username: Seq<char>, exp: nat, iat: nat|
                #[trigger] written_with(token@, key, sub, email, username, exp, iat) && exp <= usize::MAX && iat
                    <= usize::MAX ==> (r matches Ok(c) && c.sub@ == sub && c.email@ == email && c.username@ == username
                    && c.exp == exp && c.iat == iat),
    {
        match decode_members(token, self.config.secret.as_str(), false) {
            Ok((_, members)) => claims_of_members(members),
            Err(e) => Err(JwtError::Jwt(e)),
        }
    }
}


/// What a session token says is what it was issued with: a token that
/// `create_token_at` issued at `now` for a user reads back, through
/// `verify_token` or `decode_token_unsafe`, as that user's id, email and
/// name, issued at `now` and expiring the configured number of hours later.
pub proof fn lemma_issued_token_reads_back(
    secret: Seq<char>,
    user_id: Seq<char>,
    email: Seq<char>,
    username: Seq<char>,
    now: u64,
    hours: u64,
    token: Seq<char>,
    r: Result<Claims, JwtError>,
)
    requires
        claims_fit(now, hours),
        token == hs256_token(
            secret,
            user_id,
            email,
            username,
            ((now as usize) + lifetime_secs(hours)) as nat,
            (now as usize) as nat,
        ),
        reads_back(secret, token, r),
    ensures
        r matches Ok(c) ==> {
            &&& c.sub@ == user_id
            &&& c.email@ == email
            &&& c.username@ == username
            &&& c.iat == now as usize
            &&& c.exp == (now as usize) + lifetime_secs(hours)
        },
{
    let exp = ((now as usize) + lifetime_secs(hours)) as nat;
    let iat = (now as usize) as nat;
    assert(written_with(token, secret, user_id, email, username, exp, iat));
}

/// A token the manager issued at `issued` is accepted, at any time `now` up
/// to 60 seconds past its expiry, with the claims it was issued with; later
/// it is refused as expired.
pub proof fn lemma_issued_token_verifies(
    secret: Seq<char>,
    user_id: Seq<char>,
    email: Seq<char>,
    username: Seq<char>,
    issued: u64,
    hours: u64,
    now: u64,
    token: Seq<char>,
    r: Result<Claims, JwtError>,
)
    requires
        claims_fit(issued, hours),
        token == hs256_token(
            secret,
            user_id,
            email,
            username,
            ((issued as usize) + lifetime_secs(hours)) as nat,
            (issued as usize) as nat,
        ),
        checked_at(secret, token, now as int, r),
    ensures
        !expired((issued as usize) + lifetime_secs(hours), now as int) ==> (r matches Ok(c) && c.sub@ == user_id
            && c.email@ == email && c.username@ == username && c.iat == issued as usize && c.exp == (issued as usize)
            + lifetime_secs(hours)),
        expired((issued as usize) + lifetime_secs(hours), now as int) ==> r matches Err(JwtError::Expired),
{
    let exp = ((issued as usize) + lifetime_secs(hours)) as nat;
    let iat = (issued as usize) as nat;
    assert(written_with(token, secret, user_id, email, username, exp, iat));
}

/// `verify_token` on a token the manager issued at `issued`: the token is
/// accepted with the claims it was issued with, or refused as expired (the
/// clock then read more than 60 seconds past its expiry), or refused because
/// the clock read earlier than the Unix epoch.
pub proof fn lemma_verify_token_on_issued(
    secret: Seq<char>,
    user_id: Seq<char>,
    email: Seq<char>,
    username: Seq<char>,
    issued: u64,
    hours: u64,
    token: Seq<char>,
    r: Result<TokenData, JwtError>,
)
    requires
        claims_fit(issued, hours),
        token == hs256_token(
            secret,
            user_id,
            email,
            username,
            ((issued as usize) + lifetime_secs(hours)) as nat,
            (issued as usize) as nat,
        ),
        verify_outcome(secret, token, r),
    ensures
        r matches Ok(d) ==> (d.claims.sub@ == user_id && d.claims.email@ == email && d.claims.username@ == username
            && d.claims.iat == issued as usize && d.claims.exp == (issued as usize) + lifetime_secs(hours)),
        r matches Err(e) ==> (e is Expired || e is ClockBeforeEpoch),
        r matches Err(JwtError::Expired) ==> exists|now: u64|
            #[trigger] checked_at(secret, token, now as int, claims_part(r)) && expired(
                (issued as usize) + lifetime_secs(hours),
                now as int,
            ),
{
    if !(r matches Err(JwtError::ClockBeforeEpoch)) {
        let now = choose|now: u64| #[trigger] checked_at(secret, token, now as int, claims_part(r));
        lemma_issued_token_verifies(secret, user_id, email, username, issued, hours, now, token, claims_part(r));
        if r matches Err(JwtError::Expired) {
            assert(expired((issued as usize) + lifetime_secs(hours), now as int));
        }
    }
}

/// Only tokens signed with the secret are accepted: a token whose signature
/// is not the secret's is refused at every time.
pub proof fn lemma_unsigned_token_refused(secret: Seq<char>, token: Seq<char>, now: int, r: Result<Claims, JwtError>)
    requires
        checked_at(secret, token, now, r),
        !hs256_signed(token, secret),
    ensures
        r is Err,
{
}

} // verus!
