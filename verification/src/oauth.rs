//! OAuth2 login with Google, GitHub and Discord: which providers are
//! configured, the client settings and scopes of each, and how the user
//! information each provider returns becomes an `OAuthUserInfo`.

use vstd::prelude::*;
use oauth2::basic::BasicClient;
use oauth2::{AuthUrl, ClientId, ClientSecret, CsrfToken, RedirectUrl, Scope, TokenUrl};
use crate::random::{base64_url_no_pad, random_text};
use crate::models::{OAuthProvider, OAuthUserInfo};
use crate::text::{i64_text, int_text};

verus! {

/// OAuth credentials of every provider, and the base URL of the callbacks.
#[derive(Clone)]
pub struct OAuthConfig {
    pub google_client_id: Option<String>,
    pub google_client_secret: Option<String>,
    pub github_client_id: Option<String>,
    pub github_client_secret: Option<String>,
    pub discord_client_id: Option<String>,
    pub discord_client_secret: Option<String>,
    pub redirect_base_url: String,
}

pub open spec fn default_redirect_base() -> Seq<char> {
    "http://localhost:3000"@
}

impl OAuthConfig {
    /// Both the client id and the client secret of `provider` are set.
    pub open spec fn configured(&self, provider: OAuthProvider) -> bool {
        match provider {
            OAuthProvider::Google => self.google_client_id is Some && self.google_client_secret is Some,
            OAuthProvider::Github => self.github_client_id is Some && self.github_client_secret is Some,
            OAuthProvider::Discord => self.discord_client_id is Some && self.discord_client_secret is Some,
        }
    }

    /// A configuration from the values of its settings; the callback base
    /// defaults to `http://localhost:3000`.
    pub fn from_values(
        google_client_id: Option<String>,
        google_client_secret: Option<String>,
        github_client_id: Option<String>,
        github_client_secret: Option<String>,
        discord_client_id: Option<String>,
        discord_client_secret: Option<String>,
        redirect_base_url: Option<String>,
    ) -> (r: OAuthConfig)
        ensures
            r.google_client_id == google_client_id,
            r.google_client_secret == google_client_secret,
            r.github_client_id == github_client_id,
            r.github_client_secret == github_client_secret,
            r.discord_client_id == discord_client_id,
            r.discord_client_secret == discord_client_secret,
            redirect_base_url matches Some(u) ==> r.redirect_base_url == u,
            redirect_base_url is None ==> r.redirect_base_url@ == default_redirect_base(),
    {
        let redirect_base_url = match redirect_base_url {
            Some(u) => u,
            None => String::from_str("http://localhost:3000"),
        };
        OAuthConfig {
            google_client_id,
            google_client_secret,
            github_client_id,
            github_client_secret,
            discord_client_id,
            discord_client_secret,
            redirect_base_url,
        }
    }

    pub fn is_provider_configured(&self, provider: OAuthProvider) -> (r: bool)
        ensures
            r == self.configured(provider),
    {
        match provider {
            OAuthProvider::Google => self.google_client_id.is_some() && self.google_client_secret.is_some(),
            OAuthProvider::Github => self.github_client_id.is_some() && self.github_client_secret.is_some(),
            OAuthProvider::Discord => self.discord_client_id.is_some() && self.discord_client_secret.is_some(),
        }
    }
}

/// Everything an OAuth2 client of one provider is built from.
#[derive(Debug)]
pub struct OAuthClientSettings {
    pub client_id: String,
    pub client_secret: String,
    pub auth_url: String,
    pub token_url: String,
    pub redirect_url: String,
}

pub open spec fn auth_endpoint(p: OAuthProvider) -> Seq<char> {
    match p {
        OAuthProvider::Google => "https://accounts.google.com/o/oauth2/v2/auth"@,
        OAuthProvider::Github => "https://github.com/login/oauth/authorize"@,
        OAuthProvider::Discord => "https://discord.com/api/oauth2/authorize"@,
    }
}

pub open spec fn token_endpoint(p: OAuthProvider) -> Seq<char> {
    match p {
        OAuthProvider::Google => "https://oauth2.googleapis.com/token"@,
        OAuthProvider::Github => "https://github.com/login/oauth/access_token"@,
        OAuthProvider::Discord => "https://discord.com/api/oauth2/token"@,
    }
}

/// The credentials of `p` in `c`.
pub open spec fn credentials(c: OAuthConfig, p: OAuthProvider) -> (Option<String>, Option<String>) {
    match p {
        OAuthProvider::Google => (c.google_client_id, c.google_client_secret),
        OAuthProvider::Github => (c.github_client_id, c.github_client_secret),
        OAuthProvider::Discord => (c.discord_client_id, c.discord_client_secret),
    }
}

/// The message given when `p` has no client id.
pub open spec fn missing_id_message(p: OAuthProvider) -> Seq<char> {
    match p {
        OAuthProvider::Google => "Google client ID not configured"@,
        OAuthProvider::Github => "GitHub client ID not configured"@,
        OAuthProvider::Discord => "Discord client ID not configured"@,
    }
}

/// The message given when `p` has a client id but no secret.
pub open spec fn missing_secret_message(p: OAuthProvider) -> Seq<char> {
    match p {
        OAuthProvider::Google => "Google client secret not configured"@,
        OAuthProvider::Github => "GitHub client secret not configured"@,
        OAuthProvider::Discord => "Discord client secret not configured"@,
    }
}

/// The scopes requested from `p`, in order.
pub open spec fn scopes_of(p: OAuthProvider) -> Seq<Seq<char>> {
    match p {
        OAuthProvider::Google => seq!["email"@, "profile"@],
        OAuthProvider::Github => seq!["user:email"@, "read:user"@],
        OAuthProvider::Discord => seq!["identify"@, "email"@],
    }
}

/// The scopes requested from `provider`.
pub fn provider_scopes(provider: OAuthProvider) -> (r: Vec<String>)
    ensures
        r@.len() == scopes_of(provider).len(),
        forall|k: int| 0 <= k < r@.len() ==> (#[trigger] r@[k])@ == scopes_of(provider)[k],
{
    let (a, b) = match provider {
        OAuthProvider::Google => ("email", "profile"),
        OAuthProvider::Github => ("user:email", "read:user"),
        OAuthProvider::Discord => ("identify", "email"),
    };
    let mut v: Vec<String> = Vec::new();
    v.push(String::from_str(a));
    v.push(String::from_str(b));
    v
}

/// Whether `url::Url::parse` accepts the text, as `AuthUrl::new`,
/// `TokenUrl::new` and `RedirectUrl::new` of `oauth2` require.
pub uninterp spec fn url_parses(text: Seq<char>) -> bool;

/// The authorization URL that `oauth2` builds from the authorization
/// endpoint, the client id, the redirect URL, the scopes and the `state`
/// (CSRF) value.
pub uninterp spec fn auth_request_url(
    auth_url: Seq<char>,
    client_id: Seq<char>,
    redirect_url: Seq<char>,
    scopes: Seq<Seq<char>>,
    state: Seq<char>,
) -> Seq<char>;

/// The texts of a list of strings.
pub open spec fn string_texts(v: Seq<String>) -> Seq<Seq<char>> {
    v.map_values(|s: String| s@)
}

/// Calls `AuthUrl::new`, `TokenUrl::new` and `RedirectUrl::new` on the
/// settings (a parse error comes back as its text), `BasicClient::new` and
/// `set_redirect_uri`, then `authorize_url` with `csrf` as the state, the
/// scopes, and `url`. Claimed: it succeeds exactly when the three URLs
/// parse, and it returns the URL that `auth_request_url` names together
/// with the state it was given.
#[verifier::external_body]
fn authorize_url(s: OAuthClientSettings, scopes: Vec<String>, csrf: String) -> (r: Result<(String, String), String>)
    ensures
        r is Ok <==> (url_parses(s.auth_url@) && url_parses(s.token_url@) && url_parses(s.redirect_url@)),
        r matches Ok(p) ==> p.0@ == auth_request_url(
            s.auth_url@,
            s.client_id@,
            s.redirect_url@,
            string_texts(scopes@),
            csrf@,
        ),
        r matches Ok(p) ==> p.1@ == csrf@,
{
    let auth_url = AuthUrl::new(s.auth_url).map_err(|e| e.to_string())?;
    let token_url = TokenUrl::new(s.token_url).map_err(|e| e.to_string())?;
    let redirect = RedirectUrl::new(s.redirect_url).map_err(|e| e.to_string())?;
    let secret = Some(ClientSecret::new(s.client_secret));
    let client = BasicClient::new(ClientId::new(s.client_id), secret, auth_url, Some(token_url))
        .set_redirect_uri(redirect);
    let request = client.authorize_url(move || CsrfToken::new(csrf));
    let (url, state) = request.add_scopes(scopes.into_iter().map(Scope::new)).url();
    Ok((url.to_string(), state.secret().clone()))
}

/// The message given when no random state value could be drawn.
pub open spec fn random_failure_message() -> Seq<char> {
    "Failed to generate random bytes"@
}

/// The callback URL of `p` under `c`.
pub open spec fn redirect_of(c: OAuthConfig, p: OAuthProvider) -> Seq<char> {
    c.redirect_base_url@ + "/auth/callback/"@ + p.name()
}

/// Initiates and tracks OAuth logins.
#[derive(Clone)]
pub struct OAuthManager {
    pub config: OAuthConfig,
}

impl OAuthManager {
    pub fn new(config: OAuthConfig) -> (r: OAuthManager)
        ensures
            r.config == config,
    {
        OAuthManager { config }
    }

    /// The settings of the OAuth2 client of `provider`: its credentials,
    /// endpoints, and the callback URL `<base>/auth/callback/<provider>`.
    pub fn client_settings(&self, provider: OAuthProvider) -> (r: Result<OAuthClientSettings, String>)
        ensures
            credentials(self.config, provider).0 is None ==> (r matches Err(m) && m@ == missing_id_message(provider)),
            credentials(self.config, provider).0 is Some && credentials(self.config, provider).1 is None
                ==> (r matches Err(m) && m@ == missing_secret_message(provider)),
            r is Ok <==> self.config.configured(provider),
            r matches Ok(s) ==> {
                &&& s.client_id == credentials(self.config, provider).0->0
                &&& s.client_secret == credentials(self.config, provider).1->0
                &&& s.auth_url@ == auth_endpoint(provider)
                &&& s.token_url@ == token_endpoint(provider)
                &&& s.redirect_url@ == self.config.redirect_base_url@ + "/auth/callback/"@ + provider.name()
            },
    {
        let (id, secret, auth_url, token_url, no_id, no_secret) = match provider {
            OAuthProvider::Google => (
                &self.config.google_client_id,
                &self.config.google_client_secret,
                "https://accounts.google.com/o/oauth2/v2/auth",
                "https://oauth2.googleapis.com/token",
                "Google client ID not configured",
                "Google client secret not configured",
            ),
            OAuthProvider::Github => (
                &self.config.github_client_id,
                &self.config.github_client_secret,
                "https://github.com/login/oauth/authorize",
                "https://github.com/login/oauth/access_token",
                "GitHub client ID not configured",
                "GitHub client secret not configured",
            ),
            OAuthProvider::Discord => (
                &self.config.discord_client_id,
                &self.config.discord_client_secret,
                "https://discord.com/api/oauth2/authorize",
                "https://discord.com/api/oauth2/token",
                "Discord client ID not configured",
                "Discord client secret not configured",
            ),
        };
        let client_id = match id {
            Some(v) => v.clone(),
            None => return Err(String::from_str(no_id)),
        };
        let client_secret = match secret {
            Some(v) => v.clone(),
            None => return Err(String::from_str(no_secret)),
        };
        let mut redirect_url = self.config.redirect_base_url.clone();
        redirect_url.append("/auth/callback/");
        redirect_url.append(provider.as_str());
        Ok(OAuthClientSettings {
            client_id,
            client_secret,
            auth_url: String::from_str(auth_url),
            token_url: String::from_str(token_url),
            redirect_url,
        })
    }

    /// The authorization URL of `provider` and the CSRF token it carries:
    /// 16 fresh random bytes in unpadded URL-safe Base64.
    pub fn get_auth_url(&self, provider: OAuthProvider) -> (r: Result<(String, String), String>)
        ensures
            credentials(self.config, provider).0 is None ==> (r matches Err(m) && m@ == missing_id_message(provider)),
            credentials(self.config, provider).0 is Some && credentials(self.config, provider).1 is None
                ==> (r matches Err(m) && m@ == missing_secret_message(provider)),
            self.config.configured(provider) && !(url_parses(auth_endpoint(provider)) && url_parses(
                token_endpoint(provider),
            ) && url_parses(redirect_of(self.config, provider))) ==> r is Err,
            self.config.configured(provider) && url_parses(auth_endpoint(provider)) && url_parses(
                token_endpoint(provider),
            ) && url_parses(redirect_of(self.config, provider)) ==> (r is Ok || (r matches Err(m) && m@
                == random_failure_message())),
            r matches Ok(p) ==> self.config.configured(provider) && p.0@ == auth_request_url(
                auth_endpoint(provider),
                credentials(self.config, provider).0->0@,
                redirect_of(self.config, provider),
                scopes_of(provider),
                p.1@,
            ),
            r matches Ok(p) ==> exists|b: Seq<u8>| b.len() == 16 && p.1@ == base64_url_no_pad(b),
            r matches Ok(p) ==> p.1@.len() == 22,
    {
        let settings = self.client_settings(provider)?;
        let scopes = provider_scopes(provider);
        let csrf = match random_text(16) {
            Some(t) => t,
            None => return Err(String::from_str("Failed to generate random bytes")),
        };
        assert(string_texts(scopes@) =~= scopes_of(provider));
        authorize_url(settings, scopes, csrf)
    }

    /// The providers whose credentials are configured, in the order Google,
    /// GitHub, Discord.
    pub fn get_configured_providers(&self) -> (r: Vec<OAuthProvider>)
        ensures
            r@ == configured_list(self.config),
    {
        let mut providers: Vec<OAuthProvider> = Vec::new();
        if self.config.is_provider_configured(OAuthProvider::Google) {
            providers.push(OAuthProvider::Google);
        }
        if self.config.is_provider_configured(OAuthProvider::Github) {
            providers.push(OAuthProvider::Github);
        }
        if self.config.is_provider_configured(OAuthProvider::Discord) {
            providers.push(OAuthProvider::Discord);
        }
        providers
    }
}

/// The configured providers of `c`, in the order Google, GitHub, Discord.
pub open spec fn configured_list(c: OAuthConfig) -> Seq<OAuthProvider> {
    let g = if c.configured(OAuthProvider::Google) { seq![OAuthProvider::Google] } else { seq![] };
    let h = if c.configured(OAuthProvider::Github) { seq![OAuthProvider::Github] } else { seq![] };
    let d = if c.configured(OAuthProvider::Discord) { seq![OAuthProvider::Discord] } else { seq![] };
    g + h + d
}

/// A provider is listed as configured exactly when both of its credentials
/// are set.
pub proof fn lemma_configured_list(c: OAuthConfig, p: OAuthProvider)
    ensures
        configured_list(c).contains(p) <==> c.configured(p),
{
    let l = configured_list(c);
    if c.configured(p) {
        let g = if c.configured(OAuthProvider::Google) { 1int } else { 0 };
        let h = if c.configured(OAuthProvider::Github) { 1int } else { 0 };
        let i = match p {
            OAuthProvider::Google => 0,
            OAuthProvider::Github => g,
            OAuthProvider::Discord => g + h,
        };
        assert(l[i] == p);
    }
}

/// The Google profile as the application records it; a profile without a
/// name gets the username `GoogleUser`.
pub fn google_user_info(id: String, email: String, name: Option<String>) -> (r: OAuthUserInfo)
    ensures
        r.provider == OAuthProvider::Google,
        r.provider_user_id == id,
        r.email == email,
        name matches Some(n) ==> r.username == n,
        name is None ==> r.username@ == "GoogleUser"@,
{
    let username = match name {
        Some(n) => n,
        None => String::from_str("GoogleUser"),
    };
    OAuthUserInfo { provider: OAuthProvider::Google, provider_user_id: id, email, username }
}

/// One address of a GitHub account.
#[derive(Debug, Clone)]
pub struct GithubEmail {
    pub email: String,
    pub primary: bool,
    pub verified: bool,
}

pub open spec fn no_primary_email_message() -> Seq<char> {
    "No verified primary email found"@
}

/// The first address that is both primary and verified.
pub fn github_primary_email(emails: &Vec<GithubEmail>) -> (r: Result<String, String>)
    ensures
        r is Ok <==> exists|k: int| 0 <= k < emails@.len() && (#[trigger] emails@[k]).primary && emails@[k].verified,
        r matches Ok(e) ==> exists|k: int|
            0 <= k < emails@.len() && (#[trigger] emails@[k]).primary && emails@[k].verified
                && e@ == emails@[k].email@ && forall|j: int| 0 <= j < k ==> !(emails@[j].primary && emails@[j].verified),
        r matches Err(m) ==> m@ == no_primary_email_message(),
{
    let mut k: usize = 0;
    while k < emails.len()
        invariant
            k <= emails@.len(),
            forall|j: int| 0 <= j < k ==> !(#[trigger] emails@[j].primary && emails@[j].verified),
        decreases emails@.len() - k,
    {
        if emails[k].primary && emails[k].verified {
            let e = emails[k].email.clone();
            return Ok(e);
        }
        k = k + 1;
    }
    Err(String::from_str("No verified primary email found"))
}

/// The GitHub profile as the application records it: the numeric id
/// becomes its decimal text.
pub fn github_user_info(id: i64, login: String, email: String) -> (r: OAuthUserInfo)
    ensures
        r.provider == OAuthProvider::Github,
        r.provider_user_id@ == int_text(id as int),
        r.email == email,
        r.username == login,
{
    OAuthUserInfo { provider: OAuthProvider::Github, provider_user_id: i64_text(id), email, username: login }
}

/// Whether the email list must be fetched: only when the profile shows no
/// email address.
pub fn needs_email_list(profile_email: &Option<String>) -> (r: bool)
    ensures
        r == (profile_email is None),
{
    profile_email.is_none()
}

/// The GitHub account from the profile reply and, when the profile shows no
/// email address, the email list: the profile's address when present,
/// else the first primary and verified address of the list.
pub fn github_account(id: i64, login: String, profile_email: Option<String>, emails: &Vec<GithubEmail>) -> (r: Result<
    OAuthUserInfo,
    String,
>)
    ensures
        profile_email matches Some(e) ==> (r matches Ok(u) && u.provider == OAuthProvider::Github
            && u.provider_user_id@ == int_text(id as int) && u.username == login && u.email == e),
        profile_email is None ==> (r is Ok <==> exists|k: int|
            0 <= k < emails@.len() && (#[trigger] emails@[k]).primary && emails@[k].verified),
        profile_email is None ==> (r matches Ok(u) ==> (u.provider == OAuthProvider::Github && u.provider_user_id@
            == int_text(id as int) && u.username == login && exists|k: int|
            0 <= k < emails@.len() && (#[trigger] emails@[k]).primary && emails@[k].verified && u.email@
                == emails@[k].email@ && forall|j: int| 0 <= j < k ==> !(emails@[j].primary && emails@[j].verified))),
        r matches Err(m) ==> m@ == no_primary_email_message(),
{
    let email = match profile_email {
        Some(e) => e,
        None => match github_primary_email(emails) {
            Ok(e) => e,
            Err(m) => return Err(m),
        },
    };
    Ok(github_user_info(id, login, email))
}

pub open spec fn discord_no_email_message() -> Seq<char> {
    "Discord email not available"@
}

/// The Discord profile as the application records it; a profile without
/// an email address is refused.
pub fn discord_user_info(id: String, username: String, email: Option<String>) -> (r: Result<OAuthUserInfo, String>)
    ensures
        r is Ok <==> email is Some,
        r matches Ok(u) ==> u.provider == OAuthProvider::Discord && u.provider_user_id == id && u.email
            == email->0 && u.username == username,
        r matches Err(m) ==> m@ == discord_no_email_message(),
{
    match email {
        Some(e) => Ok(OAuthUserInfo { provider: OAuthProvider::Discord, provider_user_id: id, email: e, username }),
        None => Err(String::from_str("Discord email not available")),
    }
}

} // verus!
