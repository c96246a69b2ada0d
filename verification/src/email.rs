//! Email content for account verification and password reset, and the
//! settings of the mail service.

use vstd::prelude::*;
use crate::text::{parse_u16, unsigned_text_value, within};

verus! {

/// Email configuration.
#[derive(Clone)]
pub struct EmailConfig {
    pub smtp_host: String,
    pub smtp_port: u16,
    pub smtp_username: String,
    pub smtp_password: String,
    pub from_email: String,
    pub from_name: String,
    pub app_url: String,
}

pub open spec fn default_smtp_port() -> u16 {
    587
}

pub open spec fn default_from_name() -> Seq<char> {
    "Take It Easy"@
}

pub open spec fn default_app_url() -> Seq<char> {
    "http://localhost:3000"@
}

/// The SMTP port a setting names: its value when it reads as a `u16`,
/// otherwise 587.
pub open spec fn port_setting(port: Option<String>) -> u16 {
    match port {
        Some(p) => match within(unsigned_text_value(p@), 0, u16::MAX as int) {
            Some(v) => v as u16,
            None => default_smtp_port(),
        },
        None => default_smtp_port(),
    }
}

impl EmailConfig {
    /// A configuration from the values of its settings: host, user name,
    /// password and sender address are required; the port defaults to 587,
    /// the sender name to `Take It Easy` and the application URL to
    /// `http://localhost:3000`.
    pub fn from_values(
        smtp_host: Option<String>,
        smtp_port: Option<String>,
        smtp_username: Option<String>,
        smtp_password: Option<String>,
        from_email: Option<String>,
        from_name: Option<String>,
        app_url: Option<String>,
    ) -> (r: Option<EmailConfig>)
        ensures
            r is Some <==> (smtp_host is Some && smtp_username is Some && smtp_password is Some && from_email is Some),
            r matches Some(c) ==> {
                &&& c.smtp_host == smtp_host->0
                &&& c.smtp_port == port_setting(smtp_port)
                &&& c.smtp_username == smtp_username->0
                &&& c.smtp_password == smtp_password->0
                &&& c.from_email == from_email->0
                &&& from_name matches Some(n) ==> c.from_name == n
                &&& from_name is None ==> c.from_name@ == default_from_name()
                &&& app_url matches Some(u) ==> c.app_url == u
                &&& app_url is None ==> c.app_url@ == default_app_url()
            },
    {
        let smtp_host = smtp_host?;
        let smtp_port: u16 = match smtp_port {
            Some(p) => match parse_u16(p.as_str()) {
                Some(v) => v,
                None => 587,
            },
            None => 587,
        };
        let smtp_username = smtp_username?;
        let smtp_password = smtp_password?;
        let from_email = from_email?;
        let from_name = match from_name {
            Some(n) => n,
            None => String::from_str("Take It Easy"),
        };
        let app_url = app_url_or_default(app_url);
        Some(EmailConfig { smtp_host, smtp_port, smtp_username, smtp_password, from_email, from_name, app_url })
    }
}

/// The application URL, defaulting to `http://localhost:3000`.
pub fn app_url_or_default(app_url: Option<String>) -> (r: String)
    ensures
        app_url matches Some(u) ==> r == u,
        app_url is None ==> r@ == default_app_url(),
{
    match app_url {
        Some(u) => u,
        None => String::from_str("http://localhost:3000"),
    }
}

/// `<app_url>/auth/verify-email?token=<token>`
pub open spec fn verification_link_text(app_url: Seq<char>, token: Seq<char>) -> Seq<char> {
    app_url + "/auth/verify-email?token="@ + token
}

/// `<app_url>/auth/reset-password?token=<token>`
pub open spec fn reset_link_text(app_url: Seq<char>, token: Seq<char>) -> Seq<char> {
    app_url + "/auth/reset-password?token="@ + token
}

/// The link that verifies an email address.
pub fn verification_link(app_url: &str, token: &str) -> (r: String)
    ensures
        r@ == verification_link_text(app_url@, token@),
{
    let mut s = String::from_str(app_url);
    s.append("/auth/verify-email?token=");
    s.append(token);
    s
}

/// The link that opens the password reset page.
pub fn reset_link(app_url: &str, token: &str) -> (r: String)
    ensures
        r@ == reset_link_text(app_url@, token@),
{
    let mut s = String::from_str(app_url);
    s.append("/auth/reset-password?token=");
    s.append(token);
    s
}

/// The sender mailbox `<name> <<address>>`.
pub fn sender_mailbox(from_name: &str, from_email: &str) -> (r: String)
    ensures
        r@ == from_name@ + " <"@ + from_email@ + ">"@,
{
    let mut s = String::from_str(from_name);
    s.append(" <");
    s.append(from_email);
    s.append(">");
    s
}

pub open spec fn verification_subject() -> Seq<char> {
    "Verify your email - Take It Easy"@
}

pub open spec fn reset_subject() -> Seq<char> {
    "Reset your password - Take It Easy"@
}

pub fn verification_email_subject() -> (r: &'static str)
    ensures
        r@ == verification_subject(),
{
    "Verify your email - Take It Easy"
}

pub fn password_reset_email_subject() -> (r: &'static str)
    ensures
        r@ == reset_subject(),
{
    "Reset your password - Take It Easy"
}
/// The HTML body of the email that asks a new user to verify their address.
pub open spec fn verification_email_html_text(username: Seq<char>, link: Seq<char>) -> Seq<char> {
    "<!DOCTYPE html>\n<html>\n<head>\n    <meta charset=\"utf-8\">\n    <title>Verify your email</title>\n</head>\n<body style=\"font-family: Arial, sans-serif; max-width: 600px; margin: 0 auto; padding: 20px;\">\n    <h1 style=\"color: #333;\">Welcome to Take It Easy, "@ + username + "!</h1>\n    <p>Thank you for registering. Please verify your email address by clicking the button below:</p>\n    <p style=\"text-align: center; margin: 30px 0;\">\n        <a href=\""@ + link
        + "\" style=\"background-color: #4CAF50; color: white; padding: 14px 28px; text-decoration: none; border-radius: 4px; display: inline-block;\">\n            Verify Email\n        </a>\n    </p>\n    <p>Or copy and paste this link into your browser:</p>\n    <p style=\"word-break: break-all; color: #666;\">"@ + link + "</p>\n    <p style=\"color: #999; font-size: 12px; margin-top: 30px;\">\n        This link will expire in 24 hours. If you didn't create an account, you can safely ignore this email.\n    </p>\n</body>\n</html>"@
}

pub fn verification_email_html(username: &str, link: &str) -> (r: String)
    ensures
        r@ == verification_email_html_text(username@, link@),
{
    let mut s = String::from_str("<!DOCTYPE html>\n<html>\n<head>\n    <meta charset=\"utf-8\">\n    <title>Verify your email</title>\n</head>\n<body style=\"font-family: Arial, sans-serif; max-width: 600px; margin: 0 auto; padding: 20px;\">\n    <h1 style=\"color: #333;\">Welcome to Take It Easy, ");
    s.append(username);
    s.append("!</h1>\n    <p>Thank you for registering. Please verify your email address by clicking the button below:</p>\n    <p style=\"text-align: center; margin: 30px 0;\">\n        <a href=\"");
    s.append(link);
    s.append("\" style=\"background-color: #4CAF50; color: white; padding: 14px 28px; text-decoration: none; border-radius: 4px; display: inline-block;\">\n            Verify Email\n        </a>\n    </p>\n    <p>Or copy and paste this link into your browser:</p>\n    <p style=\"word-break: break-all; color: #666;\">");
    s.append(link);
    s.append("</p>\n    <p style=\"color: #999; font-size: 12px; margin-top: 30px;\">\n        This link will expire in 24 hours. If you didn't create an account, you can safely ignore this email.\n    </p>\n</body>\n</html>");
    s
}
/// The HTML body of the email that carries a password reset link.
pub open spec fn password_reset_email_html_text(username: Seq<char>, link: Seq<char>) -> Seq<char> {
    "<!DOCTYPE html>\n<html>\n<head>\n    <meta charset=\"utf-8\">\n    <title>Reset your password</title>\n</head>\n<body style=\"font-family: Arial, sans-serif; max-width: 600px; margin: 0 auto; padding: 20px;\">\n    <h1 style=\"color: #333;\">Password Reset Request</h1>\n    <p>Hi "@ + username + ",</p>\n    <p>We received a request to reset your password. Click the button below to create a new password:</p>\n    <p style=\"text-align: center; margin: 30px 0;\">\n        <a href=\""@ + link
        + "\" style=\"background-color: #2196F3; color: white; padding: 14px 28px; text-decoration: none; border-radius: 4px; display: inline-block;\">\n            Reset Password\n        </a>\n    </p>\n    <p>Or copy and paste this link into your browser:</p>\n    <p style=\"word-break: break-all; color: #666;\">"@ + link + "</p>\n    <p style=\"color: #999; font-size: 12px; margin-top: 30px;\">\n        This link will expire in 1 hour. If you didn't request a password reset, you can safely ignore this email.\n    </p>\n</body>\n</html>"@
}

pub fn password_reset_email_html(username: &str, link: &str) -> (r: String)
    ensures
        r@ == password_reset_email_html_text(username@, link@),
{
    let mut s = String::from_str("<!DOCTYPE html>\n<html>\n<head>\n    <meta charset=\"utf-8\">\n    <title>Reset your password</title>\n</head>\n<body style=\"font-family: Arial, sans-serif; max-width: 600px; margin: 0 auto; padding: 20px;\">\n    <h1 style=\"color: #333;\">Password Reset Request</h1>\n    <p>Hi ");
    s.append(username);
    s.append(",</p>\n    <p>We received a request to reset your password. Click the button below to create a new password:</p>\n    <p style=\"text-align: center; margin: 30px 0;\">\n        <a href=\"");
    s.append(link);
    s.append("\" style=\"background-color: #2196F3; color: white; padding: 14px 28px; text-decoration: none; border-radius: 4px; display: inline-block;\">\n            Reset Password\n        </a>\n    </p>\n    <p>Or copy and paste this link into your browser:</p>\n    <p style=\"word-break: break-all; color: #666;\">");
    s.append(link);
    s.append("</p>\n    <p style=\"color: #999; font-size: 12px; margin-top: 30px;\">\n        This link will expire in 1 hour. If you didn't request a password reset, you can safely ignore this email.\n    </p>\n</body>\n</html>");
    s
}

/// Email service used when no mail server is configured: it only logs the links.
pub struct MockEmailService {
    pub app_url: String,
}

impl MockEmailService {
    pub fn new(app_url: String) -> (r: MockEmailService)
        ensures
            r.app_url == app_url,
    {
        MockEmailService { app_url }
    }

    /// The verification link the mock service reports for `token`.
    pub fn verification_url(&self, token: &str) -> (r: String)
        ensures
            r@ == verification_link_text(self.app_url@, token@),
    {
        verification_link(self.app_url.as_str(), token)
    }

    /// The password reset link the mock service reports for `token`.
    pub fn password_reset_url(&self, token: &str) -> (r: String)
        ensures
            r@ == reset_link_text(self.app_url@, token@),
    {
        reset_link(self.app_url.as_str(), token)
    }
}

} // verus!
