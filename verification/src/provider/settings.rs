//! Application-owned Iggy client and publisher configuration.

use crate::duration::{no_time, render_span, span_nanos, span_text};
use crate::envelope::optional_text;
use crate::provider::error::InvalidSendTimeout;
use crate::text::{quote, quoted};
use std::time::Duration;
use vstd::prelude::*;

verus! {

/// Iggy authentication credentials.
#[derive(Clone, PartialEq, Eq)]
#[non_exhaustive]
pub enum IggyCredentials {
    /// Username and password login.
    UsernamePassword {
        /// Iggy user name.
        username: String,

        /// Iggy user password.
        password: String,
    },

    /// Personal access token login.
    PersonalAccessToken(String),
}

/// Optional TLS configuration for the Iggy TCP transport.
#[derive(Clone, PartialEq, Eq)]
#[non_exhaustive]
pub struct IggyTlsSettings {
    /// The server's domain.
    pub domain: String,

    /// A custom CA file path used to validate the server certificate.
    pub ca_file: Option<String>,
}

/// Typed Iggy client configuration.
#[derive(Clone)]
#[non_exhaustive]
pub struct IggyClientSettings {
    /// The server's host and port.
    pub server_address: String,

    /// How the client logs in.
    pub credentials: IggyCredentials,

    /// TLS for the TCP transport, if any.
    pub tls: Option<IggyTlsSettings>,

    /// How long `start` waits for the connect-and-login sequence to complete.
    pub connect_timeout: Duration,

    /// The interval between client heartbeats sent to keep the session alive.
    pub heartbeat_interval: Duration,
}

/// The redacted rendering of credentials: the user name, and nothing secret.
pub open spec fn credentials_text(credentials: IggyCredentials) -> Seq<char> {
    match credentials {
        IggyCredentials::UsernamePassword { username, password } => "UsernamePassword { username: "@
            + quoted(username@) + ", password: \"<redacted>\" }"@,
        IggyCredentials::PersonalAccessToken(token) => "PersonalAccessToken(\"<redacted>\")"@,
    }
}

/// The redacted rendering of TLS settings: only whether a CA file is set.
pub open spec fn tls_text(tls: IggyTlsSettings) -> Seq<char> {
    if tls.ca_file is Some {
        "IggyTlsSettings { domain: \"<redacted>\", ca_file: Some(\"<redacted>\") }"@
    } else {
        "IggyTlsSettings { domain: \"<redacted>\", ca_file: None }"@
    }
}

/// The redacted rendering of optional TLS settings.
pub open spec fn optional_tls_text(tls: Option<IggyTlsSettings>) -> Seq<char> {
    match tls {
        Some(tls) => "Some("@ + tls_text(tls) + ")"@,
        None => "None"@,
    }
}

/// The redacted rendering of client settings.
pub open spec fn settings_text(settings: IggyClientSettings) -> Seq<char> {
    "IggyClientSettings { server_address: \"<redacted>\", credentials: "@ + credentials_text(
        settings.credentials,
    ) + ", tls: "@ + optional_tls_text(settings.tls) + ", connect_timeout: "@ + span_text(
        settings.connect_timeout,
    ) + ", heartbeat_interval: "@ + span_text(settings.heartbeat_interval) + " }"@
}

impl IggyCredentials {
    /// Renders the credentials without the password or the token.
    pub fn redacted(&self) -> (text: String)
        ensures
            text@ == credentials_text(*self),
    {
        match self {
            IggyCredentials::UsernamePassword { username, .. } => {
                let mut text = "UsernamePassword { username: ".to_owned();
                text.push_str(quote(username.as_str()).as_str());
                text.push_str(", password: \"<redacted>\" }");
                text
            },
            IggyCredentials::PersonalAccessToken(_) => {
                "PersonalAccessToken(\"<redacted>\")".to_owned()
            },
        }
    }
}

impl IggyTlsSettings {
    /// Creates TLS settings for the given server domain.
    pub fn new(domain: &str) -> (tls: Self)
        ensures
            tls.domain@ == domain@,
            tls.ca_file is None,
    {
        IggyTlsSettings { domain: domain.to_owned(), ca_file: None }
    }

    /// Sets a custom CA file path used to validate the server certificate.
    pub fn with_ca_file(self, ca_file: &str) -> (tls: Self)
        ensures
            tls.domain@ == self.domain@,
            optional_text(tls.ca_file) == Some(ca_file@),
    {
        IggyTlsSettings { domain: self.domain, ca_file: Some(ca_file.to_owned()) }
    }

    /// Renders the settings without the domain or the path.
    pub fn redacted(&self) -> (text: String)
        ensures
            text@ == tls_text(*self),
    {
        if self.ca_file.is_some() {
            "IggyTlsSettings { domain: \"<redacted>\", ca_file: Some(\"<redacted>\") }".to_owned()
        } else {
            "IggyTlsSettings { domain: \"<redacted>\", ca_file: None }".to_owned()
        }
    }
}

impl IggyClientSettings {
    /// Creates configuration for the supplied server address and credentials.
    ///
    /// The default connect timeout is 10 seconds and the default heartbeat interval is 5 seconds,
    /// matching the SDK default.
    pub fn new(server_address: &str, credentials: IggyCredentials) -> (settings: Self)
        ensures
            settings.server_address@ == server_address@,
            settings.credentials == credentials,
            settings.tls is None,
            span_nanos(settings.connect_timeout) == 10_000_000_000,
            span_nanos(settings.heartbeat_interval) == 5_000_000_000,
    {
        IggyClientSettings {
            server_address: server_address.to_owned(),
            credentials,
            tls: None,
            connect_timeout: Duration::from_secs(10),
            heartbeat_interval: Duration::from_secs(5),
        }
    }

    /// Sets TLS configuration for the TCP transport.
    pub fn with_tls(self, tls: IggyTlsSettings) -> (settings: Self)
        ensures
            settings == (IggyClientSettings { tls: Some(tls), ..self }),
    {
        IggyClientSettings { tls: Some(tls), ..self }
    }

    /// Sets how long `start` waits for the connect-and-login sequence to complete.
    pub fn with_connect_timeout(self, connect_timeout: Duration) -> (settings: Self)
        ensures
            settings == (IggyClientSettings { connect_timeout, ..self }),
    {
        IggyClientSettings { connect_timeout, ..self }
    }

    /// Sets the interval between client heartbeats sent to keep the session alive.
    pub fn with_heartbeat_interval(self, heartbeat_interval: Duration) -> (settings: Self)
        ensures
            settings == (IggyClientSettings { heartbeat_interval, ..self }),
    {
        IggyClientSettings { heartbeat_interval, ..self }
    }

    /// Renders the settings without the address, the password or token, the TLS domain, or the
    /// CA file path.
    pub fn redacted(&self) -> (text: String)
        ensures
            text@ == settings_text(*self),
    {
        let mut text =
            "IggyClientSettings { server_address: \"<redacted>\", credentials: ".to_owned();
        text.push_str(self.credentials.redacted().as_str());
        text.push_str(", tls: ");
        match &self.tls {
            Some(tls) => {
                let mut some = "Some(".to_owned();
                some.push_str(tls.redacted().as_str());
                some.push_str(")");
                text.push_str(some.as_str());
            },
            None => {
                text.push_str("None");
            },
        }
        text.push_str(", connect_timeout: ");
        text.push_str(render_span(&self.connect_timeout).as_str());
        text.push_str(", heartbeat_interval: ");
        text.push_str(render_span(&self.heartbeat_interval).as_str());
        text.push_str(" }");
        text
    }
}

/// Credentials that may differ in nothing but their secrets.
pub open spec fn same_public_credentials(left: IggyCredentials, right: IggyCredentials) -> bool {
    match (left, right) {
        (
            IggyCredentials::UsernamePassword { username: l, .. },
            IggyCredentials::UsernamePassword { username: r, .. },
        ) => l@ == r@,
        (IggyCredentials::PersonalAccessToken(_), IggyCredentials::PersonalAccessToken(_)) => true,
        _ => false,
    }
}

/// The rendering of client settings never depends on the server address, the password, the
/// access token, the TLS domain, or the CA file path: settings that differ only in those render
/// the same.
pub proof fn law_redaction(left: IggyClientSettings, right: IggyClientSettings)
    requires
        same_public_credentials(left.credentials, right.credentials),
        left.tls is Some <==> right.tls is Some,
        left.tls is Some ==> (left.tls->Some_0.ca_file is Some
            <==> right.tls->Some_0.ca_file is Some),
        left.connect_timeout == right.connect_timeout,
        left.heartbeat_interval == right.heartbeat_interval,
    ensures
        settings_text(left) == settings_text(right),
{
}

/// Publication timing policy.
#[derive(Clone, Copy, Debug, PartialEq, Eq)]
pub struct IggyPublisherSettings {
    send_timeout: Duration,
}

impl IggyPublisherSettings {
    /// How long to wait for the server's reply to one request.
    pub closed spec fn timeout(&self) -> Duration {
        self.send_timeout
    }

    /// Creates publication timing policy for the given per-request send timeout.
    ///
    /// A timeout does not establish that the request was rejected: it may still be committed by
    /// the server. A zero timeout is rejected: it would never let a request reach the server.
    pub fn new(send_timeout: Duration) -> (settings: Result<Self, InvalidSendTimeout>)
        ensures
            settings is Err <==> span_nanos(send_timeout) == 0,
            settings matches Ok(settings) ==> settings.timeout() == send_timeout,
    {
        if no_time(&send_timeout) {
            return Err(InvalidSendTimeout);
        }

        Ok(IggyPublisherSettings { send_timeout })
    }

    /// Returns how long to wait for the server's reply to a single request.
    pub fn send_timeout(&self) -> (timeout: Duration)
        ensures
            timeout == self.timeout(),
    {
        self.send_timeout
    }
}

impl Default for IggyPublisherSettings {
    fn default() -> (settings: Self)
        ensures
            span_nanos(settings.timeout()) == 30_000_000_000,
    {
        IggyPublisherSettings { send_timeout: Duration::from_secs(30) }
    }
}

} // verus!
