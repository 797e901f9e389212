//! What a client is built from, and what becomes of the attempt to connect it.

use crate::duration::{no_time, span_nanos};
use crate::provider::error::{client_error_kind, IggyClientError, IggyClientErrorKind};
use crate::provider::sdk::error_code;
use crate::provider::settings::{IggyClientSettings, IggyCredentials};
use crate::text::{blank, is_blank, is_white_space};
use iggy::prelude::{IggyError, NonZeroIggyDuration};
use iggy_common::NonZeroDurationError;
use std::time::Duration;
use vstd::prelude::*;

verus! {

/// The SDK's duration of at least one microsecond.
#[verifier::external_type_specification]
#[verifier::external_body]
pub struct ExNonZeroIggyDuration(NonZeroIggyDuration);

/// Why a span cannot become an SDK duration.
#[verifier::external_type_specification]
#[verifier::external_body]
pub struct ExNonZeroDurationError(NonZeroDurationError);

/// The span of an SDK duration, in nanoseconds.
pub uninterp spec fn sdk_span_nanos(span: NonZeroIggyDuration) -> u128;

/// `NonZeroIggyDuration::new`: accepts a span of at least one microsecond, and keeps it.
pub assume_specification[ NonZeroIggyDuration::new ](duration: Duration) -> (span: Result<
    NonZeroIggyDuration,
    NonZeroDurationError,
>)
    ensures
        span is Ok <==> span_nanos(duration) >= 1_000,
        span matches Ok(span) ==> sdk_span_nanos(span) == span_nanos(duration),
;

/// Whether the SDK's address grammar accepts a text.
pub uninterp spec fn is_server_address(text: Seq<char>) -> bool;

/// `TcpClientConfigBuilder::build` with nothing but a server address: succeeds exactly where the
/// SDK accepts the address.
#[verifier::external_body]
fn accepts_address(address: &str) -> (accepted: bool)
    ensures
        accepted == is_server_address(address@),
{
    iggy::prelude::TcpClientConfigBuilder::new()
        .with_server_address(address.to_owned())
        .build()
        .is_ok()
}

/// Credentials that can be sent to a server.
pub open spec fn valid_credentials(credentials: IggyCredentials) -> bool {
    match credentials {
        IggyCredentials::UsernamePassword { username, password } => !is_blank(username@)
            && password@.len() > 0,
        IggyCredentials::PersonalAccessToken(token) => token@.len() > 0,
    }
}

/// Settings that a client can be built from, whatever the server says later.
pub open spec fn valid_settings(settings: IggyClientSettings) -> bool {
    &&& !is_blank(settings.server_address@)
    &&& valid_credentials(settings.credentials)
    &&& settings.tls matches Some(tls) ==> !is_blank(tls.domain@)
    &&& span_nanos(settings.connect_timeout) > 0
    &&& is_server_address(settings.server_address@)
}

/// Checks everything that can be checked before connecting, but for the heartbeat interval.
pub fn validate(settings: &IggyClientSettings) -> (valid: Result<(), IggyClientError>)
    ensures
        valid is Ok <==> valid_settings(*settings),
        valid matches Err(error) ==> error.kind == IggyClientErrorKind::InvalidSettings,
{
    if blank(settings.server_address.as_str()) {
        return Err(IggyClientError::new(IggyClientErrorKind::InvalidSettings));
    }

    match &settings.credentials {
        IggyCredentials::UsernamePassword { username, password } => {
            if blank(username.as_str()) || password.as_str().is_empty() {
                return Err(IggyClientError::new(IggyClientErrorKind::InvalidSettings));
            }
        },
        IggyCredentials::PersonalAccessToken(token) => {
            if token.as_str().is_empty() {
                return Err(IggyClientError::new(IggyClientErrorKind::InvalidSettings));
            }
        },
    }

    if let Some(tls) = &settings.tls {
        if blank(tls.domain.as_str()) {
            return Err(IggyClientError::new(IggyClientErrorKind::InvalidSettings));
        }
    }

    if no_time(&settings.connect_timeout) {
        return Err(IggyClientError::new(IggyClientErrorKind::InvalidSettings));
    }

    if !accepts_address(settings.server_address.as_str()) {
        return Err(IggyClientError::new(IggyClientErrorKind::InvalidSettings));
    }

    Ok(())
}

/// Checks the settings and turns the heartbeat interval into the SDK's own duration: what happens
/// before any connection attempt.
pub fn prepare(settings: &IggyClientSettings) -> (heartbeat_interval: Result<
    NonZeroIggyDuration,
    IggyClientError,
>)
    ensures
        heartbeat_interval is Ok <==> valid_settings(*settings) && span_nanos(
            settings.heartbeat_interval,
        ) >= 1_000,
        heartbeat_interval matches Ok(interval) ==> sdk_span_nanos(interval) == span_nanos(
            settings.heartbeat_interval,
        ),
        heartbeat_interval matches Err(error) ==> error.kind
            == IggyClientErrorKind::InvalidSettings,
{
    validate(settings)?;

    match NonZeroIggyDuration::new(settings.heartbeat_interval) {
        Ok(interval) => Ok(interval),
        Err(_) => Err(IggyClientError::new(IggyClientErrorKind::InvalidSettings)),
    }
}

/// What became of an attempt to connect and log in.
pub enum ConnectReply {
    /// The transport could not be created.
    NotCreated,

    /// The client is connected and logged in.
    Connected,

    /// The SDK reported an error.
    Failed(IggyError),

    /// The configured timeout passed first.
    TimedOut,
}

/// Says whether an attempt to connect gave a usable client.
pub fn connect_outcome(reply: ConnectReply) -> (outcome: Result<(), IggyClientError>)
    ensures
        outcome is Ok <==> reply is Connected,
        outcome matches Err(error) ==> error.kind == (match reply {
            ConnectReply::Failed(cause) => client_error_kind(error_code(cause)),
            ConnectReply::TimedOut => IggyClientErrorKind::Timeout,
            _ => IggyClientErrorKind::Connect,
        }),
{
    match reply {
        ConnectReply::Connected => Ok(()),
        ConnectReply::NotCreated => Err(IggyClientError::new(IggyClientErrorKind::Connect)),
        ConnectReply::Failed(error) => Err(IggyClientError::from(error)),
        ConnectReply::TimedOut => Err(IggyClientError::new(IggyClientErrorKind::Timeout)),
    }
}

/// Whether a text has anything but white space in it.
pub open spec fn has_content(text: Seq<char>) -> bool {
    exists|i: int| 0 <= i < text.len() && !is_white_space(#[trigger] text[i])
}

/// A client can be built exactly from an address with content that the SDK accepts, a user name
/// with content and a password that is not empty, or a token that is not empty, a TLS domain with
/// content where there is one, and a time to connect in.
pub proof fn law_usable_client_settings(settings: IggyClientSettings)
    ensures
        valid_settings(settings) <==> {
            &&& has_content(settings.server_address@)
            &&& is_server_address(settings.server_address@)
            &&& match settings.credentials {
                IggyCredentials::UsernamePassword { username, password } => has_content(username@)
                    && password@.len() >= 1,
                IggyCredentials::PersonalAccessToken(token) => token@.len() >= 1,
            }
            &&& match settings.tls {
                Some(tls) => has_content(tls.domain@),
                None => true,
            }
            &&& span_nanos(settings.connect_timeout) >= 1
        },
{
}

} // verus!
