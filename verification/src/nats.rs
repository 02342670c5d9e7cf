//! The NATS side of the Nix domain: connection settings, how a command
//! message is routed and answered, and what an event is published under.

use vstd::prelude::*;
use crate::ids::{id_text, random_id, same_id};
use crate::subject::{Aggregate, NixSubject, SubjectMapper, SubjectView, event_of_type, event_subject_view, parse_subject, subject_text};
use crate::text;

verus! {

broadcast use vstd::string::group_string_axioms;

/// A failure of the NATS side.
#[derive(Debug, Clone, PartialEq)]
pub enum NatsError {
    /// The connection failed.
    ConnectionError(String),
    /// Authentication failed.
    AuthenticationError(String),
    /// Publishing failed.
    PublishError(String),
    /// Subscribing failed.
    SubscriptionError(String),
    /// A message could not be written.
    SerializationError(String),
    /// A message could not be read.
    DeserializationError(String),
    /// A subject is not one of the domain's.
    InvalidSubject(String),
    /// An operation timed out.
    TimeoutError(String),
    /// The client failed, with its message.
    ClientError(String),
    /// JSON could not be handled, with its message.
    JsonError(String),
    /// Anything else.
    Other(String),
}

/// The message of an error.
pub open spec fn nats_error_text(e: NatsError) -> Seq<char> {
    match e {
        NatsError::ConnectionError(m) => "NATS connection error: "@ + m@,
        NatsError::AuthenticationError(m) => "NATS authentication failed: "@ + m@,
        NatsError::PublishError(m) => "Failed to publish message: "@ + m@,
        NatsError::SubscriptionError(m) => "Subscription error: "@ + m@,
        NatsError::SerializationError(m) => "Message serialization error: "@ + m@,
        NatsError::DeserializationError(m) => "Message deserialization error: "@ + m@,
        NatsError::InvalidSubject(m) => "Invalid NATS subject: "@ + m@,
        NatsError::TimeoutError(m) => "Operation timed out: "@ + m@,
        NatsError::ClientError(m) => "NATS client error: "@ + m@,
        NatsError::JsonError(m) => "JSON error: "@ + m@,
        NatsError::Other(m) => "NATS error: "@ + m@,
    }
}

impl NatsError {
    /// The message of the error.
    pub fn to_string(&self) -> (s: String)
        ensures
            s@ == nats_error_text(*self),
    {
        let (prefix, m) = match self {
            NatsError::ConnectionError(m) => ("NATS connection error: ", m),
            NatsError::AuthenticationError(m) => ("NATS authentication failed: ", m),
            NatsError::PublishError(m) => ("Failed to publish message: ", m),
            NatsError::SubscriptionError(m) => ("Subscription error: ", m),
            NatsError::SerializationError(m) => ("Message serialization error: ", m),
            NatsError::DeserializationError(m) => ("Message deserialization error: ", m),
            NatsError::InvalidSubject(m) => ("Invalid NATS subject: ", m),
            NatsError::TimeoutError(m) => ("Operation timed out: ", m),
            NatsError::ClientError(m) => ("NATS client error: ", m),
            NatsError::JsonError(m) => ("JSON error: ", m),
            NatsError::Other(m) => ("NATS error: ", m),
        };
        let mut v = text::chars_of(prefix);
        text::append_str(&mut v, m.as_str());
        text::string_of(v.as_slice())
    }
}

// ---------------------------------------------------------------------------
// Settings
// ---------------------------------------------------------------------------

/// How to authenticate to NATS.
#[derive(Debug, Clone, PartialEq)]
pub struct NatsAuth {
    /// User name.
    pub username: Option<String>,
    /// Password.
    pub password: Option<String>,
    /// Token.
    pub token: Option<String>,
    /// NKey.
    pub nkey: Option<String>,
    /// JWT.
    pub jwt: Option<String>,
}

/// TLS settings.
#[derive(Debug, Clone, PartialEq)]
pub struct NatsTls {
    /// CA certificate path.
    pub ca_cert: Option<String>,
    /// Client certificate path.
    pub client_cert: Option<String>,
    /// Client key path.
    pub client_key: Option<String>,
    /// Whether the server certificate goes unchecked.
    pub insecure_skip_verify: bool,
}

/// How to reconnect.
#[derive(Debug, Clone, Copy, PartialEq, Eq, Structural)]
pub struct RetryConfig {
    /// Most reconnect attempts.
    pub max_reconnects: usize,
    /// First reconnect delay, in milliseconds.
    pub reconnect_delay_ms: u64,
    /// Largest reconnect delay, in milliseconds.
    pub max_reconnect_delay_ms: u64,
    /// Reconnect jitter, in milliseconds.
    pub reconnect_jitter_ms: u64,
    /// Connect timeout, in milliseconds.
    pub connect_timeout_ms: u64,
}

impl Default for RetryConfig {
    fn default() -> (r: Self)
        ensures
            r == (RetryConfig {
                max_reconnects: 10,
                reconnect_delay_ms: 100,
                max_reconnect_delay_ms: 10_000,
                reconnect_jitter_ms: 100,
                connect_timeout_ms: 5_000,
            }),
    {
        RetryConfig {
            max_reconnects: 10,
            reconnect_delay_ms: 100,
            max_reconnect_delay_ms: 10_000,
            reconnect_jitter_ms: 100,
            connect_timeout_ms: 5_000,
        }
    }
}

/// How the service names itself.
#[derive(Debug, Clone, PartialEq)]
pub struct ServiceConfig {
    /// Name.
    pub name: String,
    /// Version.
    pub version: String,
    /// Identifier of this instance.
    pub instance_id: String,
    /// Description.
    pub description: String,
}

impl Default for ServiceConfig {
    /// The service `cim-domain-nix` of this crate's version, under a fresh
    /// random instance identifier.
    fn default() -> (r: Self)
        ensures
            r.name@ == "cim-domain-nix"@,
            r.version@ == "0.1.0"@,
            r.instance_id@.len() == 36,
            r.description@ == "Nix domain service for CIM"@,
    {
        let id = random_id();
        ServiceConfig {
            name: text::string_from("cim-domain-nix"),
            version: text::string_from("0.1.0"),
            instance_id: id_text(&id),
            description: text::string_from("Nix domain service for CIM"),
        }
    }
}

/// How to reach NATS.
#[derive(Debug, Clone, PartialEq)]
pub struct NatsConfig {
    /// Server URL.
    pub url: String,
    /// Subject prefix of the domain.
    pub subject_prefix: String,
    /// Authentication.
    pub auth: Option<NatsAuth>,
    /// TLS.
    pub tls: Option<NatsTls>,
    /// Reconnection.
    pub retry: RetryConfig,
    /// Service identity.
    pub service: ServiceConfig,
}

impl Default for NatsConfig {
    fn default() -> (r: Self)
        ensures
            r.url@ == "nats://localhost:4222"@,
            r.subject_prefix@ == "nix"@,
            r.auth is None,
            r.tls is None,
            r.retry == (RetryConfig {
                max_reconnects: 10,
                reconnect_delay_ms: 100,
                max_reconnect_delay_ms: 10_000,
                reconnect_jitter_ms: 100,
                connect_timeout_ms: 5_000,
            }),
            r.service.name@ == "cim-domain-nix"@,
    {
        NatsConfig {
            url: text::string_from("nats://localhost:4222"),
            subject_prefix: text::string_from("nix"),
            auth: None,
            tls: None,
            retry: RetryConfig::default(),
            service: ServiceConfig::default(),
        }
    }
}

impl NatsConfig {
    /// The default settings with another server URL.
    pub fn new(url: String) -> (r: Self)
        ensures
            r.url@ == url@,
            r.subject_prefix@ == "nix"@,
            r.auth is None,
            r.tls is None,
    {
        NatsConfig { url, ..Self::default() }
    }

    /// The settings with authentication.
    pub fn with_auth(self, auth: NatsAuth) -> (r: Self)
        ensures
            r == (NatsConfig { auth: Some(auth), ..self }),
    {
        NatsConfig { auth: Some(auth), ..self }
    }

    /// The settings with TLS.
    pub fn with_tls(self, tls: NatsTls) -> (r: Self)
        ensures
            r == (NatsConfig { tls: Some(tls), ..self }),
    {
        NatsConfig { tls: Some(tls), ..self }
    }

    /// The settings the environment gives: `NATS_URL` replaces the URL;
    /// `NATS_USER` (with `NATS_PASSWORD`, if set) or else `NATS_TOKEN` sets
    /// the authentication. Each argument is the variable's value, if set.
    pub fn from_env_values(
        url: Option<String>,
        user: Option<String>,
        password: Option<String>,
        token: Option<String>,
    ) -> (r: Self)
        ensures
            r.url@ == match url {
                Some(u) => u@,
                None => "nats://localhost:4222"@,
            },
            r.subject_prefix@ == "nix"@,
            r.tls is None,
            match user {
                Some(u) => r.auth == Some(
                    NatsAuth { username: Some(u), password: password, token: None, nkey: None, jwt: None },
                ),
                None => match token {
                    Some(t) => r.auth == Some(
                        NatsAuth { username: None, password: None, token: Some(t), nkey: None, jwt: None },
                    ),
                    None => r.auth is None,
                },
            },
    {
        let mut config = Self::default();
        match url {
            Some(u) => {
                config.url = u;
            },
            None => {},
        }
        match user {
            Some(u) => {
                config.auth = Some(NatsAuth { username: Some(u), password, token: None, nkey: None, jwt: None });
            },
            None => match token {
                Some(t) => {
                    config.auth = Some(
                        NatsAuth { username: None, password: None, token: Some(t), nkey: None, jwt: None },
                    );
                },
                None => {},
            },
        }
        config
    }
}

/// How a connection authenticates.
#[derive(Debug, Clone, PartialEq)]
pub enum AuthMethod {
    /// User name and password.
    UserPassword(String, String),
    /// A token.
    Token(String),
    /// An NKey.
    NKey(String),
    /// None.
    Anonymous,
}

/// The authentication a connection uses: user and password when both are
/// set, else the token, else the NKey.
pub open spec fn auth_method_of(auth: Option<NatsAuth>) -> AuthMethod {
    match auth {
        Some(a) => match (a.username, a.password) {
            (Some(u), Some(p)) => AuthMethod::UserPassword(u, p),
            _ => match a.token {
                Some(t) => AuthMethod::Token(t),
                None => match a.nkey {
                    Some(k) => AuthMethod::NKey(k),
                    None => AuthMethod::Anonymous,
                },
            },
        },
        None => AuthMethod::Anonymous,
    }
}

/// The authentication a connection with these settings uses.
pub fn auth_method(config: &NatsConfig) -> (r: AuthMethod)
    ensures
        r == auth_method_of(config.auth),
{
    match &config.auth {
        Some(a) => match (&a.username, &a.password) {
            (Some(u), Some(p)) => AuthMethod::UserPassword(u.clone(), p.clone()),
            _ => match &a.token {
                Some(t) => AuthMethod::Token(t.clone()),
                None => match &a.nkey {
                    Some(k) => AuthMethod::NKey(k.clone()),
                    None => AuthMethod::Anonymous,
                },
            },
        },
        None => AuthMethod::Anonymous,
    }
}

// ---------------------------------------------------------------------------
// Commands received
// ---------------------------------------------------------------------------

/// The kinds of command a command subject can carry.
#[derive(Debug, Clone, Copy, PartialEq, Eq, Structural)]
pub enum CommandKind {
    /// Create a flake.
    CreateFlake,
    /// Build a package.
    BuildPackage,
}

/// Where a command subject routes: a command kind, or an invalid subject
/// with the text of the error.
pub enum Route {
    To(CommandKind),
    Invalid(Seq<char>),
}

/// The route of a subject: `create` on a flake or `build` on a package; a
/// subject that does not parse is invalid by itself, one of another command
/// is invalid as an unknown command type.
pub open spec fn route_of(subject: Seq<char>) -> Route {
    match parse_subject(subject) {
        None => Route::Invalid(subject),
        Some(v) => if v.action == "create"@ && v.aggregate == Aggregate::Flake {
            Route::To(CommandKind::CreateFlake)
        } else if v.action == "build"@ && v.aggregate == Aggregate::Package {
            Route::To(CommandKind::BuildPackage)
        } else {
            Route::Invalid("Unknown command type for subject: "@ + subject)
        },
    }
}

/// The command kind a message on a subject carries.
pub fn route_command(subject: &str) -> (r: Result<CommandKind, NatsError>)
    ensures
        match route_of(subject@) {
            Route::To(k) => r == Ok::<CommandKind, NatsError>(k),
            Route::Invalid(m) => r matches Err(NatsError::InvalidSubject(x)) && x@ == m,
        },
{
    match NixSubject::parse(subject) {
        None => Err(NatsError::InvalidSubject(text::string_from(subject))),
        Some(parsed) => {
            let action = text::chars_of(parsed.action.as_str());
            if text::eq_str(action.as_slice(), "create") && parsed.aggregate == Aggregate::Flake {
                Ok(CommandKind::CreateFlake)
            } else if text::eq_str(action.as_slice(), "build") && parsed.aggregate == Aggregate::Package {
                Ok(CommandKind::BuildPackage)
            } else {
                let mut m = text::chars_of("Unknown command type for subject: ");
                text::append_str(&mut m, subject);
                Err(NatsError::InvalidSubject(text::string_of(m.as_slice())))
            }
        },
    }
}

/// The reply to a command message.
#[derive(Debug, Clone, PartialEq)]
pub struct CommandReply {
    /// `success` or `error`.
    pub status: String,
    /// What happened.
    pub message: String,
}

/// The reply to a command: success, or the handler's error.
pub fn reply_for(outcome: &Result<usize, NatsError>) -> (r: CommandReply)
    ensures
        match outcome {
            Ok(_) => r.status@ == "success"@ && r.message@ == "Command processed successfully"@,
            Err(e) => r.status@ == "error"@ && r.message@ == nats_error_text(*e),
        },
{
    match outcome {
        Ok(_) => CommandReply {
            status: text::string_from("success"),
            message: text::string_from("Command processed successfully"),
        },
        Err(e) => CommandReply { status: text::string_from("error"), message: e.to_string() },
    }
}

/// The identifier a header's text names, as uuid's `Uuid::parse_str`
/// reads it.
pub uninterp spec fn parsed_uuid(s: Seq<char>) -> Option<uuid::Uuid>;

/// uuid's `Uuid::parse_str`, with its error dropped. What it accepts (the
/// hyphenated, simple, braced and URN forms) depends on the text alone;
/// the contract names the result and says no more.
#[verifier::external_body]
fn parse_uuid(s: &str) -> (r: Option<uuid::Uuid>)
    ensures
        r == parsed_uuid(s@),
{
    uuid::Uuid::parse_str(s).ok()
}

/// The correlation and causation identifiers of a command, from its
/// `X-Correlation-ID` and `X-Causation-ID` headers; a header that is
/// missing or does not parse gives a fresh random identifier.
pub fn message_ids(correlation: Option<&str>, causation: Option<&str>) -> (r: (uuid::Uuid, uuid::Uuid))
    ensures
        match correlation {
            Some(c) => match parsed_uuid(c@) {
                Some(u) => r.0 == u,
                None => true,
            },
            None => true,
        },
        match causation {
            Some(c) => match parsed_uuid(c@) {
                Some(u) => r.1 == u,
                None => true,
            },
            None => true,
        },
{
    let c = match correlation {
        Some(t) => match parse_uuid(t) {
            Some(u) => u,
            None => random_id(),
        },
        None => random_id(),
    };
    let k = match causation {
        Some(t) => match parse_uuid(t) {
            Some(u) => u,
            None => random_id(),
        },
        None => random_id(),
    };
    (c, k)
}

// ---------------------------------------------------------------------------
// Events published, health and discovery
// ---------------------------------------------------------------------------

/// The subject an event type is published under.
pub fn event_publish_subject(event_type: &str) -> (r: Result<String, NatsError>)
    ensures
        match event_of_type(event_type@) {
            Some(a) => r matches Ok(s) && s@ == subject_text(event_subject_view(a)),
            None => r matches Err(NatsError::InvalidSubject(m)) && m@ == "Unknown event type: "@ + event_type@,
        },
{
    match SubjectMapper::event_subject(event_type) {
        Some(s) => Ok(s.to_string()),
        None => {
            let mut m = text::chars_of("Unknown event type: ");
            text::append_str(&mut m, event_type);
            Err(NatsError::InvalidSubject(text::string_of(m.as_slice())))
        },
    }
}

/// The metadata of a published event.
#[derive(Debug, Clone, PartialEq)]
pub struct EventMetadata {
    /// The event's identifier.
    pub event_id: String,
    /// Its type name.
    pub event_type: String,
    /// Its correlation identifier.
    pub correlation_id: String,
    /// Its causation identifier.
    pub causation_id: String,
    /// Its aggregate's identifier.
    pub aggregate_id: String,
    /// When it occurred, in RFC 3339.
    pub timestamp: String,
}

/// The headers an event is published with, in order.
pub fn event_headers(meta: &EventMetadata, domain: &str) -> (r: Vec<(String, String)>)
    ensures
        r@.map_values(|h: (String, String)| (h.0@, h.1@)) == seq![
            ("X-Event-ID"@, meta.event_id@),
            ("X-Event-Type"@, meta.event_type@),
            ("X-Correlation-ID"@, meta.correlation_id@),
            ("X-Causation-ID"@, meta.causation_id@),
            ("X-Aggregate-ID"@, meta.aggregate_id@),
            ("X-Timestamp"@, meta.timestamp@),
            ("X-Domain"@, domain@),
        ],
{
    let r = vec![
        (text::string_from("X-Event-ID"), meta.event_id.clone()),
        (text::string_from("X-Event-Type"), meta.event_type.clone()),
        (text::string_from("X-Correlation-ID"), meta.correlation_id.clone()),
        (text::string_from("X-Causation-ID"), meta.causation_id.clone()),
        (text::string_from("X-Aggregate-ID"), meta.aggregate_id.clone()),
        (text::string_from("X-Timestamp"), meta.timestamp.clone()),
        (text::string_from("X-Domain"), text::string_from(domain)),
    ];
    assert(r@.map_values(|h: (String, String)| (h.0@, h.1@)) =~= seq![
        ("X-Event-ID"@, meta.event_id@),
        ("X-Event-Type"@, meta.event_type@),
        ("X-Correlation-ID"@, meta.correlation_id@),
        ("X-Causation-ID"@, meta.causation_id@),
        ("X-Aggregate-ID"@, meta.aggregate_id@),
        ("X-Timestamp"@, meta.timestamp@),
        ("X-Domain"@, domain@),
    ]);
    r
}

/// A service as discovery announces it.
#[derive(Debug, Clone, PartialEq)]
pub struct ServiceInfo {
    /// Name.
    pub name: String,
    /// Version.
    pub version: String,
    /// Instance identifier.
    pub instance_id: String,
    /// Description.
    pub description: String,
    /// What it can do.
    pub capabilities: Vec<String>,
    /// Where it listens.
    pub endpoints: Vec<String>,
}

/// The subject a service answers health checks on: `health.` and its name.
pub fn health_subject(service_name: &str) -> (r: String)
    ensures
        r@ == "health."@ + service_name@,
{
    let mut v = text::chars_of("health.");
    text::append_str(&mut v, service_name);
    text::string_of(v.as_slice())
}

/// The subject a service answers discovery on: `discovery.` and its name.
pub fn discovery_subject(info: &ServiceInfo) -> (r: String)
    ensures
        r@ == "discovery."@ + info.name@,
{
    let mut v = text::chars_of("discovery.");
    text::append_str(&mut v, info.name.as_str());
    text::string_of(v.as_slice())
}

} // verus!
