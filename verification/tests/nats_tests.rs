use cim_domain_nix::nats::{
    auth_method, discovery_subject, event_headers, event_publish_subject, health_subject, message_ids,
    reply_for, route_command, AuthMethod, CommandKind, EventMetadata, NatsAuth, NatsConfig, NatsError,
    NatsTls, RetryConfig, ServiceConfig, ServiceInfo,
};

fn auth(username: Option<&str>, password: Option<&str>, token: Option<&str>, nkey: Option<&str>) -> NatsAuth {
    NatsAuth {
        username: username.map(String::from),
        password: password.map(String::from),
        token: token.map(String::from),
        nkey: nkey.map(String::from),
        jwt: None,
    }
}

#[test]
fn test_default_config() {
    let config = NatsConfig::default();
    assert_eq!(config.url, "nats://localhost:4222");
    assert_eq!(config.subject_prefix, "nix");
    assert!(config.auth.is_none());
    assert!(config.tls.is_none());
}

#[test]
fn test_config_builder() {
    let config = NatsConfig::new("nats://remote:4222".into()).with_auth(NatsAuth {
        username: Some("user".to_string()),
        password: Some("pass".to_string()),
        token: None,
        nkey: None,
        jwt: None,
    });

    assert_eq!(config.url, "nats://remote:4222");
    assert!(config.auth.is_some());
}

#[test]
fn defaults_of_retry_and_service() {
    let retry = RetryConfig::default();
    assert_eq!(retry.max_reconnects, 10);
    assert_eq!(retry.reconnect_delay_ms, 100);
    assert_eq!(retry.max_reconnect_delay_ms, 10_000);
    assert_eq!(retry.reconnect_jitter_ms, 100);
    assert_eq!(retry.connect_timeout_ms, 5_000);

    let service = ServiceConfig::default();
    assert_eq!(service.name, "cim-domain-nix");
    assert_eq!(service.version, "0.1.0");
    assert_eq!(service.instance_id.len(), 36);
    assert_eq!(service.description, "Nix domain service for CIM");
}

#[test]
fn config_from_environment_values() {
    let c = NatsConfig::from_env_values(None, None, None, None);
    assert_eq!(c.url, "nats://localhost:4222");
    assert!(c.auth.is_none());

    let c = NatsConfig::from_env_values(
        Some("nats://x:1".to_string()),
        Some("u".to_string()),
        Some("p".to_string()),
        Some("t".to_string()),
    );
    assert_eq!(c.url, "nats://x:1");
    assert_eq!(c.auth, Some(auth(Some("u"), Some("p"), None, None)));

    let c = NatsConfig::from_env_values(None, None, Some("p".to_string()), Some("t".to_string()));
    assert_eq!(c.auth, Some(auth(None, None, Some("t"), None)));

    let tls = NatsTls { ca_cert: None, client_cert: None, client_key: None, insecure_skip_verify: true };
    let c = NatsConfig::default().with_tls(tls.clone());
    assert_eq!(c.tls, Some(tls));
}

#[test]
fn authentication_method_choice() {
    let mut c = NatsConfig::default();
    assert_eq!(auth_method(&c), AuthMethod::Anonymous);
    c.auth = Some(auth(Some("u"), Some("p"), Some("t"), None));
    assert_eq!(auth_method(&c), AuthMethod::UserPassword("u".to_string(), "p".to_string()));
    c.auth = Some(auth(Some("u"), None, Some("t"), Some("k")));
    assert_eq!(auth_method(&c), AuthMethod::Token("t".to_string()));
    c.auth = Some(auth(None, None, None, Some("k")));
    assert_eq!(auth_method(&c), AuthMethod::NKey("k".to_string()));
    c.auth = Some(auth(None, Some("p"), None, None));
    assert_eq!(auth_method(&c), AuthMethod::Anonymous);
}

#[test]
fn commands_are_routed_by_subject() {
    assert_eq!(route_command("nix.cmd.flake.create"), Ok(CommandKind::CreateFlake));
    assert_eq!(route_command("nix.cmd.package.build"), Ok(CommandKind::BuildPackage));
    assert_eq!(
        route_command("nix.cmd.flake.update"),
        Err(NatsError::InvalidSubject("Unknown command type for subject: nix.cmd.flake.update".to_string()))
    );
    assert_eq!(route_command("bogus"), Err(NatsError::InvalidSubject("bogus".to_string())));
}

#[test]
fn command_replies() {
    let ok = reply_for(&Ok(3));
    assert_eq!(ok.status, "success");
    assert_eq!(ok.message, "Command processed successfully");
    let err = reply_for(&Err(NatsError::PublishError("down".to_string())));
    assert_eq!(err.status, "error");
    assert_eq!(err.message, "Failed to publish message: down");
}

#[test]
fn nats_error_messages() {
    assert_eq!(NatsError::ConnectionError("x".into()).to_string(), "NATS connection error: x");
    assert_eq!(NatsError::AuthenticationError("x".into()).to_string(), "NATS authentication failed: x");
    assert_eq!(NatsError::InvalidSubject("x".into()).to_string(), "Invalid NATS subject: x");
    assert_eq!(NatsError::TimeoutError("x".into()).to_string(), "Operation timed out: x");
    assert_eq!(NatsError::Other("x".into()).to_string(), "NATS error: x");
}

#[test]
fn message_ids_keep_valid_headers() {
    let c = "67e55044-10b1-426f-9247-bb680e5fe0c8";
    let k = "00000000-0000-0000-0000-000000000001";
    let (corr, caus) = message_ids(Some(c), Some(k));
    assert_eq!(corr.to_string(), c);
    assert_eq!(caus.to_string(), k);
    let (corr, _) = message_ids(Some("not-a-uuid"), None);
    assert_ne!(corr.to_string(), "not-a-uuid");
}

#[test]
fn event_subjects_and_headers() {
    assert_eq!(event_publish_subject("FlakeCreated").unwrap(), "nix.event.flake.created");
    assert_eq!(
        event_publish_subject("Nothing"),
        Err(NatsError::InvalidSubject("Unknown event type: Nothing".to_string()))
    );

    let meta = EventMetadata {
        event_id: "e".into(),
        event_type: "FlakeCreated".into(),
        correlation_id: "c".into(),
        causation_id: "k".into(),
        aggregate_id: "a".into(),
        timestamp: "t".into(),
    };
    let headers = event_headers(&meta, "nix");
    assert_eq!(headers.len(), 7);
    assert_eq!(headers[0], ("X-Event-ID".to_string(), "e".to_string()));
    assert_eq!(headers[6], ("X-Domain".to_string(), "nix".to_string()));

    assert_eq!(health_subject("svc"), "health.svc");
    let info = ServiceInfo {
        name: "svc".into(),
        version: "1".into(),
        instance_id: "i".into(),
        description: "d".into(),
        capabilities: vec![],
        endpoints: vec![],
    };
    assert_eq!(discovery_subject(&info), "discovery.svc");
}
