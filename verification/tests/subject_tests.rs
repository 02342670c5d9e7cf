use cim_domain_nix::subject::{
    Aggregate, CommandAction, EventAction, MessageType, NixSubject, QueryAction, SubjectMapper,
};

#[test]
fn test_command_subject_format() {
    let subject = NixSubject::command(CommandAction::CreateFlake);
    assert_eq!(subject.to_string(), "nix.cmd.flake.create");

    let subject = NixSubject::command(CommandAction::BuildPackage);
    assert_eq!(subject.to_string(), "nix.cmd.package.build");

    let subject = NixSubject::command(CommandAction::ActivateConfiguration);
    assert_eq!(subject.to_string(), "nix.cmd.config.activate");
}

#[test]
fn test_event_subject_format() {
    let subject = NixSubject::event(EventAction::FlakeCreated);
    assert_eq!(subject.to_string(), "nix.event.flake.created");

    let subject = NixSubject::event(EventAction::PackageBuilt);
    assert_eq!(subject.to_string(), "nix.event.package.built");

    let subject = NixSubject::event(EventAction::ConfigurationActivated);
    assert_eq!(subject.to_string(), "nix.event.config.activated");
}

#[test]
fn test_query_subject_format() {
    let subject = NixSubject::query(QueryAction::GetFlake);
    assert_eq!(subject.to_string(), "nix.query.flake.get");

    let subject = NixSubject::query(QueryAction::ListPackages);
    assert_eq!(subject.to_string(), "nix.query.package.list");

    let subject = NixSubject::query(QueryAction::GetCurrentConfiguration);
    assert_eq!(subject.to_string(), "nix.query.config.get_current");
}

#[test]
fn test_parse_subject() {
    let subject = NixSubject::parse("nix.cmd.flake.create").unwrap();
    assert_eq!(subject.message_type, MessageType::Command);
    assert_eq!(subject.aggregate, Aggregate::Flake);
    assert_eq!(subject.action, "create");

    let subject = NixSubject::parse("nix.event.package.built").unwrap();
    assert_eq!(subject.message_type, MessageType::Event);
    assert_eq!(subject.aggregate, Aggregate::Package);
    assert_eq!(subject.action, "built");

    assert!(NixSubject::parse("invalid.subject").is_none());
    assert!(NixSubject::parse("other.cmd.flake.create").is_none());
    assert!(NixSubject::parse("nix.invalid.flake.create").is_none());
}

#[test]
fn test_subject_mapper() {
    let subject = SubjectMapper::command_subject("CreateFlake").unwrap();
    assert_eq!(subject.to_string(), "nix.cmd.flake.create");

    let subject = SubjectMapper::event_subject("FlakeCreated").unwrap();
    assert_eq!(subject.to_string(), "nix.event.flake.created");

    assert!(SubjectMapper::command_subject("InvalidCommand").is_none());
}

#[test]
fn test_all_command_subjects() {
    let subjects = SubjectMapper::all_command_subjects();
    assert_eq!(subjects.len(), 16);
    for subject in &subjects {
        let s = subject.to_string();
        assert!(s.starts_with("nix.cmd."));
        assert_eq!(s.split('.').count(), 4);
    }
    let subject_strings: Vec<String> = subjects.iter().map(|s| s.to_string()).collect();
    assert!(subject_strings.contains(&"nix.cmd.flake.create".to_string()));
    assert!(subject_strings.contains(&"nix.cmd.package.build".to_string()));
    assert!(subject_strings.contains(&"nix.cmd.config.activate".to_string()));
}

#[test]
fn test_all_event_subjects() {
    let subjects = SubjectMapper::all_event_subjects();
    assert_eq!(subjects.len(), 16);
    for subject in &subjects {
        let s = subject.to_string();
        assert!(s.starts_with("nix.event."));
        assert_eq!(s.split('.').count(), 4);
    }
    let subject_strings: Vec<String> = subjects.iter().map(|s| s.to_string()).collect();
    assert!(subject_strings.contains(&"nix.event.flake.created".to_string()));
    assert!(subject_strings.contains(&"nix.event.package.built".to_string()));
    assert!(subject_strings.contains(&"nix.event.config.activated".to_string()));
}

#[test]
fn test_command_to_event_mapping() {
    let command_actions = vec![
        (CommandAction::CreateFlake, EventAction::FlakeCreated),
        (CommandAction::UpdateFlake, EventAction::FlakeUpdated),
        (CommandAction::AddFlakeInput, EventAction::FlakeInputAdded),
        (CommandAction::BuildPackage, EventAction::PackageBuilt),
        (CommandAction::CreateModule, EventAction::ModuleCreated),
        (CommandAction::CreateOverlay, EventAction::OverlayCreated),
        (CommandAction::CreateConfiguration, EventAction::ConfigurationCreated),
        (CommandAction::ActivateConfiguration, EventAction::ConfigurationActivated),
    ];
    for (cmd, evt) in command_actions {
        assert_eq!(cmd.aggregate(), evt.aggregate());
    }
}

#[test]
fn test_aggregate_consistency() {
    assert_eq!(CommandAction::CreateFlake.aggregate(), Aggregate::Flake);
    assert_eq!(CommandAction::UpdateFlake.aggregate(), Aggregate::Flake);
    assert_eq!(EventAction::FlakeCreated.aggregate(), Aggregate::Flake);
    assert_eq!(QueryAction::GetFlake.aggregate(), Aggregate::Flake);

    assert_eq!(CommandAction::BuildPackage.aggregate(), Aggregate::Package);
    assert_eq!(EventAction::PackageBuilt.aggregate(), Aggregate::Package);
    assert_eq!(QueryAction::GetPackage.aggregate(), Aggregate::Package);

    assert_eq!(CommandAction::CreateConfiguration.aggregate(), Aggregate::Configuration);
    assert_eq!(EventAction::ConfigurationCreated.aggregate(), Aggregate::Configuration);
    assert_eq!(QueryAction::GetConfiguration.aggregate(), Aggregate::Configuration);
}

#[test]
fn test_wildcard_subscriptions() {
    let flake_cmd = NixSubject::command(CommandAction::CreateFlake).to_string();
    assert!(flake_cmd.starts_with("nix.") && flake_cmd.contains(".flake."));

    let cmd = NixSubject::command(CommandAction::BuildPackage).to_string();
    assert!(cmd.starts_with("nix.cmd."));

    let evt = NixSubject::event(EventAction::PackageBuilt).to_string();
    assert!(evt.starts_with("nix.event."));
}

#[test]
fn test_subject_round_trip() {
    let original = NixSubject::command(CommandAction::CreateFlake);
    let serialized = original.to_string();
    let parsed = NixSubject::parse(&serialized).unwrap();

    assert_eq!(parsed.message_type, original.message_type);
    assert_eq!(parsed.aggregate, original.aggregate);
    assert_eq!(parsed.action, original.action);
}

#[test]
fn test_invalid_subject_parsing() {
    assert!(NixSubject::parse("").is_none());
    assert!(NixSubject::parse("nix").is_none());
    assert!(NixSubject::parse("nix.cmd").is_none());
    assert!(NixSubject::parse("nix.cmd.flake").is_none());
    assert!(NixSubject::parse("wrong.cmd.flake.create").is_none());
    assert!(NixSubject::parse("nix.wrong.flake.create").is_none());
    assert!(NixSubject::parse("nix.cmd.wrong.create").is_none());
    assert!(NixSubject::parse("nix.cmd.flake.create.extra").is_none());
}

#[test]
fn test_special_subjects() {
    assert!(NixSubject::parse("health.nix").is_none());
    assert!(NixSubject::parse("metrics.nix").is_none());
    assert!(NixSubject::parse("discovery.nix").is_none());
}

#[test]
fn every_named_subject_round_trips() {
    for s in SubjectMapper::all_command_subjects()
        .into_iter()
        .chain(SubjectMapper::all_event_subjects())
    {
        let text = s.to_string();
        let back = NixSubject::parse(&text).unwrap();
        assert_eq!(back.to_string(), text);
    }
}

#[test]
fn query_subjects_parse_back() {
    let s = NixSubject::parse("nix.query.config.get_current").unwrap();
    assert_eq!(s.message_type, MessageType::Query);
    assert_eq!(s.aggregate, Aggregate::Configuration);
    assert_eq!(s.action, "get_current");
}
