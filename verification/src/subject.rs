//! NATS subjects of the Nix domain.
//!
//! Subjects follow the CIM convention `nix.{cmd|event|query}.{aggregate}.{action}`.

use vstd::prelude::*;
use crate::text;

verus! {

broadcast use vstd::string::group_string_axioms;

/// Aggregate types in the Nix domain.
#[derive(Debug, Clone, Copy, PartialEq, Eq, Structural)]
pub enum Aggregate {
    Flake,
    Package,
    Module,
    Overlay,
    Configuration,
}

/// Message kinds of the CIM conventions.
#[derive(Debug, Clone, Copy, PartialEq, Eq, Structural)]
pub enum MessageType {
    Command,
    Event,
    Query,
}

/// Command actions of each aggregate.
#[derive(Debug, Clone, Copy, PartialEq, Eq, Structural)]
pub enum CommandAction {
    CreateFlake,
    UpdateFlake,
    AddFlakeInput,
    RemoveFlakeInput,
    BuildPackage,
    CachePackage,
    CreateModule,
    UpdateModule,
    DeleteModule,
    CreateOverlay,
    UpdateOverlay,
    DeleteOverlay,
    CreateConfiguration,
    UpdateConfiguration,
    ActivateConfiguration,
    RollbackConfiguration,
}

/// Event actions (past tense of the commands).
#[derive(Debug, Clone, Copy, PartialEq, Eq, Structural)]
pub enum EventAction {
    FlakeCreated,
    FlakeUpdated,
    FlakeInputAdded,
    FlakeInputRemoved,
    PackageBuilt,
    PackageCached,
    ModuleCreated,
    ModuleUpdated,
    ModuleDeleted,
    OverlayCreated,
    OverlayUpdated,
    OverlayDeleted,
    ConfigurationCreated,
    ConfigurationUpdated,
    ConfigurationActivated,
    ConfigurationRolledBack,
}

/// Query actions.
#[derive(Debug, Clone, Copy, PartialEq, Eq, Structural)]
pub enum QueryAction {
    GetFlake,
    ListFlakes,
    GetFlakeInputs,
    GetPackage,
    ListPackages,
    GetBuildStatus,
    GetModule,
    ListModules,
    GetOverlay,
    ListOverlays,
    GetConfiguration,
    ListConfigurations,
    GetCurrentConfiguration,
    GetConfigurationHistory,
}

/// The name of an aggregate inside a subject.
pub open spec fn aggregate_name(a: Aggregate) -> Seq<char> {
    match a {
        Aggregate::Flake => "flake"@,
        Aggregate::Package => "package"@,
        Aggregate::Module => "module"@,
        Aggregate::Overlay => "overlay"@,
        Aggregate::Configuration => "config"@,
    }
}

/// The name of a message type inside a subject.
pub open spec fn message_type_name(m: MessageType) -> Seq<char> {
    match m {
        MessageType::Command => "cmd"@,
        MessageType::Event => "event"@,
        MessageType::Query => "query"@,
    }
}

/// The action name of a command.
pub open spec fn command_name(a: CommandAction) -> Seq<char> {
    match a {
        CommandAction::CreateFlake => "create"@,
        CommandAction::UpdateFlake => "update"@,
        CommandAction::AddFlakeInput => "add_input"@,
        CommandAction::RemoveFlakeInput => "remove_input"@,
        CommandAction::BuildPackage => "build"@,
        CommandAction::CachePackage => "cache"@,
        CommandAction::CreateModule => "create"@,
        CommandAction::UpdateModule => "update"@,
        CommandAction::DeleteModule => "delete"@,
        CommandAction::CreateOverlay => "create"@,
        CommandAction::UpdateOverlay => "update"@,
        CommandAction::DeleteOverlay => "delete"@,
        CommandAction::CreateConfiguration => "create"@,
        CommandAction::UpdateConfiguration => "update"@,
        CommandAction::ActivateConfiguration => "activate"@,
        CommandAction::RollbackConfiguration => "rollback"@,
    }
}

/// The aggregate a command acts on.
pub open spec fn command_aggregate(a: CommandAction) -> Aggregate {
    match a {
        CommandAction::CreateFlake
        | CommandAction::UpdateFlake
        | CommandAction::AddFlakeInput
        | CommandAction::RemoveFlakeInput => Aggregate::Flake,
        CommandAction::BuildPackage | CommandAction::CachePackage => Aggregate::Package,
        CommandAction::CreateModule
        | CommandAction::UpdateModule
        | CommandAction::DeleteModule => Aggregate::Module,
        CommandAction::CreateOverlay
        | CommandAction::UpdateOverlay
        | CommandAction::DeleteOverlay => Aggregate::Overlay,
        CommandAction::CreateConfiguration
        | CommandAction::UpdateConfiguration
        | CommandAction::ActivateConfiguration
        | CommandAction::RollbackConfiguration => Aggregate::Configuration,
    }
}

/// The action name of an event.
pub open spec fn event_name(a: EventAction) -> Seq<char> {
    match a {
        EventAction::FlakeCreated => "created"@,
        EventAction::FlakeUpdated => "updated"@,
        EventAction::FlakeInputAdded => "input_added"@,
        EventAction::FlakeInputRemoved => "input_removed"@,
        EventAction::PackageBuilt => "built"@,
        EventAction::PackageCached => "cached"@,
        EventAction::ModuleCreated => "created"@,
        EventAction::ModuleUpdated => "updated"@,
        EventAction::ModuleDeleted => "deleted"@,
        EventAction::OverlayCreated => "created"@,
        EventAction::OverlayUpdated => "updated"@,
        EventAction::OverlayDeleted => "deleted"@,
        EventAction::ConfigurationCreated => "created"@,
        EventAction::ConfigurationUpdated => "updated"@,
        EventAction::ConfigurationActivated => "activated"@,
        EventAction::ConfigurationRolledBack => "rolled_back"@,
    }
}

/// The aggregate an event concerns.
pub open spec fn event_aggregate(a: EventAction) -> Aggregate {
    match a {
        EventAction::FlakeCreated
        | EventAction::FlakeUpdated
        | EventAction::FlakeInputAdded
        | EventAction::FlakeInputRemoved => Aggregate::Flake,
        EventAction::PackageBuilt | EventAction::PackageCached => Aggregate::Package,
        EventAction::ModuleCreated
        | EventAction::ModuleUpdated
        | EventAction::ModuleDeleted => Aggregate::Module,
        EventAction::OverlayCreated
        | EventAction::OverlayUpdated
        | EventAction::OverlayDeleted => Aggregate::Overlay,
        EventAction::ConfigurationCreated
        | EventAction::ConfigurationUpdated
        | EventAction::ConfigurationActivated
        | EventAction::ConfigurationRolledBack => Aggregate::Configuration,
    }
}

/// The action name of a query.
pub open spec fn query_name(a: QueryAction) -> Seq<char> {
    match a {
        QueryAction::GetFlake => "get"@,
        QueryAction::ListFlakes => "list"@,
        QueryAction::GetFlakeInputs => "get_inputs"@,
        QueryAction::GetPackage => "get"@,
        QueryAction::ListPackages => "list"@,
        QueryAction::GetBuildStatus => "get_status"@,
        QueryAction::GetModule => "get"@,
        QueryAction::ListModules => "list"@,
        QueryAction::GetOverlay => "get"@,
        QueryAction::ListOverlays => "list"@,
        QueryAction::GetConfiguration => "get"@,
        QueryAction::ListConfigurations => "list"@,
        QueryAction::GetCurrentConfiguration => "get_current"@,
        QueryAction::GetConfigurationHistory => "get_history"@,
    }
}

/// The aggregate a query reads.
pub open spec fn query_aggregate(a: QueryAction) -> Aggregate {
    match a {
        QueryAction::GetFlake | QueryAction::ListFlakes | QueryAction::GetFlakeInputs => Aggregate::Flake,
        QueryAction::GetPackage
        | QueryAction::ListPackages
        | QueryAction::GetBuildStatus => Aggregate::Package,
        QueryAction::GetModule | QueryAction::ListModules => Aggregate::Module,
        QueryAction::GetOverlay | QueryAction::ListOverlays => Aggregate::Overlay,
        QueryAction::GetConfiguration
        | QueryAction::ListConfigurations
        | QueryAction::GetCurrentConfiguration
        | QueryAction::GetConfigurationHistory => Aggregate::Configuration,
    }
}

impl Aggregate {
    /// The name of the aggregate inside a subject.
    pub fn as_str(&self) -> (s: &'static str)
        ensures
            s@ == aggregate_name(*self),
    {
        match self {
            Aggregate::Flake => "flake",
            Aggregate::Package => "package",
            Aggregate::Module => "module",
            Aggregate::Overlay => "overlay",
            Aggregate::Configuration => "config",
        }
    }

    /// The name of the aggregate, as its `Display` prints it.
    pub fn to_string(&self) -> (s: String)
        ensures
            s@ == aggregate_name(*self),
    {
        text::string_from(self.as_str())
    }
}

impl MessageType {
    /// The name of the message type inside a subject.
    pub fn as_str(&self) -> (s: &'static str)
        ensures
            s@ == message_type_name(*self),
    {
        match self {
            MessageType::Command => "cmd",
            MessageType::Event => "event",
            MessageType::Query => "query",
        }
    }

    /// The name of the message type, as its `Display` prints it.
    pub fn to_string(&self) -> (s: String)
        ensures
            s@ == message_type_name(*self),
    {
        text::string_from(self.as_str())
    }
}

impl CommandAction {
    /// The action name used in the command's subject.
    pub fn as_str(&self) -> (s: &'static str)
        ensures
            s@ == command_name(*self),
    {
        match self {
            CommandAction::CreateFlake => "create",
            CommandAction::UpdateFlake => "update",
            CommandAction::AddFlakeInput => "add_input",
            CommandAction::RemoveFlakeInput => "remove_input",
            CommandAction::BuildPackage => "build",
            CommandAction::CachePackage => "cache",
            CommandAction::CreateModule => "create",
            CommandAction::UpdateModule => "update",
            CommandAction::DeleteModule => "delete",
            CommandAction::CreateOverlay => "create",
            CommandAction::UpdateOverlay => "update",
            CommandAction::DeleteOverlay => "delete",
            CommandAction::CreateConfiguration => "create",
            CommandAction::UpdateConfiguration => "update",
            CommandAction::ActivateConfiguration => "activate",
            CommandAction::RollbackConfiguration => "rollback",
        }
    }

    /// The aggregate this command acts on.
    pub fn aggregate(&self) -> (a: Aggregate)
        ensures
            a == command_aggregate(*self),
    {
        match self {
            CommandAction::CreateFlake
            | CommandAction::UpdateFlake
            | CommandAction::AddFlakeInput
            | CommandAction::RemoveFlakeInput => Aggregate::Flake,
            CommandAction::BuildPackage | CommandAction::CachePackage => Aggregate::Package,
            CommandAction::CreateModule
            | CommandAction::UpdateModule
            | CommandAction::DeleteModule => Aggregate::Module,
            CommandAction::CreateOverlay
            | CommandAction::UpdateOverlay
            | CommandAction::DeleteOverlay => Aggregate::Overlay,
            CommandAction::CreateConfiguration
            | CommandAction::UpdateConfiguration
            | CommandAction::ActivateConfiguration
            | CommandAction::RollbackConfiguration => Aggregate::Configuration,
        }
    }
}

impl EventAction {
    /// The action name used in the event's subject.
    pub fn as_str(&self) -> (s: &'static str)
        ensures
            s@ == event_name(*self),
    {
        match self {
            EventAction::FlakeCreated => "created",
            EventAction::FlakeUpdated => "updated",
            EventAction::FlakeInputAdded => "input_added",
            EventAction::FlakeInputRemoved => "input_removed",
            EventAction::PackageBuilt => "built",
            EventAction::PackageCached => "cached",
            EventAction::ModuleCreated => "created",
            EventAction::ModuleUpdated => "updated",
            EventAction::ModuleDeleted => "deleted",
            EventAction::OverlayCreated => "created",
            EventAction::OverlayUpdated => "updated",
            EventAction::OverlayDeleted => "deleted",
            EventAction::ConfigurationCreated => "created",
            EventAction::ConfigurationUpdated => "updated",
            EventAction::ConfigurationActivated => "activated",
            EventAction::ConfigurationRolledBack => "rolled_back",
        }
    }

    /// The aggregate this event concerns.
    pub fn aggregate(&self) -> (a: Aggregate)
        ensures
            a == event_aggregate(*self),
    {
        match self {
            EventAction::FlakeCreated
            | EventAction::FlakeUpdated
            | EventAction::FlakeInputAdded
            | EventAction::FlakeInputRemoved => Aggregate::Flake,
            EventAction::PackageBuilt | EventAction::PackageCached => Aggregate::Package,
            EventAction::ModuleCreated
            | EventAction::ModuleUpdated
            | EventAction::ModuleDeleted => Aggregate::Module,
            EventAction::OverlayCreated
            | EventAction::OverlayUpdated
            | EventAction::OverlayDeleted => Aggregate::Overlay,
            EventAction::ConfigurationCreated
            | EventAction::ConfigurationUpdated
            | EventAction::ConfigurationActivated
            | EventAction::ConfigurationRolledBack => Aggregate::Configuration,
        }
    }
}

impl QueryAction {
    /// The action name used in the query's subject.
    pub fn as_str(&self) -> (s: &'static str)
        ensures
            s@ == query_name(*self),
    {
        match self {
            QueryAction::GetFlake => "get",
            QueryAction::ListFlakes => "list",
            QueryAction::GetFlakeInputs => "get_inputs",
            QueryAction::GetPackage => "get",
            QueryAction::ListPackages => "list",
            QueryAction::GetBuildStatus => "get_status",
            QueryAction::GetModule => "get",
            QueryAction::ListModules => "list",
            QueryAction::GetOverlay => "get",
            QueryAction::ListOverlays => "list",
            QueryAction::GetConfiguration => "get",
            QueryAction::ListConfigurations => "list",
            QueryAction::GetCurrentConfiguration => "get_current",
            QueryAction::GetConfigurationHistory => "get_history",
        }
    }

    /// The aggregate this query reads.
    pub fn aggregate(&self) -> (a: Aggregate)
        ensures
            a == query_aggregate(*self),
    {
        match self {
            QueryAction::GetFlake
            | QueryAction::ListFlakes
            | QueryAction::GetFlakeInputs => Aggregate::Flake,
            QueryAction::GetPackage
            | QueryAction::ListPackages
            | QueryAction::GetBuildStatus => Aggregate::Package,
            QueryAction::GetModule | QueryAction::ListModules => Aggregate::Module,
            QueryAction::GetOverlay | QueryAction::ListOverlays => Aggregate::Overlay,
            QueryAction::GetConfiguration
            | QueryAction::ListConfigurations
            | QueryAction::GetCurrentConfiguration
            | QueryAction::GetConfigurationHistory => Aggregate::Configuration,
        }
    }
}

/// The abstract content of a subject.
pub struct SubjectView {
    pub message_type: MessageType,
    pub aggregate: Aggregate,
    pub action: Seq<char>,
}

/// A NATS subject of the Nix domain.
#[derive(Debug, Clone)]
pub struct NixSubject {
    pub message_type: MessageType,
    pub aggregate: Aggregate,
    pub action: String,
}

impl View for NixSubject {
    type V = SubjectView;

    open spec fn view(&self) -> SubjectView {
        SubjectView { message_type: self.message_type, aggregate: self.aggregate, action: self.action@ }
    }
}

/// The subject of a command.
pub open spec fn command_subject_view(a: CommandAction) -> SubjectView {
    SubjectView { message_type: MessageType::Command, aggregate: command_aggregate(a), action: command_name(a) }
}

/// The subject of an event.
pub open spec fn event_subject_view(a: EventAction) -> SubjectView {
    SubjectView { message_type: MessageType::Event, aggregate: event_aggregate(a), action: event_name(a) }
}

/// The subject of a query.
pub open spec fn query_subject_view(a: QueryAction) -> SubjectView {
    SubjectView { message_type: MessageType::Query, aggregate: query_aggregate(a), action: query_name(a) }
}

/// The text of a subject: `nix.{type}.{aggregate}.{action}`.
pub open spec fn subject_text(v: SubjectView) -> Seq<char> {
    "nix"@ + "."@ + message_type_name(v.message_type) + "."@ + aggregate_name(v.aggregate) + "."@
        + v.action
}

/// The message type named by a subject segment.
pub open spec fn message_type_of(s: Seq<char>) -> Option<MessageType> {
    if s == "cmd"@ {
        Some(MessageType::Command)
    } else if s == "event"@ {
        Some(MessageType::Event)
    } else if s == "query"@ {
        Some(MessageType::Query)
    } else {
        None
    }
}

/// The aggregate named by a subject segment.
pub open spec fn aggregate_of(s: Seq<char>) -> Option<Aggregate> {
    if s == "flake"@ {
        Some(Aggregate::Flake)
    } else if s == "package"@ {
        Some(Aggregate::Package)
    } else if s == "module"@ {
        Some(Aggregate::Module)
    } else if s == "overlay"@ {
        Some(Aggregate::Overlay)
    } else if s == "config"@ {
        Some(Aggregate::Configuration)
    } else {
        None
    }
}

/// The subject a text denotes: exactly four dot-separated segments, the
/// first `nix`, the second a message type, the third an aggregate.
pub open spec fn parse_subject(s: Seq<char>) -> Option<SubjectView> {
    let p = text::pieces(s, '.');
    if p.len() == 4 && p[0] == "nix"@ {
        match (message_type_of(p[1]), aggregate_of(p[2])) {
            (Some(m), Some(a)) => Some(SubjectView { message_type: m, aggregate: a, action: p[3] }),
            _ => None,
        }
    } else {
        None
    }
}

impl NixSubject {
    /// The subject of a command.
    pub fn command(action: CommandAction) -> (s: Self)
        ensures
            s@ == command_subject_view(action),
    {
        NixSubject {
            message_type: MessageType::Command,
            aggregate: action.aggregate(),
            action: text::string_from(action.as_str()),
        }
    }

    /// The subject of an event.
    pub fn event(action: EventAction) -> (s: Self)
        ensures
            s@ == event_subject_view(action),
    {
        NixSubject {
            message_type: MessageType::Event,
            aggregate: action.aggregate(),
            action: text::string_from(action.as_str()),
        }
    }

    /// The subject of a query.
    pub fn query(action: QueryAction) -> (s: Self)
        ensures
            s@ == query_subject_view(action),
    {
        NixSubject {
            message_type: MessageType::Query,
            aggregate: action.aggregate(),
            action: text::string_from(action.as_str()),
        }
    }

    /// The subject's text, as its `Display` prints it.
    pub fn to_string(&self) -> (s: String)
        ensures
            s@ == subject_text(self@),
    {
        let mut v: Vec<char> = Vec::new();
        text::append_str(&mut v, "nix");
        text::append_str(&mut v, ".");
        text::append_str(&mut v, self.message_type.as_str());
        text::append_str(&mut v, ".");
        text::append_str(&mut v, self.aggregate.as_str());
        text::append_str(&mut v, ".");
        text::append_str(&mut v, self.action.as_str());
        text::string_of(v.as_slice())
    }

    /// Parses a subject text; `None` unless it has exactly four segments,
    /// `nix` first, a known message type second and a known aggregate third.
    pub fn parse(subject: &str) -> (r: Option<Self>)
        ensures
            match parse_subject(subject@) {
                Some(v) => r matches Some(s) && s@ == v,
                None => r is None,
            },
    {
        let chars = text::chars_of(subject);
        let parts = text::split_char(chars.as_slice(), '.');
        proof {
            assert(text::views(parts@).len() == parts@.len());
        }
        if parts.len() != 4 {
            return None;
        }
        assert(text::views(parts@)[0] == parts@[0]@);
        assert(text::views(parts@)[1] == parts@[1]@);
        assert(text::views(parts@)[2] == parts@[2]@);
        assert(text::views(parts@)[3] == parts@[3]@);
        if !text::eq_str(parts[0].as_slice(), "nix") {
            return None;
        }
        let p1 = parts[1].as_slice();
        let message_type = if text::eq_str(p1, "cmd") {
            MessageType::Command
        } else if text::eq_str(p1, "event") {
            MessageType::Event
        } else if text::eq_str(p1, "query") {
            MessageType::Query
        } else {
            return None;
        };
        let p2 = parts[2].as_slice();
        let aggregate = if text::eq_str(p2, "flake") {
            Aggregate::Flake
        } else if text::eq_str(p2, "package") {
            Aggregate::Package
        } else if text::eq_str(p2, "module") {
            Aggregate::Module
        } else if text::eq_str(p2, "overlay") {
            Aggregate::Overlay
        } else if text::eq_str(p2, "config") {
            Aggregate::Configuration
        } else {
            return None;
        };
        Some(NixSubject { message_type, aggregate, action: text::string_of(parts[3].as_slice()) })
    }
}

/// Maps command and event type names to subjects.
pub struct SubjectMapper;

/// The command a command type name denotes.
pub open spec fn command_of_type(t: Seq<char>) -> Option<CommandAction> {
    if t == "CreateFlake"@ {
        Some(CommandAction::CreateFlake)
    } else if t == "UpdateFlake"@ {
        Some(CommandAction::UpdateFlake)
    } else if t == "AddFlakeInput"@ {
        Some(CommandAction::AddFlakeInput)
    } else if t == "BuildPackage"@ {
        Some(CommandAction::BuildPackage)
    } else if t == "CreateModule"@ {
        Some(CommandAction::CreateModule)
    } else if t == "CreateOverlay"@ {
        Some(CommandAction::CreateOverlay)
    } else if t == "CreateConfiguration"@ {
        Some(CommandAction::CreateConfiguration)
    } else if t == "ActivateConfiguration"@ {
        Some(CommandAction::ActivateConfiguration)
    } else {
        None
    }
}

/// The event an event type name denotes.
pub open spec fn event_of_type(t: Seq<char>) -> Option<EventAction> {
    if t == "FlakeCreated"@ {
        Some(EventAction::FlakeCreated)
    } else if t == "FlakeUpdated"@ {
        Some(EventAction::FlakeUpdated)
    } else if t == "FlakeInputAdded"@ {
        Some(EventAction::FlakeInputAdded)
    } else if t == "PackageBuilt"@ {
        Some(EventAction::PackageBuilt)
    } else if t == "ModuleCreated"@ {
        Some(EventAction::ModuleCreated)
    } else if t == "OverlayCreated"@ {
        Some(EventAction::OverlayCreated)
    } else if t == "ConfigurationCreated"@ {
        Some(EventAction::ConfigurationCreated)
    } else if t == "ConfigurationActivated"@ {
        Some(EventAction::ConfigurationActivated)
    } else {
        None
    }
}

/// All command actions, in declaration order.
pub open spec fn all_commands() -> Seq<CommandAction> {
    seq![
        CommandAction::CreateFlake,
        CommandAction::UpdateFlake,
        CommandAction::AddFlakeInput,
        CommandAction::RemoveFlakeInput,
        CommandAction::BuildPackage,
        CommandAction::CachePackage,
        CommandAction::CreateModule,
        CommandAction::UpdateModule,
        CommandAction::DeleteModule,
        CommandAction::CreateOverlay,
        CommandAction::UpdateOverlay,
        CommandAction::DeleteOverlay,
        CommandAction::CreateConfiguration,
        CommandAction::UpdateConfiguration,
        CommandAction::ActivateConfiguration,
        CommandAction::RollbackConfiguration,
    ]
}

/// All event actions, in declaration order.
pub open spec fn all_events() -> Seq<EventAction> {
    seq![
        EventAction::FlakeCreated,
        EventAction::FlakeUpdated,
        EventAction::FlakeInputAdded,
        EventAction::FlakeInputRemoved,
        EventAction::PackageBuilt,
        EventAction::PackageCached,
        EventAction::ModuleCreated,
        EventAction::ModuleUpdated,
        EventAction::ModuleDeleted,
        EventAction::OverlayCreated,
        EventAction::OverlayUpdated,
        EventAction::OverlayDeleted,
        EventAction::ConfigurationCreated,
        EventAction::ConfigurationUpdated,
        EventAction::ConfigurationActivated,
        EventAction::ConfigurationRolledBack,
    ]
}

/// The views of a vector of subjects.
pub open spec fn subject_views(v: Seq<NixSubject>) -> Seq<SubjectView> {
    v.map_values(|s: NixSubject| s@)
}

impl SubjectMapper {
    /// The subject of a command type name, if it is one of the mapped ones.
    pub fn command_subject(command_type: &str) -> (r: Option<NixSubject>)
        ensures
            match command_of_type(command_type@) {
                Some(a) => r matches Some(s) && s@ == command_subject_view(a),
                None => r is None,
            },
    {
        let t = text::chars_of(command_type);
        let t = t.as_slice();
        if text::eq_str(t, "CreateFlake") {
            Some(NixSubject::command(CommandAction::CreateFlake))
        } else if text::eq_str(t, "UpdateFlake") {
            Some(NixSubject::command(CommandAction::UpdateFlake))
        } else if text::eq_str(t, "AddFlakeInput") {
            Some(NixSubject::command(CommandAction::AddFlakeInput))
        } else if text::eq_str(t, "BuildPackage") {
            Some(NixSubject::command(CommandAction::BuildPackage))
        } else if text::eq_str(t, "CreateModule") {
            Some(NixSubject::command(CommandAction::CreateModule))
        } else if text::eq_str(t, "CreateOverlay") {
            Some(NixSubject::command(CommandAction::CreateOverlay))
        } else if text::eq_str(t, "CreateConfiguration") {
            Some(NixSubject::command(CommandAction::CreateConfiguration))
        } else if text::eq_str(t, "ActivateConfiguration") {
            Some(NixSubject::command(CommandAction::ActivateConfiguration))
        } else {
            None
        }
    }

    /// The subject of an event type name, if it is one of the mapped ones.
    pub fn event_subject(event_type: &str) -> (r: Option<NixSubject>)
        ensures
            match event_of_type(event_type@) {
                Some(a) => r matches Some(s) && s@ == event_subject_view(a),
                None => r is None,
            },
    {
        let t = text::chars_of(event_type);
        let t = t.as_slice();
        if text::eq_str(t, "FlakeCreated") {
            Some(NixSubject::event(EventAction::FlakeCreated))
        } else if text::eq_str(t, "FlakeUpdated") {
            Some(NixSubject::event(EventAction::FlakeUpdated))
        } else if text::eq_str(t, "FlakeInputAdded") {
            Some(NixSubject::event(EventAction::FlakeInputAdded))
        } else if text::eq_str(t, "PackageBuilt") {
            Some(NixSubject::event(EventAction::PackageBuilt))
        } else if text::eq_str(t, "ModuleCreated") {
            Some(NixSubject::event(EventAction::ModuleCreated))
        } else if text::eq_str(t, "OverlayCreated") {
            Some(NixSubject::event(EventAction::OverlayCreated))
        } else if text::eq_str(t, "ConfigurationCreated") {
            Some(NixSubject::event(EventAction::ConfigurationCreated))
        } else if text::eq_str(t, "ConfigurationActivated") {
            Some(NixSubject::event(EventAction::ConfigurationActivated))
        } else {
            None
        }
    }

    /// The subjects of all commands, for subscription.
    pub fn all_command_subjects() -> (r: Vec<NixSubject>)
        ensures
            subject_views(r@) == all_commands().map_values(|a: CommandAction| command_subject_view(a)),
    {
        let actions = [
            CommandAction::CreateFlake,
            CommandAction::UpdateFlake,
            CommandAction::AddFlakeInput,
            CommandAction::RemoveFlakeInput,
            CommandAction::BuildPackage,
            CommandAction::CachePackage,
            CommandAction::CreateModule,
            CommandAction::UpdateModule,
            CommandAction::DeleteModule,
            CommandAction::CreateOverlay,
            CommandAction::UpdateOverlay,
            CommandAction::DeleteOverlay,
            CommandAction::CreateConfiguration,
            CommandAction::UpdateConfiguration,
            CommandAction::ActivateConfiguration,
            CommandAction::RollbackConfiguration,
        ];
        assert(actions@ =~= all_commands());
        let mut r: Vec<NixSubject> = Vec::new();
        let mut i: usize = 0;
        while i < 16
            invariant
                i <= 16,
                actions@ == all_commands(),
                r.len() == i,
                all_commands().len() == 16,
                subject_views(r@) == all_commands().take(i as int).map_values(
                    |a: CommandAction| command_subject_view(a),
                ),
            decreases 16 - i,
        {
            let s = NixSubject::command(actions[i]);
            proof {
                let lhs = subject_views(r@.push(s));
                let rhs = all_commands().take(i + 1).map_values(|a: CommandAction| command_subject_view(a));
                assert(lhs.len() == rhs.len());
                assert forall|k: int| 0 <= k < lhs.len() implies lhs[k] == rhs[k] by {
                    if k < i {
                        assert(lhs[k] == subject_views(r@)[k]);
                    } else {
                        assert(actions@[k] == all_commands()[k]);
                    }
                }
                assert(lhs =~= rhs);
            }
            r.push(s);
            i = i + 1;
        }
        assert(all_commands().take(16) =~= all_commands());
        r
    }

    /// The subjects of all events, for subscription.
    pub fn all_event_subjects() -> (r: Vec<NixSubject>)
        ensures
            subject_views(r@) == all_events().map_values(|a: EventAction| event_subject_view(a)),
    {
        let actions = [
            EventAction::FlakeCreated,
            EventAction::FlakeUpdated,
            EventAction::FlakeInputAdded,
            EventAction::FlakeInputRemoved,
            EventAction::PackageBuilt,
            EventAction::PackageCached,
            EventAction::ModuleCreated,
            EventAction::ModuleUpdated,
            EventAction::ModuleDeleted,
            EventAction::OverlayCreated,
            EventAction::OverlayUpdated,
            EventAction::OverlayDeleted,
            EventAction::ConfigurationCreated,
            EventAction::ConfigurationUpdated,
            EventAction::ConfigurationActivated,
            EventAction::ConfigurationRolledBack,
        ];
        assert(actions@ =~= all_events());
        let mut r: Vec<NixSubject> = Vec::new();
        let mut i: usize = 0;
        while i < 16
            invariant
                i <= 16,
                actions@ == all_events(),
                r.len() == i,
                all_events().len() == 16,
                subject_views(r@) == all_events().take(i as int).map_values(
                    |a: EventAction| event_subject_view(a),
                ),
            decreases 16 - i,
        {
            let s = NixSubject::event(actions[i]);
            proof {
                let lhs = subject_views(r@.push(s));
                let rhs = all_events().take(i + 1).map_values(|a: EventAction| event_subject_view(a));
                assert(lhs.len() == rhs.len());
                assert forall|k: int| 0 <= k < lhs.len() implies lhs[k] == rhs[k] by {
                    if k < i {
                        assert(lhs[k] == subject_views(r@)[k]);
                    } else {
                        assert(actions@[k] == all_events()[k]);
                    }
                }
                assert(lhs =~= rhs);
            }
            r.push(s);
            i = i + 1;
        }
        assert(all_events().take(16) =~= all_events());
        r
    }
}

} // verus!

verus! {

/// Splitting `x.y` at the first dot, when `x` has no dot.
pub proof fn lemma_pieces_dot(x: Seq<char>, y: Seq<char>)
    requires
        forall|i: int| 0 <= i < x.len() ==> x[i] != '.',
    ensures
        text::pieces(x + "."@ + y, '.') == seq![x] + text::pieces(y, '.'),
{
    reveal_strlit(".");
    let s = x + "."@ + y;
    assert forall|j: int| 0 <= j < x.len() implies s[j] != '.' by {
        assert(s[j] == x[j]);
    }
    assert(s[x.len() as int] == '.');
    text::lemma_split_step(s, '.', x.len() as int);
    assert(s.take(x.len() as int) =~= x);
    assert(s.skip(x.len() as int + 1) =~= y);
}

/// Every name used in a subject segment is free of dots and is recognised
/// by the parser.
proof fn lemma_segment_names(m: MessageType, a: Aggregate)
    ensures
        forall|i: int| 0 <= i < message_type_name(m).len() ==> message_type_name(m)[i] != '.',
        forall|i: int| 0 <= i < aggregate_name(a).len() ==> aggregate_name(a)[i] != '.',
        message_type_of(message_type_name(m)) == Some(m),
        aggregate_of(aggregate_name(a)) == Some(a),
        forall|i: int| 0 <= i < "nix"@.len() ==> "nix"@[i] != '.',
{
    reveal_strlit("nix");
    reveal_strlit("cmd");
    reveal_strlit("event");
    reveal_strlit("query");
    reveal_strlit("flake");
    reveal_strlit("package");
    reveal_strlit("module");
    reveal_strlit("overlay");
    reveal_strlit("config");
    match m {
        MessageType::Command => {},
        MessageType::Event => {
            assert("event"@.len() != "cmd"@.len());
        },
        MessageType::Query => {
            assert("query"@.len() != "cmd"@.len());
            assert("query"@[0] != "event"@[0]);
        },
    }
    match a {
        Aggregate::Flake => {},
        Aggregate::Package => {
            assert("package"@.len() != "flake"@.len());
        },
        Aggregate::Module => {
            assert("module"@.len() != "flake"@.len());
            assert("module"@.len() != "package"@.len());
        },
        Aggregate::Overlay => {
            assert("overlay"@.len() != "flake"@.len());
            assert("overlay"@[0] != "package"@[0]);
            assert("overlay"@.len() != "module"@.len());
        },
        Aggregate::Configuration => {
            assert("config"@.len() != "flake"@.len());
            assert("config"@.len() != "package"@.len());
            assert("config"@[0] != "module"@[0]);
            assert("config"@.len() != "overlay"@.len());
        },
    }
}

/// Parsing the text of a subject gives the subject back, whenever its
/// action holds no dot (every action the library names is such).
pub proof fn lemma_subject_roundtrip(v: SubjectView)
    requires
        forall|i: int| 0 <= i < v.action.len() ==> v.action[i] != '.',
    ensures
        parse_subject(subject_text(v)) == Some(v),
{
    let m = message_type_name(v.message_type);
    let a = aggregate_name(v.aggregate);
    lemma_segment_names(v.message_type, v.aggregate);
    text::lemma_split_last(v.action, '.');
    lemma_pieces_dot(a, v.action);
    lemma_pieces_dot(m, a + "."@ + v.action);
    lemma_pieces_dot("nix"@, m + "."@ + a + "."@ + v.action);
    assert(subject_text(v) =~= "nix"@ + "."@ + (m + "."@ + (a + "."@ + v.action)));
    assert(m + "."@ + a + "."@ + v.action =~= m + "."@ + (a + "."@ + v.action));
    let p = text::pieces(subject_text(v), '.');
    assert(p =~= seq!["nix"@, m, a, v.action]);
}

/// The subject of every command, event and query parses back to itself.
pub proof fn lemma_named_subjects_roundtrip(c: CommandAction, e: EventAction, q: QueryAction)
    ensures
        parse_subject(subject_text(command_subject_view(c))) == Some(command_subject_view(c)),
        parse_subject(subject_text(event_subject_view(e))) == Some(event_subject_view(e)),
        parse_subject(subject_text(query_subject_view(q))) == Some(query_subject_view(q)),
{
    reveal_strlit("create");
    reveal_strlit("update");
    reveal_strlit("add_input");
    reveal_strlit("remove_input");
    reveal_strlit("build");
    reveal_strlit("cache");
    reveal_strlit("delete");
    reveal_strlit("activate");
    reveal_strlit("rollback");
    reveal_strlit("created");
    reveal_strlit("updated");
    reveal_strlit("input_added");
    reveal_strlit("input_removed");
    reveal_strlit("built");
    reveal_strlit("cached");
    reveal_strlit("deleted");
    reveal_strlit("activated");
    reveal_strlit("rolled_back");
    reveal_strlit("get");
    reveal_strlit("list");
    reveal_strlit("get_inputs");
    reveal_strlit("get_status");
    reveal_strlit("get_current");
    reveal_strlit("get_history");
    lemma_subject_roundtrip(command_subject_view(c));
    lemma_subject_roundtrip(event_subject_view(e));
    lemma_subject_roundtrip(query_subject_view(q));
}

/// Every command in the mapping table has an event in the table on the same
/// aggregate (the pairing the domain uses to answer a command).
pub proof fn lemma_command_event_same_aggregate()
    ensures
        command_aggregate(CommandAction::CreateFlake) == event_aggregate(EventAction::FlakeCreated),
        command_aggregate(CommandAction::UpdateFlake) == event_aggregate(EventAction::FlakeUpdated),
        command_aggregate(CommandAction::AddFlakeInput) == event_aggregate(
            EventAction::FlakeInputAdded,
        ),
        command_aggregate(CommandAction::BuildPackage) == event_aggregate(EventAction::PackageBuilt),
        command_aggregate(CommandAction::CreateModule) == event_aggregate(EventAction::ModuleCreated),
        command_aggregate(CommandAction::CreateOverlay) == event_aggregate(
            EventAction::OverlayCreated,
        ),
        command_aggregate(CommandAction::CreateConfiguration) == event_aggregate(
            EventAction::ConfigurationCreated,
        ),
        command_aggregate(CommandAction::ActivateConfiguration) == event_aggregate(
            EventAction::ConfigurationActivated,
        ),
{
}

} // verus!
