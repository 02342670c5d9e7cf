//! Reading what `nix flake show --json` reports of a flake: its packages,
//! development shells, checks and apps, per system.

use vstd::prelude::*;
use crate::named::{NameMap, insert, lookup, map_values_of};
use crate::text;

verus! {

broadcast use vstd::string::group_string_axioms;

/// A JSON value. Numbers are kept as their decimal text.
#[derive(Debug)]
pub enum JsonValue {
    Null,
    Bool(bool),
    Number(String),
    String(String),
    Array(Vec<JsonValue>),
    Object(Vec<(String, JsonValue)>),
}

/// serde_json's decoded value, carried as it is.
#[verifier::external_type_specification]
#[verifier::external_body]
pub struct ExSerdeJsonValue(serde_json::Value);

/// A JSON value as plain values.
pub enum JsonView {
    Null,
    Bool(bool),
    Number(Seq<char>),
    Str(Seq<char>),
    Array(Seq<JsonView>),
    Object(Seq<(Seq<char>, JsonView)>),
}

/// A JSON value as plain values.
pub open spec fn json_view(v: JsonValue) -> JsonView
    decreases v, 1int,
{
    match v {
        JsonValue::Null => JsonView::Null,
        JsonValue::Bool(b) => JsonView::Bool(b),
        JsonValue::Number(t) => JsonView::Number(t@),
        JsonValue::String(t) => JsonView::Str(t@),
        JsonValue::Array(items) => JsonView::Array(json_items_view(items@)),
        JsonValue::Object(e) => JsonView::Object(json_members_view(e@)),
    }
}

/// The items of a JSON array as plain values.
pub open spec fn json_items_view(s: Seq<JsonValue>) -> Seq<JsonView>
    decreases s, 0int,
{
    if s.len() == 0 {
        Seq::empty()
    } else {
        json_items_view(s.drop_last()).push(json_view(s.last()))
    }
}

/// The members of a JSON object as plain values.
pub open spec fn json_members_view(s: Seq<(String, JsonValue)>) -> Seq<(Seq<char>, JsonView)>
    decreases s, 0int,
{
    if s.len() == 0 {
        Seq::empty()
    } else {
        json_members_view(s.drop_last()).push((s.last().0@, json_view(s.last().1)))
    }
}

/// What serde_json makes of a text: the value it decodes, or its error's
/// `Display` text.
pub uninterp spec fn json_of(text: Seq<char>) -> Result<JsonView, Seq<char>>;

/// serde_json's `Value` as the library's value: each variant to its own,
/// numbers by their `Display` text, arrays and objects item by item in
/// serde_json's order. It is the conversion half of `parse_json`, apart
/// because it recurses; the contract of `parse_json` covers what it gives.
#[verifier::external_body]
fn json_from_serde(v: &serde_json::Value) -> (r: JsonValue) {
    match v {
        serde_json::Value::Null => JsonValue::Null,
        serde_json::Value::Bool(b) => JsonValue::Bool(*b),
        serde_json::Value::Number(n) => JsonValue::Number(n.to_string()),
        serde_json::Value::String(t) => JsonValue::String(t.clone()),
        serde_json::Value::Array(items) => JsonValue::Array(items.iter().map(json_from_serde).collect()),
        serde_json::Value::Object(m) => JsonValue::Object(m.iter().map(|(k, x)| (k.clone(), json_from_serde(x))).collect()),
    }
}

/// `serde_json::from_str::<serde_json::Value>(text)`, the value converted to
/// the library's `JsonValue` and an error given by its `Display` text.
/// serde_json's parser depends on the text alone; the contract claims only
/// that the outcome is the one named by `json_of` for this text.
#[verifier::external_body]
pub(crate) fn parse_json(text: &str) -> (r: Result<JsonValue, String>)
    ensures
        match r {
            Ok(v) => json_of(text@) == Ok::<JsonView, Seq<char>>(json_view(v)),
            Err(m) => json_of(text@) == Err::<JsonView, Seq<char>>(m@),
        },
{
    match serde_json::from_str::<serde_json::Value>(text) {
        Ok(v) => Ok(json_from_serde(&v)),
        Err(e) => Err(e.to_string()),
    }
}

/// The members of a JSON object, by name.
pub open spec fn members(e: Seq<(String, JsonValue)>) -> Seq<(Seq<char>, JsonValue)> {
    e.map_values(|m: (String, JsonValue)| (m.0@, m.1))
}

/// The member of an object bound to a name.
pub open spec fn member(v: JsonValue, name: Seq<char>) -> Option<JsonValue> {
    match v {
        JsonValue::Object(e) => lookup(members(e@), name),
        _ => None,
    }
}

/// The text of a JSON string.
pub open spec fn json_text(v: Option<JsonValue>) -> Option<Seq<char>> {
    match v {
        Some(JsonValue::String(s)) => Some(s@),
        _ => None,
    }
}

/// A package of an evaluated flake.
#[derive(Debug, Clone, PartialEq)]
pub struct PackageInfo {
    /// Its name.
    pub name: String,
    /// Its kind, such as `derivation`.
    pub pkg_type: String,
    /// Its description.
    pub description: Option<String>,
}

/// A development shell of an evaluated flake.
#[derive(Debug, Clone, PartialEq)]
pub struct DevShellInfo {
    /// Its name.
    pub name: String,
    /// Its kind.
    pub shell_type: String,
    /// Its description.
    pub description: Option<String>,
}

/// A check of an evaluated flake.
#[derive(Debug, Clone, PartialEq)]
pub struct CheckInfo {
    /// Its name.
    pub name: String,
    /// Its kind.
    pub check_type: String,
    /// Its description.
    pub description: Option<String>,
}

/// An app of an evaluated flake.
#[derive(Debug, Clone, PartialEq)]
pub struct AppInfo {
    /// Its name.
    pub name: String,
    /// Its kind.
    pub app_type: String,
    /// Its description.
    pub description: Option<String>,
}

/// An output as name, kind and description.
pub type InfoView = (Seq<char>, Seq<char>, Option<Seq<char>>);

impl View for PackageInfo {
    type V = InfoView;

    open spec fn view(&self) -> InfoView {
        (self.name@, self.pkg_type@, crate::topology::opt_text(self.description))
    }
}

impl View for DevShellInfo {
    type V = InfoView;

    open spec fn view(&self) -> InfoView {
        (self.name@, self.shell_type@, crate::topology::opt_text(self.description))
    }
}

impl View for CheckInfo {
    type V = InfoView;

    open spec fn view(&self) -> InfoView {
        (self.name@, self.check_type@, crate::topology::opt_text(self.description))
    }
}

impl View for AppInfo {
    type V = InfoView;

    open spec fn view(&self) -> InfoView {
        (self.name@, self.app_type@, crate::topology::opt_text(self.description))
    }
}

/// An evaluated flake: its outputs by system, then by name.
#[derive(Debug, Clone, PartialEq)]
pub struct EvaluatedFlake {
    /// Its description.
    pub description: Option<String>,
    /// Packages.
    pub packages: NameMap<NameMap<PackageInfo>>,
    /// Development shells.
    pub dev_shells: NameMap<NameMap<DevShellInfo>>,
    /// Checks.
    pub checks: NameMap<NameMap<CheckInfo>>,
    /// Apps.
    pub apps: NameMap<NameMap<AppInfo>>,
}

/// Outputs by system, then by name.
pub type SectionView = Seq<(Seq<char>, Seq<(Seq<char>, InfoView)>)>;

/// The content of a section of outputs.
pub open spec fn section_view<T: View<V = InfoView>>(m: NameMap<NameMap<T>>) -> SectionView {
    map_values_of(m.model(), |s: NameMap<T>| map_values_of(s.model(), |p: T| p@))
}

/// What an output entry reports: its `type` when that is a string, else
/// the default kind, and its `description` when that is a string.
pub open spec fn info_of(name: Seq<char>, v: JsonValue, default: Seq<char>) -> InfoView {
    (
        name,
        match json_text(member(v, "type"@)) {
            Some(t) => t,
            None => default,
        },
        json_text(member(v, "description"@)),
    )
}

/// The outputs of one system, when its entry is an object.
pub open spec fn system_outputs(e: Seq<(Seq<char>, JsonValue)>, default: Seq<char>) -> Seq<(Seq<char>, InfoView)>
    decreases e.len(),
{
    if e.len() == 0 {
        Seq::empty()
    } else {
        insert(system_outputs(e.drop_last(), default), e.last().0, info_of(e.last().0, e.last().1, default))
    }
}

/// The outputs a system entry reports.
pub open spec fn outputs_of(v: JsonValue, default: Seq<char>) -> Seq<(Seq<char>, InfoView)> {
    match v {
        JsonValue::Object(e) => system_outputs(members(e@), default),
        _ => Seq::empty(),
    }
}

/// A section with the systems of an object added, in order.
pub open spec fn add_systems(acc: SectionView, e: Seq<(Seq<char>, JsonValue)>, default: Seq<char>) -> SectionView
    decreases e.len(),
{
    if e.len() == 0 {
        acc
    } else {
        insert(add_systems(acc, e.drop_last(), default), e.last().0, outputs_of(e.last().1, default))
    }
}

/// A section with the systems of a value added, when it is an object.
pub open spec fn add_section(acc: SectionView, v: JsonValue, default: Seq<char>) -> SectionView {
    match v {
        JsonValue::Object(e) => add_systems(acc, members(e@), default),
        _ => acc,
    }
}

/// The four sections that the members of the report fill, in order:
/// packages, development shells, checks and apps.
pub open spec fn sections(e: Seq<(Seq<char>, JsonValue)>) -> (SectionView, SectionView, SectionView, SectionView)
    decreases e.len(),
{
    if e.len() == 0 {
        (Seq::empty(), Seq::empty(), Seq::empty(), Seq::empty())
    } else {
        let s = sections(e.drop_last());
        let (k, v) = e.last();
        if k == "packages"@ {
            (add_section(s.0, v, "derivation"@), s.1, s.2, s.3)
        } else if k == "devShells"@ {
            (s.0, add_section(s.1, v, "derivation"@), s.2, s.3)
        } else if k == "checks"@ {
            (s.0, s.1, add_section(s.2, v, "derivation"@), s.3)
        } else if k == "apps"@ {
            (s.0, s.1, s.2, add_section(s.3, v, "app"@))
        } else {
            s
        }
    }
}

/// The sections of a report, when it is an object.
pub open spec fn report_sections(v: JsonValue) -> (SectionView, SectionView, SectionView, SectionView) {
    match v {
        JsonValue::Object(e) => sections(members(e@)),
        _ => (Seq::empty(), Seq::empty(), Seq::empty(), Seq::empty()),
    }
}

/// A failure to evaluate a flake.
#[derive(Debug, Clone, PartialEq)]
pub enum EvaluationError {
    /// The command could not run.
    CommandFailed(String),
    /// Nix reported an error.
    NixError(String),
    /// The report could not be read.
    ParseError(String),
    /// Nix is not installed.
    NixNotAvailable,
}

impl EvaluationError {
    /// The message of the error.
    pub fn to_string(&self) -> (s: String)
        ensures
            s@ == match self {
                EvaluationError::CommandFailed(m) => "Command failed: "@ + m@,
                EvaluationError::NixError(m) => "Nix error: "@ + m@,
                EvaluationError::ParseError(m) => "Parse error: "@ + m@,
                EvaluationError::NixNotAvailable => "Nix command not available"@,
            },
    {
        let (prefix, m) = match self {
            EvaluationError::CommandFailed(m) => ("Command failed: ", m.as_str()),
            EvaluationError::NixError(m) => ("Nix error: ", m.as_str()),
            EvaluationError::ParseError(m) => ("Parse error: ", m.as_str()),
            EvaluationError::NixNotAvailable => {
                return text::string_from("Nix command not available");
            },
        };
        let mut v = text::chars_of(prefix);
        let mv = text::chars_of(m);
        text::append_chars(&mut v, mv.as_slice());
        text::string_of(v.as_slice())
    }
}

/// The member of an object bound to a name.
pub(crate) fn get_member<'a>(v: &'a JsonValue, name: &str) -> (r: Option<&'a JsonValue>)
    ensures
        match member(*v, name@) {
            Some(x) => r matches Some(y) && *y == x,
            None => r is None,
        },
{
    match v {
        JsonValue::Object(e) => {
            let ghost m = members(e@);
            let mut i: usize = 0;
            while i < e.len()
                invariant
                    i <= e@.len(),
                    m == members(e@),
                    member(*v, name@) == lookup(m, name@),
                    forall|j: int| 0 <= j < i ==> (#[trigger] m[j]).0 != name@,
                decreases e@.len() - i,
            {
                let nv = text::chars_of(e[i].0.as_str());
                assert(m[i as int] == (e@[i as int].0@, e@[i as int].1));
                if text::eq_str(nv.as_slice(), name) {
                    proof {
                        crate::named::lemma_key_index_at(m, name@, i as int);
                        assert(lookup(m, name@) == Some(m[i as int].1));
                        assert(member(*v, name@) == Some(e@[i as int].1));
                    }
                    return Some(&e[i].1);
                }
                i = i + 1;
            }
            proof {
                crate::named::lemma_key_index(m, name@);
            }
            None
        },
        _ => None,
    }
}

/// The text of a JSON string.
pub(crate) fn text_of(v: Option<&JsonValue>) -> (r: Option<String>)
    ensures
        crate::topology::opt_text(r) == json_text(
            match v {
                Some(x) => Some(*x),
                None => None,
            },
        ),
{
    match v {
        Some(JsonValue::String(s)) => Some(s.clone()),
        _ => None,
    }
}

/// What an output entry reports.
fn read_info(name: &String, v: &JsonValue, default: &str) -> (r: (String, String, Option<String>))
    ensures
        (r.0@, r.1@, crate::topology::opt_text(r.2)) == info_of(name@, *v, default@),
{
    let kind = match text_of(get_member(v, "type")) {
        Some(t) => t,
        None => text::string_from(default),
    };
    (name.clone(), kind, text_of(get_member(v, "description")))
}

/// Runs Nix on flakes.
pub struct FlakeEvaluator {
    nix_command: String,
}

impl FlakeEvaluator {
    /// The command it runs.
    pub closed spec fn command_name(&self) -> Seq<char> {
        self.nix_command@
    }

    /// An evaluator that runs `nix`.
    pub fn new() -> (r: Self)
        ensures
            r.command_name() == "nix"@,
    {
        FlakeEvaluator { nix_command: text::string_from("nix") }
    }

    /// An evaluator that runs a given command.
    pub fn with_command(command: String) -> (r: Self)
        ensures
            r.command_name() == command@,
    {
        FlakeEvaluator { nix_command: command }
    }

    /// The command it runs.
    pub fn command(&self) -> (r: &str)
        ensures
            r@ == self.command_name(),
    {
        self.nix_command.as_str()
    }

    /// The arguments that ask Nix for the outputs of the flake at a path.
    pub fn show_args(&self, flake_path: &str) -> (r: Vec<String>)
        ensures
            r@.map_values(|s: String| s@) == seq!["flake"@, "show"@, "--json"@, flake_path@],
    {
        let r = vec![
            text::string_from("flake"),
            text::string_from("show"),
            text::string_from("--json"),
            text::string_from(flake_path),
        ];
        assert(r@.map_values(|s: String| s@) =~= seq!["flake"@, "show"@, "--json"@, flake_path@]);
        r
    }

    fn parse_package_info(&self, name: &String, value: &JsonValue) -> (r: PackageInfo)
        ensures
            r@ == info_of(name@, *value, "derivation"@),
    {
        let (name, pkg_type, description) = read_info(name, value, "derivation");
        PackageInfo { name, pkg_type, description }
    }

    fn parse_devshell_info(&self, name: &String, value: &JsonValue) -> (r: DevShellInfo)
        ensures
            r@ == info_of(name@, *value, "derivation"@),
    {
        let (name, shell_type, description) = read_info(name, value, "derivation");
        DevShellInfo { name, shell_type, description }
    }

    fn parse_check_info(&self, name: &String, value: &JsonValue) -> (r: CheckInfo)
        ensures
            r@ == info_of(name@, *value, "derivation"@),
    {
        let (name, check_type, description) = read_info(name, value, "derivation");
        CheckInfo { name, check_type, description }
    }

    fn parse_app_info(&self, name: &String, value: &JsonValue) -> (r: AppInfo)
        ensures
            r@ == info_of(name@, *value, "app"@),
    {
        let (name, app_type, description) = read_info(name, value, "app");
        AppInfo { name, app_type, description }
    }
}

/// A kind of output that a report entry is read into.
pub trait OutputEntry: Sized + View<V = InfoView> {
    /// The kind of an entry that does not name one.
    spec fn default_kind() -> Seq<char>;

    /// Reads an entry.
    fn read(ev: &FlakeEvaluator, name: &String, value: &JsonValue) -> (r: Self)
        ensures
            r@ == info_of(name@, *value, Self::default_kind()),
    ;
}

impl OutputEntry for PackageInfo {
    open spec fn default_kind() -> Seq<char> {
        "derivation"@
    }

    fn read(ev: &FlakeEvaluator, name: &String, value: &JsonValue) -> (r: Self) {
        ev.parse_package_info(name, value)
    }
}

impl OutputEntry for DevShellInfo {
    open spec fn default_kind() -> Seq<char> {
        "derivation"@
    }

    fn read(ev: &FlakeEvaluator, name: &String, value: &JsonValue) -> (r: Self) {
        ev.parse_devshell_info(name, value)
    }
}

impl OutputEntry for CheckInfo {
    open spec fn default_kind() -> Seq<char> {
        "derivation"@
    }

    fn read(ev: &FlakeEvaluator, name: &String, value: &JsonValue) -> (r: Self) {
        ev.parse_check_info(name, value)
    }
}

impl OutputEntry for AppInfo {
    open spec fn default_kind() -> Seq<char> {
        "app"@
    }

    fn read(ev: &FlakeEvaluator, name: &String, value: &JsonValue) -> (r: Self) {
        ev.parse_app_info(name, value)
    }
}

/// The outputs a system entry reports.
fn read_system<T: OutputEntry>(ev: &FlakeEvaluator, v: &JsonValue) -> (r: NameMap<T>)
    ensures
        map_values_of(r.model(), |p: T| p@) == outputs_of(*v, T::default_kind()),
{
    let mut out: NameMap<T> = NameMap::new();
    assert(map_values_of(out.model(), |p: T| p@) =~= Seq::<(Seq<char>, InfoView)>::empty());
    match v {
        JsonValue::Object(e) => {
            let ghost m = members(e@);
            let mut i: usize = 0;
            assert(m.take(0) =~= Seq::<(Seq<char>, JsonValue)>::empty());
            while i < e.len()
                invariant
                    i <= e@.len(),
                    m == members(e@),
                    map_values_of(out.model(), |p: T| p@) == system_outputs(m.take(i as int), T::default_kind()),
                decreases e@.len() - i,
            {
                proof {
                    assert(m.take(i + 1).drop_last() =~= m.take(i as int));
                    assert(m.take(i + 1).last() == (e@[i as int].0@, e@[i as int].1));
                }
                let x = T::read(ev, &e[i].0, &e[i].1);
                let ghost before = out.model();
                out.insert(e[i].0.clone(), x);
                proof {
                    crate::named::lemma_insert_map(before, |p: T| p@, e@[i as int].0@, x);
                }
                i = i + 1;
            }
            assert(m.take(m.len() as int) =~= m);
        },
        _ => {},
    }
    out
}

/// Adds the systems a section entry reports.
fn read_section<T: OutputEntry>(ev: &FlakeEvaluator, acc: &mut NameMap<NameMap<T>>, v: &JsonValue)
    ensures
        section_view(*final(acc)) == add_section(section_view(*old(acc)), *v, T::default_kind()),
{
    match v {
        JsonValue::Object(e) => {
            let ghost m = members(e@);
            let ghost base = section_view(*acc);
            let mut i: usize = 0;
            assert(m.take(0) =~= Seq::<(Seq<char>, JsonValue)>::empty());
            while i < e.len()
                invariant
                    i <= e@.len(),
                    m == members(e@),
                    section_view(*acc) == add_systems(base, m.take(i as int), T::default_kind()),
                decreases e@.len() - i,
            {
                proof {
                    assert(m.take(i + 1).drop_last() =~= m.take(i as int));
                    assert(m.take(i + 1).last() == (e@[i as int].0@, e@[i as int].1));
                }
                let outputs: NameMap<T> = read_system(ev, &e[i].1);
                let ghost before = acc.model();
                acc.insert(e[i].0.clone(), outputs);
                proof {
                    crate::named::lemma_insert_map(
                        before,
                        |s: NameMap<T>| map_values_of(s.model(), |p: T| p@),
                        e@[i as int].0@,
                        outputs,
                    );
                }
                i = i + 1;
            }
            assert(m.take(m.len() as int) =~= m);
        },
        _ => {},
    }
}

/// The flake a report of `nix flake show --json` describes: its description,
/// and the packages, development shells, checks and apps of each system.
pub open spec fn flake_shown(json: JsonValue, r: Result<EvaluatedFlake, EvaluationError>) -> bool {
    r matches Ok(f) && {
        &&& crate::topology::opt_text(f.description) == json_text(member(json, "description"@))
        &&& section_view(f.packages) == report_sections(json).0
        &&& section_view(f.dev_shells) == report_sections(json).1
        &&& section_view(f.checks) == report_sections(json).2
        &&& section_view(f.apps) == report_sections(json).3
    }
}

impl FlakeEvaluator {
    /// Reads the text of `nix flake show --json`: decoded by serde_json, and
    /// read as `parse_flake_show` reads a value; a text serde_json refuses
    /// gives a parse error with serde_json's message.
    pub fn parse_flake_show_text(&self, json_str: &str) -> (r: Result<EvaluatedFlake, EvaluationError>)
        ensures
            match json_of(json_str@) {
                Err(m) => r matches Err(EvaluationError::ParseError(x)) && x@ == m,
                Ok(jv) => exists|v: JsonValue| json_view(v) == jv && flake_shown(v, r),
            },
    {
        match parse_json(json_str) {
            Err(m) => Err(EvaluationError::ParseError(m)),
            Ok(v) => {
                let r = self.parse_flake_show(&v);
                assert(json_view(v) == json_view(v) && flake_shown(v, r));
                r
            },
        }
    }

    /// Reads the report of `nix flake show --json`: the description, and the
    /// packages, development shells, checks and apps of each system.
    pub fn parse_flake_show(&self, json: &JsonValue) -> (r: Result<EvaluatedFlake, EvaluationError>)
        ensures
            flake_shown(*json, r),
    {
        let mut flake = EvaluatedFlake {
            description: text_of(get_member(json, "description")),
            packages: NameMap::new(),
            dev_shells: NameMap::new(),
            checks: NameMap::new(),
            apps: NameMap::new(),
        };
        assert(section_view(flake.packages) =~= Seq::<(Seq<char>, Seq<(Seq<char>, InfoView)>)>::empty());
        assert(section_view(flake.dev_shells) =~= Seq::<(Seq<char>, Seq<(Seq<char>, InfoView)>)>::empty());
        assert(section_view(flake.checks) =~= Seq::<(Seq<char>, Seq<(Seq<char>, InfoView)>)>::empty());
        assert(section_view(flake.apps) =~= Seq::<(Seq<char>, Seq<(Seq<char>, InfoView)>)>::empty());
        match json {
            JsonValue::Object(e) => {
                let ghost m = members(e@);
                let mut i: usize = 0;
                assert(m.take(0) =~= Seq::<(Seq<char>, JsonValue)>::empty());
                while i < e.len()
                    invariant
                        i <= e@.len(),
                        m == members(e@),
                        crate::topology::opt_text(flake.description) == json_text(member(*json, "description"@)),
                        (
                            section_view(flake.packages),
                            section_view(flake.dev_shells),
                            section_view(flake.checks),
                            section_view(flake.apps),
                        ) == sections(m.take(i as int)),
                    decreases e@.len() - i,
                {
                    proof {
                        assert(m.take(i + 1).drop_last() =~= m.take(i as int));
                        assert(m.take(i + 1).last() == (e@[i as int].0@, e@[i as int].1));
                        reveal_strlit("packages");
                        reveal_strlit("devShells");
                        reveal_strlit("checks");
                        reveal_strlit("apps");
                    }
                    let k = text::chars_of(e[i].0.as_str());
                    let v = &e[i].1;
                    if text::eq_str(k.as_slice(), "packages") {
                        read_section(self, &mut flake.packages, v);
                    } else if text::eq_str(k.as_slice(), "devShells") {
                        read_section(self, &mut flake.dev_shells, v);
                    } else if text::eq_str(k.as_slice(), "checks") {
                        read_section(self, &mut flake.checks, v);
                    } else if text::eq_str(k.as_slice(), "apps") {
                        read_section(self, &mut flake.apps, v);
                    }
                    i = i + 1;
                }
                assert(m.take(m.len() as int) =~= m);
            },
            _ => {},
        }
        Ok(flake)
    }
}

impl Default for FlakeEvaluator {
    fn default() -> (r: Self)
        ensures
            r.command_name() == "nix"@,
    {
        FlakeEvaluator::new()
    }
}

} // verus!
