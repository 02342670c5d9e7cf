//! Reading a Home Manager configuration from its expression, and analysing
//! it: program dependencies, complexity and security, conflicts, and
//! suggestions.

use vstd::prelude::*;
use crate::domain_error::NixDomainError;
use crate::home_manager::{
    ComplexityScore, ConflictInfo, ConflictType, FileMapping, HomeConfiguration, Priority, ProgramAnalysis,
    ProgramConfig, ProgramView, SecurityScore, ServiceConfig, Suggestion, SuggestionType,
};
use crate::named::{NameMap, insert, lookup, map_values_of};
use crate::source_parser::{ExprView, NixExpr, NixParser, ParsedFile, expr_view, exprs_view, pairs_view};
use crate::text;
use crate::value::{NixAttrset, NixBool, NixFloat, NixInteger, NixList, NixPath, NixString, NixValue, ValueModel, values_model};

verus! {

broadcast use vstd::string::group_string_axioms;

// ---------------------------------------------------------------------------
// Reading the configuration
// ---------------------------------------------------------------------------

/// The expression at a path of attribute names.
pub open spec fn at_path(e: ExprView, path: Seq<Seq<char>>) -> Option<ExprView>
    decreases path.len(),
{
    if path.len() == 0 {
        Some(e)
    } else {
        match e {
            ExprView::AttrSet(a) => match lookup(a, path[0]) {
                Some(x) => at_path(x, path.drop_first()),
                None => None,
            },
            _ => None,
        }
    }
}

/// The value an expression denotes, when it is a string, number, boolean,
/// path, or a list of such.
pub open spec fn value_of_expr(e: ExprView) -> Option<ValueModel>
    decreases e,
{
    match e {
        ExprView::Str(s) => Some(ValueModel::Str(s)),
        ExprView::Int(i) => Some(ValueModel::Int(i)),
        ExprView::Float(f) => Some(ValueModel::Float(f)),
        ExprView::Bool(b) => Some(ValueModel::Bool(b)),
        ExprView::Path(p) => Some(ValueModel::Path(p)),
        ExprView::List(items) => match values_of_exprs(items) {
            Some(vs) => Some(ValueModel::List(vs)),
            None => None,
        },
        _ => None,
    }
}

/// The values of expressions, when each denotes one.
pub open spec fn values_of_exprs(s: Seq<ExprView>) -> Option<Seq<ValueModel>>
    decreases s,
{
    if s.len() == 0 {
        Some(Seq::empty())
    } else {
        match (values_of_exprs(s.drop_last()), value_of_expr(s.last())) {
            (Some(vs), Some(v)) => Some(vs.push(v)),
            _ => None,
        }
    }
}

/// The settings of named expressions: those that denote values, except the
/// names skipped, in order.
pub open spec fn settings_of(a: Seq<(Seq<char>, ExprView)>, skip: Option<Seq<char>>) -> Seq<(Seq<char>, ValueModel)>
    decreases a.len(),
{
    if a.len() == 0 {
        Seq::empty()
    } else {
        let rest = settings_of(a.drop_last(), skip);
        if skip == Some(a.last().0) {
            rest
        } else {
            match value_of_expr(a.last().1) {
                Some(v) => insert(rest, a.last().0, v),
                None => rest,
            }
        }
    }
}

/// A boolean bound to a name, if it is bound to one.
pub open spec fn bool_at(a: Seq<(Seq<char>, ExprView)>, name: Seq<char>) -> Option<bool> {
    match lookup(a, name) {
        Some(ExprView::Bool(b)) => Some(b),
        _ => None,
    }
}

/// The program an expression configures: `enable`, the values of its
/// `settings`, and `extraConfig`.
pub open spec fn program_of(e: ExprView) -> ProgramView {
    match e {
        ExprView::AttrSet(a) => ProgramView {
            enabled: match bool_at(a, "enable"@) {
                Some(b) => b,
                None => false,
            },
            settings: match lookup(a, "settings"@) {
                Some(ExprView::AttrSet(s)) => settings_of(s, None),
                _ => Seq::empty(),
            },
            extra_config: match lookup(a, "extraConfig"@) {
                Some(ExprView::Str(x)) => Some(x),
                _ => None,
            },
        },
        _ => ProgramView { enabled: false, settings: Seq::empty(), extra_config: None },
    }
}

/// The content of a service configuration.
pub type ServiceView = (bool, Seq<(Seq<char>, ValueModel)>);

/// The service an expression configures: `enable`, and every other
/// attribute that denotes a value.
pub open spec fn service_of(e: ExprView) -> ServiceView {
    match e {
        ExprView::AttrSet(a) => (
            match bool_at(a, "enable"@) {
                Some(b) => b,
                None => false,
            },
            settings_of(a, Some("enable"@)),
        ),
        _ => (false, Seq::empty()),
    }
}

/// The programs configured under a path, in order.
pub open spec fn programs_in(a: Seq<(Seq<char>, ExprView)>) -> Seq<(Seq<char>, ProgramView)>
    decreases a.len(),
{
    if a.len() == 0 {
        Seq::empty()
    } else {
        insert(programs_in(a.drop_last()), a.last().0, program_of(a.last().1))
    }
}

/// The services configured under a path, in order.
pub open spec fn services_in(a: Seq<(Seq<char>, ExprView)>) -> Seq<(Seq<char>, ServiceView)>
    decreases a.len(),
{
    if a.len() == 0 {
        Seq::empty()
    } else {
        insert(services_in(a.drop_last()), a.last().0, service_of(a.last().1))
    }
}

/// The source of a `home.file` entry: its `source`, a string or a path.
pub open spec fn source_of(e: ExprView) -> Option<Seq<char>> {
    match e {
        ExprView::AttrSet(a) => match lookup(a, "source"@) {
            Some(ExprView::Str(s)) => Some(s),
            Some(ExprView::Path(p)) => Some(p),
            _ => None,
        },
        _ => None,
    }
}

/// The files placed by `home.file` entries, as source and target.
pub open spec fn files_in(a: Seq<(Seq<char>, ExprView)>) -> Seq<(Seq<char>, Seq<char>)>
    decreases a.len(),
{
    if a.len() == 0 {
        Seq::empty()
    } else {
        match source_of(a.last().1) {
            Some(s) => files_in(a.drop_last()).push((s, a.last().0)),
            None => files_in(a.drop_last()),
        }
    }
}

/// The identifiers of a list, in order.
pub open spec fn idents_in(s: Seq<ExprView>) -> Seq<Seq<char>>
    decreases s.len(),
{
    if s.len() == 0 {
        Seq::empty()
    } else {
        match s.last() {
            ExprView::Ident(n) => idents_in(s.drop_last()).push(n),
            _ => idents_in(s.drop_last()),
        }
    }
}

/// The attributes at a path, when it holds an attribute set.
pub open spec fn attrs_at(e: ExprView, path: Seq<Seq<char>>) -> Seq<(Seq<char>, ExprView)> {
    match at_path(e, path) {
        Some(ExprView::AttrSet(a)) => a,
        _ => Seq::empty(),
    }
}

/// The items at a path, when it holds a list.
pub open spec fn items_at(e: ExprView, path: Seq<Seq<char>>) -> Seq<ExprView> {
    match at_path(e, path) {
        Some(ExprView::List(l)) => l,
        _ => Seq::empty(),
    }
}

/// The programs of a configuration.
pub open spec fn program_views(c: HomeConfiguration) -> Seq<(Seq<char>, ProgramView)> {
    map_values_of(c.programs.model(), |p: ProgramConfig| p@)
}

/// The services of a configuration.
pub open spec fn service_views(c: HomeConfiguration) -> Seq<(Seq<char>, ServiceView)> {
    map_values_of(c.services.model(), |s: ServiceConfig| (s.enabled, s.settings.model()))
}

/// `c` is the configuration an expression describes.
pub open spec fn describes(c: HomeConfiguration, e: ExprView) -> bool {
    &&& program_views(c) == programs_in(attrs_at(e, seq!["programs"@]))
    &&& service_views(c) == services_in(attrs_at(e, seq!["services"@]))
    &&& c.home_packages@.map_values(|s: String| s@) == idents_in(items_at(e, seq!["home"@, "packages"@]))
    &&& c.file_mappings@.map_values(|m: FileMapping| (m.source@, m.target@)) == files_in(
        attrs_at(e, seq!["home"@, "file"@]),
    )
    &&& c.home_state_version@ == "24.05"@
}

// ---------------------------------------------------------------------------
// Analysis
// ---------------------------------------------------------------------------

/// The programs a program needs.
pub open spec fn deps_of(name: Seq<char>) -> Seq<Seq<char>> {
    if name == "neovim"@ {
        seq!["ripgrep"@, "fd"@]
    } else if name == "emacs"@ {
        seq!["git"@, "ripgrep"@]
    } else if name == "tmux"@ {
        seq!["bash"@]
    } else if name == "starship"@ {
        seq!["git"@]
    } else {
        Seq::empty()
    }
}

/// The complexity of a program's configuration: one per setting, ten more
/// for configuration kept as written.
pub open spec fn complexity_of(p: ProgramView) -> u32 {
    ((p.settings.len() as u32) + if p.extra_config is Some {
        10int
    } else {
        0int
    }) as u32
}

/// The complexity can be computed without overflow.
pub open spec fn complexity_fits(p: ProgramView) -> bool {
    p.extra_config is Some ==> (p.settings.len() as u32) <= u32::MAX - 10
}

/// The security of a program's configuration: 100, less 10 for SSH without
/// a `passwordAuthentication` setting, less 20 for git without `signing`.
pub open spec fn security_of(name: Seq<char>, p: ProgramView) -> u32 {
    if name == "ssh"@ && lookup(p.settings, "passwordAuthentication"@) is None {
        90
    } else if name == "git"@ && lookup(p.settings, "signing"@) is None {
        80
    } else {
        100
    }
}

/// The content of a program analysis.
pub struct AnalysisView {
    pub name: Seq<char>,
    pub enabled: bool,
    pub dependencies: Seq<Seq<char>>,
    pub complexity: u32,
    pub security: u32,
}

/// The content of a program analysis.
pub open spec fn analysis_view(a: ProgramAnalysis) -> AnalysisView {
    AnalysisView {
        name: a.name@,
        enabled: a.enabled,
        dependencies: a.dependencies@.map_values(|s: String| s@),
        complexity: a.configuration_complexity.0,
        security: a.security_score.0,
    }
}

/// The analysis of a program.
pub open spec fn program_analysis(name: Seq<char>, p: ProgramView) -> AnalysisView {
    AnalysisView {
        name: name,
        enabled: p.enabled,
        dependencies: deps_of(name),
        complexity: complexity_of(p),
        security: security_of(name, p),
    }
}

/// The content of a conflict.
pub type ConflictView = (ConflictType, Seq<char>, Seq<Seq<char>>);

/// The content of a conflict.
pub open spec fn conflict_view(c: ConflictInfo) -> ConflictView {
    (c.conflict_type, c.description@, c.affected_items@.map_values(|s: String| s@))
}

/// Whether a program is configured and enabled.
pub open spec fn enabled_in(programs: Seq<(Seq<char>, ProgramView)>, name: Seq<char>) -> bool {
    lookup(programs, name) matches Some(p) && p.enabled
}

/// The enabled shells among bash, zsh and fish, in that order.
pub open spec fn enabled_shells(programs: Seq<(Seq<char>, ProgramView)>) -> Seq<Seq<char>> {
    (if enabled_in(programs, "bash"@) {
        seq!["bash"@]
    } else {
        Seq::empty()
    }) + (if enabled_in(programs, "zsh"@) {
        seq!["zsh"@]
    } else {
        Seq::empty()
    }) + (if enabled_in(programs, "fish"@) {
        seq!["fish"@]
    } else {
        Seq::empty()
    })
}

/// The missing dependencies of one enabled program, in order of its
/// dependencies.
pub open spec fn missing_of(
    name: Seq<char>,
    deps: Seq<Seq<char>>,
    programs: Seq<(Seq<char>, ProgramView)>,
    packages: Seq<Seq<char>>,
) -> Seq<ConflictView>
    decreases deps.len(),
{
    if deps.len() == 0 {
        Seq::empty()
    } else {
        let rest = missing_of(name, deps.drop_last(), programs, packages);
        let d = deps.last();
        if lookup(programs, d) is None && !packages.contains(d) {
            rest.push(
                (
                    ConflictType::MissingDependency,
                    name + " requires "@ + d + " but it's not configured"@,
                    seq![name, d],
                ),
            )
        } else {
            rest
        }
    }
}

/// The missing dependencies of the enabled programs among the first ones.
pub open spec fn missing_deps(
    firsts: Seq<(Seq<char>, ProgramView)>,
    programs: Seq<(Seq<char>, ProgramView)>,
    packages: Seq<Seq<char>>,
) -> Seq<ConflictView>
    decreases firsts.len(),
{
    if firsts.len() == 0 {
        Seq::empty()
    } else {
        let rest = missing_deps(firsts.drop_last(), programs, packages);
        let (name, p) = firsts.last();
        if p.enabled {
            rest + missing_of(name, deps_of(name), programs, packages)
        } else {
            rest
        }
    }
}

/// The conflicts of a configuration: more than one enabled shell, then each
/// dependency of an enabled program that is neither configured nor
/// installed.
pub open spec fn conflicts_of(programs: Seq<(Seq<char>, ProgramView)>, packages: Seq<Seq<char>>) -> Seq<ConflictView> {
    (if enabled_shells(programs).len() > 1 {
        seq![
            (ConflictType::ConflictingSettings, "Multiple shells are enabled"@, enabled_shells(programs)),
        ]
    } else {
        Seq::empty()
    }) + missing_deps(programs, programs, packages)
}

/// The content of a suggestion.
pub type SuggestionView = (SuggestionType, Seq<char>, Priority);

/// The content of a suggestion.
pub open spec fn suggestion_view(s: Suggestion) -> SuggestionView {
    (s.suggestion_type, s.description@, s.priority)
}

/// A suggestion to enable a program that is not configured.
pub open spec fn enable_suggestion(programs: Seq<(Seq<char>, ProgramView)>, name: Seq<char>) -> Seq<SuggestionView> {
    if lookup(programs, name) is None {
        seq![
            (
                SuggestionType::EnableProgram,
                "Consider enabling "@ + name + " for improved productivity"@,
                Priority::Low,
            ),
        ]
    } else {
        Seq::empty()
    }
}

/// Suggestions about programs that are disabled but configured, in order.
pub open spec fn unused_suggestions(programs: Seq<(Seq<char>, ProgramView)>) -> Seq<SuggestionView>
    decreases programs.len(),
{
    if programs.len() == 0 {
        Seq::empty()
    } else {
        let rest = unused_suggestions(programs.drop_last());
        let (name, p) = programs.last();
        if !p.enabled && p.settings.len() > 0 {
            rest.push(
                (SuggestionType::DisableUnusedProgram, name + " has configuration but is disabled"@, Priority::Low),
            )
        } else {
            rest
        }
    }
}

/// The suggestions for a configuration: useful programs that are not
/// configured, commit signing for an enabled git, and programs that are
/// configured but disabled.
pub open spec fn suggestions_of(programs: Seq<(Seq<char>, ProgramView)>) -> Seq<SuggestionView> {
    enable_suggestion(programs, "direnv"@) + enable_suggestion(programs, "starship"@) + enable_suggestion(
        programs,
        "fzf"@,
    ) + enable_suggestion(programs, "ripgrep"@) + (if lookup(programs, "git"@) matches Some(g) && g.enabled
        && lookup(g.settings, "signing"@) is None {
        seq![
            (
                SuggestionType::SecurityImprovement,
                "Enable Git commit signing for better security"@,
                Priority::Medium,
            ),
        ]
    } else {
        Seq::empty()
    }) + unused_suggestions(programs)
}

/// The program a dotfile configures, by its file name.
pub open spec fn program_of_file(name: Seq<char>) -> Option<Seq<char>> {
    if name == ".gitconfig"@ || name == "gitconfig"@ {
        Some("git"@)
    } else if name == ".vimrc"@ || name == "vimrc"@ || name == ".vim"@ {
        Some("vim"@)
    } else if name == ".bashrc"@ || name == ".bash_profile"@ {
        Some("bash"@)
    } else if name == ".zshrc"@ || name == ".zshenv"@ {
        Some("zsh"@)
    } else if name == ".tmux.conf"@ {
        Some("tmux"@)
    } else {
        None
    }
}

/// A file found in a dotfiles directory: its name, its path, and its text
/// when it could be read.
#[derive(Debug, Clone, PartialEq)]
pub struct DotfileEntry {
    /// The file name.
    pub file_name: String,
    /// The path.
    pub path: String,
    /// The text, when it could be read.
    pub content: Option<String>,
}

/// The first expression bound to a name.
fn find_bound<'a>(attrs: &'a Vec<(String, NixExpr)>, name: &str) -> (r: Option<&'a NixExpr>)
    ensures
        match lookup(pairs_view(attrs@), name@) {
            Some(v) => r matches Some(x) && expr_view(*x) == v,
            None => r is None,
        },
{
    let ghost m = pairs_view(attrs@);
    proof {
        lemma_pairs(attrs@);
    }
    let nv = text::chars_of(name);
    let mut i: usize = 0;
    while i < attrs.len()
        invariant
            i <= attrs@.len(),
            m == pairs_view(attrs@),
            m.len() == attrs@.len(),
            forall|j: int| 0 <= j < attrs@.len() ==> #[trigger] m[j] == (attrs@[j].0@, expr_view(attrs@[j].1)),
            nv@ == name@,
            forall|j: int| 0 <= j < i ==> (#[trigger] m[j]).0 != name@,
        decreases attrs@.len() - i,
    {
        let kv = text::chars_of(attrs[i].0.as_str());
        if text::eq_chars(kv.as_slice(), nv.as_slice()) {
            proof {
                crate::named::lemma_key_index_at(m, name@, i as int);
            }
            return Some(&attrs[i].1);
        }
        i = i + 1;
    }
    proof {
        crate::named::lemma_key_index(m, name@);
    }
    None
}

proof fn lemma_pairs(s: Seq<(String, NixExpr)>)
    ensures
        pairs_view(s).len() == s.len(),
        forall|i: int| 0 <= i < s.len() ==> #[trigger] pairs_view(s)[i] == (s[i].0@, expr_view(s[i].1)),
    decreases s.len(),
{
    if s.len() > 0 {
        lemma_pairs(s.drop_last());
    }
}

proof fn lemma_exprs(s: Seq<NixExpr>)
    ensures
        exprs_view(s).len() == s.len(),
        forall|i: int| 0 <= i < s.len() ==> #[trigger] exprs_view(s)[i] == expr_view(s[i]),
    decreases s.len(),
{
    if s.len() > 0 {
        lemma_exprs(s.drop_last());
    }
}

/// The text of each string.
pub open spec fn texts_of(s: Seq<String>) -> Seq<Seq<char>> {
    s.map_values(|x: String| x@)
}

/// Reads and analyses Home Manager configurations.
pub struct HomeManagerAnalyzer {
    parser: NixParser,
    config_cache: NameMap<HomeConfiguration>,
}

impl HomeManagerAnalyzer {
    /// The configurations it keeps by file.
    pub closed spec fn cached(&self) -> Seq<(Seq<char>, HomeConfiguration)> {
        self.config_cache.model()
    }

    /// An analyzer with nothing kept.
    pub fn new() -> (r: Self)
        ensures
            r.cached().len() == 0,
    {
        HomeManagerAnalyzer { parser: NixParser::new(), config_cache: NameMap::new() }
    }

    /// The value an expression denotes.
    fn expr_to_value(&self, expr: &NixExpr) -> (r: Result<NixValue, NixDomainError>)
        ensures
            match value_of_expr(expr_view(*expr)) {
                Some(v) => r matches Ok(x) && x.model() == v,
                None => r matches Err(NixDomainError::ParseError(m)) && m@ == "Unsupported expression type"@,
            },
        decreases expr, 1int,
    {
        match expr {
            NixExpr::String(s) => Ok(NixValue::String(NixString { value: s.clone() })),
            NixExpr::Int(i) => Ok(NixValue::Integer(NixInteger { value: *i })),
            NixExpr::Float(f) => Ok(NixValue::Float(NixFloat { literal: f.clone() })),
            NixExpr::Bool(b) => Ok(NixValue::Bool(NixBool { value: *b })),
            NixExpr::Path(p) => Ok(NixValue::Path(NixPath { path: p.clone() })),
            NixExpr::List(items) => match self.list_to_values(items) {
                Ok(values) => Ok(NixValue::List(NixList { elements: values })),
                Err(e) => Err(e),
            },
            _ => Err(NixDomainError::ParseError(text::string_from("Unsupported expression type"))),
        }
    }

    /// The values of a list's items, when each denotes one.
    fn list_to_values(&self, items: &Vec<NixExpr>) -> (r: Result<Vec<NixValue>, NixDomainError>)
        ensures
            match values_of_exprs(exprs_view(items@)) {
                Some(vs) => r matches Ok(x) && values_model(x@) == vs,
                None => r matches Err(NixDomainError::ParseError(m)) && m@ == "Unsupported expression type"@,
            },
        decreases items, 0int,
    {
        let ghost ev = exprs_view(items@);
        proof {
            lemma_exprs(items@);
        }
        let mut out: Vec<NixValue> = Vec::new();
        let mut i: usize = 0;
        assert(ev.take(0) =~= Seq::<ExprView>::empty());
        while i < items.len()
            invariant
                i <= items@.len(),
                ev == exprs_view(items@),
                ev.len() == items@.len(),
                forall|j: int| 0 <= j < items@.len() ==> #[trigger] ev[j] == expr_view(items@[j]),
                values_of_exprs(ev.take(i as int)) == Some(values_model(out@)),
            decreases items@.len() - i,
        {
            proof {
                assert(ev.take(i + 1).drop_last() =~= ev.take(i as int));
                assert(ev.take(i + 1).last() == expr_view(items@[i as int]));
            }
            match self.expr_to_value(&items[i]) {
                Ok(v) => {
                    let ghost before = out@;
                    out.push(v);
                    assert(out@.drop_last() =~= before);
                },
                Err(e) => {
                    proof {
                        lemma_values_fail(ev, i as int + 1);
                        assert(ev.take(ev.len() as int) =~= ev);
                    }
                    return Err(e);
                },
            }
            i = i + 1;
        }
        assert(ev.take(ev.len() as int) =~= ev);
        Ok(out)
    }

    /// The expression at a path of attribute names.
    fn find_attribute_path<'a>(&self, expr: &'a NixExpr, path: &[&str]) -> (r: Option<&'a NixExpr>)
        ensures
            match at_path(expr_view(*expr), path@.map_values(|s: &str| s@)) {
                Some(v) => r matches Some(x) && expr_view(*x) == v,
                None => r is None,
            },
    {
        let ghost ps = path@.map_values(|s: &str| s@);
        let mut current = expr;
        let mut i: usize = 0;
        assert(ps.skip(0) =~= ps);
        while i < path.len()
            invariant
                i <= path@.len(),
                ps == path@.map_values(|s: &str| s@),
                at_path(expr_view(*expr), ps) == at_path(expr_view(*current), ps.skip(i as int)),
            decreases path@.len() - i,
        {
            proof {
                assert(ps.skip(i as int).drop_first() =~= ps.skip(i + 1));
                assert(ps.skip(i as int)[0] == path@[i as int]@);
            }
            match current {
                NixExpr::AttrSet(attrs) => match find_bound(attrs, path[i]) {
                    Some(x) => {
                        current = x;
                    },
                    None => {
                        return None;
                    },
                },
                _ => {
                    return None;
                },
            }
            i = i + 1;
        }
        assert(ps.skip(ps.len() as int) =~= Seq::<Seq<char>>::empty());
        Some(current)
    }

    /// The settings of named expressions, skipping a name.
    fn settings_from(&self, attrs: &Vec<(String, NixExpr)>, skip: Option<&str>) -> (r: NixAttrset)
        ensures
            r.model() == settings_of(
                pairs_view(attrs@),
                match skip {
                    Some(k) => Some(k@),
                    None => None,
                },
            ),
    {
        let ghost pv = pairs_view(attrs@);
        let ghost sk = match skip {
            Some(k) => Some(k@),
            None => None,
        };
        proof {
            lemma_pairs(attrs@);
        }
        let mut out = NixAttrset::new();
        let mut i: usize = 0;
        assert(pv.take(0) =~= Seq::<(Seq<char>, ExprView)>::empty());
        while i < attrs.len()
            invariant
                i <= attrs@.len(),
                pv == pairs_view(attrs@),
                pv.len() == attrs@.len(),
                forall|j: int| 0 <= j < attrs@.len() ==> #[trigger] pv[j] == (attrs@[j].0@, expr_view(attrs@[j].1)),
                sk == match skip {
                    Some(k) => Some(k@),
                    None => None::<Seq<char>>,
                },
                out.model() == settings_of(pv.take(i as int), sk),
            decreases attrs@.len() - i,
        {
            proof {
                assert(pv.take(i + 1).drop_last() =~= pv.take(i as int));
                assert(pv.take(i + 1).last() == pv[i as int]);
            }
            let (k, e) = &attrs[i];
            let skipped = match skip {
                Some(sname) => {
                    let kv = text::chars_of(k.as_str());
                    text::eq_str(kv.as_slice(), sname)
                },
                None => false,
            };
            if !skipped {
                match self.expr_to_value(e) {
                    Ok(v) => out.insert(k.clone(), v),
                    Err(_) => {},
                }
            }
            i = i + 1;
        }
        assert(pv.take(pv.len() as int) =~= pv);
        out
    }

    /// The program an expression configures.
    fn extract_program_config(&self, expr: &NixExpr) -> (r: Result<ProgramConfig, NixDomainError>)
        ensures
            r matches Ok(c) && c@ == program_of(expr_view(*expr)),
    {
        let mut config = ProgramConfig::new(false);
        match expr {
            NixExpr::AttrSet(attrs) => {
                match find_bound(attrs, "enable") {
                    Some(NixExpr::Bool(enabled)) => {
                        config.enabled = *enabled;
                    },
                    _ => {},
                }
                match find_bound(attrs, "settings") {
                    Some(NixExpr::AttrSet(settings)) => {
                        config.settings = self.settings_from(settings, None);
                    },
                    _ => {},
                }
                match find_bound(attrs, "extraConfig") {
                    Some(NixExpr::String(extra)) => {
                        config.extra_config = Some(extra.clone());
                    },
                    _ => {},
                }
            },
            _ => {},
        }
        Ok(config)
    }

    /// The service an expression configures.
    fn extract_service_config(&self, expr: &NixExpr) -> (r: Result<ServiceConfig, NixDomainError>)
        ensures
            r matches Ok(c) && (c.enabled, c.settings.model()) == service_of(expr_view(*expr)),
    {
        match expr {
            NixExpr::AttrSet(attrs) => {
                let enabled = match find_bound(attrs, "enable") {
                    Some(NixExpr::Bool(e)) => *e,
                    _ => false,
                };
                let settings = self.settings_from(attrs, Some("enable"));
                Ok(ServiceConfig { enabled, settings })
            },
            _ => Ok(ServiceConfig { enabled: false, settings: NixAttrset::new() }),
        }
    }

    /// The source of a `home.file` entry.
    fn extract_file_source(&self, expr: &NixExpr) -> (r: Result<String, NixDomainError>)
        ensures
            match source_of(expr_view(*expr)) {
                Some(s) => r matches Ok(x) && x@ == s,
                None => r matches Err(NixDomainError::ParseError(m)) && m@ == "Unable to extract file source"@,
            },
    {
        match expr {
            NixExpr::AttrSet(attrs) => {
                match find_bound(attrs, "source") {
                    Some(NixExpr::String(source)) => {
                        return Ok(source.clone());
                    },
                    Some(NixExpr::Path(path)) => {
                        return Ok(path.clone());
                    },
                    _ => {},
                }
            },
            _ => {},
        }
        Err(NixDomainError::ParseError(text::string_from("Unable to extract file source")))
    }

    /// Reads the configuration a parsed file describes: its `programs`,
    /// `services`, `home.packages` and `home.file`.
    pub fn extract_home_config(&self, parsed: &ParsedFile) -> (r: Result<HomeConfiguration, NixDomainError>)
        ensures
            r matches Ok(c) && describes(c, expr_view(parsed.expr)),
    {
        let mut config = HomeConfiguration::new();
        let ghost root = expr_view(parsed.expr);
        assert(program_views(config) =~= Seq::<(Seq<char>, ProgramView)>::empty());
        assert(service_views(config) =~= Seq::<(Seq<char>, ServiceView)>::empty());
        assert(config.home_packages@.map_values(|s: String| s@) =~= Seq::<Seq<char>>::empty());
        assert(config.file_mappings@.map_values(|m: FileMapping| (m.source@, m.target@)) =~= Seq::<
            (Seq<char>, Seq<char>),
        >::empty());
        let programs_path: [&str; 1] = ["programs"];
        proof {
            assert(programs_path@.map_values(|s: &str| s@) =~= seq!["programs"@]);
        }
        match self.find_attribute_path(&parsed.expr, programs_path.as_slice()) {
            Some(NixExpr::AttrSet(attrs)) => {
                let ghost pv = pairs_view(attrs@);
                proof {
                    lemma_pairs(attrs@);
                }
                let mut i: usize = 0;
                assert(pv.take(0) =~= Seq::<(Seq<char>, ExprView)>::empty());
                while i < attrs.len()
                    invariant
                        i <= attrs@.len(),
                        pv == pairs_view(attrs@),
                        pv.len() == attrs@.len(),
                        forall|j: int| 0 <= j < attrs@.len() ==> #[trigger] pv[j] == (attrs@[j].0@, expr_view(attrs@[j].1)),
                        program_views(config) == programs_in(pv.take(i as int)),
                        service_views(config) == Seq::<(Seq<char>, ServiceView)>::empty(),
                        config.home_packages@.len() == 0,
                        config.file_mappings@.len() == 0,
                        config.home_state_version@ == "24.05"@,
                    decreases attrs@.len() - i,
                {
                    proof {
                        assert(pv.take(i + 1).drop_last() =~= pv.take(i as int));
                        assert(pv.take(i + 1).last() == pv[i as int]);
                    }
                    let (name, e) = &attrs[i];
                    match self.extract_program_config(e) {
                        Ok(pc) => {
                            let ghost before = config.programs.model();
                            config.add_program(name.clone(), pc);
                            proof {
                                crate::named::lemma_insert_map(before, |p: ProgramConfig| p@, name@, pc);
                            }
                        },
                        Err(_) => {},
                    }
                    i = i + 1;
                }
                assert(pv.take(pv.len() as int) =~= pv);
            },
            _ => {},
        }
        assert(program_views(config) == programs_in(attrs_at(root, seq!["programs"@])));
        assert(service_views(config) =~= Seq::<(Seq<char>, ServiceView)>::empty());
        assert(config.home_packages@.map_values(|s: String| s@) =~= Seq::<Seq<char>>::empty());
        assert(config.file_mappings@.map_values(|m: FileMapping| (m.source@, m.target@)) =~= Seq::<
            (Seq<char>, Seq<char>),
        >::empty());
        let services_path: [&str; 1] = ["services"];
        proof {
            assert(services_path@.map_values(|s: &str| s@) =~= seq!["services"@]);
        }
        match self.find_attribute_path(&parsed.expr, services_path.as_slice()) {
            Some(NixExpr::AttrSet(attrs)) => {
                let ghost pv = pairs_view(attrs@);
                let ghost progs = program_views(config);
                proof {
                    lemma_pairs(attrs@);
                }
                let mut i: usize = 0;
                assert(pv.take(0) =~= Seq::<(Seq<char>, ExprView)>::empty());
                while i < attrs.len()
                    invariant
                        i <= attrs@.len(),
                        pv == pairs_view(attrs@),
                        pv.len() == attrs@.len(),
                        forall|j: int| 0 <= j < attrs@.len() ==> #[trigger] pv[j] == (attrs@[j].0@, expr_view(attrs@[j].1)),
                        program_views(config) == progs,
                        service_views(config) == services_in(pv.take(i as int)),
                        config.home_packages@.len() == 0,
                        config.file_mappings@.len() == 0,
                        config.home_state_version@ == "24.05"@,
                    decreases attrs@.len() - i,
                {
                    proof {
                        assert(pv.take(i + 1).drop_last() =~= pv.take(i as int));
                        assert(pv.take(i + 1).last() == pv[i as int]);
                    }
                    let (name, e) = &attrs[i];
                    match self.extract_service_config(e) {
                        Ok(sc) => {
                            let ghost before = config.services.model();
                            config.add_service(name.clone(), sc);
                            proof {
                                crate::named::lemma_insert_map(
                                    before,
                                    |s: ServiceConfig| (s.enabled, s.settings.model()),
                                    name@,
                                    sc,
                                );
                            }
                        },
                        Err(_) => {},
                    }
                    i = i + 1;
                }
                assert(pv.take(pv.len() as int) =~= pv);
            },
            _ => {},
        }
        assert(service_views(config) == services_in(attrs_at(root, seq!["services"@])));
        assert(program_views(config) == programs_in(attrs_at(root, seq!["programs"@])));
        let packages_path: [&str; 2] = ["home", "packages"];
        proof {
            assert(packages_path@.map_values(|s: &str| s@) =~= seq!["home"@, "packages"@]);
        }
        match self.find_attribute_path(&parsed.expr, packages_path.as_slice()) {
            Some(NixExpr::List(items)) => {
                let ghost iv = exprs_view(items@);
                proof {
                    lemma_exprs(items@);
                }
                let mut i: usize = 0;
                assert(iv.take(0) =~= Seq::<ExprView>::empty());
                while i < items.len()
                    invariant
                        i <= items@.len(),
                        iv == exprs_view(items@),
                        iv.len() == items@.len(),
                        forall|j: int| 0 <= j < items@.len() ==> #[trigger] iv[j] == expr_view(items@[j]),
                        config.home_packages@.map_values(|s: String| s@) == idents_in(iv.take(i as int)),
                        config.file_mappings@.len() == 0,
                        config.home_state_version@ == "24.05"@,
                        program_views(config) == programs_in(attrs_at(root, seq!["programs"@])),
                        service_views(config) == services_in(attrs_at(root, seq!["services"@])),
                    decreases items@.len() - i,
                {
                    proof {
                        assert(iv.take(i + 1).drop_last() =~= iv.take(i as int));
                        assert(iv.take(i + 1).last() == iv[i as int]);
                    }
                    match &items[i] {
                        NixExpr::Identifier(pkg) => {
                            let ghost before = config.home_packages@;
                            config.home_packages.push(pkg.clone());
                            assert(config.home_packages@.map_values(|s: String| s@) =~= before.map_values(
                                |s: String| s@,
                            ).push(pkg@));
                        },
                        _ => {},
                    }
                    i = i + 1;
                }
                assert(iv.take(iv.len() as int) =~= iv);
            },
            _ => {},
        }
        assert(config.home_packages@.map_values(|s: String| s@) == idents_in(
            items_at(root, seq!["home"@, "packages"@]),
        ));
        let files_path: [&str; 2] = ["home", "file"];
        proof {
            assert(files_path@.map_values(|s: &str| s@) =~= seq!["home"@, "file"@]);
        }
        match self.find_attribute_path(&parsed.expr, files_path.as_slice()) {
            Some(NixExpr::AttrSet(attrs)) => {
                let ghost pv = pairs_view(attrs@);
                proof {
                    lemma_pairs(attrs@);
                }
                let mut i: usize = 0;
                assert(pv.take(0) =~= Seq::<(Seq<char>, ExprView)>::empty());
                while i < attrs.len()
                    invariant
                        i <= attrs@.len(),
                        pv == pairs_view(attrs@),
                        pv.len() == attrs@.len(),
                        forall|j: int| 0 <= j < attrs@.len() ==> #[trigger] pv[j] == (attrs@[j].0@, expr_view(attrs@[j].1)),
                        config.file_mappings@.map_values(|m: FileMapping| (m.source@, m.target@)) == files_in(
                            pv.take(i as int),
                        ),
                        config.home_state_version@ == "24.05"@,
                        program_views(config) == programs_in(attrs_at(root, seq!["programs"@])),
                        service_views(config) == services_in(attrs_at(root, seq!["services"@])),
                        config.home_packages@.map_values(|s: String| s@) == idents_in(
                            items_at(root, seq!["home"@, "packages"@]),
                        ),
                    decreases attrs@.len() - i,
                {
                    proof {
                        assert(pv.take(i + 1).drop_last() =~= pv.take(i as int));
                        assert(pv.take(i + 1).last() == pv[i as int]);
                    }
                    let (target, e) = &attrs[i];
                    match self.extract_file_source(e) {
                        Ok(source) => {
                            let ghost before = config.file_mappings@;
                            config.add_file_mapping(source, target.clone());
                            assert(config.file_mappings@.map_values(|m: FileMapping| (m.source@, m.target@))
                                =~= before.map_values(|m: FileMapping| (m.source@, m.target@)).push(
                                (source@, target@),
                            ));
                        },
                        Err(_) => {},
                    }
                    i = i + 1;
                }
                assert(pv.take(pv.len() as int) =~= pv);
            },
            _ => {},
        }
        assert(config.file_mappings@.map_values(|m: FileMapping| (m.source@, m.target@)) == files_in(
            attrs_at(root, seq!["home"@, "file"@]),
        ));
        Ok(config)
    }
}

fn str_list(items: &[&str]) -> (r: Vec<String>)
    ensures
        texts_of(r@) == items@.map_values(|s: &str| s@),
{
    let mut out: Vec<String> = Vec::new();
    let mut i: usize = 0;
    while i < items.len()
        invariant
            i <= items@.len(),
            out@.len() == i,
            forall|j: int| 0 <= j < i ==> (#[trigger] out@[j])@ == items@[j]@,
        decreases items@.len() - i,
    {
        out.push(text::string_from(items[i]));
        i = i + 1;
    }
    assert(texts_of(out@) =~= items@.map_values(|s: &str| s@));
    out
}

/// Whether a list of names holds a name.
fn holds_name(list: &Vec<String>, name: &String) -> (b: bool)
    ensures
        b == texts_of(list@).contains(name@),
{
    let nv = text::chars_of(name.as_str());
    let mut i: usize = 0;
    while i < list.len()
        invariant
            i <= list@.len(),
            nv@ == name@,
            forall|j: int| 0 <= j < i ==> (#[trigger] list@[j])@ != name@,
        decreases list@.len() - i,
    {
        let v = text::chars_of(list[i].as_str());
        if text::eq_chars(v.as_slice(), nv.as_slice()) {
            assert(texts_of(list@)[i as int] == name@);
            return true;
        }
        i = i + 1;
    }
    proof {
        if texts_of(list@).contains(name@) {
            let k = choose|k: int| 0 <= k < texts_of(list@).len() && texts_of(list@)[k] == name@;
            assert(list@[k]@ == name@);
        }
    }
    false
}

fn enabled_program(programs: &NameMap<ProgramConfig>, name: &str) -> (b: bool)
    ensures
        b == enabled_in(map_values_of(programs.model(), |p: ProgramConfig| p@), name@),
{
    proof {
        crate::named::lemma_lookup_map(programs.model(), |p: ProgramConfig| p@, name@);
    }
    match programs.get(name) {
        Some(p) => p.enabled,
        None => false,
    }
}

impl HomeManagerAnalyzer {
    /// The programs a program needs.
    fn find_program_dependencies(&self, name: &str, config: &ProgramConfig) -> (r: Result<
        Vec<String>,
        NixDomainError,
    >)
        ensures
            r matches Ok(v) && texts_of(v@) == deps_of(name@),
    {
        let nv = text::chars_of(name);
        let deps: Vec<String> = if text::eq_str(nv.as_slice(), "neovim") {
            str_list(&["ripgrep", "fd"])
        } else if text::eq_str(nv.as_slice(), "emacs") {
            str_list(&["git", "ripgrep"])
        } else if text::eq_str(nv.as_slice(), "tmux") {
            str_list(&["bash"])
        } else if text::eq_str(nv.as_slice(), "starship") {
            str_list(&["git"])
        } else {
            let e: Vec<String> = Vec::new();
            assert(texts_of(e@) =~= Seq::<Seq<char>>::empty());
            e
        };
        proof {
            assert(["ripgrep", "fd"]@.map_values(|s: &str| s@) =~= seq!["ripgrep"@, "fd"@]);
            assert(["git", "ripgrep"]@.map_values(|s: &str| s@) =~= seq!["git"@, "ripgrep"@]);
            assert(["bash"]@.map_values(|s: &str| s@) =~= seq!["bash"@]);
            assert(["git"]@.map_values(|s: &str| s@) =~= seq!["git"@]);
        }
        Ok(deps)
    }

    /// The complexity of a program's configuration.
    fn calculate_complexity(&self, config: &ProgramConfig) -> (r: ComplexityScore)
        requires
            complexity_fits(config@),
        ensures
            r.0 == complexity_of(config@),
    {
        let base = config.settings.len() as u32;
        if config.extra_config.is_some() {
            ComplexityScore(base + 10)
        } else {
            ComplexityScore(base)
        }
    }

    /// The security of a program's configuration.
    fn assess_security(&self, name: &str, config: &ProgramConfig) -> (r: Result<SecurityScore, NixDomainError>)
        ensures
            r matches Ok(s) && s.0 == security_of(name@, config@),
    {
        proof {
            reveal_strlit("ssh");
            reveal_strlit("git");
            assert("ssh"@[0] != "git"@[0]);
        }
        let nv = text::chars_of(name);
        let mut score: u32 = 100;
        let no_password = !config.settings.contains_key("passwordAuthentication");
        let no_signing = !config.settings.contains_key("signing");
        if text::eq_str(nv.as_slice(), "ssh") {
            if no_password {
                score = score - 10;
            }
        } else if text::eq_str(nv.as_slice(), "git") {
            if no_signing {
                score = score - 20;
            }
        }
        Ok(SecurityScore(score))
    }

    /// The analysis of each configured program, in order.
    pub fn analyze_programs(&self, config: &HomeConfiguration) -> (r: Result<Vec<ProgramAnalysis>, NixDomainError>)
        requires
            forall|i: int|
                0 <= i < config.programs.model().len() ==> complexity_fits(
                    (#[trigger] config.programs.model()[i]).1@,
                ),
        ensures
            r matches Ok(v) && v@.map_values(|a: ProgramAnalysis| analysis_view(a)) == program_views(
                *config,
            ).map_values(|e: (Seq<char>, ProgramView)| program_analysis(e.0, e.1)),
    {
        let ghost pv = program_views(*config);
        let mut out: Vec<ProgramAnalysis> = Vec::new();
        let mut i: usize = 0;
        while i < config.programs.len()
            invariant
                i <= config.programs.model().len(),
                pv == program_views(*config),
                forall|j: int|
                    0 <= j < config.programs.model().len() ==> complexity_fits(
                        (#[trigger] config.programs.model()[j]).1@,
                    ),
                out@.len() == i,
                forall|j: int| 0 <= j < i ==> analysis_view(#[trigger] out@[j]) == program_analysis(pv[j].0, pv[j].1),
            decreases config.programs.model().len() - i,
        {
            let name = config.programs.name_at(i);
            let p = config.programs.value_at(i);
            assert(pv[i as int] == (name@, p@));
            let dependencies = match self.find_program_dependencies(name.as_str(), p) {
                Ok(d) => d,
                Err(e) => return Err(e),
            };
            let security_score = match self.assess_security(name.as_str(), p) {
                Ok(s) => s,
                Err(e) => return Err(e),
            };
            out.push(
                ProgramAnalysis {
                    name: name.clone(),
                    enabled: p.is_enabled(),
                    dependencies,
                    configuration_complexity: self.calculate_complexity(p),
                    security_score,
                },
            );
            i = i + 1;
        }
        assert(out@.map_values(|a: ProgramAnalysis| analysis_view(a)) =~= pv.map_values(
            |e: (Seq<char>, ProgramView)| program_analysis(e.0, e.1),
        ));
        Ok(out)
    }

    /// The conflicts of a configuration.
    pub fn detect_conflicts(&self, config: &HomeConfiguration) -> (r: Result<Vec<ConflictInfo>, NixDomainError>)
        ensures
            r matches Ok(v) && v@.map_values(|c: ConflictInfo| conflict_view(c)) == conflicts_of(
                program_views(*config),
                texts_of(config.home_packages@),
            ),
    {
        let ghost pv = program_views(*config);
        let ghost pk = texts_of(config.home_packages@);
        let mut conflicts: Vec<ConflictInfo> = Vec::new();
        let mut shells: Vec<String> = Vec::new();
        if enabled_program(&config.programs, "bash") {
            shells.push(text::string_from("bash"));
        }
        if enabled_program(&config.programs, "zsh") {
            shells.push(text::string_from("zsh"));
        }
        if enabled_program(&config.programs, "fish") {
            shells.push(text::string_from("fish"));
        }
        assert(texts_of(shells@) =~= enabled_shells(pv));
        if shells.len() > 1 {
            conflicts.push(
                ConflictInfo {
                    conflict_type: ConflictType::ConflictingSettings,
                    description: text::string_from("Multiple shells are enabled"),
                    affected_items: shells,
                },
            );
        }
        let ghost c0 = conflicts@.map_values(|c: ConflictInfo| conflict_view(c));
        assert(c0 =~= (if enabled_shells(pv).len() > 1 {
            seq![(ConflictType::ConflictingSettings, "Multiple shells are enabled"@, enabled_shells(pv))]
        } else {
            Seq::empty()
        }));
        let mut i: usize = 0;
        assert(pv.take(0) =~= Seq::<(Seq<char>, ProgramView)>::empty());
        while i < config.programs.len()
            invariant
                i <= pv.len(),
                pv == program_views(*config),
                pk == texts_of(config.home_packages@),
                conflicts@.map_values(|c: ConflictInfo| conflict_view(c)) == c0 + missing_deps(
                    pv.take(i as int),
                    pv,
                    pk,
                ),
            decreases pv.len() - i,
        {
            proof {
                assert(pv.take(i + 1).drop_last() =~= pv.take(i as int));
            }
            let name = config.programs.name_at(i);
            let p = config.programs.value_at(i);
            assert(pv.take(i + 1).last() == (name@, p@));
            let ghost before = conflicts@.map_values(|c: ConflictInfo| conflict_view(c));
            if p.enabled {
                let deps = match self.find_program_dependencies(name.as_str(), p) {
                    Ok(d) => d,
                    Err(e) => return Err(e),
                };
                let ghost dv = texts_of(deps@);
                let mut k: usize = 0;
                assert(dv.take(0) =~= Seq::<Seq<char>>::empty());
                assert(before =~= before + missing_of(name@, dv.take(0), pv, pk));
                while k < deps.len()
                    invariant
                        k <= dv.len(),
                        dv == texts_of(deps@),
                        dv == deps_of(name@),
                        pv == program_views(*config),
                        pk == texts_of(config.home_packages@),
                        conflicts@.map_values(|c: ConflictInfo| conflict_view(c)) == before + missing_of(
                            name@,
                            dv.take(k as int),
                            pv,
                            pk,
                        ),
                    decreases dv.len() - k,
                {
                    proof {
                        assert(dv.take(k + 1).drop_last() =~= dv.take(k as int));
                        crate::named::lemma_lookup_map(config.programs.model(), |p: ProgramConfig| p@, deps@[k as int]@);
                    }
                    let dep = &deps[k];
                    let ghost cur = conflicts@.map_values(|c: ConflictInfo| conflict_view(c));
                    if !config.programs.contains_key(dep.as_str()) && !holds_name(&config.home_packages, dep) {
                        let mut d = text::chars_of(name.as_str());
                        text::append_str(&mut d, " requires ");
                        text::append_str(&mut d, dep.as_str());
                        text::append_str(&mut d, " but it's not configured");
                        let items = vec![name.clone(), dep.clone()];
                        assert(items@.map_values(|s: String| s@) =~= seq![name@, dep@]);
                        let c = ConflictInfo {
                            conflict_type: ConflictType::MissingDependency,
                            description: text::string_of(d.as_slice()),
                            affected_items: items,
                        };
                        conflicts.push(c);
                        assert(conflicts@.map_values(|c: ConflictInfo| conflict_view(c)) =~= cur.push(
                            conflict_view(c),
                        ));
                    }
                    k = k + 1;
                }
                assert(dv.take(dv.len() as int) =~= dv);
            }
            i = i + 1;
        }
        assert(pv.take(pv.len() as int) =~= pv);
        Ok(conflicts)
    }

    /// Suggests enabling a program that is not configured.
    fn suggest_enable(&self, config: &HomeConfiguration, name: &str, out: &mut Vec<Suggestion>)
        ensures
            final(out)@.map_values(|s: Suggestion| suggestion_view(s)) == old(out)@.map_values(
                |s: Suggestion| suggestion_view(s),
            ) + enable_suggestion(program_views(*config), name@),
    {
        proof {
            crate::named::lemma_lookup_map(config.programs.model(), |p: ProgramConfig| p@, name@);
        }
        let ghost before = out@.map_values(|s: Suggestion| suggestion_view(s));
        if !config.programs.contains_key(name) {
            let mut d = text::chars_of("Consider enabling ");
            text::append_str(&mut d, name);
            text::append_str(&mut d, " for improved productivity");
            let s = Suggestion {
                suggestion_type: SuggestionType::EnableProgram,
                description: text::string_of(d.as_slice()),
                priority: Priority::Low,
            };
            out.push(s);
            assert(out@.map_values(|s: Suggestion| suggestion_view(s)) =~= before.push(suggestion_view(s)));
        } else {
            assert(out@.map_values(|s: Suggestion| suggestion_view(s)) =~= before + Seq::<SuggestionView>::empty());
        }
    }

    /// Suggestions for a configuration.
    pub fn generate_suggestions(&self, config: &HomeConfiguration) -> (r: Result<Vec<Suggestion>, NixDomainError>)
        ensures
            r matches Ok(v) && v@.map_values(|s: Suggestion| suggestion_view(s)) == suggestions_of(
                program_views(*config),
            ),
    {
        let ghost pv = program_views(*config);
        let mut out: Vec<Suggestion> = Vec::new();
        assert(out@.map_values(|s: Suggestion| suggestion_view(s)) =~= Seq::<SuggestionView>::empty());
        self.suggest_enable(config, "direnv", &mut out);
        self.suggest_enable(config, "starship", &mut out);
        self.suggest_enable(config, "fzf", &mut out);
        self.suggest_enable(config, "ripgrep", &mut out);
        let ghost s4 = out@.map_values(|s: Suggestion| suggestion_view(s));
        assert(s4 =~= enable_suggestion(pv, "direnv"@) + enable_suggestion(pv, "starship"@) + enable_suggestion(
            pv,
            "fzf"@,
        ) + enable_suggestion(pv, "ripgrep"@));
        proof {
            crate::named::lemma_lookup_map(config.programs.model(), |p: ProgramConfig| p@, "git"@);
        }
        match config.programs.get("git") {
            Some(git) => {
                if git.enabled && !git.settings.contains_key("signing") {
                    let s = Suggestion {
                        suggestion_type: SuggestionType::SecurityImprovement,
                        description: text::string_from("Enable Git commit signing for better security"),
                        priority: Priority::Medium,
                    };
                    out.push(s);
                }
            },
            None => {},
        }
        let ghost s5 = out@.map_values(|s: Suggestion| suggestion_view(s));
        assert(s5 =~= s4 + (if lookup(pv, "git"@) matches Some(g) && g.enabled && lookup(g.settings, "signing"@)
            is None {
            seq![
                (
                    SuggestionType::SecurityImprovement,
                    "Enable Git commit signing for better security"@,
                    Priority::Medium,
                ),
            ]
        } else {
            Seq::empty()
        }));
        let mut i: usize = 0;
        assert(pv.take(0) =~= Seq::<(Seq<char>, ProgramView)>::empty());
        while i < config.programs.len()
            invariant
                i <= pv.len(),
                pv == program_views(*config),
                out@.map_values(|s: Suggestion| suggestion_view(s)) == s5 + unused_suggestions(pv.take(i as int)),
            decreases pv.len() - i,
        {
            proof {
                assert(pv.take(i + 1).drop_last() =~= pv.take(i as int));
            }
            let name = config.programs.name_at(i);
            let p = config.programs.value_at(i);
            assert(pv.take(i + 1).last() == (name@, p@));
            let ghost before = out@.map_values(|s: Suggestion| suggestion_view(s));
            if !p.enabled && p.settings.len() > 0 {
                let mut d = text::chars_of(name.as_str());
                text::append_str(&mut d, " has configuration but is disabled");
                let s = Suggestion {
                    suggestion_type: SuggestionType::DisableUnusedProgram,
                    description: text::string_of(d.as_slice()),
                    priority: Priority::Low,
                };
                out.push(s);
                assert(out@.map_values(|s: Suggestion| suggestion_view(s)) =~= before.push(suggestion_view(s)));
            }
            i = i + 1;
        }
        assert(pv.take(pv.len() as int) =~= pv);
        Ok(out)
    }

    /// The program a dotfile configures, by its file name.
    pub fn identify_program_from_path(&self, file_name: &str) -> (r: Option<String>)
        ensures
            crate::topology::opt_text(r) == program_of_file(file_name@),
    {
        let v = text::chars_of(file_name);
        let s = v.as_slice();
        if text::eq_str(s, ".gitconfig") || text::eq_str(s, "gitconfig") {
            Some(text::string_from("git"))
        } else if text::eq_str(s, ".vimrc") || text::eq_str(s, "vimrc") || text::eq_str(s, ".vim") {
            Some(text::string_from("vim"))
        } else if text::eq_str(s, ".bashrc") || text::eq_str(s, ".bash_profile") {
            Some(text::string_from("bash"))
        } else if text::eq_str(s, ".zshrc") || text::eq_str(s, ".zshenv") {
            Some(text::string_from("zsh"))
        } else if text::eq_str(s, ".tmux.conf") {
            Some(text::string_from("tmux"))
        } else {
            None
        }
    }

    /// A configuration for the files of a dotfiles directory: git for a git
    /// configuration, vim and bash with the text of their files, and every
    /// other file placed under its name with a leading dot.
    pub fn migrate_from_dotfiles(&self, entries: &Vec<DotfileEntry>) -> (r: Result<
        HomeConfiguration,
        NixDomainError,
    >)
        ensures
            r matches Ok(c) && {
                &&& program_views(c) == migrated_programs(entries@)
                &&& c.file_mappings@.map_values(|m: FileMapping| (m.source@, m.target@)) == migrated_files(
                    entries@,
                )
                &&& c.services.model().len() == 0
                &&& c.home_packages@.len() == 0
                &&& c.home_state_version@ == "24.05"@
            },
    {
        let mut config = HomeConfiguration::new();
        let mut i: usize = 0;
        assert(entries@.take(0) =~= Seq::<DotfileEntry>::empty());
        assert(program_views(config) =~= Seq::<(Seq<char>, ProgramView)>::empty());
        assert(config.file_mappings@.map_values(|m: FileMapping| (m.source@, m.target@)) =~= Seq::<
            (Seq<char>, Seq<char>),
        >::empty());
        while i < entries.len()
            invariant
                i <= entries@.len(),
                program_views(config) == migrated_programs(entries@.take(i as int)),
                config.file_mappings@.map_values(|m: FileMapping| (m.source@, m.target@)) == migrated_files(
                    entries@.take(i as int),
                ),
                config.services.model().len() == 0,
                config.home_packages@.len() == 0,
                config.home_state_version@ == "24.05"@,
            decreases entries@.len() - i,
        {
            proof {
                assert(entries@.take(i + 1).drop_last() =~= entries@.take(i as int));
            }
            let e = &entries[i];
            assert(entries@.take(i + 1).last() == *e);
            let v = text::chars_of(e.file_name.as_str());
            let s = v.as_slice();
            let ghost progs = config.programs.model();
            let ghost files = config.file_mappings@;
            if text::eq_str(s, ".gitconfig") || text::eq_str(s, "gitconfig") {
                let pc = ProgramConfig::new(true);
                config.add_program(text::string_from("git"), pc);
                proof {
                    crate::named::lemma_insert_map(progs, |p: ProgramConfig| p@, "git"@, pc);
                }
            } else if text::eq_str(s, ".vimrc") || text::eq_str(s, "vimrc") {
                let mut pc = ProgramConfig::new(true);
                match &e.content {
                    Some(c) => {
                        pc.extra_config = Some(c.clone());
                    },
                    None => {},
                }
                config.add_program(text::string_from("vim"), pc);
                proof {
                    crate::named::lemma_insert_map(progs, |p: ProgramConfig| p@, "vim"@, pc);
                }
            } else if text::eq_str(s, ".bashrc") || text::eq_str(s, "bashrc") {
                let mut pc = ProgramConfig::new(true);
                match &e.content {
                    Some(c) => {
                        pc.extra_config = Some(c.clone());
                    },
                    None => {},
                }
                config.add_program(text::string_from("bash"), pc);
                proof {
                    crate::named::lemma_insert_map(progs, |p: ProgramConfig| p@, "bash"@, pc);
                }
            } else {
                let mut t = text::chars_of(".");
                text::append_chars(&mut t, v.as_slice());
                let target = text::string_of(t.as_slice());
                config.add_file_mapping(e.path.clone(), target);
                assert(config.file_mappings@.map_values(|m: FileMapping| (m.source@, m.target@)) =~= files.map_values(
                    |m: FileMapping| (m.source@, m.target@),
                ).push((e.path@, "."@ + e.file_name@)));
            }
            i = i + 1;
        }
        assert(entries@.take(entries@.len() as int) =~= entries@);
        Ok(config)
    }
}

impl Default for HomeManagerAnalyzer {
    fn default() -> (r: Self)
        ensures
            r.cached().len() == 0,
    {
        HomeManagerAnalyzer::new()
    }
}

/// The program a dotfiles entry configures when migrated, with its text for
/// vim and bash.
pub open spec fn migrated_program(e: DotfileEntry) -> Option<(Seq<char>, ProgramView)> {
    let n = e.file_name@;
    let text = match e.content {
        Some(c) => Some(c@),
        None => None,
    };
    if n == ".gitconfig"@ || n == "gitconfig"@ {
        Some(("git"@, ProgramView { enabled: true, settings: Seq::empty(), extra_config: None }))
    } else if n == ".vimrc"@ || n == "vimrc"@ {
        Some(("vim"@, ProgramView { enabled: true, settings: Seq::empty(), extra_config: text }))
    } else if n == ".bashrc"@ || n == "bashrc"@ {
        Some(("bash"@, ProgramView { enabled: true, settings: Seq::empty(), extra_config: text }))
    } else {
        None
    }
}

/// The programs of migrated dotfiles, in order.
pub open spec fn migrated_programs(s: Seq<DotfileEntry>) -> Seq<(Seq<char>, ProgramView)>
    decreases s.len(),
{
    if s.len() == 0 {
        Seq::empty()
    } else {
        match migrated_program(s.last()) {
            Some((n, p)) => insert(migrated_programs(s.drop_last()), n, p),
            None => migrated_programs(s.drop_last()),
        }
    }
}

/// The files placed for migrated dotfiles that no program takes, in order.
pub open spec fn migrated_files(s: Seq<DotfileEntry>) -> Seq<(Seq<char>, Seq<char>)>
    decreases s.len(),
{
    if s.len() == 0 {
        Seq::empty()
    } else {
        match migrated_program(s.last()) {
            Some(_) => migrated_files(s.drop_last()),
            None => migrated_files(s.drop_last()).push((s.last().path@, "."@ + s.last().file_name@)),
        }
    }
}

/// Once a prefix of expressions fails to denote values, every longer one does.
proof fn lemma_values_fail(ev: Seq<ExprView>, k: int)
    requires
        0 < k <= ev.len(),
        value_of_expr(ev[k - 1]) is None,
    ensures
        values_of_exprs(ev.take(ev.len() as int)) is None,
    decreases ev.len() - k,
{
    assert(ev.take(k).drop_last() =~= ev.take(k - 1));
    assert(ev.take(k).last() == ev[k - 1]);
    lemma_values_fail_prefix(ev, k, ev.len() as int);
}

proof fn lemma_values_fail_prefix(ev: Seq<ExprView>, k: int, m: int)
    requires
        0 <= k <= m <= ev.len(),
        values_of_exprs(ev.take(k)) is None,
    ensures
        values_of_exprs(ev.take(m)) is None,
    decreases m - k,
{
    if k < m {
        assert(ev.take(k + 1).drop_last() =~= ev.take(k));
        lemma_values_fail_prefix(ev, k + 1, m);
    }
}

} // verus!
