//! Handling of the domain's commands: which template a new flake gets, the
//! steps that create it, what `nix` is asked to run for each command, and how
//! the outcome of a run is answered.
//!
//! Running the programs and touching the file system is left to the caller;
//! this module decides what is run and what the results mean.

use vstd::prelude::*;
use crate::domain_error::NixDomainError;
use crate::text;

verus! {

broadcast use vstd::string::group_string_axioms;

/// The texts of a list of strings.
pub open spec fn texts(v: Seq<String>) -> Seq<Seq<char>> {
    v.map_values(|s: String| s@)
}

/// The text of an optional string slice.
pub open spec fn opt_text(o: Option<&str>) -> Option<Seq<char>> {
    match o {
        Some(s) => Some(s@),
        None => None,
    }
}

/// A project template for a new flake.
#[derive(Debug, Clone, PartialEq)]
pub enum FlakeTemplate {
    /// A Rust project.
    Rust,
    /// A Python project.
    Python,
    /// A Node.js project.
    NodeJs,
    /// A Go project.
    Go,
    /// A C++ project.
    Cpp,
    /// A Haskell project.
    Haskell,
    /// A project mixing several languages.
    Polyglot,
    /// A NixOS system configuration.
    NixOSSystem,
    /// A home-manager configuration.
    HomeManager,
    /// A plain development shell.
    DevShell,
    /// A template known by its name alone.
    Custom(String),
}

/// Whether `t` is the template that a create request names: no name asks
/// for the development shell, each known name for its template, and any
/// other name for a custom template of that name.
pub open spec fn template_fits(t: FlakeTemplate, name: Option<Seq<char>>) -> bool {
    match name {
        None => t == FlakeTemplate::DevShell,
        Some(n) => if n == "rust"@ {
            t == FlakeTemplate::Rust
        } else if n == "python"@ {
            t == FlakeTemplate::Python
        } else if n == "nodejs"@ {
            t == FlakeTemplate::NodeJs
        } else if n == "go"@ {
            t == FlakeTemplate::Go
        } else if n == "cpp"@ {
            t == FlakeTemplate::Cpp
        } else if n == "haskell"@ {
            t == FlakeTemplate::Haskell
        } else if n == "polyglot"@ {
            t == FlakeTemplate::Polyglot
        } else if n == "nixos"@ {
            t == FlakeTemplate::NixOSSystem
        } else if n == "home-manager"@ {
            t == FlakeTemplate::HomeManager
        } else if n == "devshell"@ {
            t == FlakeTemplate::DevShell
        } else {
            t matches FlakeTemplate::Custom(c) && c@ == n
        },
    }
}

/// The template that a create request names.
pub fn template_for(name: Option<&str>) -> (t: FlakeTemplate)
    ensures
        template_fits(t, opt_text(name)),
{
    match name {
        None => FlakeTemplate::DevShell,
        Some(n) => {
            let v = text::chars_of(n);
            let s = v.as_slice();
            if text::eq_str(s, "rust") {
                FlakeTemplate::Rust
            } else if text::eq_str(s, "python") {
                FlakeTemplate::Python
            } else if text::eq_str(s, "nodejs") {
                FlakeTemplate::NodeJs
            } else if text::eq_str(s, "go") {
                FlakeTemplate::Go
            } else if text::eq_str(s, "cpp") {
                FlakeTemplate::Cpp
            } else if text::eq_str(s, "haskell") {
                FlakeTemplate::Haskell
            } else if text::eq_str(s, "polyglot") {
                FlakeTemplate::Polyglot
            } else if text::eq_str(s, "nixos") {
                FlakeTemplate::NixOSSystem
            } else if text::eq_str(s, "home-manager") {
                FlakeTemplate::HomeManager
            } else if text::eq_str(s, "devshell") {
                FlakeTemplate::DevShell
            } else {
                FlakeTemplate::Custom(text::string_from(n))
            }
        },
    }
}

/// A program to run, with its arguments.
#[derive(Debug, Clone)]
pub struct Invocation {
    /// The program.
    pub program: String,
    /// Its arguments, in order.
    pub args: Vec<String>,
}

/// One step of creating a flake in a directory.
#[derive(Debug, Clone)]
pub enum FlakeStep {
    /// Create the directory and any missing parents.
    CreateDirectory,
    /// Write `flake.nix` from the template.
    WriteFlakeNix,
    /// Write the template's further files, creating their directories.
    WriteTemplateFiles,
    /// Run a program in the directory.
    Run(Invocation),
}

/// What a step says, as plain values.
pub enum StepView {
    /// Create the directory.
    CreateDirectory,
    /// Write `flake.nix`.
    WriteFlakeNix,
    /// Write the template's further files.
    WriteTemplateFiles,
    /// Run a program with arguments.
    Run(Seq<char>, Seq<Seq<char>>),
}

/// The plain content of a step.
pub open spec fn step_view(s: FlakeStep) -> StepView {
    match s {
        FlakeStep::CreateDirectory => StepView::CreateDirectory,
        FlakeStep::WriteFlakeNix => StepView::WriteFlakeNix,
        FlakeStep::WriteTemplateFiles => StepView::WriteTemplateFiles,
        FlakeStep::Run(i) => StepView::Run(i.program@, texts(i.args@)),
    }
}

/// The steps that create a flake: the directory, `flake.nix`, the template's
/// files, `git init` unless the directory already holds a repository,
/// `git add flake.nix`, and `nix flake init` when no template was named.
pub open spec fn creation_steps(template_named: bool, has_repository: bool) -> Seq<StepView> {
    seq![StepView::CreateDirectory, StepView::WriteFlakeNix, StepView::WriteTemplateFiles] + (
    if has_repository {
        Seq::empty()
    } else {
        seq![StepView::Run("git"@, seq!["init"@])]
    }) + seq![StepView::Run("git"@, seq!["add"@, "flake.nix"@])] + (if template_named {
        Seq::empty()
    } else {
        seq![StepView::Run("nix"@, seq!["flake"@, "init"@])]
    })
}

/// A list of one string.
fn args1(a: &str) -> (r: Vec<String>)
    ensures
        texts(r@) == seq![a@],
{
    let mut r: Vec<String> = Vec::new();
    r.push(text::string_from(a));
    assert(texts(r@) =~= seq![a@]);
    r
}

/// A list of two strings.
fn args2(a: &str, b: &str) -> (r: Vec<String>)
    ensures
        texts(r@) == seq![a@, b@],
{
    let mut r: Vec<String> = Vec::new();
    r.push(text::string_from(a));
    r.push(text::string_from(b));
    assert(texts(r@) =~= seq![a@, b@]);
    r
}

/// A program run with the given arguments.
fn run_step(program: &str, args: Vec<String>) -> (r: FlakeStep)
    ensures
        step_view(r) == StepView::Run(program@, texts(args@)),
{
    FlakeStep::Run(Invocation { program: text::string_from(program), args })
}

/// The answer to a finished run of an outside command: nothing when it
/// succeeded, else a command error that carries its standard error.
pub open spec fn command_answer(success: bool, stderr: Seq<char>) -> Result<(), Seq<char>> {
    if success {
        Ok(())
    } else {
        Err(stderr)
    }
}

/// The message for a program that could not be started at all.
pub fn failed_to(action: &str, cause: &str) -> (r: String)
    ensures
        r@ == "Failed to "@ + action@ + ": "@ + cause@,
{
    let mut v = text::chars_of("Failed to ");
    text::append_str(&mut v, action);
    text::append_str(&mut v, ": ");
    text::append_str(&mut v, cause);
    text::string_of(v.as_slice())
}

/// A finished run of `nix` for a flake command, as its result.
fn flake_command_result(success: bool, stderr: &str) -> (r: Result<(), NixDomainError>)
    ensures
        success ==> r is Ok,
        !success ==> (r matches Err(NixDomainError::CommandError(m)) && m@ == stderr@),
{
    if success {
        Ok(())
    } else {
        Err(NixDomainError::CommandError(text::string_from(stderr)))
    }
}

/// Handles the commands that create, update, check and enter flakes.
pub struct FlakeCommandHandler;

impl FlakeCommandHandler {
    /// A flake command handler.
    pub fn new() -> (r: Self) {
        FlakeCommandHandler
    }

    /// The steps that create a flake with the named template (or none) in a
    /// directory that does or does not already hold a git repository.
    pub fn create_flake_steps(&self, template: Option<&str>, has_repository: bool) -> (r: Vec<
        FlakeStep,
    >)
        ensures
            r@.map_values(|s: FlakeStep| step_view(s)) == creation_steps(
                template is Some,
                has_repository,
            ),
    {
        let mut r: Vec<FlakeStep> = Vec::new();
        r.push(FlakeStep::CreateDirectory);
        r.push(FlakeStep::WriteFlakeNix);
        r.push(FlakeStep::WriteTemplateFiles);
        let ghost a = r@.map_values(|s: FlakeStep| step_view(s));
        assert(a =~= seq![
            StepView::CreateDirectory,
            StepView::WriteFlakeNix,
            StepView::WriteTemplateFiles,
        ]);
        if !has_repository {
            let s = run_step("git", args1("init"));
            r.push(s);
        }
        let ghost b = r@.map_values(|s: FlakeStep| step_view(s));
        assert(b =~= a + (if has_repository {
            Seq::<StepView>::empty()
        } else {
            seq![StepView::Run("git"@, seq!["init"@])]
        }));
        let s = run_step("git", args2("add", "flake.nix"));
        r.push(s);
        let ghost c = r@.map_values(|s: FlakeStep| step_view(s));
        assert(c =~= b + seq![StepView::Run("git"@, seq!["add"@, "flake.nix"@])]);
        if template.is_none() {
            let s = run_step("nix", args2("flake", "init"));
            r.push(s);
        }
        assert(r@.map_values(|s: FlakeStep| step_view(s)) =~= c + (if template is Some {
            Seq::<StepView>::empty()
        } else {
            seq![StepView::Run("nix"@, seq!["flake"@, "init"@])]
        }));
        r
    }

    /// The `nix` arguments that update a flake's lock file.
    pub fn update_args(&self) -> (r: Vec<String>)
        ensures
            texts(r@) == seq!["flake"@, "update"@],
    {
        args2("flake", "update")
    }

    /// The `nix` arguments that lock a newly added input.
    pub fn add_input_args(&self, name: &str) -> (r: Vec<String>)
        ensures
            texts(r@) == seq!["flake"@, "update"@, name@],
    {
        let mut r = self.update_args();
        let ghost a = r@;
        r.push(text::string_from(name));
        assert(texts(r@) =~= texts(a).push(name@));
        assert(texts(r@) =~= seq!["flake"@, "update"@, name@]);
        r
    }

    /// The `nix` arguments that check a flake.
    pub fn check_args(&self) -> (r: Vec<String>)
        ensures
            texts(r@) == seq!["flake"@, "check"@],
    {
        args2("flake", "check")
    }

    /// The `nix` arguments that enter a flake's development shell, running
    /// a command in it when one is given.
    pub fn develop_args(&self, command: Option<&str>) -> (r: Vec<String>)
        ensures
            texts(r@) == seq!["develop"@] + match command {
                Some(c) => seq!["-c"@, c@],
                None => Seq::empty(),
            },
    {
        let mut r: Vec<String> = Vec::new();
        r.push(text::string_from("develop"));
        match command {
            Some(c) => {
                r.push(text::string_from("-c"));
                r.push(text::string_from(c));
            },
            None => {},
        }
        assert(texts(r@) =~= seq!["develop"@] + match command {
            Some(c) => seq!["-c"@, c@],
            None => Seq::<Seq<char>>::empty(),
        });
        r
    }

    /// The result of a finished `nix` run for a flake command: success, or
    /// a command error with the run's standard error.
    pub fn run_result(&self, success: bool, stderr: &str) -> (r: Result<(), NixDomainError>)
        ensures
            success ==> r is Ok,
            !success ==> (r matches Err(NixDomainError::CommandError(m)) && m@ == stderr@),
    {
        flake_command_result(success, stderr)
    }
}

impl Default for FlakeCommandHandler {
    fn default() -> (r: Self) {
        FlakeCommandHandler::new()
    }
}

/// Handles the command that builds a package.
pub struct PackageCommandHandler;

impl PackageCommandHandler {
    /// A package command handler.
    pub fn new() -> (r: Self) {
        PackageCommandHandler
    }

    /// The `nix` arguments that build `flake_ref#attribute`, linking the
    /// result at `output_path` when one is given.
    pub fn build_args(&self, flake_ref: &str, attribute: &str, output_path: Option<&str>) -> (r:
        Vec<String>)
        ensures
            texts(r@) == seq!["build"@, flake_ref@ + "#"@ + attribute@] + match output_path {
                Some(p) => seq!["--out-link="@ + p@],
                None => Seq::empty(),
            },
    {
        let mut r: Vec<String> = Vec::new();
        r.push(text::string_from("build"));
        let mut u = text::chars_of(flake_ref);
        text::append_str(&mut u, "#");
        text::append_str(&mut u, attribute);
        r.push(text::string_of(u.as_slice()));
        let ghost a = r@;
        assert(texts(a) =~= seq!["build"@, flake_ref@ + "#"@ + attribute@]);
        match output_path {
            Some(p) => {
                let mut o = text::chars_of("--out-link=");
                text::append_str(&mut o, p);
                r.push(text::string_of(o.as_slice()));
                assert(texts(r@) =~= texts(a).push("--out-link="@ + p@));
            },
            None => {},
        }
        assert(texts(r@) =~= seq!["build"@, flake_ref@ + "#"@ + attribute@] + match output_path {
            Some(p) => seq!["--out-link="@ + p@],
            None => Seq::<Seq<char>>::empty(),
        });
        r
    }

    /// Where the built package is linked: the given path, else `./result`.
    pub fn output_link(&self, output_path: Option<&str>) -> (r: String)
        ensures
            r@ == match output_path {
                Some(p) => p@,
                None => "./result"@,
            },
    {
        match output_path {
            Some(p) => text::string_from(p),
            None => text::string_from("./result"),
        }
    }

    /// The result of a finished `nix build`: success, or a build error with
    /// the run's standard error.
    pub fn run_result(&self, success: bool, stderr: &str) -> (r: Result<(), NixDomainError>)
        ensures
            success ==> r is Ok,
            !success ==> (r matches Err(NixDomainError::BuildError(m)) && m@ == stderr@),
    {
        if success {
            Ok(())
        } else {
            Err(NixDomainError::BuildError(text::string_from(stderr)))
        }
    }
}

impl Default for PackageCommandHandler {
    fn default() -> (r: Self) {
        PackageCommandHandler::new()
    }
}

/// Handles the command that evaluates an expression.
pub struct ExpressionCommandHandler;

impl ExpressionCommandHandler {
    /// An expression command handler.
    pub fn new() -> (r: Self) {
        ExpressionCommandHandler
    }

    /// The `nix` arguments that evaluate an expression.
    pub fn eval_args(&self, expression: &str) -> (r: Vec<String>)
        ensures
            texts(r@) == seq!["eval"@, "--expr"@, expression@],
    {
        let mut r = args2("eval", "--expr");
        let ghost a = r@;
        r.push(text::string_from(expression));
        assert(texts(r@) =~= texts(a).push(expression@));
        assert(texts(r@) =~= seq!["eval"@, "--expr"@, expression@]);
        r
    }

    /// The result of a finished `nix eval`: its standard output without
    /// surrounding whitespace, or an execution error with its standard error.
    pub fn evaluation_result(&self, success: bool, stdout: &str, stderr: &str) -> (r: Result<
        String,
        NixDomainError,
    >)
        ensures
            success ==> (r matches Ok(v) && v@ == text::trimmed(stdout@)),
            !success ==> (r matches Err(NixDomainError::ExecutionError(m)) && m@ == stderr@),
    {
        if success {
            let v = text::chars_of(stdout);
            let t = text::trim(v.as_slice());
            Ok(text::string_of(t.as_slice()))
        } else {
            Err(NixDomainError::ExecutionError(text::string_from(stderr)))
        }
    }
}

impl Default for ExpressionCommandHandler {
    fn default() -> (r: Self) {
        ExpressionCommandHandler::new()
    }
}

/// Handles the command that collects garbage in the store.
pub struct GarbageCollectionHandler;

impl GarbageCollectionHandler {
    /// A garbage collection handler.
    pub fn new() -> (r: Self) {
        GarbageCollectionHandler
    }

    /// The `nix` arguments that collect garbage, passing the day count as
    /// `--min-free` when one is given.
    pub fn gc_args(&self, older_than_days: Option<u32>) -> (r: Vec<String>)
        ensures
            texts(r@) == seq!["store"@, "gc"@] + match older_than_days {
                Some(d) => seq!["--min-free"@, text::decimal_digits(d as nat) + "d"@],
                None => Seq::empty(),
            },
    {
        let mut r = args2("store", "gc");
        let ghost a = r@;
        match older_than_days {
            Some(d) => {
                r.push(text::string_from("--min-free"));
                let mut v = text::decimal(d as u64);
                text::append_str(&mut v, "d");
                r.push(text::string_of(v.as_slice()));
                assert(texts(r@) =~= texts(a) + seq![
                    "--min-free"@,
                    text::decimal_digits(d as nat) + "d"@,
                ]);
            },
            None => {},
        }
        assert(texts(r@) =~= seq!["store"@, "gc"@] + match older_than_days {
            Some(d) => seq!["--min-free"@, text::decimal_digits(d as nat) + "d"@],
            None => Seq::<Seq<char>>::empty(),
        });
        r
    }

    /// The result of a finished garbage collection: success, or a command
    /// error with the run's standard error.
    pub fn run_result(&self, success: bool, stderr: &str) -> (r: Result<(), NixDomainError>)
        ensures
            success ==> r is Ok,
            !success ==> (r matches Err(NixDomainError::CommandError(m)) && m@ == stderr@),
    {
        flake_command_result(success, stderr)
    }
}

impl Default for GarbageCollectionHandler {
    fn default() -> (r: Self) {
        GarbageCollectionHandler::new()
    }
}

/// How a configuration is activated.
#[derive(Debug, Clone, Copy, PartialEq, Eq)]
pub enum ActivationType {
    /// Switch to the new configuration now.
    Switch,
    /// Make it the boot configuration.
    Boot,
    /// Try it without making it permanent.
    Test,
}

/// The command to create a flake.
#[derive(Debug, Clone)]
pub struct CreateFlake {
    /// The directory of the flake.
    pub path: String,
    /// Its description.
    pub description: String,
    /// The template it starts from, if one was named.
    pub template: Option<String>,
}

/// The command to update a flake's inputs.
#[derive(Debug, Clone)]
pub struct UpdateFlake {
    /// The directory of the flake.
    pub path: String,
}

/// The command to build a package of a flake.
#[derive(Debug, Clone)]
pub struct BuildPackage {
    /// The flake reference.
    pub flake_ref: String,
    /// The segments of the attribute path of the package.
    pub attribute: Vec<String>,
    /// Where to link the result, if not at the default place.
    pub output_path: Option<String>,
}

/// The kinds of command that the domain handles.
#[derive(Debug, Clone, Copy, PartialEq, Eq)]
pub enum NixCommandKind {
    /// Create a flake.
    CreateFlake,
    /// Update a flake's inputs.
    UpdateFlake,
    /// Add an input to a flake.
    AddFlakeInput,
    /// Build a package.
    BuildPackage,
    /// Evaluate an expression.
    EvaluateExpression,
    /// Collect garbage in the store.
    RunGarbageCollection,
    /// Check a flake.
    CheckFlake,
    /// Enter a flake's development shell.
    DevelopFlake,
    /// Create a module.
    CreateModule,
    /// Create an overlay.
    CreateOverlay,
    /// Create a system configuration.
    CreateConfiguration,
    /// Activate a system configuration.
    ActivateConfiguration,
    /// A command of no kind known here.
    Unknown,
}

/// Who takes a command.
#[derive(Debug, Clone, Copy, PartialEq, Eq)]
pub enum CommandRoute {
    /// The flake handler.
    Flake,
    /// The package handler.
    Package,
    /// The expression handler.
    Expression,
    /// The garbage collection handler.
    GarbageCollection,
    /// No handler: the command is only recorded as its event.
    RecordOnly,
}

/// Who takes a command of a kind; none for an unknown kind.
pub open spec fn route_of(kind: NixCommandKind) -> Option<CommandRoute> {
    match kind {
        NixCommandKind::CreateFlake | NixCommandKind::UpdateFlake | NixCommandKind::AddFlakeInput
        | NixCommandKind::CheckFlake | NixCommandKind::DevelopFlake => Some(CommandRoute::Flake),
        NixCommandKind::BuildPackage => Some(CommandRoute::Package),
        NixCommandKind::EvaluateExpression => Some(CommandRoute::Expression),
        NixCommandKind::RunGarbageCollection => Some(CommandRoute::GarbageCollection),
        NixCommandKind::CreateModule | NixCommandKind::CreateOverlay
        | NixCommandKind::CreateConfiguration | NixCommandKind::ActivateConfiguration => Some(
            CommandRoute::RecordOnly,
        ),
        NixCommandKind::Unknown => None,
    }
}

/// The commands on a flake: creating, updating, adding an input to,
/// checking and entering the shell of one.
pub open spec fn is_flake_command(kind: NixCommandKind) -> bool {
    ||| kind is CreateFlake
    ||| kind is UpdateFlake
    ||| kind is AddFlakeInput
    ||| kind is CheckFlake
    ||| kind is DevelopFlake
}

/// The commands that no handler runs: creating a module, an overlay or a
/// configuration, and activating a configuration.
pub open spec fn is_record_only_command(kind: NixCommandKind) -> bool {
    ||| kind is CreateModule
    ||| kind is CreateOverlay
    ||| kind is CreateConfiguration
    ||| kind is ActivateConfiguration
}

/// Every command on a flake goes to the flake handler, and only those; the
/// commands on modules, overlays and configurations are only recorded, and
/// only those; every other known kind goes to a handler of its own, and an
/// unknown kind to none.
pub proof fn law_command_routes(kind: NixCommandKind)
    ensures
        route_of(kind) == Some(CommandRoute::Flake) <==> is_flake_command(kind),
        route_of(kind) == Some(CommandRoute::RecordOnly) <==> is_record_only_command(kind),
        route_of(kind) == Some(CommandRoute::Package) <==> kind is BuildPackage,
        route_of(kind) == Some(CommandRoute::Expression) <==> kind is EvaluateExpression,
        route_of(kind) == Some(CommandRoute::GarbageCollection) <==> kind is RunGarbageCollection,
        route_of(kind) is None <==> kind is Unknown,
{
}

/// The main command handler, which hands each command to the handler of its kind.
pub struct NixCommandHandler {
    flake_handler: FlakeCommandHandler,
    package_handler: PackageCommandHandler,
    expression_handler: ExpressionCommandHandler,
    gc_handler: GarbageCollectionHandler,
}

impl NixCommandHandler {
    /// A command handler with one handler of each kind.
    pub fn new() -> (r: Self) {
        NixCommandHandler {
            flake_handler: FlakeCommandHandler::new(),
            package_handler: PackageCommandHandler::new(),
            expression_handler: ExpressionCommandHandler::new(),
            gc_handler: GarbageCollectionHandler::new(),
        }
    }

    /// The flake handler.
    pub fn flake_handler(&self) -> (r: &FlakeCommandHandler) {
        &self.flake_handler
    }

    /// The package handler.
    pub fn package_handler(&self) -> (r: &PackageCommandHandler) {
        &self.package_handler
    }

    /// The expression handler.
    pub fn expression_handler(&self) -> (r: &ExpressionCommandHandler) {
        &self.expression_handler
    }

    /// The garbage collection handler.
    pub fn gc_handler(&self) -> (r: &GarbageCollectionHandler) {
        &self.gc_handler
    }

    /// Who takes a command of the given kind; an unknown kind is refused
    /// with "Unknown command type".
    pub fn route_command(&self, kind: NixCommandKind) -> (r: Result<CommandRoute, NixDomainError>)
        ensures
            match route_of(kind) {
                Some(route) => r == Ok::<CommandRoute, NixDomainError>(route),
                None => r matches Err(NixDomainError::Other(m)) && m@ == "Unknown command type"@,
            },
            r == Ok::<CommandRoute, NixDomainError>(CommandRoute::Flake) <==> is_flake_command(kind),
            r == Ok::<CommandRoute, NixDomainError>(CommandRoute::RecordOnly)
                <==> is_record_only_command(kind),
    {
        match kind {
            NixCommandKind::CreateFlake | NixCommandKind::UpdateFlake
            | NixCommandKind::AddFlakeInput | NixCommandKind::CheckFlake
            | NixCommandKind::DevelopFlake => Ok(CommandRoute::Flake),
            NixCommandKind::BuildPackage => Ok(CommandRoute::Package),
            NixCommandKind::EvaluateExpression => Ok(CommandRoute::Expression),
            NixCommandKind::RunGarbageCollection => Ok(CommandRoute::GarbageCollection),
            NixCommandKind::CreateModule | NixCommandKind::CreateOverlay
            | NixCommandKind::CreateConfiguration | NixCommandKind::ActivateConfiguration => Ok(
                CommandRoute::RecordOnly,
            ),
            NixCommandKind::Unknown => Err(
                NixDomainError::Other(text::string_from("Unknown command type")),
            ),
        }
    }

    /// The command that creates a flake named `name`: its directory is the
    /// name, and no template is named. The package and shell lists are not
    /// used.
    pub fn create_flake_command(
        &self,
        name: &str,
        description: &str,
        packages: &[String],
        dev_shells: &[String],
    ) -> (r: CreateFlake)
        ensures
            r.path@ == name@,
            r.description@ == description@,
            r.template is None,
    {
        CreateFlake {
            path: text::string_from(name),
            description: text::string_from(description),
            template: None,
        }
    }

    /// The command that updates the flake at `path`. The description and
    /// the package and shell lists are not used.
    pub fn update_flake_command(
        &self,
        path: &str,
        description: Option<&str>,
        packages: &[String],
        dev_shells: &[String],
    ) -> (r: UpdateFlake)
        ensures
            r.path@ == path@,
    {
        UpdateFlake { path: text::string_from(path) }
    }

    /// The command that builds `attribute` of `flake_ref`: the attribute is
    /// split at each `.` into the segments of its path.
    pub fn build_package_command(
        &self,
        flake_ref: &str,
        attribute: &str,
        output_path: Option<&str>,
    ) -> (r: BuildPackage)
        ensures
            r.flake_ref@ == flake_ref@,
            texts(r.attribute@) == text::pieces(attribute@, '.'),
            r.output_path matches Some(p) ==> output_path matches Some(q) && p@ == q@,
            r.output_path is None <==> output_path is None,
    {
        let v = text::chars_of(attribute);
        let parts = text::split_char(v.as_slice(), '.');
        let mut segments: Vec<String> = Vec::new();
        let mut i: usize = 0;
        while i < parts.len()
            invariant
                i <= parts.len(),
                texts(segments@) == text::views(parts@).take(i as int),
            decreases parts.len() - i,
        {
            let ghost before = segments@;
            segments.push(text::string_of(parts[i].as_slice()));
            proof {
                assert(text::views(parts@)[i as int] == parts@[i as int]@);
                assert(texts(segments@) =~= texts(before).push(parts@[i as int]@));
            }
            i = i + 1;
            assert(texts(segments@) =~= text::views(parts@).take(i as int));
        }
        assert(text::views(parts@).take(parts.len() as int) =~= text::views(parts@));
        let out = match output_path {
            Some(p) => Some(text::string_from(p)),
            None => None,
        };
        BuildPackage { flake_ref: text::string_from(flake_ref), attribute: segments, output_path: out }
    }
}

impl Default for NixCommandHandler {
    fn default() -> (r: Self) {
        NixCommandHandler::new()
    }
}

/// A command of the command bus.
#[derive(Debug, Clone)]
pub enum NixCommandWrapper {
    /// Create a new flake.
    CreateFlake(CreateFlake),
    /// Update an existing flake.
    UpdateFlake(UpdateFlake),
    /// Build a package from a flake.
    BuildPackage(BuildPackage),
}

impl NixCommandWrapper {
    /// The aggregate a command is about: none for each of them, as a create
    /// makes a new one, an update does not carry the flake's id, and a build
    /// is a query.
    pub fn aggregate_id(&self) -> (r: Option<uuid::Uuid>)
        ensures
            r is None,
    {
        match self {
            NixCommandWrapper::CreateFlake(_) => None,
            NixCommandWrapper::UpdateFlake(_) => None,
            NixCommandWrapper::BuildPackage(_) => None,
        }
    }
}

/// Whether the command bus accepted a command.
#[derive(Debug, Clone, Copy, PartialEq, Eq)]
pub enum CommandStatus {
    /// The command was carried out.
    Accepted,
    /// The command failed.
    Rejected,
}

/// The command bus's answer to a command.
#[derive(Debug, Clone)]
pub struct Acknowledgment {
    /// Whether it was accepted.
    pub status: CommandStatus,
    /// Why it was rejected.
    pub reason: Option<String>,
}

/// The answer to a command that was carried out with the given outcome:
/// accepted with no reason, or rejected with the error's message.
pub fn acknowledgment_for(outcome: &Result<(), NixDomainError>) -> (r: Acknowledgment)
    ensures
        outcome is Ok ==> r.status == CommandStatus::Accepted && r.reason is None,
        outcome matches Err(e) ==> (r.status == CommandStatus::Rejected && (r.reason matches Some(m)
            && m@ == crate::domain_error::domain_error_message(*e))),
{
    match outcome {
        Ok(()) => Acknowledgment { status: CommandStatus::Accepted, reason: None },
        Err(e) => Acknowledgment { status: CommandStatus::Rejected, reason: Some(e.to_string()) },
    }
}

/// The command-bus handler for creating flakes.
pub struct CreateFlakeHandler {
    nix_handler: std::sync::Arc<NixCommandHandler>,
}

impl CreateFlakeHandler {
    /// A handler that hands its commands to `nix_handler`.
    pub fn new(nix_handler: std::sync::Arc<NixCommandHandler>) -> (r: Self) {
        CreateFlakeHandler { nix_handler }
    }

    /// The command that is carried out for a create request: the request's
    /// directory and description, with no template and one `default` shell.
    pub fn command_for(&self, command: &CreateFlake) -> (r: CreateFlake)
        ensures
            r.path@ == command.path@,
            r.description@ == command.description@,
            r.template is None,
    {
        let packages: Vec<String> = Vec::new();
        let mut dev_shells: Vec<String> = Vec::new();
        dev_shells.push(text::string_from("default"));
        self.nix_handler.create_flake_command(
            command.path.as_str(),
            command.description.as_str(),
            packages.as_slice(),
            dev_shells.as_slice(),
        )
    }
}

/// The command-bus handler for updating flakes.
pub struct UpdateFlakeHandler {
    nix_handler: std::sync::Arc<NixCommandHandler>,
}

impl UpdateFlakeHandler {
    /// A handler that hands its commands to `nix_handler`.
    pub fn new(nix_handler: std::sync::Arc<NixCommandHandler>) -> (r: Self) {
        UpdateFlakeHandler { nix_handler }
    }

    /// The command that is carried out for an update request.
    pub fn command_for(&self, command: &UpdateFlake) -> (r: UpdateFlake)
        ensures
            r.path@ == command.path@,
    {
        let packages: Vec<String> = Vec::new();
        let dev_shells: Vec<String> = Vec::new();
        self.nix_handler.update_flake_command(
            command.path.as_str(),
            None,
            packages.as_slice(),
            dev_shells.as_slice(),
        )
    }
}

/// The command-bus handler for building packages.
pub struct BuildPackageHandler {
    nix_handler: std::sync::Arc<NixCommandHandler>,
}

impl BuildPackageHandler {
    /// A handler that hands its commands to `nix_handler`.
    pub fn new(nix_handler: std::sync::Arc<NixCommandHandler>) -> (r: Self) {
        BuildPackageHandler { nix_handler }
    }

    /// The command that is carried out for a build request: its attribute
    /// path is written out with `.` between segments and split again.
    pub fn command_for(&self, command: &BuildPackage) -> (r: BuildPackage)
        ensures
            r.flake_ref@ == command.flake_ref@,
            texts(r.attribute@) == text::pieces(text::join_with(texts(command.attribute@), "."@), '.'),
            r.output_path is None <==> command.output_path is None,
            r.output_path matches Some(p) ==> command.output_path matches Some(q) && p@ == q@,
    {
        let mut parts: Vec<Vec<char>> = Vec::new();
        let mut i: usize = 0;
        while i < command.attribute.len()
            invariant
                i <= command.attribute.len(),
                text::views(parts@) == texts(command.attribute@).take(i as int),
            decreases command.attribute.len() - i,
        {
            let ghost before = parts@;
            parts.push(text::chars_of(command.attribute[i].as_str()));
            proof {
                assert(text::views(parts@) =~= text::views(before).push(command.attribute@[i as int]@));
            }
            i = i + 1;
            assert(text::views(parts@) =~= texts(command.attribute@).take(i as int));
        }
        assert(texts(command.attribute@).take(command.attribute.len() as int) =~= texts(command.attribute@));
        let joined = text::join_str(parts.as_slice(), ".");
        let attribute = text::string_of(joined.as_slice());
        let out: Option<&str> = match &command.output_path {
            Some(p) => Some(p.as_str()),
            None => None,
        };
        self.nix_handler.build_package_command(command.flake_ref.as_str(), attribute.as_str(), out)
    }
}

} // verus!
