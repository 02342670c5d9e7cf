//! Parsing Nix sources, with the settings of the parser and the shape of
//! `flake.lock` files.

use vstd::prelude::*;
use crate::ast::{AstError, NixAst, ast_error_message, parsed_as};
use crate::named::NameMap;
use crate::text;

verus! {

broadcast use vstd::string::group_string_axioms;

/// Errors of parsing Nix sources.
#[derive(Debug, Clone)]
pub enum ParseError {
    /// The source does not parse.
    AstError(AstError),
    /// A file could not be read.
    IoError(String),
    /// The file is not a Nix file of the expected kind.
    InvalidFile(String),
    /// The expression is not supported.
    UnsupportedExpression(String),
    /// A value could not be converted.
    ConversionError(String),
}

/// The message of a parse error.
pub open spec fn parse_error_message(e: ParseError) -> Seq<char> {
    match e {
        ParseError::AstError(a) => "AST error: "@ + ast_error_message(a),
        ParseError::IoError(m) => "IO error: "@ + m@,
        ParseError::InvalidFile(m) => "Invalid Nix file: "@ + m@,
        ParseError::UnsupportedExpression(m) => "Unsupported expression: "@ + m@,
        ParseError::ConversionError(m) => "Conversion error: "@ + m@,
    }
}

impl ParseError {
    /// The error as its `Display` prints it.
    pub fn to_string(&self) -> (s: String)
        ensures
            s@ == parse_error_message(*self),
    {
        let mut v: Vec<char> = Vec::new();
        match self {
            ParseError::AstError(a) => {
                text::append_str(&mut v, "AST error: ");
                let m = a.to_string();
                text::append_str(&mut v, m.as_str());
            },
            ParseError::IoError(m) => {
                text::append_str(&mut v, "IO error: ");
                text::append_str(&mut v, m.as_str());
            },
            ParseError::InvalidFile(m) => {
                text::append_str(&mut v, "Invalid Nix file: ");
                text::append_str(&mut v, m.as_str());
            },
            ParseError::UnsupportedExpression(m) => {
                text::append_str(&mut v, "Unsupported expression: ");
                text::append_str(&mut v, m.as_str());
            },
            ParseError::ConversionError(m) => {
                text::append_str(&mut v, "Conversion error: ");
                text::append_str(&mut v, m.as_str());
            },
        }
        text::string_of(v.as_slice())
    }
}

/// Settings of a parser.
#[derive(Debug, Clone)]
pub struct ParserConfig {
    /// Whether parse warnings are allowed.
    pub allow_warnings: bool,
    /// Whether imports are followed.
    pub follow_imports: bool,
    /// How deep imports are followed.
    pub max_import_depth: usize,
}

impl Default for ParserConfig {
    fn default() -> (r: Self)
        ensures
            r.allow_warnings,
            !r.follow_imports,
            r.max_import_depth == 10,
    {
        ParserConfig { allow_warnings: true, follow_imports: false, max_import_depth: 10 }
    }
}

/// A parser of Nix sources.
pub struct NixParser {
    /// Its settings.
    pub config: ParserConfig,
}

impl NixParser {
    /// A parser with the default settings.
    pub fn new() -> (r: Self)
        ensures
            r.config.allow_warnings,
            !r.config.follow_imports,
            r.config.max_import_depth == 10,
    {
        NixParser { config: ParserConfig::default() }
    }

    /// A parser with the given settings.
    pub fn with_config(config: ParserConfig) -> (r: Self)
        ensures
            r.config == config,
    {
        NixParser { config }
    }

    /// Parses Nix source text.
    pub fn parse_str(&self, source: &str) -> (r: Result<NixAst, ParseError>)
        ensures
            match r {
                Ok(a) => parsed_as(source@, Ok(a)),
                Err(ParseError::AstError(e)) => parsed_as(source@, Err(e)),
                Err(_) => false,
            },
    {
        match NixAst::parse(source) {
            Ok(a) => Ok(a),
            Err(e) => Err(ParseError::AstError(e)),
        }
    }
}

impl Default for NixParser {
    fn default() -> (r: Self)
        ensures
            r.config.allow_warnings,
            !r.config.follow_imports,
            r.config.max_import_depth == 10,
    {
        NixParser::new()
    }
}

/// A parser of flakes.
pub struct FlakeParser {
    /// The underlying parser.
    pub parser: NixParser,
}

impl FlakeParser {
    /// A flake parser with the default settings.
    pub fn new() -> (r: Self)
        ensures
            r.parser.config.allow_warnings,
            !r.parser.config.follow_imports,
            r.parser.config.max_import_depth == 10,
    {
        FlakeParser { parser: NixParser::new() }
    }
}

impl Default for FlakeParser {
    fn default() -> (r: Self)
        ensures
            r.parser.config.allow_warnings,
            !r.parser.config.follow_imports,
            r.parser.config.max_import_depth == 10,
    {
        FlakeParser::new()
    }
}

/// A parser of NixOS modules.
pub struct ModuleParser {
    /// The underlying parser.
    pub parser: NixParser,
}

impl ModuleParser {
    /// A module parser with the default settings.
    pub fn new() -> (r: Self)
        ensures
            r.parser.config.allow_warnings,
            !r.parser.config.follow_imports,
            r.parser.config.max_import_depth == 10,
    {
        ModuleParser { parser: NixParser::new() }
    }
}

impl Default for ModuleParser {
    fn default() -> (r: Self)
        ensures
            r.parser.config.allow_warnings,
            !r.parser.config.follow_imports,
            r.parser.config.max_import_depth == 10,
    {
        ModuleParser::new()
    }
}

/// A `flake.lock` file: the pinned versions of a flake's inputs.
#[derive(Debug, Clone, PartialEq)]
pub struct FlakeLock {
    /// Lock file format version.
    pub version: u32,
    /// Locked nodes by name.
    pub nodes: NameMap<LockedNode>,
}

/// A node of a lock file.
#[derive(Debug, Clone, PartialEq)]
pub struct LockedNode {
    /// What the input is pinned to.
    pub locked: Option<LockedRef>,
    /// What the input was asked for.
    pub original: Option<OriginalRef>,
    /// The nodes this node's inputs resolve to.
    pub inputs: Option<NameMap<String>>,
}

/// A pinned reference.
#[derive(Debug, Clone, PartialEq)]
pub struct LockedRef {
    /// Kind of reference (`github`, `git`, ...).
    pub ref_type: String,
    /// Owner, for forges.
    pub owner: Option<String>,
    /// Repository, for forges.
    pub repo: Option<String>,
    /// Revision.
    pub rev: Option<String>,
    /// Time of the last change, in seconds since the epoch.
    pub last_modified: Option<u64>,
}

/// A reference as it was written.
#[derive(Debug, Clone, PartialEq)]
pub struct OriginalRef {
    /// Kind of reference.
    pub ref_type: String,
    /// Owner, for forges.
    pub owner: Option<String>,
    /// Repository, for forges.
    pub repo: Option<String>,
    /// Branch or tag.
    pub git_ref: Option<String>,
}

} // verus!
