//! Nix domain library: a model of Nix source values, nix-topology documents,
//! NATS subject naming for the Nix domain, and the text-processing rules used
//! to read flakes, git history and dotfiles.

pub mod text;
pub mod named;
pub mod ids;
pub mod subject;
pub mod syntax;
pub mod value;
pub mod ast;
pub mod topology;
pub mod nix_parser;
pub mod reader;
pub mod findings;
pub mod validator;
pub mod formatter;
pub mod domain_error;
pub mod git;
pub mod home_manager;
pub mod network;
pub mod network_builder;
pub mod lock_tracker;
pub mod flake_analysis;
pub mod flake_show;
pub mod source_parser;
pub mod home_analyzer;
pub mod nats;
pub mod handlers;
pub mod expression;
pub mod expression_reader;
pub mod advanced_reader;
pub mod manipulator;
pub mod syntax_query;
pub mod flake_parser;
pub mod functor;
