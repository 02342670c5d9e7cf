use cim_domain_nix::home_manager::{
    convert_git, convert_tmux, convert_vim, convert_zsh, ConverterKind, HomeConfiguration,
    ProgramConfig, ProgramConverter,
};
use cim_domain_nix::value::NixValue;

#[test]
fn test_program_converter_initialization() {
    let converter = ProgramConverter::new();
    assert!(converter.is_supported("git"));
    assert!(converter.is_supported("vim"));
    assert!(converter.is_supported("zsh"));
    assert!(converter.is_supported("tmux"));
}

#[test]
fn test_git_conversion() {
    let converter = ProgramConverter::new();
    let content = r#"
[user]
    name = Test User
    email = test@example.com
[core]
    editor = vim
"#;
    let result = converter.convert("git", content);
    assert!(result.is_ok());
    let config = result.unwrap();
    assert!(config.enabled);
    assert!(config.settings.contains_key("userName"));
    assert!(config.settings.contains_key("userEmail"));
}

#[test]
fn test_auto_convert() {
    let converter = ProgramConverter::new();
    let result = converter.auto_convert(".vimrc", "/tmp/x/.vimrc", "set number\nsyntax on");
    assert!(result.is_ok());
    let (program, config) = result.unwrap();
    assert_eq!(program, "vim");
    assert!(config.enabled);
    assert!(config.extra_config.is_some());
}

#[test]
fn test_home_configuration() {
    let mut config = HomeConfiguration::new();
    let git_config = ProgramConfig::new(true);
    config.add_program("git".to_string(), git_config);
    assert_eq!(config.programs.len(), 1);
    assert!(config.programs.get("git").unwrap().is_enabled());
}

#[test]
fn git_values() {
    let c = convert_git("[user]\n name = A = B \n[core]\n editor = vim\n[other]\n x = 1\n");
    match c.settings.get("userName") {
        Some(NixValue::String(s)) => assert_eq!(s.value, "A = B"),
        _ => panic!("expected userName"),
    }
    match c.settings.get("userEmail") {
        Some(NixValue::String(s)) => assert_eq!(s.value, ""),
        _ => panic!("expected userEmail"),
    }
    match c.settings.get("extraConfig") {
        Some(NixValue::Attrset(e)) => assert!(e.contains_key("core")),
        _ => panic!("expected extraConfig"),
    }
    assert_eq!(c.settings.len(), 3);
}

#[test]
fn zsh_values() {
    let c = convert_zsh("# comment\nalias ll='ls -l'\nexport EDITOR=\"vim\"\nsetopt autocd\nalias broken\nbindkey -v\n");
    match c.settings.get("shellAliases") {
        Some(NixValue::Attrset(a)) => match a.get("ll") {
            Some(NixValue::String(s)) => assert_eq!(s.value, "ls -l"),
            _ => panic!("expected alias"),
        },
        _ => panic!("expected aliases"),
    }
    match c.settings.get("sessionVariables") {
        Some(NixValue::Attrset(a)) => assert!(a.contains_key("EDITOR")),
        _ => panic!("expected variables"),
    }
    match c.settings.get("initExtra") {
        Some(NixValue::String(s)) => assert_eq!(s.value, "setopt autocd\nbindkey -v"),
        _ => panic!("expected initExtra"),
    }
}

#[test]
fn tmux_and_vim_values() {
    let c = convert_tmux("set -g prefix C-a\nset -g mouse on\nset -g base-index 1\n");
    match c.settings.get("prefix") {
        Some(NixValue::String(s)) => assert_eq!(s.value, "C-a"),
        _ => panic!("expected prefix"),
    }
    assert!(c.settings.contains_key("mouse"));
    assert!(matches!(c.settings.get("baseIndex"), Some(NixValue::Integer(i)) if i.value == 1));
    let v = convert_vim("set relativenumber");
    assert!(v.settings.contains_key("settings"));
    assert_eq!(v.extra_config, Some("set relativenumber".to_string()));
    let e = convert_vim("\" nothing");
    assert_eq!(e.settings.len(), 0);
}

#[test]
fn registry_lookups() {
    let mut c = ProgramConverter::new();
    assert_eq!(c.supported_programs().len(), 8);
    assert!(c.convert("emacs", "").is_err());
    assert_eq!(c.auto_kind(".tmux.conf"), Some(ConverterKind::Tmux));
    assert!(c.auto_convert("notes.txt", "notes.txt", "").is_err());
    c.register_converter("nvim".to_string(), ConverterKind::Vim);
    assert!(c.is_supported("nvim"));
    assert_eq!(ConverterKind::Git.program_name(), "git");
}
