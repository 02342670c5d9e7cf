use cim_domain_nix::home_analyzer::{DotfileEntry, HomeManagerAnalyzer};
use cim_domain_nix::home_manager::{ConflictType, HomeConfiguration, Priority, ProgramConfig, SuggestionType};
use cim_domain_nix::source_parser::{NixExpr, NixFile, ParsedFile};
use cim_domain_nix::value::{NixString, NixValue};

fn set(members: Vec<(&str, NixExpr)>) -> NixExpr {
    NixExpr::AttrSet(members.into_iter().map(|(k, v)| (k.to_string(), v)).collect())
}

fn s(t: &str) -> NixExpr {
    NixExpr::String(t.to_string())
}

fn parsed(expr: NixExpr) -> ParsedFile {
    ParsedFile { path: String::new(), expr, errors: vec![] }
}

#[test]
fn reads_programs_services_packages_and_files() {
    let expr = set(vec![
        (
            "programs",
            set(vec![
                (
                    "git",
                    set(vec![
                        ("enable", NixExpr::Bool(true)),
                        ("settings", set(vec![("user", s("me")), ("lfs", NixExpr::Identifier("x".to_string()))])),
                        ("extraConfig", s("[core]")),
                    ]),
                ),
                ("vim", set(vec![("enable", NixExpr::Identifier("true".to_string()))])),
            ]),
        ),
        (
            "services",
            set(vec![(
                "syncthing",
                set(vec![
                    ("enable", NixExpr::Bool(true)),
                    ("port", NixExpr::Int(8384)),
                    ("dirs", NixExpr::List(vec![s("a"), NixExpr::Path("/b".to_string())])),
                ]),
            )]),
        ),
        (
            "home",
            set(vec![
                (
                    "packages",
                    NixExpr::List(vec![NixExpr::Identifier("ripgrep".to_string()), s("not-an-ident")]),
                ),
                (
                    "file",
                    set(vec![
                        (".vimrc", set(vec![("source", s("./vimrc"))])),
                        (".bashrc", set(vec![("source", NixExpr::Path("./bashrc".to_string()))])),
                        (".nothing", set(vec![("text", s("x"))])),
                    ]),
                ),
            ]),
        ),
    ]);
    let analyzer = HomeManagerAnalyzer::new();
    let config = analyzer.extract_home_config(&parsed(expr)).unwrap();

    let git = config.programs.get("git").unwrap();
    assert!(git.enabled);
    assert_eq!(git.settings.len(), 1);
    assert!(git.settings.contains_key("user"));
    assert_eq!(git.extra_config, Some("[core]".to_string()));
    // `true` written as an identifier is not a boolean.
    assert!(!config.programs.get("vim").unwrap().enabled);

    let sync = config.services.get("syncthing").unwrap();
    assert!(sync.enabled);
    assert!(!sync.settings.contains_key("enable"));
    assert!(sync.settings.contains_key("port"));
    match sync.settings.get("dirs").unwrap() {
        NixValue::List(l) => assert_eq!(l.elements.len(), 2),
        _ => panic!("expected a list"),
    }

    assert_eq!(config.home_packages, vec!["ripgrep".to_string()]);
    let files: Vec<(String, String)> =
        config.file_mappings.iter().map(|m| (m.source.clone(), m.target.clone())).collect();
    assert_eq!(
        files,
        vec![
            ("./vimrc".to_string(), ".vimrc".to_string()),
            ("./bashrc".to_string(), ".bashrc".to_string()),
        ]
    );
}

#[test]
fn a_parsed_file_root_reads_as_nothing() {
    let file = NixFile::parse_string("{ programs = { }; }".to_string(), None).unwrap();
    let p = ParsedFile { path: String::new(), expr: NixExpr::from_ast(&file.ast), errors: vec![] };
    let config = HomeManagerAnalyzer::default().extract_home_config(&p).unwrap();
    assert!(config.programs.is_empty());
    assert!(config.home_packages.is_empty());
}

fn program(enabled: bool, settings: Vec<&str>, extra: Option<&str>) -> ProgramConfig {
    let mut p = ProgramConfig::new(enabled);
    for k in settings {
        p.settings.insert(k.to_string(), NixValue::String(NixString { value: "v".to_string() }));
    }
    p.extra_config = extra.map(|e| e.to_string());
    p
}

#[test]
fn analyses_programs() {
    let mut config = HomeConfiguration::new();
    config.add_program("git".to_string(), program(true, vec!["user"], Some("x")));
    config.add_program("ssh".to_string(), program(true, vec!["passwordAuthentication"], None));
    config.add_program("neovim".to_string(), program(false, vec![], None));
    let analyses = HomeManagerAnalyzer::new().analyze_programs(&config).unwrap();
    assert_eq!(analyses.len(), 3);
    assert_eq!(analyses[0].name, "git");
    assert_eq!(analyses[0].configuration_complexity.0, 11);
    assert_eq!(analyses[0].security_score.0, 80);
    assert_eq!(analyses[1].security_score.0, 100);
    assert_eq!(analyses[2].dependencies, vec!["ripgrep".to_string(), "fd".to_string()]);
    assert!(!analyses[2].enabled);
}

#[test]
fn detects_conflicts() {
    let mut config = HomeConfiguration::new();
    config.add_program("bash".to_string(), program(true, vec![], None));
    config.add_program("zsh".to_string(), program(true, vec![], None));
    config.add_program("fish".to_string(), program(false, vec![], None));
    config.add_program("emacs".to_string(), program(true, vec![], None));
    config.home_packages.push("ripgrep".to_string());
    let conflicts = HomeManagerAnalyzer::new().detect_conflicts(&config).unwrap();
    assert_eq!(conflicts.len(), 2);
    assert_eq!(conflicts[0].conflict_type, ConflictType::ConflictingSettings);
    assert_eq!(conflicts[0].description, "Multiple shells are enabled");
    assert_eq!(conflicts[0].affected_items, vec!["bash".to_string(), "zsh".to_string()]);
    assert_eq!(conflicts[1].conflict_type, ConflictType::MissingDependency);
    assert_eq!(conflicts[1].description, "emacs requires git but it's not configured");
    assert_eq!(conflicts[1].affected_items, vec!["emacs".to_string(), "git".to_string()]);
}

#[test]
fn generates_suggestions() {
    let mut config = HomeConfiguration::new();
    config.add_program("git".to_string(), program(true, vec![], None));
    config.add_program("fzf".to_string(), program(false, vec!["k"], None));
    let suggestions = HomeManagerAnalyzer::new().generate_suggestions(&config).unwrap();
    let texts: Vec<&str> = suggestions.iter().map(|s| s.description.as_str()).collect();
    assert_eq!(
        texts,
        vec![
            "Consider enabling direnv for improved productivity",
            "Consider enabling starship for improved productivity",
            "Consider enabling ripgrep for improved productivity",
            "Enable Git commit signing for better security",
            "fzf has configuration but is disabled",
        ]
    );
    assert_eq!(suggestions[3].suggestion_type, SuggestionType::SecurityImprovement);
    assert_eq!(suggestions[3].priority, Priority::Medium);
    assert_eq!(suggestions[4].suggestion_type, SuggestionType::DisableUnusedProgram);
}

#[test]
fn identifies_and_migrates_dotfiles() {
    let analyzer = HomeManagerAnalyzer::new();
    assert_eq!(analyzer.identify_program_from_path(".gitconfig"), Some("git".to_string()));
    assert_eq!(analyzer.identify_program_from_path(".tmux.conf"), Some("tmux".to_string()));
    assert_eq!(analyzer.identify_program_from_path("notes.txt"), None);

    let entries = vec![
        DotfileEntry { file_name: "gitconfig".to_string(), path: "/d/gitconfig".to_string(), content: None },
        DotfileEntry {
            file_name: ".vimrc".to_string(),
            path: "/d/.vimrc".to_string(),
            content: Some("set nu".to_string()),
        },
        DotfileEntry { file_name: "inputrc".to_string(), path: "/d/inputrc".to_string(), content: None },
    ];
    let config = analyzer.migrate_from_dotfiles(&entries).unwrap();
    assert!(config.programs.get("git").unwrap().enabled);
    assert_eq!(config.programs.get("vim").unwrap().extra_config, Some("set nu".to_string()));
    assert_eq!(config.file_mappings.len(), 1);
    assert_eq!(config.file_mappings[0].source, "/d/inputrc");
    assert_eq!(config.file_mappings[0].target, ".inputrc");
}
