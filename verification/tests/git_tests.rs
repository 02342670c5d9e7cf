use cim_domain_nix::domain_error::NixDomainError;
use cim_domain_nix::git::{
    dependency_changes, lock_history_args, nix_changes_args, no_matching_history,
    parse_lock_log, parse_nix_file_changes, FileChangeType, GitFlakeInput, GitFlakeService,
    GitNixAnalyzer, GitNixMapper, LockedFields,
};
use cim_domain_nix::named::NameMap;

fn fields(t: Option<&str>) -> LockedFields {
    LockedFields {
        input_type: t.map(|s| s.to_string()),
        owner: None,
        repo: None,
        rev: None,
        git_ref: None,
        url: None,
        path: None,
        last_modified: None,
    }
}

#[test]
fn test_git_url_to_flake_ref() {
    let mapper = GitNixMapper::new();

    let flake_ref = mapper.git_url_to_flake_ref("https://github.com/NixOS/nixpkgs").unwrap();
    assert_eq!(flake_ref.uri, "github:NixOS/nixpkgs");

    let flake_ref = mapper.git_url_to_flake_ref("https://gitlab.com/example/project").unwrap();
    assert_eq!(flake_ref.uri, "gitlab:example/project");

    let flake_ref = mapper.git_url_to_flake_ref("https://git.sr.ht/~user/project").unwrap();
    assert_eq!(flake_ref.uri, "sourcehut:~user/project");

    let flake_ref = mapper.git_url_to_flake_ref("https://example.com/repo.git").unwrap();
    assert_eq!(flake_ref.uri, "git+https://example.com/repo.git");
}

#[test]
fn test_parse_forge_url() {
    let mapper = GitNixMapper::new();

    let result = mapper.parse_forge_url("https://github.com/NixOS/nixpkgs");
    assert_eq!(result, Some(("github".to_string(), "NixOS".to_string(), "nixpkgs".to_string())));

    let result = mapper.parse_forge_url("https://github.com/owner/repo.git");
    assert_eq!(result, Some(("github".to_string(), "owner".to_string(), "repo".to_string())));

    let result = mapper.parse_forge_url("https://git.sr.ht/~user/project");
    assert_eq!(result, Some(("sourcehut".to_string(), "user".to_string(), "project".to_string())));
}

#[test]
fn forge_url_edge_cases() {
    let mapper = GitNixMapper::new();
    assert_eq!(mapper.parse_forge_url("https://github.com/lonely"), None);
    assert_eq!(mapper.git_url_to_flake_ref("https://github.com/lonely").unwrap().uri, "git+https://github.com/lonely");
    assert_eq!(
        mapper.parse_forge_url("https://github.com/a/b.git.git/extra"),
        Some(("github".to_string(), "a".to_string(), "b.git.git".to_string()))
    );
    assert_eq!(mapper.git_url_to_flake_ref("https://github.com/{repo}/x").unwrap().uri, "github:x/x");
}

#[test]
fn test_parse_flake_lock_input() {
    let mut analyzer = GitNixAnalyzer::new();
    let mut l = fields(Some("github"));
    l.owner = Some("NixOS".to_string());
    l.repo = Some("nixpkgs".to_string());
    l.rev = Some("abc123".to_string());
    l.git_ref = Some("nixos-unstable".to_string());
    l.last_modified = Some(1234567890);

    let input = analyzer.parse_locked_input("nixpkgs", &l).unwrap();
    assert_eq!(input.name, "nixpkgs");
    assert_eq!(input.url, "github:NixOS/nixpkgs");
    assert_eq!(input.git_ref, Some("nixos-unstable".to_string()));
    assert!(input.resolved_hash.is_some());
    assert!(input.last_modified.is_some());
    assert_eq!(input.resolved_hash.unwrap(), "abc1230000000000000000000000000000000000");
}

#[test]
fn test_parse_git_input() {
    let mut analyzer = GitNixAnalyzer::new();
    let mut l = fields(Some("git"));
    l.url = Some("https://example.com/repo.git".to_string());
    l.rev = Some("def456".to_string());
    l.last_modified = Some(1234567890);

    let input = analyzer.parse_locked_input("custom", &l).unwrap();
    assert_eq!(input.name, "custom");
    assert_eq!(input.url, "https://example.com/repo.git");
    assert!(input.resolved_hash.is_some());
}

#[test]
fn locked_inputs_of_other_kinds() {
    let mut analyzer = GitNixAnalyzer::new();
    let mut p = fields(Some("path"));
    p.path = Some("/src".to_string());
    assert_eq!(analyzer.parse_locked_input("local", &p).unwrap().url, "path:/src");
    assert_eq!(analyzer.parse_locked_input("t", &fields(Some("tarball"))).unwrap().url, "tarball:t");
    match analyzer.parse_locked_input("x", &fields(None)) {
        Err(NixDomainError::ParseError(m)) => assert_eq!(m, "Missing input type"),
        _ => panic!("expected an error"),
    }
    assert_eq!(analyzer.get_stats().2, 3);
}

#[test]
fn lock_inputs_skip_root() {
    let mut analyzer = GitNixAnalyzer::new();
    let nodes = vec![
        ("root".to_string(), Some(fields(Some("github")))),
        ("a".to_string(), Some(fields(Some("path")))),
        ("b".to_string(), None),
    ];
    let inputs = analyzer.parse_flake_lock_inputs(&nodes).unwrap();
    assert_eq!(inputs.len(), 1);
    assert!(inputs.contains_key("a"));
    let bad = vec![("c".to_string(), Some(fields(None)))];
    assert!(analyzer.parse_flake_lock_inputs(&bad).is_err());
}

fn input(name: &str, hash: Option<&str>) -> GitFlakeInput {
    GitFlakeInput {
        name: name.to_string(),
        url: format!("github:x/{name}"),
        git_ref: None,
        resolved_hash: hash.map(|h| h.to_string()),
        store_path: None,
        follows: None,
        last_modified: None,
    }
}

#[test]
fn dependency_changes_between_locks() {
    let mut from = NameMap::new();
    from.insert("a".to_string(), input("a", Some("1")));
    from.insert("b".to_string(), input("b", Some("1")));
    from.insert("c".to_string(), input("c", Some("1")));
    let mut to = NameMap::new();
    to.insert("b".to_string(), input("b", Some("2")));
    to.insert("c".to_string(), input("c", Some("1")));
    to.insert("d".to_string(), input("d", None));
    let ch = dependency_changes(&from, &to);
    assert_eq!(ch.added.len(), 1);
    assert_eq!(ch.added[0].name, "d");
    assert_eq!(ch.removed.len(), 1);
    assert_eq!(ch.removed[0].name, "a");
    assert_eq!(ch.updated.len(), 1);
    assert_eq!(ch.updated[0].0.resolved_hash, Some("1".to_string()));
    assert_eq!(ch.updated[0].1.resolved_hash, Some("2".to_string()));
    let same = dependency_changes(&from, &from);
    assert!(same.added.is_empty() && same.removed.is_empty() && same.updated.is_empty());
}

#[test]
fn nix_file_changes_from_log() {
    let log = "h1|100|Ann|ann@x|first|part\nM\tflake.nix\nA\tREADME.md\nh2|200|Bob|bob@x|second\nD\tREADME.md\nh3|300|Cy|cy@x|third\nR100\told.nix\n\nX\tz.nix\n";
    let changes = parse_nix_file_changes(log);
    assert_eq!(changes.len(), 2);
    assert_eq!(changes[0].commit, "h1");
    assert_eq!(changes[0].timestamp, 100);
    assert_eq!(changes[0].author.email, "ann@x");
    assert_eq!(changes[0].message, "first|part");
    assert_eq!(changes[0].files.len(), 1);
    assert_eq!(changes[0].files[0].path, "flake.nix");
    assert_eq!(changes[0].files[0].change_type, FileChangeType::Modified);
    assert_eq!(changes[1].commit, "h3");
    assert_eq!(changes[1].files[0].change_type, FileChangeType::Renamed);
}

#[test]
fn lock_history_log() {
    let entries = parse_lock_log("h1|5|A|a@x|msg\nshort|line\n\nh2|x|B|b@x|m|n\n");
    assert_eq!(entries.len(), 2);
    assert_eq!(entries[0].timestamp, Some(5));
    assert_eq!(entries[1].timestamp, None);
    assert_eq!(entries[1].message, "m|n");
    assert_eq!(
        lock_history_args(Some(3)),
        vec!["log", "--format=%H|%at|%an|%ae|%s", "--follow", "--", "flake.lock", "-3"]
    );
    assert_eq!(
        nix_changes_args(None, Some(12)),
        vec!["log", "--format=%H|%at|%an|%ae|%s", "--name-status", "-12", "--", "*.nix"]
    );
    assert!(no_matching_history("fatal: your current branch 'main' does not have any commits yet"));
    assert!(!no_matching_history("fatal: not a git repository"));
}

#[test]
fn service_checks_and_reads() {
    let mut service = GitFlakeService::new();
    assert!(service.validate_git_url("").is_err());
    assert!(service.validate_git_url("ftp://x").is_err());
    assert!(service.validate_git_url("ssh://git@x/y").is_ok());
    let mut l = fields(Some("github"));
    l.owner = Some("NixOS".to_string());
    l.repo = Some("nixpkgs".to_string());
    l.rev = Some("abc".to_string());
    let i = service.parse_locked_input("nixpkgs", &l).unwrap();
    assert_eq!(i.url, "github:NixOS/nixpkgs");
    assert_eq!(i.resolved_hash, Some("abc".to_string()));
    assert!(service.parse_locked_input("x", &fields(None)).is_err());
    assert_eq!(service.get_stats(), (0, 2, 1));
    assert_eq!(service.clone_args("u", "t"), vec!["clone", "u", "t"]);
    assert_eq!(GitFlakeService::default_branch_of(true, "refs/remotes/origin/dev\n"), "dev");
    assert_eq!(GitFlakeService::default_branch_of(false, "refs/remotes/origin/dev"), "main");
}
