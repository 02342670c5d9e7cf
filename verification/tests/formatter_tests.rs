use cim_domain_nix::formatter::{
    descends_into, detect_formatter, is_nix_extension, FormatterService, FormattingReport,
    FormattingResult, NixFormatter,
};

#[test]
fn test_formatter_detection() {
    assert_eq!(NixFormatter::NixpkgsFmt.command(), "nixpkgs-fmt");
    assert_eq!(NixFormatter::Alejandra.command(), "alejandra");
    assert_eq!(NixFormatter::NixFmt.command(), "nixfmt");
}

#[test]
fn rfc_style_arguments() {
    assert_eq!(NixFormatter::NixFmtRfc.command(), "nixfmt");
    assert_eq!(NixFormatter::NixFmtRfc.args(), vec!["--style", "rfc"]);
    assert!(NixFormatter::Alejandra.args().is_empty());
}

#[test]
fn project_detection_order() {
    assert_eq!(detect_formatter(true, true, Some("alejandra"), true), Some(NixFormatter::NixFmtRfc));
    assert_eq!(detect_formatter(false, true, None, false), Some(NixFormatter::Alejandra));
    assert_eq!(
        detect_formatter(false, false, Some("formatter = nixpkgs-fmt; # not alejandra"), false),
        Some(NixFormatter::Alejandra)
    );
    assert_eq!(detect_formatter(false, false, Some("nixpkgs-fmt"), false), Some(NixFormatter::NixpkgsFmt));
    assert_eq!(detect_formatter(false, false, Some("pkgs.nixfmt-rfc-style"), false), Some(NixFormatter::NixFmt));
    assert_eq!(detect_formatter(false, false, Some("{ }"), true), Some(NixFormatter::NixpkgsFmt));
    assert_eq!(detect_formatter(false, false, None, false), None);
}

#[test]
fn command_lines() {
    let s = FormatterService::check_only(NixFormatter::NixFmtRfc);
    assert_eq!(s.command_args("a.nix"), vec!["--style", "rfc", "--check", "a.nix"]);
    let s = FormatterService::new(NixFormatter::NixpkgsFmt);
    assert_eq!(s.command_args("b.nix"), vec!["b.nix"]);
}

#[test]
fn run_outcomes() {
    let s = FormatterService::check_only(NixFormatter::Alejandra);
    let r = s.result_of(false, "bad".to_string());
    assert!(!r.formatted && r.needs_formatting);
    assert_eq!(r.error, Some("bad".to_string()));
    let s = FormatterService::new(NixFormatter::Alejandra);
    let r = s.result_of(true, "ignored".to_string());
    assert!(r.formatted && !r.needs_formatting && r.error.is_none());
}

#[test]
fn reports() {
    let mut report = FormattingReport::default();
    report.total_files = 3;
    assert!(report.all_formatted());
    assert_eq!(report.summary(), "✅ All 3 files are properly formatted");
    report.record(
        "a.nix".to_string(),
        Ok(FormattingResult { formatted: false, needs_formatting: true, error: Some("diff".to_string()) }),
    );
    report.record("b.nix".to_string(), Err("spawn failed".to_string()));
    assert!(!report.all_formatted());
    assert_eq!(report.needs_formatting, vec!["a.nix".to_string()]);
    assert_eq!(report.errors.len(), 2);
    assert_eq!(report.summary(), "❌ 1 files need formatting, 2 errors");
    report.record(
        "c.nix".to_string(),
        Ok(FormattingResult { formatted: true, needs_formatting: false, error: None }),
    );
    assert_eq!(report.summary(), "Formatted 1 files, 2 errors");
}

#[test]
fn directory_walk_rules() {
    assert!(descends_into("src"));
    assert!(!descends_into(".git"));
    assert!(!descends_into("result"));
    assert!(is_nix_extension("nix"));
    assert!(!is_nix_extension("rs"));
}
