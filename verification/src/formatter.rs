//! Running Nix formatters: which tool and arguments to use, and how to read
//! and summarise what the tools report.

use vstd::prelude::*;
use crate::text;

verus! {

broadcast use vstd::string::group_string_axioms;

/// The Nix formatters.
#[derive(Debug, Clone, Copy, PartialEq, Eq, Structural)]
pub enum NixFormatter {
    /// nixpkgs-fmt.
    NixpkgsFmt,
    /// alejandra.
    Alejandra,
    /// nixfmt, classic style.
    NixFmt,
    /// nixfmt, RFC style.
    NixFmtRfc,
}

/// The program that runs a formatter.
pub open spec fn command_name(f: NixFormatter) -> Seq<char> {
    match f {
        NixFormatter::NixpkgsFmt => "nixpkgs-fmt"@,
        NixFormatter::Alejandra => "alejandra"@,
        NixFormatter::NixFmt => "nixfmt"@,
        NixFormatter::NixFmtRfc => "nixfmt"@,
    }
}

/// The arguments a formatter needs before the file.
pub open spec fn formatter_args(f: NixFormatter) -> Seq<Seq<char>> {
    match f {
        NixFormatter::NixFmtRfc => seq!["--style"@, "rfc"@],
        _ => Seq::empty(),
    }
}

impl NixFormatter {
    /// The program that runs the formatter.
    pub fn command(&self) -> (r: &'static str)
        ensures
            r@ == command_name(*self),
    {
        match self {
            NixFormatter::NixpkgsFmt => "nixpkgs-fmt",
            NixFormatter::Alejandra => "alejandra",
            NixFormatter::NixFmt => "nixfmt",
            NixFormatter::NixFmtRfc => "nixfmt",
        }
    }

    /// The arguments the formatter needs before the file.
    pub fn args(&self) -> (r: Vec<&'static str>)
        ensures
            r@.map_values(|s: &str| s@) == formatter_args(*self),
    {
        match self {
            NixFormatter::NixFmtRfc => {
                let mut v: Vec<&'static str> = Vec::new();
                v.push("--style");
                v.push("rfc");
                assert(v@.map_values(|s: &str| s@) =~= formatter_args(*self));
                v
            },
            _ => {
                let v: Vec<&'static str> = Vec::new();
                assert(v@.map_values(|s: &str| s@) =~= formatter_args(*self));
                v
            },
        }
    }
}

/// The formatter a project asks for: a `.nixfmt.toml` asks for RFC-style
/// nixfmt, an `.alejandra.toml` for alejandra; otherwise the first tool that
/// `flake.nix` mentions, in the order alejandra, nixpkgs-fmt, nixfmt; and
/// failing all of that nixpkgs-fmt when it is installed.
pub open spec fn detected(
    has_nixfmt_config: bool,
    has_alejandra_config: bool,
    flake: Option<Seq<char>>,
    nixpkgs_fmt_available: bool,
) -> Option<NixFormatter> {
    if has_nixfmt_config {
        Some(NixFormatter::NixFmtRfc)
    } else if has_alejandra_config {
        Some(NixFormatter::Alejandra)
    } else if flake matches Some(c) && text::has_sub(c, "alejandra"@) {
        Some(NixFormatter::Alejandra)
    } else if flake matches Some(c) && text::has_sub(c, "nixpkgs-fmt"@) {
        Some(NixFormatter::NixpkgsFmt)
    } else if flake matches Some(c) && text::has_sub(c, "nixfmt"@) {
        Some(NixFormatter::NixFmt)
    } else if nixpkgs_fmt_available {
        Some(NixFormatter::NixpkgsFmt)
    } else {
        None
    }
}

/// Chooses the formatter of a project from what was found in it: whether
/// `.nixfmt.toml` and `.alejandra.toml` exist, the text of `flake.nix` if it
/// could be read, and whether nixpkgs-fmt is installed.
pub fn detect_formatter(
    has_nixfmt_config: bool,
    has_alejandra_config: bool,
    flake: Option<&str>,
    nixpkgs_fmt_available: bool,
) -> (r: Option<NixFormatter>)
    ensures
        r == detected(
            has_nixfmt_config,
            has_alejandra_config,
            match flake {
                Some(c) => Some(c@),
                None => None,
            },
            nixpkgs_fmt_available,
        ),
{
    if has_nixfmt_config {
        return Some(NixFormatter::NixFmtRfc);
    }
    if has_alejandra_config {
        return Some(NixFormatter::Alejandra);
    }
    match flake {
        Some(c) => {
            let v = text::chars_of(c);
            if text::contains_str(v.as_slice(), "alejandra") {
                return Some(NixFormatter::Alejandra);
            } else if text::contains_str(v.as_slice(), "nixpkgs-fmt") {
                return Some(NixFormatter::NixpkgsFmt);
            } else if text::contains_str(v.as_slice(), "nixfmt") {
                return Some(NixFormatter::NixFmt);
            }
        },
        None => {},
    }
    if nixpkgs_fmt_available {
        Some(NixFormatter::NixpkgsFmt)
    } else {
        None
    }
}

/// Whether a directory is searched for Nix files: hidden directories and
/// `result` links are skipped.
pub fn descends_into(dir_name: &str) -> (b: bool)
    ensures
        b == !(text::has_prefix(dir_name@, "."@) || dir_name@ == "result"@),
{
    let v = text::chars_of(dir_name);
    !(text::starts_with_str(v.as_slice(), ".") || text::eq_str(v.as_slice(), "result"))
}

/// Whether a file with this extension is a Nix file.
pub fn is_nix_extension(ext: &str) -> (b: bool)
    ensures
        b == (ext@ == "nix"@),
{
    let v = text::chars_of(ext);
    text::eq_str(v.as_slice(), "nix")
}

/// What formatting one file gave.
#[derive(Debug, Clone)]
pub struct FormattingResult {
    /// The file was formatted.
    pub formatted: bool,
    /// The file needs formatting (check mode).
    pub needs_formatting: bool,
    /// What the tool reported when it failed.
    pub error: Option<String>,
}

/// Runs a formatter on files.
pub struct FormatterService {
    /// The tool.
    pub formatter: NixFormatter,
    /// Whether files are only checked.
    pub check_only: bool,
}

impl FormatterService {
    /// A service that formats files in place.
    pub fn new(formatter: NixFormatter) -> (r: Self)
        ensures
            r.formatter == formatter,
            !r.check_only,
    {
        FormatterService { formatter, check_only: false }
    }

    /// A service that only checks formatting.
    pub fn check_only(formatter: NixFormatter) -> (r: Self)
        ensures
            r.formatter == formatter,
            r.check_only,
    {
        FormatterService { formatter, check_only: true }
    }

    /// The arguments to run the tool with on a file: the tool's own, then
    /// `--check` in check mode, then the file.
    pub fn command_args(&self, path: &str) -> (r: Vec<String>)
        ensures
            r@.map_values(|s: String| s@) == formatter_args(self.formatter) + (if self.check_only {
                seq!["--check"@]
            } else {
                Seq::empty()
            }) + seq![path@],
    {
        let mut r: Vec<String> = Vec::new();
        let a = self.formatter.args();
        let mut i: usize = 0;
        while i < a.len()
            invariant
                i <= a@.len(),
                a@.map_values(|s: &str| s@) == formatter_args(self.formatter),
                r@.len() == i,
                forall|j: int| 0 <= j < i ==> #[trigger] r@[j]@ == a@[j]@,
            decreases a@.len() - i,
        {
            r.push(text::string_from(a[i]));
            i = i + 1;
        }
        assert(r@.map_values(|s: String| s@) =~= a@.map_values(|s: &str| s@));
        let ghost before = r@.map_values(|s: String| s@);
        if self.check_only {
            r.push(text::string_from("--check"));
        }
        let ghost mid = r@.map_values(|s: String| s@);
        assert(mid =~= before + (if self.check_only {
            seq!["--check"@]
        } else {
            Seq::empty()
        }));
        r.push(text::string_from(path));
        assert(r@.map_values(|s: String| s@) =~= mid + seq![path@]);
        r
    }

    /// What a run of the tool means: success formats the file (unless only
    /// checking); failure in check mode means the file needs formatting; the
    /// tool's error output is kept when it failed.
    pub fn result_of(&self, success: bool, stderr: String) -> (r: FormattingResult)
        ensures
            r.formatted == (success && !self.check_only),
            r.needs_formatting == (!success && self.check_only),
            r.error == (if success {
                None
            } else {
                Some(stderr)
            }),
    {
        FormattingResult {
            formatted: success && !self.check_only,
            needs_formatting: !success && self.check_only,
            error: if success {
                None
            } else {
                Some(stderr)
            },
        }
    }
}

/// What formatting several files gave.
#[derive(Debug, Clone)]
pub struct FormattingReport {
    /// How many files were processed.
    pub total_files: usize,
    /// The files that were formatted.
    pub formatted_files: Vec<String>,
    /// The files that need formatting.
    pub needs_formatting: Vec<String>,
    /// The files that failed, with the failure.
    pub errors: Vec<(String, String)>,
}

impl Default for FormattingReport {
    fn default() -> (r: Self)
        ensures
            r.total_files == 0,
            r.formatted_files@.len() == 0,
            r.needs_formatting@.len() == 0,
            r.errors@.len() == 0,
    {
        FormattingReport {
            total_files: 0,
            formatted_files: Vec::new(),
            needs_formatting: Vec::new(),
            errors: Vec::new(),
        }
    }
}

/// The summary line of a report.
pub open spec fn summary_text(
    total: nat,
    formatted: nat,
    needing: nat,
    errors: nat,
) -> Seq<char> {
    if needing == 0 && errors == 0 {
        "✅ All "@ + text::decimal_digits(total) + " files are properly formatted"@
    } else if formatted != 0 {
        "Formatted "@ + text::decimal_digits(formatted) + " files, "@ + text::decimal_digits(errors)
            + " errors"@
    } else {
        "❌ "@ + text::decimal_digits(needing) + " files need formatting, "@
            + text::decimal_digits(errors) + " errors"@
    }
}

impl FormattingReport {
    /// Whether no file needs formatting and none failed.
    pub fn all_formatted(&self) -> (b: bool)
        ensures
            b == (self.needs_formatting@.len() == 0 && self.errors@.len() == 0),
    {
        self.needs_formatting.len() == 0 && self.errors.len() == 0
    }

    /// One line that sums up the report.
    pub fn summary(&self) -> (s: String)
        ensures
            s@ == summary_text(
                self.total_files as nat,
                self.formatted_files@.len(),
                self.needs_formatting@.len(),
                self.errors@.len(),
            ),
    {
        let mut v: Vec<char> = Vec::new();
        if self.needs_formatting.len() == 0 && self.errors.len() == 0 {
            text::append_str(&mut v, "✅ All ");
            let d = text::decimal(self.total_files as u64);
            text::append_chars(&mut v, d.as_slice());
            text::append_str(&mut v, " files are properly formatted");
        } else if self.formatted_files.len() != 0 {
            text::append_str(&mut v, "Formatted ");
            let d = text::decimal(self.formatted_files.len() as u64);
            text::append_chars(&mut v, d.as_slice());
            text::append_str(&mut v, " files, ");
            let e = text::decimal(self.errors.len() as u64);
            text::append_chars(&mut v, e.as_slice());
            text::append_str(&mut v, " errors");
        } else {
            text::append_str(&mut v, "❌ ");
            let d = text::decimal(self.needs_formatting.len() as u64);
            text::append_chars(&mut v, d.as_slice());
            text::append_str(&mut v, " files need formatting, ");
            let e = text::decimal(self.errors.len() as u64);
            text::append_chars(&mut v, e.as_slice());
            text::append_str(&mut v, " errors");
        }
        text::string_of(v.as_slice())
    }

    /// Records what processing one file gave: a formatted file, a file that
    /// needs formatting, and the tool's error output, or the error that kept
    /// the tool from running.
    pub fn record(&mut self, file: String, outcome: Result<FormattingResult, String>)
        ensures
            final(self).total_files == old(self).total_files,
            final(self).formatted_files@ == (match outcome {
                Ok(r) => if r.formatted {
                    old(self).formatted_files@.push(file)
                } else {
                    old(self).formatted_files@
                },
                Err(_) => old(self).formatted_files@,
            }),
            final(self).needs_formatting@ == (match outcome {
                Ok(r) => if !r.formatted && r.needs_formatting {
                    old(self).needs_formatting@.push(file)
                } else {
                    old(self).needs_formatting@
                },
                Err(_) => old(self).needs_formatting@,
            }),
            final(self).errors@ == (match outcome {
                Ok(r) => match r.error {
                    Some(e) => old(self).errors@.push((file, e)),
                    None => old(self).errors@,
                },
                Err(e) => old(self).errors@.push((file, e)),
            }),
    {
        match outcome {
            Ok(result) => {
                if result.formatted {
                    self.formatted_files.push(file.clone());
                } else if result.needs_formatting {
                    self.needs_formatting.push(file.clone());
                }
                match result.error {
                    Some(e) => self.errors.push((file, e)),
                    None => {},
                }
            },
            Err(e) => {
                self.errors.push((file, e));
            },
        }
    }
}

} // verus!
