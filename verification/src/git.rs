//! Git and Nix: turning repository URLs into flake references, reading the
//! inputs pinned in `flake.lock`, and reading git history for changes to
//! Nix files.

use vstd::prelude::*;
use crate::domain_error::NixDomainError;
use crate::named::{NameMap, lookup, insert};
use crate::flake_show::{JsonValue, get_member, json_of, json_text, json_view, member, members, parse_json, text_of};
use crate::text::{self, has_prefix, pieces, strip_prefix_all, strip_suffix_all, replace_all, views};

verus! {

broadcast use vstd::string::group_string_axioms;

/// A flake reference, such as `github:NixOS/nixpkgs`.
#[derive(Debug, Clone, PartialEq)]
pub struct FlakeRef {
    /// The reference.
    pub uri: String,
}

impl FlakeRef {
    /// A reference.
    pub fn new(uri: String) -> (r: Self)
        ensures
            r.uri == uri,
    {
        FlakeRef { uri }
    }
}

/// How a forge's repositories are written as URLs and as flake references.
#[derive(Debug, Clone, PartialEq)]
struct ForgeMapping {
    name: String,
    url_template: String,
    flake_ref_template: String,
}

/// The URL prefix of GitHub repositories.
pub open spec fn github_prefix() -> Seq<char> {
    "https://github.com/"@
}

/// The URL prefix of GitLab repositories.
pub open spec fn gitlab_prefix() -> Seq<char> {
    "https://gitlab.com/"@
}

/// The URL prefix of sourcehut repositories.
pub open spec fn sourcehut_prefix() -> Seq<char> {
    "https://git.sr.ht/~"@
}

/// The path segments of a forge URL: the prefix and any `.git` ending
/// removed, split at `/`.
pub open spec fn forge_segments(url: Seq<char>, prefix: Seq<char>) -> Seq<Seq<char>> {
    pieces(strip_suffix_all(strip_prefix_all(url, prefix), ".git"@), '/')
}

/// The forge, owner and repository of a GitHub, GitLab or sourcehut URL.
pub open spec fn forge_of(url: Seq<char>) -> Option<(Seq<char>, Seq<char>, Seq<char>)> {
    let gh = forge_segments(url, github_prefix());
    let gl = forge_segments(url, gitlab_prefix());
    let sh = forge_segments(url, sourcehut_prefix());
    if has_prefix(url, github_prefix()) && gh.len() >= 2 {
        Some(("github"@, gh[0], gh[1]))
    } else if has_prefix(url, gitlab_prefix()) && gl.len() >= 2 {
        Some(("gitlab"@, gl[0], gl[1]))
    } else if has_prefix(url, sourcehut_prefix()) && sh.len() >= 2 {
        Some(("sourcehut"@, sh[0], sh[1]))
    } else {
        None
    }
}

/// The flake reference template of a forge.
pub open spec fn flake_ref_template(forge: Seq<char>) -> Seq<char> {
    if forge == "github"@ {
        "github:{owner}/{repo}"@
    } else if forge == "gitlab"@ {
        "gitlab:{owner}/{repo}"@
    } else {
        "sourcehut:~{owner}/{repo}"@
    }
}

/// The flake reference of a git URL: the forge's template filled in, or
/// `git+` and the URL for other hosts.
pub open spec fn flake_ref_of(url: Seq<char>) -> Seq<char> {
    match forge_of(url) {
        Some((f, o, r)) => replace_all(
            replace_all(flake_ref_template(f), "{owner}"@, o),
            "{repo}"@,
            r,
        ),
        None => "git+"@ + url,
    }
}

/// The templates a mapper knows: those of GitHub, GitLab and sourcehut.
spec fn knows_forges(m: Seq<(Seq<char>, ForgeMapping)>) -> bool {
    &&& lookup(m, "github"@) matches Some(x) && x.flake_ref_template@ == flake_ref_template("github"@)
    &&& lookup(m, "gitlab"@) matches Some(x) && x.flake_ref_template@ == flake_ref_template("gitlab"@)
    &&& lookup(m, "sourcehut"@) matches Some(x) && x.flake_ref_template@ == flake_ref_template(
        "sourcehut"@,
    )
}

/// Maps git URLs to flake references.
#[derive(Debug)]
pub struct GitNixMapper {
    forge_mappings: NameMap<ForgeMapping>,
    resolution_cache: NameMap<String>,
}

impl GitNixMapper {
    #[verifier::type_invariant]
    spec fn knows_the_forges(&self) -> bool {
        knows_forges(self.forge_mappings.model())
    }

    /// The forge bound to a name: its name, URL template and flake
    /// reference template.
    pub closed spec fn forge(&self, name: Seq<char>) -> Option<(Seq<char>, Seq<char>, Seq<char>)> {
        match lookup(self.forge_mappings.model(), name) {
            Some(x) => Some((x.name@, x.url_template@, x.flake_ref_template@)),
            None => None,
        }
    }

    /// How many forges the mapper knows.
    pub closed spec fn forge_count(&self) -> nat {
        self.forge_mappings.model().len()
    }

    /// How many resolutions the mapper keeps.
    pub closed spec fn cached_count(&self) -> nat {
        self.resolution_cache.model().len()
    }

    /// A mapper that knows GitHub, GitLab and sourcehut.
    pub fn new() -> (r: Self)
        ensures
            r.forge("github"@) == Some(
                ("github"@, "https://github.com/{owner}/{repo}"@, "github:{owner}/{repo}"@),
            ),
            r.forge("gitlab"@) == Some(
                ("gitlab"@, "https://gitlab.com/{owner}/{repo}"@, "gitlab:{owner}/{repo}"@),
            ),
            r.forge("sourcehut"@) == Some(
                (
                    "sourcehut"@,
                    "https://git.sr.ht/~{owner}/{repo}"@,
                    "sourcehut:~{owner}/{repo}"@,
                ),
            ),
            r.forge_count() == 3,
            r.cached_count() == 0,
    {
        let mut forge_mappings: NameMap<ForgeMapping> = NameMap::new();
        let ghost m0 = forge_mappings.model();
        let g = ForgeMapping {
            name: text::string_from("github"),
            url_template: text::string_from("https://github.com/{owner}/{repo}"),
            flake_ref_template: text::string_from("github:{owner}/{repo}"),
        };
        let ghost gv = g;
        forge_mappings.insert(text::string_from("github"), g);
        let ghost m1 = forge_mappings.model();
        let l = ForgeMapping {
            name: text::string_from("gitlab"),
            url_template: text::string_from("https://gitlab.com/{owner}/{repo}"),
            flake_ref_template: text::string_from("gitlab:{owner}/{repo}"),
        };
        let ghost lv = l;
        forge_mappings.insert(text::string_from("gitlab"), l);
        let ghost m2 = forge_mappings.model();
        let h = ForgeMapping {
            name: text::string_from("sourcehut"),
            url_template: text::string_from("https://git.sr.ht/~{owner}/{repo}"),
            flake_ref_template: text::string_from("sourcehut:~{owner}/{repo}"),
        };
        let ghost hv = h;
        forge_mappings.insert(text::string_from("sourcehut"), h);
        proof {
            reveal_strlit("github");
            reveal_strlit("gitlab");
            reveal_strlit("sourcehut");
            let m3 = forge_mappings.model();
            assert("github"@[3] != "gitlab"@[3]);
            assert("github"@ != "gitlab"@);
            assert("github"@.len() != "sourcehut"@.len());
            assert("gitlab"@.len() != "sourcehut"@.len());
            crate::named::lemma_lookup_insert(m0, "github"@, gv, "github"@);
            crate::named::lemma_lookup_insert(m1, "gitlab"@, lv, "github"@);
            crate::named::lemma_lookup_insert(m1, "gitlab"@, lv, "gitlab"@);
            crate::named::lemma_lookup_insert(m2, "sourcehut"@, hv, "github"@);
            crate::named::lemma_lookup_insert(m2, "sourcehut"@, hv, "gitlab"@);
            crate::named::lemma_lookup_insert(m2, "sourcehut"@, hv, "sourcehut"@);
            assert(m1 == insert(m0, "github"@, gv));
            assert(lookup(m3, "github"@) == Some(gv));
            assert(lookup(m3, "gitlab"@) == Some(lv));
            assert(lookup(m3, "sourcehut"@) == Some(hv));
            assert(gv.flake_ref_template@ == flake_ref_template("github"@));
            assert(lv.flake_ref_template@ == flake_ref_template("gitlab"@));
            assert(hv.flake_ref_template@ == flake_ref_template("sourcehut"@));
            assert(knows_forges(m3));
            assert(crate::named::key_index(m0, "github"@) is None);
            assert(m1.len() == 1 && m1[0].0 == "github"@);
            assert(crate::named::key_index(m1.drop_first(), "gitlab"@) is None);
            assert(crate::named::key_index(m1, "gitlab"@) is None);
            assert(m2.len() == 2 && m2[0].0 == "github"@ && m2[1].0 == "gitlab"@);
            assert(m2.drop_first().drop_first().len() == 0);
            assert(crate::named::key_index(m2.drop_first().drop_first(), "sourcehut"@) is None);
            assert(m2.drop_first()[0].0 == "gitlab"@);
            assert(crate::named::key_index(m2.drop_first(), "sourcehut"@) is None);
            assert(crate::named::key_index(m2, "sourcehut"@) is None);
            assert(m3.len() == 3);
        }
        GitNixMapper { forge_mappings, resolution_cache: NameMap::new() }
    }

    /// The forge, owner and repository of a GitHub, GitLab or sourcehut URL.
    pub fn parse_forge_url(&self, url: &str) -> (r: Option<(String, String, String)>)
        ensures
            match forge_of(url@) {
                Some((f, o, p)) => r matches Some((x, y, z)) && x@ == f && y@ == o && z@ == p,
                None => r is None,
            },
    {
        let u = text::chars_of(url);
        if text::starts_with_str(u.as_slice(), "https://github.com/") {
            let a = text::trim_start_matches_str(u.as_slice(), "https://github.com/");
            let b = text::trim_end_matches_str(a.as_slice(), ".git");
            let parts = text::split_char(b.as_slice(), '/');
            if parts.len() >= 2 {
                assert(views(parts@)[0] == parts@[0]@);
                assert(views(parts@)[1] == parts@[1]@);
                return Some(
                    (
                        text::string_from("github"),
                        text::string_of(parts[0].as_slice()),
                        text::string_of(parts[1].as_slice()),
                    ),
                );
            }
        }
        if text::starts_with_str(u.as_slice(), "https://gitlab.com/") {
            let a = text::trim_start_matches_str(u.as_slice(), "https://gitlab.com/");
            let b = text::trim_end_matches_str(a.as_slice(), ".git");
            let parts = text::split_char(b.as_slice(), '/');
            if parts.len() >= 2 {
                assert(views(parts@)[0] == parts@[0]@);
                assert(views(parts@)[1] == parts@[1]@);
                return Some(
                    (
                        text::string_from("gitlab"),
                        text::string_of(parts[0].as_slice()),
                        text::string_of(parts[1].as_slice()),
                    ),
                );
            }
        }
        if text::starts_with_str(u.as_slice(), "https://git.sr.ht/~") {
            let a = text::trim_start_matches_str(u.as_slice(), "https://git.sr.ht/~");
            let b = text::trim_end_matches_str(a.as_slice(), ".git");
            let parts = text::split_char(b.as_slice(), '/');
            if parts.len() >= 2 {
                assert(views(parts@)[0] == parts@[0]@);
                assert(views(parts@)[1] == parts@[1]@);
                return Some(
                    (
                        text::string_from("sourcehut"),
                        text::string_of(parts[0].as_slice()),
                        text::string_of(parts[1].as_slice()),
                    ),
                );
            }
        }
        None
    }

    /// The flake reference of a git URL.
    pub fn git_url_to_flake_ref(&self, git_url: &str) -> (r: Result<FlakeRef, NixDomainError>)
        ensures
            r matches Ok(f) && f.uri@ == flake_ref_of(git_url@),
    {
        proof {
            use_type_invariant(self);
        }
        match self.parse_forge_url(git_url) {
            Some((forge, owner, repo)) => {
                proof {
                    reveal_strlit("github");
                    reveal_strlit("gitlab");
                    reveal_strlit("sourcehut");
                }
                match self.forge_mappings.get(forge.as_str()) {
                    Some(mapping) => {
                        let t = text::chars_of(mapping.flake_ref_template.as_str());
                        let o = text::chars_of(owner.as_str());
                        let p = text::chars_of(repo.as_str());
                        proof {
                            reveal_strlit("{owner}");
                            reveal_strlit("{repo}");
                        }
                        let a = text::replace_str(t.as_slice(), "{owner}", o.as_slice());
                        let b = text::replace_str(a.as_slice(), "{repo}", p.as_slice());
                        return Ok(FlakeRef::new(text::string_of(b.as_slice())));
                    },
                    None => {},
                }
            },
            None => {},
        }
        let mut v: Vec<char> = Vec::new();
        text::append_str(&mut v, "git+");
        text::append_str(&mut v, git_url);
        Ok(FlakeRef::new(text::string_of(v.as_slice())))
    }
}

impl Default for GitNixMapper {
    fn default() -> (r: Self) {
        GitNixMapper::new()
    }
}

// ---------------------------------------------------------------------------
// Git history of Nix files
// ---------------------------------------------------------------------------

/// Who made a commit.
#[derive(Debug, Clone, PartialEq)]
pub struct AuthorInfo {
    /// Name.
    pub name: String,
    /// E-mail address.
    pub email: String,
}

/// How a commit changed a file.
#[derive(Debug, Clone, Copy, PartialEq, Eq, Structural)]
pub enum FileChangeType {
    /// The file was added.
    Added,
    /// The file was modified.
    Modified,
    /// The file was deleted.
    Deleted,
    /// The file was renamed.
    Renamed,
}

/// One changed file.
#[derive(Debug, Clone, PartialEq)]
pub struct FileChange {
    /// The file's path.
    pub path: String,
    /// How it changed.
    pub change_type: FileChangeType,
}

/// A commit that changed Nix files.
#[derive(Debug, Clone, PartialEq)]
pub struct NixFileChange {
    /// The commit hash.
    pub commit: String,
    /// The commit time, in seconds since the epoch.
    pub timestamp: i64,
    /// The author.
    pub author: AuthorInfo,
    /// The subject line.
    pub message: String,
    /// The Nix files it changed.
    pub files: Vec<FileChange>,
}

/// The content of a commit of the history.
pub struct CommitView {
    pub hash: Seq<char>,
    pub timestamp: i64,
    pub author_name: Seq<char>,
    pub author_email: Seq<char>,
    pub message: Seq<char>,
    pub files: Seq<(Seq<char>, FileChangeType)>,
}

impl View for FileChange {
    type V = (Seq<char>, FileChangeType);

    open spec fn view(&self) -> (Seq<char>, FileChangeType) {
        (self.path@, self.change_type)
    }
}

impl View for NixFileChange {
    type V = CommitView;

    open spec fn view(&self) -> CommitView {
        CommitView {
            hash: self.commit@,
            timestamp: self.timestamp,
            author_name: self.author.name@,
            author_email: self.author.email@,
            message: self.message@,
            files: self.files@.map_values(|f: FileChange| f@),
        }
    }
}

/// The kind of change a `--name-status` code names.
pub open spec fn change_type_of(code: Seq<char>) -> Option<FileChangeType> {
    if code == "A"@ {
        Some(FileChangeType::Added)
    } else if code == "M"@ {
        Some(FileChangeType::Modified)
    } else if code == "D"@ {
        Some(FileChangeType::Deleted)
    } else if code == "R100"@ {
        Some(FileChangeType::Renamed)
    } else {
        None
    }
}

/// The Nix file a `--name-status` line reports: a known code and a path
/// ending in `.nix`.
pub open spec fn file_line(line: Seq<char>) -> Option<(Seq<char>, FileChangeType)> {
    let w = text::words(line);
    if w.len() >= 2 {
        match change_type_of(w[0]) {
            Some(t) => if text::has_suffix(w[1], ".nix"@) {
                Some((w[1], t))
            } else {
                None
            },
            None => None,
        }
    } else {
        None
    }
}

/// The codes of `git log --name-status` name the kinds of change: `A` an
/// added file, `M` a modified one, `D` a deleted one and `R100` a renamed
/// one, and no other code names any. So a line of one of those codes, a
/// tab and a path to a Nix file reports that path with the change its code
/// names.
pub proof fn law_name_status_codes(code: Seq<char>, path: Seq<char>)
    requires
        text::is_word(path),
        text::has_suffix(path, ".nix"@),
    ensures
        change_type_of(code) == Some(FileChangeType::Added) <==> code == "A"@,
        change_type_of(code) == Some(FileChangeType::Modified) <==> code == "M"@,
        change_type_of(code) == Some(FileChangeType::Deleted) <==> code == "D"@,
        change_type_of(code) == Some(FileChangeType::Renamed) <==> code == "R100"@,
        file_line("A"@ + "\t"@ + path) == Some((path, FileChangeType::Added)),
        file_line("M"@ + "\t"@ + path) == Some((path, FileChangeType::Modified)),
        file_line("D"@ + "\t"@ + path) == Some((path, FileChangeType::Deleted)),
        file_line("R100"@ + "\t"@ + path) == Some((path, FileChangeType::Renamed)),
{
    reveal_strlit("A");
    reveal_strlit("M");
    reveal_strlit("D");
    reveal_strlit("R100");
    reveal_strlit("\t");
    assert("A"@ != "M"@ && "A"@ != "D"@ && "M"@ != "D"@);
    assert("R100"@.len() == 4);
    assert("\t"@ =~= seq!['\t']);
    assert(text::is_word("A"@) && text::is_word("M"@) && text::is_word("D"@));
    assert(text::is_word("R100"@)) by {
        assert forall|i: int| 0 <= i < 4 implies !text::is_ws(#[trigger] "R100"@[i]) by {
            assert("R100"@[i] == 'R' || "R100"@[i] == '1' || "R100"@[i] == '0');
        }
    }
    text::lemma_words_tab_pair("A"@, path);
    text::lemma_words_tab_pair("M"@, path);
    text::lemma_words_tab_pair("D"@, path);
    text::lemma_words_tab_pair("R100"@, path);
}

/// Whether chrono's `DateTime::from_timestamp` gives a time for a number of
/// seconds since the epoch (it gives none outside the range of its dates).
pub uninterp spec fn timestamp_accepted(secs: i64) -> bool;

/// `chrono::DateTime::from_timestamp(secs, 0)`, told apart by whether it
/// gives a time. chrono's answer depends on the number alone; the contract
/// claims only that it is the one named by `timestamp_accepted`.
#[verifier::external_body]
fn accepts_timestamp(secs: i64) -> (b: bool)
    ensures
        b == timestamp_accepted(secs),
{
    match chrono::DateTime::from_timestamp(secs, 0) {
        Some(_) => true,
        None => false,
    }
}

/// A number of seconds kept where chrono accepts it as a time.
pub open spec fn checked_time(t: Option<i64>) -> Option<i64> {
    match t {
        Some(secs) => if timestamp_accepted(secs) {
            Some(secs)
        } else {
            None
        },
        None => None,
    }
}

/// A number of seconds kept where chrono accepts it as a time.
fn checked(t: Option<i64>) -> (r: Option<i64>)
    ensures
        r == checked_time(t),
{
    match t {
        Some(secs) => if accepts_timestamp(secs) {
            Some(secs)
        } else {
            None
        },
        None => None,
    }
}

/// The commit a `%H|%at|%an|%ae|%s` line describes, with no file yet; none
/// when it has fewer than five fields or its time is not an integer that
/// chrono accepts as a time. The subject keeps any `|` it contains.
pub open spec fn commit_line(line: Seq<char>) -> Option<CommitView> {
    let p = pieces(line, '|');
    if p.len() >= 5 && checked_time(text::parse_i64_spec(p[1])) is Some {
        Some(
            CommitView {
                hash: p[0],
                timestamp: text::parse_i64_spec(p[1])->0,
                author_name: p[2],
                author_email: p[3],
                message: text::join_with(p.skip(4), "|"@),
                files: Seq::empty(),
            },
        )
    } else {
        None
    }
}

/// The commits done so far, with the open one added if it changed a Nix file.
pub open spec fn flush(done: Seq<CommitView>, cur: Option<CommitView>) -> Seq<CommitView> {
    match cur {
        Some(c) => if c.files.len() > 0 {
            done.push(c)
        } else {
            done
        },
        None => done,
    }
}

/// Reading the lines of a log: the finished commits and the open one.
pub open spec fn scan_log(lines: Seq<Seq<char>>) -> (Seq<CommitView>, Option<CommitView>)
    decreases lines.len(),
{
    if lines.len() == 0 {
        (Seq::empty(), None)
    } else {
        let st = scan_log(lines.drop_last());
        let line = lines.last();
        if line.len() == 0 {
            st
        } else if line.contains('|') {
            (flush(st.0, st.1), commit_line(line))
        } else {
            match st.1 {
                Some(c) => match file_line(line) {
                    Some(f) => (st.0, Some(CommitView { files: c.files.push(f), ..c })),
                    None => st,
                },
                None => st,
            }
        }
    }
}

/// The commits of a `git log --format=%H|%at|%an|%ae|%s --name-status`
/// output that changed Nix files, in log order.
pub open spec fn nix_file_changes(log: Seq<char>) -> Seq<CommitView> {
    let st = scan_log(text::line_seq(log));
    flush(st.0, st.1)
}

/// The `--name-status` code of a kind of change.
pub open spec fn change_code(t: FileChangeType) -> Seq<char> {
    match t {
        FileChangeType::Added => "A"@,
        FileChangeType::Modified => "M"@,
        FileChangeType::Deleted => "D"@,
        FileChangeType::Renamed => "R100"@,
    }
}

/// The `--name-status` line that reports a change of a file.
pub open spec fn name_status_line(f: (Seq<char>, FileChangeType)) -> Seq<char> {
    change_code(f.1) + "\t"@ + f.0
}

/// A path that a `--name-status` line can report as a Nix file: one word,
/// ending in `.nix`, without `|`.
pub open spec fn nix_path(p: Seq<char>) -> bool {
    text::is_word(p) && text::has_suffix(p, ".nix"@) && !p.contains('|')
}

proof fn lemma_name_status_line(f: (Seq<char>, FileChangeType))
    requires
        nix_path(f.0),
    ensures
        file_line(name_status_line(f)) == Some(f),
        name_status_line(f).len() > 0,
        !name_status_line(f).contains('|'),
{
    law_name_status_codes(change_code(f.1), f.0);
    reveal_strlit("A");
    reveal_strlit("M");
    reveal_strlit("D");
    reveal_strlit("R100");
    reveal_strlit("\t");
    let code = change_code(f.1);
    let line = name_status_line(f);
    assert(code.len() >= 1);
    assert forall|i: int| 0 <= i < line.len() implies line[i] != '|' by {
        if i < code.len() {
            assert(line[i] == code[i]);
        } else if i == code.len() {
            assert(line[i] == '\t');
        } else {
            assert(line[i] == f.0[i - code.len() - 1]);
        }
    }
}

/// The state after reading a commit line and the first `m` of its file lines.
proof fn lemma_scan_one_commit(head: Seq<char>, files: Seq<(Seq<char>, FileChangeType)>, m: int)
    requires
        commit_line(head) is Some,
        head.contains('|'),
        forall|k: int| 0 <= k < files.len() ==> nix_path(#[trigger] files[k].0),
        0 <= m <= files.len(),
    ensures
        scan_log((seq![head] + files.map_values(|f: (Seq<char>, FileChangeType)| name_status_line(f))).take(m + 1))
            == (Seq::<CommitView>::empty(), Some(CommitView { files: files.take(m), ..commit_line(head)->0 })),
    decreases m,
{
    let lines = seq![head] + files.map_values(|f: (Seq<char>, FileChangeType)| name_status_line(f));
    if m == 0 {
        assert(lines.take(1) =~= seq![head]);
        assert(seq![head].drop_last() =~= Seq::<Seq<char>>::empty());
        assert(files.take(0) =~= Seq::<(Seq<char>, FileChangeType)>::empty());
        assert(head.len() > 0);
        assert(scan_log(Seq::<Seq<char>>::empty()) == (Seq::<CommitView>::empty(), None::<CommitView>));
        assert(scan_log(seq![head]) == (Seq::<CommitView>::empty(), commit_line(head)));
    } else {
        lemma_scan_one_commit(head, files, m - 1);
        assert(lines.take(m + 1).drop_last() =~= lines.take(m));
        assert(lines.take(m + 1).last() == lines[m]);
        assert(lines[m] == name_status_line(files[m - 1]));
        lemma_name_status_line(files[m - 1]);
        assert(files.take(m - 1).push(files[m - 1]) =~= files.take(m));
        assert(lines[m].len() > 0);
        assert(!lines[m].contains('|'));
        assert(file_line(lines[m]) == Some(files[m - 1]));
    }
}

/// A log of one commit that changed Nix files reads as that commit with
/// exactly those files, in order, each with the kind of change its code
/// names: the commit line (with its `|` fields) followed by one
/// `--name-status` line per file.
pub proof fn law_log_of_one_commit(head: Seq<char>, files: Seq<(Seq<char>, FileChangeType)>)
    requires
        commit_line(head) is Some,
        forall|k: int| 0 <= k < files.len() ==> nix_path(#[trigger] files[k].0),
        files.len() > 0,
    ensures
        ({
            let lines = seq![head] + files.map_values(|f: (Seq<char>, FileChangeType)| name_status_line(f));
            let st = scan_log(lines);
            flush(st.0, st.1) == seq![CommitView { files: files, ..commit_line(head)->0 }]
        }),
{
    let lines = seq![head] + files.map_values(|f: (Seq<char>, FileChangeType)| name_status_line(f));
    assert(head.contains('|')) by {
        if !head.contains('|') {
            assert forall|j: int| 0 <= j < head.len() implies head[j] != '|' by {
                if head[j] == '|' {
                    assert(head.contains('|'));
                }
            }
            text::lemma_split_last(head, '|');
        }
    }
    lemma_scan_one_commit(head, files, files.len() as int);
    assert(lines.take(files.len() as int + 1) =~= lines);
    assert(files.take(files.len() as int) =~= files);
}

/// The content of an optional commit.
pub open spec fn open_view(c: Option<NixFileChange>) -> Option<CommitView> {
    match c {
        Some(x) => Some(x@),
        None => None,
    }
}

/// Whether a line holds a `|`.
fn has_bar(line: &[char]) -> (b: bool)
    ensures
        b == line@.contains('|'),
{
    let r = text::index_of(line, '|');
    proof {
        text::lemma_index_of(line@, '|');
        if r is Some {
            assert(line@[r->0 as int] == '|');
        }
    }
    r.is_some()
}

/// The commit a commit line describes.
fn parse_commit_line(line: &[char]) -> (r: Option<NixFileChange>)
    ensures
        open_view(r) == commit_line(line@),
{
    let p = text::split_char(line, '|');
    if p.len() < 5 {
        return None;
    }
    let ts = match checked(text::parse_i64(p[1].as_slice())) {
        Some(t) => t,
        None => return None,
    };
    let rest = text::slice_vec_of_vecs(p.as_slice(), 4);
    let message = text::join_str(rest.as_slice(), "|");
    let c = NixFileChange {
        commit: text::string_of(p[0].as_slice()),
        timestamp: ts,
        author: AuthorInfo { name: text::string_of(p[2].as_slice()), email: text::string_of(p[3].as_slice()) },
        message: text::string_of(message.as_slice()),
        files: Vec::new(),
    };
    proof {
        assert(views(p@)[0] == p@[0]@);
        assert(views(p@)[1] == p@[1]@);
        assert(views(p@)[2] == p@[2]@);
        assert(views(p@)[3] == p@[3]@);
        assert(c@.files =~= Seq::<(Seq<char>, FileChangeType)>::empty());
    }
    Some(c)
}

/// The Nix file a name-status line reports.
fn parse_file_line(line: &[char]) -> (r: Option<FileChange>)
    ensures
        match file_line(line@) {
            Some(f) => r matches Some(x) && x@ == f,
            None => r is None,
        },
{
    let w = text::split_whitespace(line);
    if w.len() < 2 {
        return None;
    }
    proof {
        assert(views(w@)[0] == w@[0]@);
        assert(views(w@)[1] == w@[1]@);
    }
    let code = w[0].as_slice();
    let t = if text::eq_str(code, "A") {
        FileChangeType::Added
    } else if text::eq_str(code, "M") {
        FileChangeType::Modified
    } else if text::eq_str(code, "D") {
        FileChangeType::Deleted
    } else if text::eq_str(code, "R100") {
        FileChangeType::Renamed
    } else {
        return None;
    };
    if text::ends_with_str(w[1].as_slice(), ".nix") {
        Some(FileChange { path: text::string_of(w[1].as_slice()), change_type: t })
    } else {
        None
    }
}

/// Reads the commits that changed Nix files out of the output of
/// `git log --format=%H|%at|%an|%ae|%s --name-status`. A commit line with
/// fewer than five fields or a time that is not an integer starts no
/// commit; hashes are kept as written, unchecked.
pub fn parse_nix_file_changes(log: &str) -> (r: Vec<NixFileChange>)
    ensures
        r@.map_values(|c: NixFileChange| c@) == nix_file_changes(log@),
{
    let chars = text::chars_of(log);
    let ls = text::lines(chars.as_slice());
    let ghost lv = views(ls@);
    let mut changes: Vec<NixFileChange> = Vec::new();
    let mut current: Option<NixFileChange> = None;
    let mut i: usize = 0;
    assert(lv.take(0) =~= Seq::<Seq<char>>::empty());
    assert(changes@.map_values(|c: NixFileChange| c@) =~= Seq::<CommitView>::empty());
    while i < ls.len()
        invariant
            i <= ls@.len(),
            lv == views(ls@),
            lv == text::line_seq(log@),
            (changes@.map_values(|c: NixFileChange| c@), open_view(current)) == scan_log(lv.take(i as int)),
        decreases ls@.len() - i,
    {
        let line = ls[i].as_slice();
        proof {
            assert(lv.take(i + 1).drop_last() =~= lv.take(i as int));
            assert(lv.take(i + 1).last() == line@);
        }
        if line.len() == 0 {
        } else if has_bar(line) {
            let prev = current;
            match prev {
                Some(c) => {
                    if c.files.len() > 0 {
                        let ghost before = changes@;
                        changes.push(c);
                        assert(changes@.map_values(|x: NixFileChange| x@) =~= before.map_values(
                            |x: NixFileChange| x@,
                        ).push(c@));
                    }
                },
                None => {},
            }
            current = parse_commit_line(line);
        } else {
            match current {
                Some(mut c) => {
                    match parse_file_line(line) {
                        Some(f) => {
                            let ghost before = c;
                            c.files.push(f);
                            assert(c@ == CommitView { files: before@.files.push(f@), ..before@ }) by {
                                assert(c@.files =~= before@.files.push(f@));
                            }
                        },
                        None => {},
                    }
                    current = Some(c);
                },
                None => {},
            }
        }
        i = i + 1;
    }
    assert(lv.take(lv.len() as int) =~= lv);
    match current {
        Some(c) => {
            if c.files.len() > 0 {
                let ghost before = changes@;
                changes.push(c);
                assert(changes@.map_values(|x: NixFileChange| x@) =~= before.map_values(
                    |x: NixFileChange| x@,
                ).push(c@));
            }
        },
        None => {},
    }
    changes
}

// ---------------------------------------------------------------------------
// Inputs pinned in flake.lock
// ---------------------------------------------------------------------------

/// The fields of a `locked` entry of `flake.lock` that matter here; each is
/// present only if the entry holds it with the right JSON type (a string, or
/// an integer for `lastModified`).
#[derive(Debug, Clone, PartialEq)]
pub struct LockedFields {
    /// `type`.
    pub input_type: Option<String>,
    /// `owner`.
    pub owner: Option<String>,
    /// `repo`.
    pub repo: Option<String>,
    /// `rev`.
    pub rev: Option<String>,
    /// `ref`.
    pub git_ref: Option<String>,
    /// `url`.
    pub url: Option<String>,
    /// `path`.
    pub path: Option<String>,
    /// `lastModified`, in seconds since the epoch, where chrono accepts it
    /// as a time.
    pub last_modified: Option<i64>,
}

/// The fields of a `locked` entry as plain values.
pub struct LockedView {
    pub input_type: Option<Seq<char>>,
    pub owner: Option<Seq<char>>,
    pub repo: Option<Seq<char>>,
    pub rev: Option<Seq<char>>,
    pub git_ref: Option<Seq<char>>,
    pub url: Option<Seq<char>>,
    pub path: Option<Seq<char>>,
    pub last_modified: Option<i64>,
}

/// The fields of a `locked` entry as plain values.
pub open spec fn locked_view(l: LockedFields) -> LockedView {
    LockedView {
        input_type: opt_chars(l.input_type),
        owner: opt_chars(l.owner),
        repo: opt_chars(l.repo),
        rev: opt_chars(l.rev),
        git_ref: opt_chars(l.git_ref),
        url: opt_chars(l.url),
        path: opt_chars(l.path),
        last_modified: l.last_modified,
    }
}

/// A JSON number that is an `i64` (`serde_json::Value::as_i64`): its text
/// read as one.
pub open spec fn json_i64(v: Option<JsonValue>) -> Option<i64> {
    match v {
        Some(JsonValue::Number(t)) => text::parse_i64_spec(t@),
        _ => None,
    }
}

/// The fields of a `locked` entry: each string field where it holds a
/// string, `lastModified` where it holds an `i64` that chrono accepts as a
/// time.
pub open spec fn locked_of(l: JsonValue) -> LockedView {
    LockedView {
        input_type: json_text(member(l, "type"@)),
        owner: json_text(member(l, "owner"@)),
        repo: json_text(member(l, "repo"@)),
        rev: json_text(member(l, "rev"@)),
        git_ref: json_text(member(l, "ref"@)),
        url: json_text(member(l, "url"@)),
        path: json_text(member(l, "path"@)),
        last_modified: checked_time(json_i64(member(l, "lastModified"@))),
    }
}

/// A node of a lock: its name, and its `locked` entry where it has one.
pub open spec fn node_entry(e: (Seq<char>, JsonValue)) -> (Seq<char>, Option<LockedView>) {
    (
        e.0,
        match member(e.1, "locked"@) {
            Some(l) => Some(locked_of(l)),
            None => None,
        },
    )
}

/// The nodes of a decoded `flake.lock`, in the order of its `nodes` object;
/// none where it has no such object.
pub open spec fn lock_nodes_of(v: JsonValue) -> Seq<(Seq<char>, Option<LockedView>)> {
    match member(v, "nodes"@) {
        Some(JsonValue::Object(e)) => members(e@).map_values(
            |x: (Seq<char>, JsonValue)| node_entry(x),
        ),
        _ => Seq::empty(),
    }
}

/// Nodes of a lock as plain values.
pub open spec fn nodes_view(n: Seq<(String, Option<LockedFields>)>) -> Seq<(Seq<char>, Option<LockedView>)> {
    n.map_values(
        |p: (String, Option<LockedFields>)|
            (
                p.0@,
                match p.1 {
                    Some(l) => Some(locked_view(l)),
                    None => None,
                },
            ),
    )
}

/// The `i64` of a JSON number, where it is one.
fn number_i64(v: Option<&JsonValue>) -> (r: Option<i64>)
    ensures
        r == json_i64(
            match v {
                Some(x) => Some(*x),
                None => None,
            },
        ),
{
    match v {
        Some(JsonValue::Number(t)) => {
            let c = text::chars_of(t.as_str());
            text::parse_i64(c.as_slice())
        },
        _ => None,
    }
}

/// The fields of a `locked` entry.
fn locked_fields(l: &JsonValue) -> (r: LockedFields)
    ensures
        locked_view(r) == locked_of(*l),
{
    LockedFields {
        input_type: text_of(get_member(l, "type")),
        owner: text_of(get_member(l, "owner")),
        repo: text_of(get_member(l, "repo")),
        rev: text_of(get_member(l, "rev")),
        git_ref: text_of(get_member(l, "ref")),
        url: text_of(get_member(l, "url")),
        path: text_of(get_member(l, "path")),
        last_modified: checked(number_i64(get_member(l, "lastModified"))),
    }
}

/// The nodes of a `flake.lock` text, each with the fields of its `locked`
/// entry; a text serde_json refuses gives a parse error naming the lock.
pub fn lock_nodes(content: &str) -> (r: Result<Vec<(String, Option<LockedFields>)>, NixDomainError>)
    ensures
        match json_of(content@) {
            Err(m) => r matches Err(NixDomainError::ParseError(x)) && x@
                == "Invalid flake.lock JSON: "@ + m,
            Ok(jv) => exists|v: JsonValue|
                json_view(v) == jv && (r matches Ok(n) && nodes_view(n@) == lock_nodes_of(v)),
        },
{
    match parse_json(content) {
        Err(m) => {
            let mut t = text::chars_of("Invalid flake.lock JSON: ");
            text::append_str(&mut t, m.as_str());
            Err(NixDomainError::ParseError(text::string_of(t.as_slice())))
        },
        Ok(v) => {
            let mut out: Vec<(String, Option<LockedFields>)> = Vec::new();
            match get_member(&v, "nodes") {
                Some(JsonValue::Object(e)) => {
                    let ghost m = members(e@);
                    let mut i: usize = 0;
                    while i < e.len()
                        invariant
                            i <= e@.len(),
                            m == members(e@),
                            nodes_view(out@) == m.take(i as int).map_values(
                                |x: (Seq<char>, JsonValue)| node_entry(x),
                            ),
                        decreases e@.len() - i,
                    {
                        let locked = match get_member(&e[i].1, "locked") {
                            Some(l) => Some(locked_fields(l)),
                            None => None,
                        };
                        let entry = (e[i].0.clone(), locked);
                        proof {
                            assert(m[i as int] == (e@[i as int].0@, e@[i as int].1));
                            assert(m.take(i + 1).map_values(|x: (Seq<char>, JsonValue)| node_entry(x))
                                =~= m.take(i as int).map_values(
                                |x: (Seq<char>, JsonValue)| node_entry(x),
                            ).push(node_entry(m[i as int])));
                            assert(nodes_view(out@.push(entry)) =~= nodes_view(out@).push(
                                nodes_view(seq![entry])[0],
                            ));
                        }
                        out.push(entry);
                        i = i + 1;
                    }
                    assert(m.take(e@.len() as int) =~= m);
                },
                _ => {
                    assert(nodes_view(out@) =~= Seq::<(Seq<char>, Option<LockedView>)>::empty());
                },
            }
            Ok(out)
        },
    }
}

/// A flake input backed by git.
#[derive(Debug, Clone, PartialEq)]
pub struct GitFlakeInput {
    /// The input's name.
    pub name: String,
    /// Its flake reference or URL.
    pub url: String,
    /// The branch or tag.
    pub git_ref: Option<String>,
    /// The revision it resolves to.
    pub resolved_hash: Option<String>,
    /// The store path it resolves to.
    pub store_path: Option<String>,
    /// The input it follows.
    pub follows: Option<String>,
    /// Time of its last change, in seconds since the epoch.
    pub last_modified: Option<i64>,
}

/// The content of an input.
pub struct InputView {
    pub name: Seq<char>,
    pub url: Seq<char>,
    pub git_ref: Option<Seq<char>>,
    pub resolved_hash: Option<Seq<char>>,
    pub store_path: Option<Seq<char>>,
    pub follows: Option<Seq<char>>,
    pub last_modified: Option<i64>,
}

/// The text of an optional string.
pub open spec fn opt_chars(o: Option<String>) -> Option<Seq<char>> {
    match o {
        Some(s) => Some(s@),
        None => None,
    }
}

impl View for GitFlakeInput {
    type V = InputView;

    open spec fn view(&self) -> InputView {
        InputView {
            name: self.name@,
            url: self.url@,
            git_ref: opt_chars(self.git_ref),
            resolved_hash: opt_chars(self.resolved_hash),
            store_path: opt_chars(self.store_path),
            follows: opt_chars(self.follows),
            last_modified: self.last_modified,
        }
    }
}

/// The text of an optional string, or nothing.
pub open spec fn or_empty(o: Option<Seq<char>>) -> Seq<char> {
    match o {
        Some(s) => s,
        None => Seq::empty(),
    }
}

/// A revision padded on the right with `0` to forty characters.
pub open spec fn padded_rev(r: Seq<char>) -> Seq<char> {
    if r.len() < 40 {
        r + Seq::new((40 - r.len()) as nat, |i: int| '0')
    } else {
        r
    }
}

/// The input a locked entry describes when read by the history analyzer:
/// GitHub inputs become `github:owner/repo` with their revision padded to
/// forty characters, git inputs keep their URL and revision, path inputs
/// become `path:` and the path, others the type, `:` and the name. A
/// revision is kept as its padded text, with no check of its characters.
pub open spec fn analyzer_input(name: Seq<char>, l: LockedFields) -> Option<InputView> {
    match l.input_type {
        None => None,
        Some(t) => Some(
            if t@ == "github"@ {
                InputView {
                    name: name,
                    url: "github:"@ + or_empty(opt_chars(l.owner)) + "/"@ + or_empty(opt_chars(l.repo)),
                    git_ref: opt_chars(l.git_ref),
                    resolved_hash: match l.rev {
                        Some(r) => Some(padded_rev(r@)),
                        None => None,
                    },
                    store_path: None,
                    follows: None,
                    last_modified: l.last_modified,
                }
            } else if t@ == "git"@ {
                InputView {
                    name: name,
                    url: or_empty(opt_chars(l.url)),
                    git_ref: opt_chars(l.git_ref),
                    resolved_hash: match l.rev {
                        Some(r) => Some(padded_rev(r@)),
                        None => None,
                    },
                    store_path: None,
                    follows: None,
                    last_modified: l.last_modified,
                }
            } else if t@ == "path"@ {
                InputView {
                    name: name,
                    url: "path:"@ + or_empty(opt_chars(l.path)),
                    git_ref: None,
                    resolved_hash: None,
                    store_path: None,
                    follows: None,
                    last_modified: l.last_modified,
                }
            } else {
                InputView {
                    name: name,
                    url: t@ + ":"@ + name,
                    git_ref: None,
                    resolved_hash: None,
                    store_path: None,
                    follows: None,
                    last_modified: l.last_modified,
                }
            },
        ),
    }
}

/// The input a locked entry describes when read by the flake service:
/// GitHub inputs go through the forge mapping of their github.com URL, git
/// inputs keep their URL and revision, others become the type, `:` and the
/// name.
pub open spec fn service_input(name: Seq<char>, l: LockedFields) -> Option<InputView> {
    match l.input_type {
        None => None,
        Some(t) => Some(
            if t@ == "github"@ {
                InputView {
                    name: name,
                    url: flake_ref_of(
                        "https://github.com/"@ + or_empty(opt_chars(l.owner)) + "/"@ + or_empty(
                            opt_chars(l.repo),
                        ),
                    ),
                    git_ref: opt_chars(l.git_ref),
                    resolved_hash: opt_chars(l.rev),
                    store_path: None,
                    follows: None,
                    last_modified: l.last_modified,
                }
            } else if t@ == "git"@ {
                InputView {
                    name: name,
                    url: or_empty(opt_chars(l.url)),
                    git_ref: opt_chars(l.git_ref),
                    resolved_hash: opt_chars(l.rev),
                    store_path: None,
                    follows: None,
                    last_modified: l.last_modified,
                }
            } else {
                InputView {
                    name: name,
                    url: t@ + ":"@ + name,
                    git_ref: None,
                    resolved_hash: None,
                    store_path: None,
                    follows: None,
                    last_modified: l.last_modified,
                }
            },
        ),
    }
}

/// A copy of an optional string.
fn copy_opt(o: &Option<String>) -> (r: Option<String>)
    ensures
        opt_chars(r) == opt_chars(*o),
{
    match o {
        Some(s) => Some(s.clone()),
        None => None,
    }
}

/// The characters of an optional string, or none.
fn chars_or_empty(o: &Option<String>) -> (r: Vec<char>)
    ensures
        r@ == or_empty(opt_chars(*o)),
{
    match o {
        Some(s) => text::chars_of(s.as_str()),
        None => Vec::new(),
    }
}

/// A revision padded on the right with `0` to forty characters.
fn pad_rev(r: &String) -> (p: String)
    ensures
        p@ == padded_rev(r@),
{
    let mut v = text::chars_of(r.as_str());
    if v.len() < 40 {
        let ghost orig = v@;
        let n = 40 - v.len();
        let mut k: usize = 0;
        while k < n
            invariant
                k <= n,
                orig.len() + n == 40,
                v@ == orig + Seq::new(k as nat, |i: int| '0'),
            decreases n - k,
        {
            v.push('0');
            k = k + 1;
            assert(v@ =~= orig + Seq::new(k as nat, |i: int| '0'));
        }
    }
    text::string_of(v.as_slice())
}

/// Whether a string is exactly a literal.
fn same_text(s: &String, lit: &str) -> (b: bool)
    ensures
        b == (s@ == lit@),
{
    let v = text::chars_of(s.as_str());
    text::eq_str(v.as_slice(), lit)
}

/// Counts of the work the history analyzer did.
#[derive(Debug, Clone, Copy, PartialEq, Eq, Structural)]
pub struct AnalyzerStats {
    /// Cache hits.
    pub cache_hits: u64,
    /// Cache misses.
    pub cache_misses: u64,
    /// Entries parsed.
    pub parse_operations: u64,
}

/// Settings of the history analyzer.
#[derive(Debug, Clone)]
pub struct AnalyzerConfig {
    /// How long cached entries stay fresh, in seconds.
    pub cache_ttl: u64,
    /// How many entries the caches hold.
    pub max_cache_entries: usize,
    /// Whether file contents are cached.
    pub aggressive_caching: bool,
}

impl Default for AnalyzerConfig {
    fn default() -> (r: Self)
        ensures
            r.cache_ttl == 300,
            r.max_cache_entries == 100,
            !r.aggressive_caching,
    {
        AnalyzerConfig { cache_ttl: 300, max_cache_entries: 100, aggressive_caching: false }
    }
}

/// One more, stopping at the largest value.
pub open spec fn bump(n: u64) -> u64 {
    if n < u64::MAX {
        (n + 1) as u64
    } else {
        n
    }
}

/// Reads the inputs of `flake.lock` files and compares them.
pub struct GitNixAnalyzer {
    /// Its settings.
    pub config: AnalyzerConfig,
    /// What it has done.
    pub stats: AnalyzerStats,
}

impl GitNixAnalyzer {
    /// An analyzer with the default settings.
    pub fn new() -> (r: Self)
        ensures
            r.config.cache_ttl == 300,
            r.config.max_cache_entries == 100,
            !r.config.aggressive_caching,
            r.stats == (AnalyzerStats { cache_hits: 0, cache_misses: 0, parse_operations: 0 }),
    {
        GitNixAnalyzer::with_config(AnalyzerConfig::default())
    }

    /// An analyzer with the given settings.
    pub fn with_config(config: AnalyzerConfig) -> (r: Self)
        ensures
            r.config.cache_ttl == config.cache_ttl,
            r.config.max_cache_entries == config.max_cache_entries,
            r.config.aggressive_caching == config.aggressive_caching,
            r.stats == (AnalyzerStats { cache_hits: 0, cache_misses: 0, parse_operations: 0 }),
    {
        GitNixAnalyzer {
            config,
            stats: AnalyzerStats { cache_hits: 0, cache_misses: 0, parse_operations: 0 },
        }
    }

    /// Cache hits, cache misses and entries parsed.
    pub fn get_stats(&self) -> (r: (u64, u64, u64))
        ensures
            r == (self.stats.cache_hits, self.stats.cache_misses, self.stats.parse_operations),
    {
        (self.stats.cache_hits, self.stats.cache_misses, self.stats.parse_operations)
    }

    /// Reads one locked entry. Fails when it has no `type`.
    pub fn parse_locked_input(&mut self, name: &str, locked: &LockedFields) -> (r: Result<GitFlakeInput, NixDomainError>)
        ensures
            final(self).stats == (AnalyzerStats {
                parse_operations: bump(old(self).stats.parse_operations),
                ..old(self).stats
            }),
            final(self).config == old(self).config,
            match analyzer_input(name@, *locked) {
                Some(v) => r matches Ok(x) && x@ == v,
                None => r matches Err(NixDomainError::ParseError(m)) && m@ == "Missing input type"@,
            },
    {
        if self.stats.parse_operations < u64::MAX {
            self.stats.parse_operations = self.stats.parse_operations + 1;
        }
        let t = match &locked.input_type {
            Some(t) => t,
            None => return Err(NixDomainError::ParseError(text::string_from("Missing input type"))),
        };
        if same_text(t, "github") {
            let mut u: Vec<char> = Vec::new();
            text::append_str(&mut u, "github:");
            let o = chars_or_empty(&locked.owner);
            text::append_chars(&mut u, o.as_slice());
            text::append_str(&mut u, "/");
            let p = chars_or_empty(&locked.repo);
            text::append_chars(&mut u, p.as_slice());
            Ok(GitFlakeInput {
                name: text::string_from(name),
                url: text::string_of(u.as_slice()),
                git_ref: copy_opt(&locked.git_ref),
                resolved_hash: match &locked.rev {
                    Some(r) => Some(pad_rev(r)),
                    None => None,
                },
                store_path: None,
                follows: None,
                last_modified: locked.last_modified,
            })
        } else if same_text(t, "git") {
            let u = chars_or_empty(&locked.url);
            Ok(GitFlakeInput {
                name: text::string_from(name),
                url: text::string_of(u.as_slice()),
                git_ref: copy_opt(&locked.git_ref),
                resolved_hash: match &locked.rev {
                    Some(r) => Some(pad_rev(r)),
                    None => None,
                },
                store_path: None,
                follows: None,
                last_modified: locked.last_modified,
            })
        } else if same_text(t, "path") {
            let mut u: Vec<char> = Vec::new();
            text::append_str(&mut u, "path:");
            let p = chars_or_empty(&locked.path);
            text::append_chars(&mut u, p.as_slice());
            Ok(GitFlakeInput {
                name: text::string_from(name),
                url: text::string_of(u.as_slice()),
                git_ref: None,
                resolved_hash: None,
                store_path: None,
                follows: None,
                last_modified: locked.last_modified,
            })
        } else {
            let mut u: Vec<char> = Vec::new();
            text::append_str(&mut u, t.as_str());
            text::append_str(&mut u, ":");
            text::append_str(&mut u, name);
            Ok(GitFlakeInput {
                name: text::string_from(name),
                url: text::string_of(u.as_slice()),
                git_ref: None,
                resolved_hash: None,
                store_path: None,
                follows: None,
                last_modified: locked.last_modified,
            })
        }
    }
}

impl Default for GitNixAnalyzer {
    fn default() -> (r: Self) {
        GitNixAnalyzer::new()
    }
}

/// A copy of an input.
pub fn copy_input(i: &GitFlakeInput) -> (r: GitFlakeInput)
    ensures
        r@ == i@,
{
    GitFlakeInput {
        name: i.name.clone(),
        url: i.url.clone(),
        git_ref: copy_opt(&i.git_ref),
        resolved_hash: copy_opt(&i.resolved_hash),
        store_path: copy_opt(&i.store_path),
        follows: copy_opt(&i.follows),
        last_modified: i.last_modified,
    }
}

/// Whether two optional strings hold the same text.
pub(crate) fn same_opt(a: &Option<String>, b: &Option<String>) -> (r: bool)
    ensures
        r == (opt_chars(*a) == opt_chars(*b)),
{
    match (a, b) {
        (Some(x), Some(y)) => {
            let xv = text::chars_of(x.as_str());
            let yv = text::chars_of(y.as_str());
            text::eq_chars(xv.as_slice(), yv.as_slice())
        },
        (None, None) => true,
        _ => false,
    }
}

/// The content of named inputs.
pub open spec fn input_views(m: NameMap<GitFlakeInput>) -> Seq<(Seq<char>, InputView)> {
    crate::named::map_values_of(m.model(), |x: GitFlakeInput| x@)
}

/// The inputs of `to` whose names `from` lacks, in order.
pub open spec fn added_inputs(
    to: Seq<(Seq<char>, InputView)>,
    from: Seq<(Seq<char>, InputView)>,
) -> Seq<InputView>
    decreases to.len(),
{
    if to.len() == 0 {
        Seq::empty()
    } else if lookup(from, to.last().0) is None {
        added_inputs(to.drop_last(), from).push(to.last().1)
    } else {
        added_inputs(to.drop_last(), from)
    }
}

/// The inputs of both whose revision changed, old and new, in the order of `to`.
pub open spec fn updated_inputs(
    to: Seq<(Seq<char>, InputView)>,
    from: Seq<(Seq<char>, InputView)>,
) -> Seq<(InputView, InputView)>
    decreases to.len(),
{
    if to.len() == 0 {
        Seq::empty()
    } else {
        match lookup(from, to.last().0) {
            Some(f) => if f.resolved_hash != to.last().1.resolved_hash {
                updated_inputs(to.drop_last(), from).push((f, to.last().1))
            } else {
                updated_inputs(to.drop_last(), from)
            },
            None => updated_inputs(to.drop_last(), from),
        }
    }
}

/// The changes between the inputs of two lock files.
#[derive(Debug, Clone)]
pub struct DependencyChanges {
    /// Inputs only the newer has.
    pub added: Vec<GitFlakeInput>,
    /// Inputs only the older has.
    pub removed: Vec<GitFlakeInput>,
    /// Inputs whose revision changed, old and new.
    pub updated: Vec<(GitFlakeInput, GitFlakeInput)>,
}

/// Compares the inputs of an older and a newer lock file: inputs added,
/// inputs removed, and inputs whose resolved revision changed.
pub fn dependency_changes(from: &NameMap<GitFlakeInput>, to: &NameMap<GitFlakeInput>) -> (r: DependencyChanges)
    ensures
        r.added@.map_values(|x: GitFlakeInput| x@) == added_inputs(input_views(*to), input_views(*from)),
        r.removed@.map_values(|x: GitFlakeInput| x@) == added_inputs(input_views(*from), input_views(*to)),
        r.updated@.map_values(|p: (GitFlakeInput, GitFlakeInput)| (p.0@, p.1@)) == updated_inputs(
            input_views(*to),
            input_views(*from),
        ),
{
    let ghost tv = input_views(*to);
    let ghost fv = input_views(*from);
    let mut added: Vec<GitFlakeInput> = Vec::new();
    let mut updated: Vec<(GitFlakeInput, GitFlakeInput)> = Vec::new();
    let mut i: usize = 0;
    assert(tv.take(0) =~= Seq::<(Seq<char>, InputView)>::empty());
    assert(added@.map_values(|x: GitFlakeInput| x@) =~= Seq::<InputView>::empty());
    assert(updated@.map_values(|p: (GitFlakeInput, GitFlakeInput)| (p.0@, p.1@)) =~= Seq::<
        (InputView, InputView),
    >::empty());
    while i < to.len()
        invariant
            i <= tv.len(),
            tv == input_views(*to),
            fv == input_views(*from),
            tv.len() == to.model().len(),
            added@.map_values(|x: GitFlakeInput| x@) == added_inputs(tv.take(i as int), fv),
            updated@.map_values(|p: (GitFlakeInput, GitFlakeInput)| (p.0@, p.1@)) == updated_inputs(
                tv.take(i as int),
                fv,
            ),
        decreases tv.len() - i,
    {
        let name = to.name_at(i);
        let t = to.value_at(i);
        proof {
            assert(tv.take(i + 1).drop_last() =~= tv.take(i as int));
            assert(tv.take(i + 1).last() == (name@, t@));
            crate::named::lemma_lookup_map(from.model(), |x: GitFlakeInput| x@, name@);
        }
        match from.get(name.as_str()) {
            None => {
                let ghost before = added@;
                added.push(copy_input(t));
                assert(added@.map_values(|x: GitFlakeInput| x@) =~= before.map_values(
                    |x: GitFlakeInput| x@,
                ).push(t@));
            },
            Some(f) => {
                if !same_opt(&f.resolved_hash, &t.resolved_hash) {
                    let ghost before = updated@;
                    updated.push((copy_input(f), copy_input(t)));
                    assert(updated@.map_values(|p: (GitFlakeInput, GitFlakeInput)| (p.0@, p.1@))
                        =~= before.map_values(|p: (GitFlakeInput, GitFlakeInput)| (p.0@, p.1@)).push(
                        (f@, t@),
                    ));
                }
            },
        }
        i = i + 1;
    }
    assert(tv.take(tv.len() as int) =~= tv);
    let mut removed: Vec<GitFlakeInput> = Vec::new();
    let mut j: usize = 0;
    assert(fv.take(0) =~= Seq::<(Seq<char>, InputView)>::empty());
    assert(removed@.map_values(|x: GitFlakeInput| x@) =~= Seq::<InputView>::empty());
    while j < from.len()
        invariant
            j <= fv.len(),
            tv == input_views(*to),
            fv == input_views(*from),
            fv.len() == from.model().len(),
            removed@.map_values(|x: GitFlakeInput| x@) == added_inputs(fv.take(j as int), tv),
        decreases fv.len() - j,
    {
        let name = from.name_at(j);
        let f = from.value_at(j);
        proof {
            assert(fv.take(j + 1).drop_last() =~= fv.take(j as int));
            assert(fv.take(j + 1).last() == (name@, f@));
            crate::named::lemma_lookup_map(to.model(), |x: GitFlakeInput| x@, name@);
        }
        if !to.contains_key(name.as_str()) {
            let ghost before = removed@;
            removed.push(copy_input(f));
            assert(removed@.map_values(|x: GitFlakeInput| x@) =~= before.map_values(
                |x: GitFlakeInput| x@,
            ).push(f@));
        }
        j = j + 1;
    }
    assert(fv.take(fv.len() as int) =~= fv);
    DependencyChanges { added, removed, updated }
}

/// `n + k`, stopping at the largest value.
pub open spec fn bump_by(n: u64, k: nat) -> u64 {
    if n + k <= u64::MAX {
        (n + k) as u64
    } else {
        u64::MAX
    }
}

/// Reading the nodes of a lock file: the inputs read so far, the first
/// failure if any, and how many entries were read.
pub open spec fn lock_scan(nodes: Seq<(Seq<char>, Option<LockedFields>)>) -> (
    Seq<(Seq<char>, InputView)>,
    bool,
    nat,
)
    decreases nodes.len(),
{
    if nodes.len() == 0 {
        (Seq::empty(), false, 0)
    } else {
        let st = lock_scan(nodes.drop_last());
        let (name, locked) = nodes.last();
        if st.1 || name == "root"@ {
            st
        } else {
            match locked {
                None => st,
                Some(l) => match analyzer_input(name, l) {
                    Some(v) => (insert(st.0, name, v), false, st.2 + 1),
                    None => (st.0, true, st.2 + 1),
                },
            }
        }
    }
}

impl GitNixAnalyzer {
    /// Reads the inputs of a lock file from its nodes, in order, skipping
    /// `root` and nodes without a `locked` entry. Fails on the first
    /// locked entry without a type.
    pub fn parse_flake_lock_inputs(
        &mut self,
        nodes: &Vec<(String, Option<LockedFields>)>,
    ) -> (r: Result<NameMap<GitFlakeInput>, NixDomainError>)
        ensures
            final(self).config == old(self).config,
            final(self).stats.cache_hits == old(self).stats.cache_hits,
            final(self).stats.cache_misses == bump(old(self).stats.cache_misses),
            final(self).stats.parse_operations == bump_by(
                bump(old(self).stats.parse_operations),
                lock_scan(nodes@.map_values(|n: (String, Option<LockedFields>)| (n.0@, n.1))).2,
            ),
            ({
                let st = lock_scan(nodes@.map_values(|n: (String, Option<LockedFields>)| (n.0@, n.1)));
                if st.1 {
                    r matches Err(NixDomainError::ParseError(m)) && m@ == "Missing input type"@
                } else {
                    r matches Ok(m) && input_views(m) == st.0
                }
            }),
    {
        if self.stats.cache_misses < u64::MAX {
            self.stats.cache_misses = self.stats.cache_misses + 1;
        }
        if self.stats.parse_operations < u64::MAX {
            self.stats.parse_operations = self.stats.parse_operations + 1;
        }
        let ghost ops0 = self.stats.parse_operations;
        let ghost nv = nodes@.map_values(|n: (String, Option<LockedFields>)| (n.0@, n.1));
        let mut inputs: NameMap<GitFlakeInput> = NameMap::new();
        let mut i: usize = 0;
        assert(nv.take(0) =~= Seq::<(Seq<char>, Option<LockedFields>)>::empty());
        assert(input_views(inputs) =~= Seq::<(Seq<char>, InputView)>::empty());
        while i < nodes.len()
            invariant
                i <= nodes@.len(),
                nv == nodes@.map_values(|n: (String, Option<LockedFields>)| (n.0@, n.1)),
                !lock_scan(nv.take(i as int)).1,
                input_views(inputs) == lock_scan(nv.take(i as int)).0,
                self.stats.parse_operations == bump_by(ops0, lock_scan(nv.take(i as int)).2),
                self.config == old(self).config,
                self.stats.cache_hits == old(self).stats.cache_hits,
                self.stats.cache_misses == bump(old(self).stats.cache_misses),
                ops0 == bump(old(self).stats.parse_operations),
            decreases nodes@.len() - i,
        {
            let (name, node) = &nodes[i];
            proof {
                assert(nv.take(i + 1).drop_last() =~= nv.take(i as int));
                assert(nv.take(i + 1).last() == (name@, *node));
            }
            let is_root = same_text(name, "root");
            if !is_root {
                match node {
                    Some(locked) => {
                        match self.parse_locked_input(name.as_str(), locked) {
                            Ok(input) => {
                                let ghost before = inputs;
                                inputs.insert(name.clone(), input);
                                proof {
                                    crate::named::lemma_insert_map(
                                        before.model(),
                                        |x: GitFlakeInput| x@,
                                        name@,
                                        input,
                                    );
                                }
                            },
                            Err(e) => {
                                proof {
                                    lemma_scan_fails(nv, i as int + 1);
                                    assert(nv.take(nv.len() as int) =~= nv);
                                }
                                return Err(e);
                            },
                        }
                    },
                    None => {},
                }
            }
            i = i + 1;
        }
        assert(nv.take(nv.len() as int) =~= nv);
        Ok(inputs)
    }
}

/// Once reading a lock file fails, later nodes change nothing.
proof fn lemma_scan_fails(nodes: Seq<(Seq<char>, Option<LockedFields>)>, k: int)
    requires
        0 <= k <= nodes.len(),
        lock_scan(nodes.take(k)).1,
    ensures
        lock_scan(nodes.take(nodes.len() as int)) == lock_scan(nodes.take(k)),
    decreases nodes.len() - k,
{
    if k < nodes.len() {
        assert(nodes.take(k + 1).drop_last() =~= nodes.take(k));
        lemma_scan_fails(nodes, k + 1);
    }
}

/// Comparing a lock file's inputs with themselves finds no change.
pub proof fn lemma_no_changes_against_itself(v: Seq<(Seq<char>, InputView)>)
    requires
        crate::named::names_unique(v),
    ensures
        added_inputs(v, v).len() == 0,
        updated_inputs(v, v).len() == 0,
{
    lemma_compare_prefix(v, v.len() as int);
    assert(v.take(v.len() as int) =~= v);
}

proof fn lemma_compare_prefix(v: Seq<(Seq<char>, InputView)>, k: int)
    requires
        crate::named::names_unique(v),
        0 <= k <= v.len(),
    ensures
        added_inputs(v.take(k), v).len() == 0,
        updated_inputs(v.take(k), v).len() == 0,
    decreases k,
{
    if k == 0 {
        assert(v.take(0) =~= Seq::<(Seq<char>, InputView)>::empty());
    } else {
        lemma_compare_prefix(v, k - 1);
        assert(v.take(k).drop_last() =~= v.take(k - 1));
        assert(v.take(k).last() == v[k - 1]);
        crate::named::lemma_key_index_at(v, v[k - 1].0, k - 1);
        if v.len() == k {
            assert(v.take(k) =~= v);
        }
    }
}

// ---------------------------------------------------------------------------
// The flake service
// ---------------------------------------------------------------------------

/// Counts of the work the flake service did.
#[derive(Debug, Clone, Copy, PartialEq, Eq, Structural)]
pub struct ServiceStats {
    /// Flakes created.
    pub flakes_created: usize,
    /// Inputs read.
    pub inputs_parsed: usize,
    /// Failures.
    pub errors_encountered: usize,
}

/// Settings of the flake service.
#[derive(Debug, Clone, Copy, PartialEq, Eq, Structural)]
pub struct ServiceConfig {
    /// Whether URLs are checked before cloning.
    pub validate_urls: bool,
    /// Whether clones are shallow.
    pub prefer_shallow_clones: bool,
}

impl Default for ServiceConfig {
    fn default() -> (r: Self)
        ensures
            r == (ServiceConfig { validate_urls: true, prefer_shallow_clones: false }),
    {
        ServiceConfig { validate_urls: true, prefer_shallow_clones: false }
    }
}

/// One more, stopping at the largest value.
pub open spec fn bump_count(n: usize) -> usize {
    if n < usize::MAX {
        (n + 1) as usize
    } else {
        n
    }
}

/// The scheme checks on a git URL.
pub open spec fn url_accepted(url: Seq<char>) -> Result<(), Seq<char>> {
    if url.len() == 0 {
        Err("Empty Git URL"@)
    } else if !(has_prefix(url, "http://"@) || has_prefix(url, "https://"@) || has_prefix(
        url,
        "git://"@,
    ) || has_prefix(url, "ssh://"@)) {
        Err("Invalid Git URL scheme"@)
    } else {
        Ok(())
    }
}

/// The branch `git symbolic-ref refs/remotes/origin/HEAD` names: its output
/// without the remote prefix, or `main` when the command failed or printed
/// something else.
pub open spec fn default_branch_of(success: bool, stdout: Seq<char>) -> Seq<char> {
    let t = text::trimmed(stdout);
    if success && has_prefix(t, "refs/remotes/origin/"@) {
        t.skip("refs/remotes/origin/"@.len() as int)
    } else {
        "main"@
    }
}

/// Creates and updates flakes backed by git repositories.
pub struct GitFlakeService {
    mapper: GitNixMapper,
    stats: ServiceStats,
    config: ServiceConfig,
}

impl GitFlakeService {
    /// A service with the default settings.
    pub fn new() -> (r: Self)
        ensures
            r.stats() == (ServiceStats { flakes_created: 0, inputs_parsed: 0, errors_encountered: 0 }),
            r.config() == (ServiceConfig { validate_urls: true, prefer_shallow_clones: false }),
    {
        GitFlakeService::with_config(ServiceConfig::default())
    }

    /// A service with the given settings.
    pub fn with_config(config: ServiceConfig) -> (r: Self)
        ensures
            r.stats() == (ServiceStats { flakes_created: 0, inputs_parsed: 0, errors_encountered: 0 }),
            r.config() == config,
    {
        GitFlakeService {
            mapper: GitNixMapper::new(),
            stats: ServiceStats { flakes_created: 0, inputs_parsed: 0, errors_encountered: 0 },
            config,
        }
    }

    /// The counts of the service.
    pub closed spec fn stats(&self) -> ServiceStats {
        self.stats
    }

    /// The settings of the service.
    pub closed spec fn config(&self) -> ServiceConfig {
        self.config
    }

    /// The settings of the service.
    pub fn settings(&self) -> (r: ServiceConfig)
        ensures
            r == self.config(),
    {
        self.config
    }

    /// Flakes created, inputs read and failures.
    pub fn get_stats(&self) -> (r: (usize, usize, usize))
        ensures
            r == (self.stats().flakes_created, self.stats().inputs_parsed, self.stats().errors_encountered),
    {
        (self.stats.flakes_created, self.stats.inputs_parsed, self.stats.errors_encountered)
    }

    /// Counts a created flake.
    pub fn note_flake_created(&mut self)
        ensures
            final(self).stats() == (ServiceStats {
                flakes_created: bump_count(old(self).stats().flakes_created),
                ..old(self).stats()
            }),
            final(self).config() == old(self).config(),
    {
        if self.stats.flakes_created < usize::MAX {
            self.stats.flakes_created = self.stats.flakes_created + 1;
        }
    }

    /// Counts a failure.
    pub fn note_error(&mut self)
        ensures
            final(self).stats() == (ServiceStats {
                errors_encountered: bump_count(old(self).stats().errors_encountered),
                ..old(self).stats()
            }),
            final(self).config() == old(self).config(),
    {
        if self.stats.errors_encountered < usize::MAX {
            self.stats.errors_encountered = self.stats.errors_encountered + 1;
        }
    }

    /// Checks a git URL: it must not be empty and must use http, https,
    /// git or ssh.
    pub fn validate_git_url(&self, url: &str) -> (r: Result<(), NixDomainError>)
        ensures
            match url_accepted(url@) {
                Ok(()) => r is Ok,
                Err(m) => r matches Err(NixDomainError::ParseError(x)) && x@ == m,
            },
    {
        let u = text::chars_of(url);
        if u.len() == 0 {
            return Err(NixDomainError::ParseError(text::string_from("Empty Git URL")));
        }
        let s = u.as_slice();
        if !text::starts_with_str(s, "http://") && !text::starts_with_str(s, "https://")
            && !text::starts_with_str(s, "git://") && !text::starts_with_str(s, "ssh://") {
            return Err(NixDomainError::ParseError(text::string_from("Invalid Git URL scheme")));
        }
        Ok(())
    }

    /// The arguments of `git` to clone a repository.
    pub fn clone_args(&self, url: &str, target: &str) -> (r: Vec<String>)
        ensures
            r@.map_values(|s: String| s@) == seq!["clone"@] + (if self.config().prefer_shallow_clones {
                seq!["--depth"@, "1"@]
            } else {
                Seq::empty()
            }) + seq![url@, target@],
    {
        let mut r: Vec<String> = Vec::new();
        r.push(text::string_from("clone"));
        if self.config.prefer_shallow_clones {
            r.push(text::string_from("--depth"));
            r.push(text::string_from("1"));
        }
        r.push(text::string_from(url));
        r.push(text::string_from(target));
        assert(r@.map_values(|s: String| s@) =~= seq!["clone"@] + (if self.config.prefer_shallow_clones {
            seq!["--depth"@, "1"@]
        } else {
            Seq::empty()
        }) + seq![url@, target@]);
        r
    }

    /// The default branch, from the outcome of `git symbolic-ref`.
    pub fn default_branch_of(success: bool, stdout: &str) -> (r: String)
        ensures
            r@ == default_branch_of(success, stdout@),
    {
        let v = text::chars_of(stdout);
        let t = text::trim(v.as_slice());
        if success && text::starts_with_str(t.as_slice(), "refs/remotes/origin/") {
            let p = text::chars_of("refs/remotes/origin/");
            let rest = text::slice_vec(t.as_slice(), p.len(), t.len());
            assert(rest@ =~= t@.skip(p@.len() as int));
            text::string_of(rest.as_slice())
        } else {
            text::string_from("main")
        }
    }

    /// Reads one locked entry. Fails, and counts the failure, when it has no
    /// `type`.
    pub fn parse_locked_input(&mut self, name: &str, locked: &LockedFields) -> (r: Result<GitFlakeInput, NixDomainError>)
        ensures
            final(self).config() == old(self).config(),
            final(self).stats().flakes_created == old(self).stats().flakes_created,
            final(self).stats().inputs_parsed == bump_count(old(self).stats().inputs_parsed),
            final(self).stats().errors_encountered == if locked.input_type is None {
                bump_count(old(self).stats().errors_encountered)
            } else {
                old(self).stats().errors_encountered
            },
            match service_input(name@, *locked) {
                Some(v) => r matches Ok(x) && x@ == v,
                None => r matches Err(NixDomainError::ParseError(m)) && m@ == "Missing input type"@,
            },
    {
        if self.stats.inputs_parsed < usize::MAX {
            self.stats.inputs_parsed = self.stats.inputs_parsed + 1;
        }
        let t = match &locked.input_type {
            Some(t) => t,
            None => {
                self.note_error();
                return Err(NixDomainError::ParseError(text::string_from("Missing input type")));
            },
        };
        if same_text(t, "github") {
            let mut u: Vec<char> = Vec::new();
            text::append_str(&mut u, "https://github.com/");
            let o = chars_or_empty(&locked.owner);
            text::append_chars(&mut u, o.as_slice());
            text::append_str(&mut u, "/");
            let p = chars_or_empty(&locked.repo);
            text::append_chars(&mut u, p.as_slice());
            let url_text = text::string_of(u.as_slice());
            let url = match self.mapper.git_url_to_flake_ref(url_text.as_str()) {
                Ok(f) => f.uri,
                Err(_) => url_text,
            };
            Ok(GitFlakeInput {
                name: text::string_from(name),
                url,
                git_ref: copy_opt(&locked.git_ref),
                resolved_hash: copy_opt(&locked.rev),
                store_path: None,
                follows: None,
                last_modified: locked.last_modified,
            })
        } else if same_text(t, "git") {
            let u = chars_or_empty(&locked.url);
            Ok(GitFlakeInput {
                name: text::string_from(name),
                url: text::string_of(u.as_slice()),
                git_ref: copy_opt(&locked.git_ref),
                resolved_hash: copy_opt(&locked.rev),
                store_path: None,
                follows: None,
                last_modified: locked.last_modified,
            })
        } else {
            let mut u: Vec<char> = Vec::new();
            text::append_str(&mut u, t.as_str());
            text::append_str(&mut u, ":");
            text::append_str(&mut u, name);
            Ok(GitFlakeInput {
                name: text::string_from(name),
                url: text::string_of(u.as_slice()),
                git_ref: None,
                resolved_hash: None,
                store_path: None,
                follows: None,
                last_modified: locked.last_modified,
            })
        }
    }

    /// Reads the inputs of a lock file from its nodes, in order, skipping
    /// `root` and nodes without a `locked` entry; stops at the first failure.
    pub fn parse_lock_inputs(
        &mut self,
        nodes: &Vec<(String, Option<LockedFields>)>,
    ) -> (r: Result<Vec<GitFlakeInput>, NixDomainError>)
        ensures
            final(self).config() == old(self).config(),
            r is Ok ==> forall|i: int|
                0 <= i < nodes@.len() ==> (nodes@[i].0@ != "root"@ && nodes@[i].1 is Some) ==> (
                #[trigger] nodes@[i].1)->0.input_type is Some,
            r matches Ok(v) ==> v@.map_values(|x: GitFlakeInput| x@) == service_inputs(
                nodes@.map_values(|n: (String, Option<LockedFields>)| (n.0@, n.1)),
            ),
            r is Err ==> exists|i: int|
                0 <= i < nodes@.len() && nodes@[i].0@ != "root"@ && (#[trigger] nodes@[i].1 matches Some(
                    l,
                ) && l.input_type is None),
    {
        let ghost nv = nodes@.map_values(|n: (String, Option<LockedFields>)| (n.0@, n.1));
        let mut out: Vec<GitFlakeInput> = Vec::new();
        let mut i: usize = 0;
        assert(nv.take(0) =~= Seq::<(Seq<char>, Option<LockedFields>)>::empty());
        assert(out@.map_values(|x: GitFlakeInput| x@) =~= Seq::<InputView>::empty());
        while i < nodes.len()
            invariant
                i <= nodes@.len(),
                nv == nodes@.map_values(|n: (String, Option<LockedFields>)| (n.0@, n.1)),
                out@.map_values(|x: GitFlakeInput| x@) == service_inputs(nv.take(i as int)),
                forall|j: int|
                    0 <= j < i ==> (nodes@[j].0@ != "root"@ && nodes@[j].1 is Some) ==> (
                    #[trigger] nodes@[j].1)->0.input_type is Some,
                self.config() == old(self).config(),
            decreases nodes@.len() - i,
        {
            let (name, node) = &nodes[i];
            proof {
                assert(nv.take(i + 1).drop_last() =~= nv.take(i as int));
                assert(nv.take(i + 1).last() == (name@, *node));
            }
            if !same_text(name, "root") {
                match node {
                    Some(locked) => {
                        match self.parse_locked_input(name.as_str(), locked) {
                            Ok(input) => {
                                let ghost before = out@;
                                out.push(input);
                                assert(out@.map_values(|x: GitFlakeInput| x@) =~= before.map_values(
                                    |x: GitFlakeInput| x@,
                                ).push(input@));
                            },
                            Err(e) => {
                                return Err(e);
                            },
                        }
                    },
                    None => {},
                }
            }
            i = i + 1;
        }
        assert(nv.take(nv.len() as int) =~= nv);
        Ok(out)
    }
}

impl Default for GitFlakeService {
    fn default() -> (r: Self) {
        GitFlakeService::new()
    }
}

/// The inputs the flake service reads from the nodes of a lock file whose
/// locked entries all have a type.
pub open spec fn service_inputs(nodes: Seq<(Seq<char>, Option<LockedFields>)>) -> Seq<InputView>
    decreases nodes.len(),
{
    if nodes.len() == 0 {
        Seq::empty()
    } else {
        let rest = service_inputs(nodes.drop_last());
        let (name, locked) = nodes.last();
        if name == "root"@ {
            rest
        } else {
            match locked {
                Some(l) => match service_input(name, l) {
                    Some(v) => rest.push(v),
                    None => rest,
                },
                None => rest,
            }
        }
    }
}

// ---------------------------------------------------------------------------
// History of flake.lock
// ---------------------------------------------------------------------------

/// A commit of the history of `flake.lock`, as `git log` prints it.
#[derive(Debug, Clone, PartialEq)]
pub struct LockLogEntry {
    /// The commit hash.
    pub hash: String,
    /// The commit time, if it is an integer.
    pub timestamp: Option<i64>,
    /// The author.
    pub author: AuthorInfo,
    /// The subject line.
    pub message: String,
}

/// The content of a history entry.
pub struct LockLogView {
    pub hash: Seq<char>,
    pub timestamp: Option<i64>,
    pub author_name: Seq<char>,
    pub author_email: Seq<char>,
    pub message: Seq<char>,
}

impl View for LockLogEntry {
    type V = LockLogView;

    open spec fn view(&self) -> LockLogView {
        LockLogView {
            hash: self.hash@,
            timestamp: self.timestamp,
            author_name: self.author.name@,
            author_email: self.author.email@,
            message: self.message@,
        }
    }
}

/// The entry a `%H|%at|%an|%ae|%s` line describes, if it has five fields;
/// its time is absent where it is not an integer that chrono accepts.
pub open spec fn lock_log_line(line: Seq<char>) -> Option<LockLogView> {
    let p = pieces(line, '|');
    if line.len() > 0 && p.len() >= 5 {
        Some(
            LockLogView {
                hash: p[0],
                timestamp: checked_time(text::parse_i64_spec(p[1])),
                author_name: p[2],
                author_email: p[3],
                message: text::join_with(p.skip(4), "|"@),
            },
        )
    } else {
        None
    }
}

/// The entries of the lines of a history, in order.
pub open spec fn lock_log_entries(lines: Seq<Seq<char>>) -> Seq<LockLogView>
    decreases lines.len(),
{
    if lines.len() == 0 {
        Seq::empty()
    } else {
        match lock_log_line(lines.last()) {
            Some(e) => lock_log_entries(lines.drop_last()).push(e),
            None => lock_log_entries(lines.drop_last()),
        }
    }
}

/// Reads the entries of `git log --format=%H|%at|%an|%ae|%s -- flake.lock`.
/// Lines with fewer than five fields are skipped.
pub fn parse_lock_log(log: &str) -> (r: Vec<LockLogEntry>)
    ensures
        r@.map_values(|e: LockLogEntry| e@) == lock_log_entries(text::line_seq(log@)),
{
    let chars = text::chars_of(log);
    let ls = text::lines(chars.as_slice());
    let ghost lv = views(ls@);
    let mut out: Vec<LockLogEntry> = Vec::new();
    let mut i: usize = 0;
    assert(lv.take(0) =~= Seq::<Seq<char>>::empty());
    assert(out@.map_values(|e: LockLogEntry| e@) =~= Seq::<LockLogView>::empty());
    while i < ls.len()
        invariant
            i <= ls@.len(),
            lv == views(ls@),
            lv == text::line_seq(log@),
            out@.map_values(|e: LockLogEntry| e@) == lock_log_entries(lv.take(i as int)),
        decreases ls@.len() - i,
    {
        let line = ls[i].as_slice();
        proof {
            assert(lv.take(i + 1).drop_last() =~= lv.take(i as int));
            assert(lv.take(i + 1).last() == line@);
        }
        if line.len() > 0 {
            let p = text::split_char(line, '|');
            if p.len() >= 5 {
                let rest = text::slice_vec_of_vecs(p.as_slice(), 4);
                let message = text::join_str(rest.as_slice(), "|");
                let e = LockLogEntry {
                    hash: text::string_of(p[0].as_slice()),
                    timestamp: checked(text::parse_i64(p[1].as_slice())),
                    author: AuthorInfo {
                        name: text::string_of(p[2].as_slice()),
                        email: text::string_of(p[3].as_slice()),
                    },
                    message: text::string_of(message.as_slice()),
                };
                proof {
                    assert(views(p@)[0] == p@[0]@);
                    assert(views(p@)[1] == p@[1]@);
                    assert(views(p@)[2] == p@[2]@);
                    assert(views(p@)[3] == p@[3]@);
                }
                let ghost before = out@;
                out.push(e);
                assert(out@.map_values(|x: LockLogEntry| x@) =~= before.map_values(
                    |x: LockLogEntry| x@,
                ).push(e@));
            }
        }
        i = i + 1;
    }
    assert(lv.take(lv.len() as int) =~= lv);
    out
}

/// The `git log` arguments that list the commits changing `flake.lock`.
pub fn lock_history_args(limit: Option<usize>) -> (r: Vec<String>)
    ensures
        r@.map_values(|s: String| s@) == seq![
            "log"@,
            "--format=%H|%at|%an|%ae|%s"@,
            "--follow"@,
            "--"@,
            "flake.lock"@,
        ] + match limit {
            Some(n) => seq!["-"@ + text::decimal_digits(n as nat)],
            None => Seq::empty(),
        },
{
    let mut r: Vec<String> = Vec::new();
    r.push(text::string_from("log"));
    r.push(text::string_from("--format=%H|%at|%an|%ae|%s"));
    r.push(text::string_from("--follow"));
    r.push(text::string_from("--"));
    r.push(text::string_from("flake.lock"));
    match limit {
        Some(n) => {
            let mut v: Vec<char> = Vec::new();
            v.push('-');
            let d = text::decimal(n as u64);
            text::append_chars(&mut v, d.as_slice());
            assert(v@ =~= "-"@ + text::decimal_digits(n as nat)) by {
                reveal_strlit("-");
            }
            r.push(text::string_of(v.as_slice()));
        },
        None => {},
    }
    assert(r@.map_values(|s: String| s@) =~= seq![
        "log"@,
        "--format=%H|%at|%an|%ae|%s"@,
        "--follow"@,
        "--"@,
        "flake.lock"@,
    ] + match limit {
        Some(n) => seq!["-"@ + text::decimal_digits(n as nat)],
        None => Seq::<Seq<char>>::empty(),
    });
    r
}

/// The `git log` arguments that list commits changing Nix files.
pub fn nix_changes_args(file_pattern: Option<&str>, limit: Option<usize>) -> (r: Vec<String>)
    ensures
        r@.map_values(|s: String| s@) == seq!["log"@, "--format=%H|%at|%an|%ae|%s"@, "--name-status"@]
            + match limit {
            Some(n) => seq!["-"@ + text::decimal_digits(n as nat)],
            None => Seq::empty(),
        } + seq![
            "--"@,
            match file_pattern {
                Some(p) => p@,
                None => "*.nix"@,
            },
        ],
{
    let mut r: Vec<String> = Vec::new();
    r.push(text::string_from("log"));
    r.push(text::string_from("--format=%H|%at|%an|%ae|%s"));
    r.push(text::string_from("--name-status"));
    let ghost a = r@.map_values(|s: String| s@);
    match limit {
        Some(n) => {
            let mut v: Vec<char> = Vec::new();
            v.push('-');
            let d = text::decimal(n as u64);
            text::append_chars(&mut v, d.as_slice());
            assert(v@ =~= "-"@ + text::decimal_digits(n as nat)) by {
                reveal_strlit("-");
            }
            r.push(text::string_of(v.as_slice()));
        },
        None => {},
    }
    let ghost b = r@.map_values(|s: String| s@);
    r.push(text::string_from("--"));
    match file_pattern {
        Some(p) => r.push(text::string_from(p)),
        None => r.push(text::string_from("*.nix")),
    }
    assert(r@.map_values(|s: String| s@) =~= seq!["log"@, "--format=%H|%at|%an|%ae|%s"@, "--name-status"@]
        + match limit {
        Some(n) => seq!["-"@ + text::decimal_digits(n as nat)],
        None => Seq::<Seq<char>>::empty(),
    } + seq![
        "--"@,
        match file_pattern {
            Some(p) => p@,
            None => "*.nix"@,
        },
    ]);
    r
}

/// Whether `git log` failed only because there is nothing to list: the
/// repository has no commits or the pattern matches no file.
pub fn no_matching_history(stderr: &str) -> (b: bool)
    ensures
        b == (text::has_sub(stderr@, "does not have any commits"@) || text::has_sub(
            stderr@,
            "pathspec"@,
        )),
{
    let v = text::chars_of(stderr);
    text::contains_str(v.as_slice(), "does not have any commits") || text::contains_str(
        v.as_slice(),
        "pathspec",
    )
}

} // verus!
