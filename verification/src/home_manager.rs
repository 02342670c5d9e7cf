//! Home Manager: program configurations, and the conversion of dotfiles
//! (git, vim, zsh, tmux) into them.

use vstd::prelude::*;
use crate::domain_error::NixDomainError;
use crate::named::{NameMap, insert, lookup};
use crate::text::{self, trimmed, has_prefix, halves, first_index, trim_char, views};
use crate::value::{NixAttrset, NixBool, NixInteger, NixString, NixValue, ValueModel};

verus! {

broadcast use vstd::string::group_string_axioms;

/// The configuration of one program.
#[derive(Debug)]
pub struct ProgramConfig {
    /// Whether the program is enabled.
    pub enabled: bool,
    /// Its settings.
    pub settings: NixAttrset,
    /// Configuration kept as written.
    pub extra_config: Option<String>,
}

/// The content of a program configuration.
pub struct ProgramView {
    pub enabled: bool,
    pub settings: Seq<(Seq<char>, ValueModel)>,
    pub extra_config: Option<Seq<char>>,
}

impl View for ProgramConfig {
    type V = ProgramView;

    open spec fn view(&self) -> ProgramView {
        ProgramView {
            enabled: self.enabled,
            settings: self.settings.model(),
            extra_config: match self.extra_config {
                Some(s) => Some(s@),
                None => None,
            },
        }
    }
}

impl ProgramConfig {
    /// A configuration with no setting.
    pub fn new(enabled: bool) -> (r: Self)
        ensures
            r@ == (ProgramView { enabled, settings: Seq::empty(), extra_config: None }),
    {
        ProgramConfig { enabled, settings: NixAttrset::new(), extra_config: None }
    }

    /// Whether the program is enabled.
    pub fn is_enabled(&self) -> (b: bool)
        ensures
            b == self.enabled,
    {
        self.enabled
    }
}

// ---------------------------------------------------------------------------
// What the converters read
// ---------------------------------------------------------------------------

/// The name of a `[section]` line.
pub open spec fn section_of(t: Seq<char>) -> Option<Seq<char>> {
    if t.len() >= 2 && t[0] == '[' && t.last() == ']' {
        Some(t.subrange(1, t.len() - 1))
    } else {
        None
    }
}

/// Reading a git config: the current section and the `user` and `core`
/// settings so far.
pub open spec fn git_scan(lines: Seq<Seq<char>>) -> (
    Seq<char>,
    Seq<(Seq<char>, ValueModel)>,
    Seq<(Seq<char>, ValueModel)>,
)
    decreases lines.len(),
{
    if lines.len() == 0 {
        (Seq::empty(), Seq::empty(), Seq::empty())
    } else {
        let st = git_scan(lines.drop_last());
        let t = trimmed(lines.last());
        match section_of(t) {
            Some(s) => (s, st.1, st.2),
            None => match halves(t, '=') {
                Some((k, v)) => if st.0 == "user"@ {
                    (st.0, insert(st.1, trimmed(k), ValueModel::Str(trimmed(v))), st.2)
                } else if st.0 == "core"@ {
                    (st.0, st.1, insert(st.2, trimmed(k), ValueModel::Str(trimmed(v))))
                } else {
                    st
                },
                None => st,
            },
        }
    }
}

/// The string bound to a name, or the empty string.
pub open spec fn str_or_empty(m: Seq<(Seq<char>, ValueModel)>, k: Seq<char>) -> ValueModel {
    match lookup(m, k) {
        Some(v) => v,
        None => ValueModel::Str(Seq::empty()),
    }
}

/// The Home Manager settings of a git config.
pub open spec fn git_settings(content: Seq<char>) -> Seq<(Seq<char>, ValueModel)> {
    let st = git_scan(text::line_seq(content));
    let s1 = if st.1.len() > 0 {
        insert(
            insert(Seq::empty(), "userName"@, str_or_empty(st.1, "name"@)),
            "userEmail"@,
            str_or_empty(st.1, "email"@),
        )
    } else {
        Seq::empty()
    };
    if st.2.len() > 0 {
        insert(
            s1,
            "extraConfig"@,
            ValueModel::Attrs(insert(Seq::empty(), "core"@, ValueModel::Attrs(st.2))),
        )
    } else {
        s1
    }
}

/// The Home Manager settings of a vimrc.
pub open spec fn vim_settings(content: Seq<char>) -> Seq<(Seq<char>, ValueModel)> {
    let a = if text::has_sub(content, "set number"@) {
        insert(Seq::empty(), "number"@, ValueModel::Bool(true))
    } else {
        Seq::empty()
    };
    let b = if text::has_sub(content, "set relativenumber"@) {
        insert(a, "relativenumber"@, ValueModel::Bool(true))
    } else {
        a
    };
    let c = if text::has_sub(content, "syntax on"@) {
        insert(b, "syntax"@, ValueModel::Bool(true))
    } else {
        b
    };
    if c.len() > 0 {
        insert(Seq::empty(), "settings"@, ValueModel::Attrs(c))
    } else {
        Seq::empty()
    }
}

/// The name and value of `name=value`, the value without surrounding
/// blanks and quotes.
pub open spec fn assignment(d: Seq<char>) -> Option<(Seq<char>, Seq<char>)> {
    match first_index(d, '=') {
        Some(i) => Some(
            (
                trimmed(d.take(i as int)),
                trim_char(trim_char(trimmed(d.skip(i as int + 1)), '"'), '\''),
            ),
        ),
        None => None,
    }
}

/// Reading a zshrc: aliases, exported variables and other lines so far.
pub open spec fn zsh_scan(lines: Seq<Seq<char>>) -> (
    Seq<(Seq<char>, ValueModel)>,
    Seq<(Seq<char>, ValueModel)>,
    Seq<Seq<char>>,
)
    decreases lines.len(),
{
    if lines.len() == 0 {
        (Seq::empty(), Seq::empty(), Seq::empty())
    } else {
        let st = zsh_scan(lines.drop_last());
        let t = trimmed(lines.last());
        if has_prefix(t, "alias "@) {
            match assignment(t.skip(6)) {
                Some((n, v)) => (insert(st.0, n, ValueModel::Str(v)), st.1, st.2),
                None => st,
            }
        } else if has_prefix(t, "export "@) {
            match assignment(t.skip(7)) {
                Some((n, v)) => (st.0, insert(st.1, n, ValueModel::Str(v)), st.2),
                None => st,
            }
        } else if t.len() > 0 && !has_prefix(t, "#"@) {
            (st.0, st.1, st.2.push(t))
        } else {
            st
        }
    }
}

/// The Home Manager settings of a zshrc.
pub open spec fn zsh_settings(content: Seq<char>) -> Seq<(Seq<char>, ValueModel)> {
    let st = zsh_scan(text::line_seq(content));
    let a = if st.0.len() > 0 {
        insert(Seq::empty(), "shellAliases"@, ValueModel::Attrs(st.0))
    } else {
        Seq::empty()
    };
    let b = if st.1.len() > 0 {
        insert(a, "sessionVariables"@, ValueModel::Attrs(st.1))
    } else {
        a
    };
    if st.2.len() > 0 {
        insert(b, "initExtra"@, ValueModel::Str(text::join_with(st.2, "\n"@)))
    } else {
        b
    }
}

/// Reading a tmux.conf: the settings so far.
pub open spec fn tmux_scan(lines: Seq<Seq<char>>) -> Seq<(Seq<char>, ValueModel)>
    decreases lines.len(),
{
    if lines.len() == 0 {
        Seq::empty()
    } else {
        let st = tmux_scan(lines.drop_last());
        let t = trimmed(lines.last());
        if has_prefix(t, "set -g prefix"@) {
            let w = text::words(t);
            if w.len() > 0 {
                insert(st, "prefix"@, ValueModel::Str(w.last()))
            } else {
                st
            }
        } else if text::has_sub(t, "mouse on"@) {
            insert(st, "mouse"@, ValueModel::Bool(true))
        } else if text::has_sub(t, "base-index 1"@) {
            insert(st, "baseIndex"@, ValueModel::Int(1))
        } else {
            st
        }
    }
}

// ---------------------------------------------------------------------------
// Converters
// ---------------------------------------------------------------------------

/// A string value.
fn str_value(s: &[char]) -> (v: NixValue)
    ensures
        v.model() == ValueModel::Str(s@),
{
    NixValue::String(NixString { value: text::string_of(s) })
}

/// The value bound to a name, copied, or the empty string.
fn copy_or_empty(m: &NixAttrset, k: &str) -> (v: NixValue)
    requires
        forall|i: int| 0 <= i < m.model().len() ==> (#[trigger] m.model()[i]).1 is Str,
    ensures
        v.model() == str_or_empty(m.model(), k@),
{
    proof {
        crate::named::lemma_key_index(m.model(), k@);
    }
    match m.get(k) {
        Some(NixValue::String(s)) => NixValue::String(NixString { value: s.value.clone() }),
        Some(_) => NixValue::String(NixString { value: String::new() }),
        None => NixValue::String(NixString { value: String::new() }),
    }
}

/// Every value of a sequence of settings is a string.
pub open spec fn all_strings(m: Seq<(Seq<char>, ValueModel)>) -> bool {
    forall|i: int| 0 <= i < m.len() ==> (#[trigger] m[i]).1 is Str
}

proof fn lemma_insert_strings(m: Seq<(Seq<char>, ValueModel)>, k: Seq<char>, v: Seq<char>)
    requires
        all_strings(m),
    ensures
        all_strings(insert(m, k, ValueModel::Str(v))),
{
    crate::named::lemma_key_index(m, k);
}

proof fn lemma_git_scan_strings(lines: Seq<Seq<char>>)
    ensures
        all_strings(git_scan(lines).1),
        all_strings(git_scan(lines).2),
    decreases lines.len(),
{
    if lines.len() > 0 {
        lemma_git_scan_strings(lines.drop_last());
        let st = git_scan(lines.drop_last());
        let t = trimmed(lines.last());
        match halves(t, '=') {
            Some((k, v)) => {
                lemma_insert_strings(st.1, trimmed(k), trimmed(v));
                lemma_insert_strings(st.2, trimmed(k), trimmed(v));
            },
            None => {},
        }
    }
}

// ---------------------------------------------------------------------------
// What a git config says, line by line
// ---------------------------------------------------------------------------

/// The section in force at line `i` of a git config: the name of the last
/// `[section]` header before it, or the empty name before any header.
pub open spec fn section_at(lines: Seq<Seq<char>>, i: int) -> Seq<char>
    decreases i,
{
    if i <= 0 || i > lines.len() {
        Seq::empty()
    } else {
        match section_of(trimmed(lines[i - 1])) {
            Some(s) => s,
            None => section_at(lines, i - 1),
        }
    }
}

/// The name and value a `name = value` line sets, both without surrounding
/// blanks; none for a header or a line without `=`.
pub open spec fn entry_at(lines: Seq<Seq<char>>, i: int) -> Option<(Seq<char>, Seq<char>)> {
    let t = trimmed(lines[i]);
    if section_of(t) is Some {
        None
    } else {
        match halves(t, '=') {
            Some((k, v)) => Some((trimmed(k), trimmed(v))),
            None => None,
        }
    }
}

/// Line `i` sets `k` to `v` inside section `sec`.
pub open spec fn setting_in(lines: Seq<Seq<char>>, sec: Seq<char>, i: int, k: Seq<char>, v: Seq<char>) -> bool {
    0 <= i < lines.len() && section_at(lines, i) == sec && entry_at(lines, i) == Some((k, v))
}

/// A line after `i` and before `n` sets `k` again inside section `sec`.
pub open spec fn set_again(lines: Seq<Seq<char>>, sec: Seq<char>, i: int, n: int, k: Seq<char>) -> bool {
    exists|j: int, w: Seq<char>| i < j < n && #[trigger] setting_in(lines, sec, j, k, w)
}

/// The `extraConfig.core` table of Home Manager git settings, if any.
pub open spec fn git_core_table(settings: Seq<(Seq<char>, ValueModel)>) -> Option<
    Seq<(Seq<char>, ValueModel)>,
> {
    match lookup(settings, "extraConfig"@) {
        Some(ValueModel::Attrs(e)) => match lookup(e, "core"@) {
            Some(ValueModel::Attrs(c)) => Some(c),
            _ => None,
        },
        _ => None,
    }
}

/// What a table read from the first `n` lines holds for section `sec`:
/// each name bound to a string that a line of the section sets it to, each
/// name that a line of the section sets bound to the value of its last such
/// line, and something bound exactly when some line of the section sets
/// something.
pub open spec fn table_reads(
    lines: Seq<Seq<char>>,
    n: int,
    sec: Seq<char>,
    t: Seq<(Seq<char>, ValueModel)>,
) -> bool {
    &&& forall|k: Seq<char>|
        #[trigger] lookup(t, k) is Some ==> exists|i: int, v: Seq<char>|
            i < n && lookup(t, k) == Some(ValueModel::Str(v)) && #[trigger] setting_in(lines, sec, i, k, v)
    &&& forall|i: int, k: Seq<char>, v: Seq<char>|
        i < n && #[trigger] setting_in(lines, sec, i, k, v) && !set_again(lines, sec, i, n, k)
            ==> lookup(t, k) == Some(ValueModel::Str(v))
    &&& (t.len() > 0 <==> exists|i: int, k: Seq<char>, v: Seq<char>|
        i < n && #[trigger] setting_in(lines, sec, i, k, v))
}

proof fn lemma_insert_nonempty(m: Seq<(Seq<char>, ValueModel)>, k: Seq<char>, v: ValueModel)
    ensures
        insert(m, k, v).len() > 0,
{
    crate::named::lemma_key_index(m, k);
}

/// One more line read into the table of section `sec`.
proof fn lemma_table_step(
    lines: Seq<Seq<char>>,
    n: int,
    sec: Seq<char>,
    t: Seq<(Seq<char>, ValueModel)>,
    t2: Seq<(Seq<char>, ValueModel)>,
)
    requires
        0 < n <= lines.len(),
        table_reads(lines, n - 1, sec, t),
        section_at(lines, n - 1) == sec && entry_at(lines, n - 1) is Some ==> t2 == insert(
            t,
            (entry_at(lines, n - 1)->0).0,
            ValueModel::Str((entry_at(lines, n - 1)->0).1),
        ),
        !(section_at(lines, n - 1) == sec && entry_at(lines, n - 1) is Some) ==> t2 == t,
    ensures
        table_reads(lines, n, sec, t2),
{
    let here = section_at(lines, n - 1) == sec && entry_at(lines, n - 1) is Some;
    if here {
        let (k2, v2) = entry_at(lines, n - 1)->0;
        assert(setting_in(lines, sec, n - 1, k2, v2));
        lemma_insert_nonempty(t, k2, ValueModel::Str(v2));
        assert forall|k: Seq<char>| #[trigger] lookup(t2, k) is Some implies exists|
            i: int,
            v: Seq<char>,
        | i < n && lookup(t2, k) == Some(ValueModel::Str(v)) && #[trigger] setting_in(lines, sec, i, k, v) by {
            crate::named::lemma_lookup_insert(t, k2, ValueModel::Str(v2), k);
            if k != k2 {
                assert(lookup(t, k) is Some);
            }
        }
        assert forall|i: int, k: Seq<char>, v: Seq<char>|
            i < n && #[trigger] setting_in(lines, sec, i, k, v) && !set_again(lines, sec, i, n, k)
                implies lookup(t2, k) == Some(ValueModel::Str(v)) by {
            crate::named::lemma_lookup_insert(t, k2, ValueModel::Str(v2), k);
            if i < n - 1 {
                if k == k2 {
                    assert(set_again(lines, sec, i, n, k));
                }
                assert(!set_again(lines, sec, i, n - 1, k)) by {
                    if set_again(lines, sec, i, n - 1, k) {
                        let (j, w) = choose|j: int, w: Seq<char>|
                            i < j < n - 1 && #[trigger] setting_in(lines, sec, j, k, w);
                        assert(setting_in(lines, sec, j, k, w));
                    }
                }
            }
        }
    } else {
        assert forall|k: Seq<char>| #[trigger] lookup(t2, k) is Some implies exists|
            i: int,
            v: Seq<char>,
        | i < n && lookup(t2, k) == Some(ValueModel::Str(v)) && #[trigger] setting_in(lines, sec, i, k, v) by {
            assert(lookup(t, k) is Some);
        }
        assert forall|i: int, k: Seq<char>, v: Seq<char>|
            i < n && #[trigger] setting_in(lines, sec, i, k, v) && !set_again(lines, sec, i, n, k)
                implies lookup(t2, k) == Some(ValueModel::Str(v)) by {
            assert(i != n - 1);
            assert(!set_again(lines, sec, i, n - 1, k)) by {
                if set_again(lines, sec, i, n - 1, k) {
                    let (j, w) = choose|j: int, w: Seq<char>|
                        i < j < n - 1 && #[trigger] setting_in(lines, sec, j, k, w);
                    assert(setting_in(lines, sec, j, k, w));
                }
            }
        }
        if t2.len() > 0 {
            let (i, k, v) = choose|i: int, k: Seq<char>, v: Seq<char>|
                i < n - 1 && #[trigger] setting_in(lines, sec, i, k, v);
            assert(setting_in(lines, sec, i, k, v));
        }
        if exists|i: int, k: Seq<char>, v: Seq<char>| i < n && #[trigger] setting_in(lines, sec, i, k, v) {
            let (i, k, v) = choose|i: int, k: Seq<char>, v: Seq<char>|
                i < n && #[trigger] setting_in(lines, sec, i, k, v);
            assert(i != n - 1);
            assert(setting_in(lines, sec, i, k, v));
        }
    }
}

/// Reading the first `n` lines of a git config leaves the section in force
/// after them and the `user` and `core` tables that those lines set.
proof fn lemma_git_scan_reads(lines: Seq<Seq<char>>, n: int)
    requires
        0 <= n <= lines.len(),
    ensures
        git_scan(lines.take(n)).0 == section_at(lines, n),
        table_reads(lines, n, "user"@, git_scan(lines.take(n)).1),
        table_reads(lines, n, "core"@, git_scan(lines.take(n)).2),
    decreases n,
{
    reveal_strlit("user");
    reveal_strlit("core");
    assert("user"@ != "core"@) by {
        assert("user"@[0] != "core"@[0]);
    }
    if n == 0 {
        assert(lines.take(0) =~= Seq::<Seq<char>>::empty());
    } else {
        lemma_git_scan_reads(lines, n - 1);
        assert(lines.take(n).drop_last() =~= lines.take(n - 1));
        assert(lines.take(n).last() == lines[n - 1]);
        let st = git_scan(lines.take(n - 1));
        let st2 = git_scan(lines.take(n));
        lemma_table_step(lines, n, "user"@, st.1, st2.1);
        lemma_table_step(lines, n, "core"@, st.2, st2.2);
    }
}

/// The `[core]` section of a git config becomes `extraConfig.core`: it is
/// there exactly when some line inside `[core]` sets a name; each name in
/// it is bound to a string that a line inside `[core]` sets it to, so no
/// setting of another section gets in; and each name set inside `[core]`
/// is bound to the value of the last line that sets it there.
pub proof fn law_git_core_section(content: Seq<char>, k: Seq<char>, x: ValueModel, i: int, v: Seq<char>)
    ensures
        ({
            let lines = text::line_seq(content);
            &&& git_core_table(git_settings(content)) is Some <==> exists|j: int, kk: Seq<char>, vv: Seq<char>|
                #[trigger] setting_in(lines, "core"@, j, kk, vv)
            &&& (git_core_table(git_settings(content)) matches Some(c) && lookup(c, k) == Some(x))
                ==> exists|j: int, w: Seq<char>|
                x == ValueModel::Str(w) && #[trigger] setting_in(lines, "core"@, j, k, w)
            &&& setting_in(lines, "core"@, i, k, v) && !set_again(lines, "core"@, i, lines.len() as int, k)
                ==> (git_core_table(git_settings(content)) matches Some(c) && lookup(c, k) == Some(
                ValueModel::Str(v),
            ))
        }),
{
    let lines = text::line_seq(content);
    let n = lines.len() as int;
    lemma_git_scan_reads(lines, n);
    assert(lines.take(n) =~= lines);
    let st = git_scan(lines);
    reveal_strlit("userName");
    reveal_strlit("userEmail");
    reveal_strlit("extraConfig");
    assert("extraConfig"@.len() == 11 && "userName"@.len() == 8 && "userEmail"@.len() == 9);
    let s1 = if st.1.len() > 0 {
        insert(
            insert(Seq::empty(), "userName"@, str_or_empty(st.1, "name"@)),
            "userEmail"@,
            str_or_empty(st.1, "email"@),
        )
    } else {
        Seq::empty()
    };
    crate::named::lemma_lookup_insert(
        insert(Seq::empty(), "userName"@, str_or_empty(st.1, "name"@)),
        "userEmail"@,
        str_or_empty(st.1, "email"@),
        "extraConfig"@,
    );
    crate::named::lemma_lookup_insert(
        Seq::<(Seq<char>, ValueModel)>::empty(),
        "userName"@,
        str_or_empty(st.1, "name"@),
        "extraConfig"@,
    );
    assert(lookup(s1, "extraConfig"@) is None);
    let inner = insert(Seq::empty(), "core"@, ValueModel::Attrs(st.2));
    crate::named::lemma_lookup_insert(Seq::empty(), "core"@, ValueModel::Attrs(st.2), "core"@);
    crate::named::lemma_lookup_insert(s1, "extraConfig"@, ValueModel::Attrs(inner), "extraConfig"@);
    if st.2.len() > 0 {
        assert(git_core_table(git_settings(content)) == Some(st.2));
    } else {
        assert(git_core_table(git_settings(content)) is None);
    }
}

/// The `[user]` section of a git config becomes `userName` and
/// `userEmail`: both are there exactly when some line inside `[user]` sets
/// a name; each is the value of the last line inside `[user]` that sets
/// `name` (or `email`), or the empty string when no such line is there.
pub proof fn law_git_user_section(content: Seq<char>, i: int, v: Seq<char>)
    ensures
        ({
            let lines = text::line_seq(content);
            let g = git_settings(content);
            let any_user = exists|j: int, kk: Seq<char>, vv: Seq<char>|
                #[trigger] setting_in(lines, "user"@, j, kk, vv);
            &&& lookup(g, "userName"@) is Some <==> any_user
            &&& lookup(g, "userEmail"@) is Some <==> any_user
            &&& (lookup(g, "userName"@) matches Some(x) ==> x == ValueModel::Str(Seq::empty())
                || exists|j: int, w: Seq<char>|
                x == ValueModel::Str(w) && #[trigger] setting_in(lines, "user"@, j, "name"@, w))
            &&& (lookup(g, "userEmail"@) matches Some(x) ==> x == ValueModel::Str(Seq::empty())
                || exists|j: int, w: Seq<char>|
                x == ValueModel::Str(w) && #[trigger] setting_in(lines, "user"@, j, "email"@, w))
            &&& (setting_in(lines, "user"@, i, "name"@, v) && !set_again(
                lines,
                "user"@,
                i,
                lines.len() as int,
                "name"@,
            ) ==> lookup(g, "userName"@) == Some(ValueModel::Str(v)))
            &&& (setting_in(lines, "user"@, i, "email"@, v) && !set_again(
                lines,
                "user"@,
                i,
                lines.len() as int,
                "email"@,
            ) ==> lookup(g, "userEmail"@) == Some(ValueModel::Str(v)))
        }),
{
    let lines = text::line_seq(content);
    let n = lines.len() as int;
    lemma_git_scan_reads(lines, n);
    assert(lines.take(n) =~= lines);
    let st = git_scan(lines);
    reveal_strlit("userName");
    reveal_strlit("userEmail");
    reveal_strlit("extraConfig");
    assert("extraConfig"@.len() == 11 && "userName"@.len() == 8 && "userEmail"@.len() == 9);
    let a = str_or_empty(st.1, "name"@);
    let b = str_or_empty(st.1, "email"@);
    let s0 = insert(Seq::<(Seq<char>, ValueModel)>::empty(), "userName"@, a);
    let s1 = if st.1.len() > 0 {
        insert(s0, "userEmail"@, b)
    } else {
        Seq::empty()
    };
    crate::named::lemma_lookup_insert(Seq::<(Seq<char>, ValueModel)>::empty(), "userName"@, a, "userName"@);
    crate::named::lemma_lookup_insert(s0, "userEmail"@, b, "userName"@);
    crate::named::lemma_lookup_insert(s0, "userEmail"@, b, "userEmail"@);
    let inner = insert(Seq::empty(), "core"@, ValueModel::Attrs(st.2));
    crate::named::lemma_lookup_insert(s1, "extraConfig"@, ValueModel::Attrs(inner), "userName"@);
    crate::named::lemma_lookup_insert(s1, "extraConfig"@, ValueModel::Attrs(inner), "userEmail"@);
    assert(lookup(git_settings(content), "userName"@) == lookup(s1, "userName"@));
    assert(lookup(git_settings(content), "userEmail"@) == lookup(s1, "userEmail"@));
    if st.1.len() > 0 {
        assert(lookup(s1, "userName"@) == Some(a));
        assert(lookup(s1, "userEmail"@) == Some(b));
        assert(lookup(st.1, "name"@) is Some ==> lookup(st.1, "name"@) == Some(a));
        assert(lookup(st.1, "email"@) is Some ==> lookup(st.1, "email"@) == Some(b));
    }
}

/// Whether a string slice is exactly a literal.
fn is_lit(s: &[char], lit: &str) -> (b: bool)
    ensures
        b == (s@ == lit@),
{
    text::eq_str(s, lit)
}

/// Reads a git config into a program configuration: `user.name` and
/// `user.email` become `userName` and `userEmail`, the `core` section
/// becomes `extraConfig.core`.
pub fn convert_git(content: &str) -> (r: ProgramConfig)
    ensures
        r@ == (ProgramView { enabled: true, settings: git_settings(content@), extra_config: None }),
{
    let chars = text::chars_of(content);
    let ls = text::lines(chars.as_slice());
    let ghost lv = views(ls@);
    let mut section: Vec<char> = Vec::new();
    let mut user = NixAttrset::new();
    let mut core = NixAttrset::new();
    let mut i: usize = 0;
    assert(lv.take(0) =~= Seq::<Seq<char>>::empty());
    while i < ls.len()
        invariant
            i <= ls@.len(),
            lv == views(ls@),
            lv == text::line_seq(content@),
            (section@, user.model(), core.model()) == git_scan(lv.take(i as int)),
        decreases ls@.len() - i,
    {
        proof {
            assert(lv.take(i + 1).drop_last() =~= lv.take(i as int));
            assert(lv.take(i + 1).last() == ls@[i as int]@);
        }
        let t = text::trim(ls[i].as_slice());
        if t.len() >= 2 && t[0] == '[' && t[t.len() - 1] == ']' {
            section = text::slice_vec(t.as_slice(), 1, t.len() - 1);
        } else {
            match text::split_once(t.as_slice(), '=') {
                Some((k, v)) => {
                    let key = text::trim(k.as_slice());
                    let val = text::trim(v.as_slice());
                    if is_lit(section.as_slice(), "user") {
                        user.insert(text::string_of(key.as_slice()), str_value(val.as_slice()));
                    } else if is_lit(section.as_slice(), "core") {
                        core.insert(text::string_of(key.as_slice()), str_value(val.as_slice()));
                    }
                },
                None => {},
            }
        }
        i = i + 1;
    }
    assert(lv.take(lv.len() as int) =~= lv);
    proof {
        lemma_git_scan_strings(lv);
    }
    let mut config = ProgramConfig::new(true);
    if user.len() > 0 {
        let n = copy_or_empty(&user, "name");
        let e = copy_or_empty(&user, "email");
        config.settings.insert(text::string_from("userName"), n);
        config.settings.insert(text::string_from("userEmail"), e);
    }
    if core.len() > 0 {
        let mut extra = NixAttrset::new();
        extra.insert(text::string_from("core"), NixValue::Attrset(core));
        config.settings.insert(text::string_from("extraConfig"), NixValue::Attrset(extra));
    }
    config
}

/// Reads a vimrc into a program configuration: line numbers, relative
/// numbers and syntax highlighting when it turns them on; the whole file is
/// kept as written.
pub fn convert_vim(content: &str) -> (r: ProgramConfig)
    ensures
        r@ == (ProgramView {
            enabled: true,
            settings: vim_settings(content@),
            extra_config: Some(content@),
        }),
{
    let chars = text::chars_of(content);
    let mut settings = NixAttrset::new();
    if text::contains_str(chars.as_slice(), "set number") {
        settings.insert(text::string_from("number"), NixValue::Bool(NixBool { value: true }));
    }
    if text::contains_str(chars.as_slice(), "set relativenumber") {
        settings.insert(text::string_from("relativenumber"), NixValue::Bool(NixBool { value: true }));
    }
    if text::contains_str(chars.as_slice(), "syntax on") {
        settings.insert(text::string_from("syntax"), NixValue::Bool(NixBool { value: true }));
    }
    let mut config = ProgramConfig::new(true);
    if settings.len() > 0 {
        config.settings.insert(text::string_from("settings"), NixValue::Attrset(settings));
    }
    config.extra_config = Some(text::string_from(content));
    config
}

/// The name and value of `name=value`.
fn parse_assignment(d: &[char]) -> (r: Option<(Vec<char>, Vec<char>)>)
    ensures
        match assignment(d@) {
            Some((n, v)) => r matches Some((x, y)) && x@ == n && y@ == v,
            None => r is None,
        },
{
    match text::index_of(d, '=') {
        Some(k) => {
            proof {
                text::lemma_index_of(d@, '=');
            }
            assert(k < d.len());
            let a = text::slice_vec(d, 0, k);
            let b = text::slice_vec(d, k + 1, d.len());
            assert(a@ =~= d@.take(k as int));
            assert(b@ =~= d@.skip(k + 1));
            let name = text::trim(a.as_slice());
            let v1 = text::trim(b.as_slice());
            let v2 = text::trim_matches(v1.as_slice(), '"');
            let v3 = text::trim_matches(v2.as_slice(), '\'');
            Some((name, v3))
        },
        None => None,
    }
}

/// Reads a zshrc into a program configuration: aliases, exported variables,
/// and the other non-comment lines joined as extra initialisation.
pub fn convert_zsh(content: &str) -> (r: ProgramConfig)
    ensures
        r@ == (ProgramView { enabled: true, settings: zsh_settings(content@), extra_config: None }),
{
    let chars = text::chars_of(content);
    let ls = text::lines(chars.as_slice());
    let ghost lv = views(ls@);
    let mut aliases = NixAttrset::new();
    let mut env = NixAttrset::new();
    let mut init: Vec<Vec<char>> = Vec::new();
    let mut i: usize = 0;
    assert(lv.take(0) =~= Seq::<Seq<char>>::empty());
    assert(views(init@) =~= Seq::<Seq<char>>::empty());
    while i < ls.len()
        invariant
            i <= ls@.len(),
            lv == views(ls@),
            lv == text::line_seq(content@),
            (aliases.model(), env.model(), views(init@)) == zsh_scan(lv.take(i as int)),
        decreases ls@.len() - i,
    {
        proof {
            assert(lv.take(i + 1).drop_last() =~= lv.take(i as int));
            assert(lv.take(i + 1).last() == ls@[i as int]@);
        }
        let t = text::trim(ls[i].as_slice());
        proof {
            reveal_strlit("alias ");
            reveal_strlit("export ");
        }
        if text::starts_with_str(t.as_slice(), "alias ") {
            let d = text::slice_vec(t.as_slice(), 6, t.len());
            assert(d@ =~= t@.skip(6)) by {
                reveal_strlit("alias ");
            }
            match parse_assignment(d.as_slice()) {
                Some((n, v)) => {
                    aliases.insert(text::string_of(n.as_slice()), str_value(v.as_slice()));
                },
                None => {},
            }
        } else if text::starts_with_str(t.as_slice(), "export ") {
            let d = text::slice_vec(t.as_slice(), 7, t.len());
            assert(d@ =~= t@.skip(7)) by {
                reveal_strlit("export ");
            }
            match parse_assignment(d.as_slice()) {
                Some((n, v)) => {
                    env.insert(text::string_of(n.as_slice()), str_value(v.as_slice()));
                },
                None => {},
            }
        } else if t.len() > 0 && !text::starts_with_str(t.as_slice(), "#") {
            let ghost before = init@;
            init.push(t);
            proof {
                text::lemma_views_push(before, t);
            }
        }
        i = i + 1;
    }
    assert(lv.take(lv.len() as int) =~= lv);
    let mut config = ProgramConfig::new(true);
    if aliases.len() > 0 {
        config.settings.insert(text::string_from("shellAliases"), NixValue::Attrset(aliases));
    }
    if env.len() > 0 {
        config.settings.insert(text::string_from("sessionVariables"), NixValue::Attrset(env));
    }
    if init.len() > 0 {
        let joined = text::join_str(init.as_slice(), "\n");
        config.settings.insert(text::string_from("initExtra"), str_value(joined.as_slice()));
    }
    config
}

/// Reads a tmux.conf into a program configuration: the prefix key, mouse
/// mode and base index when it sets them; the whole file is kept as written.
pub fn convert_tmux(content: &str) -> (r: ProgramConfig)
    ensures
        r@ == (ProgramView {
            enabled: true,
            settings: tmux_scan(text::line_seq(content@)),
            extra_config: Some(content@),
        }),
{
    let chars = text::chars_of(content);
    let ls = text::lines(chars.as_slice());
    let ghost lv = views(ls@);
    let mut settings = NixAttrset::new();
    let mut i: usize = 0;
    assert(lv.take(0) =~= Seq::<Seq<char>>::empty());
    while i < ls.len()
        invariant
            i <= ls@.len(),
            lv == views(ls@),
            lv == text::line_seq(content@),
            settings.model() == tmux_scan(lv.take(i as int)),
        decreases ls@.len() - i,
    {
        proof {
            assert(lv.take(i + 1).drop_last() =~= lv.take(i as int));
            assert(lv.take(i + 1).last() == ls@[i as int]@);
        }
        let t = text::trim(ls[i].as_slice());
        if text::starts_with_str(t.as_slice(), "set -g prefix") {
            let w = text::split_whitespace(t.as_slice());
            if w.len() > 0 {
                assert(views(w@).last() == w@[w@.len() - 1]@);
                settings.insert(text::string_from("prefix"), str_value(w[w.len() - 1].as_slice()));
            }
        } else if text::contains_str(t.as_slice(), "mouse on") {
            settings.insert(text::string_from("mouse"), NixValue::Bool(NixBool { value: true }));
        } else if text::contains_str(t.as_slice(), "base-index 1") {
            settings.insert(text::string_from("baseIndex"), NixValue::Integer(NixInteger { value: 1 }));
        }
        i = i + 1;
    }
    assert(lv.take(lv.len() as int) =~= lv);
    let mut config = ProgramConfig::new(true);
    config.extra_config = Some(text::string_from(content));
    if settings.len() > 0 {
        config.settings = settings;
    }
    config
}

/// Converts the text of one kind of dotfile into a program configuration.
pub trait DotfileConverter {
    /// Converts the text of a dotfile.
    fn convert_content(&self, content: &str) -> Result<ProgramConfig, NixDomainError>;

    /// The program the converter handles.
    fn program_name(&self) -> &'static str;

    /// Whether the converter handles a file of this name.
    fn can_handle(&self, file_name: &str) -> bool;
}

/// Converter of git configs.
pub struct GitConverter;

/// Converter of vimrc files.
pub struct VimConverter;

/// Converter of zshrc files.
pub struct ZshConverter;

/// Converter of tmux.conf files.
pub struct TmuxConverter;

impl GitConverter {
    /// A converter.
    pub fn new() -> (r: Self) {
        GitConverter
    }
}

impl VimConverter {
    /// A converter.
    pub fn new() -> (r: Self) {
        VimConverter
    }
}

impl ZshConverter {
    /// A converter.
    pub fn new() -> (r: Self) {
        ZshConverter
    }
}

impl TmuxConverter {
    /// A converter.
    pub fn new() -> (r: Self) {
        TmuxConverter
    }
}

/// The built-in converters.
#[derive(Debug, Clone, Copy, PartialEq, Eq, Structural)]
pub enum ConverterKind {
    /// git.
    Git,
    /// vim.
    Vim,
    /// zsh.
    Zsh,
    /// tmux.
    Tmux,
}

/// The program a converter handles.
pub open spec fn program_of(k: ConverterKind) -> Seq<char> {
    match k {
        ConverterKind::Git => "git"@,
        ConverterKind::Vim => "vim"@,
        ConverterKind::Zsh => "zsh"@,
        ConverterKind::Tmux => "tmux"@,
    }
}

/// The file names a converter handles.
pub open spec fn handles(k: ConverterKind, name: Seq<char>) -> bool {
    match k {
        ConverterKind::Git => name == ".gitconfig"@ || name == "gitconfig"@,
        ConverterKind::Vim => name == ".vimrc"@ || name == "vimrc"@ || name == ".vim"@,
        ConverterKind::Zsh => name == ".zshrc"@ || name == ".zshenv"@ || name == "zshrc"@,
        ConverterKind::Tmux => name == ".tmux.conf"@ || name == "tmux.conf"@,
    }
}

/// The configuration a converter makes of a text.
pub open spec fn converted_by(k: ConverterKind, content: Seq<char>) -> ProgramView {
    match k {
        ConverterKind::Git => ProgramView {
            enabled: true,
            settings: git_settings(content),
            extra_config: None,
        },
        ConverterKind::Vim => ProgramView {
            enabled: true,
            settings: vim_settings(content),
            extra_config: Some(content),
        },
        ConverterKind::Zsh => ProgramView {
            enabled: true,
            settings: zsh_settings(content),
            extra_config: None,
        },
        ConverterKind::Tmux => ProgramView {
            enabled: true,
            settings: tmux_scan(text::line_seq(content)),
            extra_config: Some(content),
        },
    }
}

impl ConverterKind {
    /// The program the converter handles.
    pub fn program_name(&self) -> (r: &'static str)
        ensures
            r@ == program_of(*self),
    {
        match self {
            ConverterKind::Git => "git",
            ConverterKind::Vim => "vim",
            ConverterKind::Zsh => "zsh",
            ConverterKind::Tmux => "tmux",
        }
    }

    /// Whether the converter handles a file of this name.
    pub fn can_handle(&self, file_name: &str) -> (b: bool)
        ensures
            b == handles(*self, file_name@),
    {
        let n = text::chars_of(file_name);
        let s = n.as_slice();
        match self {
            ConverterKind::Git => is_lit(s, ".gitconfig") || is_lit(s, "gitconfig"),
            ConverterKind::Vim => is_lit(s, ".vimrc") || is_lit(s, "vimrc") || is_lit(s, ".vim"),
            ConverterKind::Zsh => is_lit(s, ".zshrc") || is_lit(s, ".zshenv") || is_lit(s, "zshrc"),
            ConverterKind::Tmux => is_lit(s, ".tmux.conf") || is_lit(s, "tmux.conf"),
        }
    }

    /// Converts the text of a dotfile.
    pub fn convert_content(&self, content: &str) -> (r: ProgramConfig)
        ensures
            r@ == converted_by(*self, content@),
    {
        match self {
            ConverterKind::Git => convert_git(content),
            ConverterKind::Vim => convert_vim(content),
            ConverterKind::Zsh => convert_zsh(content),
            ConverterKind::Tmux => convert_tmux(content),
        }
    }

    /// The error when the dotfile cannot be read.
    pub fn read_error(&self, cause: &str) -> (e: NixDomainError)
        ensures
            e matches NixDomainError::ParseError(m) && m@ == "Failed to read "@ + program_of(*self)
                + " config: "@ + cause@,
    {
        let mut v: Vec<char> = Vec::new();
        text::append_str(&mut v, "Failed to read ");
        text::append_str(&mut v, self.program_name());
        text::append_str(&mut v, " config: ");
        text::append_str(&mut v, cause);
        NixDomainError::ParseError(text::string_of(v.as_slice()))
    }
}

impl DotfileConverter for GitConverter {
    fn convert_content(&self, content: &str) -> (r: Result<ProgramConfig, NixDomainError>)
        ensures
            r matches Ok(c) && c@ == converted_by(ConverterKind::Git, content@),
    {
        Ok(convert_git(content))
    }

    fn program_name(&self) -> (r: &'static str)
        ensures
            r@ == "git"@,
    {
        "git"
    }

    fn can_handle(&self, file_name: &str) -> (b: bool)
        ensures
            b == handles(ConverterKind::Git, file_name@),
    {
        ConverterKind::Git.can_handle(file_name)
    }
}

impl DotfileConverter for VimConverter {
    fn convert_content(&self, content: &str) -> (r: Result<ProgramConfig, NixDomainError>)
        ensures
            r matches Ok(c) && c@ == converted_by(ConverterKind::Vim, content@),
    {
        Ok(convert_vim(content))
    }

    fn program_name(&self) -> (r: &'static str)
        ensures
            r@ == "vim"@,
    {
        "vim"
    }

    fn can_handle(&self, file_name: &str) -> (b: bool)
        ensures
            b == handles(ConverterKind::Vim, file_name@),
    {
        ConverterKind::Vim.can_handle(file_name)
    }
}

impl DotfileConverter for ZshConverter {
    fn convert_content(&self, content: &str) -> (r: Result<ProgramConfig, NixDomainError>)
        ensures
            r matches Ok(c) && c@ == converted_by(ConverterKind::Zsh, content@),
    {
        Ok(convert_zsh(content))
    }

    fn program_name(&self) -> (r: &'static str)
        ensures
            r@ == "zsh"@,
    {
        "zsh"
    }

    fn can_handle(&self, file_name: &str) -> (b: bool)
        ensures
            b == handles(ConverterKind::Zsh, file_name@),
    {
        ConverterKind::Zsh.can_handle(file_name)
    }
}

impl DotfileConverter for TmuxConverter {
    fn convert_content(&self, content: &str) -> (r: Result<ProgramConfig, NixDomainError>)
        ensures
            r matches Ok(c) && c@ == converted_by(ConverterKind::Tmux, content@),
    {
        Ok(convert_tmux(content))
    }

    fn program_name(&self) -> (r: &'static str)
        ensures
            r@ == "tmux"@,
    {
        "tmux"
    }

    fn can_handle(&self, file_name: &str) -> (b: bool)
        ensures
            b == handles(ConverterKind::Tmux, file_name@),
    {
        ConverterKind::Tmux.can_handle(file_name)
    }
}

/// The first converter, in registration order, that handles a file name.
pub open spec fn first_handler(m: Seq<(Seq<char>, ConverterKind)>, name: Seq<char>) -> Option<ConverterKind>
    decreases m.len(),
{
    if m.len() == 0 {
        None
    } else if handles(m[0].1, name) {
        Some(m[0].1)
    } else {
        first_handler(m.drop_first(), name)
    }
}

/// The converters of programs, by program name. Each entry is one of the
/// built-in converter kinds: Verus does not accept storing an
/// `Arc<dyn DotfileConverter>` (an unsizing coercion), so converters of
/// other programs cannot be registered here.
pub struct ProgramConverter {
    converters: NameMap<ConverterKind>,
}

impl ProgramConverter {
    /// The registered converters, by name.
    pub closed spec fn registry(&self) -> Seq<(Seq<char>, ConverterKind)> {
        self.converters.model()
    }

    /// No name is registered twice.
    #[verifier::type_invariant]
    spec fn names_distinct(&self) -> bool {
        crate::named::names_unique(self.converters.model())
    }

    /// A registry of the built-in converters: `git`/`gitconfig`,
    /// `vim`/`vimrc`, `zsh`/`zshrc` and `tmux`/`tmux.conf`.
    pub fn new() -> (r: Self)
        ensures
            r.registry() == seq![
                ("git"@, ConverterKind::Git),
                ("gitconfig"@, ConverterKind::Git),
                ("vim"@, ConverterKind::Vim),
                ("vimrc"@, ConverterKind::Vim),
                ("zsh"@, ConverterKind::Zsh),
                ("zshrc"@, ConverterKind::Zsh),
                ("tmux"@, ConverterKind::Tmux),
                ("tmux.conf"@, ConverterKind::Tmux),
            ],
    {
        let mut c: NameMap<ConverterKind> = NameMap::new();
        proof {
            reveal_strlit("git");
            reveal_strlit("gitconfig");
            reveal_strlit("vim");
            reveal_strlit("vimrc");
            reveal_strlit("zsh");
            reveal_strlit("zshrc");
            reveal_strlit("tmux");
            reveal_strlit("tmux.conf");
        }
        let ghost names = seq![
            "git"@,
            "gitconfig"@,
            "vim"@,
            "vimrc"@,
            "zsh"@,
            "zshrc"@,
            "tmux"@,
            "tmux.conf"@,
        ];
        proof {
            assert(names[0][0] == 'g' && names[0].len() == 3);
            assert(names[1][0] == 'g' && names[1].len() == 9);
            assert(names[2][0] == 'v' && names[2].len() == 3);
            assert(names[3][0] == 'v' && names[3].len() == 5);
            assert(names[4][0] == 'z' && names[4].len() == 3);
            assert(names[5][0] == 'z' && names[5].len() == 5);
            assert(names[6][0] == 't' && names[6].len() == 4);
            assert(names[7][0] == 't' && names[7].len() == 9);
            assert forall|a: int, b: int| 0 <= a < b < 8 implies names[a] != names[b] by {
                if names[a] == names[b] {
                    assert(names[a][0] == names[b][0]);
                    assert(names[a].len() == names[b].len());
                }
            }
        }
        let ghost kinds = seq![
            ConverterKind::Git,
            ConverterKind::Git,
            ConverterKind::Vim,
            ConverterKind::Vim,
            ConverterKind::Zsh,
            ConverterKind::Zsh,
            ConverterKind::Tmux,
            ConverterKind::Tmux,
        ];
        let ghost want = Seq::new(8, |j: int| (names[j], kinds[j]));
        let ghost m0 = c.model();
        proof {
            crate::named::lemma_insert_fresh(m0, names[0], kinds[0]);
        }
        c.insert(text::string_from("git"), ConverterKind::Git);
        assert(c.model() =~= want.take(1));
        proof {
            crate::named::lemma_insert_fresh(c.model(), names[1], kinds[1]);
        }
        c.insert(text::string_from("gitconfig"), ConverterKind::Git);
        assert(c.model() =~= want.take(2));
        proof {
            crate::named::lemma_insert_fresh(c.model(), names[2], kinds[2]);
        }
        c.insert(text::string_from("vim"), ConverterKind::Vim);
        assert(c.model() =~= want.take(3));
        proof {
            crate::named::lemma_insert_fresh(c.model(), names[3], kinds[3]);
        }
        c.insert(text::string_from("vimrc"), ConverterKind::Vim);
        assert(c.model() =~= want.take(4));
        proof {
            crate::named::lemma_insert_fresh(c.model(), names[4], kinds[4]);
        }
        c.insert(text::string_from("zsh"), ConverterKind::Zsh);
        assert(c.model() =~= want.take(5));
        proof {
            crate::named::lemma_insert_fresh(c.model(), names[5], kinds[5]);
        }
        c.insert(text::string_from("zshrc"), ConverterKind::Zsh);
        assert(c.model() =~= want.take(6));
        proof {
            crate::named::lemma_insert_fresh(c.model(), names[6], kinds[6]);
        }
        c.insert(text::string_from("tmux"), ConverterKind::Tmux);
        assert(c.model() =~= want.take(7));
        proof {
            crate::named::lemma_insert_fresh(c.model(), names[7], kinds[7]);
        }
        c.insert(text::string_from("tmux.conf"), ConverterKind::Tmux);
        assert(c.model() =~= want);
        assert(crate::named::names_unique(c.model()));
        let r = ProgramConverter { converters: c };
        assert(want =~= seq![
            ("git"@, ConverterKind::Git),
            ("gitconfig"@, ConverterKind::Git),
            ("vim"@, ConverterKind::Vim),
            ("vimrc"@, ConverterKind::Vim),
            ("zsh"@, ConverterKind::Zsh),
            ("zshrc"@, ConverterKind::Zsh),
            ("tmux"@, ConverterKind::Tmux),
            ("tmux.conf"@, ConverterKind::Tmux),
        ]);
        r
    }

    /// The converter registered for a program.
    pub fn converter_for(&self, program: &str) -> (r: Option<ConverterKind>)
        ensures
            r == lookup(self.registry(), program@),
    {
        match self.converters.get(program) {
            Some(k) => Some(*k),
            None => None,
        }
    }

    /// Converts the text of a program's dotfile with the program's converter.
    pub fn convert(&self, program: &str, content: &str) -> (r: Result<ProgramConfig, NixDomainError>)
        ensures
            match lookup(self.registry(), program@) {
                Some(k) => r matches Ok(c) && c@ == converted_by(k, content@),
                None => r matches Err(NixDomainError::ParseError(m)) && m@
                    == "No converter for program: "@ + program@,
            },
    {
        match self.converter_for(program) {
            Some(k) => Ok(k.convert_content(content)),
            None => {
                let mut v: Vec<char> = Vec::new();
                text::append_str(&mut v, "No converter for program: ");
                text::append_str(&mut v, program);
                Err(NixDomainError::ParseError(text::string_of(v.as_slice())))
            },
        }
    }

    /// The first registered converter that handles a file name.
    pub fn auto_kind(&self, file_name: &str) -> (r: Option<ConverterKind>)
        ensures
            r == first_handler(self.registry(), file_name@),
    {
        let ghost m = self.registry();
        let mut i: usize = 0;
        assert(m.skip(0) =~= m);
        while i < self.converters.len()
            invariant
                i <= m.len(),
                m == self.registry(),
                m.len() == self.converters.model().len(),
                first_handler(m.skip(i as int), file_name@) == first_handler(m, file_name@),
            decreases m.len() - i,
        {
            let k = *self.converters.value_at(i);
            proof {
                assert(m.skip(i as int)[0] == m[i as int]);
                assert(m.skip(i as int).drop_first() =~= m.skip(i + 1));
            }
            if k.can_handle(file_name) {
                return Some(k);
            }
            i = i + 1;
        }
        None
    }

    /// Converts a dotfile with the first converter that handles its name,
    /// giving the program's name and its configuration.
    pub fn auto_convert(&self, file_name: &str, shown_path: &str, content: &str) -> (r: Result<
        (String, ProgramConfig),
        NixDomainError,
    >)
        ensures
            match first_handler(self.registry(), file_name@) {
                Some(k) => r matches Ok((p, c)) && p@ == program_of(k) && c@ == converted_by(
                    k,
                    content@,
                ),
                None => r matches Err(NixDomainError::ParseError(m)) && m@
                    == "No converter found for file: "@ + shown_path@,
            },
    {
        match self.auto_kind(file_name) {
            Some(k) => Ok((text::string_from(k.program_name()), k.convert_content(content))),
            None => {
                let mut v: Vec<char> = Vec::new();
                text::append_str(&mut v, "No converter found for file: ");
                text::append_str(&mut v, shown_path);
                Err(NixDomainError::ParseError(text::string_of(v.as_slice())))
            },
        }
    }

    /// Registers a converter under a name, replacing any converter of that name.
    pub fn register_converter(&mut self, name: String, converter: ConverterKind)
        ensures
            final(self).registry() == insert(old(self).registry(), name@, converter),
    {
        proof {
            use_type_invariant(&*self);
            crate::named::lemma_insert_keeps_unique(self.converters.model(), name@, converter);
        }
        let mut c: NameMap<ConverterKind> = NameMap::new();
        std::mem::swap(&mut c, &mut self.converters);
        c.insert(name, converter);
        self.converters = c;
    }

    /// The names converters are registered under, in registration order;
    /// no name twice, and a name is among them exactly where a converter is
    /// registered for it.
    pub fn supported_programs(&self) -> (r: Vec<String>)
        ensures
            r@.map_values(|s: String| s@) == self.registry().map_values(
                |e: (Seq<char>, ConverterKind)| e.0,
            ),
            forall|i: int, j: int| 0 <= i < j < r@.len() ==> r@[i]@ != r@[j]@,
            forall|p: Seq<char>|
                (exists|i: int| 0 <= i < r@.len() && r@[i]@ == p) <==> (lookup(
                    self.registry(),
                    p,
                ) is Some),
    {
        proof {
            use_type_invariant(self);
        }
        let mut r: Vec<String> = Vec::new();
        let mut i: usize = 0;
        while i < self.converters.len()
            invariant
                i <= self.registry().len(),
                self.registry().len() == self.converters.model().len(),
                r@.len() == i,
                forall|j: int| 0 <= j < i ==> #[trigger] r@[j]@ == self.registry()[j].0,
            decreases self.registry().len() - i,
        {
            r.push(self.converters.name_at(i).clone());
            i = i + 1;
        }
        assert(r@.map_values(|s: String| s@) =~= self.registry().map_values(
            |e: (Seq<char>, ConverterKind)| e.0,
        ));
        proof {
            let m = self.registry();
            assert forall|i: int, j: int| 0 <= i < j < r@.len() implies r@[i]@ != r@[j]@ by {
                assert(r@[i]@ == m[i].0 && r@[j]@ == m[j].0);
            }
            assert forall|p: Seq<char>|
                (exists|i: int| 0 <= i < r@.len() && r@[i]@ == p) <==> (lookup(m, p) is Some) by {
                crate::named::lemma_key_index(m, p);
                if exists|i: int| 0 <= i < r@.len() && r@[i]@ == p {
                    let i = choose|i: int| 0 <= i < r@.len() && r@[i]@ == p;
                    assert(m[i].0 == p);
                }
                if lookup(m, p) is Some {
                    let k = crate::named::key_index(m, p)->Some_0 as int;
                    assert(r@[k]@ == m[k].0);
                }
            }
        }
        r
    }

    /// Whether a converter is registered for a program.
    pub fn is_supported(&self, program: &str) -> (b: bool)
        ensures
            b == lookup(self.registry(), program@) is Some,
    {
        self.converters.contains_key(program)
    }
}

impl Default for ProgramConverter {
    fn default() -> (r: Self) {
        ProgramConverter::new()
    }
}

/// The configuration of one service.
#[derive(Debug)]
pub struct ServiceConfig {
    /// Whether the service is enabled.
    pub enabled: bool,
    /// Its settings.
    pub settings: NixAttrset,
}

/// A file placed from a source to a target in the home directory.
#[derive(Debug, Clone, PartialEq)]
pub struct FileMapping {
    /// Source path.
    pub source: String,
    /// Target path.
    pub target: String,
}

/// A Home Manager configuration.
#[derive(Debug)]
pub struct HomeConfiguration {
    /// Programs by name.
    pub programs: NameMap<ProgramConfig>,
    /// Services by name.
    pub services: NameMap<ServiceConfig>,
    /// Files placed in the home directory.
    pub file_mappings: Vec<FileMapping>,
    /// Packages installed in the home environment.
    pub home_packages: Vec<String>,
    /// The Home Manager state version.
    pub home_state_version: String,
}

impl HomeConfiguration {
    /// An empty configuration for state version 24.05.
    pub fn new() -> (r: Self)
        ensures
            r.programs.model().len() == 0,
            r.services.model().len() == 0,
            r.file_mappings@.len() == 0,
            r.home_packages@.len() == 0,
            r.home_state_version@ == "24.05"@,
    {
        HomeConfiguration {
            programs: NameMap::new(),
            services: NameMap::new(),
            file_mappings: Vec::new(),
            home_packages: Vec::new(),
            home_state_version: text::string_from("24.05"),
        }
    }

    /// Sets the configuration of a program.
    pub fn add_program(&mut self, name: String, config: ProgramConfig)
        ensures
            final(self).programs.model() == insert(old(self).programs.model(), name@, config),
            final(self).services == old(self).services,
            final(self).file_mappings == old(self).file_mappings,
            final(self).home_packages == old(self).home_packages,
            final(self).home_state_version == old(self).home_state_version,
    {
        self.programs.insert(name, config);
    }

    /// Sets the configuration of a service.
    pub fn add_service(&mut self, name: String, config: ServiceConfig)
        ensures
            final(self).services.model() == insert(old(self).services.model(), name@, config),
            final(self).programs == old(self).programs,
            final(self).file_mappings == old(self).file_mappings,
            final(self).home_packages == old(self).home_packages,
            final(self).home_state_version == old(self).home_state_version,
    {
        self.services.insert(name, config);
    }

    /// Places a file.
    pub fn add_file_mapping(&mut self, source: String, target: String)
        ensures
            final(self).file_mappings@ == old(self).file_mappings@.push(FileMapping { source, target }),
            final(self).programs == old(self).programs,
            final(self).services == old(self).services,
            final(self).home_packages == old(self).home_packages,
            final(self).home_state_version == old(self).home_state_version,
    {
        self.file_mappings.push(FileMapping { source, target });
    }
}

/// Complexity of a configuration, from 0 to 100.
#[derive(Debug, Clone, Copy, PartialEq, Eq, Structural)]
pub struct ComplexityScore(pub u32);

/// Security of a configuration, from 0 to 100.
#[derive(Debug, Clone, Copy, PartialEq, Eq, Structural)]
pub struct SecurityScore(pub u32);

/// What the analysis found about one program.
#[derive(Debug, Clone)]
pub struct ProgramAnalysis {
    /// Program name.
    pub name: String,
    /// Whether it is enabled.
    pub enabled: bool,
    /// Programs it needs.
    pub dependencies: Vec<String>,
    /// How complex its configuration is.
    pub configuration_complexity: ComplexityScore,
    /// How secure its configuration is.
    pub security_score: SecurityScore,
}

/// A dotfile found in the home directory.
#[derive(Debug, Clone)]
pub struct DotfileInfo {
    /// Its path.
    pub path: String,
    /// The program it configures, if known.
    pub program: Option<String>,
    /// Its size in bytes.
    pub size: u64,
    /// Time of its last change, in seconds since the epoch.
    pub last_modified: Option<u64>,
}

/// Kinds of conflict between configurations.
#[derive(Debug, Clone, Copy, PartialEq, Eq, Structural)]
pub enum ConflictType {
    /// Two programs manage the same thing.
    DuplicateProgram,
    /// Settings contradict each other.
    ConflictingSettings,
    /// A needed program is missing.
    MissingDependency,
    /// Versions do not match.
    VersionMismatch,
}

/// A conflict between configurations.
#[derive(Debug, Clone)]
pub struct ConflictInfo {
    /// Its kind.
    pub conflict_type: ConflictType,
    /// What it is.
    pub description: String,
    /// What it concerns.
    pub affected_items: Vec<String>,
}

/// Kinds of suggestion.
#[derive(Debug, Clone, Copy, PartialEq, Eq, Structural)]
pub enum SuggestionType {
    /// Enable a useful program.
    EnableProgram,
    /// Disable a program that is not used.
    DisableUnusedProgram,
    /// Update a configuration.
    UpdateConfiguration,
    /// Improve security.
    SecurityImprovement,
    /// Improve performance.
    PerformanceOptimization,
}

/// How urgent a suggestion is.
#[derive(Debug, Clone, Copy, PartialEq, Eq, Structural)]
pub enum Priority {
    /// Nice to have.
    Low,
    /// Worth considering.
    Medium,
    /// Important.
    High,
    /// Critical.
    Critical,
}

/// A suggested improvement.
#[derive(Debug, Clone)]
pub struct Suggestion {
    /// Its kind.
    pub suggestion_type: SuggestionType,
    /// What it suggests.
    pub description: String,
    /// How urgent it is.
    pub priority: Priority,
}

} // verus!
