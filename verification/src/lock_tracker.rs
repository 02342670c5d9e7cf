//! Tracking the history of `flake.lock`: how often each input is updated,
//! which inputs have gone stale, and which commits update several inputs at
//! once.

use vstd::prelude::*;
use crate::domain_error::NixDomainError;
use crate::git::{AuthorInfo, GitFlakeInput, InputView, LockedFields, input_views, opt_chars, padded_rev, same_opt};
use crate::named::{NameMap, first_where, insert, key_index, lemma_first_where, lookup, map_values_of};
use crate::text;

verus! {

broadcast use vstd::string::group_string_axioms;

/// The Unicode lowercase of a text, as `str::to_lowercase` maps it.
pub uninterp spec fn lowercased(s: Seq<char>) -> Seq<char>;

/// std's `str::to_lowercase`: the Unicode lowercase mapping of the text,
/// which depends on the text alone.
#[verifier::external_body]
fn to_lowercase(s: &str) -> (r: String)
    ensures
        r@ == lowercased(s@),
{
    s.to_lowercase()
}

/// A commit that changed `flake.lock`, with the lock's nodes at that commit.
#[derive(Debug, Clone, PartialEq)]
pub struct FlakeLockCommit {
    /// The commit hash.
    pub commit: String,
    /// The commit time, in seconds since the epoch.
    pub timestamp: i64,
    /// The commit message.
    pub message: String,
    /// The author.
    pub author: AuthorInfo,
    /// The nodes of the lock: each name with its `locked` entry, if any.
    pub lock_content: Vec<(String, Option<LockedFields>)>,
}

/// A handler registered for a kind of input.
#[derive(Debug, Clone, PartialEq)]
pub struct InputHandler {
    /// Its name.
    pub name: String,
    /// Its priority.
    pub priority: u8,
}

/// How the tracker reads the history.
#[derive(Debug, Clone)]
pub struct TrackerConfig {
    /// Whether failures to read an input are kept.
    pub track_parse_errors: bool,
    /// Whether input names are trimmed and lowercased.
    pub normalize_input_names: bool,
    /// Handlers by input type.
    pub custom_handlers: NameMap<InputHandler>,
    /// A gap, in seconds, between updates; kept as configuration and read by
    /// no analysis: each commit that changes several inputs is a batch update
    /// whatever its gap.
    pub batch_threshold: i64,
}

impl Default for TrackerConfig {
    fn default() -> (r: Self)
        ensures
            !r.track_parse_errors,
            r.normalize_input_names,
            r.custom_handlers.model().len() == 0,
            r.batch_threshold == 3600,
    {
        TrackerConfig {
            track_parse_errors: false,
            normalize_input_names: true,
            custom_handlers: NameMap::new(),
            batch_threshold: 3600,
        }
    }
}

/// A failure to read an input.
#[derive(Debug, Clone, PartialEq)]
pub struct ParseError {
    /// The commit.
    pub commit: String,
    /// The input.
    pub input_name: String,
    /// What went wrong.
    pub error: String,
}

/// Counts of the tracker's work.
#[derive(Debug, Clone, Copy, PartialEq, Eq, Structural)]
pub struct TrackerStats {
    /// Inputs read.
    pub inputs_parsed: usize,
    /// Failures.
    pub errors_encountered: usize,
    /// Names normalized.
    pub normalizations_applied: usize,
    /// Inputs of a type that has a handler.
    pub custom_handlers_used: usize,
}

/// `n + k`, stopping at the largest value.
pub open spec fn sat_add(n: usize, k: nat) -> usize {
    if n + k <= usize::MAX {
        (n + k) as usize
    } else {
        usize::MAX
    }
}

fn sat_inc(n: usize) -> (r: usize)
    ensures
        r == sat_add(n, 1),
{
    if n < usize::MAX {
        n + 1
    } else {
        n
    }
}

/// The name under which a node is recorded: trimmed and lowercased when
/// names are normalized.
pub open spec fn recorded_name(name: Seq<char>, normalize: bool) -> Seq<char> {
    if normalize {
        lowercased(text::trimmed(name))
    } else {
        name
    }
}

/// The type of a locked entry, or `unknown`.
pub open spec fn input_kind(l: LockedFields) -> Seq<char> {
    match l.input_type {
        Some(t) => t@,
        None => "unknown"@,
    }
}

/// The input a locked entry describes: the type, `:` and the name; the
/// branch; the revision padded to forty characters; the time of its last
/// change.
pub open spec fn tracked_input(name: Seq<char>, l: LockedFields) -> InputView {
    InputView {
        name: name,
        url: input_kind(l) + ":"@ + name,
        git_ref: opt_chars(l.git_ref),
        resolved_hash: match l.rev {
            Some(r) => Some(padded_rev(r@)),
            None => None,
        },
        store_path: None,
        follows: None,
        last_modified: l.last_modified,
    }
}

/// The nodes of a lock as names and entries.
pub open spec fn node_views(nodes: Seq<(String, Option<LockedFields>)>) -> Seq<(Seq<char>, Option<LockedFields>)> {
    nodes.map_values(|n: (String, Option<LockedFields>)| (n.0@, n.1))
}

/// The inputs of a lock, by recorded name: every node but `root` that has a
/// `locked` entry, in order, a later node replacing an earlier one of the
/// same recorded name.
pub open spec fn lock_inputs(nodes: Seq<(Seq<char>, Option<LockedFields>)>, normalize: bool) -> Seq<
    (Seq<char>, InputView),
>
    decreases nodes.len(),
{
    if nodes.len() == 0 {
        Seq::empty()
    } else {
        let rest = lock_inputs(nodes.drop_last(), normalize);
        let (name, locked) = nodes.last();
        if name == "root"@ {
            rest
        } else {
            match locked {
                Some(l) => insert(
                    rest,
                    recorded_name(name, normalize),
                    tracked_input(recorded_name(name, normalize), l),
                ),
                None => rest,
            }
        }
    }
}

/// What reading a lock adds to the counts: inputs read, names normalized,
/// and inputs whose type has a handler.
pub open spec fn lock_counts(
    nodes: Seq<(Seq<char>, Option<LockedFields>)>,
    normalize: bool,
    handlers: Seq<(Seq<char>, InputHandler)>,
) -> (nat, nat, nat)
    decreases nodes.len(),
{
    if nodes.len() == 0 {
        (0, 0, 0)
    } else {
        let c = lock_counts(nodes.drop_last(), normalize, handlers);
        let (name, locked) = nodes.last();
        if name == "root"@ {
            c
        } else {
            let normalized: nat = if normalize {
                1
            } else {
                0
            };
            match locked {
                Some(l) => (
                    c.0 + 1,
                    c.1 + normalized,
                    c.2 + if lookup(handlers, input_kind(l)) is Some {
                        1nat
                    } else {
                        0nat
                    },
                ),
                None => (c.0, c.1 + normalized, c.2),
            }
        }
    }
}

/// The counts after reading a lock.
pub open spec fn counted(s: TrackerStats, c: (nat, nat, nat)) -> TrackerStats {
    TrackerStats {
        inputs_parsed: sat_add(s.inputs_parsed, c.0),
        errors_encountered: s.errors_encountered,
        normalizations_applied: sat_add(s.normalizations_applied, c.1),
        custom_handlers_used: sat_add(s.custom_handlers_used, c.2),
    }
}

/// A copy of an optional string.
fn copy_opt(o: &Option<String>) -> (r: Option<String>)
    ensures
        opt_chars(r) == opt_chars(*o),
{
    match o {
        Some(s) => Some(s.clone()),
        None => None,
    }
}

/// A revision padded on the right with `0` to forty characters.
fn pad_rev(r: &String) -> (p: String)
    ensures
        p@ == padded_rev(r@),
{
    let mut v = text::chars_of(r.as_str());
    if v.len() < 40 {
        let ghost orig = v@;
        let n = 40 - v.len();
        let mut k: usize = 0;
        while k < n
            invariant
                k <= n,
                orig.len() + n == 40,
                v@ == orig + Seq::new(k as nat, |i: int| '0'),
            decreases n - k,
        {
            v.push('0');
            k = k + 1;
            assert(v@ =~= orig + Seq::new(k as nat, |i: int| '0'));
        }
    }
    text::string_of(v.as_slice())
}

/// The input a locked entry describes.
fn read_input(name: &String, locked: &LockedFields) -> (r: GitFlakeInput)
    ensures
        r@ == tracked_input(name@, *locked),
{
    let mut url = match &locked.input_type {
        Some(t) => text::chars_of(t.as_str()),
        None => text::chars_of("unknown"),
    };
    text::append_str(&mut url, ":");
    let nv = text::chars_of(name.as_str());
    text::append_chars(&mut url, nv.as_slice());
    GitFlakeInput {
        name: name.clone(),
        url: text::string_of(url.as_slice()),
        git_ref: copy_opt(&locked.git_ref),
        resolved_hash: match &locked.rev {
            Some(r) => Some(pad_rev(r)),
            None => None,
        },
        store_path: None,
        follows: None,
        last_modified: locked.last_modified,
    }
}

/// The name under which a node is recorded.
fn record_name(name: &String, normalize: bool) -> (r: String)
    ensures
        r@ == recorded_name(name@, normalize),
{
    if normalize {
        let v = text::chars_of(name.as_str());
        let t = text::string_of(text::trim(v.as_slice()).as_slice());
        to_lowercase(t.as_str())
    } else {
        name.clone()
    }
}

/// Whether a name is exactly a literal.
fn same_text(s: &String, lit: &str) -> (b: bool)
    ensures
        b == (s@ == lit@),
{
    let v = text::chars_of(s.as_str());
    text::eq_str(v.as_slice(), lit)
}

/// An update of an input.
#[derive(Debug, Clone, PartialEq)]
pub struct UpdateEvent {
    /// When, in seconds since the epoch.
    pub timestamp: i64,
    /// The commit.
    pub commit: String,
    /// The revision before.
    pub from_hash: Option<String>,
    /// The revision after.
    pub to_hash: Option<String>,
}

/// The content of an update.
pub struct EventView {
    pub timestamp: i64,
    pub commit: Seq<char>,
    pub from_hash: Option<Seq<char>>,
    pub to_hash: Option<Seq<char>>,
}

impl View for UpdateEvent {
    type V = EventView;

    open spec fn view(&self) -> EventView {
        EventView {
            timestamp: self.timestamp,
            commit: self.commit@,
            from_hash: opt_chars(self.from_hash),
            to_hash: opt_chars(self.to_hash),
        }
    }
}

/// How an input has been updated.
#[derive(Debug, Clone, PartialEq)]
pub struct InputUpdateStats {
    /// The input.
    pub name: String,
    /// How many times its revision changed.
    pub update_count: usize,
    /// The mean time between its recorded events, in seconds.
    pub avg_update_interval: Option<i64>,
    /// When it last changed, in seconds since the epoch.
    pub last_updated: Option<i64>,
    /// Its recorded events, oldest first.
    pub updates: Vec<UpdateEvent>,
}

/// The content of an input's update record.
pub struct StatsView {
    pub name: Seq<char>,
    pub update_count: usize,
    pub avg_update_interval: Option<i64>,
    pub last_updated: Option<i64>,
    pub updates: Seq<EventView>,
}

impl View for InputUpdateStats {
    type V = StatsView;

    open spec fn view(&self) -> StatsView {
        StatsView {
            name: self.name@,
            update_count: self.update_count,
            avg_update_interval: self.avg_update_interval,
            last_updated: self.last_updated,
            updates: self.updates@.map_values(|e: UpdateEvent| e@),
        }
    }
}

// ---------------------------------------------------------------------------
// The history, in time order
// ---------------------------------------------------------------------------

/// Where a commit of time `t` goes in a list kept in time order: after every
/// commit at or before `t`.
pub open spec fn slot(s: Seq<FlakeLockCommit>, t: i64) -> int {
    match first_where(s, |c: FlakeLockCommit| c.timestamp > t) {
        Some(k) => k,
        None => s.len() as int,
    }
}

/// The commits in time order; commits of the same time keep their order.
pub open spec fn by_time(s: Seq<FlakeLockCommit>) -> Seq<FlakeLockCommit>
    decreases s.len(),
{
    if s.len() == 0 {
        Seq::empty()
    } else {
        let r = by_time(s.drop_last());
        r.insert(slot(r, s.last().timestamp), s.last())
    }
}

/// A time-ordered list of commits.
pub open spec fn time_ordered(s: Seq<FlakeLockCommit>) -> bool {
    forall|i: int, j: int| 0 <= i < j < s.len() ==> s[i].timestamp <= s[j].timestamp
}

/// An event of an input.
pub open spec fn event(ts: i64, commit: Seq<char>, from: Option<Seq<char>>, to: Option<Seq<char>>) -> EventView {
    EventView { timestamp: ts, commit: commit, from_hash: from, to_hash: to }
}

/// The record of an input not seen before.
pub open spec fn fresh_record(name: Seq<char>) -> StatsView {
    StatsView {
        name: name,
        update_count: 0,
        avg_update_interval: None,
        last_updated: None,
        updates: Seq::empty(),
    }
}

/// Records an input of a commit against the inputs of the commit before: an
/// input that was not there gets an event, one whose revision changed gets
/// an event and counts as updated, one that did not change only gets a
/// record if it had none.
pub open spec fn record_input(
    stats: Seq<(Seq<char>, StatsView)>,
    prev: Seq<(Seq<char>, InputView)>,
    ts: i64,
    commit: Seq<char>,
    name: Seq<char>,
    input: InputView,
) -> Seq<(Seq<char>, StatsView)> {
    let st = match lookup(stats, name) {
        Some(v) => v,
        None => fresh_record(name),
    };
    match lookup(prev, name) {
        None => insert(
            stats,
            name,
            StatsView {
                last_updated: Some(ts),
                updates: st.updates.push(event(ts, commit, None, input.resolved_hash)),
                ..st
            },
        ),
        Some(p) => if p.resolved_hash == input.resolved_hash {
            insert(stats, name, st)
        } else {
            insert(
                stats,
                name,
                StatsView {
                    update_count: sat_add(st.update_count, 1),
                    last_updated: Some(ts),
                    updates: st.updates.push(event(ts, commit, p.resolved_hash, input.resolved_hash)),
                    ..st
                },
            )
        },
    }
}

/// Records the inputs of a commit, in order.
pub open spec fn record_inputs(
    stats: Seq<(Seq<char>, StatsView)>,
    prev: Seq<(Seq<char>, InputView)>,
    ts: i64,
    commit: Seq<char>,
    inputs: Seq<(Seq<char>, InputView)>,
) -> Seq<(Seq<char>, StatsView)>
    decreases inputs.len(),
{
    if inputs.len() == 0 {
        stats
    } else {
        record_input(
            record_inputs(stats, prev, ts, commit, inputs.drop_last()),
            prev,
            ts,
            commit,
            inputs.last().0,
            inputs.last().1,
        )
    }
}

/// Records the inputs of the first commit: one event each.
pub open spec fn first_records(
    stats: Seq<(Seq<char>, StatsView)>,
    ts: i64,
    commit: Seq<char>,
    inputs: Seq<(Seq<char>, InputView)>,
) -> Seq<(Seq<char>, StatsView)>
    decreases inputs.len(),
{
    if inputs.len() == 0 {
        stats
    } else {
        insert(
            first_records(stats, ts, commit, inputs.drop_last()),
            inputs.last().0,
            StatsView {
                name: inputs.last().0,
                update_count: 0,
                avg_update_interval: None,
                last_updated: Some(ts),
                updates: seq![event(ts, commit, None, inputs.last().1.resolved_hash)],
            },
        )
    }
}

/// The inputs of a commit.
pub open spec fn commit_inputs(c: FlakeLockCommit, normalize: bool) -> Seq<(Seq<char>, InputView)> {
    lock_inputs(node_views(c.lock_content@), normalize)
}

/// The records of the inputs over a time-ordered history.
pub open spec fn history_stats(commits: Seq<FlakeLockCommit>, normalize: bool) -> Seq<(Seq<char>, StatsView)>
    decreases commits.len(),
{
    if commits.len() == 0 {
        Seq::empty()
    } else if commits.len() == 1 {
        first_records(
            Seq::empty(),
            commits[0].timestamp,
            commits[0].commit@,
            commit_inputs(commits[0], normalize),
        )
    } else {
        record_inputs(
            history_stats(commits.drop_last(), normalize),
            commit_inputs(commits[commits.len() - 2], normalize),
            commits.last().timestamp,
            commits.last().commit@,
            commit_inputs(commits.last(), normalize),
        )
    }
}

/// What reading every lock of a history adds to the counts.
pub open spec fn history_counts(
    commits: Seq<FlakeLockCommit>,
    normalize: bool,
    handlers: Seq<(Seq<char>, InputHandler)>,
) -> (nat, nat, nat)
    decreases commits.len(),
{
    if commits.len() == 0 {
        (0, 0, 0)
    } else {
        let a = history_counts(commits.drop_last(), normalize, handlers);
        let b = lock_counts(node_views(commits.last().lock_content@), normalize, handlers);
        (a.0 + b.0, a.1 + b.1, a.2 + b.2)
    }
}

/// `a / b` rounded toward zero, for `b > 0`.
pub open spec fn div_toward_zero(a: int, b: int) -> int {
    if a >= 0 {
        a / b
    } else {
        -((-a) / b)
    }
}

/// A number of seconds, held to the range of `i64`.
pub open spec fn clamp_i64(x: int) -> i64 {
    if x > i64::MAX {
        i64::MAX
    } else if x < i64::MIN {
        i64::MIN
    } else {
        x as i64
    }
}

/// A record with its mean interval: the time from its first to its last
/// event over the number of gaps between them, rounded toward zero, when it
/// has more than one event.
pub open spec fn with_interval(v: StatsView) -> StatsView {
    if v.updates.len() > 1 {
        StatsView {
            avg_update_interval: Some(
                clamp_i64(
                    div_toward_zero(
                        v.updates.last().timestamp - v.updates[0].timestamp,
                        v.updates.len() - 1,
                    ),
                ),
            ),
            ..v
        }
    } else {
        v
    }
}

/// The records a tracker keeps for a time-ordered history.
pub open spec fn tracked_stats(commits: Seq<FlakeLockCommit>, normalize: bool) -> Seq<(Seq<char>, StatsView)> {
    map_values_of(history_stats(commits, normalize), |v: StatsView| with_interval(v))
}

// ---------------------------------------------------------------------------
// When each input last changed
// ---------------------------------------------------------------------------

/// `n` names an input of a lock.
pub open spec fn has_input(inputs: Seq<(Seq<char>, InputView)>, n: Seq<char>) -> bool {
    exists|k: int| 0 <= k < inputs.len() && (#[trigger] inputs[k]).0 == n
}

/// Against the inputs of the lock before, an input named `n` of a lock is
/// new (the lock before had none of that name) or points at another
/// revision.
pub open spec fn changes(prev: Seq<(Seq<char>, InputView)>, inputs: Seq<(Seq<char>, InputView)>, n: Seq<char>) -> bool {
    exists|k: int|
        0 <= k < inputs.len() && (#[trigger] inputs[k]).0 == n && (lookup(prev, n) is None || lookup(
            prev,
            n,
        )->0.resolved_hash != inputs[k].1.resolved_hash)
}

/// Commit `i` of a history brings input `n` in or moves it to another
/// revision: the first commit brings in each of its inputs, a later one
/// each input that is new or changed against the commit before it.
pub open spec fn changed_at(history: Seq<FlakeLockCommit>, i: int, n: Seq<char>, normalize: bool) -> bool {
    &&& 0 <= i < history.len()
    &&& if i == 0 {
        has_input(commit_inputs(history[0], normalize), n)
    } else {
        changes(commit_inputs(history[i - 1], normalize), commit_inputs(history[i], normalize), n)
    }
}

/// A commit after `i` brings in or moves input `n` again.
pub open spec fn changed_later(history: Seq<FlakeLockCommit>, i: int, n: Seq<char>, normalize: bool) -> bool {
    exists|j: int| i < j && #[trigger] changed_at(history, j, n, normalize)
}

/// Recording the inputs of the first commit gives each of them a record
/// updated at its time, and leaves other names alone.
proof fn lemma_first_records_reads(
    stats: Seq<(Seq<char>, StatsView)>,
    ts: i64,
    commit: Seq<char>,
    inputs: Seq<(Seq<char>, InputView)>,
    n: Seq<char>,
)
    ensures
        lookup(first_records(stats, ts, commit, inputs), n) is Some <==> (lookup(stats, n) is Some
            || has_input(inputs, n)),
        has_input(inputs, n) ==> lookup(first_records(stats, ts, commit, inputs), n)->0.last_updated
            == Some(ts),
        has_input(inputs, n) ==> lookup(first_records(stats, ts, commit, inputs), n)->0.update_count
            == 0,
        lookup(inputs, n) matches Some(c) ==> (crate::named::names_unique(inputs) ==> lookup(
            first_records(stats, ts, commit, inputs),
            n,
        )->0.updates == seq![event(ts, commit, None, c.resolved_hash)]),
        !has_input(inputs, n) ==> lookup(first_records(stats, ts, commit, inputs), n) == lookup(
            stats,
            n,
        ),
    decreases inputs.len(),
{
    if inputs.len() > 0 {
        let d = inputs.drop_last();
        lemma_first_records_reads(stats, ts, commit, d, n);
        let last = inputs.last();
        crate::named::lemma_lookup_insert(
            first_records(stats, ts, commit, d),
            last.0,
            StatsView {
                name: last.0,
                update_count: 0,
                avg_update_interval: None,
                last_updated: Some(ts),
                updates: seq![event(ts, commit, None, last.1.resolved_hash)],
            },
            n,
        );
        if has_input(d, n) {
            let k = choose|k: int| 0 <= k < d.len() && (#[trigger] d[k]).0 == n;
            assert(inputs[k] == d[k]);
        }
        if has_input(inputs, n) && last.0 != n {
            let k = choose|k: int| 0 <= k < inputs.len() && (#[trigger] inputs[k]).0 == n;
            assert(d[k] == inputs[k]);
        }
        if last.0 == n {
            assert(inputs[inputs.len() - 1].0 == n);
        }
        if crate::named::names_unique(inputs) {
            assert(d.push(last) =~= inputs);
            lemma_lookup_push(d, last, n);
            assert(crate::named::names_unique(d)) by {
                assert forall|i: int, j: int| 0 <= i < j < d.len() implies d[i].0 != d[j].0 by {
                    assert(d[i] == inputs[i] && d[j] == inputs[j]);
                }
            }
            if last.0 == n {
                lemma_has_input_lookup(d, n);
                if has_input(d, n) {
                    let k = choose|k: int| 0 <= k < d.len() && (#[trigger] d[k]).0 == n;
                    assert(inputs[k] == d[k]);
                    assert(inputs[k].0 != inputs[inputs.len() - 1].0);
                }
            }
        }
    }
}

/// Recording the inputs of a later commit against those of the commit
/// before: a name gets a record when it had one or is an input; an input
/// that is new or moved is updated at the commit's time; a record whose
/// input did not move keeps its time of update.
proof fn lemma_record_inputs_reads(
    stats: Seq<(Seq<char>, StatsView)>,
    prev: Seq<(Seq<char>, InputView)>,
    ts: i64,
    commit: Seq<char>,
    inputs: Seq<(Seq<char>, InputView)>,
    n: Seq<char>,
)
    ensures
        lookup(record_inputs(stats, prev, ts, commit, inputs), n) is Some <==> (lookup(stats, n) is Some
            || has_input(inputs, n)),
        changes(prev, inputs, n) ==> lookup(record_inputs(stats, prev, ts, commit, inputs), n)->0.last_updated
            == Some(ts),
        !changes(prev, inputs, n) && lookup(stats, n) is Some ==> lookup(
            record_inputs(stats, prev, ts, commit, inputs),
            n,
        )->0.last_updated == lookup(stats, n)->0.last_updated,
        !changes(prev, inputs, n) && has_input(inputs, n) ==> lookup(prev, n) is Some,
    decreases inputs.len(),
{
    if inputs.len() > 0 {
        let d = inputs.drop_last();
        lemma_record_inputs_reads(stats, prev, ts, commit, d, n);
        let r0 = record_inputs(stats, prev, ts, commit, d);
        let last = inputs.last();
        let name = last.0;
        let input = last.1;
        let st = match lookup(r0, name) {
            Some(v) => v,
            None => fresh_record(name),
        };
        let val = match lookup(prev, name) {
            None => StatsView {
                last_updated: Some(ts),
                updates: st.updates.push(event(ts, commit, None, input.resolved_hash)),
                ..st
            },
            Some(p) => if p.resolved_hash == input.resolved_hash {
                st
            } else {
                StatsView {
                    update_count: sat_add(st.update_count, 1),
                    last_updated: Some(ts),
                    updates: st.updates.push(event(ts, commit, p.resolved_hash, input.resolved_hash)),
                    ..st
                }
            },
        };
        assert(record_inputs(stats, prev, ts, commit, inputs) == insert(r0, name, val));
        crate::named::lemma_lookup_insert(r0, name, val, n);
        let li = inputs.len() - 1;
        assert(inputs[li] == last);
        assert forall|k: int| 0 <= k < d.len() implies #[trigger] d[k] == inputs[k] by {}
        if has_input(d, n) {
            let k = choose|k: int| 0 <= k < d.len() && (#[trigger] d[k]).0 == n;
            assert(inputs[k] == d[k]);
        }
        if changes(prev, d, n) {
            let k = choose|k: int|
                0 <= k < d.len() && (#[trigger] d[k]).0 == n && (lookup(prev, n) is None || lookup(
                    prev,
                    n,
                )->0.resolved_hash != d[k].1.resolved_hash);
            assert(inputs[k] == d[k]);
        }
        if name != n {
            if has_input(inputs, n) {
                let k = choose|k: int| 0 <= k < inputs.len() && (#[trigger] inputs[k]).0 == n;
                assert(d[k] == inputs[k]);
            }
            if changes(prev, inputs, n) {
                let k = choose|k: int|
                    0 <= k < inputs.len() && (#[trigger] inputs[k]).0 == n && (lookup(prev, n) is None
                        || lookup(prev, n)->0.resolved_hash != inputs[k].1.resolved_hash);
                assert(d[k] == inputs[k]);
            }
        } else {
            assert(has_input(inputs, n));
            let moved = lookup(prev, n) is None || lookup(prev, n)->0.resolved_hash != input.resolved_hash;
            if moved {
                assert(changes(prev, inputs, n));
            } else {
                if changes(prev, inputs, n) {
                    let k = choose|k: int|
                        0 <= k < inputs.len() && (#[trigger] inputs[k]).0 == n && (lookup(prev, n) is None
                            || lookup(prev, n)->0.resolved_hash != inputs[k].1.resolved_hash);
                    assert(k != li);
                    assert(d[k] == inputs[k]);
                    assert(changes(prev, d, n));
                }
            }
        }
    }
}

/// What the records of the first `history.len()` commits say of input `n`.
proof fn lemma_history_last_updated(history: Seq<FlakeLockCommit>, n: Seq<char>, normalize: bool)
    ensures
        lookup(history_stats(history, normalize), n) is Some <==> exists|i: int|
            0 <= i < history.len() && has_input(commit_inputs(#[trigger] history[i], normalize), n),
        lookup(history_stats(history, normalize), n) is Some ==> exists|i: int|
            #[trigger] changed_at(history, i, n, normalize) && !changed_later(history, i, n, normalize)
                && lookup(history_stats(history, normalize), n)->0.last_updated == Some(
                history[i].timestamp,
            ),
    decreases history.len(),
{
    let len = history.len() as int;
    if len == 0 {
    } else if len == 1 {
        let ins = commit_inputs(history[0], normalize);
        lemma_first_records_reads(Seq::empty(), history[0].timestamp, history[0].commit@, ins, n);
        if lookup(history_stats(history, normalize), n) is Some {
            assert(changed_at(history, 0, n, normalize));
            assert(!changed_later(history, 0, n, normalize));
        }
        if exists|i: int| 0 <= i < history.len() && has_input(commit_inputs(#[trigger] history[i], normalize), n) {
            let i = choose|i: int| 0 <= i < history.len() && has_input(commit_inputs(#[trigger] history[i], normalize), n);
            assert(i == 0);
        }
    } else {
        let h0 = history.drop_last();
        lemma_history_last_updated(h0, n, normalize);
        let prev = commit_inputs(history[len - 2], normalize);
        let cur = commit_inputs(history.last(), normalize);
        let before = history_stats(h0, normalize);
        lemma_record_inputs_reads(before, prev, history.last().timestamp, history.last().commit@, cur, n);
        assert(history_stats(history, normalize) == record_inputs(before, prev, history.last().timestamp, history.last().commit@, cur));
        assert forall|i: int| 0 <= i < len - 1 implies #[trigger] h0[i] == history[i] by {}
        assert(history[len - 1] == history.last());
        assert(h0[len - 2] == history[len - 2]);
        // Which commits have the input.
        if exists|i: int| 0 <= i < h0.len() && has_input(commit_inputs(#[trigger] h0[i], normalize), n) {
            let i = choose|i: int| 0 <= i < h0.len() && has_input(commit_inputs(#[trigger] h0[i], normalize), n);
            assert(has_input(commit_inputs(history[i], normalize), n));
        }
        if exists|i: int| 0 <= i < history.len() && has_input(commit_inputs(#[trigger] history[i], normalize), n) {
            let i = choose|i: int| 0 <= i < history.len() && has_input(commit_inputs(#[trigger] history[i], normalize), n);
            if i < len - 1 {
                assert(has_input(commit_inputs(h0[i], normalize), n));
            }
        }
        // The commits that moved the input agree with those of the shorter history.
        assert forall|j: int| 0 <= j < len - 1 implies #[trigger] changed_at(h0, j, n, normalize)
            == changed_at(history, j, n, normalize) by {
            if j > 0 {
                assert(h0[j - 1] == history[j - 1]);
            }
        }
        assert(changed_at(history, len - 1, n, normalize) == changes(prev, cur, n));
        if lookup(history_stats(history, normalize), n) is Some {
            if changes(prev, cur, n) {
                assert(changed_at(history, len - 1, n, normalize));
                assert(!changed_later(history, len - 1, n, normalize));
            } else {
                if has_input(cur, n) {
                    assert(lookup(prev, n) is Some);
                    crate::named::lemma_key_index(prev, n);
                    let k = key_index(prev, n)->0 as int;
                    assert(prev[k].0 == n);
                    assert(has_input(commit_inputs(h0[len - 2], normalize), n));
                }
                assert(lookup(before, n) is Some);
                let i = choose|i: int|
                    #[trigger] changed_at(h0, i, n, normalize) && !changed_later(h0, i, n, normalize)
                        && lookup(before, n)->0.last_updated == Some(h0[i].timestamp);
                assert(changed_at(history, i, n, normalize));
                assert(!changed_later(history, i, n, normalize)) by {
                    if changed_later(history, i, n, normalize) {
                        let j = choose|j: int| i < j && #[trigger] changed_at(history, j, n, normalize);
                        assert(j != len - 1);
                        assert(changed_at(h0, j, n, normalize));
                    }
                }
            }
        }
    }
}

/// Commit `i` of a history moves input `n` to another revision: the commit
/// before it and it both have the input, at different revisions.
pub open spec fn moved_at(history: Seq<FlakeLockCommit>, i: int, n: Seq<char>, normalize: bool) -> bool {
    &&& 0 < i < history.len()
    &&& lookup(commit_inputs(history[i - 1], normalize), n) matches Some(p)
    &&& lookup(commit_inputs(history[i], normalize), n) matches Some(c)
    &&& p.resolved_hash != c.resolved_hash
}

/// How many of the first `m` commits of a history move input `n`.
pub open spec fn times_moved(history: Seq<FlakeLockCommit>, m: int, n: Seq<char>, normalize: bool) -> nat
    decreases m,
{
    if m <= 0 {
        0
    } else {
        times_moved(history, m - 1, n, normalize) + if moved_at(history, m - 1, n, normalize) {
            1nat
        } else {
            0nat
        }
    }
}

/// A lock names each input once.
proof fn lemma_lock_inputs_unique(nodes: Seq<(Seq<char>, Option<LockedFields>)>, normalize: bool)
    ensures
        crate::named::names_unique(lock_inputs(nodes, normalize)),
    decreases nodes.len(),
{
    if nodes.len() > 0 {
        lemma_lock_inputs_unique(nodes.drop_last(), normalize);
        let rest = lock_inputs(nodes.drop_last(), normalize);
        let (name, locked) = nodes.last();
        if name != "root"@ {
            match locked {
                Some(l) => crate::named::lemma_insert_keeps_unique(
                    rest,
                    recorded_name(name, normalize),
                    tracked_input(recorded_name(name, normalize), l),
                ),
                None => {},
            }
        }
    }
}

/// Looking up in a sequence with one more entry at its end.
proof fn lemma_lookup_push<V>(d: Seq<(Seq<char>, V)>, e: (Seq<char>, V), n: Seq<char>)
    ensures
        lookup(d.push(e), n) == if lookup(d, n) is Some {
            lookup(d, n)
        } else if e.0 == n {
            Some(e.1)
        } else {
            None::<V>
        },
{
    crate::named::lemma_key_index(d, n);
    crate::named::lemma_key_index(d.push(e), n);
    match key_index(d, n) {
        Some(i) => {
            crate::named::lemma_key_index_at(d.push(e), n, i as int);
        },
        None => {
            if e.0 == n {
                crate::named::lemma_key_index_at(d.push(e), n, d.len() as int);
            } else {
                if key_index(d.push(e), n) is Some {
                    let j = key_index(d.push(e), n)->0 as int;
                    assert(d.push(e)[j].0 == n);
                    if j < d.len() {
                        assert(d[j] == d.push(e)[j]);
                    }
                }
            }
        },
    }
}

/// An input is in a lock exactly when it can be looked up there.
proof fn lemma_has_input_lookup(inputs: Seq<(Seq<char>, InputView)>, n: Seq<char>)
    ensures
        has_input(inputs, n) <==> lookup(inputs, n) is Some,
{
    crate::named::lemma_key_index(inputs, n);
    if lookup(inputs, n) is Some {
        let k = key_index(inputs, n)->0 as int;
        assert(inputs[k].0 == n);
    }
}

/// Recording the inputs of a later commit counts one more update for an
/// input that both commits have at different revisions, and leaves the
/// count of every other record alone; a name that is not an input keeps
/// its record.
proof fn lemma_record_inputs_counts(
    stats: Seq<(Seq<char>, StatsView)>,
    prev: Seq<(Seq<char>, InputView)>,
    ts: i64,
    commit: Seq<char>,
    inputs: Seq<(Seq<char>, InputView)>,
    n: Seq<char>,
)
    requires
        crate::named::names_unique(inputs),
    ensures
        !has_input(inputs, n) ==> lookup(record_inputs(stats, prev, ts, commit, inputs), n) == lookup(
            stats,
            n,
        ),
        lookup(record_inputs(stats, prev, ts, commit, inputs), n) is Some ==> lookup(
            record_inputs(stats, prev, ts, commit, inputs),
            n,
        )->0.update_count == sat_add(
            match lookup(stats, n) {
                Some(s) => s.update_count,
                None => 0usize,
            },
            if (lookup(prev, n) matches Some(p) && lookup(inputs, n) matches Some(c)
                && p.resolved_hash != c.resolved_hash) {
                1nat
            } else {
                0nat
            },
        ),
    decreases inputs.len(),
{
    if inputs.len() > 0 {
        let d = inputs.drop_last();
        assert(crate::named::names_unique(d)) by {
            assert forall|i: int, j: int| 0 <= i < j < d.len() implies d[i].0 != d[j].0 by {
                assert(d[i] == inputs[i] && d[j] == inputs[j]);
            }
        }
        lemma_record_inputs_counts(stats, prev, ts, commit, d, n);
        let r0 = record_inputs(stats, prev, ts, commit, d);
        let last = inputs.last();
        let name = last.0;
        let input = last.1;
        let st = match lookup(r0, name) {
            Some(v) => v,
            None => fresh_record(name),
        };
        let val = match lookup(prev, name) {
            None => StatsView {
                last_updated: Some(ts),
                updates: st.updates.push(event(ts, commit, None, input.resolved_hash)),
                ..st
            },
            Some(p) => if p.resolved_hash == input.resolved_hash {
                st
            } else {
                StatsView {
                    update_count: sat_add(st.update_count, 1),
                    last_updated: Some(ts),
                    updates: st.updates.push(event(ts, commit, p.resolved_hash, input.resolved_hash)),
                    ..st
                }
            },
        };
        assert(record_inputs(stats, prev, ts, commit, inputs) == insert(r0, name, val));
        crate::named::lemma_lookup_insert(r0, name, val, n);
        assert(d.push(last) =~= inputs);
        lemma_lookup_push(d, last, n);
        let li = inputs.len() - 1;
        assert(inputs[li] == last);
        if has_input(d, n) {
            let k = choose|k: int| 0 <= k < d.len() && (#[trigger] d[k]).0 == n;
            assert(inputs[k] == d[k]);
        }
        if name != n {
            if has_input(inputs, n) {
                let k = choose|k: int| 0 <= k < inputs.len() && (#[trigger] inputs[k]).0 == n;
                assert(d[k] == inputs[k]);
            }
        } else {
            assert(has_input(inputs, n));
            assert(!has_input(d, n)) by {
                if has_input(d, n) {
                    let k = choose|k: int| 0 <= k < d.len() && (#[trigger] d[k]).0 == n;
                    assert(inputs[k] == d[k]);
                    assert(inputs[k].0 != inputs[li].0);
                }
            }
            lemma_has_input_lookup(d, n);
            assert(lookup(r0, n) == lookup(stats, n));
            assert(lookup(inputs, n) == Some(input));
        }
    }
}

/// The moves among the first `m` commits are those of the history without
/// its last commit, for `m` short of it.
proof fn lemma_times_moved_prefix(history: Seq<FlakeLockCommit>, m: int, n: Seq<char>, normalize: bool)
    requires
        0 <= m < history.len(),
    ensures
        times_moved(history, m, n, normalize) == times_moved(history.drop_last(), m, n, normalize),
    decreases m,
{
    if m > 0 {
        lemma_times_moved_prefix(history, m - 1, n, normalize);
        let h0 = history.drop_last();
        if m - 1 > 0 {
            assert(h0[m - 2] == history[m - 2]);
        }
        assert(h0[m - 1] == history[m - 1]);
        assert(moved_at(history, m - 1, n, normalize) == moved_at(h0, m - 1, n, normalize));
    }
}

/// With no move among the first `m` commits, none is counted.
proof fn lemma_times_moved_none(history: Seq<FlakeLockCommit>, m: int, n: Seq<char>, normalize: bool)
    requires
        forall|i: int| 0 <= i < m ==> !#[trigger] moved_at(history, i, n, normalize),
    ensures
        times_moved(history, m, n, normalize) == 0,
    decreases m,
{
    if m > 0 {
        lemma_times_moved_none(history, m - 1, n, normalize);
        assert(!moved_at(history, m - 1, n, normalize));
    }
}

/// The update count of each input over a history is the number of commits
/// that moved it, held to the range of `usize`.
proof fn lemma_history_counts(history: Seq<FlakeLockCommit>, n: Seq<char>, normalize: bool)
    ensures
        lookup(history_stats(history, normalize), n) is Some ==> lookup(
            history_stats(history, normalize),
            n,
        )->0.update_count == sat_add(0, times_moved(history, history.len() as int, n, normalize)),
    decreases history.len(),
{
    let len = history.len() as int;
    if len == 1 {
        let ins = commit_inputs(history[0], normalize);
        lemma_first_records_reads(Seq::empty(), history[0].timestamp, history[0].commit@, ins, n);
        assert(times_moved(history, 0, n, normalize) == 0);
        assert(!moved_at(history, 0, n, normalize));
    } else if len > 1 {
        let h0 = history.drop_last();
        lemma_history_counts(h0, n, normalize);
        lemma_history_last_updated(h0, n, normalize);
        let prev = commit_inputs(history[len - 2], normalize);
        let cur = commit_inputs(history.last(), normalize);
        let before = history_stats(h0, normalize);
        lemma_lock_inputs_unique(node_views(history.last().lock_content@), normalize);
        lemma_record_inputs_counts(before, prev, history.last().timestamp, history.last().commit@, cur, n);
        assert(history_stats(history, normalize) == record_inputs(
            before,
            prev,
            history.last().timestamp,
            history.last().commit@,
            cur,
        ));
        assert(history[len - 1] == history.last());
        lemma_times_moved_prefix(history, len - 1, n, normalize);
        let tm = times_moved(h0, len - 1, n, normalize);
        let ind: nat = if moved_at(history, len - 1, n, normalize) {
            1nat
        } else {
            0nat
        };
        assert(times_moved(history, len, n, normalize) == tm + ind);
        match lookup(before, n) {
            Some(s) => {
                lemma_sat_add(0, tm, ind);
            },
            None => {
                assert forall|i: int| 0 <= i < len - 1 implies !#[trigger] moved_at(h0, i, n, normalize) by {
                    if moved_at(h0, i, n, normalize) {
                        lemma_has_input_lookup(commit_inputs(h0[i], normalize), n);
                        assert(has_input(commit_inputs(h0[i], normalize), n));
                    }
                }
                lemma_times_moved_none(h0, len - 1, n, normalize);
            },
        }
    }
}

/// The event of input `n` at commit `i` of a history: the commit, the
/// revision of the commit before (none for the first commit or a new
/// input), and the revision it points at.
pub open spec fn event_at(history: Seq<FlakeLockCommit>, i: int, n: Seq<char>, normalize: bool) -> EventView {
    let from = if i == 0 {
        None
    } else {
        match lookup(commit_inputs(history[i - 1], normalize), n) {
            Some(p) => p.resolved_hash,
            None => None,
        }
    };
    event(
        history[i].timestamp,
        history[i].commit@,
        from,
        lookup(commit_inputs(history[i], normalize), n)->0.resolved_hash,
    )
}

/// The events of input `n` over the first `m` commits: one for each commit
/// that brought it in or moved it, in order.
pub open spec fn events_of(history: Seq<FlakeLockCommit>, m: int, n: Seq<char>, normalize: bool) -> Seq<EventView>
    decreases m,
{
    if m <= 0 {
        Seq::empty()
    } else if changed_at(history, m - 1, n, normalize) {
        events_of(history, m - 1, n, normalize).push(event_at(history, m - 1, n, normalize))
    } else {
        events_of(history, m - 1, n, normalize)
    }
}

/// Recording the inputs of a later commit adds one event to the record of
/// an input that is new or moved, and none to another record.
proof fn lemma_record_inputs_events(
    stats: Seq<(Seq<char>, StatsView)>,
    prev: Seq<(Seq<char>, InputView)>,
    ts: i64,
    commit: Seq<char>,
    inputs: Seq<(Seq<char>, InputView)>,
    n: Seq<char>,
)
    requires
        crate::named::names_unique(inputs),
    ensures
        lookup(record_inputs(stats, prev, ts, commit, inputs), n) is Some ==> lookup(
            record_inputs(stats, prev, ts, commit, inputs),
            n,
        )->0.updates == match lookup(stats, n) {
            Some(s) => s.updates,
            None => Seq::empty(),
        } + if changes(prev, inputs, n) {
            seq![
                event(
                    ts,
                    commit,
                    match lookup(prev, n) {
                        Some(p) => p.resolved_hash,
                        None => None,
                    },
                    lookup(inputs, n)->0.resolved_hash,
                ),
            ]
        } else {
            Seq::empty()
        },
    decreases inputs.len(),
{
    if inputs.len() > 0 {
        let d = inputs.drop_last();
        assert(crate::named::names_unique(d)) by {
            assert forall|i: int, j: int| 0 <= i < j < d.len() implies d[i].0 != d[j].0 by {
                assert(d[i] == inputs[i] && d[j] == inputs[j]);
            }
        }
        lemma_record_inputs_events(stats, prev, ts, commit, d, n);
        lemma_record_inputs_counts(stats, prev, ts, commit, d, n);
        let r0 = record_inputs(stats, prev, ts, commit, d);
        let last = inputs.last();
        let name = last.0;
        let input = last.1;
        let st = match lookup(r0, name) {
            Some(v) => v,
            None => fresh_record(name),
        };
        let val = match lookup(prev, name) {
            None => StatsView {
                last_updated: Some(ts),
                updates: st.updates.push(event(ts, commit, None, input.resolved_hash)),
                ..st
            },
            Some(p) => if p.resolved_hash == input.resolved_hash {
                st
            } else {
                StatsView {
                    update_count: sat_add(st.update_count, 1),
                    last_updated: Some(ts),
                    updates: st.updates.push(event(ts, commit, p.resolved_hash, input.resolved_hash)),
                    ..st
                }
            },
        };
        assert(record_inputs(stats, prev, ts, commit, inputs) == insert(r0, name, val));
        crate::named::lemma_lookup_insert(r0, name, val, n);
        assert(d.push(last) =~= inputs);
        lemma_lookup_push(d, last, n);
        let li = inputs.len() - 1;
        assert(inputs[li] == last);
        if changes(prev, d, n) {
            let k = choose|k: int|
                0 <= k < d.len() && (#[trigger] d[k]).0 == n && (lookup(prev, n) is None || lookup(
                    prev,
                    n,
                )->0.resolved_hash != d[k].1.resolved_hash);
            assert(inputs[k] == d[k]);
        }
        if name != n {
            if changes(prev, inputs, n) {
                let k = choose|k: int|
                    0 <= k < inputs.len() && (#[trigger] inputs[k]).0 == n && (lookup(prev, n) is None
                        || lookup(prev, n)->0.resolved_hash != inputs[k].1.resolved_hash);
                assert(d[k] == inputs[k]);
            }
            lemma_has_input_lookup(d, n);
            lemma_has_input_lookup(inputs, n);
            if has_input(d, n) {
                let k = choose|k: int| 0 <= k < d.len() && (#[trigger] d[k]).0 == n;
                assert(inputs[k] == d[k]);
            }
            if has_input(inputs, n) {
                let k = choose|k: int| 0 <= k < inputs.len() && (#[trigger] inputs[k]).0 == n;
                assert(d[k] == inputs[k]);
            }
        } else {
            assert(!has_input(d, n)) by {
                if has_input(d, n) {
                    let k = choose|k: int| 0 <= k < d.len() && (#[trigger] d[k]).0 == n;
                    assert(inputs[k] == d[k]);
                    assert(inputs[k].0 != inputs[li].0);
                }
            }
            assert(!changes(prev, d, n)) by {
                if changes(prev, d, n) {
                    let k = choose|k: int|
                        0 <= k < d.len() && (#[trigger] d[k]).0 == n && (lookup(prev, n) is None || lookup(
                            prev,
                            n,
                        )->0.resolved_hash != d[k].1.resolved_hash);
                    assert(has_input(d, n));
                }
            }
            lemma_has_input_lookup(d, n);
            assert(lookup(r0, n) == lookup(stats, n));
            assert(lookup(inputs, n) == Some(input));
            let moved = lookup(prev, n) is None || lookup(prev, n)->0.resolved_hash != input.resolved_hash;
            if moved {
                assert(changes(prev, inputs, n));
            } else {
                assert(!changes(prev, inputs, n)) by {
                    if changes(prev, inputs, n) {
                        let k = choose|k: int|
                            0 <= k < inputs.len() && (#[trigger] inputs[k]).0 == n && (lookup(prev, n) is None
                                || lookup(prev, n)->0.resolved_hash != inputs[k].1.resolved_hash);
                        if k < li {
                            assert(inputs[k].0 != inputs[li].0);
                        }
                    }
                }
            }
            let base = match lookup(stats, n) {
                Some(s) => s.updates,
                None => Seq::<EventView>::empty(),
            };
            assert(st.updates == base);
            assert(base + Seq::<EventView>::empty() =~= base);
        }
    }
}

/// The events among the first `m` commits are those of the history without
/// its last commit, for `m` short of it.
proof fn lemma_events_prefix(history: Seq<FlakeLockCommit>, m: int, n: Seq<char>, normalize: bool)
    requires
        0 <= m < history.len(),
    ensures
        events_of(history, m, n, normalize) == events_of(history.drop_last(), m, n, normalize),
    decreases m,
{
    if m > 0 {
        lemma_events_prefix(history, m - 1, n, normalize);
        let h0 = history.drop_last();
        if m - 1 > 0 {
            assert(h0[m - 2] == history[m - 2]);
        }
        assert(h0[m - 1] == history[m - 1]);
        assert(changed_at(history, m - 1, n, normalize) == changed_at(h0, m - 1, n, normalize));
        assert(event_at(history, m - 1, n, normalize) == event_at(h0, m - 1, n, normalize));
    }
}

/// With no commit bringing in or moving the input among the first `m`, it
/// has no event.
proof fn lemma_events_none(history: Seq<FlakeLockCommit>, m: int, n: Seq<char>, normalize: bool)
    requires
        forall|i: int| 0 <= i < m ==> !#[trigger] changed_at(history, i, n, normalize),
    ensures
        events_of(history, m, n, normalize) == Seq::<EventView>::empty(),
    decreases m,
{
    if m > 0 {
        lemma_events_none(history, m - 1, n, normalize);
        assert(!changed_at(history, m - 1, n, normalize));
    }
}

/// The events of each input over a history.
proof fn lemma_history_events(history: Seq<FlakeLockCommit>, n: Seq<char>, normalize: bool)
    ensures
        lookup(history_stats(history, normalize), n) is Some ==> lookup(
            history_stats(history, normalize),
            n,
        )->0.updates == events_of(history, history.len() as int, n, normalize),
    decreases history.len(),
{
    let len = history.len() as int;
    if len == 1 {
        let ins = commit_inputs(history[0], normalize);
        lemma_lock_inputs_unique(node_views(history[0].lock_content@), normalize);
        lemma_first_records_reads(Seq::empty(), history[0].timestamp, history[0].commit@, ins, n);
        lemma_has_input_lookup(ins, n);
        assert(events_of(history, 0, n, normalize) == Seq::<EventView>::empty());
        if lookup(history_stats(history, normalize), n) is Some {
            assert(changed_at(history, 0, n, normalize));
            assert(Seq::<EventView>::empty().push(event_at(history, 0, n, normalize)) =~= seq![
                event_at(history, 0, n, normalize),
            ]);
        }
    } else if len > 1 {
        let h0 = history.drop_last();
        lemma_history_events(h0, n, normalize);
        lemma_history_last_updated(h0, n, normalize);
        let prev = commit_inputs(history[len - 2], normalize);
        let cur = commit_inputs(history.last(), normalize);
        let before = history_stats(h0, normalize);
        lemma_lock_inputs_unique(node_views(history.last().lock_content@), normalize);
        lemma_record_inputs_events(before, prev, history.last().timestamp, history.last().commit@, cur, n);
        assert(history_stats(history, normalize) == record_inputs(
            before,
            prev,
            history.last().timestamp,
            history.last().commit@,
            cur,
        ));
        assert(history[len - 1] == history.last());
        lemma_events_prefix(history, len - 1, n, normalize);
        assert(changed_at(history, len - 1, n, normalize) == changes(prev, cur, n));
        let ev = events_of(h0, len - 1, n, normalize);
        if changes(prev, cur, n) {
            assert(ev.push(event_at(history, len - 1, n, normalize)) =~= ev + seq![
                event_at(history, len - 1, n, normalize),
            ]);
        } else {
            assert(ev + Seq::<EventView>::empty() =~= ev);
        }
        if lookup(before, n) is None {
            assert forall|i: int| 0 <= i < len - 1 implies !#[trigger] changed_at(h0, i, n, normalize) by {
                if changed_at(h0, i, n, normalize) {
                    if i > 0 {
                        let k = choose|k: int|
                            0 <= k < commit_inputs(h0[i], normalize).len() && (#[trigger] commit_inputs(
                                h0[i],
                                normalize,
                            )[k]).0 == n && (lookup(commit_inputs(h0[i - 1], normalize), n) is None
                                || lookup(commit_inputs(h0[i - 1], normalize), n)->0.resolved_hash
                                != commit_inputs(h0[i], normalize)[k].1.resolved_hash);
                    }
                    assert(has_input(commit_inputs(h0[i], normalize), n));
                }
            }
            lemma_events_none(h0, len - 1, n, normalize);
            assert(Seq::<EventView>::empty() + ev =~= ev);
        }
    }
}

/// The time of last update of each input that the tracker keeps: an input
/// has a record exactly when the lock of some commit of the history has
/// it, and its time of last update is that of the latest commit that
/// brought it in or moved it to another revision (the first commit brings
/// in all of its inputs). So an input added after the first commit and
/// never moved is updated at the commit that added it. Its update count is
/// the number of commits that moved it from the revision of the commit
/// before (held to the range of `usize`); bringing an input in is no update.
/// Its events are one for each commit that brought it in or moved it, in
/// history order, each with the revision before and after.
pub proof fn law_last_updated(history: Seq<FlakeLockCommit>, n: Seq<char>, normalize: bool)
    ensures
        lookup(tracked_stats(history, normalize), n) is Some <==> exists|i: int|
            0 <= i < history.len() && has_input(commit_inputs(#[trigger] history[i], normalize), n),
        lookup(tracked_stats(history, normalize), n) is Some ==> exists|i: int|
            #[trigger] changed_at(history, i, n, normalize) && !changed_later(history, i, n, normalize)
                && lookup(tracked_stats(history, normalize), n)->0.last_updated == Some(
                history[i].timestamp,
            ),
        lookup(tracked_stats(history, normalize), n) is Some ==> lookup(
            tracked_stats(history, normalize),
            n,
        )->0.update_count == sat_add(0, times_moved(history, history.len() as int, n, normalize)),
        lookup(tracked_stats(history, normalize), n) is Some ==> lookup(
            tracked_stats(history, normalize),
            n,
        )->0.updates == events_of(history, history.len() as int, n, normalize),
{
    lemma_history_last_updated(history, n, normalize);
    lemma_history_counts(history, n, normalize);
    lemma_history_events(history, n, normalize);
    crate::named::lemma_lookup_map(history_stats(history, normalize), |v: StatsView| with_interval(v), n);
}

/// Adding in two steps with saturation is adding once.
proof fn lemma_sat_add(n: usize, a: nat, b: nat)
    ensures
        sat_add(sat_add(n, a), b) == sat_add(n, a + b),
{
}

/// Counting in two steps is counting the sum.
proof fn lemma_counted(s: TrackerStats, a: (nat, nat, nat), b: (nat, nat, nat))
    ensures
        counted(counted(s, a), b) == counted(s, (a.0 + b.0, a.1 + b.1, a.2 + b.2)),
{
    lemma_sat_add(s.inputs_parsed, a.0, b.0);
    lemma_sat_add(s.normalizations_applied, a.1, b.1);
    lemma_sat_add(s.custom_handlers_used, a.2, b.2);
}

/// Inserting a commit at its slot keeps a list in time order.
proof fn lemma_slot_keeps_order(r: Seq<FlakeLockCommit>, c: FlakeLockCommit)
    requires
        time_ordered(r),
    ensures
        time_ordered(r.insert(slot(r, c.timestamp), c)),
        0 <= slot(r, c.timestamp) <= r.len(),
{
    let p = |x: FlakeLockCommit| x.timestamp > c.timestamp;
    lemma_first_where(r, p);
    let k = slot(r, c.timestamp);
    let s = r.insert(k, c);
    assert forall|i: int, j: int| 0 <= i < j < s.len() implies s[i].timestamp <= s[j].timestamp by {
        if j < k {
            assert(s[i] == r[i] && s[j] == r[j]);
        } else if j == k {
            assert(s[i] == r[i]);
            assert(!p(r[i]));
        } else if i == k {
            assert(s[j] == r[j - 1]);
            assert(p(r[j - 1]) || j - 1 >= k) ;
            assert(r[k].timestamp > c.timestamp);
            assert(r[k].timestamp <= r[j - 1].timestamp);
        } else if i < k {
            assert(s[i] == r[i] && s[j] == r[j - 1]);
        } else {
            assert(s[i] == r[i - 1] && s[j] == r[j - 1]);
        }
    }
}

/// The history in time order is in time order.
pub proof fn lemma_by_time_ordered(s: Seq<FlakeLockCommit>)
    ensures
        time_ordered(by_time(s)),
        by_time(s).len() == s.len(),
    decreases s.len(),
{
    if s.len() > 0 {
        lemma_by_time_ordered(s.drop_last());
        lemma_slot_keeps_order(by_time(s.drop_last()), s.last());
    }
}

/// Sorts commits by time, keeping the order of commits of the same time.
fn sort_by_time(commits: Vec<FlakeLockCommit>) -> (r: Vec<FlakeLockCommit>)
    ensures
        r@ == by_time(commits@),
{
    let ghost all = commits@;
    let ghost n = all.len();
    let mut rest = commits;
    let mut out: Vec<FlakeLockCommit> = Vec::new();
    assert(rest@ =~= all.skip(0));
    assert(all.take(0) =~= Seq::<FlakeLockCommit>::empty());
    while rest.len() > 0
        invariant
            rest@.len() <= n,
            n == all.len(),
            rest@ == all.skip(n - rest@.len()),
            out@ == by_time(all.take(n - rest@.len())),
        decreases rest@.len(),
    {
        let ghost i = n - rest@.len();
        let c = rest.remove(0);
        proof {
            assert(rest@ =~= all.skip(i + 1));
            assert(all.take(i + 1).drop_last() =~= all.take(i));
            assert(all.take(i + 1).last() == c);
            lemma_first_where(out@, |x: FlakeLockCommit| x.timestamp > c.timestamp);
        }
        let mut j: usize = 0;
        while j < out.len() && out[j].timestamp <= c.timestamp
            invariant
                j <= out@.len(),
                forall|m: int| 0 <= m < j ==> (#[trigger] out@[m]).timestamp <= c.timestamp,
            decreases out@.len() - j,
        {
            j = j + 1;
        }
        assert(j == slot(out@, c.timestamp));
        out.insert(j, c);
    }
    assert(all.take(n as int) =~= all);
    out
}

/// A copy of an event.
fn copy_event(e: &UpdateEvent) -> (r: UpdateEvent)
    ensures
        r@ == e@,
{
    UpdateEvent {
        timestamp: e.timestamp,
        commit: e.commit.clone(),
        from_hash: copy_opt(&e.from_hash),
        to_hash: copy_opt(&e.to_hash),
    }
}

/// A copy of a record.
fn copy_stats(s: &InputUpdateStats) -> (r: InputUpdateStats)
    ensures
        r@ == s@,
{
    let mut updates: Vec<UpdateEvent> = Vec::new();
    let mut i: usize = 0;
    while i < s.updates.len()
        invariant
            i <= s.updates@.len(),
            updates@.len() == i,
            forall|j: int| 0 <= j < i ==> (#[trigger] updates@[j])@ == s.updates@[j]@,
        decreases s.updates@.len() - i,
    {
        updates.push(copy_event(&s.updates[i]));
        i = i + 1;
    }
    assert(updates@.map_values(|e: UpdateEvent| e@) =~= s.updates@.map_values(|e: UpdateEvent| e@));
    InputUpdateStats {
        name: s.name.clone(),
        update_count: s.update_count,
        avg_update_interval: s.avg_update_interval,
        last_updated: s.last_updated,
        updates,
    }
}

/// `a / b` rounded toward zero, for `b > 0`.
fn div_zero(a: i128, b: i128) -> (r: i128)
    requires
        b > 0,
        a > i128::MIN,
    ensures
        r == div_toward_zero(a as int, b as int),
{
    if a >= 0 {
        ((a as u128) / (b as u128)) as i128
    } else {
        let q = ((-a) as u128) / (b as u128);
        assert(q <= (-a) as u128) by (nonlinear_arith)
            requires
                q == ((-a) as u128) / (b as u128),
                b > 0,
        ;
        -(q as i128)
    }
}

/// A number of seconds held to the range of `i64`.
fn clamp(x: i128) -> (r: i64)
    ensures
        r == clamp_i64(x as int),
{
    if x > i64::MAX as i128 {
        i64::MAX
    } else if x < i64::MIN as i128 {
        i64::MIN
    } else {
        x as i64
    }
}

/// The records of a map of records.
pub open spec fn stats_views(m: NameMap<InputUpdateStats>) -> Seq<(Seq<char>, StatsView)> {
    map_values_of(m.model(), |x: InputUpdateStats| x@)
}

/// Records an input of a commit against the inputs of the commit before.
fn record_one(
    stats: &mut NameMap<InputUpdateStats>,
    prev: &NameMap<GitFlakeInput>,
    ts: i64,
    commit: &String,
    name: &String,
    input: &GitFlakeInput,
)
    ensures
        stats_views(*final(stats)) == record_input(
            stats_views(*old(stats)),
            input_views(*prev),
            ts,
            commit@,
            name@,
            input@,
        ),
{
    proof {
        crate::named::lemma_lookup_map(stats.model(), |x: InputUpdateStats| x@, name@);
        crate::named::lemma_lookup_map(prev.model(), |x: GitFlakeInput| x@, name@);
    }
    let mut st = match stats.get(name.as_str()) {
        Some(v) => copy_stats(v),
        None => {
            let r = InputUpdateStats {
                name: name.clone(),
                update_count: 0,
                avg_update_interval: None,
                last_updated: None,
                updates: Vec::new(),
            };
            assert(r@.updates =~= Seq::<EventView>::empty());
            r
        },
    };
    let ghost st0 = st@;
    match prev.get(name.as_str()) {
        None => {
            st.last_updated = Some(ts);
            let ghost u = st.updates@;
            st.updates.push(
                UpdateEvent {
                    timestamp: ts,
                    commit: commit.clone(),
                    from_hash: None,
                    to_hash: copy_opt(&input.resolved_hash),
                },
            );
            assert(st.updates@.map_values(|e: UpdateEvent| e@) =~= u.map_values(|e: UpdateEvent| e@).push(
                event(ts, commit@, None, input@.resolved_hash),
            ));
        },
        Some(p) => {
            if !same_opt(&p.resolved_hash, &input.resolved_hash) {
                st.update_count = sat_inc(st.update_count);
                st.last_updated = Some(ts);
                let ghost u = st.updates@;
                st.updates.push(
                    UpdateEvent {
                        timestamp: ts,
                        commit: commit.clone(),
                        from_hash: copy_opt(&p.resolved_hash),
                        to_hash: copy_opt(&input.resolved_hash),
                    },
                );
                assert(st.updates@.map_values(|e: UpdateEvent| e@) =~= u.map_values(|e: UpdateEvent| e@).push(
                    event(ts, commit@, p@.resolved_hash, input@.resolved_hash),
                ));
            }
        },
    }
    let ghost before = *stats;
    stats.insert(name.clone(), st);
    proof {
        crate::named::lemma_insert_map(before.model(), |x: InputUpdateStats| x@, name@, st);
    }
}

/// Records an input of the first commit.
fn record_first(stats: &mut NameMap<InputUpdateStats>, ts: i64, commit: &String, name: &String, input: &GitFlakeInput)
    ensures
        stats_views(*final(stats)) == insert(
            stats_views(*old(stats)),
            name@,
            StatsView {
                name: name@,
                update_count: 0,
                avg_update_interval: None,
                last_updated: Some(ts),
                updates: seq![event(ts, commit@, None, input@.resolved_hash)],
            },
        ),
{
    let st = InputUpdateStats {
        name: name.clone(),
        update_count: 0,
        avg_update_interval: None,
        last_updated: Some(ts),
        updates: vec![
            UpdateEvent {
                timestamp: ts,
                commit: commit.clone(),
                from_hash: None,
                to_hash: copy_opt(&input.resolved_hash),
            },
        ],
    };
    assert(st.updates@.map_values(|e: UpdateEvent| e@) =~= seq![event(ts, commit@, None, input@.resolved_hash)]);
    let ghost before = *stats;
    stats.insert(name.clone(), st);
    proof {
        crate::named::lemma_insert_map(before.model(), |x: InputUpdateStats| x@, name@, st);
    }
}

// ---------------------------------------------------------------------------
// Analysis
// ---------------------------------------------------------------------------

/// An input that has not been updated for a while.
#[derive(Debug, Clone, PartialEq)]
pub struct StaleInput {
    /// The input.
    pub name: String,
    /// When it last changed, in seconds since the epoch.
    pub last_updated: i64,
    /// Whole days since then.
    pub days_stale: i64,
    /// Its current revision.
    pub current_hash: Option<String>,
}

/// The content of a stale input.
pub struct StaleView {
    pub name: Seq<char>,
    pub last_updated: i64,
    pub days_stale: i64,
    pub current_hash: Option<Seq<char>>,
}

impl View for StaleInput {
    type V = StaleView;

    open spec fn view(&self) -> StaleView {
        StaleView {
            name: self.name@,
            last_updated: self.last_updated,
            days_stale: self.days_stale,
            current_hash: opt_chars(self.current_hash),
        }
    }
}

/// A commit that updated several inputs at once.
#[derive(Debug, Clone, PartialEq)]
pub struct BatchUpdate {
    /// The commit.
    pub commit: String,
    /// When, in seconds since the epoch.
    pub timestamp: i64,
    /// How many inputs it updated.
    pub inputs_updated: usize,
    /// Which.
    pub input_names: Vec<String>,
}

/// The content of a batch update.
pub struct BatchView {
    pub commit: Seq<char>,
    pub timestamp: i64,
    pub inputs_updated: usize,
    pub input_names: Seq<Seq<char>>,
}

impl View for BatchUpdate {
    type V = BatchView;

    open spec fn view(&self) -> BatchView {
        BatchView {
            commit: self.commit@,
            timestamp: self.timestamp,
            inputs_updated: self.inputs_updated,
            input_names: self.input_names@.map_values(|n: String| n@),
        }
    }
}

/// How often the lock changes: `commits` over `span_days / 30` months, or
/// none when the span is under a day.
#[derive(Debug, Clone, Copy, PartialEq, Eq, Structural)]
pub struct CommitRate {
    /// The number of commits.
    pub commits: usize,
    /// Whole days from the first commit to the last.
    pub span_days: i64,
}

/// Patterns in how the lock is updated.
#[derive(Debug, Clone, PartialEq)]
pub struct UpdatePatterns {
    /// Commits per month.
    pub commit_rate: CommitRate,
    /// The day of the week with most commits, 0 for Sunday; the later day
    /// on a tie.
    pub most_active_day: Option<u32>,
    /// The hour of the day with most commits; the later hour on a tie.
    pub most_active_hour: Option<u32>,
    /// Commits that updated several inputs at once.
    pub batch_updates: Vec<BatchUpdate>,
}

/// What the history of the lock shows.
#[derive(Debug, Clone, PartialEq)]
pub struct FlakeLockAnalysis {
    /// The number of commits.
    pub total_commits: usize,
    /// Seconds from the first commit to the last, when there are two.
    pub time_span: Option<i64>,
    /// Up to ten inputs with their update counts, most updated first.
    pub most_updated_inputs: Vec<(String, usize)>,
    /// Inputs not updated for longer than the threshold, stalest first.
    pub stale_inputs: Vec<StaleInput>,
    /// Patterns.
    pub update_patterns: UpdatePatterns,
}

/// Where an entry with count `c` goes in a list kept most-first: after every
/// entry whose count is at least `c`.
pub open spec fn count_slot(s: Seq<(Seq<char>, usize)>, c: usize) -> int {
    match first_where(s, |e: (Seq<char>, usize)| e.1 < c) {
        Some(k) => k,
        None => s.len() as int,
    }
}

/// Entries by count, most first; entries of equal count keep their order.
pub open spec fn by_count(s: Seq<(Seq<char>, usize)>) -> Seq<(Seq<char>, usize)>
    decreases s.len(),
{
    if s.len() == 0 {
        Seq::empty()
    } else {
        let r = by_count(s.drop_last());
        r.insert(count_slot(r, s.last().1), s.last())
    }
}

/// Each input with its update count, in record order.
pub open spec fn update_counts(stats: Seq<(Seq<char>, StatsView)>) -> Seq<(Seq<char>, usize)> {
    stats.map_values(|e: (Seq<char>, StatsView)| (e.0, e.1.update_count))
}

/// The ten most updated inputs.
pub open spec fn most_updated(stats: Seq<(Seq<char>, StatsView)>) -> Seq<(Seq<char>, usize)> {
    let r = by_count(update_counts(stats));
    if r.len() > 10 {
        r.take(10)
    } else {
        r
    }
}

/// Whole days from `from` to `to`, rounded toward zero.
pub open spec fn days_between(from: i64, to: i64) -> int {
    div_toward_zero(to - from, 86400)
}

/// The stale input a record stands for at time `now`, if it is older than
/// the threshold.
pub open spec fn stale_of(name: Seq<char>, v: StatsView, now: i64, threshold: i64) -> Option<StaleView> {
    match v.last_updated {
        Some(t) => if days_between(t, now) > threshold {
            Some(
                StaleView {
                    name: name,
                    last_updated: t,
                    days_stale: days_between(t, now) as i64,
                    current_hash: if v.updates.len() > 0 {
                        v.updates.last().to_hash
                    } else {
                        None
                    },
                },
            )
        } else {
            None
        },
        None => None,
    }
}

/// The stale inputs, in record order.
pub open spec fn stale_found(stats: Seq<(Seq<char>, StatsView)>, now: i64, threshold: i64) -> Seq<StaleView>
    decreases stats.len(),
{
    if stats.len() == 0 {
        Seq::empty()
    } else {
        let r = stale_found(stats.drop_last(), now, threshold);
        match stale_of(stats.last().0, stats.last().1, now, threshold) {
            Some(x) => r.push(x),
            None => r,
        }
    }
}

/// Where a stale input goes in a list kept stalest-first.
pub open spec fn stale_slot(s: Seq<StaleView>, d: i64) -> int {
    match first_where(s, |e: StaleView| e.days_stale < d) {
        Some(k) => k,
        None => s.len() as int,
    }
}

/// Stale inputs, stalest first; inputs equally stale keep their order.
pub open spec fn by_staleness(s: Seq<StaleView>) -> Seq<StaleView>
    decreases s.len(),
{
    if s.len() == 0 {
        Seq::empty()
    } else {
        let r = by_staleness(s.drop_last());
        r.insert(stale_slot(r, s.last().days_stale), s.last())
    }
}

/// The day of the week of a time, 0 for Sunday.
pub open spec fn weekday(ts: i64) -> int {
    (ts / 86400 + 4) % 7
}

/// The hour of the day of a time.
pub open spec fn hour_of(ts: i64) -> int {
    (ts % 86400) / 3600
}

/// The number of commits on a day of the week.
pub open spec fn day_count(s: Seq<FlakeLockCommit>, d: int) -> nat
    decreases s.len(),
{
    if s.len() == 0 {
        0
    } else {
        day_count(s.drop_last(), d) + if weekday(s.last().timestamp) == d {
            1nat
        } else {
            0nat
        }
    }
}

/// The number of commits in an hour of the day.
pub open spec fn hour_count(s: Seq<FlakeLockCommit>, h: int) -> nat
    decreases s.len(),
{
    if s.len() == 0 {
        0
    } else {
        hour_count(s.drop_last(), h) + if hour_of(s.last().timestamp) == h {
            1nat
        } else {
            0nat
        }
    }
}

/// The last position among `0..=k` holding the largest count.
pub open spec fn last_max(c: Seq<nat>, k: int) -> int
    decreases k,
{
    if k <= 0 {
        0
    } else {
        let b = last_max(c, k - 1);
        if c[k] >= c[b] {
            k
        } else {
            b
        }
    }
}

/// The names of the inputs of `cur` that `prev` lacks or that changed
/// revision, in order.
pub open spec fn changed_names(prev: Seq<(Seq<char>, InputView)>, cur: Seq<(Seq<char>, InputView)>) -> Seq<
    Seq<char>,
>
    decreases cur.len(),
{
    if cur.len() == 0 {
        Seq::empty()
    } else {
        let r = changed_names(prev, cur.drop_last());
        match lookup(prev, cur.last().0) {
            Some(p) => if p.resolved_hash != cur.last().1.resolved_hash {
                r.push(cur.last().0)
            } else {
                r
            },
            None => r.push(cur.last().0),
        }
    }
}

/// The batch update commit `i` (from the second on) makes: one that
/// changes more than one input.
pub open spec fn batch_at(commits: Seq<FlakeLockCommit>, i: int, normalize: bool) -> Option<BatchView> {
    let names = changed_names(
        commit_inputs(commits[i - 1], normalize),
        commit_inputs(commits[i], normalize),
    );
    if names.len() > 1 {
        Some(
            BatchView {
                commit: commits[i].commit@,
                timestamp: commits[i].timestamp,
                inputs_updated: names.len() as usize,
                input_names: names,
            },
        )
    } else {
        None
    }
}

/// The batch updates among the first `k` commits.
pub open spec fn batches(commits: Seq<FlakeLockCommit>, k: int, normalize: bool) -> Seq<BatchView>
    decreases k,
{
    if k <= 1 {
        Seq::empty()
    } else {
        let r = batches(commits, k - 1, normalize);
        match batch_at(commits, k - 1, normalize) {
            Some(b) => r.push(b),
            None => r,
        }
    }
}

/// Euclidean quotient and remainder.
fn euclid(a: i64, b: i64) -> (r: (i64, i64))
    requires
        b > 0,
    ensures
        r.0 == a / b,
        r.1 == a % b,
{
    if a >= 0 {
        let q = ((a as u64) / (b as u64)) as i64;
        let m = ((a as u64) % (b as u64)) as i64;
        assert(q == a / b && m == a % b) by (nonlinear_arith)
            requires
                a >= 0,
                b > 0,
                q == (a as u64) / (b as u64),
                m == (a as u64) % (b as u64),
        ;
        (q, m)
    } else {
        let n: u64 = (-(a + 1)) as u64;
        let q0 = n / (b as u64);
        let m0 = n % (b as u64);
        assert(q0 <= n && m0 < b) by (nonlinear_arith)
            requires
                b > 0,
                q0 == n / (b as u64),
                m0 == n % (b as u64),
        ;
        let q = -(q0 as i64) - 1;
        let m = (b - 1) - (m0 as i64);
        assert(q == a / b && m == a % b) by (nonlinear_arith)
            requires
                a < 0,
                b > 0,
                n == -(a + 1),
                q0 == (n as int) / (b as int),
                m0 == (n as int) % (b as int),
                q == -q0 - 1,
                m == (b - 1) - m0,
        {
            assert(n == q0 * b + m0);
            assert(a == q * b + m);
            assert(0 <= m < b);
            vstd::arithmetic::div_mod::lemma_fundamental_div_mod_converse(a as int, b as int, q as int, m as int);
        }
        (q, m)
    }
}

/// The day of the week of a time, 0 for Sunday.
fn weekday_index(ts: i64) -> (d: usize)
    ensures
        d == weekday(ts),
        d < 7,
{
    let (days, _) = euclid(ts, 86400);
    assert(days <= 106751991167300) by (nonlinear_arith)
        requires
            days == ts / 86400,
    ;
    let (_, w) = euclid(days + 4, 7);
    w as usize
}

/// The hour of the day of a time.
fn hour_index(ts: i64) -> (h: usize)
    ensures
        h == hour_of(ts),
        h < 24,
{
    let (_, secs) = euclid(ts, 86400);
    (secs / 3600) as usize
}

/// The last position among `0..n` holding the largest count.
fn last_max_index(c: &Vec<usize>, n: usize) -> (r: usize)
    requires
        0 < n <= c@.len(),
    ensures
        r == last_max(Seq::new(c@.len(), |i: int| c@[i] as nat), n - 1),
        r < n,
{
    let ghost cs = Seq::new(c@.len(), |i: int| c@[i] as nat);
    let mut best: usize = 0;
    let mut k: usize = 1;
    while k < n
        invariant
            1 <= k <= n,
            n <= c@.len(),
            cs == Seq::new(c@.len(), |i: int| c@[i] as nat),
            best == last_max(cs, k - 1),
            best < k,
        decreases n - k,
    {
        if c[k] >= c[best] {
            best = k;
        }
        k = k + 1;
    }
    best
}

/// Counts of commits by day of the week.
fn day_counts(commits: &Vec<FlakeLockCommit>) -> (r: Vec<usize>)
    ensures
        r@.len() == 7,
        forall|d: int| 0 <= d < 7 ==> r@[d] == day_count(commits@, d),
{
    let mut counts: Vec<usize> = Vec::new();
    while counts.len() < 7
        invariant
            counts@.len() <= 7,
            forall|d: int| 0 <= d < counts@.len() ==> counts@[d] == 0,
        decreases 7 - counts@.len(),
    {
        counts.push(0);
    }
    let mut i: usize = 0;
    assert(commits@.take(0) =~= Seq::<FlakeLockCommit>::empty());
    while i < commits.len()
        invariant
            i <= commits@.len(),
            counts@.len() == 7,
            forall|d: int| 0 <= d < 7 ==> #[trigger] counts@[d] == day_count(commits@.take(i as int), d),
            forall|d: int| 0 <= d < 7 ==> counts@[d] <= i,
        decreases commits@.len() - i,
    {
        proof {
            assert(commits@.take(i + 1).drop_last() =~= commits@.take(i as int));
        }
        let d = weekday_index(commits[i].timestamp);
        let v = counts[d];
        counts.set(d, v + 1);
        i = i + 1;
    }
    assert(commits@.take(commits@.len() as int) =~= commits@);
    counts
}

/// Counts of commits by hour of the day.
fn hour_counts(commits: &Vec<FlakeLockCommit>) -> (r: Vec<usize>)
    ensures
        r@.len() == 24,
        forall|h: int| 0 <= h < 24 ==> r@[h] == hour_count(commits@, h),
{
    let mut counts: Vec<usize> = Vec::new();
    while counts.len() < 24
        invariant
            counts@.len() <= 24,
            forall|d: int| 0 <= d < counts@.len() ==> counts@[d] == 0,
        decreases 24 - counts@.len(),
    {
        counts.push(0);
    }
    let mut i: usize = 0;
    assert(commits@.take(0) =~= Seq::<FlakeLockCommit>::empty());
    while i < commits.len()
        invariant
            i <= commits@.len(),
            counts@.len() == 24,
            forall|d: int| 0 <= d < 24 ==> #[trigger] counts@[d] == hour_count(commits@.take(i as int), d),
            forall|d: int| 0 <= d < 24 ==> counts@[d] <= i,
        decreases commits@.len() - i,
    {
        proof {
            assert(commits@.take(i + 1).drop_last() =~= commits@.take(i as int));
        }
        let h = hour_index(commits[i].timestamp);
        let v = counts[h];
        counts.set(h, v + 1);
        i = i + 1;
    }
    assert(commits@.take(commits@.len() as int) =~= commits@);
    counts
}

/// The names of the inputs of `cur` that `prev` lacks or that changed.
fn changed_input_names(prev: &NameMap<GitFlakeInput>, cur: &NameMap<GitFlakeInput>) -> (r: Vec<String>)
    ensures
        r@.map_values(|n: String| n@) == changed_names(input_views(*prev), input_views(*cur)),
{
    let ghost cv = input_views(*cur);
    let ghost pv = input_views(*prev);
    let mut names: Vec<String> = Vec::new();
    let mut k: usize = 0;
    assert(cv.take(0) =~= Seq::<(Seq<char>, InputView)>::empty());
    assert(names@.map_values(|n: String| n@) =~= Seq::<Seq<char>>::empty());
    while k < cur.len()
        invariant
            k <= cv.len(),
            cv == input_views(*cur),
            pv == input_views(*prev),
            names@.map_values(|n: String| n@) == changed_names(pv, cv.take(k as int)),
        decreases cv.len() - k,
    {
        proof {
            assert(cv.take(k + 1).drop_last() =~= cv.take(k as int));
        }
        let name = cur.name_at(k);
        let input = cur.value_at(k);
        proof {
            crate::named::lemma_lookup_map(prev.model(), |x: GitFlakeInput| x@, name@);
        }
        let changed = match prev.get(name.as_str()) {
            Some(p) => !same_opt(&p.resolved_hash, &input.resolved_hash),
            None => true,
        };
        if changed {
            let ghost before = names@;
            names.push(name.clone());
            assert(names@.map_values(|n: String| n@) =~= before.map_values(|n: String| n@).push(name@));
        }
        k = k + 1;
    }
    assert(cv.take(cv.len() as int) =~= cv);
    names
}

/// The current time, in seconds since the epoch: chrono's `Utc::now`. It
/// depends on the clock, so nothing is stated of it.
#[verifier::external_body]
fn now_seconds() -> (r: i64) {
    chrono::Utc::now().timestamp()
}

/// How often a time-ordered history changes the lock.
pub open spec fn rate_of(commits: Seq<FlakeLockCommit>) -> CommitRate {
    CommitRate {
        commits: commits.len() as usize,
        span_days: if commits.len() > 0 {
            days_between(commits[0].timestamp, commits.last().timestamp) as i64
        } else {
            0
        },
    }
}

/// The commits per day of the week.
pub open spec fn day_counts_of(commits: Seq<FlakeLockCommit>) -> Seq<nat> {
    Seq::new(7, |d: int| day_count(commits, d))
}

/// The commits per hour of the day.
pub open spec fn hour_counts_of(commits: Seq<FlakeLockCommit>) -> Seq<nat> {
    Seq::new(24, |h: int| hour_count(commits, h))
}

/// `p` holds the update patterns of a time-ordered history.
pub open spec fn patterns_of(p: UpdatePatterns, commits: Seq<FlakeLockCommit>, normalize: bool) -> bool {
    &&& p.commit_rate == rate_of(commits)
    &&& p.most_active_day == Some(last_max(day_counts_of(commits), 6) as u32)
    &&& p.most_active_hour == Some(last_max(hour_counts_of(commits), 23) as u32)
    &&& p.batch_updates@.map_values(|b: BatchUpdate| b@) == batches(commits, commits.len() as int, normalize)
}

/// Rounding toward zero a division by a day's seconds stays far inside `i64`.
proof fn lemma_days_fit(a: int)
    requires
        -0x1_0000_0000_0000_0000 <= a <= 0x1_0000_0000_0000_0000,
    ensures
        -0x1_0000_0000_0000 <= div_toward_zero(a, 86400) <= 0x1_0000_0000_0000,
{
    if a >= 0 {
        assert(a / 86400 <= 0x1_0000_0000_0000) by (nonlinear_arith)
            requires
                0 <= a <= 0x1_0000_0000_0000_0000,
        ;
        assert(a / 86400 >= 0) by (nonlinear_arith)
            requires
                0 <= a,
        ;
    } else {
        assert((-a) / 86400 <= 0x1_0000_0000_0000) by (nonlinear_arith)
            requires
                0 <= -a <= 0x1_0000_0000_0000_0000,
        ;
        assert((-a) / 86400 >= 0) by (nonlinear_arith)
            requires
                0 <= -a,
        ;
    }
}

/// Whole days from `from` to `to`, rounded toward zero.
fn days_from(from: i64, to: i64) -> (r: i64)
    ensures
        r == days_between(from, to),
{
    let d = div_zero((to as i128) - (from as i128), 86400);
    proof {
        lemma_days_fit(to - from);
    }
    d as i64
}

/// Inserts an entry most-first by count, after entries of equal count.
fn insert_by_count(out: &mut Vec<(String, usize)>, e: (String, usize))
    ensures
        final(out)@.map_values(|x: (String, usize)| (x.0@, x.1)) == {
            let r = old(out)@.map_values(|x: (String, usize)| (x.0@, x.1));
            r.insert(count_slot(r, e.1), (e.0@, e.1))
        },
{
    let ghost r = out@.map_values(|x: (String, usize)| (x.0@, x.1));
    proof {
        lemma_first_where(r, |x: (Seq<char>, usize)| x.1 < e.1);
    }
    let mut j: usize = 0;
    while j < out.len() && out[j].1 >= e.1
        invariant
            j <= out@.len(),
            r == out@.map_values(|x: (String, usize)| (x.0@, x.1)),
            forall|m: int| 0 <= m < j ==> (#[trigger] r[m]).1 >= e.1,
        decreases out@.len() - j,
    {
        assert(r[j as int].1 == out@[j as int].1);
        j = j + 1;
    }
    assert(j < r.len() ==> r[j as int].1 == out@[j as int].1);
    assert(j == count_slot(r, e.1));
    let ghost ev = (e.0@, e.1);
    out.insert(j, e);
    assert(out@.map_values(|x: (String, usize)| (x.0@, x.1)) =~= r.insert(j as int, ev));
}

/// Inserts a stale input stalest-first, after inputs equally stale.
fn insert_by_staleness(out: &mut Vec<StaleInput>, e: StaleInput)
    ensures
        final(out)@.map_values(|x: StaleInput| x@) == {
            let r = old(out)@.map_values(|x: StaleInput| x@);
            r.insert(stale_slot(r, e.days_stale), e@)
        },
{
    let ghost r = out@.map_values(|x: StaleInput| x@);
    proof {
        lemma_first_where(r, |x: StaleView| x.days_stale < e.days_stale);
    }
    let mut j: usize = 0;
    while j < out.len() && out[j].days_stale >= e.days_stale
        invariant
            j <= out@.len(),
            r == out@.map_values(|x: StaleInput| x@),
            forall|m: int| 0 <= m < j ==> (#[trigger] r[m]).days_stale >= e.days_stale,
        decreases out@.len() - j,
    {
        assert(r[j as int].days_stale == out@[j as int].days_stale);
        j = j + 1;
    }
    assert(j < r.len() ==> r[j as int].days_stale == out@[j as int].days_stale);
    assert(j == stale_slot(r, e.days_stale));
    let ghost ev = e@;
    out.insert(j, e);
    assert(out@.map_values(|x: StaleInput| x@) =~= r.insert(j as int, ev));
}

/// Counts in descending order.
pub open spec fn count_descending(s: Seq<(Seq<char>, usize)>) -> bool {
    forall|i: int, j: int| 0 <= i < j < s.len() ==> s[i].1 >= s[j].1
}

/// Staleness in descending order.
pub open spec fn staleness_descending(s: Seq<StaleView>) -> bool {
    forall|i: int, j: int| 0 <= i < j < s.len() ==> s[i].days_stale >= s[j].days_stale
}

proof fn lemma_count_slot_keeps_order(r: Seq<(Seq<char>, usize)>, e: (Seq<char>, usize))
    requires
        count_descending(r),
    ensures
        count_descending(r.insert(count_slot(r, e.1), e)),
        0 <= count_slot(r, e.1) <= r.len(),
{
    let p = |x: (Seq<char>, usize)| x.1 < e.1;
    lemma_first_where(r, p);
    let k = count_slot(r, e.1);
    let s = r.insert(k, e);
    assert forall|i: int, j: int| 0 <= i < j < s.len() implies s[i].1 >= s[j].1 by {
        if j < k {
            assert(s[i] == r[i] && s[j] == r[j]);
        } else if j == k {
            assert(s[i] == r[i]);
            assert(!p(r[i]));
        } else if i == k {
            assert(s[j] == r[j - 1]);
            assert(r[k].1 < e.1);
        } else if i < k {
            assert(s[i] == r[i] && s[j] == r[j - 1]);
        } else {
            assert(s[i] == r[i - 1] && s[j] == r[j - 1]);
        }
    }
}

proof fn lemma_by_count_ordered(s: Seq<(Seq<char>, usize)>)
    ensures
        count_descending(by_count(s)),
        by_count(s).len() == s.len(),
    decreases s.len(),
{
    if s.len() > 0 {
        lemma_by_count_ordered(s.drop_last());
        lemma_count_slot_keeps_order(by_count(s.drop_last()), s.last());
    }
}

proof fn lemma_stale_slot_keeps_order(r: Seq<StaleView>, e: StaleView)
    requires
        staleness_descending(r),
    ensures
        staleness_descending(r.insert(stale_slot(r, e.days_stale), e)),
        0 <= stale_slot(r, e.days_stale) <= r.len(),
{
    let p = |x: StaleView| x.days_stale < e.days_stale;
    lemma_first_where(r, p);
    let k = stale_slot(r, e.days_stale);
    let s = r.insert(k, e);
    assert forall|i: int, j: int| 0 <= i < j < s.len() implies s[i].days_stale >= s[j].days_stale by {
        if j < k {
            assert(s[i] == r[i] && s[j] == r[j]);
        } else if j == k {
            assert(s[i] == r[i]);
            assert(!p(r[i]));
        } else if i == k {
            assert(s[j] == r[j - 1]);
            assert(r[k].days_stale < e.days_stale);
        } else if i < k {
            assert(s[i] == r[i] && s[j] == r[j - 1]);
        } else {
            assert(s[i] == r[i - 1] && s[j] == r[j - 1]);
        }
    }
}

/// Every entry of a staleness ordering is beyond a bound when every entry
/// it orders is.
proof fn lemma_by_staleness(s: Seq<StaleView>, threshold: i64)
    requires
        forall|i: int| 0 <= i < s.len() ==> #[trigger] s[i].days_stale > threshold,
    ensures
        staleness_descending(by_staleness(s)),
        by_staleness(s).len() == s.len(),
        forall|i: int| 0 <= i < by_staleness(s).len() ==> #[trigger] by_staleness(s)[i].days_stale > threshold,
    decreases s.len(),
{
    if s.len() > 0 {
        let r = by_staleness(s.drop_last());
        lemma_by_staleness(s.drop_last(), threshold);
        lemma_stale_slot_keeps_order(r, s.last());
        let k = stale_slot(r, s.last().days_stale);
        assert forall|i: int| 0 <= i < r.insert(k, s.last()).len() implies #[trigger] r.insert(k, s.last())[i].days_stale > threshold by {
            if i < k {
                assert(r.insert(k, s.last())[i] == r[i]);
            } else if i > k {
                assert(r.insert(k, s.last())[i] == r[i - 1]);
            }
        }
    }
}

proof fn lemma_stale_found_beyond(stats: Seq<(Seq<char>, StatsView)>, now: i64, threshold: i64)
    ensures
        forall|i: int|
            0 <= i < stale_found(stats, now, threshold).len() ==> #[trigger] stale_found(
                stats,
                now,
                threshold,
            )[i].days_stale > threshold,
    decreases stats.len(),
{
    if stats.len() > 0 {
        lemma_stale_found_beyond(stats.drop_last(), now, threshold);
        match stale_of(stats.last().0, stats.last().1, now, threshold) {
            Some(x) => {
                let r = stale_found(stats.drop_last(), now, threshold);
                assert forall|i: int| 0 <= i < r.push(x).len() implies #[trigger] r.push(x)[i].days_stale > threshold by {
                    if i < r.len() {
                        assert(r.push(x)[i] == r[i]);
                    }
                }
            },
            None => {},
        }
    }
}

/// The most updated inputs are at most ten, most updated first.
pub proof fn lemma_most_updated_ordered(stats: Seq<(Seq<char>, StatsView)>)
    ensures
        most_updated(stats).len() <= 10,
        count_descending(most_updated(stats)),
{
    lemma_by_count_ordered(update_counts(stats));
}

/// The stale inputs are those beyond the threshold, stalest first.
pub proof fn lemma_stale_ordered(stats: Seq<(Seq<char>, StatsView)>, now: i64, threshold: i64)
    ensures
        staleness_descending(by_staleness(stale_found(stats, now, threshold))),
        forall|i: int|
            0 <= i < by_staleness(stale_found(stats, now, threshold)).len() ==> #[trigger] by_staleness(
                stale_found(stats, now, threshold),
            )[i].days_stale > threshold,
{
    lemma_stale_found_beyond(stats, now, threshold);
    lemma_by_staleness(stale_found(stats, now, threshold), threshold);
}

/// The decimal text of an integer.
pub open spec fn int_text(i: int) -> Seq<char> {
    if i < 0 {
        "-"@ + text::decimal_digits((-i) as nat)
    } else {
        text::decimal_digits(i as nat)
    }
}

/// The names of the first three stale inputs.
pub open spec fn first_stale_names(s: Seq<StaleInput>) -> Seq<Seq<char>> {
    (if s.len() > 3 {
        s.take(3)
    } else {
        s
    }).map_values(|x: StaleInput| x.name@)
}

/// The advice about stale inputs.
pub open spec fn stale_advice(s: Seq<StaleInput>) -> Seq<char> {
    "⚠️  "@ + text::decimal_digits(s.len()) + " inputs haven't been updated in over "@ + int_text(
        s[0].days_stale as int,
    ) + " days. Consider running 'nix flake update' for: "@ + text::join_with(first_stale_names(s), ", "@)
}

/// Fewer than one commit a month.
pub open spec fn infrequent(r: CommitRate) -> bool {
    r.span_days <= 0 || 30 * r.commits < r.span_days
}

/// More than ten commits a month.
pub open spec fn very_frequent(r: CommitRate) -> bool {
    r.span_days > 0 && 30 * r.commits > 10 * r.span_days
}

/// The advice for an analysis: about stale inputs when there are any, about
/// how often the lock changes when that is under one or over ten commits a
/// month, and praise when more than half the commits are batch updates.
pub open spec fn advice(a: FlakeLockAnalysis) -> Seq<Seq<char>> {
    (if a.stale_inputs@.len() > 0 {
        seq![stale_advice(a.stale_inputs@)]
    } else {
        Seq::empty()
    }) + (if infrequent(a.update_patterns.commit_rate) {
        seq![
            "📊 Updates are infrequent (less than once per month). Consider setting up automated dependency updates."@,
        ]
    } else if very_frequent(a.update_patterns.commit_rate) {
        seq!["📊 Very frequent updates detected. Consider batching updates to reduce churn."@]
    } else {
        Seq::empty()
    }) + (if a.update_patterns.batch_updates@.len() > a.total_commits / 2 {
        seq!["✅ Good practice: Most updates are batched together, reducing the number of commits."@]
    } else {
        Seq::empty()
    })
}

/// The decimal text of an integer.
fn int_chars(i: i64) -> (r: Vec<char>)
    ensures
        r@ == int_text(i as int),
{
    if i < 0 {
        let mut v: Vec<char> = Vec::new();
        v.push('-');
        let d = text::decimal((-(i as i128)) as u64);
        text::append_chars(&mut v, d.as_slice());
        assert(v@ =~= seq!['-'] + d@);
        proof {
            reveal_strlit("-");
        }
        v
    } else {
        text::decimal(i as u64)
    }
}

/// Tracks the history of `flake.lock`.
pub struct FlakeLockTracker {
    commits: Vec<FlakeLockCommit>,
    input_update_stats: NameMap<InputUpdateStats>,
    config: TrackerConfig,
    parse_errors: Vec<ParseError>,
    stats: TrackerStats,
}

impl FlakeLockTracker {
    /// The commits, oldest first.
    pub closed spec fn commit_list(&self) -> Seq<FlakeLockCommit> {
        self.commits@
    }

    /// The update record of each input, in the order inputs first appeared.
    pub closed spec fn input_stats(&self) -> Seq<(Seq<char>, StatsView)> {
        crate::named::map_values_of(self.input_update_stats.model(), |x: InputUpdateStats| x@)
    }

    /// The configuration.
    pub closed spec fn tracker_config(&self) -> TrackerConfig {
        self.config
    }

    /// The counts of work done.
    pub closed spec fn counts(&self) -> TrackerStats {
        self.stats
    }

    /// The failures kept.
    pub closed spec fn errors(&self) -> Seq<ParseError> {
        self.parse_errors@
    }

    /// Reads a locked entry, counting it under a handler of its type.
    fn parse_locked_input(&mut self, name: &String, locked: &LockedFields) -> (r: Result<
        GitFlakeInput,
        NixDomainError,
    >)
        ensures
            r matches Ok(i) && i@ == tracked_input(name@, *locked),
            final(self).commits == old(self).commits,
            final(self).input_update_stats == old(self).input_update_stats,
            final(self).config == old(self).config,
            final(self).parse_errors == old(self).parse_errors,
            final(self).stats == (TrackerStats {
                custom_handlers_used: sat_add(
                    old(self).stats.custom_handlers_used,
                    if lookup(old(self).config.custom_handlers.model(), input_kind(*locked)) is Some {
                        1nat
                    } else {
                        0nat
                    },
                ),
                ..old(self).stats
            }),
    {
        let has_handler = match &locked.input_type {
            Some(t) => self.config.custom_handlers.contains_key(t.as_str()),
            None => self.config.custom_handlers.contains_key("unknown"),
        };
        if has_handler {
            self.stats.custom_handlers_used = sat_inc(self.stats.custom_handlers_used);
        }
        Ok(read_input(name, locked))
    }

    /// Reads the inputs of a lock, counting what it reads.
    fn parse_inputs_from_lock(&mut self, nodes: &Vec<(String, Option<LockedFields>)>) -> (r: NameMap<
        GitFlakeInput,
    >)
        ensures
            input_views(r) == lock_inputs(node_views(nodes@), old(self).config.normalize_input_names),
            final(self).commits == old(self).commits,
            final(self).input_update_stats == old(self).input_update_stats,
            final(self).config == old(self).config,
            final(self).parse_errors == old(self).parse_errors,
            final(self).stats == counted(
                old(self).stats,
                lock_counts(
                    node_views(nodes@),
                    old(self).config.normalize_input_names,
                    old(self).config.custom_handlers.model(),
                ),
            ),
    {
        let ghost nv = node_views(nodes@);
        let ghost normalize = self.config.normalize_input_names;
        let ghost handlers = self.config.custom_handlers.model();
        let mut inputs: NameMap<GitFlakeInput> = NameMap::new();
        let mut i: usize = 0;
        assert(nv.take(0) =~= Seq::<(Seq<char>, Option<LockedFields>)>::empty());
        assert(input_views(inputs) =~= Seq::<(Seq<char>, InputView)>::empty());
        while i < nodes.len()
            invariant
                i <= nodes@.len(),
                nv == node_views(nodes@),
                normalize == self.config.normalize_input_names,
                handlers == self.config.custom_handlers.model(),
                input_views(inputs) == lock_inputs(nv.take(i as int), normalize),
                self.stats == counted(old(self).stats, lock_counts(nv.take(i as int), normalize, handlers)),
                self.commits == old(self).commits,
                self.input_update_stats == old(self).input_update_stats,
                self.config == old(self).config,
                self.parse_errors == old(self).parse_errors,
            decreases nodes@.len() - i,
        {
            let (name, node) = &nodes[i];
            proof {
                assert(nv.take(i + 1).drop_last() =~= nv.take(i as int));
                assert(nv.take(i + 1).last() == (name@, *node));
            }
            if !same_text(name, "root") {
                let normalized = record_name(name, self.config.normalize_input_names);
                if self.config.normalize_input_names {
                    self.stats.normalizations_applied = sat_inc(self.stats.normalizations_applied);
                }
                match node {
                    Some(locked) => {
                        match self.parse_locked_input(&normalized, locked) {
                            Ok(input) => {
                                self.stats.inputs_parsed = sat_inc(self.stats.inputs_parsed);
                                let ghost before = inputs;
                                inputs.insert(normalized, input);
                                proof {
                                    crate::named::lemma_insert_map(
                                        before.model(),
                                        |x: GitFlakeInput| x@,
                                        normalized@,
                                        input,
                                    );
                                }
                            },
                            Err(e) => {},
                        }
                    },
                    None => {},
                }
            }
            i = i + 1;
        }
        assert(nv.take(nv.len() as int) =~= nv);
        inputs
    }

    /// Sorts the commits by time and builds the record of each input.
    fn build_statistics(&mut self)
        requires
            old(self).input_update_stats.model().len() == 0,
        ensures
            final(self).commits@ == by_time(old(self).commits@),
            stats_views(final(self).input_update_stats) == tracked_stats(
                by_time(old(self).commits@),
                old(self).config.normalize_input_names,
            ),
            final(self).config == old(self).config,
            final(self).parse_errors == old(self).parse_errors,
            final(self).stats == counted(
                old(self).stats,
                history_counts(
                    by_time(old(self).commits@),
                    old(self).config.normalize_input_names,
                    old(self).config.custom_handlers.model(),
                ),
            ),
    {
        let mut commits: Vec<FlakeLockCommit> = Vec::new();
        std::mem::swap(&mut commits, &mut self.commits);
        let sorted = sort_by_time(commits);
        let ghost normalize = self.config.normalize_input_names;
        let ghost handlers = self.config.custom_handlers.model();
        let ghost stats0 = self.stats;
        let mut prev: Option<NameMap<GitFlakeInput>> = None;
        let mut i: usize = 0;
        assert(sorted@.take(0) =~= Seq::<FlakeLockCommit>::empty());
        assert(stats_views(self.input_update_stats) =~= Seq::<(Seq<char>, StatsView)>::empty());
        while i < sorted.len()
            invariant
                i <= sorted@.len(),
                normalize == self.config.normalize_input_names,
                handlers == self.config.custom_handlers.model(),
                self.config == old(self).config,
                self.parse_errors == old(self).parse_errors,
                stats0 == old(self).stats,
                stats_views(self.input_update_stats) == history_stats(sorted@.take(i as int), normalize),
                self.stats == counted(stats0, history_counts(sorted@.take(i as int), normalize, handlers)),
                i == 0 <==> prev is None,
                prev matches Some(p) ==> input_views(p) == commit_inputs(sorted@[i - 1], normalize),
            decreases sorted@.len() - i,
        {
            let ghost t = sorted@.take(i + 1);
            proof {
                assert(t.drop_last() =~= sorted@.take(i as int));
                assert(t.last() == sorted@[i as int]);
                if i > 0 {
                    assert(t[t.len() - 2] == sorted@[i - 1]);
                }
            }
            let ghost counts_before = self.stats;
            let current = self.parse_inputs_from_lock(&sorted[i].lock_content);
            proof {
                lemma_counted(
                    stats0,
                    history_counts(sorted@.take(i as int), normalize, handlers),
                    lock_counts(node_views(sorted@[i as int].lock_content@), normalize, handlers),
                );
            }
            let ghost cv = input_views(current);
            let ghost stats_now = self.stats;
            let ghost base = stats_views(self.input_update_stats);
            let ts = sorted[i].timestamp;
            let mut k: usize = 0;
            assert(cv.take(0) =~= Seq::<(Seq<char>, InputView)>::empty());
            match &prev {
                Some(p) => {
                    while k < current.len()
                        invariant
                            k <= cv.len(),
                            cv == input_views(current),
                            i < sorted@.len(),
                            self.config == old(self).config,
                            self.parse_errors == old(self).parse_errors,
                            self.stats == stats_now,
                            stats_views(self.input_update_stats) == record_inputs(
                                base,
                                input_views(*p),
                                ts,
                                sorted@[i as int].commit@,
                                cv.take(k as int),
                            ),
                        decreases cv.len() - k,
                    {
                        proof {
                            assert(cv.take(k + 1).drop_last() =~= cv.take(k as int));
                        }
                        record_one(
                            &mut self.input_update_stats,
                            p,
                            ts,
                            &sorted[i].commit,
                            current.name_at(k),
                            current.value_at(k),
                        );
                        k = k + 1;
                    }
                },
                None => {
                    while k < current.len()
                        invariant
                            k <= cv.len(),
                            cv == input_views(current),
                            i < sorted@.len(),
                            self.config == old(self).config,
                            self.parse_errors == old(self).parse_errors,
                            self.stats == stats_now,
                            stats_views(self.input_update_stats) == first_records(
                                base,
                                ts,
                                sorted@[i as int].commit@,
                                cv.take(k as int),
                            ),
                        decreases cv.len() - k,
                    {
                        proof {
                            assert(cv.take(k + 1).drop_last() =~= cv.take(k as int));
                        }
                        record_first(
                            &mut self.input_update_stats,
                            ts,
                            &sorted[i].commit,
                            current.name_at(k),
                            current.value_at(k),
                        );
                        k = k + 1;
                    }
                },
            }
            assert(cv.take(cv.len() as int) =~= cv);
            prev = Some(current);
            i = i + 1;
        }
        assert(sorted@.take(sorted@.len() as int) =~= sorted@);
        let ghost h = stats_views(self.input_update_stats);
        let ghost stats_end = self.stats;
        let mut k: usize = 0;
        while k < self.input_update_stats.len()
            invariant
                k <= h.len(),
                stats_views(self.input_update_stats).len() == h.len(),
                forall|j: int| 0 <= j < k ==> #[trigger] stats_views(self.input_update_stats)[j] == (h[j].0, with_interval(h[j].1)),
                forall|j: int| k <= j < h.len() ==> #[trigger] stats_views(self.input_update_stats)[j] == h[j],
                self.config == old(self).config,
                self.parse_errors == old(self).parse_errors,
                self.stats == stats_end,
            decreases h.len() - k,
        {
            let v = self.input_update_stats.value_at(k);
            let n = v.updates.len();
            if n > 1 {
                let total = (v.updates[n - 1].timestamp as i128) - (v.updates[0].timestamp as i128);
                let avg = clamp(div_zero(total, (n - 1) as i128));
                let mut c = copy_stats(v);
                c.avg_update_interval = Some(avg);
                proof {
                    assert(stats_views(self.input_update_stats)[k as int] == h[k as int]);
                    assert(v@ == h[k as int].1);
                    assert(v@.updates[0].timestamp == v.updates@[0].timestamp);
                    assert(v@.updates.last().timestamp == v.updates@[n - 1].timestamp);
                    assert(c@ == with_interval(h[k as int].1));
                }
                let ghost before = stats_views(self.input_update_stats);
                self.input_update_stats.set_value_at(k, c);
                proof {
                    assert(stats_views(self.input_update_stats) =~= before.update(k as int, (h[k as int].0, with_interval(h[k as int].1))));
                }
            }
            k = k + 1;
        }
        assert(stats_views(self.input_update_stats) =~= map_values_of(h, |v: StatsView| with_interval(v)));
        self.commits = sorted;
    }

    /// A tracker over a history, with the default configuration.
    pub fn new(commits: Vec<FlakeLockCommit>) -> (r: Self)
        ensures
            r.commit_list() == by_time(commits@),
            r.input_stats() == tracked_stats(by_time(commits@), true),
            r.counts() == counted(
                TrackerStats {
                    inputs_parsed: 0,
                    errors_encountered: 0,
                    normalizations_applied: 0,
                    custom_handlers_used: 0,
                },
                history_counts(by_time(commits@), true, Seq::empty()),
            ),
            r.errors().len() == 0,
            r.tracker_config().normalize_input_names,
            !r.tracker_config().track_parse_errors,
            r.tracker_config().batch_threshold == 3600,
            r.tracker_config().custom_handlers.model().len() == 0,
    {
        let config = TrackerConfig::default();
        assert(config.custom_handlers.model() =~= Seq::<(Seq<char>, InputHandler)>::empty());
        Self::with_config(commits, config)
    }

    /// A tracker over a history.
    pub fn with_config(commits: Vec<FlakeLockCommit>, config: TrackerConfig) -> (r: Self)
        ensures
            r.commit_list() == by_time(commits@),
            r.input_stats() == tracked_stats(by_time(commits@), config.normalize_input_names),
            r.counts() == counted(
                TrackerStats {
                    inputs_parsed: 0,
                    errors_encountered: 0,
                    normalizations_applied: 0,
                    custom_handlers_used: 0,
                },
                history_counts(by_time(commits@), config.normalize_input_names, config.custom_handlers.model()),
            ),
            r.errors().len() == 0,
            r.tracker_config() == config,
    {
        let mut tracker = FlakeLockTracker {
            commits,
            input_update_stats: NameMap::new(),
            config,
            parse_errors: Vec::new(),
            stats: TrackerStats {
                inputs_parsed: 0,
                errors_encountered: 0,
                normalizations_applied: 0,
                custom_handlers_used: 0,
            },
        };
        tracker.build_statistics();
        tracker
    }

    /// The counts of inputs read, failures, names normalized and inputs
    /// with a handler.
    pub fn get_stats(&self) -> (r: (usize, usize, usize, usize))
        ensures
            r == (
                self.counts().inputs_parsed,
                self.counts().errors_encountered,
                self.counts().normalizations_applied,
                self.counts().custom_handlers_used,
            ),
    {
        (
            self.stats.inputs_parsed,
            self.stats.errors_encountered,
            self.stats.normalizations_applied,
            self.stats.custom_handlers_used,
        )
    }

    /// The failures kept, when they are tracked.
    pub fn get_parse_errors(&self) -> (r: Option<&[ParseError]>)
        ensures
            match r {
                Some(e) => self.tracker_config().track_parse_errors && e@ == self.errors(),
                None => !self.tracker_config().track_parse_errors,
            },
    {
        if self.config.track_parse_errors {
            Some(self.parse_errors.as_slice())
        } else {
            None
        }
    }

    /// The batch updates of the history.
    fn detect_batch_updates(&self) -> (r: Vec<BatchUpdate>)
        ensures
            r@.map_values(|b: BatchUpdate| b@) == batches(
                self.commit_list(),
                self.commit_list().len() as int,
                self.tracker_config().normalize_input_names,
            ),
    {
        let ghost cs = self.commits@;
        let ghost normalize = self.config.normalize_input_names;
        let mut out: Vec<BatchUpdate> = Vec::new();
        let mut i: usize = 1;
        assert(out@.map_values(|b: BatchUpdate| b@) =~= Seq::<BatchView>::empty());
        if self.commits.len() == 0 {
            return out;
        }
        while i < self.commits.len()
            invariant
                1 <= i <= cs.len(),
                cs == self.commits@,
                normalize == self.config.normalize_input_names,
                out@.map_values(|b: BatchUpdate| b@) == batches(cs, i as int, normalize),
            decreases cs.len() - i,
        {
            let prev = self.parse_inputs_from_lock_readonly(&self.commits[i - 1].lock_content);
            let cur = self.parse_inputs_from_lock_readonly(&self.commits[i].lock_content);
            let names = changed_input_names(&prev, &cur);
            let ghost before = out@.map_values(|b: BatchUpdate| b@);
            if names.len() > 1 {
                let n = names.len();
                let b = BatchUpdate {
                    commit: self.commits[i].commit.clone(),
                    timestamp: self.commits[i].timestamp,
                    inputs_updated: n,
                    input_names: names,
                };
                out.push(b);
                assert(out@.map_values(|b: BatchUpdate| b@) =~= before.push(b@));
            }
            i = i + 1;
        }
        out
    }

    /// The update patterns of the history.
    fn analyze_update_patterns(&self) -> (r: UpdatePatterns)
        ensures
            patterns_of(
                r,
                self.commit_list(),
                self.tracker_config().normalize_input_names,
            ),
    {
        let n = self.commits.len();
        let span_days = if n > 0 {
            days_from(self.commits[0].timestamp, self.commits[n - 1].timestamp)
        } else {
            0
        };
        let days = day_counts(&self.commits);
        let hours = hour_counts(&self.commits);
        let day = last_max_index(&days, 7);
        let hour = last_max_index(&hours, 24);
        proof {
            assert(Seq::new(days@.len(), |i: int| days@[i] as nat) =~= day_counts_of(self.commits@));
            assert(Seq::new(hours@.len(), |i: int| hours@[i] as nat) =~= hour_counts_of(self.commits@));
        }
        UpdatePatterns {
            commit_rate: CommitRate { commits: n, span_days },
            most_active_day: Some(day as u32),
            most_active_hour: Some(hour as u32),
            batch_updates: self.detect_batch_updates(),
        }
    }

    /// The analysis of the history at time `now` (seconds since the epoch):
    /// inputs unchanged for more than `stale_threshold_days` whole days are
    /// stale.
    pub fn analyze_at(&self, now: i64, stale_threshold_days: i64) -> (r: FlakeLockAnalysis)
        ensures
            r.total_commits == self.commit_list().len(),
            r.time_span == (if self.commit_list().len() >= 2 {
                Some(clamp_i64(self.commit_list().last().timestamp - self.commit_list()[0].timestamp))
            } else {
                None
            }),
            r.most_updated_inputs@.map_values(|e: (String, usize)| (e.0@, e.1)) == most_updated(
                self.input_stats(),
            ),
            r.stale_inputs@.map_values(|x: StaleInput| x@) == by_staleness(
                stale_found(self.input_stats(), now, stale_threshold_days),
            ),
            patterns_of(
                r.update_patterns,
                self.commit_list(),
                self.tracker_config().normalize_input_names,
            ),
    {
        let n = self.commits.len();
        let time_span = if n >= 2 {
            Some(clamp((self.commits[n - 1].timestamp as i128) - (self.commits[0].timestamp as i128)))
        } else {
            None
        };
        let ghost st = self.input_stats();
        let ghost counts = update_counts(st);
        let mut ranked: Vec<(String, usize)> = Vec::new();
        let mut stale: Vec<StaleInput> = Vec::new();
        let mut k: usize = 0;
        assert(counts.take(0) =~= Seq::<(Seq<char>, usize)>::empty());
        assert(st.take(0) =~= Seq::<(Seq<char>, StatsView)>::empty());
        assert(ranked@.map_values(|x: (String, usize)| (x.0@, x.1)) =~= Seq::<(Seq<char>, usize)>::empty());
        assert(stale@.map_values(|x: StaleInput| x@) =~= Seq::<StaleView>::empty());
        while k < self.input_update_stats.len()
            invariant
                k <= st.len(),
                st == self.input_stats(),
                counts == update_counts(st),
                ranked@.map_values(|x: (String, usize)| (x.0@, x.1)) == by_count(counts.take(k as int)),
                stale@.map_values(|x: StaleInput| x@) == by_staleness(
                    stale_found(st.take(k as int), now, stale_threshold_days),
                ),
            decreases st.len() - k,
        {
            proof {
                assert(counts.take(k + 1).drop_last() =~= counts.take(k as int));
                assert(st.take(k + 1).drop_last() =~= st.take(k as int));
            }
            let name = self.input_update_stats.name_at(k);
            let v = self.input_update_stats.value_at(k);
            proof {
                assert(st[k as int] == (name@, v@));
                assert(st.take(k + 1).last() == st[k as int]);
                assert(counts.take(k + 1).last() == (name@, v.update_count));
            }
            insert_by_count(&mut ranked, (name.clone(), v.update_count));
            match v.last_updated {
                Some(t) => {
                    let days = days_from(t, now);
                    if days > stale_threshold_days {
                        let nu = v.updates.len();
                        let current_hash = if nu > 0 {
                            copy_opt(&v.updates[nu - 1].to_hash)
                        } else {
                            None
                        };
                        let x = StaleInput { name: name.clone(), last_updated: t, days_stale: days, current_hash };
                        proof {
                            if nu > 0 {
                                assert(v@.updates.last() == v.updates@[nu - 1]@);
                            }
                            assert(stale_of(name@, v@, now, stale_threshold_days) == Some(x@));
                            let q = stale_found(st.take(k as int), now, stale_threshold_days);
                            assert(q.push(x@).drop_last() =~= q);
                        }
                        insert_by_staleness(&mut stale, x);
                    }
                },
                None => {},
            }
            k = k + 1;
        }
        assert(counts.take(counts.len() as int) =~= counts);
        assert(st.take(st.len() as int) =~= st);
        let mut most: Vec<(String, usize)> = Vec::new();
        let mut j: usize = 0;
        while j < ranked.len() && j < 10
            invariant
                j <= ranked@.len(),
                j <= 10,
                most@.len() == j,
                forall|m: int| 0 <= m < j ==> (#[trigger] most@[m]).0@ == ranked@[m].0@ && most@[m].1 == ranked@[m].1,
            decreases ranked@.len() - j,
        {
            most.push((ranked[j].0.clone(), ranked[j].1));
            j = j + 1;
        }
        proof {
            let rv = ranked@.map_values(|x: (String, usize)| (x.0@, x.1));
            if rv.len() > 10 {
                assert(most@.map_values(|x: (String, usize)| (x.0@, x.1)) =~= rv.take(10));
            } else {
                assert(most@.map_values(|x: (String, usize)| (x.0@, x.1)) =~= rv);
            }
        }
        FlakeLockAnalysis {
            total_commits: n,
            time_span,
            most_updated_inputs: most,
            stale_inputs: stale,
            update_patterns: self.analyze_update_patterns(),
        }
    }

    /// The analysis of the history now.
    pub fn analyze(&self, stale_threshold_days: i64) -> (r: FlakeLockAnalysis)
        ensures
            r.total_commits == self.commit_list().len(),
            r.most_updated_inputs@.map_values(|e: (String, usize)| (e.0@, e.1)) == most_updated(
                self.input_stats(),
            ),
            exists|now: i64|
                r.stale_inputs@.map_values(|x: StaleInput| x@) == by_staleness(
                    stale_found(self.input_stats(), now, stale_threshold_days),
                ),
            patterns_of(
                r.update_patterns,
                self.commit_list(),
                self.tracker_config().normalize_input_names,
            ),
    {
        let now = now_seconds();
        self.analyze_at(now, stale_threshold_days)
    }

    /// Advice drawn from an analysis.
    pub fn get_recommendations(&self, analysis: &FlakeLockAnalysis) -> (r: Vec<String>)
        ensures
            r@.map_values(|m: String| m@) == advice(*analysis),
    {
        let mut out: Vec<String> = Vec::new();
        let ghost a = *analysis;
        if analysis.stale_inputs.len() > 0 {
            let mut m = text::chars_of("⚠️  ");
            let count = text::decimal(analysis.stale_inputs.len() as u64);
            text::append_chars(&mut m, count.as_slice());
            text::append_str(&mut m, " inputs haven't been updated in over ");
            let days = int_chars(analysis.stale_inputs[0].days_stale);
            text::append_chars(&mut m, days.as_slice());
            text::append_str(&mut m, " days. Consider running 'nix flake update' for: ");
            let mut names: Vec<Vec<char>> = Vec::new();
            let mut k: usize = 0;
            while k < analysis.stale_inputs.len() && k < 3
                invariant
                    k <= analysis.stale_inputs@.len(),
                    k <= 3,
                    names@.len() == k,
                    forall|j: int| 0 <= j < k ==> (#[trigger] names@[j])@ == analysis.stale_inputs@[j].name@,
                decreases analysis.stale_inputs@.len() - k,
            {
                names.push(text::chars_of(analysis.stale_inputs[k].name.as_str()));
                k = k + 1;
            }
            assert(text::views(names@) =~= first_stale_names(analysis.stale_inputs@));
            let joined = text::join_str(names.as_slice(), ", ");
            text::append_chars(&mut m, joined.as_slice());
            out.push(text::string_of(m.as_slice()));
        }
        let ghost s1 = out@.map_values(|m: String| m@);
        assert(s1 =~= (if a.stale_inputs@.len() > 0 {
            seq![stale_advice(a.stale_inputs@)]
        } else {
            Seq::empty()
        }));
        let rate = analysis.update_patterns.commit_rate;
        let thirty = (rate.commits as u128) * 30;
        if rate.span_days <= 0 || thirty < (rate.span_days as u128) {
            out.push(
                text::string_from(
                    "📊 Updates are infrequent (less than once per month). Consider setting up automated dependency updates.",
                ),
            );
        } else if thirty > (rate.span_days as u128) * 10 {
            out.push(text::string_from("📊 Very frequent updates detected. Consider batching updates to reduce churn."));
        }
        let ghost s2 = out@.map_values(|m: String| m@);
        assert(s2 =~= s1 + (if infrequent(a.update_patterns.commit_rate) {
            seq![
                "📊 Updates are infrequent (less than once per month). Consider setting up automated dependency updates."@,
            ]
        } else if very_frequent(a.update_patterns.commit_rate) {
            seq!["📊 Very frequent updates detected. Consider batching updates to reduce churn."@]
        } else {
            Seq::empty()
        }));
        if analysis.update_patterns.batch_updates.len() > analysis.total_commits / 2 {
            out.push(
                text::string_from("✅ Good practice: Most updates are batched together, reducing the number of commits."),
            );
        }
        assert(out@.map_values(|m: String| m@) =~= advice(a));
        out
    }

    /// Reads a locked entry without counting.
    fn parse_locked_input_readonly(&self, name: &String, locked: &LockedFields) -> (r: Result<
        GitFlakeInput,
        NixDomainError,
    >)
        ensures
            r matches Ok(i) && i@ == tracked_input(name@, *locked),
    {
        Ok(read_input(name, locked))
    }

    /// Reads the inputs of a lock without counting.
    fn parse_inputs_from_lock_readonly(&self, nodes: &Vec<(String, Option<LockedFields>)>) -> (r: NameMap<
        GitFlakeInput,
    >)
        ensures
            input_views(r) == lock_inputs(node_views(nodes@), self.config.normalize_input_names),
    {
        let ghost nv = node_views(nodes@);
        let ghost normalize = self.config.normalize_input_names;
        let mut inputs: NameMap<GitFlakeInput> = NameMap::new();
        let mut i: usize = 0;
        assert(nv.take(0) =~= Seq::<(Seq<char>, Option<LockedFields>)>::empty());
        assert(input_views(inputs) =~= Seq::<(Seq<char>, InputView)>::empty());
        while i < nodes.len()
            invariant
                i <= nodes@.len(),
                nv == node_views(nodes@),
                normalize == self.config.normalize_input_names,
                input_views(inputs) == lock_inputs(nv.take(i as int), normalize),
            decreases nodes@.len() - i,
        {
            let (name, node) = &nodes[i];
            proof {
                assert(nv.take(i + 1).drop_last() =~= nv.take(i as int));
                assert(nv.take(i + 1).last() == (name@, *node));
            }
            if !same_text(name, "root") {
                let normalized = record_name(name, self.config.normalize_input_names);
                match node {
                    Some(locked) => {
                        match self.parse_locked_input_readonly(&normalized, locked) {
                            Ok(input) => {
                                let ghost before = inputs;
                                inputs.insert(normalized, input);
                                proof {
                                    crate::named::lemma_insert_map(
                                        before.model(),
                                        |x: GitFlakeInput| x@,
                                        normalized@,
                                        input,
                                    );
                                }
                            },
                            Err(e) => {},
                        }
                    },
                    None => {},
                }
            }
            i = i + 1;
        }
        assert(nv.take(nv.len() as int) =~= nv);
        inputs
    }
}

} // verus!
