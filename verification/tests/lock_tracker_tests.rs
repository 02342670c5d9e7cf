use cim_domain_nix::git::{AuthorInfo, LockedFields};
use cim_domain_nix::lock_tracker::{
    BatchUpdate, CommitRate, FlakeLockAnalysis, FlakeLockCommit, FlakeLockTracker, InputHandler, StaleInput,
    TrackerConfig, UpdatePatterns,
};

const DAY: i64 = 86400;

fn locked(name: &str, rev: &str, ts: i64) -> LockedFields {
    LockedFields {
        input_type: Some("github".to_string()),
        owner: Some("NixOS".to_string()),
        repo: Some(name.to_string()),
        rev: Some(rev.to_string()),
        git_ref: None,
        url: None,
        path: None,
        last_modified: Some(ts),
    }
}

fn create_test_commit(timestamp: i64, inputs: Vec<(&str, &str)>) -> FlakeLockCommit {
    let mut nodes: Vec<(String, Option<LockedFields>)> = inputs
        .into_iter()
        .map(|(name, rev)| (name.to_string(), Some(locked(name, rev, timestamp))))
        .collect();
    // The nodes of a lock file come in the order of their names.
    nodes.sort_by(|a, b| a.0.cmp(&b.0));
    FlakeLockCommit {
        commit: format!("{:0<40}", "abc123"),
        timestamp,
        message: "Update flake.lock".to_string(),
        author: AuthorInfo { name: "Test User".to_string(), email: "test@example.com".to_string() },
        lock_content: nodes,
    }
}

#[test]
fn test_flake_lock_tracker() {
    let now = chrono::Utc::now().timestamp();
    let commits = vec![
        create_test_commit(now - 30 * DAY, vec![("nixpkgs", "abc1")]),
        create_test_commit(now - 20 * DAY, vec![("nixpkgs", "abc2")]),
        create_test_commit(now - 10 * DAY, vec![("nixpkgs", "abc3"), ("flake-utils", "def1")]),
        create_test_commit(now, vec![("nixpkgs", "abc4"), ("flake-utils", "def2")]),
    ];

    let tracker = FlakeLockTracker::new(commits);
    let analysis = tracker.analyze(15);

    assert_eq!(analysis.total_commits, 4);
    assert_eq!(analysis.most_updated_inputs[0].0, "nixpkgs");
    assert_eq!(analysis.most_updated_inputs[0].1, 3);
    assert!(analysis.stale_inputs.is_empty());
    assert_eq!(analysis.update_patterns.batch_updates.len(), 2);
}

#[test]
fn commits_are_read_in_time_order() {
    let t0 = 1_700_000_000;
    // Given newest first, the history is still read oldest first.
    let commits = vec![
        create_test_commit(t0 + 2 * DAY, vec![("nixpkgs", "c")]),
        create_test_commit(t0, vec![("nixpkgs", "a")]),
        create_test_commit(t0 + DAY, vec![("nixpkgs", "b")]),
    ];
    let tracker = FlakeLockTracker::new(commits);
    let analysis = tracker.analyze_at(t0 + 2 * DAY, 30);
    assert_eq!(analysis.time_span, Some(2 * DAY));
    assert_eq!(analysis.most_updated_inputs, vec![("nixpkgs".to_string(), 2)]);
    assert_eq!(analysis.update_patterns.commit_rate, CommitRate { commits: 3, span_days: 2 });
    assert!(analysis.update_patterns.batch_updates.is_empty());
}

#[test]
fn stale_inputs_stalest_first() {
    let t0 = 1_600_000_000;
    let commits = vec![
        create_test_commit(t0, vec![("a", "1"), ("b", "1"), ("c", "1")]),
        create_test_commit(t0 + 10 * DAY, vec![("a", "2"), ("b", "1"), ("c", "1")]),
        create_test_commit(t0 + 20 * DAY, vec![("a", "2"), ("b", "2"), ("c", "1")]),
    ];
    let tracker = FlakeLockTracker::new(commits);
    let analysis = tracker.analyze_at(t0 + 40 * DAY, 25);
    let names: Vec<(String, i64)> =
        analysis.stale_inputs.iter().map(|s| (s.name.clone(), s.days_stale)).collect();
    assert_eq!(names, vec![("c".to_string(), 40), ("a".to_string(), 30)]);
    assert_eq!(analysis.stale_inputs[0].current_hash, Some(format!("{:0<40}", "1")));
    let analysis = tracker.analyze_at(t0 + 40 * DAY, 15);
    let names: Vec<String> = analysis.stale_inputs.iter().map(|s| s.name.clone()).collect();
    assert_eq!(names, vec!["c".to_string(), "a".to_string(), "b".to_string()]);
    let analysis = tracker.analyze_at(t0 + 40 * DAY, 40);
    assert!(analysis.stale_inputs.is_empty());
}

#[test]
fn intervals_and_counts() {
    let t0 = 1_650_000_000;
    let commits = vec![
        create_test_commit(t0, vec![("nixpkgs", "1")]),
        create_test_commit(t0 + 100, vec![("nixpkgs", "2")]),
        create_test_commit(t0 + 301, vec![("nixpkgs", "3")]),
    ];
    let tracker = FlakeLockTracker::new(commits);
    // Three inputs read, three names normalized, no handler.
    assert_eq!(tracker.get_stats(), (3, 0, 3, 0));
    assert!(tracker.get_parse_errors().is_none());
    let analysis = tracker.analyze_at(t0 + 301, 1);
    assert_eq!(analysis.most_updated_inputs, vec![("nixpkgs".to_string(), 2)]);
}

#[test]
fn names_are_normalized_and_handlers_counted() {
    let mut handlers = cim_domain_nix::named::NameMap::new();
    handlers.insert("github".to_string(), InputHandler { name: "gh".to_string(), priority: 1 });
    let config = TrackerConfig {
        track_parse_errors: true,
        normalize_input_names: true,
        custom_handlers: handlers,
        batch_threshold: 3600,
    };
    let t0 = 1_650_000_000;
    let commits = vec![
        create_test_commit(t0, vec![(" NixPkgs ", "1"), ("root", "x")]),
        create_test_commit(t0 + DAY, vec![("nixpkgs", "2")]),
    ];
    let tracker = FlakeLockTracker::with_config(commits, config);
    // `root` is skipped; the rest are read, normalized and handled.
    assert_eq!(tracker.get_stats(), (2, 0, 2, 2));
    assert_eq!(tracker.get_parse_errors().map(|e| e.len()), Some(0));
    let analysis = tracker.analyze_at(t0 + DAY, 10);
    assert_eq!(analysis.most_updated_inputs, vec![("nixpkgs".to_string(), 1)]);
}

#[test]
fn busiest_day_and_hour() {
    // 1970-01-04 was a Sunday; 05:00 and 06:00 that day, and 05:00 on the Monday.
    let sunday = 3 * DAY;
    let commits = vec![
        create_test_commit(sunday + 5 * 3600, vec![("a", "1")]),
        create_test_commit(sunday + 6 * 3600, vec![("a", "2")]),
        create_test_commit(sunday + DAY + 5 * 3600, vec![("a", "3")]),
    ];
    let tracker = FlakeLockTracker::new(commits);
    let patterns = tracker.analyze_at(sunday + 2 * DAY, 100).update_patterns;
    assert_eq!(patterns.most_active_day, Some(0));
    assert_eq!(patterns.most_active_hour, Some(5));
    // With no commit every count is zero and the last day and hour win.
    let empty = FlakeLockTracker::new(vec![]).analyze_at(0, 1).update_patterns;
    assert_eq!(empty.most_active_day, Some(6));
    assert_eq!(empty.most_active_hour, Some(23));
    assert_eq!(empty.commit_rate, CommitRate { commits: 0, span_days: 0 });
}

fn analysis(stale: Vec<StaleInput>, rate: CommitRate, batches: usize, total: usize) -> FlakeLockAnalysis {
    FlakeLockAnalysis {
        total_commits: total,
        time_span: None,
        most_updated_inputs: vec![],
        stale_inputs: stale,
        update_patterns: UpdatePatterns {
            commit_rate: rate,
            most_active_day: None,
            most_active_hour: None,
            batch_updates: (0..batches)
                .map(|_| BatchUpdate { commit: "c".to_string(), timestamp: 0, inputs_updated: 2, input_names: vec![] })
                .collect(),
        },
    }
}

fn stale(name: &str, days: i64) -> StaleInput {
    StaleInput { name: name.to_string(), last_updated: 0, days_stale: days, current_hash: None }
}

#[test]
fn recommendations() {
    let tracker = FlakeLockTracker::new(vec![]);
    let a = analysis(
        vec![stale("a", 90), stale("b", 60), stale("c", 40), stale("d", 31)],
        CommitRate { commits: 2, span_days: 90 },
        2,
        3,
    );
    assert_eq!(
        tracker.get_recommendations(&a),
        vec![
            "⚠️  4 inputs haven't been updated in over 90 days. Consider running 'nix flake update' for: a, b, c"
                .to_string(),
            "📊 Updates are infrequent (less than once per month). Consider setting up automated dependency updates."
                .to_string(),
            "✅ Good practice: Most updates are batched together, reducing the number of commits.".to_string(),
        ]
    );
    let b = analysis(vec![], CommitRate { commits: 11, span_days: 30 }, 1, 4);
    assert_eq!(
        tracker.get_recommendations(&b),
        vec!["📊 Very frequent updates detected. Consider batching updates to reduce churn.".to_string()]
    );
    let c = analysis(vec![], CommitRate { commits: 5, span_days: 30 }, 0, 5);
    assert!(tracker.get_recommendations(&c).is_empty());
    let d = analysis(vec![stale("x", -3)], CommitRate { commits: 0, span_days: 0 }, 0, 0);
    assert_eq!(
        tracker.get_recommendations(&d)[0],
        "⚠️  1 inputs haven't been updated in over -3 days. Consider running 'nix flake update' for: x"
    );
}
