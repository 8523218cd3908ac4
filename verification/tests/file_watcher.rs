use opendev::file_watcher::{
    can_enter, detect_changes, next_level, scan_directory, DirEntry, EntryKind, FileChangeKind,
    FileWatcherConfig, KnownFiles, StopReason, WatchAction, WatchEvent, WatchState,
};
use opendev::glob::glob_matches;
use opendev::strmap::StrMap;
use std::time::Duration;

fn file(dir: &str, name: &str, mtime: i128) -> DirEntry {
    DirEntry {
        name: name.to_string(),
        path: format!("{dir}/{name}"),
        kind: EntryKind::File(Some(mtime)),
    }
}

fn directory(dir: &str, name: &str, entries: Vec<DirEntry>) -> DirEntry {
    DirEntry {
        name: name.to_string(),
        path: format!("{dir}/{name}"),
        kind: EntryKind::Directory(Some(entries)),
    }
}

fn scan(root: Vec<DirEntry>, config: &FileWatcherConfig) -> KnownFiles {
    let mut files: KnownFiles = StrMap::new();
    scan_directory(&Some(root), config, &mut files);
    files
}

#[test]
fn test_scan_directory() {
    let root = vec![
        file("/w", "a.txt", 1),
        file("/w", "b.txt", 2),
        directory("/w", "sub", vec![file("/w/sub", "c.txt", 3)]),
    ];
    let files = scan(root, &FileWatcherConfig::default());

    assert_eq!(files.len(), 3);
    assert!(files.contains_key("/w/a.txt"));
    assert!(files.contains_key("/w/b.txt"));
    assert!(files.contains_key("/w/sub/c.txt"));
    assert_eq!(files.get("/w/sub/c.txt"), Some(&3));
}

#[test]
fn test_scan_ignores_patterns() {
    let root = vec![
        file("/w", "a.txt", 1),
        directory("/w", ".git", vec![file("/w/.git", "config", 1)]),
        directory("/w", "node_modules", vec![file("/w/node_modules", "pkg.js", 1)]),
    ];
    let files = scan(root, &FileWatcherConfig::default());

    assert_eq!(files.len(), 1);
    assert!(files.contains_key("/w/a.txt"));
}

#[test]
fn test_detect_changes_created() {
    let config = FileWatcherConfig::default();
    let mut known: KnownFiles = StrMap::new();

    let changes = detect_changes(&Some(vec![]), &config, &mut known);
    assert!(changes.is_empty());

    let root = Some(vec![file("/w", "new.txt", 1)]);
    let changes = detect_changes(&root, &config, &mut known);
    assert_eq!(changes.len(), 1);
    assert_eq!(changes[0].kind, FileChangeKind::Created);
    assert_eq!(changes[0].path, "/w/new.txt");

    assert!(detect_changes(&root, &config, &mut known).is_empty());
}

#[test]
fn test_detect_changes_deleted() {
    let config = FileWatcherConfig::default();
    let mut known = scan(vec![file("/w", "gone.txt", 1)], &config);

    let changes = detect_changes(&Some(vec![]), &config, &mut known);
    assert_eq!(changes.len(), 1);
    assert_eq!(changes[0].kind, FileChangeKind::Deleted);
    assert!(known.is_empty());
}

#[test]
fn test_detect_changes_modified() {
    let config = FileWatcherConfig::default();
    let mut known = scan(vec![file("/w", "mod.txt", 1)], &config);

    let changes = detect_changes(&Some(vec![file("/w", "mod.txt", 2)]), &config, &mut known);
    assert_eq!(changes.len(), 1);
    assert_eq!(changes[0].kind, FileChangeKind::Modified);
    assert_eq!(known.get("/w/mod.txt"), Some(&2));
}

#[test]
fn test_max_depth_limit() {
    let deep = directory(
        "/w/a/b",
        "c",
        vec![directory(
            "/w/a/b/c",
            "d",
            vec![directory(
                "/w/a/b/c/d",
                "e",
                vec![directory(
                    "/w/a/b/c/d/e",
                    "f",
                    vec![file("/w/a/b/c/d/e/f", "deep.txt", 1)],
                )],
            )],
        )],
    );
    let root = vec![
        file("/w", "root.txt", 1),
        directory(
            "/w",
            "a",
            vec![directory("/w/a", "b", vec![deep, file("/w/a/b", "shallow.txt", 1)])],
        ),
    ];

    let config = FileWatcherConfig {
        max_depth: Some(3),
        ..Default::default()
    };
    let files = scan(root, &config);

    assert!(files.contains_key("/w/root.txt"));
    assert!(files.contains_key("/w/a/b/shallow.txt"));
    assert!(!files.contains_key("/w/a/b/c/d/e/f/deep.txt"));
}

#[test]
fn test_file_watcher_config_default() {
    let config = FileWatcherConfig::default();
    assert_eq!(config.poll_interval, Duration::from_secs(2).as_nanos());
    assert_eq!(
        config.inactivity_timeout,
        Duration::from_secs(300).as_nanos()
    );
    assert!(config.ignore_patterns.contains(&".git".to_string()));
    assert!(config.ignore_patterns.contains(&"target".to_string()));
    assert_eq!(config.max_depth, Some(5));
}

#[test]
fn depth_is_counted_from_the_root() {
    let config = FileWatcherConfig {
        max_depth: Some(1),
        ..Default::default()
    };
    let root = || {
        vec![directory(
            "/w",
            "one",
            vec![
                file("/w/one", "x", 1),
                directory("/w/one", "two", vec![file("/w/one/two", "y", 1)]),
            ],
        )]
    };
    let files = scan(root(), &config);
    assert!(files.contains_key("/w/one/x"));
    assert!(!files.contains_key("/w/one/two/y"));

    let unlimited = FileWatcherConfig {
        max_depth: None,
        ..Default::default()
    };
    assert_eq!(scan(root(), &unlimited).len(), 2);

    assert!(can_enter(Some(1)));
    assert!(!can_enter(Some(0)));
    assert!(can_enter(None));
    assert_eq!(next_level(Some(1)), Some(0));
    assert_eq!(next_level(None), None);
}

#[test]
fn unreadable_things_are_passed_over() {
    let config = FileWatcherConfig::default();
    let unreadable = |name: &str, kind: EntryKind| DirEntry {
        name: name.to_string(),
        path: name.to_string(),
        kind,
    };
    let files = scan(
        vec![
            unreadable("dir", EntryKind::Directory(None)),
            unreadable("file", EntryKind::File(None)),
            unreadable("socket", EntryKind::Other),
        ],
        &config,
    );
    assert!(files.is_empty());

    let mut known = scan(vec![file("/w", "a", 1)], &config);
    let changes = detect_changes(&None, &config, &mut known);
    assert_eq!(changes[0].kind, FileChangeKind::Deleted);
}

#[test]
fn several_changes_are_reported_at_once() {
    let config = FileWatcherConfig::default();
    let mut known = scan(
        vec![file("/w", "same", 1), file("/w", "old", 1), file("/w", "mod", 1)],
        &config,
    );
    let changes = detect_changes(
        &Some(vec![
            file("/w", "same", 1),
            file("/w", "mod", 9),
            file("/w", "new", 1),
        ]),
        &config,
        &mut known,
    );
    let seen: Vec<(&str, FileChangeKind)> =
        changes.iter().map(|c| (c.path.as_str(), c.kind)).collect();
    assert_eq!(
        seen,
        vec![
            ("/w/mod", FileChangeKind::Modified),
            ("/w/new", FileChangeKind::Created),
            ("/w/old", FileChangeKind::Deleted),
        ]
    );
}

#[test]
fn watcher_reports_changes_and_stops_when_idle() {
    let config = FileWatcherConfig {
        inactivity_timeout: 100,
        ..Default::default()
    };
    let mut state = WatchState::start(&Some(vec![file("/w", "a", 1)]), &config, 1000);
    assert_eq!(state.known.len(), 1);

    assert!(matches!(
        state.step(&WatchEvent::Tick { now: 1099 }, &config),
        WatchAction::Scan
    ));
    let same = WatchEvent::Scanned {
        root: Some(vec![file("/w", "a", 1)]),
        now: 1100,
    };
    assert!(matches!(
        state.step(&same, &config),
        WatchAction::Report(changes) if changes.is_empty()
    ));
    assert_eq!(state.last_change, 1000);
    assert!(matches!(
        state.step(&WatchEvent::Tick { now: 1100 }, &config),
        WatchAction::Stop(StopReason::Inactive)
    ));

    let changed = WatchEvent::Scanned {
        root: Some(vec![]),
        now: 1200,
    };
    assert!(matches!(
        state.step(&changed, &config),
        WatchAction::Report(changes) if changes.len() == 1
    ));
    assert_eq!(state.last_change, 1200);
    assert!(matches!(
        state.step(&WatchEvent::Tick { now: 1201 }, &config),
        WatchAction::Scan
    ));
}

#[test]
fn watcher_stops_on_request() {
    let config = FileWatcherConfig::default();
    let mut state = WatchState::start(&None, &config, 0);
    let cancel = |requested, closed| WatchEvent::CancelChanged { requested, closed };
    assert!(matches!(
        state.step(&cancel(false, false), &config),
        WatchAction::Wait
    ));
    assert!(matches!(
        state.step(&cancel(true, false), &config),
        WatchAction::Stop(StopReason::Cancelled)
    ));
    assert!(matches!(
        state.step(&cancel(false, true), &config),
        WatchAction::Stop(StopReason::Cancelled)
    ));
    assert!(matches!(
        state.step(&WatchEvent::ReceiverGone, &config),
        WatchAction::Stop(StopReason::ChannelClosed)
    ));
}

#[test]
fn ignore_patterns_are_globs() {
    let config = FileWatcherConfig {
        ignore_patterns: vec!["*.tmp".to_string(), "log?".to_string()],
        max_depth: None,
        ..Default::default()
    };
    let files = scan(
        vec![
            file("/w", "a.tmp", 1),
            file("/w", "b.txt", 1),
            file("/w", "log1", 1),
            file("/w", "log12", 1),
            directory("/w", "c.tmp", vec![file("/w/c.tmp", "d.txt", 1)]),
        ],
        &config,
    );
    assert_eq!(files.len(), 2);
    assert!(files.contains_key("/w/b.txt"));
    assert!(files.contains_key("/w/log12"));
    assert!(config.ignores(".tmp"));
    assert!(!config.ignores("tmp"));
}

#[test]
fn globs_describe_names() {
    for (pattern, name, expected) in [
        ("", "", true),
        ("", "a", false),
        ("*", "", true),
        ("*", "anything", true),
        ("?", "", false),
        ("?", "\u{fc}", true),
        ("*.tmp", "a.tmp", true),
        ("*.tmp", "a.tmp.bak", false),
        ("a*b*c", "aXbYbZc", true),
        ("a*b*c", "aXbYbZ", false),
        ("**", "x", true),
        ("*?*", "", false),
        (".git", ".git", true),
        (".git", ".gitignore", false),
    ] {
        assert_eq!(glob_matches(pattern, name), expected, "{pattern} {name}");
    }
    assert!(!glob_matches(&"*a".repeat(30), &"a".repeat(29)));
}

#[test]
fn unchanged_files_are_not_reported() {
    let config = FileWatcherConfig::default();
    let root = Some(vec![file("/w", "a", 1), file("/w", "a", 2), file("/w", "b", 3)]);
    let mut known: KnownFiles = StrMap::new();
    let changes = detect_changes(&root, &config, &mut known);
    assert_eq!(changes.len(), 2);
    assert!(detect_changes(&root, &config, &mut known).is_empty());
}
