use opendev::json::Json;
use opendev::listing::{SessionEntry, SessionListing, SessionMetadata, WorkspaceEntry};

fn session(id: &str, updated_at: i128) -> SessionMetadata {
    SessionMetadata {
        id: id.to_string(),
        updated_at,
        channel: "cli".to_string(),
        channel_user_id: String::new(),
        thread_id: None,
        owner_id: None,
        details: Json::Null,
    }
}

fn entry(metadata: SessionMetadata) -> SessionEntry {
    SessionEntry {
        metadata,
        time_archived: None,
    }
}

fn setup_with_sessions(count: usize) -> (SessionListing, Vec<SessionEntry>) {
    let listing = SessionListing::new("/tmp/sessions".to_string());
    let entries = (0..count)
        .map(|i| entry(session(&format!("session-{i}"), i as i128)))
        .collect();
    (listing, entries)
}

fn ids(sessions: &[SessionMetadata]) -> Vec<&str> {
    sessions.iter().map(|s| s.id.as_str()).collect()
}

#[test]
fn test_list_sessions_empty() {
    let listing = SessionListing::new("/tmp/sessions".to_string());
    let sessions = listing.list_sessions(None, None, false);
    assert!(sessions.is_empty());
}

#[test]
fn test_list_sessions() {
    let (listing, entries) = setup_with_sessions(3);
    let sessions = listing.list_sessions(Some(entries), None, false);
    assert_eq!(sessions.len(), 3);
}

#[test]
fn test_find_latest_session() {
    let (listing, entries) = setup_with_sessions(3);
    let latest = listing.find_latest_session(Some(entries));
    assert!(latest.is_some());
    assert_eq!(latest.unwrap().id, "session-2");
}

#[test]
fn test_delete_session() {
    let (listing, entries) = setup_with_sessions(2);

    let deletion = listing.delete_session(Some(entries), "session-0");
    assert_eq!(
        deletion.files,
        vec!["session-0.json", "session-0.jsonl", "session-0.debug"]
    );

    let sessions = listing.list_sessions(deletion.index, None, false);
    assert_eq!(sessions.len(), 1);
    assert_eq!(sessions[0].id, "session-1");
}

#[test]
fn test_find_by_channel_user() {
    let listing = SessionListing::new("/tmp/sessions".to_string());
    let entries = || {
        let mut session = session("tg-session", 0);
        session.channel = "telegram".to_string();
        session.channel_user_id = "user123".to_string();
        Some(vec![entry(session)])
    };

    let found = listing.find_session_by_channel_user(entries(), "telegram", "user123", None);
    assert!(found.is_some());
    assert_eq!(found.unwrap().id, "tg-session");

    let not_found = listing.find_session_by_channel_user(entries(), "whatsapp", "user123", None);
    assert!(not_found.is_none());

    let in_thread =
        listing.find_session_by_channel_user(entries(), "telegram", "user123", Some("t"));
    assert!(in_thread.is_none());
}

#[test]
fn recent_sessions_come_first_and_ties_keep_their_order() {
    let listing = SessionListing::new("d".to_string());
    let entries = vec![
        entry(session("a", 5)),
        entry(session("b", 9)),
        entry(session("c", 5)),
        entry(session("d", -1)),
    ];
    let sessions = listing.list_sessions(Some(entries), None, false);
    assert_eq!(ids(&sessions), vec!["b", "a", "c", "d"]);
}

#[test]
fn archived_sessions_are_listed_on_request() {
    let listing = SessionListing::new("d".to_string());
    let entries = || {
        Some(vec![
            SessionEntry {
                metadata: session("old", 9),
                time_archived: Some(1),
            },
            entry(session("new", 1)),
        ])
    };
    assert_eq!(
        ids(&listing.list_sessions(entries(), None, false)),
        vec!["new"]
    );
    assert_eq!(
        ids(&listing.list_sessions(entries(), None, true)),
        vec!["old", "new"]
    );
    assert_eq!(listing.find_latest_session(entries()).unwrap().id, "new");
}

#[test]
fn sessions_are_listed_by_owner() {
    let listing = SessionListing::new("d".to_string());
    let mut mine = session("mine", 1);
    mine.owner_id = Some("me".to_string());
    let mut yours = session("yours", 2);
    yours.owner_id = Some("you".to_string());
    let entries = vec![entry(mine), entry(yours), entry(session("nobody", 3))];
    assert_eq!(
        ids(&listing.list_sessions(Some(entries), Some("me"), false)),
        vec!["mine"]
    );
}

#[test]
fn sessions_of_all_workspaces_are_merged() {
    let all = SessionListing::list_all_sessions(vec![
        Some(vec![entry(session("a", 1)), entry(session("b", 4))]),
        None,
        Some(vec![entry(session("c", 3))]),
    ]);
    assert_eq!(ids(&all), vec!["b", "c", "a"]);
}

#[test]
fn workspaces_hold_a_session_file() {
    let workspace = |name: &str, files: Option<Vec<&str>>| WorkspaceEntry {
        name: name.to_string(),
        files: files.map(|f| f.into_iter().map(String::from).collect()),
    };
    let names = SessionListing::list_user_workspaces(
        vec![
            workspace("zeta", Some(vec!["a.json"])),
            workspace("index-only", Some(vec!["sessions-index.json"])),
            workspace("file", None),
            workspace("hidden", Some(vec![".json", "json", "a.jsonl"])),
            workspace("Alpha", Some(vec!["x.txt", "sessions-index.json", "b.c.json"])),
        ],
        "sessions-index.json",
    );
    assert_eq!(names, vec!["Alpha", "zeta"]);
}

#[test]
fn listing_knows_its_directory() {
    assert_eq!(SessionListing::new("a/b".to_string()).session_dir(), "a/b");
}
