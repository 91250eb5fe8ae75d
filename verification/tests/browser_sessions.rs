use moltis_work::browser::BrowserSessionStore;
use moltis_work::code_index::{code_index_enabled, disabled_message};

#[test]
fn sessions_stay_listed_after_closing_newest_first() {
    let mut store = BrowserSessionStore::default();
    store.start_session_at("s1", true, "2026-01-01 10:00:00".to_string());
    store.start_session_at("s2", false, "2026-01-01 11:00:00".to_string());
    store.start_session_at("s1", false, "2026-01-01 12:00:00".to_string());
    assert_eq!(store.sessions.len(), 2);
    store.close_session_at("s1", "2026-01-01 13:00:00".to_string());
    let all = store.list_all(10);
    assert_eq!(all.len(), 2);
    assert_eq!(all[0].session_id, "s2");
    assert_eq!(all[1].session_id, "s1");
    assert!(all[1].sandboxed);
    assert_eq!(all[1].closed_at.as_deref(), Some("2026-01-01 13:00:00"));
    assert_eq!(store.list_all(1).len(), 1);
}

#[test]
fn successful_actions_move_the_session_url() {
    let mut store = BrowserSessionStore::default();
    store.start_session_at("s1", false, "t0".to_string());
    store.log_action_at("s1", "navigate", Some("https://a.example"), true, None, 12, "t1".to_string());
    store.log_action_at("s1", "navigate", Some("https://b.example"), false, Some("timeout"), 30, "t2".to_string());
    store.log_action_at("s2", "click", None, true, None, 5, "t3".to_string());
    assert_eq!(store.sessions[0].url.as_deref(), Some("https://a.example"));
    let actions = store.get_actions("s1", 10);
    assert_eq!(actions.len(), 2);
    assert_eq!(actions[0].created_at, "t2");
    assert_eq!(actions[0].id, 2);
    assert_eq!(actions[0].error.as_deref(), Some("timeout"));
    assert!(!actions[0].success);
    assert_eq!(actions[1].duration_ms, 12);
    assert_eq!(store.get_actions("s1", 1).len(), 1);
    assert_eq!(store.get_actions("none", 5).len(), 0);
}

#[test]
fn code_index_follows_project_switch() {
    assert!(code_index_enabled(None));
    assert!(code_index_enabled(Some(true)));
    assert!(!code_index_enabled(Some(false)));
    assert_eq!(
        disabled_message("p1"),
        "Code indexing is disabled for project 'p1'. Enable it in project settings."
    );
}
