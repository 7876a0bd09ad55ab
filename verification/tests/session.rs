use asset_cache::session::{
    begin_task, clear_file_list, end_task, get_cache_directory, get_file_list,
    get_filtered_file_list, get_list_task_running, get_progress, get_request_repaint, get_status,
    set_cache_directory, update_file_list, update_progress, update_status, AssetInfo, Progress,
    Session,
};
use std::time::{Duration, SystemTime};

fn session() -> Session {
    Session::new("/cache".to_string(), "Idling".to_string())
}

#[test]
fn session_at_the_start() {
    let mut session = session();
    assert_eq!(get_cache_directory(&session), "/cache");
    assert_eq!(get_status(&session), "Idling");
    assert!(get_file_list(&session).is_empty());
    assert!(get_filtered_file_list(&session).is_empty());
    assert_eq!(get_progress(&session), Progress { item: 1, total: 1, stage: 0, stages: 1 });
    assert!(!get_list_task_running(&session));
    assert!(!get_request_repaint(&mut session));
    assert!(session.temp_directory.is_none());
}

#[test]
fn new_status_is_announced_once() {
    let mut session = session();
    update_status(&mut session, "Busy".to_string());
    assert_eq!(get_status(&session), "Busy");
    assert!(get_request_repaint(&mut session));
    assert!(!get_request_repaint(&mut session));
    assert_eq!(get_status(&session), "Busy");
}

#[test]
fn new_progress_is_announced_once() {
    let mut session = session();
    let half = Progress { item: 1, total: 2, stage: 0, stages: 1 };
    update_progress(&mut session, half);
    assert_eq!(get_progress(&session), half);
    assert!(get_request_repaint(&mut session));
    assert!(!get_request_repaint(&mut session));
}

#[test]
fn files_are_added_in_order() {
    let mut session = session();
    let time = SystemTime::UNIX_EPOCH + Duration::from_secs(77);
    let first = AssetInfo { name: "a".to_string(), size: 1, last_modified: Some(time) };
    let second = AssetInfo { name: "b".to_string(), size: 2, last_modified: None };
    assert_eq!(update_file_list(&mut session, first, true), Some("a".to_string()));
    assert_eq!(update_file_list(&mut session, second, false), None);
    let files = get_file_list(&session);
    assert_eq!(files.len(), 2);
    assert_eq!((files[0].name.as_str(), files[0].size, files[0].last_modified), ("a", 1, Some(time)));
    assert_eq!((files[1].name.as_str(), files[1].size, files[1].last_modified), ("b", 2, None));
    assert!(!get_request_repaint(&mut session));
    clear_file_list(&mut session);
    assert!(get_file_list(&session).is_empty());
}

#[test]
fn cache_directory_that_was_set_last_is_used() {
    let mut session = session();
    set_cache_directory(&mut session, "/one".to_string());
    set_cache_directory(&mut session, "/two".to_string());
    update_status(&mut session, "x".to_string());
    assert_eq!(get_cache_directory(&session), "/two");
}

#[test]
fn only_one_task_runs() {
    let mut session = session();
    assert!(begin_task(&mut session));
    assert!(!begin_task(&mut session));
    end_task(&mut session);
    assert!(begin_task(&mut session));
}
