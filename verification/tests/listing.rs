use asset_cache::headers::find_header;
use asset_cache::listing::{
    acquire_list, begin_list, count_copies, create_asset_info, create_no_files, filter_file_list,
    finish_entry, finish_list, next_entry, refresh, search_files, Entry, ListKind, ListTask,
    RefreshAction,
};
use asset_cache::session::{
    get_file_list, get_filtered_file_list, get_list_task_running, get_progress,
    get_request_repaint, get_status, update_file_list, AssetInfo, Progress, Session,
};
use asset_cache::tasks::Probe;
use fluent_bundle::types::FluentValue;
use std::time::SystemTime;

fn session() -> Session {
    Session::new("/cache".to_string(), "Idling".to_string())
}

fn asset(name: &str) -> AssetInfo {
    create_asset_info(name, None)
}

fn with_files(names: &[&str]) -> Session {
    let mut session = session();
    for name in names {
        update_file_list(&mut session, asset(name), false);
    }
    session
}

fn names(files: Vec<AssetInfo>) -> Vec<String> {
    files.into_iter().map(|file| file.name).collect()
}

fn strings(list: &[&str]) -> Vec<String> {
    list.iter().map(|text| text.to_string()).collect()
}

fn started(mode: &str, total: usize) -> ListTask {
    begin_list(mode, total).task.unwrap()
}

#[test]
fn asset_with_metadata() {
    let info = create_asset_info("f", Some((9, Some(SystemTime::UNIX_EPOCH))));
    assert_eq!((info.name.as_str(), info.size), ("f", 9));
    assert_eq!(info.last_modified, Some(SystemTime::UNIX_EPOCH));
}

#[test]
fn asset_without_metadata() {
    let info = create_asset_info("f", None);
    assert_eq!((info.name.as_str(), info.size, info.last_modified), ("f", 0, None));
    let info = create_no_files("No files".to_string());
    assert_eq!((info.name.as_str(), info.size, info.last_modified), ("No files", 0, None));
}

#[test]
fn directory_is_listed() {
    let mut session = with_files(&["a"]);
    assert!(matches!(refresh(&mut session, &Probe::Directory), RefreshAction::List));
    assert_eq!(names(get_file_list(&session)), strings(&["a"]));
    assert_eq!(get_status(&session), "Idling");
}

#[test]
fn what_is_no_directory_is_not_listed() {
    for probe in [Probe::File, Probe::Other] {
        let mut session = with_files(&["a"]);
        assert!(matches!(refresh(&mut session, &probe), RefreshAction::Refuse));
        assert_eq!(get_status(&session), "Error: check logs for more details.");
        assert!(!get_request_repaint(&mut session));
        assert_eq!(names(get_file_list(&session)), strings(&["a"]));
    }
}

#[test]
fn missing_directory_shows_an_empty_list() {
    let mut session = with_files(&["a"]);
    match refresh(&mut session, &Probe::Failed("gone".to_string())) {
        RefreshAction::ShowEmpty { entry, status } => {
            assert_eq!(entry.id, "no-files");
            assert_eq!(status.id, "idling");
        }
        other => panic!("{:?}", other),
    }
    assert!(get_file_list(&session).is_empty());
}

#[test]
fn listing_gives_way_to_the_next() {
    let mut session = session();
    assert!(acquire_list(&mut session));
    assert!(get_list_task_running(&session));
    let mut task = started("music", 3);
    assert_eq!(next_entry(&mut session, &mut task), Some(1));
    assert!(!acquire_list(&mut session));
    assert_eq!(next_entry(&mut session, &mut task), None);
    assert_eq!(finish_list(&mut session).id, "idling");
    assert!(!get_list_task_running(&session));
    assert!(acquire_list(&mut session));
    let mut task = started("music", 1);
    assert_eq!(next_entry(&mut session, &mut task), Some(1));
    assert_eq!(next_entry(&mut session, &mut task), None);
}

#[test]
fn empty_directory_has_a_placeholder() {
    let start = begin_list("images", 0);
    assert_eq!(start.placeholder.unwrap().id, "no-files");
    assert!(start.task.is_some());
    assert!(begin_list("images", 1).placeholder.is_none());
}

#[test]
fn unknown_mode_has_no_listing() {
    let start = begin_list("other", 0);
    assert!(start.task.is_none());
    assert_eq!(start.placeholder.unwrap().id, "no-files");
}

#[test]
fn mode_decides_what_is_listed() {
    assert!(matches!(started("music", 1).kind, ListKind::Everything));
    match started("images", 1).kind {
        ListKind::WithHeaders(first, second) => assert_eq!((first, second), ("PNG", "WEBP")),
        other => panic!("{:?}", other),
    }
}

#[test]
fn file_is_listed_once_for_each_header() {
    let images = ListKind::WithHeaders("PNG", "WEBP");
    assert_eq!(count_copies(&images, b"PNG"), 1);
    assert_eq!(count_copies(&images, b"WEBP"), 1);
    assert_eq!(count_copies(&images, b"WEBP PNG PNG"), 2);
    assert_eq!(count_copies(&images, b"OggS"), 0);
    assert_eq!(count_copies(&ListKind::WithHeaders("KTX", ""), b"KTX"), 1);
    assert_eq!(count_copies(&ListKind::WithHeaders("OggS", "ID3"), b"ID3"), 0);
    assert_eq!(count_copies(&ListKind::Everything, b""), 1);
}

#[test]
fn listed_files_are_recognised() {
    let images = ListKind::WithHeaders("PNG", "WEBP");
    for bytes in [&b"PNG"[..], &b"WEBP"[..], &b"nothing"[..], &b""[..]] {
        let listed = count_copies(&images, bytes) > 0;
        assert_eq!(listed, find_header("images".to_string(), bytes.to_vec()) != "INVALID");
    }
}

#[test]
fn listing_collects_files_and_reports() {
    let mut session = session();
    let mut task = started("images", 4);

    assert_eq!(next_entry(&mut session, &mut task), Some(1));
    assert_eq!(get_progress(&session), Progress { item: 1, total: 4, stage: 0, stages: 1 });
    let entry = Entry::Listed { bytes: b"PNG WEBP".to_vec(), files: vec![asset("a"), asset("a")] };
    let report = finish_entry(&mut session, &task, entry, true);
    assert!(report.lines.is_empty());
    let status = report.status.unwrap();
    assert_eq!(status.id, "reading-files");
    assert_eq!(status.args.as_ref().unwrap().get("item"), Some(&FluentValue::from(1)));
    assert_eq!(status.args.as_ref().unwrap().get("total"), Some(&FluentValue::from(4)));

    assert_eq!(next_entry(&mut session, &mut task), Some(2));
    let report = finish_entry(&mut session, &task, Entry::OpenFailed("denied".to_string()), false);
    let status = report.status.unwrap();
    assert_eq!(status.id, "failed-opening-file");
    assert_eq!(status.args.as_ref().unwrap().get("error"), Some(&FluentValue::from("denied")));
    assert_eq!(status.args.as_ref().unwrap().get("item"), Some(&FluentValue::from(2)));

    assert_eq!(next_entry(&mut session, &mut task), Some(3));
    let report = finish_entry(&mut session, &task, Entry::ReadFailed, false);
    let status = report.status.unwrap();
    assert_eq!(status.id, "failed-opening-file");
    assert!(status.args.as_ref().unwrap().get("error").is_none());

    assert_eq!(next_entry(&mut session, &mut task), Some(4));
    assert!(finish_entry(&mut session, &task, Entry::Unnamed, false).status.is_none());

    assert_eq!(next_entry(&mut session, &mut task), None);
    assert_eq!(names(get_file_list(&session)), strings(&["a", "a"]));
}

#[test]
fn names_are_printed_when_everything_is_listed() {
    let mut session = session();
    let mut task = started("music", 2);
    next_entry(&mut session, &mut task);
    let entry = Entry::Listed { bytes: Vec::new(), files: vec![asset("song")] };
    assert_eq!(finish_entry(&mut session, &task, entry, true).lines, strings(&["song"]));
    next_entry(&mut session, &mut task);
    let entry = Entry::Listed { bytes: Vec::new(), files: vec![asset("other")] };
    assert!(finish_entry(&mut session, &task, entry, false).lines.is_empty());
    assert_eq!(names(get_file_list(&session)), strings(&["song", "other"]));
}

#[test]
fn search_looks_at_names_and_aliases() {
    let mut session = with_files(&["abc", "xyz", "q"]);
    let aliases = strings(&["Drum", "Guitar", "q"]);
    filter_file_list(&mut session, "B".to_string(), &aliases);
    assert_eq!(names(get_filtered_file_list(&session)), strings(&["abc"]));
    filter_file_list(&mut session, "GUIT".to_string(), &aliases);
    assert_eq!(names(get_filtered_file_list(&session)), strings(&["xyz"]));
    filter_file_list(&mut session, "".to_string(), &aliases);
    assert_eq!(names(get_filtered_file_list(&session)), strings(&["abc", "xyz", "q"]));
    filter_file_list(&mut session, "nothing".to_string(), &aliases);
    assert!(get_filtered_file_list(&session).is_empty());
    assert_eq!(get_file_list(&session).len(), 3);
}

#[test]
fn names_in_upper_case_are_found_by_alias_only() {
    let mut session = with_files(&["ABC"]);
    filter_file_list(&mut session, "abc".to_string(), &strings(&["x"]));
    assert!(get_filtered_file_list(&session).is_empty());
    filter_file_list(&mut session, "abc".to_string(), &strings(&["ABC"]));
    assert_eq!(names(get_filtered_file_list(&session)), strings(&["ABC"]));
}

#[test]
fn longer_search_finds_a_part() {
    let files = vec![asset("abc"), asset("ab"), asset("b")];
    let aliases = strings(&["", "", ""]);
    assert_eq!(names(search_files(&files, &aliases, "b")), strings(&["abc", "ab", "b"]));
    assert_eq!(names(search_files(&files, &aliases, "ab")), strings(&["abc", "ab"]));
    assert_eq!(names(search_files(&files, &aliases, "abc")), strings(&["abc"]));
}
