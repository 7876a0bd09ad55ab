use asset_cache::directories::{
    clean_up, detect_directory, end_detection, get_temp_dir, judge_candidate, next_candidate,
    resolve_path, resolve_path_for, temp_dir_created, validate_directory, DetectionEnd,
    TempDirectory,
};
use asset_cache::session::Session;
use asset_cache::tasks::Probe;

fn session() -> Session {
    Session::new("/cache".to_string(), "Idling".to_string())
}

#[test]
fn markers_are_replaced() {
    assert_eq!(
        resolve_path_for("%Temp%\\Roblox", "ann"),
        "C:\\Users\\ann\\AppData\\Local\\Temp\\Roblox"
    );
    assert_eq!(
        resolve_path_for("%localappdata%\\x", "ann"),
        "C:\\Users\\ann\\AppData\\Local\\x"
    );
    assert_eq!(
        resolve_path_for("~/.var/app/org.vinegarhq.Sober/cache/sober", "ann"),
        "/home/ann/.var/app/org.vinegarhq.Sober/cache/sober"
    );
    assert_eq!(resolve_path_for("~/a~", "u"), "/home/u/a/home/u");
}

#[test]
fn markers_are_told_by_case() {
    assert_eq!(resolve_path_for("%temp%", "ann"), "%temp%");
    assert_eq!(resolve_path_for("", "ann"), "");
}

#[test]
fn path_is_resolved_for_the_user_who_runs_the_program() {
    assert_eq!(resolve_path("~/x"), format!("/home/{}/x", whoami::username()));
    assert_eq!(resolve_path("~/x"), resolve_path_for("~/x", &whoami::username()));
    assert_eq!(resolve_path("/plain/path"), "/plain/path");
}

#[test]
fn directory_is_valid() {
    assert_eq!(validate_directory("/d".to_string(), Probe::Directory), Ok("/d".to_string()));
    let error = Err("/d: Not a directory".to_string());
    assert_eq!(validate_directory("/d".to_string(), Probe::File), error);
    assert_eq!(validate_directory("/d".to_string(), Probe::Other), error);
    assert_eq!(
        validate_directory("/d".to_string(), Probe::Failed("no such file".to_string())),
        Err("no such file".to_string())
    );
}

#[test]
fn configured_directory_is_tried_first() {
    let mut detection = detect_directory(Some("\"/my/cache\"".to_string()));
    assert_eq!(next_candidate(&detection), Some("/my/cache".to_string()));
    assert_eq!(judge_candidate(&mut detection, Ok("/my/cache".to_string())), Some("/my/cache".to_string()));
}

#[test]
fn directories_are_tried_in_order() {
    let mut detection = detect_directory(Some("/my/cache".to_string()));
    assert_eq!(judge_candidate(&mut detection, Err("one".to_string())), None);
    assert_eq!(next_candidate(&detection), Some("%Temp%\\Roblox".to_string()));
    assert_eq!(judge_candidate(&mut detection, Err("two".to_string())), None);
    assert_eq!(
        next_candidate(&detection),
        Some("~/.var/app/org.vinegarhq.Sober/cache/sober".to_string())
    );
    assert_eq!(judge_candidate(&mut detection, Err("three".to_string())), None);
    assert_eq!(next_candidate(&detection), None);
    match end_detection(&detection, None) {
        DetectionEnd::Fail(words) => assert_eq!(words, "Directory detection failed!onetwothree"),
        other => panic!("{:?}", other),
    }
    match end_detection(&detection, Some("/picked".to_string())) {
        DetectionEnd::Restart(path) => assert_eq!(path, "/picked"),
        other => panic!("{:?}", other),
    }
}

#[test]
fn without_configuration_the_defaults_are_tried() {
    let mut detection = detect_directory(None);
    assert_eq!(next_candidate(&detection), Some("%Temp%\\Roblox".to_string()));
    judge_candidate(&mut detection, Err("no".to_string()));
    assert_eq!(judge_candidate(&mut detection, Ok("/home/x".to_string())), Some("/home/x".to_string()));
}

#[test]
fn temporary_directory_is_created_once() {
    let mut session = session();
    match get_temp_dir(&session, false) {
        TempDirectory::At(path) => assert_eq!(path, ""),
        other => panic!("{:?}", other),
    }
    assert!(matches!(get_temp_dir(&session, true), TempDirectory::Create));
    assert_eq!(temp_dir_created(&mut session, "/tmp/x".to_string()), "/tmp/x");
    for create in [false, true] {
        match get_temp_dir(&session, create) {
            TempDirectory::At(path) => assert_eq!(path, "/tmp/x"),
            other => panic!("{:?}", other),
        }
    }
}

#[test]
fn temporary_directory_is_deleted_in_the_end() {
    let mut session = session();
    assert_eq!(clean_up(&session), None);
    temp_dir_created(&mut session, "/tmp/x".to_string());
    assert_eq!(clean_up(&session), Some("/tmp/x".to_string()));
}

#[test]
fn root_is_never_deleted() {
    let mut session = session();
    temp_dir_created(&mut session, "/".to_string());
    assert_eq!(clean_up(&session), None);
    temp_dir_created(&mut session, "".to_string());
    assert_eq!(clean_up(&session), None);
}

#[test]
fn resolved_path_is_resolved_to_itself() {
    for path in ["%Temp%\\x", "%localappdata%", "~/a~", "%Te%Temp%mp%", "%Temp%localappdata%"] {
        let resolved = resolve_path_for(path, "me");
        for marker in ["%Temp%", "%localappdata%", "~"] {
            assert!(!resolved.contains(marker));
        }
        assert_eq!(resolve_path_for(&resolved, "me"), resolved);
    }
    let resolved = resolve_path_for("%Te%Temp%mp%", "me");
    assert_eq!(resolved, "%TeC:\\Users\\me\\AppData\\Local\\Tempmp%");
}
