use asset_cache::extraction::{
    can_extract_file, directory_job, extract_all, extract_dir, extract_file,
    extract_file_to_bytes, finish_extraction, next_in_stage, report_extracted, report_unreadable,
    stage_detail, stage_status, Extraction, Source, Stage,
};
use asset_cache::headers::get_categories;
use asset_cache::session::{get_progress, Progress, Session};
use asset_cache::tasks::{Counter, Probe, TaskStart};
use fluent_bundle::types::FluentValue;
use std::time::SystemTime;

fn session() -> Session {
    Session::new("/cache".to_string(), "Idling".to_string())
}

fn data(bytes: &[u8]) -> Source {
    Source::Data { bytes: bytes.to_vec(), modified: Some(SystemTime::UNIX_EPOCH) }
}

fn extract(source: Source, mode: &str, add_extention: bool) -> Extraction {
    extract_file("/in/f", source, mode.to_string(), "/out/f".to_string(), add_extention)
}

#[test]
fn asset_is_extracted_with_its_extension() {
    let cases = [
        ("sounds", &b"h OggS"[..], "/out/f.ogg", &b"OggS"[..]),
        ("sounds", &b"binary/ ID3x"[..], "/out/f.mp3", &b"ID3x"[..]),
        ("images", &b"h\x89PNG"[..], "/out/f.png", &b"\x89PNG"[..]),
        ("images", &b"hRIFF1234WEBP"[..], "/out/f.webp", &b"RIFF1234WEBP"[..]),
        ("ktx-files", &b"h\xabKTX"[..], "/out/f.ktx", &b"\xabKTX"[..]),
        ("rbxm-files", &b"h<roblox!x"[..], "/out/f.rbxm", &b"<roblox!x"[..]),
    ];
    for (mode, bytes, path, asset) in cases {
        assert!(can_extract_file(mode, &bytes.to_vec()));
        let extraction = extract(data(bytes), mode, true);
        assert_eq!(extraction.result, path);
        let output = extraction.output.unwrap();
        assert_eq!(output.contents, asset);
        assert_eq!(output.modified, Some(SystemTime::UNIX_EPOCH));
        assert!(extraction.status.is_none());
        assert_eq!(extract_file_to_bytes("/in/f", data(bytes), mode).bytes, asset);
    }
}

#[test]
fn asset_is_extracted_without_an_extension() {
    let extraction = extract(data(b"h OggS"), "sounds", false);
    assert_eq!(extraction.result, "/out/f");
    assert_eq!(extraction.output.unwrap().contents, b"OggS");
}

#[test]
fn file_without_a_header_is_kept_as_music() {
    let extraction = extract(data(b"no header"), "images", true);
    assert_eq!(extraction.result, "/out/f.ogg");
    assert_eq!(extraction.output.unwrap().contents, b"no header");
    let extraction = extract(data(b"x OggS"), "Music", true);
    assert_eq!(extraction.result, "/out/f.ogg");
    assert_eq!(extraction.output.unwrap().contents, b"x OggS");
}

#[test]
fn extracted_asset_is_extracted_as_itself() {
    let bytes = b"binary/ ID3 x".to_vec();
    let once = extract_file_to_bytes("f", data(&bytes), "sounds").bytes;
    assert_eq!(once, b"ID3 x");
    assert!(can_extract_file("sounds", &once));
    assert_eq!(extract_file_to_bytes("f", data(&once), "sounds").bytes, once);
}

#[test]
fn file_that_starts_before_its_bytes_is_told() {
    assert!(!can_extract_file("images", &b"PNG".to_vec()));
    assert!(can_extract_file("sounds", &b"PNG".to_vec()));
    assert!(!can_extract_file("images", &b"1234567WEBP".to_vec()));
}

#[test]
fn failures_are_reported() {
    let extraction = extract(Source::Missing("gone".to_string()), "sounds", true);
    assert_eq!(extraction.result, "None");
    assert!(extraction.output.is_none());
    let status = extraction.status.unwrap();
    assert_eq!(status.id, "idling");
    assert_eq!(status.args.unwrap().get("error"), Some(&FluentValue::from("gone")));

    let extraction = extract(Source::NotAFile, "sounds", true);
    assert_eq!(extraction.result, "None");
    let status = extraction.status.unwrap();
    assert_eq!(status.id, "failed-not-file");
    assert_eq!(status.args.unwrap().get("file"), Some(&FluentValue::from("/in/f")));

    let extraction = extract(Source::Unreadable, "sounds", true);
    assert_eq!(extraction.result, "None");
    let status = extraction.status.unwrap();
    assert_eq!(status.id, "failed-opening-file");
    assert!(status.args.is_none());
}

#[test]
fn failures_to_extract_to_bytes_are_reported() {
    let extraction = extract_file_to_bytes("f", Source::Missing("gone".to_string()), "sounds");
    assert_eq!(extraction.bytes, b"None");
    assert_eq!(extraction.status.unwrap().id, "idling");
    let extraction = extract_file_to_bytes("f", Source::NotAFile, "sounds");
    assert_eq!(extraction.bytes, b"None");
    assert_eq!(extraction.status.unwrap().id, "failed-not-file");
    let extraction = extract_file_to_bytes("f", Source::Unreadable, "sounds");
    assert_eq!(extraction.bytes, b"None");
    assert_eq!(extraction.status.unwrap().id, "failed-opening-file");
}

#[test]
fn directory_is_extracted_unless_a_task_runs() {
    let mut session = session();
    assert!(matches!(extract_dir(&mut session, &Probe::File), TaskStart::NoDirectory(_)));
    assert!(matches!(extract_dir(&mut session, &Probe::Directory), TaskStart::Started));
    assert!(matches!(extract_dir(&mut session, &Probe::Directory), TaskStart::Busy));
    assert!(extract_all(&mut session, "/out", &get_categories()).is_none());
    assert_eq!(finish_extraction(&mut session).id, "all-extracted");
    assert!(!session.task_running);
}

#[test]
fn job_of_a_directory() {
    let job = directory_job("/in", "f", "sounds", "/out", &None);
    assert_eq!((job.origin.as_str(), job.mode.as_str(), job.destination.as_str()), ("/in/f", "sounds", "/out/f"));
    let job = directory_job("/in", "f", "sounds", "/out", &Some("song".to_string()));
    assert_eq!((job.origin.as_str(), job.destination.as_str()), ("/in/f", "/out/song"));
}

#[test]
fn extraction_is_reported() {
    assert_eq!(report_extracted(1, 2, "None").id, "failed-extracting-file");
    let message = report_extracted(1, 2, "/out/None.ogg");
    assert_eq!(message.id, "extracting-files");
    assert_eq!(message.args.as_ref().unwrap().get("total"), Some(&FluentValue::from(2)));
    assert_eq!(report_unreadable(1, 2).id, "failed-opening-file");
}

#[test]
fn extracted_file_named_none_is_no_failure() {
    let extraction = extract_file("f", data(b"x"), "Music".to_string(), "None".to_string(), true);
    assert_eq!(extraction.result, "None.ogg");
    assert_eq!(report_extracted(1, 1, &extraction.result).id, "extracting-files");
}

#[test]
fn plan_of_the_whole_cache() {
    let mut session = session();
    let plan = extract_all(&mut session, "/out", &get_categories()).unwrap();
    assert!(session.task_running);
    assert_eq!(plan.music_directory, "/cache/sounds");
    assert_eq!(plan.http_directory, "/cache/http");
    assert_eq!(
        plan.directories,
        vec!["/out", "/out/Music", "/out/sounds", "/out/images", "/out/ktx-files", "/out/rbxm-files"]
    );
    assert_eq!(plan.headers.len(), 8);
    assert_eq!(plan.headers[1], ("ID3".to_string(), "sounds".to_string()));
}

#[test]
fn progress_of_the_stages() {
    let mut session = session();
    for (stage, position) in [(Stage::Music, 0), (Stage::Filter, 1), (Stage::Categories, 2)] {
        let mut counter = Counter::new(1);
        assert_eq!(next_in_stage(&mut session, &mut counter, stage), Some(1));
        assert_eq!(get_progress(&session), Progress { item: 1, total: 1, stage: position, stages: 3 });
        assert_eq!(next_in_stage(&mut session, &mut counter, stage), None);
    }
}

#[test]
fn messages_of_the_stages() {
    for (stage, words, detail) in [
        (Stage::Music, "1", "extracting-files"),
        (Stage::Filter, "2", "filtering-files"),
        (Stage::Categories, "3", "extracting-files"),
    ] {
        assert_eq!(stage_detail(stage, 1, 2).id, detail);
        let message = stage_status(stage, 1, 2, "text".to_string());
        assert_eq!(message.id, "stage");
        let args = message.args.unwrap();
        assert_eq!(args.get("stage"), Some(&FluentValue::from(words)));
        assert_eq!(args.get("max"), Some(&FluentValue::from("3")));
        assert_eq!(args.get("status"), Some(&FluentValue::from("text")));
    }
}

#[test]
fn wrapped_asset_comes_out_as_it_went_in() {
    let asset = b"RIFF1234WEBPVP8 data WEBP".to_vec();
    let mut file = b"HTTP/1.1 200 OK content-type: image".to_vec();
    file.extend_from_slice(&asset);
    assert_eq!(extract_file_to_bytes("f", data(&file), "images").bytes, asset);
}

#[test]
fn files_of_different_names_go_to_different_paths() {
    let path = |name: &str, bytes: &[u8]| {
        let job = directory_job("/in", name, "images", "/out", &None);
        extract_file("f", data(bytes), job.mode, job.destination, true).result
    };
    assert_eq!(path("a", b"\x89PNG"), "/out/a.png");
    assert_eq!(path("a.png", b"none"), "/out/a.png.ogg");
    assert_ne!(path("a", b"none"), path("b", b"none"));
}
