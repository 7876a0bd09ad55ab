use asset_cache::cache_run::{step_cache, CacheAction, CacheEvent, CacheRun};
use asset_cache::extraction::{extract_all, Job};
use asset_cache::headers::get_categories;
use asset_cache::session::{get_progress, get_status, Progress, Session};
use fluent_bundle::types::FluentValue;

enum Found {
    Unnamed,
    Broken,
    File(&'static str, &'static [u8]),
}

fn told(job: &Job) -> String {
    format!("{} {} {}", job.origin, job.mode, job.destination)
}

struct Log {
    jobs: Vec<String>,
    messages: Vec<String>,
    directories: Vec<String>,
}

/// Extracts a whole cache. The text of a message is its id, with its stage where it has one.
fn extract(
    session: &mut Session,
    use_alias: bool,
    music: &[Option<&'static str>],
    http: &[Found],
) -> Log {
    let plan = extract_all(session, "/out", &get_categories()).unwrap();
    let mut log = Log { jobs: Vec::new(), messages: Vec::new(), directories: Vec::new() };
    let mut run = CacheRun::new(plan, "/out".to_string(), use_alias);
    let mut event = CacheEvent::Begin;
    loop {
        let (next, action) = step_cache(session, run, event);
        run = next;
        event = match action {
            CacheAction::CreateDirectories => {
                log.directories.extend(run.plan.directories.iter().cloned());
                CacheEvent::Created
            }
            CacheAction::ReadDirectory(path) => {
                let size = if path == "/cache/sounds" { music.len() } else { http.len() };
                log.directories.push(path);
                CacheEvent::Opened(size)
            }
            CacheAction::TakeName(index) => match music[index] {
                Some(name) => CacheEvent::Music(name.to_string()),
                None => CacheEvent::Unnamed,
            },
            CacheAction::ReadEntry(index) => match http[index] {
                Found::Unnamed => CacheEvent::Unnamed,
                Found::Broken => CacheEvent::Unreadable,
                Found::File(name, bytes) => {
                    CacheEvent::Read { name: name.to_string(), bytes: bytes.to_vec() }
                }
            },
            CacheAction::LookUp(name) => CacheEvent::Alias(format!("my {}", name)),
            CacheAction::Extract(job) => {
                assert!(session.task_running);
                log.jobs.push(told(&job));
                CacheEvent::Extracted
            }
            CacheAction::Render(message) => {
                let mut text = message.id.to_string();
                if let Some(args) = &message.args {
                    for name in ["stage", "status"] {
                        if let Some(FluentValue::String(value)) = args.get(name) {
                            text = format!("{} {}", text, value);
                        }
                    }
                }
                log.messages.push(text.clone());
                CacheEvent::Text(text)
            }
            CacheAction::Stop => return log,
        };
    }
}

fn session() -> Session {
    Session::new("/cache".to_string(), "Idling".to_string())
}

#[test]
fn whole_cache_is_extracted() {
    let mut session = session();
    let http = [
        Found::File("p", b"PNG"),
        Found::Unnamed,
        Found::Broken,
        Found::File("n", b"nothing"),
        Found::File("two", b"OggS KTX"),
    ];
    let log = extract(&mut session, false, &[Some("m"), None], &http);
    assert_eq!(
        log.directories,
        vec![
            "/out",
            "/out/Music",
            "/out/sounds",
            "/out/images",
            "/out/ktx-files",
            "/out/rbxm-files",
            "/cache/sounds",
            "/cache/http"
        ]
    );
    assert_eq!(
        log.jobs,
        vec![
            "/cache/sounds/m Music /out/Music/m",
            "/cache/http/p images /out/images/p",
            "/cache/http/two sounds /out/sounds/two",
            "/cache/http/two ktx-files /out/ktx-files/two"
        ]
    );
    assert_eq!(
        log.messages,
        vec![
            "extracting-files",
            "stage 1 extracting-files",
            "filtering-files",
            "stage 2 filtering-files",
            "failed-opening-file",
            "filtering-files",
            "stage 2 filtering-files",
            "filtering-files",
            "stage 2 filtering-files",
            "extracting-files",
            "stage 3 extracting-files",
            "extracting-files",
            "stage 3 extracting-files",
            "extracting-files",
            "stage 3 extracting-files",
            "all-extracted"
        ]
    );
    assert_eq!(get_progress(&session), Progress { item: 3, total: 3, stage: 2, stages: 3 });
    assert_eq!(get_status(&session), "all-extracted");
    assert!(!session.task_running);
}

#[test]
fn whole_cache_is_extracted_under_aliases() {
    let mut session = session();
    let log = extract(&mut session, true, &[Some("m")], &[Found::File("p", b"PNG")]);
    assert_eq!(
        log.jobs,
        vec!["/cache/sounds/m Music /out/Music/my m", "/cache/http/p images /out/images/my p"]
    );
}

#[test]
fn empty_cache_is_extracted() {
    let mut session = session();
    let log = extract(&mut session, true, &[], &[]);
    assert!(log.jobs.is_empty());
    assert_eq!(log.messages, vec!["all-extracted"]);
    assert!(!session.task_running);
    assert!(extract_all(&mut session, "/out", &get_categories()).is_some());
}

#[test]
fn progress_ends_at_the_last_item() {
    let mut one = session();
    extract(&mut one, false, &[Some("m"), None], &[]);
    assert_eq!(get_progress(&one), Progress { item: 2, total: 2, stage: 0, stages: 3 });
    let mut other = session();
    extract(&mut other, false, &[Some("m")], &[Found::File("n", b"nothing")]);
    assert_eq!(get_progress(&other), Progress { item: 1, total: 1, stage: 1, stages: 3 });
}
