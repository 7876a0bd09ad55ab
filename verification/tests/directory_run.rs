use asset_cache::directory_run::{step_directory, DirectoryAction, DirectoryEvent, DirectoryRun};
use asset_cache::extraction::{extract_dir, Job};
use asset_cache::listing::create_asset_info;
use asset_cache::session::{
    get_file_list, get_progress, get_status, update_file_list, Progress, Session,
};
use asset_cache::tasks::Probe;

fn with_files(names: &[&str]) -> Session {
    let mut session = Session::new("/cache".to_string(), "Idling".to_string());
    for name in names {
        update_file_list(&mut session, create_asset_info(name, None), false);
    }
    extract_dir(&mut session, &Probe::Directory);
    session
}

fn told(job: &Job) -> String {
    format!("{} {} {}", job.origin, job.mode, job.destination)
}

/// Runs an extraction to its end. The text of a message is its id, the file `bad` cannot be
/// extracted, and listing finds the file `new`. Returns the files that were extracted and
/// the messages.
fn extract(session: &mut Session, refresh: bool, use_alias: bool) -> (Vec<String>, Vec<String>) {
    let mut jobs = Vec::new();
    let mut messages = Vec::new();
    let mut run = DirectoryRun::new(
        "/in".to_string(),
        "images".to_string(),
        "/out".to_string(),
        use_alias,
    );
    let mut event = DirectoryEvent::Begin(refresh);
    loop {
        let (next, action) = step_directory(session, run, event);
        run = next;
        event = match action {
            DirectoryAction::List => {
                update_file_list(session, create_asset_info("new", None), false);
                DirectoryEvent::Listed
            }
            DirectoryAction::LookUp(name) => DirectoryEvent::Alias(format!("my {}", name)),
            DirectoryAction::Extract(job) => {
                assert!(session.task_running);
                let result = if job.origin == "/in/bad" { "None" } else { "/out/x.png" };
                jobs.push(told(&job));
                DirectoryEvent::Extracted(result.to_string())
            }
            DirectoryAction::Render(message) => {
                messages.push(message.id.to_string());
                DirectoryEvent::Text(message.id.to_string())
            }
            DirectoryAction::Stop => return (jobs, messages),
        };
    }
}

#[test]
fn listed_files_are_extracted() {
    let mut session = with_files(&["a", "bad", "c"]);
    let (jobs, messages) = extract(&mut session, false, false);
    assert_eq!(
        jobs,
        vec!["/in/a images /out/a", "/in/bad images /out/bad", "/in/c images /out/c"]
    );
    assert_eq!(
        messages,
        vec!["extracting-files", "failed-extracting-file", "extracting-files", "all-extracted"]
    );
    assert_eq!(get_progress(&session), Progress { item: 3, total: 3, stage: 0, stages: 1 });
    assert_eq!(get_status(&session), "all-extracted");
    assert!(!session.task_running);
    assert_eq!(get_file_list(&session).len(), 3);
}

#[test]
fn files_are_extracted_under_their_aliases() {
    let mut session = with_files(&["a"]);
    let (jobs, _) = extract(&mut session, false, true);
    assert_eq!(jobs, vec!["/in/a images /out/my a"]);
}

#[test]
fn directory_is_listed_before_it_is_extracted() {
    let mut session = with_files(&["a"]);
    let (jobs, _) = extract(&mut session, true, false);
    assert_eq!(jobs, vec!["/in/a images /out/a", "/in/new images /out/new"]);
}

#[test]
fn nothing_is_extracted_where_nothing_is_listed() {
    let mut session = with_files(&[]);
    let (jobs, messages) = extract(&mut session, false, true);
    assert!(jobs.is_empty());
    assert_eq!(messages, vec!["all-extracted"]);
    assert!(!session.task_running);
}
