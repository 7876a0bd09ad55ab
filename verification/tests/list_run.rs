use asset_cache::list_run::{step_list, ListAction, ListEvent, ListRun};
use asset_cache::listing::{acquire_list, create_asset_info};
use asset_cache::session::{
    get_file_list, get_list_task_running, get_progress, get_status, update_file_list, Progress,
    Session,
};
use fluent_bundle::types::FluentValue;

enum Found {
    Unnamed,
    Closed,
    Broken,
    File(&'static str, &'static [u8]),
}

fn session() -> Session {
    let mut session = Session::new("/cache".to_string(), "Idling".to_string());
    update_file_list(&mut session, create_asset_info("old", None), false);
    session
}

fn names(session: &Session) -> Vec<String> {
    get_file_list(session).into_iter().map(|file| file.name).collect()
}

/// Runs a listing to its end. The text of a message is its id. Returns the printed lines
/// and the status messages.
fn list(
    session: &mut Session,
    mode: &str,
    cli_list_mode: bool,
    found: &[Found],
) -> (Vec<String>, Vec<String>) {
    let mut lines = Vec::new();
    let mut messages = Vec::new();
    let mut run = ListRun::new(mode.to_string(), cli_list_mode);
    let mut event = ListEvent::Try;
    loop {
        let step = step_list(session, run, event);
        run = step.run;
        lines.extend(step.lines);
        event = match step.action {
            ListAction::Wait => panic!("another listing runs"),
            ListAction::ReadDirectory => {
                assert!(get_file_list(session).is_empty());
                ListEvent::Opened(found.len())
            }
            ListAction::Inspect { index, read } => {
                assert_eq!(read, mode != "music");
                match found[index] {
                    Found::Unnamed => ListEvent::Unnamed,
                    Found::Closed => ListEvent::OpenFailed("closed".to_string()),
                    Found::Broken => ListEvent::ReadFailed,
                    Found::File(_, bytes) => ListEvent::Read(bytes.to_vec()),
                }
            }
            ListAction::Describe { index, copies } => match found[index] {
                Found::File(name, _) => {
                    ListEvent::Described((0..copies).map(|_| create_asset_info(name, None)).collect())
                }
                _ => unreachable!(),
            },
            ListAction::Render(message) => {
                messages.push(message.id.to_string());
                if let Some(FluentValue::String(error)) =
                    message.args.as_ref().and_then(|args| args.get("error"))
                {
                    messages.push(error.to_string());
                }
                ListEvent::Text(message.id.to_string())
            }
            ListAction::Stop => return (lines, messages),
        };
    }
}

#[test]
fn category_is_listed() {
    let mut session = session();
    let found = [
        Found::File("a", b"PNG"),
        Found::Unnamed,
        Found::Closed,
        Found::File("b", b"OggS"),
        Found::Broken,
        Found::File("c", b"WEBP and PNG"),
    ];
    let (lines, messages) = list(&mut session, "images", true, &found);
    assert!(lines.is_empty());
    assert_eq!(names(&session), vec!["a", "c", "c"]);
    assert_eq!(
        messages,
        vec![
            "reading-files",
            "failed-opening-file",
            "closed",
            "reading-files",
            "failed-opening-file",
            "reading-files",
            "idling"
        ]
    );
    assert!(!get_list_task_running(&session));
    assert_eq!(get_status(&session), "idling");
    assert_eq!(get_progress(&session), Progress { item: 6, total: 6, stage: 0, stages: 1 });
}

#[test]
fn everything_is_listed_and_printed() {
    let found = [Found::File("a", b""), Found::Unnamed, Found::File("b", b"")];
    let mut one = session();
    let (lines, messages) = list(&mut one, "music", true, &found);
    assert_eq!(lines, vec!["a", "b"]);
    assert_eq!(names(&one), vec!["a", "b"]);
    assert_eq!(messages, vec!["reading-files", "reading-files", "idling"]);
    let mut other = session();
    let (lines, _) = list(&mut other, "music", false, &found);
    assert!(lines.is_empty());
    assert_eq!(names(&other), vec!["a", "b"]);
}

#[test]
fn empty_directory_is_told() {
    for mode in ["music", "images"] {
        let mut session = session();
        let (lines, messages) = list(&mut session, mode, true, &[]);
        assert_eq!(lines, vec!["no-files"]);
        assert_eq!(names(&session), vec!["no-files"]);
        assert_eq!(messages, vec!["no-files", "idling"]);
        assert!(!get_list_task_running(&session));
    }
}

#[test]
fn listing_of_an_unknown_mode_is_left_running() {
    let mut one = session();
    let (_, messages) = list(&mut one, "other", false, &[Found::File("a", b"PNG")]);
    assert!(messages.is_empty());
    assert!(names(&one).is_empty());
    assert!(get_list_task_running(&one));
    let mut other = session();
    let (lines, _) = list(&mut other, "other", true, &[]);
    assert_eq!(lines, vec!["no-files"]);
    assert!(get_list_task_running(&other));
}

#[test]
fn second_listing_waits_for_the_first() {
    let mut session = session();
    let first = ListRun::new("music".to_string(), false);
    let step = step_list(&mut session, first, ListEvent::Try);
    assert!(matches!(step.action, ListAction::ReadDirectory));
    let step = step_list(&mut session, step.run, ListEvent::Opened(2));
    assert!(matches!(step.action, ListAction::Inspect { index: 0, read: false }));

    let second = ListRun::new("music".to_string(), false);
    let waiting = step_list(&mut session, second, ListEvent::Try);
    assert!(matches!(waiting.action, ListAction::Wait));

    let step = step_list(&mut session, step.run, ListEvent::Read(Vec::new()));
    assert!(matches!(step.action, ListAction::Describe { index: 0, copies: 1 }));
    let file = create_asset_info("a", None);
    let step = step_list(&mut session, step.run, ListEvent::Described(vec![file]));
    let step = step_list(&mut session, step.run, ListEvent::Text("reading".to_string()));
    assert!(!get_list_task_running(&session));
    let step = step_list(&mut session, step.run, ListEvent::Text("idle".to_string()));
    assert!(matches!(step.action, ListAction::Stop));
    assert_eq!(names(&session), vec!["a"]);

    let started = step_list(&mut session, waiting.run, ListEvent::Try);
    assert!(matches!(started.action, ListAction::ReadDirectory));
    assert!(names(&session).is_empty());
    assert!(!acquire_list(&mut session));
}
