use asset_cache::removal::{
    delete_all_directory_contents, finish_deletion, report_deleted, step_deletion, DeleteAction,
    DeleteEvent, DeleteRun,
};
use asset_cache::session::{get_file_list, get_progress, get_status, Progress, Session};
use asset_cache::tasks::{Probe, TaskStart};
use fluent_bundle::types::FluentValue;

fn session() -> Session {
    Session::new("/cache".to_string(), "Idling".to_string())
}

/// Runs a deletion to its end. The text of a message is its id. Returns the positions of
/// the entries that were to be deleted, and the status lines.
fn delete(session: &mut Session, outcomes: &[bool]) -> (Vec<usize>, Vec<String>) {
    let mut removed = Vec::new();
    let mut shown = Vec::new();
    let mut run = DeleteRun::new();
    let mut event = DeleteEvent::Opened(outcomes.len());
    loop {
        let (next, action) = step_deletion(session, run, event);
        run = next;
        shown.push(get_status(session));
        event = match action {
            DeleteAction::Remove(index) => {
                assert_eq!(
                    get_progress(session),
                    Progress { item: index + 1, total: outcomes.len(), stage: 0, stages: 1 }
                );
                assert!(session.task_running);
                removed.push(index);
                DeleteEvent::Removed(outcomes[index])
            }
            DeleteAction::Render(message) => DeleteEvent::Text(message.id.to_string()),
            DeleteAction::Stop => break,
        };
    }
    shown.dedup();
    (removed, shown)
}

#[test]
fn deletion_runs_alone() {
    let mut session = session();
    let start = delete_all_directory_contents(&mut session, "/d", &Probe::Failed("x".to_string()));
    assert!(matches!(start, TaskStart::Absent(_)));
    let start = delete_all_directory_contents(&mut session, "/d", &Probe::Directory);
    assert!(matches!(start, TaskStart::Started));
    let start = delete_all_directory_contents(&mut session, "/d", &Probe::Directory);
    assert!(matches!(start, TaskStart::Busy));
}

#[test]
fn deletion_is_reported() {
    let message = report_deleted(2, 3, true);
    assert_eq!(message.id, "deleting-files");
    assert_eq!(message.args.as_ref().unwrap().get("item"), Some(&FluentValue::from(2)));
    assert_eq!(report_deleted(2, 3, false).id, "failed-deleting-file");
}

#[test]
fn deletion_leaves_an_empty_list() {
    let mut session = session();
    delete_all_directory_contents(&mut session, "/d", &Probe::Directory);
    finish_deletion(&mut session, "No files".to_string());
    let files = get_file_list(&session);
    assert_eq!(files.len(), 1);
    assert_eq!(files[0].name, "No files");
    assert!(!session.task_running);
}

#[test]
fn every_entry_is_deleted() {
    let mut session = session();
    delete_all_directory_contents(&mut session, "/d", &Probe::Directory);
    let (removed, shown) = delete(&mut session, &[true, false, true]);
    assert_eq!(removed, vec![0, 1, 2]);
    assert_eq!(
        shown,
        vec!["Idling", "deleting-files", "failed-deleting-file", "deleting-files", "idling"]
    );
    assert!(!session.task_running);
    assert_eq!(get_progress(&session), Progress { item: 3, total: 3, stage: 0, stages: 1 });
    assert_eq!(get_file_list(&session)[0].name, "no-files");
}

#[test]
fn empty_directory_is_deleted() {
    let mut session = session();
    delete_all_directory_contents(&mut session, "/d", &Probe::Directory);
    let (removed, shown) = delete(&mut session, &[]);
    assert!(removed.is_empty());
    assert_eq!(shown, vec!["Idling", "idling"]);
    assert!(!session.task_running);
    assert_eq!(get_file_list(&session).len(), 1);
}
