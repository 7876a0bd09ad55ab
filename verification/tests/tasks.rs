use asset_cache::session::{get_progress, get_request_repaint, Progress, Session};
use asset_cache::tasks::{next_item, start_on_directory, Counter, Probe, TaskStart};

fn session() -> Session {
    Session::new("/cache".to_string(), "Idling".to_string())
}

fn part(progress: Progress) -> f64 {
    let Progress { item, total, stage, stages } = progress;
    (item as f64 / total as f64 + stage as f64) / stages as f64
}

#[test]
fn items_are_counted_from_one() {
    let mut session = session();
    let mut counter = Counter::new(2);
    assert_eq!(next_item(&mut session, &mut counter, 0, 1), Some(1));
    assert_eq!(get_progress(&session), Progress { item: 1, total: 2, stage: 0, stages: 1 });
    assert!(get_request_repaint(&mut session));
    assert_eq!(next_item(&mut session, &mut counter, 0, 1), Some(2));
    assert_eq!(part(get_progress(&session)), 1.0);
    assert_eq!(next_item(&mut session, &mut counter, 0, 1), None);
    assert_eq!(part(get_progress(&session)), 1.0);
}

#[test]
fn task_without_items_has_no_progress() {
    let mut session = session();
    let mut counter = Counter::new(0);
    assert_eq!(next_item(&mut session, &mut counter, 0, 1), None);
    assert!(!get_request_repaint(&mut session));
}

#[test]
fn progress_grows_through_the_stages() {
    let mut session = session();
    let mut last = 0.0;
    for stage in 0..3 {
        let mut counter = Counter::new(4 - stage);
        while next_item(&mut session, &mut counter, stage, 3).is_some() {
            let now = part(get_progress(&session));
            assert!(last < now && now <= 1.0);
            last = now;
        }
    }
    assert_eq!(last, 1.0);
}

#[test]
fn task_starts_on_a_directory_only() {
    let mut session = session();
    match start_on_directory(&mut session, &Probe::File) {
        TaskStart::NoDirectory(message) => assert_eq!(message.id, "error-check-logs"),
        other => panic!("{:?}", other),
    }
    assert!(matches!(start_on_directory(&mut session, &Probe::Other), TaskStart::NoDirectory(_)));
    match start_on_directory(&mut session, &Probe::Failed("gone".to_string())) {
        TaskStart::Absent(message) => assert_eq!(message.id, "idling"),
        other => panic!("{:?}", other),
    }
    assert!(!session.task_running);
    assert!(matches!(start_on_directory(&mut session, &Probe::Directory), TaskStart::Started));
    assert!(session.task_running);
    assert!(matches!(start_on_directory(&mut session, &Probe::Directory), TaskStart::Busy));
}
