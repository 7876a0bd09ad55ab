//! The state that the tasks and the user interface share.

use vstd::prelude::*;
use std::time::SystemTime;
use crate::text::optional_text;

verus! {

/// A point in time as the system's clock tells it.
#[verifier::external_type_specification]
#[verifier::external_body]
pub struct ExSystemTime(SystemTime);

/// A file of the cache.
#[derive(Debug)]
pub struct AssetInfo {
    pub name: String,
    pub size: u64,
    pub last_modified: Option<SystemTime>,
}

/// A file of the cache, as a value.
#[verifier::ext_equal]
pub struct AssetView {
    pub name: Seq<char>,
    pub size: u64,
    pub last_modified: Option<SystemTime>,
}

impl View for AssetInfo {
    type V = AssetView;

    open spec fn view(&self) -> AssetView {
        AssetView { name: self.name@, size: self.size, last_modified: self.last_modified }
    }
}

impl Clone for AssetInfo {
    fn clone(&self) -> (res: Self)
        ensures
            res@ == self@,
    {
        AssetInfo {
            name: self.name.clone(),
            size: self.size,
            last_modified: self.last_modified,
        }
    }
}

/// The files of a list, as values.
pub open spec fn assets(list: Seq<AssetInfo>) -> Seq<AssetView> {
    Seq::new(list.len(), |i: int| list[i]@)
}

/// How far a task has come: it works on item `item` of `total` in the stage `stage`,
/// counted from zero, of `stages`.
#[derive(Debug, Clone, Copy, PartialEq, Eq, Structural)]
pub struct Progress {
    pub item: usize,
    pub total: usize,
    pub stage: usize,
    pub stages: usize,
}

impl Progress {
    /// The task works on one of its items, in one of its stages.
    pub open spec fn valid(self) -> bool {
        self.item <= self.total && 0 < self.total && self.stage < self.stages
    }

    /// The part of the task that is done is `parts_done() / parts()`.
    pub open spec fn parts_done(self) -> int {
        self.item + self.stage * self.total
    }

    /// See `parts_done`.
    pub open spec fn parts(self) -> int {
        self.stages * self.total
    }
}

/// The progress of a task that is done.
pub open spec fn all_done() -> Progress {
    Progress { item: 1, total: 1, stage: 0, stages: 1 }
}

/// The shared state.
#[derive(Debug)]
pub struct Session {
    /// The directory in which the client keeps its cache.
    pub cache_directory: String,
    /// The temporary directory, once there is one.
    pub temp_directory: Option<String>,
    /// The status line.
    pub status: String,
    /// The files that were listed.
    pub file_list: Vec<AssetInfo>,
    /// Those of the listed files that the user searches for.
    pub filtered_file_list: Vec<AssetInfo>,
    /// Whether the user interface has something new to show.
    pub request_repaint: bool,
    /// How far the running task has come.
    pub progress: Progress,
    /// Whether files are being listed.
    pub list_task_running: bool,
    /// Whether the listing of files is asked to stop.
    pub stop_list_running: bool,
    /// Whether files are being deleted or extracted.
    pub task_running: bool,
}

/// The shared state, as a value.
#[verifier::ext_equal]
pub struct SessionView {
    pub cache_directory: Seq<char>,
    pub temp_directory: Option<Seq<char>>,
    pub status: Seq<char>,
    pub file_list: Seq<AssetView>,
    pub filtered_file_list: Seq<AssetView>,
    pub request_repaint: bool,
    pub progress: Progress,
    pub list_task_running: bool,
    pub stop_list_running: bool,
    pub task_running: bool,
}

impl View for Session {
    type V = SessionView;

    open spec fn view(&self) -> SessionView {
        SessionView {
            cache_directory: self.cache_directory@,
            temp_directory: optional_text(self.temp_directory),
            status: self.status@,
            file_list: assets(self.file_list@),
            filtered_file_list: assets(self.filtered_file_list@),
            request_repaint: self.request_repaint,
            progress: self.progress,
            list_task_running: self.list_task_running,
            stop_list_running: self.stop_list_running,
            task_running: self.task_running,
        }
    }
}

impl SessionView {
    /// The state with another status line, which is to be shown.
    pub open spec fn with_status(self, status: Seq<char>) -> SessionView {
        SessionView { status, request_repaint: true, ..self }
    }

    /// The state with another progress, which is to be shown.
    pub open spec fn with_progress(self, progress: Progress) -> SessionView {
        SessionView { progress, request_repaint: true, ..self }
    }

    /// The state once everything new was shown.
    pub open spec fn shown(self) -> SessionView {
        SessionView { request_repaint: false, ..self }
    }

    /// The state with another cache directory.
    pub open spec fn with_cache_directory(self, cache_directory: Seq<char>) -> SessionView {
        SessionView { cache_directory, ..self }
    }

    /// The state with a temporary directory.
    pub open spec fn with_temp_directory(self, path: Seq<char>) -> SessionView {
        SessionView { temp_directory: Some(path), ..self }
    }

    /// The state with other listed files.
    pub open spec fn with_files(self, file_list: Seq<AssetView>) -> SessionView {
        SessionView { file_list, ..self }
    }
}

/// The state at the start: nothing is listed, and nothing runs.
pub open spec fn initial(cache_directory: Seq<char>, status: Seq<char>) -> SessionView {
    SessionView {
        cache_directory,
        temp_directory: None,
        status,
        file_list: Seq::empty(),
        filtered_file_list: Seq::empty(),
        request_repaint: false,
        progress: all_done(),
        list_task_running: false,
        stop_list_running: false,
        task_running: false,
    }
}

impl Session {
    /// The state at the start, with the given cache directory and status line.
    pub fn new(cache_directory: String, status: String) -> (res: Session)
        ensures
            res@ == initial(cache_directory@, status@),
    {
        let res = Session {
            cache_directory,
            temp_directory: None,
            status,
            file_list: Vec::new(),
            filtered_file_list: Vec::new(),
            request_repaint: false,
            progress: Progress { item: 1, total: 1, stage: 0, stages: 1 },
            list_task_running: false,
            stop_list_running: false,
            task_running: false,
        };
        assert(res@ =~= initial(cache_directory@, status@));
        res
    }
}

/// Sets the status line and asks for it to be shown.
pub fn update_status(session: &mut Session, value: String)
    ensures
        final(session)@ == old(session)@.with_status(value@),
{
    session.status = value;
    session.request_repaint = true;
}

/// Sets the progress and asks for it to be shown.
pub fn update_progress(session: &mut Session, value: Progress)
    ensures
        final(session)@ == old(session)@.with_progress(value),
{
    session.progress = value;
    session.request_repaint = true;
}

/// Adds a file to the list. Returns the line to print: the name of the file, where the
/// files are listed on the command line.
pub fn update_file_list(session: &mut Session, value: AssetInfo, cli_list_mode: bool) -> (res:
    Option<String>)
    ensures
        final(session)@ == old(session)@.with_files(old(session)@.file_list.push(value@)),
        match res {
            Some(line) => cli_list_mode && line@ == value@.name,
            None => !cli_list_mode,
        },
{
    let line = if cli_list_mode {
        Some(value.name.clone())
    } else {
        None
    };
    session.file_list.push(value);
    assert(session@.file_list =~= old(session)@.file_list.push(value@));
    line
}

/// Removes all files from the list.
pub fn clear_file_list(session: &mut Session)
    ensures
        final(session)@ == old(session)@.with_files(Seq::empty()),
{
    session.file_list = Vec::new();
    assert(session@.file_list =~= Seq::empty());
}

fn clone_assets(list: &Vec<AssetInfo>) -> (res: Vec<AssetInfo>)
    ensures
        assets(res@) == assets(list@),
{
    let mut res: Vec<AssetInfo> = Vec::new();
    let mut i: usize = 0;
    while i < list.len()
        invariant
            i <= list.len(),
            assets(res@) =~= assets(list@).take(i as int),
        decreases list.len() - i,
    {
        let ghost before = res@;
        res.push(list[i].clone());
        assert(assets(res@) =~= assets(before).push(list@[i as int]@));
        i += 1;
    }
    res
}

/// The files that were listed.
pub fn get_file_list(session: &Session) -> (res: Vec<AssetInfo>)
    ensures
        assets(res@) == session@.file_list,
{
    clone_assets(&session.file_list)
}

/// Those of the listed files that the user searches for.
pub fn get_filtered_file_list(session: &Session) -> (res: Vec<AssetInfo>)
    ensures
        assets(res@) == session@.filtered_file_list,
{
    clone_assets(&session.filtered_file_list)
}

/// The cache directory.
pub fn get_cache_directory(session: &Session) -> (res: String)
    ensures
        res@ == session@.cache_directory,
{
    session.cache_directory.clone()
}

/// Sets the cache directory.
pub fn set_cache_directory(session: &mut Session, value: String)
    ensures
        final(session)@ == old(session)@.with_cache_directory(value@),
{
    session.cache_directory = value;
}

/// The status line.
pub fn get_status(session: &Session) -> (res: String)
    ensures
        res@ == session@.status,
{
    session.status.clone()
}

/// How far the running task has come.
pub fn get_progress(session: &Session) -> (res: Progress)
    ensures
        res == session@.progress,
{
    session.progress
}

/// Whether files are being listed.
pub fn get_list_task_running(session: &Session) -> (res: bool)
    ensures
        res == session@.list_task_running,
{
    session.list_task_running
}

/// Whether there is something new to show. Once told, it is taken as shown.
pub fn get_request_repaint(session: &mut Session) -> (res: bool)
    ensures
        res == old(session)@.request_repaint,
        final(session)@ == old(session)@.shown(),
{
    let request = session.request_repaint;
    session.request_repaint = false;
    request
}

/// Starts a task that deletes or extracts files, unless one runs. Returns whether it
/// was started.
pub fn begin_task(session: &mut Session) -> (res: bool)
    ensures
        res == !old(session)@.task_running,
        final(session)@ == (SessionView { task_running: true, ..old(session)@ }),
{
    let free = !session.task_running;
    session.task_running = true;
    free
}

/// Ends the task that deletes or extracts files.
pub fn end_task(session: &mut Session)
    ensures
        final(session)@ == (SessionView { task_running: false, ..old(session)@ }),
{
    session.task_running = false;
}

/// A new status line or progress is announced, and announced once: when it was shown,
/// nothing is left to show, and it stays.
pub proof fn news_is_announced_once(state: SessionView, status: Seq<char>, progress: Progress)
    ensures
        state.with_status(status).request_repaint,
        !state.with_status(status).shown().request_repaint,
        state.with_status(status).shown().status == status,
        state.with_progress(progress).request_repaint,
        !state.with_progress(progress).shown().request_repaint,
        state.with_progress(progress).shown().progress == progress,
{
}

/// The cache directory that was set last is the one that is used, whatever else is set
/// after it.
pub proof fn cache_directory_is_kept(
    state: SessionView,
    first: Seq<char>,
    last: Seq<char>,
    status: Seq<char>,
    progress: Progress,
    files: Seq<AssetView>,
)
    ensures
        state.with_cache_directory(first).with_cache_directory(last).with_status(
            status,
        ).with_progress(progress).with_files(files).shown().cache_directory == last,
{
}

/// What is set in the state is set to just that, and nothing else changes but what asks for
/// it to be shown.
pub proof fn only_what_is_set_changes(
    state: SessionView,
    text: Seq<char>,
    progress: Progress,
    files: Seq<AssetView>,
)
    ensures
        state.with_status(text) == (SessionView { status: text, request_repaint: true, ..state }),
        state.with_progress(progress) == (SessionView {
            progress,
            request_repaint: true,
            ..state
        }),
        state.with_files(files) == (SessionView { file_list: files, ..state }),
        state.with_cache_directory(text) == (SessionView { cache_directory: text, ..state }),
        state.with_temp_directory(text) == (SessionView { temp_directory: Some(text), ..state }),
        state.shown() == (SessionView { request_repaint: false, ..state }),
{
}

/// At the start nothing is listed, nothing runs, nothing is new, and nothing is left to do.
pub proof fn start_is_idle(cache_directory: Seq<char>, status: Seq<char>)
    ensures
        ({
            let start = initial(cache_directory, status);
            &&& start.cache_directory == cache_directory
            &&& start.status == status
            &&& start.temp_directory is None
            &&& start.file_list.len() == 0
            &&& start.filtered_file_list.len() == 0
            &&& !start.request_repaint
            &&& !start.list_task_running
            &&& !start.stop_list_running
            &&& !start.task_running
            &&& start.progress.parts_done() == start.progress.parts()
            &&& start.progress.valid()
            &&& start.progress.stages == 1
            &&& start.progress.total == 1
        }),
{
}

/// The state as a value holds all that the state holds, and nothing of a listed file is
/// lost.
pub proof fn state_is_all_it_holds(session: Session, file: AssetInfo, list: Seq<AssetInfo>)
    ensures
        session@.cache_directory == session.cache_directory@,
        session@.temp_directory is Some <==> session.temp_directory is Some,
        session.temp_directory matches Some(path) ==> session@.temp_directory == Some(path@),
        session@.status == session.status@,
        session@.file_list == assets(session.file_list@),
        session@.filtered_file_list == assets(session.filtered_file_list@),
        session@.request_repaint == session.request_repaint,
        session@.progress == session.progress,
        session@.list_task_running == session.list_task_running,
        session@.stop_list_running == session.stop_list_running,
        session@.task_running == session.task_running,
        file@.name == file.name@,
        file@.size == file.size,
        file@.last_modified == file.last_modified,
        assets(list).len() == list.len(),
        forall|i: int| 0 <= i < list.len() ==> #[trigger] assets(list)[i] == list[i]@,
{
}

/// The part of a task that is done is that of the stages before, and in its stage that of
/// the items up to the one at hand.
pub proof fn parts_are_counted_in_items(progress: Progress)
    ensures
        progress.valid() <==> progress.item <= progress.total && 0 < progress.total
            && progress.stage < progress.stages,
        progress.parts_done() == progress.stage * progress.total + progress.item,
        progress.parts() == progress.stages * progress.total,
{
}

} // verus!
