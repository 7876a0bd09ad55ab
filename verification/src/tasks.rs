//! What the tasks that work through many files have in common.

use vstd::prelude::*;
use crate::messages::{plain, plain_message, Message};
use crate::session::{begin_task, update_progress, Progress, Session, SessionView};

verus! {

/// What stands at a path of the file system.
#[derive(Debug)]
pub enum Probe {
    Directory,
    File,
    Other,
    /// Nothing could be found out, for the given reason.
    Failed(String),
}

/// What is to be done when a task is to work on a directory.
#[derive(Debug)]
pub enum TaskStart {
    /// The task runs.
    Started,
    /// Another task runs, and nothing is done.
    Busy,
    /// The path is not that of a directory; this is the status message.
    NoDirectory(Message),
    /// Nothing could be found out of the path; this is the status message.
    Absent(Message),
}

/// What is done when a task is to work on a directory.
pub open spec fn starts_as(state: SessionView, probe: Probe, start: TaskStart) -> bool {
    match probe {
        Probe::Directory => if state.task_running {
            start is Busy
        } else {
            start is Started
        },
        Probe::File | Probe::Other => start matches TaskStart::NoDirectory(message) && message@
            == plain("error-check-logs"@),
        Probe::Failed(_) => start matches TaskStart::Absent(message) && message@ == plain(
            "idling"@,
        ),
    }
}

/// The state after a task was to work on a directory.
pub open spec fn after_start(state: SessionView, probe: Probe) -> SessionView {
    SessionView { task_running: state.task_running || probe is Directory, ..state }
}

/// Starts a task on a directory, from what stands at its path, unless a task runs.
pub fn start_on_directory(session: &mut Session, probe: &Probe) -> (res: TaskStart)
    ensures
        starts_as(old(session)@, *probe, res),
        final(session)@ == after_start(old(session)@, *probe),
{
    match probe {
        Probe::Directory => if begin_task(session) {
            TaskStart::Started
        } else {
            TaskStart::Busy
        },
        Probe::File | Probe::Other => TaskStart::NoDirectory(plain_message("error-check-logs")),
        Probe::Failed(_) => TaskStart::Absent(plain_message("idling")),
    }
}

/// How many of its items a task has begun.
#[derive(Debug)]
pub struct Counter {
    pub begun: usize,
    pub total: usize,
}

impl Counter {
    /// No more items were begun than there are.
    pub open spec fn valid(self) -> bool {
        self.begun <= self.total
    }

    /// A task that has begun none of its items.
    pub fn new(total: usize) -> (res: Counter)
        ensures
            res.valid(),
            res.begun == 0,
            res.total == total,
    {
        Counter { begun: 0, total }
    }
}

/// The progress of a task at an item.
pub open spec fn progress_at(item: int, total: usize, stage: usize, stages: usize) -> Progress {
    Progress { item: item as usize, total, stage, stages }
}

/// The progress when all items of a stage were begun: that of the last item, or `before`
/// where no item was left.
pub open spec fn progress_after(
    before: Progress,
    counter: Counter,
    stage: usize,
    stages: usize,
) -> Progress {
    if counter.begun < counter.total {
        progress_at(counter.total as int, counter.total, stage, stages)
    } else {
        before
    }
}

/// Begins the next item in the stage `stage`, counted from zero, of `stages`, and shows
/// the progress. Returns the number of the item, counted from one, or nothing where all
/// items were begun.
pub fn next_item(
    session: &mut Session,
    counter: &mut Counter,
    stage: usize,
    stages: usize,
) -> (res: Option<usize>)
    requires
        old(counter).valid(),
    ensures
        final(counter).valid(),
        final(counter).total == old(counter).total,
        match res {
            Some(item) => {
                &&& old(counter).begun < old(counter).total
                &&& item == old(counter).begun + 1
                &&& final(counter).begun == item
                &&& final(session)@ == old(session)@.with_progress(
                    progress_at(item as int, old(counter).total, stage, stages),
                )
            },
            None => {
                &&& old(counter).begun == old(counter).total
                &&& final(counter).begun == old(counter).begun
                &&& final(session)@ == old(session)@
            },
        },
{
    if counter.begun < counter.total {
        counter.begun += 1;
        let progress = Progress {
            item: counter.begun,
            total: counter.total,
            stage,
            stages,
        };
        update_progress(session, progress);
        Some(counter.begun)
    } else {
        None
    }
}

/// The part of a task that is done is never more than the whole, and it is the whole at
/// the last item of the last stage and only there.
pub proof fn progress_is_a_part_of_the_whole(progress: Progress)
    requires
        progress.valid(),
    ensures
        0 <= progress.parts_done() <= progress.parts(),
        0 < progress.parts(),
        progress.parts_done() == progress.parts() <==> progress.item == progress.total
            && progress.stage == progress.stages - 1,
{
    let (item, total, stage, stages) = (
        progress.item as int,
        progress.total as int,
        progress.stage as int,
        progress.stages as int,
    );
    assert(0 <= stage * total) by (nonlinear_arith)
        requires
            0 <= stage,
            0 < total,
    ;
    assert(stages * total == (stages - 1 - stage) * total + stage * total + total)
        by (nonlinear_arith);
    assert(0 <= (stages - 1 - stage) * total) by (nonlinear_arith)
        requires
            stage < stages,
            0 < total,
    ;
    assert(stage < stages - 1 ==> total <= (stages - 1 - stage) * total) by (nonlinear_arith)
        requires
            0 < total,
    ;
    assert(stage == stages - 1 ==> (stages - 1 - stage) * total == 0) by (nonlinear_arith);
}

/// One progress comes after another of the same task: at a later item of a stage, or in
/// a later stage.
pub open spec fn comes_after(later: Progress, earlier: Progress) -> bool {
    &&& later.stages == earlier.stages
    &&& 0 < later.item
    &&& earlier.stage < later.stage || (earlier.stage == later.stage && earlier.total
        == later.total && earlier.item < later.item)
}

/// As a task goes on, the part that is done grows: the two fractions of `parts_done` by
/// `parts` are in order.
pub proof fn progress_grows(earlier: Progress, later: Progress)
    requires
        earlier.valid(),
        later.valid(),
        comes_after(later, earlier),
    ensures
        earlier.parts_done() * later.parts() < later.parts_done() * earlier.parts(),
{
    let (n, e) = (earlier.stages as int, earlier.total as int);
    let (l, i, j) = (later.total as int, earlier.item as int, later.item as int);
    let (s, t) = (earlier.stage as int, later.stage as int);
    assert((i + s * e) * (n * l) < (j + t * l) * (n * e)) by (nonlinear_arith)
        requires
            0 <= i <= e,
            0 < e,
            0 < j <= l,
            0 < n,
            s < t || (s == t && e == l && i < j),
    {
        if s < t {
            assert((i + s * e) * l <= (e + s * e) * l);
            assert((e + s * e) * l == (s + 1) * l * e);
            assert((s + 1) * l <= t * l);
            assert((s + 1) * l * e <= t * l * e);
            assert(t * l * e < (j + t * l) * e);
        } else {
            assert((i + s * e) * l < (j + t * l) * e);
        }
        assert((i + s * e) * (n * l) == n * ((i + s * e) * l));
        assert((j + t * l) * (n * e) == n * ((j + t * l) * e));
        assert(n * ((i + s * e) * l) < n * ((j + t * l) * e));
    }
}

/// The next item of a task comes after the one before it.
pub proof fn next_item_comes_after(item: int, total: usize, stage: usize, stages: usize)
    requires
        0 <= item < total,
        stage < stages,
    ensures
        progress_at(item + 1, total, stage, stages).valid(),
        comes_after(
            progress_at(item + 1, total, stage, stages),
            progress_at(item, total, stage, stages),
        ),
{
}

/// A task starts where it is to work on a directory and no task runs. Where there is none,
/// the user is told, and nothing starts. Nothing else changes.
pub proof fn task_starts_on_a_free_directory(state: SessionView, probe: Probe, start: TaskStart)
    requires
        starts_as(state, probe, start),
    ensures
        start is Started <==> probe is Directory && !state.task_running,
        start is Busy <==> probe is Directory && state.task_running,
        start is NoDirectory <==> probe is File || probe is Other,
        start is Absent <==> probe is Failed,
        start matches TaskStart::NoDirectory(message) ==> message@.id == "error-check-logs"@
            && message@.args is None,
        start matches TaskStart::Absent(message) ==> message@.id == "idling"@
            && message@.args is None,
        after_start(state, probe) == (SessionView {
            task_running: state.task_running || start is Started,
            ..state
        }),
{
}

/// The progress at an item tells the item, how many there are, and the stage.
pub proof fn progress_tells_the_item(
    item: usize,
    total: usize,
    stage: usize,
    stages: usize,
    before: Progress,
    counter: Counter,
)
    ensures
        progress_at(item as int, total, stage, stages) == (Progress {
            item,
            total,
            stage,
            stages,
        }),
        counter.valid() <==> counter.begun <= counter.total,
        counter.begun < counter.total ==> progress_after(before, counter, stage, stages) == (
        Progress { item: counter.total, total: counter.total, stage, stages }),
        counter.begun == counter.total ==> progress_after(before, counter, stage, stages)
            == before,
{
}

} // verus!
