//! Deleting the contents of a directory.

use vstd::prelude::*;
use crate::listing::{asset_info, create_no_files};
use crate::messages::{counted, counted_message, plain, plain_message, Message, MessageView};
use crate::session::{
    clear_file_list, end_task, update_file_list, update_status, AssetView, Progress, Session,
    SessionView,
};
use crate::tasks::{
    after_start, next_item, progress_after, progress_at, start_on_directory, starts_as, Counter,
    Probe, TaskStart,
};

verus! {

/// Starts the deletion of everything in the directory `dir`, from what stands at its
/// path, unless a task runs. The path must not be empty, lest everything be deleted.
pub fn delete_all_directory_contents(session: &mut Session, dir: &str, probe: &Probe) -> (res:
    TaskStart)
    requires
        dir@.len() > 0,
    ensures
        starts_as(old(session)@, *probe, res),
        final(session)@ == after_start(old(session)@, *probe),
{
    start_on_directory(session, probe)
}

/// The status message after an entry was deleted, or could not be.
pub open spec fn deletion_status(item: int, total: int, deleted: bool) -> MessageView {
    counted(
        if deleted {
            "deleting-files"@
        } else {
            "failed-deleting-file"@
        },
        item,
        total,
    )
}

/// The state after the deletion: the list holds nothing but the entry `no_files`, and no
/// task runs.
pub open spec fn after_deletion(state: SessionView, no_files: Seq<char>) -> SessionView {
    SessionView {
        file_list: seq![asset_info(no_files, None)],
        task_running: false,
        ..state
    }
}

/// The status message after an entry was deleted, or could not be.
pub fn report_deleted(item: usize, total: usize, deleted: bool) -> (res: Message)
    ensures
        res@ == deletion_status(item as int, total as int, deleted),
{
    if deleted {
        counted_message("deleting-files", item, total)
    } else {
        counted_message("failed-deleting-file", item, total)
    }
}

/// Ends the deletion: the list holds nothing but the entry `no_files`.
pub fn finish_deletion(session: &mut Session, no_files: String)
    ensures
        final(session)@ == after_deletion(old(session)@, no_files@),
{
    clear_file_list(session);
    let entry = create_no_files(no_files);
    update_file_list(session, entry, false);
    end_task(session);
    assert(session@.file_list =~= seq![asset_info(no_files@, None)]);
}

/// What a deletion waits for.
#[derive(Debug, Clone, Copy, PartialEq, Eq, Structural)]
pub enum DeletePhase {
    /// The number of entries of the directory.
    Opening,
    /// Whether the entry that was begun last could be deleted.
    Removing,
    /// The text of its status message.
    Reporting,
    /// The text of the only entry of the list.
    Emptying,
    /// The text of the last status message.
    Closing,
    /// Nothing: it has ended.
    Stopped,
}

/// A deletion that runs.
#[derive(Debug)]
pub struct DeleteRun {
    pub counter: Counter,
    pub phase: DeletePhase,
}

/// What came of what was to be done.
#[derive(Debug)]
pub enum DeleteEvent {
    /// The directory was read, and has this many entries.
    Opened(usize),
    /// The entry was deleted, or could not be.
    Removed(bool),
    /// The text of the message.
    Text(String),
}

/// What came of what was to be done, as a value.
pub enum DeleteEventView {
    Opened(usize),
    Removed(bool),
    Text(Seq<char>),
}

impl View for DeleteEvent {
    type V = DeleteEventView;

    open spec fn view(&self) -> DeleteEventView {
        match self {
            DeleteEvent::Opened(total) => DeleteEventView::Opened(*total),
            DeleteEvent::Removed(deleted) => DeleteEventView::Removed(*deleted),
            DeleteEvent::Text(text) => DeleteEventView::Text(text@),
        }
    }
}

/// What is to be done next.
#[derive(Debug)]
pub enum DeleteAction {
    /// The entry at this position, counted from zero, is deleted.
    Remove(usize),
    /// The text of the message is looked up.
    Render(Message),
    /// Nothing.
    Stop,
}

/// What is to be done next, as a value.
pub enum DeleteActionView {
    Remove(int),
    Render(MessageView),
    Stop,
}

impl View for DeleteAction {
    type V = DeleteActionView;

    open spec fn view(&self) -> DeleteActionView {
        match self {
            DeleteAction::Remove(index) => DeleteActionView::Remove(*index as int),
            DeleteAction::Render(message) => DeleteActionView::Render(message@),
            DeleteAction::Stop => DeleteActionView::Stop,
        }
    }
}

/// The deletion waits for such an event.
pub open spec fn awaits_deletion(run: DeleteRun, event: DeleteEventView) -> bool {
    match event {
        DeleteEventView::Opened(_) => run.phase is Opening,
        DeleteEventView::Removed(_) => run.phase is Removing,
        DeleteEventView::Text(_) => run.phase is Reporting || run.phase is Emptying
            || run.phase is Closing,
    }
}

/// What is to be done is what the deletion waits for.
pub open spec fn deletion_does(run: DeleteRun, action: DeleteActionView) -> bool {
    &&& run.counter.valid()
    &&& match action {
        DeleteActionView::Remove(index) => run.phase is Removing && 0 <= index
            == run.counter.begun - 1,
        DeleteActionView::Render(_) => run.phase is Reporting || run.phase is Emptying
            || run.phase is Closing,
        DeleteActionView::Stop => run.phase is Stopped,
    }
}

/// The state, the deletion and what is to be done when it goes on to the next entry.
pub open spec fn deletion_goes_on(state: SessionView, counter: Counter) -> (
    SessionView,
    DeleteRun,
    DeleteActionView,
) {
    if counter.begun < counter.total {
        (
            state.with_progress(progress_at(counter.begun + 1, counter.total, 0, 1)),
            DeleteRun {
                counter: Counter { begun: (counter.begun + 1) as usize, total: counter.total },
                phase: DeletePhase::Removing,
            },
            DeleteActionView::Remove(counter.begun as int),
        )
    } else {
        (
            state,
            DeleteRun { counter, phase: DeletePhase::Emptying },
            DeleteActionView::Render(plain("no-files"@)),
        )
    }
}

/// The state, the deletion and what is to be done after an event.
pub open spec fn deletion_step(state: SessionView, run: DeleteRun, event: DeleteEventView) -> (
    SessionView,
    DeleteRun,
    DeleteActionView,
) {
    match event {
        DeleteEventView::Opened(total) => deletion_goes_on(state, Counter { begun: 0, total }),
        DeleteEventView::Removed(deleted) => (
            state,
            DeleteRun { phase: DeletePhase::Reporting, ..run },
            DeleteActionView::Render(
                deletion_status(run.counter.begun as int, run.counter.total as int, deleted),
            ),
        ),
        DeleteEventView::Text(text) => match run.phase {
            DeletePhase::Reporting => deletion_goes_on(state.with_status(text), run.counter),
            DeletePhase::Emptying => (
                after_deletion(state, text),
                DeleteRun { phase: DeletePhase::Closing, ..run },
                DeleteActionView::Render(plain("idling"@)),
            ),
            _ => (
                state.with_status(text),
                DeleteRun { phase: DeletePhase::Stopped, ..run },
                DeleteActionView::Stop,
            ),
        },
    }
}

impl DeleteRun {
    /// A deletion at its start: no entry was begun, and it waits for the number of entries.
    pub fn new() -> (res: DeleteRun)
        ensures
            res == (DeleteRun {
                counter: Counter { begun: 0, total: 0 },
                phase: DeletePhase::Opening,
            }),
    {
        DeleteRun { counter: Counter::new(0), phase: DeletePhase::Opening }
    }
}

fn next_removal(session: &mut Session, counter: Counter) -> (res: (DeleteRun, DeleteAction))
    requires
        counter.valid(),
    ensures
        deletion_does(res.0, res.1@),
        (final(session)@, res.0, res.1@) == deletion_goes_on(old(session)@, counter),
{
    let mut counter = counter;
    match next_item(session, &mut counter, 0, 1) {
        Some(item) => (
            DeleteRun { counter, phase: DeletePhase::Removing },
            DeleteAction::Remove(item - 1),
        ),
        None => (
            DeleteRun { counter, phase: DeletePhase::Emptying },
            DeleteAction::Render(plain_message("no-files")),
        ),
    }
}

/// Takes up an event, and tells what is to be done next. While an entry is deleted or a
/// text looked up, others may use the state.
pub fn step_deletion(session: &mut Session, run: DeleteRun, event: DeleteEvent) -> (res: (
    DeleteRun,
    DeleteAction,
))
    requires
        run.counter.valid(),
        awaits_deletion(run, event@),
    ensures
        deletion_does(res.0, res.1@),
        (final(session)@, res.0, res.1@) == deletion_step(old(session)@, run, event@),
{
    match event {
        DeleteEvent::Opened(total) => next_removal(session, Counter::new(total)),
        DeleteEvent::Removed(deleted) => {
            let report = report_deleted(run.counter.begun, run.counter.total, deleted);
            (
                DeleteRun { counter: run.counter, phase: DeletePhase::Reporting },
                DeleteAction::Render(report),
            )
        },
        DeleteEvent::Text(text) => match run.phase {
            DeletePhase::Reporting => {
                update_status(session, text);
                next_removal(session, run.counter)
            },
            DeletePhase::Emptying => {
                finish_deletion(session, text);
                (
                    DeleteRun { counter: run.counter, phase: DeletePhase::Closing },
                    DeleteAction::Render(plain_message("idling")),
                )
            },
            _ => {
                update_status(session, text);
                (
                    DeleteRun { counter: run.counter, phase: DeletePhase::Stopped },
                    DeleteAction::Stop,
                )
            },
        },
    }
}

/// How many steps a deletion has left at most.
pub open spec fn deletion_steps_left(run: DeleteRun) -> int {
    let entries = run.counter.total - run.counter.begun;
    match run.phase {
        DeletePhase::Removing => 2 * entries + 4,
        DeletePhase::Reporting => 2 * entries + 3,
        DeletePhase::Emptying => 2,
        DeletePhase::Closing => 1,
        _ => 0,
    }
}

/// The state when a deletion has run to its end, and the positions of the entries that it
/// deleted, if nobody else uses the state. `deletes` tells whether the entry at a position
/// can be deleted, `text` the text of a message.
pub open spec fn deletion_outcome(
    state: SessionView,
    run: DeleteRun,
    action: DeleteActionView,
    deletes: spec_fn(int) -> bool,
    text: spec_fn(MessageView) -> Seq<char>,
) -> (SessionView, Seq<int>)
    decreases deletion_steps_left(run),
{
    if !deletion_does(run, action) {
        (state, Seq::empty())
    } else {
        match action {
            DeleteActionView::Remove(index) => {
                let (s, r, a) = deletion_step(
                    state,
                    run,
                    DeleteEventView::Removed(deletes(index)),
                );
                let (end, deleted) = deletion_outcome(s, r, a, deletes, text);
                (end, seq![index] + deleted)
            },
            DeleteActionView::Render(message) => {
                let (s, r, a) = deletion_step(state, run, DeleteEventView::Text(text(message)));
                deletion_outcome(s, r, a, deletes, text)
            },
            DeleteActionView::Stop => (state, Seq::empty()),
        }
    }
}

/// A deletion asks for every entry to be deleted, each once and in order, whether the ones
/// before could be or not. When it has ended, no task runs, the list tells that there are
/// no files, the status line is that of an idle program, and the progress is that of the
/// last entry, if there was one. Everything else is as it was.
pub proof fn deletion_deletes_everything(
    state: SessionView,
    start: DeleteRun,
    total: usize,
    deletes: spec_fn(int) -> bool,
    text: spec_fn(MessageView) -> Seq<char>,
)
    requires
        start.phase is Opening,
    ensures
        ({
            let (s, r, a) = deletion_step(state, start, DeleteEventView::Opened(total));
            let (end, deleted) = deletion_outcome(s, r, a, deletes, text);
            &&& deleted == Seq::new(total as nat, |i: int| i)
            &&& end == SessionView {
                status: text(plain("idling"@)),
                file_list: seq![asset_info(text(plain("no-files"@)), None)],
                request_repaint: true,
                progress: progress_after(state.progress, Counter { begun: 0, total }, 0, 1),
                task_running: false,
                ..state
            }
        }),
{
    let counter = Counter { begun: 0, total };
    deletion_from(state, counter, deletes, text);
    let (s, r, a) = deletion_goes_on(state, counter);
    let (end, deleted) = deletion_outcome(s, r, a, deletes, text);
    assert(deleted =~= Seq::new(total as nat, |i: int| i));
}

proof fn deletion_from(
    state: SessionView,
    counter: Counter,
    deletes: spec_fn(int) -> bool,
    text: spec_fn(MessageView) -> Seq<char>,
)
    requires
        counter.valid(),
    ensures
        ({
            let (s, r, a) = deletion_goes_on(state, counter);
            let (end, deleted) = deletion_outcome(s, r, a, deletes, text);
            &&& deleted == Seq::new(
                (counter.total - counter.begun) as nat,
                |i: int| counter.begun + i,
            )
            &&& end == SessionView {
                status: text(plain("idling"@)),
                file_list: seq![asset_info(text(plain("no-files"@)), None)],
                request_repaint: true,
                progress: progress_after(state.progress, counter, 0, 1),
                task_running: false,
                ..state
            }
        }),
    decreases counter.total - counter.begun,
{
    reveal_with_fuel(deletion_outcome, 4);
    let (s, r, a) = deletion_goes_on(state, counter);
    let (end, deleted) = deletion_outcome(s, r, a, deletes, text);
    if counter.begun < counter.total {
        let index = counter.begun as int;
        let report = deletion_status(index + 1, counter.total as int, deletes(index));
        let shown = s.with_status(text(report));
        deletion_from(shown, r.counter, deletes, text);
        let (s2, r2, a2) = deletion_goes_on(shown, r.counter);
        let (end2, deleted2) = deletion_outcome(s2, r2, a2, deletes, text);
        assert(deleted == seq![index] + deleted2);
        assert(deleted =~= Seq::new(
            (counter.total - counter.begun) as nat,
            |i: int| counter.begun + i,
        ));
    } else {
        assert(deleted =~= Seq::new(0, |i: int| counter.begun + i));
    }
}

/// While a task that deletes or extracts files runs, no other is started, and the attempt
/// changes nothing.
pub proof fn tasks_exclude_one_another(state: SessionView, probe: Probe, start: TaskStart)
    requires
        state.task_running,
        starts_as(state, probe, start),
    ensures
        !(start is Started),
        after_start(state, probe) == state,
{
}

/// Step by step: an entry is deleted, the status line tells how it went, with the number of
/// the entry and of all, and the next one follows, with its progress. Behind the last one
/// the list is emptied and the task ends.
pub proof fn deletion_step_by_step(
    state: SessionView,
    begun: usize,
    total: usize,
    deleted: bool,
    text: Seq<char>,
)
    requires
        begun <= total,
    ensures
        ({
            let counter = Counter { begun, total };
            let at = |phase: DeletePhase| DeleteRun { counter, phase };
            let more = Counter { begun: (begun + 1) as usize, total };
            let told = SessionView { status: text, request_repaint: true, ..state };
            &&& deletion_step(
                state,
                at(DeletePhase::Removing),
                DeleteEventView::Removed(deleted),
            ) == (
                state,
                at(DeletePhase::Reporting),
                DeleteActionView::Render(
                    counted(
                        if deleted {
                            "deleting-files"@
                        } else {
                            "failed-deleting-file"@
                        },
                        begun as int,
                        total as int,
                    ),
                ),
            )
            &&& begun < total ==> deletion_step(
                state,
                at(DeletePhase::Reporting),
                DeleteEventView::Text(text),
            ) == (
                SessionView {
                    progress: Progress { item: (begun + 1) as usize, total, stage: 0, stages: 1 },
                    ..told
                },
                DeleteRun { counter: more, phase: DeletePhase::Removing },
                DeleteActionView::Remove(begun as int),
            )
            &&& begun == total ==> deletion_step(
                state,
                at(DeletePhase::Reporting),
                DeleteEventView::Text(text),
            ) == (
                told,
                at(DeletePhase::Emptying),
                DeleteActionView::Render(plain("no-files"@)),
            )
            &&& deletion_step(state, at(DeletePhase::Emptying), DeleteEventView::Text(text)) == (
                SessionView {
                    file_list: seq![AssetView { name: text, size: 0, last_modified: None }],
                    task_running: false,
                    ..state
                },
                at(DeletePhase::Closing),
                DeleteActionView::Render(plain("idling"@)),
            )
            &&& deletion_step(state, at(DeletePhase::Closing), DeleteEventView::Text(text)) == (
                told,
                at(DeletePhase::Stopped),
                DeleteActionView::Stop,
            )
        }),
{
}

/// What is to be done for a deletion, and what comes of it, is as a value all that it holds.
pub proof fn deletion_is_all_it_tells(index: usize, deleted: bool, text: String, message: Message)
    ensures
        (DeleteEvent::Opened(index))@ == DeleteEventView::Opened(index),
        (DeleteEvent::Removed(deleted))@ == DeleteEventView::Removed(deleted),
        (DeleteEvent::Text(text))@ == DeleteEventView::Text(text@),
        (DeleteAction::Remove(index))@ == DeleteActionView::Remove(index as int),
        (DeleteAction::Render(message))@ == DeleteActionView::Render(message@),
        (DeleteAction::Stop)@ == DeleteActionView::Stop,
{
}

/// Whatever comes of what is to be done can be taken up.
pub proof fn every_outcome_is_awaited_in_deletion(
    run: DeleteRun,
    action: DeleteActionView,
    deleted: bool,
    text: Seq<char>,
    total: usize,
)
    ensures
        run.phase is Opening ==> awaits_deletion(run, DeleteEventView::Opened(total)),
        deletion_does(run, action) ==> run.counter.valid(),
        deletion_does(run, action) && action is Remove ==> awaits_deletion(
            run,
            DeleteEventView::Removed(deleted),
        ),
        deletion_does(run, action) && action is Render ==> awaits_deletion(
            run,
            DeleteEventView::Text(text),
        ),
{
}

/// A deletion begins with the first entry of the directory, or empties the list where the
/// directory has none.
pub proof fn deletion_begins_with_the_first_entry(
    state: SessionView,
    run: DeleteRun,
    total: usize,
)
    requires
        run.phase is Opening,
    ensures
        total > 0 ==> deletion_step(state, run, DeleteEventView::Opened(total)) == (
            SessionView {
                progress: Progress { item: 1, total, stage: 0, stages: 1 },
                request_repaint: true,
                ..state
            },
            DeleteRun { counter: Counter { begun: 1, total }, phase: DeletePhase::Removing },
            DeleteActionView::Remove(0),
        ),
        total == 0 ==> deletion_step(state, run, DeleteEventView::Opened(total)) == (
            state,
            DeleteRun { counter: Counter { begun: 0, total }, phase: DeletePhase::Emptying },
            DeleteActionView::Render(plain("no-files"@)),
        ),
{
}

} // verus!
