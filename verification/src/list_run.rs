//! A listing from its start to its end: what it waits for, and what is to be done next.

use vstd::prelude::*;
use crate::listing::{
    acquire_list, after_acquire, after_entry, after_list, all_files_of, asset_info, begin_list,
    copies, count_copies, create_no_files, entry_adds_every_file_described, entry_lines,
    entry_status, files_of, finish_entry,
    finish_list, goes_on, kind_of, listed_as_often, names, next_entry, Entry, EntryView, ListKind,
    ListKindView, ListTask, ListTaskView,
};
use crate::messages::{counted, counted_error, plain, Message, MessageView};
use crate::session::{
    assets, clear_file_list, update_file_list, update_status, AssetInfo, AssetView, Progress,
    Session, SessionView,
};
use crate::tasks::{progress_after, progress_at, Counter};
use crate::text::texts;

verus! {

/// What a listing waits for.
#[derive(Debug)]
pub enum ListPhase {
    /// That it may start.
    Waiting,
    /// The number of entries of the directory.
    Opening,
    /// The text of the entry that tells that there are none.
    Placing(Option<ListTask>),
    /// What can be read of the entry that was begun last.
    Inspecting(ListTask),
    /// What the list is to hold of it; its first bytes are these.
    Describing { task: ListTask, bytes: Vec<u8> },
    /// The text of the status message.
    Reporting(ListTask),
    /// The text of the last status message.
    Closing,
    /// Nothing: it has ended.
    Stopped,
}

/// What a listing waits for, as a value.
pub enum ListPhaseView {
    Waiting,
    Opening,
    Placing(Option<ListTaskView>),
    Inspecting(ListTaskView),
    Describing { task: ListTaskView, bytes: Seq<u8> },
    Reporting(ListTaskView),
    Closing,
    Stopped,
}

/// The value of an optional listing.
pub open spec fn optional_task(task: Option<ListTask>) -> Option<ListTaskView> {
    match task {
        Some(task) => Some(task@),
        None => None,
    }
}

impl View for ListPhase {
    type V = ListPhaseView;

    open spec fn view(&self) -> ListPhaseView {
        match self {
            ListPhase::Waiting => ListPhaseView::Waiting,
            ListPhase::Opening => ListPhaseView::Opening,
            ListPhase::Placing(task) => ListPhaseView::Placing(optional_task(*task)),
            ListPhase::Inspecting(task) => ListPhaseView::Inspecting(task@),
            ListPhase::Describing { task, bytes } => ListPhaseView::Describing {
                task: task@,
                bytes: bytes@,
            },
            ListPhase::Reporting(task) => ListPhaseView::Reporting(task@),
            ListPhase::Closing => ListPhaseView::Closing,
            ListPhase::Stopped => ListPhaseView::Stopped,
        }
    }
}

/// A listing of the files that a mode asks for, which are printed or not.
#[derive(Debug)]
pub struct ListRun {
    pub mode: String,
    pub cli_list_mode: bool,
    pub phase: ListPhase,
}

/// A listing, as a value.
pub struct ListRunView {
    pub mode: Seq<char>,
    pub cli_list_mode: bool,
    pub phase: ListPhaseView,
}

impl View for ListRun {
    type V = ListRunView;

    open spec fn view(&self) -> ListRunView {
        ListRunView {
            mode: self.mode@,
            cli_list_mode: self.cli_list_mode,
            phase: self.phase@,
        }
    }
}

impl ListRunView {
    /// The listing in another phase.
    pub open spec fn at(self, phase: ListPhaseView) -> ListRunView {
        ListRunView { phase, ..self }
    }

    /// No more entries were begun than there are, and while one is worked on, one was.
    pub open spec fn valid(self) -> bool {
        match self.phase {
            ListPhaseView::Placing(Some(task)) => task.counter.valid(),
            ListPhaseView::Inspecting(task) => task.counter.valid() && 0 < task.counter.begun,
            ListPhaseView::Describing { task, .. } => task.counter.valid() && 0
                < task.counter.begun,
            ListPhaseView::Reporting(task) => task.counter.valid(),
            _ => true,
        }
    }
}

/// What came of what was to be done.
#[derive(Debug)]
pub enum ListEvent {
    /// The listing is tried to be started.
    Try,
    /// The directory was read, and has this many entries.
    Opened(usize),
    /// The entry has no file name.
    Unnamed,
    /// The entry could not be opened, for the given reason.
    OpenFailed(String),
    /// The entry could not be read.
    ReadFailed,
    /// The first bytes of the entry; none where they were not asked for.
    Read(Vec<u8>),
    /// What the list is to hold of the entry.
    Described(Vec<AssetInfo>),
    /// The text of the message.
    Text(String),
}

/// What came of what was to be done, as a value.
pub enum ListEventView {
    Try,
    Opened(usize),
    Unnamed,
    OpenFailed(Seq<char>),
    ReadFailed,
    Read(Seq<u8>),
    Described(Seq<AssetView>),
    Text(Seq<char>),
}

impl View for ListEvent {
    type V = ListEventView;

    open spec fn view(&self) -> ListEventView {
        match self {
            ListEvent::Try => ListEventView::Try,
            ListEvent::Opened(total) => ListEventView::Opened(*total),
            ListEvent::Unnamed => ListEventView::Unnamed,
            ListEvent::OpenFailed(error) => ListEventView::OpenFailed(error@),
            ListEvent::ReadFailed => ListEventView::ReadFailed,
            ListEvent::Read(bytes) => ListEventView::Read(bytes@),
            ListEvent::Described(files) => ListEventView::Described(assets(files@)),
            ListEvent::Text(text) => ListEventView::Text(text@),
        }
    }
}

/// What is to be done next. Positions of entries are counted from zero.
#[derive(Debug)]
pub enum ListAction {
    /// A moment passes, and the listing is tried again.
    Wait,
    /// The entries of the directory are read.
    ReadDirectory,
    /// The entry is opened, and its first bytes are read if `read` says so.
    Inspect { index: usize, read: bool },
    /// It is found out, this often, what the list is to hold of the entry.
    Describe { index: usize, copies: usize },
    /// The text of the message is looked up.
    Render(Message),
    /// Nothing.
    Stop,
}

/// What is to be done next, as a value.
pub enum ListActionView {
    Wait,
    ReadDirectory,
    Inspect { index: int, read: bool },
    Describe { index: int, copies: int },
    Render(MessageView),
    Stop,
}

impl View for ListAction {
    type V = ListActionView;

    open spec fn view(&self) -> ListActionView {
        match self {
            ListAction::Wait => ListActionView::Wait,
            ListAction::ReadDirectory => ListActionView::ReadDirectory,
            ListAction::Inspect { index, read } => ListActionView::Inspect {
                index: *index as int,
                read: *read,
            },
            ListAction::Describe { index, copies } => ListActionView::Describe {
                index: *index as int,
                copies: *copies as int,
            },
            ListAction::Render(message) => ListActionView::Render(message@),
            ListAction::Stop => ListActionView::Stop,
        }
    }
}

/// The listing after an event, what is to be done next, and the lines to print.
#[derive(Debug)]
pub struct ListStep {
    pub run: ListRun,
    pub action: ListAction,
    pub lines: Vec<String>,
}

/// What a step of a listing comes to, the state included, as a value.
#[verifier::ext_equal]
pub struct ListOutcome {
    pub state: SessionView,
    pub run: ListRunView,
    pub action: ListActionView,
    pub lines: Seq<Seq<char>>,
}

/// The listing waits for such an event.
pub open spec fn awaits_in_list(run: ListRunView, event: ListEventView) -> bool {
    match event {
        ListEventView::Try => run.phase is Waiting,
        ListEventView::Opened(_) => run.phase is Opening,
        ListEventView::Unnamed => run.phase is Inspecting,
        ListEventView::OpenFailed(_) => run.phase is Inspecting,
        ListEventView::ReadFailed => run.phase is Inspecting,
        ListEventView::Read(_) => run.phase is Inspecting,
        ListEventView::Described(files) => run.phase matches ListPhaseView::Describing {
            task,
            bytes,
        } && files.len() == copies(task.kind, bytes),
        ListEventView::Text(_) => run.phase is Placing || run.phase is Reporting
            || run.phase is Closing,
    }
}

/// What is to be done is what the listing waits for.
pub open spec fn list_does(run: ListRunView, action: ListActionView) -> bool {
    &&& run.valid()
    &&& match action {
        ListActionView::Wait => run.phase is Waiting,
        ListActionView::ReadDirectory => run.phase is Opening,
        ListActionView::Inspect { index, read } => {
            &&& run.phase matches ListPhaseView::Inspecting(task)
            &&& index == task.counter.begun - 1
            &&& read == task.kind is WithHeaders
        },
        ListActionView::Describe { index, copies: count } => {
            &&& run.phase matches ListPhaseView::Describing { task, bytes }
            &&& index == task.counter.begun - 1
            &&& 0 < count == copies(task.kind, bytes)
        },
        ListActionView::Render(_) => run.phase is Placing || run.phase is Reporting
            || run.phase is Closing,
        ListActionView::Stop => run.phase is Stopped,
    }
}

/// The listing goes on to the next entry. It ends where nothing is to be listed; else,
/// when there is no further entry or it is asked to stop, it no longer runs.
pub open spec fn list_goes_on(
    state: SessionView,
    run: ListRunView,
    task: Option<ListTaskView>,
    lines: Seq<Seq<char>>,
) -> ListOutcome {
    match task {
        None => ListOutcome {
            state,
            run: run.at(ListPhaseView::Stopped),
            action: ListActionView::Stop,
            lines,
        },
        Some(task) => if goes_on(state, task.counter) {
            let item = task.counter.begun + 1;
            let begun = Counter { begun: item as usize, total: task.counter.total };
            ListOutcome {
                state: state.with_progress(progress_at(item, task.counter.total, 0, 1)),
                run: run.at(ListPhaseView::Inspecting(ListTaskView { counter: begun, ..task })),
                action: ListActionView::Inspect {
                    index: task.counter.begun as int,
                    read: task.kind is WithHeaders,
                },
                lines,
            }
        } else {
            ListOutcome {
                state: after_list(state),
                run: run.at(ListPhaseView::Closing),
                action: ListActionView::Render(plain("idling"@)),
                lines,
            }
        },
    }
}

/// The listing takes up what came of an entry.
pub open spec fn list_takes_up(
    state: SessionView,
    run: ListRunView,
    task: ListTaskView,
    entry: EntryView,
) -> ListOutcome {
    let after = after_entry(state, entry);
    let lines = entry_lines(entry, task.kind, run.cli_list_mode);
    match entry_status(entry, task.counter.begun as int, task.counter.total as int) {
        Some(message) => ListOutcome {
            state: after,
            run: run.at(ListPhaseView::Reporting(task)),
            action: ListActionView::Render(message),
            lines,
        },
        None => list_goes_on(after, run, Some(task), lines),
    }
}

/// The listing that a directory of `total` entries needs; none for an unknown mode.
pub open spec fn list_task(mode: Seq<char>, total: usize) -> Option<ListTaskView> {
    match kind_of(mode) {
        Some(kind) => Some(ListTaskView { kind, counter: Counter { begun: 0, total } }),
        None => None,
    }
}

/// The line that is printed for the entry that tells that there are no files.
pub open spec fn placeholder_lines(text: Seq<char>, cli_list_mode: bool) -> Seq<Seq<char>> {
    if cli_list_mode {
        seq![text]
    } else {
        Seq::empty()
    }
}

/// What comes of an event.
pub open spec fn list_step(
    state: SessionView,
    run: ListRunView,
    event: ListEventView,
) -> ListOutcome {
    match (run.phase, event) {
        (ListPhaseView::Waiting, _) => if state.list_task_running {
            ListOutcome {
                state: after_acquire(state),
                run,
                action: ListActionView::Wait,
                lines: Seq::empty(),
            }
        } else {
            ListOutcome {
                state: after_acquire(state).with_files(Seq::empty()),
                run: run.at(ListPhaseView::Opening),
                action: ListActionView::ReadDirectory,
                lines: Seq::empty(),
            }
        },
        (ListPhaseView::Opening, ListEventView::Opened(total)) => {
            let task = list_task(run.mode, total);
            if total == 0 {
                ListOutcome {
                    state,
                    run: run.at(ListPhaseView::Placing(task)),
                    action: ListActionView::Render(plain("no-files"@)),
                    lines: Seq::empty(),
                }
            } else {
                list_goes_on(state, run, task, Seq::empty())
            }
        },
        (ListPhaseView::Placing(task), ListEventView::Text(text)) => list_goes_on(
            state.with_files(state.file_list.push(asset_info(text, None))),
            run,
            task,
            placeholder_lines(text, run.cli_list_mode),
        ),
        (ListPhaseView::Inspecting(task), ListEventView::Unnamed) => list_takes_up(
            state,
            run,
            task,
            EntryView::Unnamed,
        ),
        (ListPhaseView::Inspecting(task), ListEventView::OpenFailed(error)) => list_takes_up(
            state,
            run,
            task,
            EntryView::OpenFailed(error),
        ),
        (ListPhaseView::Inspecting(task), ListEventView::ReadFailed) => list_takes_up(
            state,
            run,
            task,
            EntryView::ReadFailed,
        ),
        (ListPhaseView::Inspecting(task), ListEventView::Read(bytes)) => if copies(
            task.kind,
            bytes,
        ) == 0 {
            list_takes_up(state, run, task, EntryView::Listed { bytes, files: Seq::empty() })
        } else {
            ListOutcome {
                state,
                run: run.at(ListPhaseView::Describing { task, bytes }),
                action: ListActionView::Describe {
                    index: task.counter.begun - 1,
                    copies: copies(task.kind, bytes),
                },
                lines: Seq::empty(),
            }
        },
        (ListPhaseView::Describing { task, bytes }, ListEventView::Described(files)) => {
            list_takes_up(state, run, task, EntryView::Listed { bytes, files })
        },
        (ListPhaseView::Reporting(task), ListEventView::Text(text)) => list_goes_on(
            state.with_status(text),
            run,
            Some(task),
            Seq::empty(),
        ),
        (_, ListEventView::Text(text)) => ListOutcome {
            state: state.with_status(text),
            run: run.at(ListPhaseView::Stopped),
            action: ListActionView::Stop,
            lines: Seq::empty(),
        },
        _ => ListOutcome {
            state,
            run: run.at(ListPhaseView::Stopped),
            action: ListActionView::Stop,
            lines: Seq::empty(),
        },
    }
}

/// A listing at its start, which is to be tried.
pub open spec fn list_start(mode: Seq<char>, cli_list_mode: bool) -> ListRunView {
    ListRunView { mode, cli_list_mode, phase: ListPhaseView::Waiting }
}

impl ListRun {
    /// A listing at its start, which is to be tried.
    pub fn new(mode: String, cli_list_mode: bool) -> (res: ListRun)
        ensures
            res@ == list_start(mode@, cli_list_mode),
            res@.valid(),
    {
        ListRun { mode, cli_list_mode, phase: ListPhase::Waiting }
    }
}

fn go_on(
    session: &mut Session,
    mode: String,
    cli_list_mode: bool,
    task: Option<ListTask>,
    lines: Vec<String>,
) -> (res: ListStep)
    requires
        task matches Some(task) ==> task.counter.valid(),
    ensures
        list_does(res.run@, res.action@),
        forall|phase: ListPhaseView| #[trigger]
            list_goes_on(
                old(session)@,
                ListRunView { mode: mode@, cli_list_mode, phase },
                optional_task(task),
                texts(lines@),
            ) == (ListOutcome {
                state: final(session)@,
                run: res.run@,
                action: res.action@,
                lines: texts(res.lines@),
            }),
{
    match task {
        None => ListStep {
            run: ListRun { mode, cli_list_mode, phase: ListPhase::Stopped },
            action: ListAction::Stop,
            lines,
        },
        Some(task) => {
            let mut task = task;
            match next_entry(session, &mut task) {
                Some(item) => {
                    let read = match &task.kind {
                        ListKind::Everything => false,
                        ListKind::WithHeaders(..) => true,
                    };
                    ListStep {
                        run: ListRun { mode, cli_list_mode, phase: ListPhase::Inspecting(task) },
                        action: ListAction::Inspect { index: item - 1, read },
                        lines,
                    }
                },
                None => {
                    let status = finish_list(session);
                    ListStep {
                        run: ListRun { mode, cli_list_mode, phase: ListPhase::Closing },
                        action: ListAction::Render(status),
                        lines,
                    }
                },
            }
        },
    }
}

fn take_up(
    session: &mut Session,
    mode: String,
    cli_list_mode: bool,
    task: ListTask,
    entry: Entry,
) -> (res: ListStep)
    requires
        task.counter.valid(),
        entry@ matches EntryView::Listed { bytes, files } ==> files.len() == copies(
            task.kind@,
            bytes,
        ),
    ensures
        list_does(res.run@, res.action@),
        forall|phase: ListPhaseView| #[trigger]
            list_takes_up(
                old(session)@,
                ListRunView { mode: mode@, cli_list_mode, phase },
                task@,
                entry@,
            ) == (ListOutcome {
                state: final(session)@,
                run: res.run@,
                action: res.action@,
                lines: texts(res.lines@),
            }),
{
    let report = finish_entry(session, &task, entry, cli_list_mode);
    match report.status {
        Some(message) => ListStep {
            run: ListRun { mode, cli_list_mode, phase: ListPhase::Reporting(task) },
            action: ListAction::Render(message),
            lines: report.lines,
        },
        None => go_on(session, mode, cli_list_mode, Some(task), report.lines),
    }
}

/// Takes up an event, and tells what is to be done next. While that is done, others may
/// use the state.
pub fn step_list(session: &mut Session, run: ListRun, event: ListEvent) -> (res: ListStep)
    requires
        run@.valid(),
        awaits_in_list(run@, event@),
    ensures
        list_does(res.run@, res.action@),
        list_step(old(session)@, run@, event@) == (ListOutcome {
            state: final(session)@,
            run: res.run@,
            action: res.action@,
            lines: texts(res.lines@),
        }),
{
    let ListRun { mode, cli_list_mode, phase } = run;
    let none: Vec<String> = Vec::new();
    assert(texts(none@) =~= Seq::empty());
    match (phase, event) {
        (ListPhase::Waiting, _) => if acquire_list(session) {
            clear_file_list(session);
            ListStep {
                run: ListRun { mode, cli_list_mode, phase: ListPhase::Opening },
                action: ListAction::ReadDirectory,
                lines: none,
            }
        } else {
            ListStep {
                run: ListRun { mode, cli_list_mode, phase: ListPhase::Waiting },
                action: ListAction::Wait,
                lines: none,
            }
        },
        (ListPhase::Opening, ListEvent::Opened(total)) => {
            let opened = begin_list(mode.as_str(), total);
            match opened.placeholder {
                Some(message) => ListStep {
                    run: ListRun {
                        mode,
                        cli_list_mode,
                        phase: ListPhase::Placing(opened.task),
                    },
                    action: ListAction::Render(message),
                    lines: none,
                },
                None => go_on(session, mode, cli_list_mode, opened.task, none),
            }
        },
        (ListPhase::Placing(task), ListEvent::Text(text)) => {
            let mut lines: Vec<String> = Vec::new();
            if let Some(line) = update_file_list(session, create_no_files(text), cli_list_mode) {
                lines.push(line);
            }
            assert(texts(lines@) =~= placeholder_lines(text@, cli_list_mode));
            go_on(session, mode, cli_list_mode, task, lines)
        },
        (ListPhase::Inspecting(task), ListEvent::Unnamed) => take_up(
            session,
            mode,
            cli_list_mode,
            task,
            Entry::Unnamed,
        ),
        (ListPhase::Inspecting(task), ListEvent::OpenFailed(error)) => take_up(
            session,
            mode,
            cli_list_mode,
            task,
            Entry::OpenFailed(error),
        ),
        (ListPhase::Inspecting(task), ListEvent::ReadFailed) => take_up(
            session,
            mode,
            cli_list_mode,
            task,
            Entry::ReadFailed,
        ),
        (ListPhase::Inspecting(task), ListEvent::Read(bytes)) => {
            let copies = count_copies(&task.kind, bytes.as_slice());
            if copies == 0 {
                let files: Vec<AssetInfo> = Vec::new();
                assert(assets(files@) =~= Seq::empty());
                take_up(session, mode, cli_list_mode, task, Entry::Listed { bytes, files })
            } else {
                let index: usize = task.counter.begun - 1;
                ListStep {
                    run: ListRun {
                        mode,
                        cli_list_mode,
                        phase: ListPhase::Describing { task, bytes },
                    },
                    action: ListAction::Describe { index, copies },
                    lines: none,
                }
            }
        },
        (ListPhase::Describing { task, bytes }, ListEvent::Described(files)) => take_up(
            session,
            mode,
            cli_list_mode,
            task,
            Entry::Listed { bytes, files },
        ),
        (ListPhase::Reporting(task), ListEvent::Text(text)) => {
            update_status(session, text);
            go_on(session, mode, cli_list_mode, Some(task), none)
        },
        (_, ListEvent::Text(text)) => {
            update_status(session, text);
            ListStep {
                run: ListRun { mode, cli_list_mode, phase: ListPhase::Stopped },
                action: ListAction::Stop,
                lines: none,
            }
        },
        _ => ListStep {
            run: ListRun { mode, cli_list_mode, phase: ListPhase::Stopped },
            action: ListAction::Stop,
            lines: none,
        },
    }
}

/// A listing that is asked to stop begins no further entry, and is still asked to, unless
/// it was not yet started.
pub proof fn stopped_listing_begins_nothing(
    state: SessionView,
    run: ListRunView,
    event: ListEventView,
)
    requires
        state.stop_list_running,
        !(run.phase is Waiting),
        awaits_in_list(run, event),
    ensures
        !(list_step(state, run, event).action is Inspect),
        list_step(state, run, event).state.stop_list_running,
{
}

/// A listing that is asked to stop while a status message is looked up is over when it is
/// shown, and the next one may start.
pub proof fn stopped_listing_gives_way(state: SessionView, run: ListRunView, text: Seq<char>)
    requires
        state.stop_list_running,
        run.phase is Reporting,
    ensures
        !list_step(state, run, ListEventView::Text(text)).state.list_task_running,
        list_step(state, run, ListEventView::Text(text)).run.phase is Closing,
{
}

/// How many steps a listing of a directory with `size` entries has left at most.
pub open spec fn list_steps_left(run: ListRunView, size: int) -> int {
    match run.phase {
        ListPhaseView::Waiting => 0,
        ListPhaseView::Opening => 3 * size + 5,
        ListPhaseView::Placing(Some(task)) => 3 * (task.counter.total - task.counter.begun) + 2,
        ListPhaseView::Placing(None) => 1,
        ListPhaseView::Inspecting(task) => 3 * (task.counter.total - task.counter.begun) + 4,
        ListPhaseView::Describing { task, .. } => 3 * (task.counter.total - task.counter.begun)
            + 3,
        ListPhaseView::Reporting(task) => 3 * (task.counter.total - task.counter.begun) + 2,
        ListPhaseView::Closing => 1,
        ListPhaseView::Stopped => 0,
    }
}

/// What is found when an entry is inspected.
pub open spec fn inspected(entry: EntryView) -> ListEventView {
    match entry {
        EntryView::Unnamed => ListEventView::Unnamed,
        EntryView::OpenFailed(error) => ListEventView::OpenFailed(error),
        EntryView::ReadFailed => ListEventView::ReadFailed,
        EntryView::Listed { bytes, .. } => ListEventView::Read(bytes),
    }
}

/// The state when a listing has run to its end, and the lines that were printed, if nobody
/// else uses the state. `entries` tells what comes of the entries of the directory, `text`
/// the text of a message.
pub open spec fn list_end(
    state: SessionView,
    run: ListRunView,
    action: ListActionView,
    entries: Seq<EntryView>,
    text: spec_fn(MessageView) -> Seq<char>,
) -> (SessionView, Seq<Seq<char>>)
    decreases list_steps_left(run, entries.len() as int),
{
    if !list_does(run, action) || entries.len() > usize::MAX {
        (state, Seq::empty())
    } else {
        let event = match action {
            ListActionView::ReadDirectory => ListEventView::Opened(entries.len() as usize),
            ListActionView::Inspect { index, .. } => inspected(entries[index]),
            ListActionView::Describe { index, .. } => ListEventView::Described(
                files_of(entries[index]),
            ),
            ListActionView::Render(message) => ListEventView::Text(text(message)),
            _ => ListEventView::Try,
        };
        if action is Wait || action is Stop {
            (state, Seq::empty())
        } else {
            let next = list_step(state, run, event);
            let (end, lines) = list_end(next.state, next.run, next.action, entries, text);
            (end, next.lines + lines)
        }
    }
}

/// What the list holds first: the entry that tells that there are no files, where there
/// are none.
pub open spec fn first_files(size: nat, no_files: Seq<char>) -> Seq<AssetView> {
    if size == 0 {
        seq![asset_info(no_files, None)]
    } else {
        Seq::empty()
    }
}

/// A listing that is not disturbed lists what came of each entry of the directory, in
/// order, or tells that there are none. When it has ended, no listing runs and none is asked
/// to stop, the status line is that of an idle program, and the progress is that of the last
/// entry, if there was one. Everything else is as it was. On the command line, the names of
/// the listed files are printed where all files are listed.
pub proof fn listing_lists_every_entry(
    state: SessionView,
    mode: Seq<char>,
    cli_list_mode: bool,
    entries: Seq<EntryView>,
    text: spec_fn(MessageView) -> Seq<char>,
)
    requires
        !state.list_task_running,
        kind_of(mode) is Some,
        entries.len() <= usize::MAX,
        forall|i: int|
            0 <= i < entries.len() ==> listed_as_often(kind_of(mode)->0, #[trigger] entries[i]),
    ensures
        ({
            let start = list_step(state, list_start(mode, cli_list_mode), ListEventView::Try);
            let (end, lines) = list_end(start.state, start.run, start.action, entries, text);
            let files = first_files(entries.len(), text(plain("no-files"@))) + all_files_of(
                entries,
            );
            &&& end == SessionView {
                status: text(plain("idling"@)),
                file_list: files,
                request_repaint: true,
                progress: progress_after(
                    state.progress,
                    Counter { begun: 0, total: entries.len() as usize },
                    0,
                    1,
                ),
                list_task_running: false,
                stop_list_running: false,
                ..state
            }
            &&& lines == if cli_list_mode && (kind_of(mode)->0 is Everything || entries.len()
                == 0) {
                names(files)
            } else {
                Seq::empty()
            }
        }),
{
    let run = list_start(mode, cli_list_mode);
    let start = list_step(state, run, ListEventView::Try);
    let size = entries.len() as usize;
    let opened = list_step(start.state, start.run, ListEventView::Opened(size));
    let kind = kind_of(mode)->0;
    let task = ListTaskView { kind, counter: Counter { begun: 0, total: size } };
    let (end, lines) = list_end(start.state, start.run, start.action, entries, text);
    let none = text(plain("no-files"@));
    let (end2, lines2) = list_end(opened.state, opened.run, opened.action, entries, text);
    assert(lines =~= lines2);
    assert(entries.take(0) =~= Seq::empty());
    assert(all_files_of(entries.take(0)) =~= Seq::empty());
    assert(names(Seq::empty()) =~= Seq::empty());
    if size == 0 {
        let placed = list_step(opened.state, opened.run, ListEventView::Text(none));
        assert(placed.state.file_list =~= first_files(0, none));
        let shown = opened.state.with_files(first_files(0, none));
        listing_from(shown, opened.run, task, entries, text);
        let (end3, lines3) = list_end(placed.state, placed.run, placed.action, entries, text);
        assert(all_files_of(entries) =~= Seq::empty());
        assert(first_files(0, none) + all_files_of(entries) =~= first_files(0, none));
        assert(names(first_files(0, none)) =~= seq![none]);
        assert(lines2 =~= placed.lines + lines3);
        assert(lines3 =~= Seq::empty());
    } else {
        listing_from(start.state, start.run, task, entries, text);
        assert(start.state.file_list =~= Seq::empty());
        assert(entries.skip(0) =~= entries);
        assert(Seq::<AssetView>::empty() + all_files_of(entries) =~= all_files_of(entries));
        let next = list_goes_on(start.state, start.run, Some(task), Seq::empty());
        assert(opened == next);
    }
}

/// A listing for a mode that is neither `music` nor a category lists nothing, but tells
/// where there are no files. It ends without a status message, and is left as one that runs.
pub proof fn unknown_mode_lists_nothing(
    state: SessionView,
    mode: Seq<char>,
    cli_list_mode: bool,
    entries: Seq<EntryView>,
    text: spec_fn(MessageView) -> Seq<char>,
)
    requires
        !state.list_task_running,
        kind_of(mode) is None,
        entries.len() <= usize::MAX,
    ensures
        ({
            let start = list_step(state, list_start(mode, cli_list_mode), ListEventView::Try);
            let (end, lines) = list_end(start.state, start.run, start.action, entries, text);
            let none = text(plain("no-files"@));
            &&& end == after_acquire(state).with_files(first_files(entries.len(), none))
            &&& lines == if entries.len() == 0 {
                placeholder_lines(none, cli_list_mode)
            } else {
                Seq::empty()
            }
        }),
{
    reveal_with_fuel(list_end, 3);
    let none = text(plain("no-files"@));
    assert(Seq::<AssetView>::empty().push(asset_info(none, None)) =~= seq![
        asset_info(none, None),
    ]);
}

/// The lines that are printed for the given entries.
spec fn all_lines(entries: Seq<EntryView>, kind: ListKindView, cli_list_mode: bool) -> Seq<
    Seq<char>,
> {
    if cli_list_mode && kind is Everything {
        names(all_files_of(entries))
    } else {
        Seq::empty()
    }
}

proof fn files_from_the_front(entries: Seq<EntryView>)
    requires
        entries.len() > 0,
    ensures
        all_files_of(entries) == files_of(entries.first()) + all_files_of(entries.skip(1)),
    decreases entries.len(),
{
    let rest = entries.skip(1);
    if entries.len() == 1 {
        assert(entries.drop_last() =~= Seq::empty());
        assert(rest =~= Seq::empty());
        assert(all_files_of(entries) =~= files_of(entries.first()) + all_files_of(rest));
    } else {
        files_from_the_front(entries.drop_last());
        assert(entries.drop_last().skip(1) =~= rest.drop_last());
        assert(all_files_of(entries) =~= files_of(entries.first()) + all_files_of(rest));
    }
}

proof fn listing_from(
    state: SessionView,
    run: ListRunView,
    task: ListTaskView,
    entries: Seq<EntryView>,
    text: spec_fn(MessageView) -> Seq<char>,
)
    requires
        task.counter.valid(),
        task.counter.total == entries.len(),
        !state.stop_list_running,
        forall|i: int|
            0 <= i < entries.len() ==> listed_as_often(task.kind, #[trigger] entries[i]),
    ensures
        ({
            let next = list_goes_on(state, run, Some(task), Seq::empty());
            let (end, lines) = list_end(next.state, next.run, next.action, entries, text);
            let rest = entries.skip(task.counter.begun as int);
            &&& end == SessionView {
                status: text(plain("idling"@)),
                file_list: state.file_list + all_files_of(rest),
                request_repaint: true,
                progress: progress_after(state.progress, task.counter, 0, 1),
                list_task_running: false,
                ..state
            }
            &&& lines == all_lines(rest, task.kind, run.cli_list_mode)
        }),
    decreases task.counter.total - task.counter.begun,
{
    let begun = task.counter.begun as int;
    let rest = entries.skip(begun);
    let next = list_goes_on(state, run, Some(task), Seq::empty());
    let (end, lines) = list_end(next.state, next.run, next.action, entries, text);
    if begun < entries.len() {
        let entry = entries[begun];
        let task2 = next.run.phase->Inspecting_0;
        let shown = after_report(next.state, entry, task2, text);
        entry_is_listed(next.state, next.run, task2, entries, text);
        assert(rest.first() == entry);
        assert(rest.skip(1) =~= entries.skip(begun + 1));
        files_from_the_front(rest);
        listing_from(shown, next.run, task2, entries, text);
        let next2 = list_goes_on(shown, next.run, Some(task2), Seq::empty());
        let (end2, lines2) = list_end(next2.state, next2.run, next2.action, entries, text);
        assert(end == end2);
        assert(end.file_list =~= state.file_list + all_files_of(rest));
        assert(lines == entry_lines(entry, task.kind, run.cli_list_mode) + lines2);
        assert(lines =~= all_lines(rest, task.kind, run.cli_list_mode));
    } else {
        assert(rest =~= Seq::empty());
        assert(all_files_of(rest) =~= Seq::empty());
        let last = list_step(
            next.state,
            next.run,
            ListEventView::Text(text(plain("idling"@))),
        );
        assert(list_end(last.state, last.run, last.action, entries, text).1 =~= Seq::empty());
        assert(lines =~= all_lines(rest, task.kind, run.cli_list_mode));
        assert(end.file_list =~= state.file_list + all_files_of(rest));
    }
}

/// The state when an entry was taken up and its status message is shown.
spec fn after_report(
    state: SessionView,
    entry: EntryView,
    task: ListTaskView,
    text: spec_fn(MessageView) -> Seq<char>,
) -> SessionView {
    match entry_status(entry, task.counter.begun as int, task.counter.total as int) {
        Some(message) => after_entry(state, entry).with_status(text(message)),
        None => after_entry(state, entry),
    }
}

proof fn entry_is_reported(
    state: SessionView,
    run: ListRunView,
    task: ListTaskView,
    entry: EntryView,
    entries: Seq<EntryView>,
    text: spec_fn(MessageView) -> Seq<char>,
)
    requires
        task.counter.valid(),
        0 < task.counter.begun,
        entries.len() <= usize::MAX,
    ensures
        ({
            let taken = list_takes_up(state, run, task, entry);
            let shown = after_report(state, entry, task, text);
            let next = list_goes_on(shown, run, Some(task), Seq::empty());
            let (end, lines) = list_end(next.state, next.run, next.action, entries, text);
            let taken_end = list_end(taken.state, taken.run, taken.action, entries, text);
            &&& taken_end.0 == end
            &&& taken.lines + taken_end.1 == entry_lines(entry, task.kind, run.cli_list_mode)
                + lines
        }),
{
    let taken = list_takes_up(state, run, task, entry);
    let shown = after_report(state, entry, task, text);
    let next = list_goes_on(shown, run, Some(task), Seq::empty());
    let (end, lines) = list_end(next.state, next.run, next.action, entries, text);
    if let Some(message) = entry_status(
        entry,
        task.counter.begun as int,
        task.counter.total as int,
    ) {
        let step = list_step(taken.state, taken.run, ListEventView::Text(text(message)));
        assert(step == next);
        assert(list_end(taken.state, taken.run, taken.action, entries, text).1 =~= lines);
    }
}

proof fn entry_is_listed(
    state: SessionView,
    run: ListRunView,
    task: ListTaskView,
    entries: Seq<EntryView>,
    text: spec_fn(MessageView) -> Seq<char>,
)
    requires
        run.phase == ListPhaseView::Inspecting(task),
        task.counter.valid(),
        0 < task.counter.begun,
        task.counter.total == entries.len(),
        listed_as_often(task.kind, entries[task.counter.begun - 1]),
    ensures
        ({
            let index = task.counter.begun - 1;
            let action = ListActionView::Inspect { index, read: task.kind is WithHeaders };
            let shown = after_report(state, entries[index], task, text);
            let next = list_goes_on(shown, run, Some(task), Seq::empty());
            let (end, lines) = list_end(next.state, next.run, next.action, entries, text);
            list_end(state, run, action, entries, text) == (
                end,
                entry_lines(entries[index], task.kind, run.cli_list_mode) + lines,
            )
        }),
{
    let index = task.counter.begun - 1;
    let entry = entries[index];
    let action = ListActionView::Inspect { index, read: task.kind is WithHeaders };
    let step = list_step(state, run, inspected(entry));
    entry_is_reported(state, run, task, entry, entries, text);
    if step.action is Describe {
        let described = list_step(
            step.state,
            step.run,
            ListEventView::Described(files_of(entry)),
        );
        entry_is_reported(state, step.run, task, entry, entries, text);
        let shown = after_report(state, entry, task, text);
        assert(list_goes_on(shown, step.run, Some(task), Seq::empty()) == list_goes_on(
            shown,
            run,
            Some(task),
            Seq::empty(),
        ));
        assert(described == list_takes_up(state, step.run, task, entry));
        let end = list_end(described.state, described.run, described.action, entries, text);
        assert(list_end(step.state, step.run, step.action, entries, text) == (
            end.0,
            described.lines + end.1,
        ));
        let whole = list_end(state, run, action, entries, text);
        assert(whole.1 =~= described.lines + end.1);
    } else {
        if entry is Listed {
            assert(files_of(entry) =~= Seq::empty());
        }
        assert(step == list_takes_up(state, run, task, entry));
    }
}

/// A listing that may start empties the list, and one that may not asks the other to stop.
/// An empty directory is told as such, and another is begun with its first entry.
pub proof fn listing_starts(
    state: SessionView,
    mode: Seq<char>,
    cli_list_mode: bool,
    total: usize,
    text: Seq<char>,
    task: ListTaskView,
)
    requires
        kind_of(mode) == Some(task.kind),
        task.counter == (Counter { begun: 0, total }),
    ensures
        ({
            let at = |phase: ListPhaseView| ListRunView { mode, cli_list_mode, phase };
            let begun = ListTaskView { counter: Counter { begun: 1, total }, ..task };
            &&& state.list_task_running ==> list_step(
                state,
                at(ListPhaseView::Waiting),
                ListEventView::Try,
            ) == (ListOutcome {
                state: SessionView { stop_list_running: true, ..state },
                run: at(ListPhaseView::Waiting),
                action: ListActionView::Wait,
                lines: Seq::empty(),
            })
            &&& !state.list_task_running ==> list_step(
                state,
                at(ListPhaseView::Waiting),
                ListEventView::Try,
            ) == (ListOutcome {
                state: SessionView {
                    list_task_running: true,
                    stop_list_running: false,
                    file_list: Seq::empty(),
                    ..state
                },
                run: at(ListPhaseView::Opening),
                action: ListActionView::ReadDirectory,
                lines: Seq::empty(),
            })
            &&& total == 0 ==> list_step(
                state,
                at(ListPhaseView::Opening),
                ListEventView::Opened(total),
            ) == (ListOutcome {
                state,
                run: at(ListPhaseView::Placing(Some(task))),
                action: ListActionView::Render(plain("no-files"@)),
                lines: Seq::empty(),
            })
            &&& total > 0 && !state.stop_list_running ==> list_step(
                state,
                at(ListPhaseView::Opening),
                ListEventView::Opened(total),
            ) == (ListOutcome {
                state: SessionView {
                    progress: Progress { item: 1, total, stage: 0, stages: 1 },
                    request_repaint: true,
                    ..state
                },
                run: at(ListPhaseView::Inspecting(begun)),
                action: ListActionView::Inspect { index: 0, read: mode != "music"@ },
                lines: Seq::empty(),
            })
            &&& total == 0 ==> list_step(
                state,
                at(ListPhaseView::Placing(Some(task))),
                ListEventView::Text(text),
            ) == (ListOutcome {
                state: SessionView {
                    file_list: state.file_list.push(
                        AssetView { name: text, size: 0, last_modified: None },
                    ),
                    list_task_running: false,
                    ..state
                },
                run: at(ListPhaseView::Closing),
                action: ListActionView::Render(plain("idling"@)),
                lines: if cli_list_mode {
                    seq![text]
                } else {
                    Seq::empty()
                },
            })
        }),
{
}

/// Step by step: an entry is inspected, described as often as it is to be listed, and added
/// to the list with all that was described; the status line tells how it went, and the next
/// one follows, with its progress. Behind the last one the listing ends.
pub proof fn listing_step_by_step(
    state: SessionView,
    run: ListRunView,
    task: ListTaskView,
    bytes: Seq<u8>,
    files: Seq<AssetView>,
    text: Seq<char>,
)
    requires
        task.counter.valid(),
        0 < task.counter.begun,
        !state.stop_list_running,
    ensures
        ({
            let (begun, total) = (task.counter.begun, task.counter.total);
            let at = |phase: ListPhaseView| ListRunView { phase, ..run };
            let inspecting = at(ListPhaseView::Inspecting(task));
            let reporting = at(ListPhaseView::Reporting(task));
            let describing = at(ListPhaseView::Describing { task, bytes });
            let none = Seq::<Seq<char>>::empty();
            let more = ListTaskView {
                counter: Counter { begun: (begun + 1) as usize, total },
                ..task
            };
            let begins_next = |from: SessionView|
                ListOutcome {
                    state: SessionView {
                        progress: Progress {
                            item: (begun + 1) as usize,
                            total,
                            stage: 0,
                            stages: 1,
                        },
                        request_repaint: true,
                        ..from
                    },
                    run: at(ListPhaseView::Inspecting(more)),
                    action: ListActionView::Inspect {
                        index: begun as int,
                        read: task.kind is WithHeaders,
                    },
                    lines: none,
                };
            let ends = |from: SessionView|
                ListOutcome {
                    state: SessionView { list_task_running: false, ..from },
                    run: at(ListPhaseView::Closing),
                    action: ListActionView::Render(plain("idling"@)),
                    lines: none,
                };
            let told = SessionView { status: text, request_repaint: true, ..state };
            &&& begun < total ==> list_step(state, reporting, ListEventView::Text(text))
                == begins_next(told)
            &&& begun == total ==> list_step(state, reporting, ListEventView::Text(text))
                == ends(told)
            &&& begun < total ==> list_step(state, inspecting, ListEventView::Unnamed)
                == begins_next(state)
            &&& begun == total ==> list_step(state, inspecting, ListEventView::Unnamed)
                == ends(state)
            &&& list_step(state, inspecting, ListEventView::OpenFailed(text)) == (ListOutcome {
                state,
                run: reporting,
                action: ListActionView::Render(
                    counted_error("failed-opening-file"@, begun as int, total as int, text),
                ),
                lines: none,
            })
            &&& list_step(state, inspecting, ListEventView::ReadFailed) == (ListOutcome {
                state,
                run: reporting,
                action: ListActionView::Render(
                    counted("failed-opening-file"@, begun as int, total as int),
                ),
                lines: none,
            })
            &&& copies(task.kind, bytes) == 0 ==> list_step(
                state,
                inspecting,
                ListEventView::Read(bytes),
            ) == (ListOutcome {
                state,
                run: reporting,
                action: ListActionView::Render(
                    counted("reading-files"@, begun as int, total as int),
                ),
                lines: none,
            })
            &&& copies(task.kind, bytes) > 0 ==> list_step(
                state,
                inspecting,
                ListEventView::Read(bytes),
            ) == (ListOutcome {
                state,
                run: describing,
                action: ListActionView::Describe {
                    index: begun - 1,
                    copies: copies(task.kind, bytes),
                },
                lines: none,
            })
            &&& list_step(state, describing, ListEventView::Described(files)) == (ListOutcome {
                state: SessionView { file_list: state.file_list + files, ..state },
                run: reporting,
                action: ListActionView::Render(
                    counted("reading-files"@, begun as int, total as int),
                ),
                lines: if task.kind is Everything && run.cli_list_mode {
                    Seq::new(files.len(), |i: int| files[i].name)
                } else {
                    none
                },
            })
            &&& list_step(state, at(ListPhaseView::Closing), ListEventView::Text(text)) == (
            ListOutcome {
                state: told,
                run: at(ListPhaseView::Stopped),
                action: ListActionView::Stop,
                lines: none,
            })
        }),
{
    entry_adds_every_file_described(state, bytes, files, text);
    entry_adds_every_file_described(state, bytes, Seq::empty(), text);
    assert(state.file_list + Seq::<AssetView>::empty() =~= state.file_list);
    let none = Seq::<Seq<char>>::empty();
    assert(names(Seq::<AssetView>::empty()) =~= none);
    assert(names(files) =~= Seq::new(files.len(), |i: int| files[i].name));
}

/// The list starts with the entry that tells that there are no files, and with nothing where
/// there are some.
pub proof fn list_starts_with_the_placeholder(size: nat, text: Seq<char>)
    ensures
        size == 0 ==> first_files(size, text) == seq![
            AssetView { name: text, size: 0, last_modified: None },
        ],
        size > 0 ==> first_files(size, text).len() == 0,
        placeholder_lines(text, true) == seq![text],
        placeholder_lines(text, false).len() == 0,
{
}

/// A listing, what is to be done for it and what comes of it are as values all that they
/// hold.
pub proof fn listing_is_all_it_holds(
    run: ListRun,
    step: ListStep,
    task: ListTask,
    bytes: Vec<u8>,
    files: Vec<AssetInfo>,
    text: String,
    message: Message,
    index: usize,
    number: usize,
    read: bool,
)
    ensures
        run@.mode == run.mode@,
        run@.cli_list_mode == run.cli_list_mode,
        run@.phase == run.phase@,
        (ListPhase::Waiting)@ == ListPhaseView::Waiting,
        (ListPhase::Opening)@ == ListPhaseView::Opening,
        (ListPhase::Placing(Some(task)))@ == ListPhaseView::Placing(Some(task@)),
        (ListPhase::Placing(None))@ == ListPhaseView::Placing(None),
        (ListPhase::Inspecting(task))@ == ListPhaseView::Inspecting(task@),
        (ListPhase::Describing { task, bytes })@ == (ListPhaseView::Describing {
            task: task@,
            bytes: bytes@,
        }),
        (ListPhase::Reporting(task))@ == ListPhaseView::Reporting(task@),
        (ListPhase::Closing)@ == ListPhaseView::Closing,
        (ListPhase::Stopped)@ == ListPhaseView::Stopped,
        (ListEvent::Try)@ == ListEventView::Try,
        (ListEvent::Opened(index))@ == ListEventView::Opened(index),
        (ListEvent::Unnamed)@ == ListEventView::Unnamed,
        (ListEvent::OpenFailed(text))@ == ListEventView::OpenFailed(text@),
        (ListEvent::ReadFailed)@ == ListEventView::ReadFailed,
        (ListEvent::Read(bytes))@ == ListEventView::Read(bytes@),
        (ListEvent::Described(files))@ == ListEventView::Described(assets(files@)),
        (ListEvent::Text(text))@ == ListEventView::Text(text@),
        (ListAction::Wait)@ == ListActionView::Wait,
        (ListAction::ReadDirectory)@ == ListActionView::ReadDirectory,
        (ListAction::Inspect { index, read })@ == (ListActionView::Inspect {
            index: index as int,
            read,
        }),
        (ListAction::Describe { index, copies: number })@ == (ListActionView::Describe {
            index: index as int,
            copies: number as int,
        }),
        (ListAction::Render(message))@ == ListActionView::Render(message@),
        (ListAction::Stop)@ == ListActionView::Stop,
{
}

/// Whatever comes of what is to be done can be taken up.
pub proof fn every_outcome_is_awaited_in_list(
    run: ListRunView,
    action: ListActionView,
    total: usize,
    text: Seq<char>,
    bytes: Seq<u8>,
    files: Seq<AssetView>,
)
    requires
        list_does(run, action),
    ensures
        run.valid(),
        action is Wait ==> awaits_in_list(run, ListEventView::Try),
        action is ReadDirectory ==> awaits_in_list(run, ListEventView::Opened(total)),
        action is Inspect ==> awaits_in_list(run, ListEventView::Unnamed) && awaits_in_list(
            run,
            ListEventView::OpenFailed(text),
        ) && awaits_in_list(run, ListEventView::ReadFailed) && awaits_in_list(
            run,
            ListEventView::Read(bytes),
        ),
        action matches ListActionView::Describe { copies: count, .. } ==> (files.len() == count
            ==> awaits_in_list(run, ListEventView::Described(files))),
        action is Render ==> awaits_in_list(run, ListEventView::Text(text)),
{
}

/// A listing is first to be tried.
pub proof fn listing_is_first_tried(mode: Seq<char>, cli_list_mode: bool)
    ensures
        list_start(mode, cli_list_mode) == (ListRunView {
            mode,
            cli_list_mode,
            phase: ListPhaseView::Waiting,
        }),
        awaits_in_list(list_start(mode, cli_list_mode), ListEventView::Try),
        list_start(mode, cli_list_mode).valid(),
{
}

} // verus!
