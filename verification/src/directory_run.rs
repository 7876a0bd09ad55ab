//! The extraction of the listed files of a directory, from its start to its end.

use vstd::prelude::*;
use crate::extraction::{
    after_extraction, directory_job, extraction_report, file_goes_to_its_alias_or_name,
    finish_extraction, job, report_extracted, Job, JobView,
};
use crate::messages::{counted, plain, Message, MessageView};
use crate::session::{
    assets, get_file_list, update_status, AssetInfo, AssetView, Progress, Session, SessionView,
};
use crate::tasks::{next_item, progress_after, progress_at, Counter};

verus! {

/// What the extraction of a directory waits for.
#[derive(Debug, Clone, Copy, PartialEq, Eq, Structural)]
pub enum DirectoryPhase {
    /// Whether the directory is to be listed first.
    Starting,
    /// That the directory is listed.
    Listing,
    /// The alias of the file that was begun last.
    Naming,
    /// What came of its extraction.
    Extracting,
    /// The text of its status message.
    Reporting,
    /// The text of the last status message.
    Closing,
    /// Nothing: it has ended.
    Stopped,
}

/// An extraction of the listed files of the directory `dir` into the directory
/// `destination`.
#[derive(Debug)]
pub struct DirectoryRun {
    pub dir: String,
    pub mode: String,
    pub destination: String,
    pub use_alias: bool,
    /// The files, as they were listed when the extraction began.
    pub files: Vec<AssetInfo>,
    pub counter: Counter,
    pub phase: DirectoryPhase,
}

/// An extraction of a directory, as a value.
#[verifier::ext_equal]
pub struct DirectoryRunView {
    pub dir: Seq<char>,
    pub mode: Seq<char>,
    pub destination: Seq<char>,
    pub use_alias: bool,
    pub files: Seq<AssetView>,
    pub counter: Counter,
    pub phase: DirectoryPhase,
}

impl View for DirectoryRun {
    type V = DirectoryRunView;

    open spec fn view(&self) -> DirectoryRunView {
        DirectoryRunView {
            dir: self.dir@,
            mode: self.mode@,
            destination: self.destination@,
            use_alias: self.use_alias,
            files: assets(self.files@),
            counter: self.counter,
            phase: self.phase,
        }
    }
}

impl DirectoryRunView {
    /// The files are counted, and while one is worked on, one was begun.
    pub open spec fn valid(self) -> bool {
        &&& self.counter.valid()
        &&& self.counter.total == self.files.len()
        &&& self.phase is Naming || self.phase is Extracting || self.phase is Reporting ==> 0
            < self.counter.begun
    }

    /// The extraction in another phase.
    pub open spec fn at(self, phase: DirectoryPhase) -> DirectoryRunView {
        DirectoryRunView { phase, ..self }
    }

    /// The name of the file that was begun last.
    pub open spec fn name(self) -> Seq<char> {
        self.files[self.counter.begun - 1].name
    }

    /// The extraction of the file that was begun last.
    pub open spec fn job(self, alias: Option<Seq<char>>) -> JobView {
        job(self.dir, self.name(), self.mode, self.destination, alias)
    }
}

/// What came of what was to be done.
#[derive(Debug)]
pub enum DirectoryEvent {
    /// The extraction starts, and lists the directory first or not.
    Begin(bool),
    /// The directory is listed.
    Listed,
    /// The alias of the file.
    Alias(String),
    /// The file was extracted; this is what `extract_file` said of it.
    Extracted(String),
    /// The text of the message.
    Text(String),
}

/// What came of what was to be done, as a value.
pub enum DirectoryEventView {
    Begin(bool),
    Listed,
    Alias(Seq<char>),
    Extracted(Seq<char>),
    Text(Seq<char>),
}

impl View for DirectoryEvent {
    type V = DirectoryEventView;

    open spec fn view(&self) -> DirectoryEventView {
        match self {
            DirectoryEvent::Begin(refresh) => DirectoryEventView::Begin(*refresh),
            DirectoryEvent::Listed => DirectoryEventView::Listed,
            DirectoryEvent::Alias(alias) => DirectoryEventView::Alias(alias@),
            DirectoryEvent::Extracted(result) => DirectoryEventView::Extracted(result@),
            DirectoryEvent::Text(text) => DirectoryEventView::Text(text@),
        }
    }
}

/// What is to be done next.
#[derive(Debug)]
pub enum DirectoryAction {
    /// The directory is listed.
    List,
    /// The alias of the file of this name is looked up.
    LookUp(String),
    /// The file is extracted, and gets an extension.
    Extract(Job),
    /// The text of the message is looked up.
    Render(Message),
    /// Nothing.
    Stop,
}

/// What is to be done next, as a value.
pub enum DirectoryActionView {
    List,
    LookUp(Seq<char>),
    Extract(JobView),
    Render(MessageView),
    Stop,
}

impl View for DirectoryAction {
    type V = DirectoryActionView;

    open spec fn view(&self) -> DirectoryActionView {
        match self {
            DirectoryAction::List => DirectoryActionView::List,
            DirectoryAction::LookUp(name) => DirectoryActionView::LookUp(name@),
            DirectoryAction::Extract(job) => DirectoryActionView::Extract(job@),
            DirectoryAction::Render(message) => DirectoryActionView::Render(message@),
            DirectoryAction::Stop => DirectoryActionView::Stop,
        }
    }
}

/// The extraction waits for such an event.
pub open spec fn awaits_in_directory(run: DirectoryRunView, event: DirectoryEventView) -> bool {
    match event {
        DirectoryEventView::Begin(_) => run.phase is Starting,
        DirectoryEventView::Listed => run.phase is Listing,
        DirectoryEventView::Alias(_) => run.phase is Naming,
        DirectoryEventView::Extracted(_) => run.phase is Extracting,
        DirectoryEventView::Text(_) => run.phase is Reporting || run.phase is Closing,
    }
}

/// What is to be done is what the extraction waits for.
pub open spec fn directory_does(run: DirectoryRunView, action: DirectoryActionView) -> bool {
    &&& run.valid()
    &&& match action {
        DirectoryActionView::List => run.phase is Listing,
        DirectoryActionView::LookUp(_) => run.phase is Naming,
        DirectoryActionView::Extract(_) => run.phase is Extracting,
        DirectoryActionView::Render(_) => run.phase is Reporting || run.phase is Closing,
        DirectoryActionView::Stop => run.phase is Stopped,
    }
}

/// The state, the extraction and what is to be done when it goes on to the next file.
pub open spec fn directory_goes_on(state: SessionView, run: DirectoryRunView) -> (
    SessionView,
    DirectoryRunView,
    DirectoryActionView,
) {
    let total = run.counter.total;
    if run.counter.begun < total {
        let item = run.counter.begun + 1;
        let begun = DirectoryRunView {
            counter: Counter { begun: item as usize, total },
            phase: if run.use_alias {
                DirectoryPhase::Naming
            } else {
                DirectoryPhase::Extracting
            },
            ..run
        };
        (
            state.with_progress(progress_at(item, total, 0, 1)),
            begun,
            if run.use_alias {
                DirectoryActionView::LookUp(begun.name())
            } else {
                DirectoryActionView::Extract(begun.job(None))
            },
        )
    } else {
        (
            after_extraction(state),
            run.at(DirectoryPhase::Closing),
            DirectoryActionView::Render(plain("all-extracted"@)),
        )
    }
}

/// The extraction takes the files that are listed now.
pub open spec fn directory_takes_list(state: SessionView, run: DirectoryRunView) -> (
    SessionView,
    DirectoryRunView,
    DirectoryActionView,
) {
    directory_goes_on(
        state,
        DirectoryRunView {
            files: state.file_list,
            counter: Counter { begun: 0, total: state.file_list.len() as usize },
            ..run
        },
    )
}

/// The state, the extraction and what is to be done after an event.
pub open spec fn directory_step(
    state: SessionView,
    run: DirectoryRunView,
    event: DirectoryEventView,
) -> (SessionView, DirectoryRunView, DirectoryActionView) {
    match event {
        DirectoryEventView::Begin(refresh) => if refresh {
            (state, run.at(DirectoryPhase::Listing), DirectoryActionView::List)
        } else {
            directory_takes_list(state, run)
        },
        DirectoryEventView::Listed => directory_takes_list(state, run),
        DirectoryEventView::Alias(alias) => (
            state,
            run.at(DirectoryPhase::Extracting),
            DirectoryActionView::Extract(run.job(Some(alias))),
        ),
        DirectoryEventView::Extracted(result) => (
            state,
            run.at(DirectoryPhase::Reporting),
            DirectoryActionView::Render(
                extraction_report(run.counter.begun as int, run.counter.total as int, result),
            ),
        ),
        DirectoryEventView::Text(text) => if run.phase is Reporting {
            directory_goes_on(state.with_status(text), run)
        } else {
            (state.with_status(text), run.at(DirectoryPhase::Stopped), DirectoryActionView::Stop)
        },
    }
}

/// The extraction of the directory `dir` into the directory `destination`, at its start.
pub open spec fn directory_start(
    dir: Seq<char>,
    mode: Seq<char>,
    destination: Seq<char>,
    use_alias: bool,
) -> DirectoryRunView {
    DirectoryRunView {
        dir,
        mode,
        destination,
        use_alias,
        files: Seq::empty(),
        counter: Counter { begun: 0, total: 0 },
        phase: DirectoryPhase::Starting,
    }
}

impl DirectoryRun {
    /// The extraction of the directory `dir` into the directory `destination`, at its
    /// start.
    pub fn new(dir: String, mode: String, destination: String, use_alias: bool) -> (res:
        DirectoryRun)
        ensures
            res@ == directory_start(dir@, mode@, destination@, use_alias),
            res@.valid(),
    {
        let files: Vec<AssetInfo> = Vec::new();
        assert(assets(files@) =~= Seq::empty());
        DirectoryRun {
            dir,
            mode,
            destination,
            use_alias,
            files,
            counter: Counter::new(0),
            phase: DirectoryPhase::Starting,
        }
    }
}

fn next_file(session: &mut Session, run: DirectoryRun) -> (res: (DirectoryRun, DirectoryAction))
    requires
        run.counter.valid(),
        run.counter.total == run.files.len(),
    ensures
        directory_does(res.0@, res.1@),
        (final(session)@, res.0@, res.1@) == directory_goes_on(old(session)@, run@),
{
    let mut run = run;
    match next_item(session, &mut run.counter, 0, 1) {
        Some(item) => {
            let name = run.files[item - 1].name.as_str();
            if run.use_alias {
                let name = name.to_owned();
                run.phase = DirectoryPhase::Naming;
                (run, DirectoryAction::LookUp(name))
            } else {
                let job = directory_job(
                    run.dir.as_str(),
                    name,
                    run.mode.as_str(),
                    run.destination.as_str(),
                    &None,
                );
                run.phase = DirectoryPhase::Extracting;
                (run, DirectoryAction::Extract(job))
            }
        },
        None => {
            let status = finish_extraction(session);
            run.phase = DirectoryPhase::Closing;
            (run, DirectoryAction::Render(status))
        },
    }
}

fn take_list(session: &mut Session, run: DirectoryRun) -> (res: (DirectoryRun, DirectoryAction))
    ensures
        directory_does(res.0@, res.1@),
        (final(session)@, res.0@, res.1@) == directory_takes_list(old(session)@, run@),
{
    let mut run = run;
    run.files = get_file_list(session);
    run.counter = Counter::new(run.files.len());
    assert(run.files@.len() == assets(run.files@).len());
    next_file(session, run)
}

/// Takes up an event, and tells what is to be done next. While that is done, others may
/// use the state.
pub fn step_directory(session: &mut Session, run: DirectoryRun, event: DirectoryEvent) -> (res: (
    DirectoryRun,
    DirectoryAction,
))
    requires
        run@.valid(),
        awaits_in_directory(run@, event@),
    ensures
        directory_does(res.0@, res.1@),
        (final(session)@, res.0@, res.1@) == directory_step(old(session)@, run@, event@),
{
    let mut run = run;
    match event {
        DirectoryEvent::Begin(refresh) => if refresh {
            run.phase = DirectoryPhase::Listing;
            (run, DirectoryAction::List)
        } else {
            take_list(session, run)
        },
        DirectoryEvent::Listed => take_list(session, run),
        DirectoryEvent::Alias(alias) => {
            let alias = Some(alias);
            let job = directory_job(
                run.dir.as_str(),
                run.files[run.counter.begun - 1].name.as_str(),
                run.mode.as_str(),
                run.destination.as_str(),
                &alias,
            );
            run.phase = DirectoryPhase::Extracting;
            (run, DirectoryAction::Extract(job))
        },
        DirectoryEvent::Extracted(result) => {
            let report = report_extracted(run.counter.begun, run.counter.total, result.as_str());
            run.phase = DirectoryPhase::Reporting;
            (run, DirectoryAction::Render(report))
        },
        DirectoryEvent::Text(text) => {
            update_status(session, text);
            match run.phase {
                DirectoryPhase::Reporting => next_file(session, run),
                _ => {
                    run.phase = DirectoryPhase::Stopped;
                    (run, DirectoryAction::Stop)
                },
            }
        },
    }
}

/// What an extraction meets with.
pub struct Surroundings {
    /// The alias of a file.
    pub alias: spec_fn(Seq<char>) -> Seq<char>,
    /// What `extract_file` says of a file, and what it shows as the status line, if anything.
    pub extracted: spec_fn(JobView) -> (Seq<char>, Option<Seq<char>>),
    /// The text of a message.
    pub text: spec_fn(MessageView) -> Seq<char>,
}

impl Surroundings {
    /// The alias under which a file is extracted, if aliases are used.
    pub open spec fn alias_of(self, name: Seq<char>, use_alias: bool) -> Option<Seq<char>> {
        if use_alias {
            Some((self.alias)(name))
        } else {
            None
        }
    }

    /// The state after a file was extracted.
    pub open spec fn after_job(self, state: SessionView, job: JobView) -> SessionView {
        match (self.extracted)(job).1 {
            Some(status) => state.with_status(status),
            None => state,
        }
    }

    /// The state when an extraction has ended: no task runs, the status line tells that all
    /// files are extracted, and the progress is `progress`. Everything else is as it was.
    pub open spec fn all_extracted(self, before: SessionView, progress: Progress) -> SessionView {
        SessionView {
            status: (self.text)(plain("all-extracted"@)),
            request_repaint: true,
            progress,
            task_running: false,
            ..before
        }
    }
}

/// How many steps an extraction has left at most, once its files are listed.
pub open spec fn directory_steps_left(run: DirectoryRunView) -> int {
    let files = run.counter.total - run.counter.begun;
    match run.phase {
        DirectoryPhase::Naming => 3 * files + 4,
        DirectoryPhase::Extracting => 3 * files + 3,
        DirectoryPhase::Reporting => 3 * files + 2,
        DirectoryPhase::Closing => 1,
        _ => 0,
    }
}

/// The state when an extraction whose files are listed has run to its end, and the files
/// that were extracted, if nobody else uses the state.
pub open spec fn directory_end(
    state: SessionView,
    run: DirectoryRunView,
    action: DirectoryActionView,
    around: Surroundings,
) -> (SessionView, Seq<JobView>)
    decreases directory_steps_left(run),
{
    if !directory_does(run, action) {
        (state, Seq::empty())
    } else {
        match action {
            DirectoryActionView::LookUp(name) => {
                let (s, r, a) = directory_step(
                    state,
                    run,
                    DirectoryEventView::Alias((around.alias)(name)),
                );
                directory_end(s, r, a, around)
            },
            DirectoryActionView::Extract(job) => {
                let (s, r, a) = directory_step(
                    around.after_job(state, job),
                    run,
                    DirectoryEventView::Extracted((around.extracted)(job).0),
                );
                let (end, jobs) = directory_end(s, r, a, around);
                (end, seq![job] + jobs)
            },
            DirectoryActionView::Render(message) => {
                let (s, r, a) = directory_step(
                    state,
                    run,
                    DirectoryEventView::Text((around.text)(message)),
                );
                directory_end(s, r, a, around)
            },
            _ => (state, Seq::empty()),
        }
    }
}

/// The extractions of the given files, in order.
pub open spec fn directory_jobs(
    run: DirectoryRunView,
    files: Seq<AssetView>,
    around: Surroundings,
) -> Seq<JobView> {
    Seq::new(
        files.len(),
        |i: int|
            job(
                run.dir,
                files[i].name,
                run.mode,
                run.destination,
                around.alias_of(files[i].name, run.use_alias),
            ),
    )
}

/// The extraction of a directory extracts every file that is listed when it begins, or
/// after the directory was listed, each once and in order, whether the ones before could be
/// extracted or not. When it has ended, no task runs, the status line tells that all files
/// are extracted, and the progress is that of the last file, if there was one. Everything
/// else is as it was.
pub proof fn directory_is_extracted_whole(
    state: SessionView,
    start: DirectoryRunView,
    event: DirectoryEventView,
    around: Surroundings,
)
    requires
        awaits_in_directory(start, event),
        event is Listed || event == DirectoryEventView::Begin(false),
        state.file_list.len() <= usize::MAX,
    ensures
        ({
            let (s, r, a) = directory_step(state, start, event);
            let (end, jobs) = directory_end(s, r, a, around);
            &&& jobs == directory_jobs(start, state.file_list, around)
            &&& end == around.all_extracted(
                state,
                progress_after(
                    state.progress,
                    Counter { begun: 0, total: state.file_list.len() as usize },
                    0,
                    1,
                ),
            )
        }),
{
    let run = DirectoryRunView {
        files: state.file_list,
        counter: Counter { begun: 0, total: state.file_list.len() as usize },
        ..start
    };
    directory_from(state, run, around);
    assert(run.files.skip(0) =~= run.files);
    assert(directory_jobs(run, run.files, around) =~= directory_jobs(
        start,
        state.file_list,
        around,
    ));
}

proof fn directory_from(state: SessionView, run: DirectoryRunView, around: Surroundings)
    requires
        run.counter.valid(),
        run.counter.total == run.files.len(),
    ensures
        ({
            let (s, r, a) = directory_goes_on(state, run);
            let (end, jobs) = directory_end(s, r, a, around);
            &&& jobs == directory_jobs(run, run.files.skip(run.counter.begun as int), around)
            &&& end == around.all_extracted(
                state,
                progress_after(state.progress, run.counter, 0, 1),
            )
        }),
    decreases run.counter.total - run.counter.begun,
{
    let rest = run.files.skip(run.counter.begun as int);
    let (s, r, a) = directory_goes_on(state, run);
    let (end, jobs) = directory_end(s, r, a, around);
    if run.counter.begun < run.counter.total {
        let alias = around.alias_of(r.name(), run.use_alias);
        let extracting = r.at(DirectoryPhase::Extracting);
        let job = extracting.job(alias);
        assert(directory_end(s, r, a, around) == directory_end(
            s,
            extracting,
            DirectoryActionView::Extract(job),
            around,
        ));
        let s2 = around.after_job(s, job);
        let report = extraction_report(
            r.counter.begun as int,
            r.counter.total as int,
            (around.extracted)(job).0,
        );
        let reporting = r.at(DirectoryPhase::Reporting);
        let s3 = s2.with_status((around.text)(report));
        directory_from(s3, reporting, around);
        let (s4, r4, a4) = directory_goes_on(s3, reporting);
        let (end4, jobs4) = directory_end(s4, r4, a4, around);
        assert(directory_end(s2, reporting, DirectoryActionView::Render(report), around) == (
            end4,
            jobs4,
        ));
        assert(jobs == seq![job] + jobs4);
        assert(jobs =~= directory_jobs(run, rest, around));
    } else {
        let text = (around.text)(plain("all-extracted"@));
        let (s2, r2, a2) = directory_step(s, r, DirectoryEventView::Text(text));
        assert(directory_end(s2, r2, a2, around) == (s2, Seq::<JobView>::empty()));
        assert(jobs =~= directory_jobs(run, rest, around));
    }
}

/// Step by step: a file is extracted, under its alias if aliases are used, the status line
/// tells how it went, with the number of the file and of all, and the next one follows, with
/// its progress. Behind the last one the task ends.
pub proof fn directory_step_by_step(
    state: SessionView,
    run: DirectoryRunView,
    alias: Seq<char>,
    result: Seq<char>,
    text: Seq<char>,
)
    requires
        run.valid(),
        0 < run.counter.begun,
    ensures
        ({
            let (begun, total) = (run.counter.begun, run.counter.total);
            let at = |phase: DirectoryPhase| DirectoryRunView { phase, ..run };
            let name = run.files[begun - 1].name;
            let next = run.files[begun as int].name;
            let told = SessionView { status: text, request_repaint: true, ..state };
            let shown = SessionView {
                progress: Progress { item: (begun + 1) as usize, total, stage: 0, stages: 1 },
                ..told
            };
            let more = |phase: DirectoryPhase|
                DirectoryRunView {
                    counter: Counter { begun: (begun + 1) as usize, total },
                    phase,
                    ..run
                };
            &&& directory_step(
                state,
                at(DirectoryPhase::Naming),
                DirectoryEventView::Alias(alias),
            ) == (
                state,
                at(DirectoryPhase::Extracting),
                DirectoryActionView::Extract(
                    job(run.dir, name, run.mode, run.destination, Some(alias)),
                ),
            )
            &&& directory_step(
                state,
                at(DirectoryPhase::Extracting),
                DirectoryEventView::Extracted(result),
            ) == (
                state,
                at(DirectoryPhase::Reporting),
                DirectoryActionView::Render(
                    counted(
                        if result == "None"@ {
                            "failed-extracting-file"@
                        } else {
                            "extracting-files"@
                        },
                        begun as int,
                        total as int,
                    ),
                ),
            )
            &&& begun < total && run.use_alias ==> directory_step(
                state,
                at(DirectoryPhase::Reporting),
                DirectoryEventView::Text(text),
            ) == (shown, more(DirectoryPhase::Naming), DirectoryActionView::LookUp(next))
            &&& begun < total && !run.use_alias ==> directory_step(
                state,
                at(DirectoryPhase::Reporting),
                DirectoryEventView::Text(text),
            ) == (
                shown,
                more(DirectoryPhase::Extracting),
                DirectoryActionView::Extract(
                    job(run.dir, next, run.mode, run.destination, None),
                ),
            )
            &&& begun == total ==> directory_step(
                state,
                at(DirectoryPhase::Reporting),
                DirectoryEventView::Text(text),
            ) == (
                SessionView { task_running: false, ..told },
                at(DirectoryPhase::Closing),
                DirectoryActionView::Render(plain("all-extracted"@)),
            )
            &&& directory_step(
                state,
                at(DirectoryPhase::Closing),
                DirectoryEventView::Text(text),
            ) == (told, at(DirectoryPhase::Stopped), DirectoryActionView::Stop)
            &&& directory_step(
                state,
                at(DirectoryPhase::Starting),
                DirectoryEventView::Begin(true),
            ) == (state, at(DirectoryPhase::Listing), DirectoryActionView::List)
        }),
{
}

/// The files are extracted one by one: of each of them, in order, its own name is taken, and
/// it goes under its own alias or name.
pub proof fn each_file_has_its_own_job(
    run: DirectoryRunView,
    files: Seq<AssetView>,
    around: Surroundings,
)
    ensures
        ({
            let jobs = directory_jobs(run, files, around);
            &&& jobs.len() == files.len()
            &&& forall|i: int|
                #![trigger jobs[i]]
                0 <= i < files.len() ==> {
                    &&& jobs[i].origin == run.dir + seq!['/'] + files[i].name
                    &&& jobs[i].mode == run.mode
                    &&& jobs[i].destination == run.destination + seq!['/'] + if run.use_alias {
                        (around.alias)(files[i].name)
                    } else {
                        files[i].name
                    }
                }
        }),
{
    let jobs = directory_jobs(run, files, around);
    assert forall|i: int|
        #![trigger jobs[i]]
        0 <= i < files.len() implies {
        &&& jobs[i].origin == run.dir + seq!['/'] + files[i].name
        &&& jobs[i].mode == run.mode
        &&& jobs[i].destination == run.destination + seq!['/'] + if run.use_alias {
            (around.alias)(files[i].name)
        } else {
            files[i].name
        }
    } by {
        let name = files[i].name;
        file_goes_to_its_alias_or_name(
            run.dir,
            name,
            run.mode,
            run.destination,
            (around.alias)(name),
        );
    }
}

/// An extraction ends with the task free, the status line that tells it, and the given
/// progress, and changes nothing else; extracting a file shows a status line or nothing.
pub proof fn extraction_ends_with_all_extracted(
    around: Surroundings,
    state: SessionView,
    progress: Progress,
    job: JobView,
)
    ensures
        around.all_extracted(state, progress) == (SessionView {
            status: (around.text)(MessageView { id: "all-extracted"@, args: None }),
            request_repaint: true,
            progress,
            task_running: false,
            ..state
        }),
        (around.extracted)(job).1 is None ==> around.after_job(state, job) == state,
        (around.extracted)(job).1 matches Some(text) ==> around.after_job(state, job) == (
        SessionView { status: text, request_repaint: true, ..state }),
{
}

/// An extraction, what is to be done for it and what comes of it are as values all that they
/// hold.
pub proof fn directory_is_all_it_holds(
    run: DirectoryRun,
    text: String,
    refresh: bool,
    job: Job,
    message: Message,
)
    ensures
        run@.dir == run.dir@,
        run@.mode == run.mode@,
        run@.destination == run.destination@,
        run@.use_alias == run.use_alias,
        run@.files == assets(run.files@),
        run@.counter == run.counter,
        run@.phase == run.phase,
        (DirectoryEvent::Begin(refresh))@ == DirectoryEventView::Begin(refresh),
        (DirectoryEvent::Listed)@ == DirectoryEventView::Listed,
        (DirectoryEvent::Alias(text))@ == DirectoryEventView::Alias(text@),
        (DirectoryEvent::Extracted(text))@ == DirectoryEventView::Extracted(text@),
        (DirectoryEvent::Text(text))@ == DirectoryEventView::Text(text@),
        (DirectoryAction::List)@ == DirectoryActionView::List,
        (DirectoryAction::LookUp(text))@ == DirectoryActionView::LookUp(text@),
        (DirectoryAction::Extract(job))@ == DirectoryActionView::Extract(job@),
        (DirectoryAction::Render(message))@ == DirectoryActionView::Render(message@),
        (DirectoryAction::Stop)@ == DirectoryActionView::Stop,
{
}

/// Whatever comes of what is to be done can be taken up.
pub proof fn every_outcome_is_awaited_in_directory(
    run: DirectoryRunView,
    action: DirectoryActionView,
    text: Seq<char>,
    refresh: bool,
)
    ensures
        run.phase is Starting ==> awaits_in_directory(run, DirectoryEventView::Begin(refresh)),
        directory_does(run, action) ==> run.valid(),
        directory_does(run, action) && action is List ==> awaits_in_directory(
            run,
            DirectoryEventView::Listed,
        ),
        directory_does(run, action) && action is LookUp ==> awaits_in_directory(
            run,
            DirectoryEventView::Alias(text),
        ),
        directory_does(run, action) && action is Extract ==> awaits_in_directory(
            run,
            DirectoryEventView::Extracted(text),
        ),
        directory_does(run, action) && action is Render ==> awaits_in_directory(
            run,
            DirectoryEventView::Text(text),
        ),
{
}

/// The extraction takes the whole list as it stands when it begins, and begins with the
/// first file.
pub proof fn directory_begins_with_the_first_file(
    state: SessionView,
    dir: Seq<char>,
    mode: Seq<char>,
    destination: Seq<char>,
    use_alias: bool,
)
    requires
        0 < state.file_list.len() <= usize::MAX,
    ensures
        ({
            let start = directory_start(dir, mode, destination, use_alias);
            let total = state.file_list.len() as usize;
            let name = state.file_list[0].name;
            let (s, r, a) = directory_step(state, start, DirectoryEventView::Begin(false));
            &&& s == (SessionView {
                progress: Progress { item: 1, total, stage: 0, stages: 1 },
                request_repaint: true,
                ..state
            })
            &&& r == (DirectoryRunView {
                dir,
                mode,
                destination,
                use_alias,
                files: state.file_list,
                counter: Counter { begun: 1, total },
                phase: if use_alias {
                    DirectoryPhase::Naming
                } else {
                    DirectoryPhase::Extracting
                },
            })
            &&& a == if use_alias {
                DirectoryActionView::LookUp(name)
            } else {
                DirectoryActionView::Extract(job(dir, name, mode, destination, None))
            }
            &&& start.phase is Starting
            &&& start.valid()
        }),
{
}

} // verus!
