//! The extraction of the whole cache, from its start to its end.

use vstd::prelude::*;
use crate::directory_run::Surroundings;
use crate::extraction::{
    after_extraction, directory_job, file_goes_to_its_alias_or_name, finish_extraction, job,
    next_in_stage, report_unreadable, stage_detail, stage_status, ExtractionPlan, Job, JobView,
    PlanView, Stage,
};
use crate::headers::{classified, classify};
use crate::messages::{counted, plain, staged, Message, MessageView};
use crate::session::{update_status, Progress, Session, SessionView};
use crate::tasks::{comes_after, progress_after, progress_at, Counter};
use crate::text::{
    join_path, joined_path_has_one_slash_between, optional_text, slashed, text_pairs,
};

verus! {

/// What the extraction of the cache waits for.
#[derive(Debug)]
pub enum CachePhase {
    /// That it starts.
    Starting,
    /// That the directories of the plan are created.
    Preparing,
    /// The number of entries of the directory of the stage.
    Opening,
    /// What can be had of the entry that was begun last.
    Inspecting,
    /// The alias of the file `name`, which is to be extracted as one of the category `mode`.
    Naming { name: String, mode: String },
    /// That the file is extracted.
    Extracting,
    /// The text that tells what is done in the stage.
    Detailing,
    /// The text of the status message.
    Reporting,
    /// The text of the last status message.
    Closing,
    /// Nothing: it has ended.
    Stopped,
}

/// What the extraction of the cache waits for, as a value.
pub enum CachePhaseView {
    Starting,
    Preparing,
    Opening,
    Inspecting,
    Naming { name: Seq<char>, mode: Seq<char> },
    Extracting,
    Detailing,
    Reporting,
    Closing,
    Stopped,
}

impl View for CachePhase {
    type V = CachePhaseView;

    open spec fn view(&self) -> CachePhaseView {
        match self {
            CachePhase::Starting => CachePhaseView::Starting,
            CachePhase::Preparing => CachePhaseView::Preparing,
            CachePhase::Opening => CachePhaseView::Opening,
            CachePhase::Inspecting => CachePhaseView::Inspecting,
            CachePhase::Naming { name, mode } => CachePhaseView::Naming {
                name: name@,
                mode: mode@,
            },
            CachePhase::Extracting => CachePhaseView::Extracting,
            CachePhase::Detailing => CachePhaseView::Detailing,
            CachePhase::Reporting => CachePhaseView::Reporting,
            CachePhase::Closing => CachePhaseView::Closing,
            CachePhase::Stopped => CachePhaseView::Stopped,
        }
    }
}

/// An extraction of the whole cache into the directory `destination`.
#[derive(Debug)]
pub struct CacheRun {
    pub plan: ExtractionPlan,
    pub destination: String,
    pub use_alias: bool,
    pub stage: Stage,
    pub counter: Counter,
    /// The files that were put into a category so far, each with its category.
    pub found: Vec<(String, String)>,
    pub phase: CachePhase,
}

/// An extraction of the whole cache, as a value.
#[verifier::ext_equal]
pub struct CacheRunView {
    pub plan: PlanView,
    pub destination: Seq<char>,
    pub use_alias: bool,
    pub stage: Stage,
    pub counter: Counter,
    pub found: Seq<(Seq<char>, Seq<char>)>,
    pub phase: CachePhaseView,
}

impl View for CacheRun {
    type V = CacheRunView;

    open spec fn view(&self) -> CacheRunView {
        CacheRunView {
            plan: self.plan@,
            destination: self.destination@,
            use_alias: self.use_alias,
            stage: self.stage,
            counter: self.counter,
            found: text_pairs(self.found@),
            phase: self.phase@,
        }
    }
}

impl CacheRunView {
    /// No more items were begun than there are. In the last stage the items are the files
    /// that were put into a category, and a directory is read only before it.
    pub open spec fn valid(self) -> bool {
        &&& self.counter.valid()
        &&& self.stage is Categories ==> self.counter.total == self.found.len()
        &&& self.stage is Categories ==> !(self.phase is Opening || self.phase is Inspecting)
        &&& self.phase is Starting || self.phase is Preparing ==> self.stage is Music
        &&& self.phase is Inspecting || self.phase is Naming || self.phase is Extracting
            || self.phase is Detailing || self.phase is Reporting ==> 0 < self.counter.begun
    }

    /// The extraction in another phase.
    pub open spec fn at(self, phase: CachePhaseView) -> CacheRunView {
        CacheRunView { phase, ..self }
    }

    /// The extraction with one more item begun.
    pub open spec fn begin_item(self) -> CacheRunView {
        CacheRunView {
            counter: Counter {
                begun: (self.counter.begun + 1) as usize,
                total: self.counter.total,
            },
            ..self
        }
    }

    /// The progress at the item that was begun last.
    pub open spec fn shows(self, state: SessionView) -> SessionView {
        state.with_progress(
            progress_at(
                self.counter.begun as int,
                self.counter.total,
                self.stage.position(),
                3,
            ),
        )
    }

    /// The extraction of the file `name` of the category `mode`, in the stage of the music
    /// or in that of the categories.
    pub open spec fn job(
        self,
        name: Seq<char>,
        mode: Seq<char>,
        alias: Option<Seq<char>>,
    ) -> JobView {
        job(
            if self.stage is Music {
                self.plan.music_directory
            } else {
                self.plan.http_directory
            },
            name,
            mode,
            slashed(self.destination, mode),
            alias,
        )
    }
}

/// What came of what was to be done.
#[derive(Debug)]
pub enum CacheEvent {
    /// The extraction starts.
    Begin,
    /// The directories are created, or could not be.
    Created,
    /// The directory was read, and has this many entries.
    Opened(usize),
    /// The entry has no file name.
    Unnamed,
    /// The name of the music file.
    Music(String),
    /// The entry could not be opened or read.
    Unreadable,
    /// The name of the file and its first bytes.
    Read { name: String, bytes: Vec<u8> },
    /// The alias of the file.
    Alias(String),
    /// The file was extracted, or could not be.
    Extracted,
    /// The text of the message.
    Text(String),
}

/// What came of what was to be done, as a value.
pub enum CacheEventView {
    Begin,
    Created,
    Opened(usize),
    Unnamed,
    Music(Seq<char>),
    Unreadable,
    Read { name: Seq<char>, bytes: Seq<u8> },
    Alias(Seq<char>),
    Extracted,
    Text(Seq<char>),
}

impl View for CacheEvent {
    type V = CacheEventView;

    open spec fn view(&self) -> CacheEventView {
        match self {
            CacheEvent::Begin => CacheEventView::Begin,
            CacheEvent::Created => CacheEventView::Created,
            CacheEvent::Opened(total) => CacheEventView::Opened(*total),
            CacheEvent::Unnamed => CacheEventView::Unnamed,
            CacheEvent::Music(name) => CacheEventView::Music(name@),
            CacheEvent::Unreadable => CacheEventView::Unreadable,
            CacheEvent::Read { name, bytes } => CacheEventView::Read {
                name: name@,
                bytes: bytes@,
            },
            CacheEvent::Alias(alias) => CacheEventView::Alias(alias@),
            CacheEvent::Extracted => CacheEventView::Extracted,
            CacheEvent::Text(text) => CacheEventView::Text(text@),
        }
    }
}

/// What is to be done next. Positions of entries are counted from zero.
#[derive(Debug)]
pub enum CacheAction {
    /// The directories of the plan are created.
    CreateDirectories,
    /// The entries of the directory at this path are read.
    ReadDirectory(String),
    /// The name of the music file is taken.
    TakeName(usize),
    /// The entry is opened, and its first bytes are read.
    ReadEntry(usize),
    /// The alias of the file of this name is looked up.
    LookUp(String),
    /// The file is extracted, and gets an extension.
    Extract(Job),
    /// The text of the message is looked up.
    Render(Message),
    /// Nothing.
    Stop,
}

/// What is to be done next, as a value.
pub enum CacheActionView {
    CreateDirectories,
    ReadDirectory(Seq<char>),
    TakeName(int),
    ReadEntry(int),
    LookUp(Seq<char>),
    Extract(JobView),
    Render(MessageView),
    Stop,
}

impl View for CacheAction {
    type V = CacheActionView;

    open spec fn view(&self) -> CacheActionView {
        match self {
            CacheAction::CreateDirectories => CacheActionView::CreateDirectories,
            CacheAction::ReadDirectory(path) => CacheActionView::ReadDirectory(path@),
            CacheAction::TakeName(index) => CacheActionView::TakeName(*index as int),
            CacheAction::ReadEntry(index) => CacheActionView::ReadEntry(*index as int),
            CacheAction::LookUp(name) => CacheActionView::LookUp(name@),
            CacheAction::Extract(job) => CacheActionView::Extract(job@),
            CacheAction::Render(message) => CacheActionView::Render(message@),
            CacheAction::Stop => CacheActionView::Stop,
        }
    }
}

/// The extraction waits for such an event.
pub open spec fn awaits_in_cache(run: CacheRunView, event: CacheEventView) -> bool {
    match event {
        CacheEventView::Begin => run.phase is Starting,
        CacheEventView::Created => run.phase is Preparing,
        CacheEventView::Opened(_) => run.phase is Opening,
        CacheEventView::Unnamed => run.phase is Inspecting,
        CacheEventView::Music(_) => run.phase is Inspecting && run.stage is Music,
        CacheEventView::Unreadable => run.phase is Inspecting && run.stage is Filter,
        CacheEventView::Read { .. } => run.phase is Inspecting && run.stage is Filter,
        CacheEventView::Alias(_) => run.phase is Naming,
        CacheEventView::Extracted => run.phase is Extracting,
        CacheEventView::Text(_) => run.phase is Detailing || run.phase is Reporting
            || run.phase is Closing,
    }
}

/// What is to be done is what the extraction waits for.
pub open spec fn cache_does(run: CacheRunView, action: CacheActionView) -> bool {
    &&& run.valid()
    &&& match action {
        CacheActionView::CreateDirectories => run.phase is Preparing,
        CacheActionView::ReadDirectory(_) => run.phase is Opening,
        CacheActionView::TakeName(index) => run.phase is Inspecting && run.stage is Music && index
            == run.counter.begun - 1,
        CacheActionView::ReadEntry(index) => run.phase is Inspecting && run.stage is Filter
            && index == run.counter.begun - 1,
        CacheActionView::LookUp(_) => run.phase is Naming,
        CacheActionView::Extract(_) => run.phase is Extracting,
        CacheActionView::Render(_) => run.phase is Detailing || run.phase is Reporting
            || run.phase is Closing,
        CacheActionView::Stop => run.phase is Stopped,
    }
}

/// The file `name` is to be extracted as one of the category `mode`.
pub open spec fn cache_takes_file(
    state: SessionView,
    run: CacheRunView,
    name: Seq<char>,
    mode: Seq<char>,
) -> (SessionView, CacheRunView, CacheActionView) {
    if run.use_alias {
        (state, run.at(CachePhaseView::Naming { name, mode }), CacheActionView::LookUp(name))
    } else {
        (
            state,
            run.at(CachePhaseView::Extracting),
            CacheActionView::Extract(run.job(name, mode, None)),
        )
    }
}

/// The extraction goes on to the next file that was put into a category, or ends.
pub open spec fn categories_go_on(state: SessionView, run: CacheRunView) -> (
    SessionView,
    CacheRunView,
    CacheActionView,
) {
    if run.counter.begun < run.counter.total {
        let begun = run.begin_item();
        let (name, mode) = run.found[run.counter.begun as int];
        cache_takes_file(begun.shows(state), begun, name, mode)
    } else {
        (
            after_extraction(state),
            run.at(CachePhaseView::Closing),
            CacheActionView::Render(plain("all-extracted"@)),
        )
    }
}

/// The extraction goes on to the next item, and from the last one of a stage to the next
/// stage.
pub open spec fn cache_goes_on(state: SessionView, run: CacheRunView) -> (
    SessionView,
    CacheRunView,
    CacheActionView,
) {
    let more = run.counter.begun < run.counter.total;
    let begun = run.begin_item();
    match run.stage {
        Stage::Music => if more {
            (
                begun.shows(state),
                begun.at(CachePhaseView::Inspecting),
                CacheActionView::TakeName(run.counter.begun as int),
            )
        } else {
            (
                state,
                CacheRunView { stage: Stage::Filter, ..run }.at(CachePhaseView::Opening),
                CacheActionView::ReadDirectory(run.plan.http_directory),
            )
        },
        Stage::Filter => if more {
            (
                begun.shows(state),
                begun.at(CachePhaseView::Inspecting),
                CacheActionView::ReadEntry(run.counter.begun as int),
            )
        } else {
            categories_go_on(
                state,
                CacheRunView {
                    stage: Stage::Categories,
                    counter: Counter { begun: 0, total: run.found.len() as usize },
                    ..run
                },
            )
        },
        Stage::Categories => categories_go_on(state, run),
    }
}

/// The message that tells what is done in the stage.
pub open spec fn cache_detail(run: CacheRunView) -> MessageView {
    counted(run.stage.detail(), run.counter.begun as int, run.counter.total as int)
}

/// The state, the extraction and what is to be done after an event.
pub open spec fn cache_step(state: SessionView, run: CacheRunView, event: CacheEventView) -> (
    SessionView,
    CacheRunView,
    CacheActionView,
) {
    let (item, total) = (run.counter.begun as int, run.counter.total as int);
    match event {
        CacheEventView::Begin => (
            state,
            run.at(CachePhaseView::Preparing),
            CacheActionView::CreateDirectories,
        ),
        CacheEventView::Created => (
            state,
            run.at(CachePhaseView::Opening),
            CacheActionView::ReadDirectory(run.plan.music_directory),
        ),
        CacheEventView::Opened(total) => cache_goes_on(
            state,
            CacheRunView { counter: Counter { begun: 0, total }, ..run },
        ),
        CacheEventView::Unnamed => cache_goes_on(state, run),
        CacheEventView::Music(name) => cache_takes_file(state, run, name, "Music"@),
        CacheEventView::Unreadable => (
            state,
            run.at(CachePhaseView::Reporting),
            CacheActionView::Render(counted("failed-opening-file"@, item, total)),
        ),
        CacheEventView::Read { name, bytes } => (
            state,
            CacheRunView {
                found: run.found + classified(run.plan.headers, name, bytes),
                ..run
            }.at(CachePhaseView::Detailing),
            CacheActionView::Render(cache_detail(run)),
        ),
        CacheEventView::Alias(alias) => (
            state,
            run.at(CachePhaseView::Extracting),
            CacheActionView::Extract(
                run.job(run.phase->Naming_name, run.phase->Naming_mode, Some(alias)),
            ),
        ),
        CacheEventView::Extracted => (
            state,
            run.at(CachePhaseView::Detailing),
            CacheActionView::Render(cache_detail(run)),
        ),
        CacheEventView::Text(text) => match run.phase {
            CachePhaseView::Detailing => (
                state,
                run.at(CachePhaseView::Reporting),
                CacheActionView::Render(staged(item, total, text, run.stage.words())),
            ),
            CachePhaseView::Reporting => cache_goes_on(state.with_status(text), run),
            _ => (
                state.with_status(text),
                run.at(CachePhaseView::Stopped),
                CacheActionView::Stop,
            ),
        },
    }
}

/// The extraction of the whole cache at its start.
pub open spec fn cache_start(
    plan: PlanView,
    destination: Seq<char>,
    use_alias: bool,
) -> CacheRunView {
    CacheRunView {
        plan,
        destination,
        use_alias,
        stage: Stage::Music,
        counter: Counter { begun: 0, total: 0 },
        found: Seq::empty(),
        phase: CachePhaseView::Starting,
    }
}

impl CacheRun {
    /// The extraction of the whole cache into the directory `destination`, at its start.
    pub fn new(plan: ExtractionPlan, destination: String, use_alias: bool) -> (res: CacheRun)
        ensures
            res@ == cache_start(plan@, destination@, use_alias),
            res@.valid(),
    {
        let found: Vec<(String, String)> = Vec::new();
        assert(text_pairs(found@) =~= Seq::empty());
        CacheRun {
            plan,
            destination,
            use_alias,
            stage: Stage::Music,
            counter: Counter::new(0),
            found,
            phase: CachePhase::Starting,
        }
    }
}

fn job_of(run: &CacheRun, name: &str, mode: &str, alias: &Option<String>) -> (res: Job)
    ensures
        res@ == run@.job(name@, mode@, optional_text(*alias)),
{
    let directory = match run.stage {
        Stage::Music => run.plan.music_directory.as_str(),
        _ => run.plan.http_directory.as_str(),
    };
    let target = join_path(run.destination.as_str(), mode);
    directory_job(directory, name, mode, target.as_str(), alias)
}

fn take_file(run: CacheRun, name: String, mode: String) -> (res: (CacheRun, CacheAction))
    requires
        run.counter.valid(),
        0 < run.counter.begun,
        run.stage is Categories ==> run.counter.total == run.found.len(),
    ensures
        cache_does(res.0@, res.1@),
        forall|state: SessionView| #[trigger]
            cache_takes_file(state, run@, name@, mode@) == (state, res.0@, res.1@),
{
    let mut run = run;
    if run.use_alias {
        let asked = name.clone();
        run.phase = CachePhase::Naming { name, mode };
        (run, CacheAction::LookUp(asked))
    } else {
        let job = job_of(&run, name.as_str(), mode.as_str(), &None);
        run.phase = CachePhase::Extracting;
        (run, CacheAction::Extract(job))
    }
}

fn next_found(session: &mut Session, run: CacheRun) -> (res: (CacheRun, CacheAction))
    requires
        run.counter.valid(),
        run.stage is Categories,
        run.counter.total == run.found.len(),
    ensures
        cache_does(res.0@, res.1@),
        (final(session)@, res.0@, res.1@) == categories_go_on(old(session)@, run@),
{
    let mut run = run;
    match next_in_stage(session, &mut run.counter, Stage::Categories) {
        Some(item) => {
            let name = run.found[item - 1].0.clone();
            let mode = run.found[item - 1].1.clone();
            assert(run@.found[item - 1] == (name@, mode@));
            take_file(run, name, mode)
        },
        None => {
            let status = finish_extraction(session);
            run.phase = CachePhase::Closing;
            (run, CacheAction::Render(status))
        },
    }
}

fn next_in_cache(session: &mut Session, run: CacheRun) -> (res: (CacheRun, CacheAction))
    requires
        run.counter.valid(),
        run.stage is Categories ==> run.counter.total == run.found.len(),
    ensures
        cache_does(res.0@, res.1@),
        (final(session)@, res.0@, res.1@) == cache_goes_on(old(session)@, run@),
{
    let mut run = run;
    match run.stage {
        Stage::Music => match next_in_stage(session, &mut run.counter, Stage::Music) {
            Some(item) => {
                run.phase = CachePhase::Inspecting;
                (run, CacheAction::TakeName(item - 1))
            },
            None => {
                let path = run.plan.http_directory.clone();
                run.stage = Stage::Filter;
                run.phase = CachePhase::Opening;
                (run, CacheAction::ReadDirectory(path))
            },
        },
        Stage::Filter => match next_in_stage(session, &mut run.counter, Stage::Filter) {
            Some(item) => {
                run.phase = CachePhase::Inspecting;
                (run, CacheAction::ReadEntry(item - 1))
            },
            None => {
                run.stage = Stage::Categories;
                run.counter = Counter::new(run.found.len());
                assert(run@.found.len() == run.found@.len());
                next_found(session, run)
            },
        },
        Stage::Categories => next_found(session, run),
    }
}

/// Takes up an event, and tells what is to be done next. While that is done, others may
/// use the state.
pub fn step_cache(session: &mut Session, run: CacheRun, event: CacheEvent) -> (res: (
    CacheRun,
    CacheAction,
))
    requires
        run@.valid(),
        awaits_in_cache(run@, event@),
    ensures
        cache_does(res.0@, res.1@),
        (final(session)@, res.0@, res.1@) == cache_step(old(session)@, run@, event@),
{
    let mut run = run;
    let (stage, item, total) = (run.stage, run.counter.begun, run.counter.total);
    match event {
        CacheEvent::Begin => {
            run.phase = CachePhase::Preparing;
            (run, CacheAction::CreateDirectories)
        },
        CacheEvent::Created => {
            let path = run.plan.music_directory.clone();
            run.phase = CachePhase::Opening;
            (run, CacheAction::ReadDirectory(path))
        },
        CacheEvent::Opened(total) => {
            run.counter = Counter::new(total);
            next_in_cache(session, run)
        },
        CacheEvent::Unnamed => next_in_cache(session, run),
        CacheEvent::Music(name) => take_file(run, name, "Music".to_owned()),
        CacheEvent::Unreadable => {
            run.phase = CachePhase::Reporting;
            (run, CacheAction::Render(report_unreadable(item, total)))
        },
        CacheEvent::Read { name, bytes } => {
            let mut more = classify(&run.plan.headers, name.as_str(), bytes.as_slice());
            let ghost before = run.found@;
            let ghost added = more@;
            run.found.append(&mut more);
            assert(text_pairs(run.found@) =~= text_pairs(before) + text_pairs(added));
            run.phase = CachePhase::Detailing;
            (run, CacheAction::Render(stage_detail(stage, item, total)))
        },
        CacheEvent::Alias(alias) => {
            let alias = Some(alias);
            let action = match &run.phase {
                CachePhase::Naming { name, mode } => CacheAction::Extract(
                    job_of(&run, name.as_str(), mode.as_str(), &alias),
                ),
                _ => CacheAction::Stop,
            };
            run.phase = CachePhase::Extracting;
            (run, action)
        },
        CacheEvent::Extracted => {
            run.phase = CachePhase::Detailing;
            (run, CacheAction::Render(stage_detail(stage, item, total)))
        },
        CacheEvent::Text(text) => match run.phase {
            CachePhase::Detailing => {
                run.phase = CachePhase::Reporting;
                (run, CacheAction::Render(stage_status(stage, item, total, text)))
            },
            CachePhase::Reporting => {
                update_status(session, text);
                next_in_cache(session, run)
            },
            _ => {
                update_status(session, text);
                run.phase = CachePhase::Stopped;
                (run, CacheAction::Stop)
            },
        },
    }
}

/// What can be had of an entry of the directory of the files that are no music.
pub enum HttpEntry {
    Unnamed,
    Unreadable,
    File { name: Seq<char>, bytes: Seq<u8> },
}

/// The progress is that of the item that was begun last, or of an item of an earlier stage.
pub open spec fn progress_fits(progress: Progress, run: CacheRunView) -> bool {
    let position = run.stage.position();
    &&& progress.valid()
    &&& progress.stages == 3
    &&& !(run.phase is Starting || run.phase is Preparing)
    &&& progress.stage < position || (progress.stage == position && !(run.phase is Opening)
        && progress.item == run.counter.begun && progress.total == run.counter.total)
}

/// Once the first item of an extraction of the cache is shown, the progress never goes
/// back: a step keeps it, or shows one that comes after it.
pub proof fn cache_progress_never_goes_back(
    state: SessionView,
    run: CacheRunView,
    event: CacheEventView,
)
    requires
        run.valid(),
        run.found.len() <= usize::MAX,
        awaits_in_cache(run, event),
        progress_fits(state.progress, run),
    ensures
        ({
            let (s, r, _) = cache_step(state, run, event);
            &&& progress_fits(s.progress, r)
            &&& s.progress == state.progress || comes_after(s.progress, state.progress)
        }),
{
    match event {
        CacheEventView::Opened(total) => {
            let opened = CacheRunView { counter: Counter { begun: 0, total }, ..run };
            going_on_never_goes_back(state, opened);
        },
        CacheEventView::Unnamed => going_on_never_goes_back(state, run),
        CacheEventView::Text(text) => if run.phase is Reporting {
            going_on_never_goes_back(state.with_status(text), run);
        },
        _ => {},
    }
}

proof fn going_on_never_goes_back(state: SessionView, run: CacheRunView)
    requires
        run.counter.valid(),
        run.stage is Categories ==> run.counter.total == run.found.len(),
        run.found.len() <= usize::MAX,
        state.progress.valid(),
        state.progress.stages == 3,
        state.progress.stage < run.stage.position() || (state.progress.stage
            == run.stage.position() && state.progress.item == run.counter.begun
            && state.progress.total == run.counter.total),
    ensures
        ({
            let (s, r, _) = cache_goes_on(state, run);
            &&& progress_fits(s.progress, r)
            &&& s.progress == state.progress || comes_after(s.progress, state.progress)
        }),
{
}

/// What a cache holds: the names of its music files, as far as they have one, and its other
/// files, each with its first bytes.
pub struct CacheContents {
    pub music: Seq<Option<Seq<char>>>,
    pub http: Seq<HttpEntry>,
}

impl CacheContents {
    /// The number of entries of the directory of a stage.
    pub open spec fn size(self, stage: Stage) -> int {
        if stage is Music {
            self.music.len() as int
        } else {
            self.http.len() as int
        }
    }
}

/// How many steps the stage of an extraction has left at most.
pub open spec fn cache_steps_left(run: CacheRunView, cache: CacheContents) -> int {
    let items = run.counter.total - run.counter.begun;
    match run.phase {
        CachePhaseView::Preparing => 5 * cache.size(run.stage) + 8,
        CachePhaseView::Opening => 5 * cache.size(run.stage) + 7,
        CachePhaseView::Inspecting => 5 * items + 6,
        CachePhaseView::Naming { .. } => 5 * items + 5,
        CachePhaseView::Extracting => 5 * items + 4,
        CachePhaseView::Detailing => 5 * items + 3,
        CachePhaseView::Reporting => 5 * items + 2,
        CachePhaseView::Closing => 1,
        _ => 0,
    }
}

/// What comes of what is to be done. The directories of the cache have few enough entries
/// to be counted.
pub open spec fn cache_reply(
    stage: Stage,
    action: CacheActionView,
    cache: CacheContents,
    around: Surroundings,
) -> CacheEventView {
    match action {
        CacheActionView::CreateDirectories => CacheEventView::Created,
        CacheActionView::ReadDirectory(_) => CacheEventView::Opened(cache.size(stage) as usize),
        CacheActionView::TakeName(index) => match cache.music[index] {
            Some(name) => CacheEventView::Music(name),
            None => CacheEventView::Unnamed,
        },
        CacheActionView::ReadEntry(index) => match cache.http[index] {
            HttpEntry::Unnamed => CacheEventView::Unnamed,
            HttpEntry::Unreadable => CacheEventView::Unreadable,
            HttpEntry::File { name, bytes } => CacheEventView::Read { name, bytes },
        },
        CacheActionView::LookUp(name) => CacheEventView::Alias((around.alias)(name)),
        CacheActionView::Extract(_) => CacheEventView::Extracted,
        CacheActionView::Render(message) => CacheEventView::Text((around.text)(message)),
        CacheActionView::Stop => CacheEventView::Begin,
    }
}

/// The state when the extraction of the whole cache has run to its end, and the files that
/// were extracted, if nobody else uses the state.
pub open spec fn cache_end(
    state: SessionView,
    run: CacheRunView,
    action: CacheActionView,
    cache: CacheContents,
    around: Surroundings,
) -> (SessionView, Seq<JobView>)
    decreases 2 - run.stage.position(), cache_steps_left(run, cache),
{
    if !cache_does(run, action) || action is Stop || cache.size(run.stage) > usize::MAX
        || run.found.len() > usize::MAX {
        (state, Seq::empty())
    } else {
        let event = cache_reply(run.stage, action, cache, around);
        match action {
            CacheActionView::Extract(job) => {
                let (s, r, a) = cache_step(around.after_job(state, job), run, event);
                let (end, jobs) = cache_end(s, r, a, cache, around);
                (end, seq![job] + jobs)
            },
            _ => {
                let (s, r, a) = cache_step(state, run, event);
                cache_end(s, r, a, cache, around)
            },
        }
    }
}

/// The extractions of the music files of the given names, in order.
pub open spec fn music_jobs(
    start: CacheRunView,
    names: Seq<Option<Seq<char>>>,
    around: Surroundings,
) -> Seq<JobView>
    decreases names.len(),
{
    if names.len() == 0 {
        Seq::empty()
    } else {
        let rest = music_jobs(start, names.skip(1), around);
        match names[0] {
            Some(name) => seq![
                job(
                    start.plan.music_directory,
                    name,
                    "Music"@,
                    slashed(start.destination, "Music"@),
                    around.alias_of(name, start.use_alias),
                ),
            ] + rest,
            None => rest,
        }
    }
}

/// The files among the given entries that are in a category, each once for each header
/// that it holds, with its category.
pub open spec fn all_classified(
    headers: Seq<(Seq<char>, Seq<char>)>,
    entries: Seq<HttpEntry>,
) -> Seq<(Seq<char>, Seq<char>)>
    decreases entries.len(),
{
    if entries.len() == 0 {
        Seq::empty()
    } else {
        let rest = all_classified(headers, entries.skip(1));
        match entries[0] {
            HttpEntry::File { name, bytes } => classified(headers, name, bytes) + rest,
            _ => rest,
        }
    }
}

/// The extractions of the given files, which are in a category, in order.
pub open spec fn category_jobs(
    start: CacheRunView,
    files: Seq<(Seq<char>, Seq<char>)>,
    around: Surroundings,
) -> Seq<JobView> {
    Seq::new(
        files.len(),
        |i: int|
            job(
                start.plan.http_directory,
                files[i].0,
                files[i].1,
                slashed(start.destination, files[i].1),
                around.alias_of(files[i].0, start.use_alias),
            ),
    )
}

/// The progress at the end of an extraction that is in the stage that puts files into
/// categories, where `found` files are in one.
pub open spec fn filter_progress(before: Progress, http: Counter, found: usize) -> Progress {
    progress_after(
        progress_after(before, http, Stage::Filter.position(), 3),
        Counter { begun: 0, total: found },
        Stage::Categories.position(),
        3,
    )
}

/// The progress at the end of an extraction that is in the stage of the music, where there
/// are `http` other files, and `found` files are in a category: that of the last item of the
/// last stage that has items.
pub open spec fn cache_progress(
    before: Progress,
    music: Counter,
    http: usize,
    found: usize,
) -> Progress {
    filter_progress(
        progress_after(before, music, Stage::Music.position(), 3),
        Counter { begun: 0, total: http },
        found,
    )
}

/// The extraction of the whole cache extracts every music file, and then every file that
/// is in a category, once for each header that it holds: each in the order of the
/// directories, whether the ones before could be extracted or not. When it has ended, no
/// task runs, the status line tells that all files are extracted, and the progress is that
/// of the last item: the whole, if a file is in a category. Everything else is as it was.
pub proof fn cache_is_extracted_whole(
    state: SessionView,
    plan: PlanView,
    destination: Seq<char>,
    use_alias: bool,
    cache: CacheContents,
    around: Surroundings,
)
    requires
        cache.music.len() <= usize::MAX,
        cache.http.len() <= usize::MAX,
        all_classified(plan.headers, cache.http).len() <= usize::MAX,
    ensures
        ({
            let start = cache_start(plan, destination, use_alias);
            let (s, r, a) = cache_step(state, start, CacheEventView::Begin);
            let (end, jobs) = cache_end(s, r, a, cache, around);
            &&& jobs == music_jobs(start, cache.music, around) + category_jobs(
                start,
                all_classified(plan.headers, cache.http),
                around,
            )
            &&& end == around.all_extracted(
                state,
                cache_progress(
                    state.progress,
                    Counter { begun: 0, total: cache.music.len() as usize },
                    cache.http.len() as usize,
                    all_classified(plan.headers, cache.http).len() as usize,
                ),
            )
        }),
{
    let start = cache_start(plan, destination, use_alias);
    let (s, r, a) = cache_step(state, start, CacheEventView::Begin);
    let (s2, r2, a2) = cache_step(s, r, CacheEventView::Created);
    let size = cache.music.len() as usize;
    let opened = CacheRunView { counter: Counter { begun: 0, total: size }, ..r2 };
    let (s3, r3, a3) = cache_goes_on(s2, opened);
    assert(cache_end(s, r, a, cache, around) == cache_end(s2, r2, a2, cache, around));
    assert(cache_end(s2, r2, a2, cache, around) == cache_end(s3, r3, a3, cache, around));
    let found = all_classified(plan.headers, cache.http);
    assert(opened.found + found =~= found);
    assert(cache.music.skip(0) =~= cache.music);
    music_from(s2, opened, cache, around);
    music_jobs_agree(opened, start, cache.music, around);
    assert(category_jobs(opened, found, around) =~= category_jobs(start, found, around));
}

proof fn music_jobs_agree(
    a: CacheRunView,
    b: CacheRunView,
    names: Seq<Option<Seq<char>>>,
    around: Surroundings,
)
    requires
        a.plan == b.plan,
        a.destination == b.destination,
        a.use_alias == b.use_alias,
    ensures
        music_jobs(a, names, around) == music_jobs(b, names, around),
    decreases names.len(),
{
    if names.len() > 0 {
        music_jobs_agree(a, b, names.skip(1), around);
    }
}

/// The status message of the item that was begun last.
spec fn cache_report(run: CacheRunView, around: Surroundings) -> MessageView {
    staged(
        run.counter.begun as int,
        run.counter.total as int,
        (around.text)(cache_detail(run)),
        run.stage.words(),
    )
}

/// What comes of an extraction from its next item on.
spec fn end_from(
    state: SessionView,
    run: CacheRunView,
    cache: CacheContents,
    around: Surroundings,
) -> (SessionView, Seq<JobView>) {
    let (s, r, a) = cache_goes_on(state, run);
    cache_end(s, r, a, cache, around)
}

/// An item was begun, and what there is can be counted.
spec fn at_item(run: CacheRunView, cache: CacheContents) -> bool {
    &&& run.counter.valid()
    &&& 0 < run.counter.begun
    &&& run.stage is Categories ==> run.counter.total == run.found.len()
    &&& cache.size(run.stage) <= usize::MAX
    &&& run.found.len() <= usize::MAX
}

proof fn item_is_reported(
    state: SessionView,
    run: CacheRunView,
    cache: CacheContents,
    around: Surroundings,
)
    requires
        at_item(run, cache),
    ensures
        cache_end(
            state,
            run.at(CachePhaseView::Detailing),
            CacheActionView::Render(cache_detail(run)),
            cache,
            around,
        ) == end_from(
            state.with_status((around.text)(cache_report(run, around))),
            run,
            cache,
            around,
        ),
{
    let detailing = run.at(CachePhaseView::Detailing);
    let reporting = run.at(CachePhaseView::Reporting);
    let report = cache_report(run, around);
    let shown = state.with_status((around.text)(report));
    assert(cache_end(
        state,
        detailing,
        CacheActionView::Render(cache_detail(run)),
        cache,
        around,
    ) == cache_end(state, reporting, CacheActionView::Render(report), cache, around));
    let (s, r, a) = cache_goes_on(shown, reporting);
    assert(cache_goes_on(shown, run) == cache_goes_on(shown, reporting));
    assert(cache_end(state, reporting, CacheActionView::Render(report), cache, around)
        == cache_end(s, r, a, cache, around));
}

proof fn file_is_extracted(
    state: SessionView,
    run: CacheRunView,
    name: Seq<char>,
    mode: Seq<char>,
    cache: CacheContents,
    around: Surroundings,
)
    requires
        at_item(run, cache),
    ensures
        ({
            let (s, r, a) = cache_takes_file(state, run, name, mode);
            let job = run.job(name, mode, around.alias_of(name, run.use_alias));
            let shown = around.after_job(state, job).with_status(
                (around.text)(cache_report(run, around)),
            );
            let (end, jobs) = end_from(shown, run, cache, around);
            cache_end(s, r, a, cache, around) == (end, seq![job] + jobs)
        }),
{
    let (s, r, a) = cache_takes_file(state, run, name, mode);
    let job = run.job(name, mode, around.alias_of(name, run.use_alias));
    let extracting = run.at(CachePhaseView::Extracting);
    let extract = CacheActionView::Extract(job);
    assert(cache_end(s, r, a, cache, around) == cache_end(
        state,
        extracting,
        extract,
        cache,
        around,
    ));
    let after = around.after_job(state, job);
    item_is_reported(after, run, cache, around);
}

proof fn categories_from(
    state: SessionView,
    run: CacheRunView,
    cache: CacheContents,
    around: Surroundings,
)
    requires
        run.stage is Categories,
        run.counter.valid(),
        run.counter.total == run.found.len(),
        cache.http.len() <= usize::MAX,
    ensures
        ({
            let (end, jobs) = end_from(state, run, cache, around);
            &&& jobs == category_jobs(run, run.found.skip(run.counter.begun as int), around)
            &&& end == around.all_extracted(
                state,
                progress_after(state.progress, run.counter, 2, 3),
            )
        }),
    decreases run.counter.total - run.counter.begun,
{
    let rest = run.found.skip(run.counter.begun as int);
    let (s, r, a) = cache_goes_on(state, run);
    let (end, jobs) = cache_end(s, r, a, cache, around);
    if run.counter.begun < run.counter.total {
        let begun = run.begin_item();
        let (name, mode) = run.found[run.counter.begun as int];
        let job = begun.job(name, mode, around.alias_of(name, run.use_alias));
        let shown = around.after_job(begun.shows(state), job).with_status(
            (around.text)(cache_report(begun, around)),
        );
        file_is_extracted(begun.shows(state), begun, name, mode, cache, around);
        categories_from(shown, begun, cache, around);
        assert(jobs =~= category_jobs(run, rest, around));
    } else {
        let text = (around.text)(plain("all-extracted"@));
        let (s2, r2, a2) = cache_step(s, r, CacheEventView::Text(text));
        assert(cache_end(s2, r2, a2, cache, around) == (s2, Seq::<JobView>::empty()));
        assert(jobs =~= category_jobs(run, rest, around));
    }
}

proof fn filter_from(
    state: SessionView,
    run: CacheRunView,
    cache: CacheContents,
    around: Surroundings,
)
    requires
        run.stage is Filter,
        run.counter.valid(),
        run.counter.total == cache.http.len(),
        (run.found + all_classified(
            run.plan.headers,
            cache.http.skip(run.counter.begun as int),
        )).len() <= usize::MAX,
    ensures
        ({
            let (end, jobs) = end_from(state, run, cache, around);
            let rest = cache.http.skip(run.counter.begun as int);
            &&& jobs == category_jobs(
                run,
                run.found + all_classified(run.plan.headers, rest),
                around,
            )
            &&& end == around.all_extracted(
                state,
                filter_progress(
                    state.progress,
                    run.counter,
                    (run.found + all_classified(run.plan.headers, rest)).len() as usize,
                ),
            )
        }),
    decreases run.counter.total - run.counter.begun,
{
    let index = run.counter.begun as int;
    let rest = cache.http.skip(index);
    let (s, r, a) = cache_goes_on(state, run);
    let (end, jobs) = cache_end(s, r, a, cache, around);
    let files = run.found + all_classified(run.plan.headers, rest);
    if index < run.counter.total {
        let begun = run.begin_item();
        assert(rest[0] == cache.http[index]);
        assert(rest.skip(1) =~= cache.http.skip(index + 1));
        match cache.http[index] {
            HttpEntry::Unnamed => {
                assert(end_from(s, r, cache, around) == (end, jobs));
                filter_from(s, r, cache, around);
                assert(jobs =~= category_jobs(run, files, around));
            },
            HttpEntry::Unreadable => {
                let report = counted("failed-opening-file"@, index + 1, run.counter.total as int);
                let reporting = r.at(CachePhaseView::Reporting);
                let shown = s.with_status((around.text)(report));
                assert(cache_end(s, r, a, cache, around) == cache_end(
                    s,
                    reporting,
                    CacheActionView::Render(report),
                    cache,
                    around,
                ));
                assert(end_from(shown, reporting, cache, around) == (end, jobs));
                filter_from(shown, reporting, cache, around);
                assert(jobs =~= category_jobs(run, files, around));
            },
            HttpEntry::File { name, bytes } => {
                let added = classified(run.plan.headers, name, bytes);
                let taken = CacheRunView { found: r.found + added, ..r };
                assert(cache_end(s, r, a, cache, around) == cache_end(
                    s,
                    taken.at(CachePhaseView::Detailing),
                    CacheActionView::Render(cache_detail(r)),
                    cache,
                    around,
                ));
                let later = all_classified(run.plan.headers, rest.skip(1));
                assert(taken.found + later =~= files);
                item_is_reported(s, taken, cache, around);
                let shown = s.with_status((around.text)(cache_report(taken, around)));
                filter_from(shown, taken, cache, around);
                assert(jobs =~= category_jobs(run, files, around));
            },
        }
    } else {
        assert(rest =~= Seq::empty());
        assert(files =~= run.found);
        let last = CacheRunView {
            stage: Stage::Categories,
            counter: Counter { begun: 0, total: run.found.len() as usize },
            ..run
        };
        assert(last.found.skip(0) =~= last.found);
        categories_from(state, last, cache, around);
        assert(jobs =~= category_jobs(run, files, around));
    }
}

proof fn music_from(
    state: SessionView,
    run: CacheRunView,
    cache: CacheContents,
    around: Surroundings,
)
    requires
        run.stage is Music,
        run.counter.valid(),
        run.counter.total == cache.music.len(),
        cache.http.len() <= usize::MAX,
        (run.found + all_classified(run.plan.headers, cache.http)).len() <= usize::MAX,
    ensures
        ({
            let (end, jobs) = end_from(state, run, cache, around);
            let rest = cache.music.skip(run.counter.begun as int);
            &&& jobs == music_jobs(run, rest, around) + category_jobs(
                run,
                run.found + all_classified(run.plan.headers, cache.http),
                around,
            )
            &&& end == around.all_extracted(
                state,
                cache_progress(
                    state.progress,
                    run.counter,
                    cache.http.len() as usize,
                    (run.found + all_classified(run.plan.headers, cache.http)).len() as usize,
                ),
            )
        }),
    decreases run.counter.total - run.counter.begun,
{
    let index = run.counter.begun as int;
    let rest = cache.music.skip(index);
    let (s, r, a) = cache_goes_on(state, run);
    let (end, jobs) = cache_end(s, r, a, cache, around);
    let files = run.found + all_classified(run.plan.headers, cache.http);
    let later = category_jobs(run, files, around);
    if index < run.counter.total {
        assert(rest[0] == cache.music[index]);
        assert(rest.skip(1) =~= cache.music.skip(index + 1));
        music_jobs_agree(r, run, rest.skip(1), around);
        match cache.music[index] {
            Some(name) => {
                let job = r.job(name, "Music"@, around.alias_of(name, run.use_alias));
                let shown = around.after_job(s, job).with_status(
                    (around.text)(cache_report(r, around)),
                );
                file_is_extracted(s, r, name, "Music"@, cache, around);
                music_from(shown, r, cache, around);
                assert(category_jobs(r, files, around) =~= later);
                assert(jobs =~= music_jobs(run, rest, around) + later);
            },
            None => {
                assert(end_from(s, r, cache, around) == (end, jobs));
                music_from(s, r, cache, around);
                assert(category_jobs(r, files, around) =~= later);
                assert(jobs =~= music_jobs(run, rest, around) + later);
            },
        }
    } else {
        let size = cache.http.len() as usize;
        let opened = CacheRunView { counter: Counter { begun: 0, total: size }, ..r };
        let (s2, r2, a2) = cache_goes_on(s, opened);
        assert(cache_end(s, r, a, cache, around) == cache_end(s2, r2, a2, cache, around));
        assert(cache.http.skip(0) =~= cache.http);
        filter_from(s, opened, cache, around);
        assert(category_jobs(opened, files, around) =~= later);
        assert(jobs =~= music_jobs(run, rest, around) + later);
    }
}

/// Step by step: a music file is extracted as music, another file is sorted into the
/// categories of all headers that it holds, and a sorted file is extracted as one of its
/// category; the status line tells the stage, with the number of the item and of all.
pub proof fn cache_step_by_step(
    state: SessionView,
    run: CacheRunView,
    name: Seq<char>,
    mode: Seq<char>,
    bytes: Seq<u8>,
    text: Seq<char>,
)
    ensures
        ({
            let (begun, total) = (run.counter.begun as int, run.counter.total as int);
            let at = |stage: Stage, phase: CachePhaseView| CacheRunView { stage, phase, ..run };
            let detail = |stage: Stage|
                CacheActionView::Render(
                    counted(
                        if stage is Filter {
                            "filtering-files"@
                        } else {
                            "extracting-files"@
                        },
                        begun,
                        total,
                    ),
                );
            let music = |alias: Option<Seq<char>>|
                job(
                    run.plan.music_directory,
                    name,
                    "Music"@,
                    run.destination + seq!['/', 'M', 'u', 's', 'i', 'c'],
                    alias,
                );
            let sorted = |alias: Option<Seq<char>>|
                job(
                    run.plan.http_directory,
                    name,
                    mode,
                    run.destination + seq!['/'] + mode,
                    alias,
                );
            let music_named = CachePhaseView::Naming { name, mode: "Music"@ };
            let named = CachePhaseView::Naming { name, mode };
            &&& run.use_alias ==> cache_step(
                state,
                at(Stage::Music, CachePhaseView::Inspecting),
                CacheEventView::Music(name),
            ) == (state, at(Stage::Music, music_named), CacheActionView::LookUp(name))
            &&& !run.use_alias ==> cache_step(
                state,
                at(Stage::Music, CachePhaseView::Inspecting),
                CacheEventView::Music(name),
            ) == (
                state,
                at(Stage::Music, CachePhaseView::Extracting),
                CacheActionView::Extract(music(None)),
            )
            &&& cache_step(state, at(Stage::Music, music_named), CacheEventView::Alias(text)) == (
                state,
                at(Stage::Music, CachePhaseView::Extracting),
                CacheActionView::Extract(music(Some(text))),
            )
            &&& cache_step(state, at(Stage::Categories, named), CacheEventView::Alias(text)) == (
                state,
                at(Stage::Categories, CachePhaseView::Extracting),
                CacheActionView::Extract(sorted(Some(text))),
            )
            &&& cache_takes_file(
                state,
                at(Stage::Categories, CachePhaseView::Reporting),
                name,
                mode,
            ) == if run.use_alias {
                (state, at(Stage::Categories, named), CacheActionView::LookUp(name))
            } else {
                (
                    state,
                    at(Stage::Categories, CachePhaseView::Extracting),
                    CacheActionView::Extract(sorted(None)),
                )
            }
            &&& cache_step(
                state,
                at(Stage::Filter, CachePhaseView::Inspecting),
                CacheEventView::Read { name, bytes },
            ) == (
                state,
                CacheRunView {
                    found: run.found + classified(run.plan.headers, name, bytes),
                    ..at(Stage::Filter, CachePhaseView::Detailing)
                },
                detail(Stage::Filter),
            )
            &&& cache_step(
                state,
                at(Stage::Filter, CachePhaseView::Inspecting),
                CacheEventView::Unreadable,
            ) == (
                state,
                at(Stage::Filter, CachePhaseView::Reporting),
                CacheActionView::Render(counted("failed-opening-file"@, begun, total)),
            )
            &&& forall|stage: Stage| #[trigger]
                cache_step(
                    state,
                    at(stage, CachePhaseView::Extracting),
                    CacheEventView::Extracted,
                ) == (state, at(stage, CachePhaseView::Detailing), detail(stage))
            &&& forall|stage: Stage| #[trigger]
                cache_step(
                    state,
                    at(stage, CachePhaseView::Detailing),
                    CacheEventView::Text(text),
                ) == (
                    state,
                    at(stage, CachePhaseView::Reporting),
                    CacheActionView::Render(staged(begun, total, text, stage.words())),
                )
            &&& forall|stage: Stage| #[trigger]
                cache_step(
                    state,
                    at(stage, CachePhaseView::Closing),
                    CacheEventView::Text(text),
                ) == (
                    SessionView { status: text, request_repaint: true, ..state },
                    at(stage, CachePhaseView::Stopped),
                    CacheActionView::Stop,
                )
        }),
{
    reveal_strlit("Music");
    joined_path_has_one_slash_between(run.destination, "Music"@);
    joined_path_has_one_slash_between(run.destination, mode);
    assert(slashed(run.destination, "Music"@) =~= run.destination + seq![
        '/',
        'M',
        'u',
        's',
        'i',
        'c',
    ]);
}

/// From an item the extraction goes on to the next one of the stage, with its progress, and
/// from the last one to the next stage: from the music to the other files, from these to
/// those that were sorted, and from these to the end of the task.
pub proof fn cache_goes_from_item_to_item(state: SessionView, run: CacheRunView, text: Seq<char>)
    requires
        run.valid(),
        run.found.len() <= usize::MAX,
        0 < run.counter.begun,
        run.phase is Reporting,
    ensures
        ({
            let (begun, total) = (run.counter.begun, run.counter.total);
            let (s, r, a) = cache_step(state, run, CacheEventView::Text(text));
            let told = SessionView { status: text, request_repaint: true, ..state };
            let shown = |stage: usize|
                SessionView {
                    progress: Progress { item: (begun + 1) as usize, total, stage, stages: 3 },
                    ..told
                };
            let more = Counter { begun: (begun + 1) as usize, total };
            &&& run.stage is Music && begun < total ==> (s, r, a) == (
                shown(0),
                CacheRunView { counter: more, phase: CachePhaseView::Inspecting, ..run },
                CacheActionView::TakeName(begun as int),
            )
            &&& run.stage is Music && begun == total ==> (s, r, a) == (
                told,
                CacheRunView { stage: Stage::Filter, phase: CachePhaseView::Opening, ..run },
                CacheActionView::ReadDirectory(run.plan.http_directory),
            )
            &&& run.stage is Filter && begun < total ==> (s, r, a) == (
                shown(1),
                CacheRunView { counter: more, phase: CachePhaseView::Inspecting, ..run },
                CacheActionView::ReadEntry(begun as int),
            )
            &&& run.stage is Categories && begun < total ==> (s, r, a) == cache_takes_file(
                shown(2),
                CacheRunView { counter: more, ..run },
                run.found[begun as int].0,
                run.found[begun as int].1,
            )
            &&& run.stage is Filter && begun == total && run.found.len() > 0 ==> (s, r, a)
                == cache_takes_file(
                SessionView {
                    progress: Progress {
                        item: 1,
                        total: run.found.len() as usize,
                        stage: 2,
                        stages: 3,
                    },
                    ..told
                },
                CacheRunView {
                    stage: Stage::Categories,
                    counter: Counter { begun: 1, total: run.found.len() as usize },
                    ..run
                },
                run.found[0].0,
                run.found[0].1,
            )
            &&& (run.stage is Categories || run.stage is Filter && run.found.len() == 0) && begun
                == total ==> s == (SessionView { task_running: false, ..told })
                && r.phase is Closing && a == CacheActionView::Render(plain("all-extracted"@))
        }),
{
}

/// The music files are extracted one by one, each that has a name from the directory of the
/// music into that of the extraction, and entries without a name are passed over.
pub proof fn each_music_file_has_its_own_job(
    start: CacheRunView,
    a: Seq<Option<Seq<char>>>,
    b: Seq<Option<Seq<char>>>,
    name: Seq<char>,
    around: Surroundings,
)
    ensures
        music_jobs(start, a + b, around) == music_jobs(start, a, around) + music_jobs(
            start,
            b,
            around,
        ),
        music_jobs(start, seq![Some(name)], around) == seq![
            JobView {
                origin: start.plan.music_directory + seq!['/'] + name,
                mode: "Music"@,
                destination: start.destination + seq!['/', 'M', 'u', 's', 'i', 'c', '/']
                    + if start.use_alias {
                    (around.alias)(name)
                } else {
                    name
                },
            },
        ],
        music_jobs(start, seq![None], around).len() == 0,
    decreases a.len(),
{
    reveal_strlit("Music");
    let music = slashed(start.destination, "Music"@);
    joined_path_has_one_slash_between(start.destination, "Music"@);
    file_goes_to_its_alias_or_name(
        start.plan.music_directory,
        name,
        "Music"@,
        music,
        (around.alias)(name),
    );
    let shown = if start.use_alias {
        (around.alias)(name)
    } else {
        name
    };
    assert(music + seq!['/'] + shown =~= start.destination + seq![
        '/',
        'M',
        'u',
        's',
        'i',
        'c',
        '/',
    ] + shown);
    let one = seq![Some(name)];
    assert(one.skip(1) =~= Seq::empty());
    assert(music_jobs(start, one.skip(1), around) =~= Seq::empty());
    assert(one[0] == Some(name));
    assert(music_jobs(start, one, around) =~= seq![
        job(
            start.plan.music_directory,
            name,
            "Music"@,
            music,
            around.alias_of(name, start.use_alias),
        ),
    ]);
    let unnamed = seq![None::<Seq<char>>];
    assert(unnamed.skip(1) =~= Seq::empty());
    assert(music_jobs(start, unnamed.skip(1), around) =~= Seq::empty());
    assert(unnamed[0] is None);
    if a.len() == 0 {
        assert(a + b =~= b);
        assert(music_jobs(start, a, around) + music_jobs(start, b, around) =~= music_jobs(
            start,
            b,
            around,
        ));
    } else {
        assert((a + b).skip(1) =~= a.skip(1) + b);
        assert((a + b)[0] == a[0]);
        each_music_file_has_its_own_job(start, a.skip(1), b, name, around);
        assert(music_jobs(start, a + b, around) =~= music_jobs(start, a, around) + music_jobs(
            start,
            b,
            around,
        ));
    }
}

/// The other files are sorted one by one: what is found among some entries and others is
/// what is found among each, in order. Entries that cannot be read are passed over.
pub proof fn files_are_sorted_one_by_one(
    headers: Seq<(Seq<char>, Seq<char>)>,
    a: Seq<HttpEntry>,
    b: Seq<HttpEntry>,
    name: Seq<char>,
    bytes: Seq<u8>,
)
    ensures
        all_classified(headers, a + b) == all_classified(headers, a) + all_classified(headers, b),
        all_classified(headers, seq![HttpEntry::File { name, bytes }]) == classified(
            headers,
            name,
            bytes,
        ),
        all_classified(headers, seq![HttpEntry::Unnamed]).len() == 0,
        all_classified(headers, seq![HttpEntry::Unreadable]).len() == 0,
    decreases a.len(),
{
    let file = seq![HttpEntry::File { name, bytes }];
    assert(file.skip(1) =~= Seq::empty());
    assert(all_classified(headers, file.skip(1)) =~= Seq::empty());
    assert(file[0] == (HttpEntry::File { name, bytes }));
    assert(all_classified(headers, file) =~= classified(headers, name, bytes));
    let unnamed = seq![HttpEntry::Unnamed];
    assert(unnamed.skip(1) =~= Seq::empty());
    assert(all_classified(headers, unnamed.skip(1)) =~= Seq::empty());
    assert(unnamed[0] is Unnamed);
    let unreadable = seq![HttpEntry::Unreadable];
    assert(unreadable.skip(1) =~= Seq::empty());
    assert(all_classified(headers, unreadable.skip(1)) =~= Seq::empty());
    assert(unreadable[0] is Unreadable);
    if a.len() == 0 {
        assert(a + b =~= b);
        assert(all_classified(headers, a) + all_classified(headers, b) =~= all_classified(
            headers,
            b,
        ));
    } else {
        assert((a + b).skip(1) =~= a.skip(1) + b);
        assert((a + b)[0] == a[0]);
        files_are_sorted_one_by_one(headers, a.skip(1), b, name, bytes);
        assert(all_classified(headers, a + b) =~= all_classified(headers, a) + all_classified(
            headers,
            b,
        ));
    }
}

/// Each sorted file is extracted into the directory of its category, under its own alias or
/// name.
pub proof fn each_sorted_file_has_its_own_job(
    start: CacheRunView,
    files: Seq<(Seq<char>, Seq<char>)>,
    around: Surroundings,
)
    ensures
        ({
            let jobs = category_jobs(start, files, around);
            &&& jobs.len() == files.len()
            &&& forall|i: int|
                #![trigger jobs[i]]
                0 <= i < files.len() ==> {
                    &&& jobs[i].origin == start.plan.http_directory + seq!['/'] + files[i].0
                    &&& jobs[i].mode == files[i].1
                    &&& jobs[i].destination == start.destination + seq!['/'] + files[i].1 + seq![
                        '/',
                    ] + if start.use_alias {
                        (around.alias)(files[i].0)
                    } else {
                        files[i].0
                    }
                }
        }),
{
    let jobs = category_jobs(start, files, around);
    assert forall|i: int|
        #![trigger jobs[i]]
        0 <= i < files.len() implies {
        &&& jobs[i].origin == start.plan.http_directory + seq!['/'] + files[i].0
        &&& jobs[i].mode == files[i].1
        &&& jobs[i].destination == start.destination + seq!['/'] + files[i].1 + seq!['/']
            + if start.use_alias {
            (around.alias)(files[i].0)
        } else {
            files[i].0
        }
    } by {
        let (name, mode) = files[i];
        joined_path_has_one_slash_between(start.destination, mode);
        file_goes_to_its_alias_or_name(
            start.plan.http_directory,
            name,
            mode,
            slashed(start.destination, mode),
            (around.alias)(name),
        );
    }
}

/// The extraction of the cache ends at the last sorted file, else at the last other file,
/// else at the last music file, and else where it was.
pub proof fn cache_ends_at_the_last_item(before: Progress, music: usize, http: usize, found: usize)
    ensures
        ({
            let end = cache_progress(before, Counter { begun: 0, total: music }, http, found);
            &&& found > 0 ==> end == (Progress { item: found, total: found, stage: 2, stages: 3 })
            &&& found == 0 && http > 0 ==> end == (Progress {
                item: http,
                total: http,
                stage: 1,
                stages: 3,
            })
            &&& found == 0 && http == 0 && music > 0 ==> end == (Progress {
                item: music,
                total: music,
                stage: 0,
                stages: 3,
            })
            &&& found == 0 && http == 0 && music == 0 ==> end == before
        }),
{
}

/// An extraction of the cache, what is to be done for it and what comes of it are as values
/// all that they hold.
pub proof fn cache_is_all_it_holds(
    run: CacheRun,
    name: String,
    mode: String,
    bytes: Vec<u8>,
    index: usize,
    job: Job,
    message: Message,
)
    ensures
        run@.plan == run.plan@,
        run@.destination == run.destination@,
        run@.use_alias == run.use_alias,
        run@.stage == run.stage,
        run@.counter == run.counter,
        run@.found == text_pairs(run.found@),
        run@.phase == run.phase@,
        (CachePhase::Starting)@ == CachePhaseView::Starting,
        (CachePhase::Preparing)@ == CachePhaseView::Preparing,
        (CachePhase::Opening)@ == CachePhaseView::Opening,
        (CachePhase::Inspecting)@ == CachePhaseView::Inspecting,
        (CachePhase::Naming { name, mode })@ == (CachePhaseView::Naming {
            name: name@,
            mode: mode@,
        }),
        (CachePhase::Extracting)@ == CachePhaseView::Extracting,
        (CachePhase::Detailing)@ == CachePhaseView::Detailing,
        (CachePhase::Reporting)@ == CachePhaseView::Reporting,
        (CachePhase::Closing)@ == CachePhaseView::Closing,
        (CachePhase::Stopped)@ == CachePhaseView::Stopped,
        (CacheEvent::Begin)@ == CacheEventView::Begin,
        (CacheEvent::Created)@ == CacheEventView::Created,
        (CacheEvent::Opened(index))@ == CacheEventView::Opened(index),
        (CacheEvent::Unnamed)@ == CacheEventView::Unnamed,
        (CacheEvent::Music(name))@ == CacheEventView::Music(name@),
        (CacheEvent::Unreadable)@ == CacheEventView::Unreadable,
        (CacheEvent::Read { name, bytes })@ == (CacheEventView::Read {
            name: name@,
            bytes: bytes@,
        }),
        (CacheEvent::Alias(name))@ == CacheEventView::Alias(name@),
        (CacheEvent::Extracted)@ == CacheEventView::Extracted,
        (CacheEvent::Text(name))@ == CacheEventView::Text(name@),
        (CacheAction::CreateDirectories)@ == CacheActionView::CreateDirectories,
        (CacheAction::ReadDirectory(name))@ == CacheActionView::ReadDirectory(name@),
        (CacheAction::TakeName(index))@ == CacheActionView::TakeName(index as int),
        (CacheAction::ReadEntry(index))@ == CacheActionView::ReadEntry(index as int),
        (CacheAction::LookUp(name))@ == CacheActionView::LookUp(name@),
        (CacheAction::Extract(job))@ == CacheActionView::Extract(job@),
        (CacheAction::Render(message))@ == CacheActionView::Render(message@),
        (CacheAction::Stop)@ == CacheActionView::Stop,
{
}

/// Whatever comes of what is to be done can be taken up.
pub proof fn every_outcome_is_awaited_in_cache(
    run: CacheRunView,
    action: CacheActionView,
    total: usize,
    text: Seq<char>,
    bytes: Seq<u8>,
)
    ensures
        run.phase is Starting ==> awaits_in_cache(run, CacheEventView::Begin),
        cache_does(run, action) ==> {
            &&& run.valid()
            &&& action is CreateDirectories ==> awaits_in_cache(run, CacheEventView::Created)
            &&& action is ReadDirectory ==> awaits_in_cache(run, CacheEventView::Opened(total))
            &&& action is TakeName ==> awaits_in_cache(run, CacheEventView::Unnamed)
                && awaits_in_cache(run, CacheEventView::Music(text))
            &&& action is ReadEntry ==> awaits_in_cache(run, CacheEventView::Unnamed)
                && awaits_in_cache(run, CacheEventView::Unreadable) && awaits_in_cache(
                run,
                CacheEventView::Read { name: text, bytes },
            )
            &&& action is LookUp ==> awaits_in_cache(run, CacheEventView::Alias(text))
            &&& action is Extract ==> awaits_in_cache(run, CacheEventView::Extracted)
            &&& action is Render ==> awaits_in_cache(run, CacheEventView::Text(text))
        },
{
}

/// The extraction of the cache begins with the directories of the plan, then reads the
/// directory of the music, and begins with its first entry.
pub proof fn cache_begins_with_the_music(
    state: SessionView,
    plan: PlanView,
    destination: Seq<char>,
    use_alias: bool,
    total: usize,
)
    ensures
        ({
            let at = |begun: usize, total: usize, phase: CachePhaseView|
                CacheRunView {
                    plan,
                    destination,
                    use_alias,
                    stage: Stage::Music,
                    counter: Counter { begun, total },
                    found: Seq::empty(),
                    phase,
                };
            let start = cache_start(plan, destination, use_alias);
            let opening = at(0, 0, CachePhaseView::Opening);
            &&& start == at(0, 0, CachePhaseView::Starting)
            &&& cache_step(state, start, CacheEventView::Begin) == (
                state,
                at(0, 0, CachePhaseView::Preparing),
                CacheActionView::CreateDirectories,
            )
            &&& cache_step(
                state,
                at(0, 0, CachePhaseView::Preparing),
                CacheEventView::Created,
            ) == (state, opening, CacheActionView::ReadDirectory(plan.music_directory))
            &&& total > 0 ==> cache_step(state, opening, CacheEventView::Opened(total)) == (
                SessionView {
                    progress: Progress { item: 1, total, stage: 0, stages: 3 },
                    request_repaint: true,
                    ..state
                },
                at(1, total, CachePhaseView::Inspecting),
                CacheActionView::TakeName(0),
            )
        }),
{
}

/// An entry without a name is passed over: the extraction goes on as it does behind an item
/// that was reported, but with the status line as it was.
pub proof fn unnamed_entry_is_passed_over(state: SessionView, run: CacheRunView)
    requires
        run.phase is Inspecting,
        !(run.stage is Categories),
    ensures
        ({
            let passed = cache_step(state, run, CacheEventView::Unnamed);
            let reported = cache_step(
                state,
                CacheRunView { phase: CachePhaseView::Reporting, ..run },
                CacheEventView::Text(state.status),
            );
            &&& passed.1 == reported.1
            &&& passed.2 == reported.2
            &&& passed.0 == (SessionView {
                request_repaint: passed.0.request_repaint,
                ..reported.0
            })
            &&& passed.0.request_repaint == (state.request_repaint || run.counter.begun
                < run.counter.total || passed.1.counter.begun > 0 && passed.1.stage is Categories)
        }),
{
}

} // verus!
