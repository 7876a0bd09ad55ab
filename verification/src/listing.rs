//! Listing the files of a directory that belong to a category, and searching the list.

use vstd::prelude::*;
use vstd::utf8::encode_utf8;
use std::time::SystemTime;
use crate::headers::{
    bytes_contains, category_headers, found_header, header_counts_wherever_it_stands,
    headers_as_bytes, holds_header, invalid_means_no_header, longer_file_holds_header,
    mode_headers, names_differ,
};
use crate::messages::{
    counted, counted_error, counted_error_message, counted_message, plain, plain_message, Message,
    MessageView,
};
use crate::session::{
    assets, clear_file_list, update_file_list, AssetInfo, AssetView, Session, SessionView,
};
use crate::tasks::{next_item, progress_at, Counter, Probe};
use crate::text::{
    all_lowercase, lowercase, occurs, occurs_at, part_stands_between_others, part_stands_here,
    same_text, text_contains, texts,
};

verus! {

/// What the list holds of a file. Where nothing could be read of the file (`None`), it is
/// listed as an empty one that was never modified.
pub open spec fn asset_info(
    name: Seq<char>,
    metadata: Option<(u64, Option<SystemTime>)>,
) -> AssetView {
    match metadata {
        Some((size, last_modified)) => AssetView { name, size, last_modified },
        None => AssetView { name, size: 0, last_modified: None },
    }
}

/// What the list holds of the file `file`, from its size and the time of its last
/// change, as far as these could be read.
pub fn create_asset_info(file: &str, metadata: Option<(u64, Option<SystemTime>)>) -> (res:
    AssetInfo)
    ensures
        res@ == asset_info(file@, metadata),
{
    match metadata {
        Some((size, last_modified)) => AssetInfo { name: file.to_owned(), size, last_modified },
        None => AssetInfo { name: file.to_owned(), size: 0, last_modified: None },
    }
}

/// The entry that tells that there are no files, with the given text as its name.
pub fn create_no_files(text: String) -> (res: AssetInfo)
    ensures
        res@ == asset_info(text@, None),
{
    AssetInfo { name: text, size: 0, last_modified: None }
}

/// What is to be done when a directory is to be listed.
#[derive(Debug)]
pub enum RefreshAction {
    /// The directory is listed.
    List,
    /// The path is not that of a directory.
    Refuse,
    /// There is nothing to list: the text of `entry` is shown as the only entry, and
    /// that of `status` as the status line.
    ShowEmpty { entry: Message, status: Message },
}

/// Decides what is done when a path is to be listed, from what stands there.
pub fn refresh(session: &mut Session, probe: &Probe) -> (res: RefreshAction)
    ensures
        match *probe {
            Probe::Directory => res is List && final(session)@ == old(session)@,
            Probe::File | Probe::Other => {
                &&& res is Refuse
                &&& final(session)@ == (SessionView {
                    status: "Error: check logs for more details."@,
                    ..old(session)@
                })
            },
            Probe::Failed(_) => {
                &&& res matches RefreshAction::ShowEmpty { entry, status }
                &&& entry@ == plain("no-files"@)
                &&& status@ == plain("idling"@)
                &&& final(session)@ == old(session)@.with_files(Seq::empty())
            },
        },
{
    match probe {
        Probe::Directory => RefreshAction::List,
        Probe::File | Probe::Other => {
            session.status = "Error: check logs for more details.".to_owned();
            RefreshAction::Refuse
        },
        Probe::Failed(_) => {
            clear_file_list(session);
            RefreshAction::ShowEmpty {
                entry: plain_message("no-files"),
                status: plain_message("idling"),
            }
        },
    }
}

/// The state after an attempt to start a listing. While one runs it is asked to stop;
/// otherwise the new one runs, and nothing asks it to stop.
pub open spec fn after_acquire(state: SessionView) -> SessionView {
    if state.list_task_running {
        SessionView { stop_list_running: true, ..state }
    } else {
        SessionView { list_task_running: true, stop_list_running: false, ..state }
    }
}

/// Tries to start a listing, and asks one that runs to stop. Returns whether the listing
/// was started; if not, it is to be tried again.
pub fn acquire_list(session: &mut Session) -> (res: bool)
    ensures
        res == !old(session)@.list_task_running,
        final(session)@ == after_acquire(old(session)@),
{
    if session.list_task_running {
        session.stop_list_running = true;
        false
    } else {
        session.list_task_running = true;
        session.stop_list_running = false;
        true
    }
}

/// Which files a listing takes.
#[derive(Debug)]
pub enum ListKind {
    /// All of them.
    Everything,
    /// Those that hold a header, once for each of the two that they hold.
    WithHeaders(&'static str, &'static str),
}

/// Which files a listing takes, as a value.
pub enum ListKindView {
    Everything,
    WithHeaders(Seq<char>, Seq<char>),
}

impl View for ListKind {
    type V = ListKindView;

    open spec fn view(&self) -> ListKindView {
        match self {
            ListKind::Everything => ListKindView::Everything,
            ListKind::WithHeaders(first, second) => ListKindView::WithHeaders(first@, second@),
        }
    }
}

/// The files that a mode asks for: all of them for `music`, and else those of the category
/// of that name.
pub open spec fn kind_of(mode: Seq<char>) -> Option<ListKindView> {
    if mode == "music"@ {
        Some(ListKindView::Everything)
    } else {
        match category_headers(mode) {
            Some((first, second)) => Some(ListKindView::WithHeaders(first, second)),
            None => None,
        }
    }
}

/// A listing that runs.
#[derive(Debug)]
pub struct ListTask {
    pub kind: ListKind,
    pub counter: Counter,
}

/// A listing that runs, as a value.
pub struct ListTaskView {
    pub kind: ListKindView,
    pub counter: Counter,
}

impl View for ListTask {
    type V = ListTaskView;

    open spec fn view(&self) -> ListTaskView {
        ListTaskView { kind: self.kind@, counter: self.counter }
    }
}

/// The start of a listing.
#[derive(Debug)]
pub struct ListStart {
    /// The text to be shown as the only entry, where the directory has no entries.
    pub placeholder: Option<Message>,
    /// The listing; none where there is no such mode.
    pub task: Option<ListTask>,
}

/// Begins the listing of a directory that has `total` entries. For a mode that is neither
/// `music` nor a category there is no listing.
pub fn begin_list(mode: &str, total: usize) -> (res: ListStart)
    ensures
        match res.placeholder {
            Some(entry) => total == 0 && entry@ == plain("no-files"@),
            None => total != 0,
        },
        match res.task {
            Some(task) => {
                &&& kind_of(mode@) == Some(task.kind@)
                &&& task.counter.valid()
                &&& task.counter.begun == 0
                &&& task.counter.total == total
            },
            None => kind_of(mode@) is None,
        },
{
    let placeholder = if total == 0 {
        Some(plain_message("no-files"))
    } else {
        None
    };
    let kind = if same_text(mode, "music") {
        Some(ListKind::Everything)
    } else {
        match mode_headers(mode) {
            Some((first, second)) => Some(ListKind::WithHeaders(first, second)),
            None => None,
        }
    };
    let task = match kind {
        Some(kind) => Some(ListTask { kind, counter: Counter::new(total) }),
        None => None,
    };
    ListStart { placeholder, task }
}

/// A listing goes on: nothing asks it to stop, and not all entries were begun.
pub open spec fn goes_on(state: SessionView, counter: Counter) -> bool {
    !state.stop_list_running && counter.begun < counter.total
}

/// Begins the next entry, unless the listing is asked to stop or all entries were begun.
/// Returns the number of the entry, counted from one.
pub fn next_entry(session: &mut Session, task: &mut ListTask) -> (res: Option<usize>)
    requires
        old(task).counter.valid(),
    ensures
        final(task).kind == old(task).kind,
        final(task).counter.valid(),
        final(task).counter.total == old(task).counter.total,
        res is Some <==> goes_on(old(session)@, old(task).counter),
        match res {
            Some(item) => {
                &&& item == old(task).counter.begun + 1
                &&& final(task).counter.begun == item
                &&& final(session)@ == old(session)@.with_progress(
                    progress_at(item as int, old(task).counter.total, 0, 1),
                )
            },
            None => {
                &&& final(task).counter.begun == old(task).counter.begun
                &&& final(session)@ == old(session)@
            },
        },
{
    if session.stop_list_running {
        None
    } else {
        next_item(session, &mut task.counter, 0, 1)
    }
}

/// How often a file with the given first bytes is listed.
pub open spec fn copies(kind: ListKindView, bytes: Seq<u8>) -> int {
    match kind {
        ListKindView::Everything => 1,
        ListKindView::WithHeaders(first, second) => {
            let one: int = if holds_header(bytes, encode_utf8(first)) { 1 } else { 0 };
            let other: int = if holds_header(bytes, encode_utf8(second)) { 1 } else { 0 };
            one + other
        },
    }
}

/// How often a file with the given first bytes is listed.
pub fn count_copies(kind: &ListKind, bytes: &[u8]) -> (res: usize)
    ensures
        res == copies(kind@, bytes@),
{
    match kind {
        ListKind::Everything => 1,
        ListKind::WithHeaders(first, second) => {
            let one: usize = if bytes_contains(bytes, first.as_bytes()) { 1 } else { 0 };
            let other: usize = if bytes_contains(bytes, second.as_bytes()) { 1 } else { 0 };
            one + other
        },
    }
}

/// What came of an entry of the directory.
#[derive(Debug)]
pub enum Entry {
    /// It has no file name.
    Unnamed,
    /// It could not be opened, for the given reason.
    OpenFailed(String),
    /// It could not be read.
    ReadFailed,
    /// Its first bytes were read, and it is listed as often as `count_copies` told of
    /// them. They do not matter where every file is listed.
    Listed { bytes: Vec<u8>, files: Vec<AssetInfo> },
}

/// What came of an entry, as a value.
pub enum EntryView {
    Unnamed,
    OpenFailed(Seq<char>),
    ReadFailed,
    Listed { bytes: Seq<u8>, files: Seq<AssetView> },
}

impl View for Entry {
    type V = EntryView;

    open spec fn view(&self) -> EntryView {
        match self {
            Entry::Unnamed => EntryView::Unnamed,
            Entry::OpenFailed(error) => EntryView::OpenFailed(error@),
            Entry::ReadFailed => EntryView::ReadFailed,
            Entry::Listed { bytes, files } => EntryView::Listed {
                bytes: bytes@,
                files: assets(files@),
            },
        }
    }
}

/// The files that an entry adds to the list.
pub open spec fn files_of(entry: EntryView) -> Seq<AssetView> {
    match entry {
        EntryView::Listed { files, .. } => files,
        _ => Seq::empty(),
    }
}

/// An entry is listed as often as its first bytes ask for.
pub open spec fn listed_as_often(kind: ListKindView, entry: EntryView) -> bool {
    entry matches EntryView::Listed { bytes, files } ==> files.len() == copies(kind, bytes)
}

/// The state after an entry was taken up.
pub open spec fn after_entry(state: SessionView, entry: EntryView) -> SessionView {
    state.with_files(state.file_list + files_of(entry))
}

/// The status message after an entry.
pub open spec fn entry_status(entry: EntryView, item: int, total: int) -> Option<MessageView> {
    match entry {
        EntryView::Unnamed => None,
        EntryView::OpenFailed(error) => Some(
            counted_error("failed-opening-file"@, item, total, error),
        ),
        EntryView::ReadFailed => Some(counted("failed-opening-file"@, item, total)),
        EntryView::Listed { .. } => Some(counted("reading-files"@, item, total)),
    }
}

/// The names of the files.
pub open spec fn names(files: Seq<AssetView>) -> Seq<Seq<char>> {
    Seq::new(files.len(), |i: int| files[i].name)
}

/// The lines printed after an entry: the names of the files, where all files are listed
/// on the command line.
pub open spec fn entry_lines(entry: EntryView, kind: ListKindView, cli_list_mode: bool) -> Seq<
    Seq<char>,
> {
    if kind is Everything && cli_list_mode {
        names(files_of(entry))
    } else {
        Seq::empty()
    }
}

/// What is shown after an entry.
#[derive(Debug)]
pub struct EntryReport {
    /// The lines to print.
    pub lines: Vec<String>,
    /// The status message.
    pub status: Option<Message>,
}

/// Takes up what came of the entry that was begun last.
pub fn finish_entry(
    session: &mut Session,
    task: &ListTask,
    entry: Entry,
    cli_list_mode: bool,
) -> (res: EntryReport)
    requires
        listed_as_often(task.kind@, entry@),
    ensures
        final(session)@ == after_entry(old(session)@, entry@),
        texts(res.lines@) == entry_lines(entry@, task.kind@, cli_list_mode),
        match res.status {
            Some(message) => entry_status(
                entry@,
                task.counter.begun as int,
                task.counter.total as int,
            ) == Some(message@),
            None => entry@ is Unnamed,
        },
{
    let item = task.counter.begun;
    let total = task.counter.total;
    let mut lines: Vec<String> = Vec::new();
    let ghost start = session@;
    let status = match entry {
        Entry::Unnamed => None,
        Entry::OpenFailed(error) => Some(
            counted_error_message("failed-opening-file", item, total, error),
        ),
        Entry::ReadFailed => Some(counted_message("failed-opening-file", item, total)),
        Entry::Listed { bytes: _, files } => {
            let print = cli_list_mode && match task.kind {
                ListKind::Everything => true,
                ListKind::WithHeaders(..) => false,
            };
            let mut i: usize = 0;
            while i < files.len()
                invariant
                    i <= files.len(),
                    session@ =~= start.with_files(
                        start.file_list + assets(files@).take(i as int),
                    ),
                    print ==> texts(lines@) =~= names(assets(files@).take(i as int)),
                    !print ==> lines@.len() == 0,
                decreases files.len() - i,
            {
                let file = files[i].clone();
                let ghost before = lines@;
                if let Some(line) = update_file_list(session, file, print) {
                    lines.push(line);
                    assert(texts(lines@) =~= texts(before).push(files@[i as int]@.name));
                }
                assert(assets(files@).take(i + 1) =~= assets(files@).take(i as int).push(
                    files@[i as int]@,
                ));
                assert(names(assets(files@).take(i + 1)) =~= names(
                    assets(files@).take(i as int),
                ).push(files@[i as int]@.name));
                i += 1;
            }
            assert(assets(files@).take(i as int) =~= assets(files@));
            Some(counted_message("reading-files", item, total))
        },
    };
    assert(session@ =~= start.with_files(start.file_list + files_of(entry@)));
    assert(texts(lines@) =~= entry_lines(entry@, task.kind@, cli_list_mode));
    EntryReport { lines, status }
}

/// The state after a listing has ended.
pub open spec fn after_list(state: SessionView) -> SessionView {
    SessionView { list_task_running: false, ..state }
}

/// Ends the listing. Returns the status message.
pub fn finish_list(session: &mut Session) -> (res: Message)
    ensures
        final(session)@ == after_list(old(session)@),
        res@ == plain("idling"@),
{
    session.list_task_running = false;
    plain_message("idling")
}

/// Whether a search for `query` finds a file: its name holds the query, or its alias does.
/// The query and the alias are in lower case.
pub open spec fn is_found(name: Seq<char>, alias: Seq<char>, query: Seq<char>) -> bool {
    occurs(name, query) || occurs(alias, query)
}

/// Those of the files that a search finds, in order. Each file has an alias. The query and
/// the aliases are in lower case.
pub open spec fn found_files(
    files: Seq<AssetView>,
    aliases: Seq<Seq<char>>,
    query: Seq<char>,
) -> Seq<AssetView>
    decreases files.len(),
{
    if files.len() == 0 {
        Seq::empty()
    } else {
        let before = found_files(files.drop_last(), aliases, query);
        if is_found(files.last().name, aliases[files.len() - 1], query) {
            before.push(files.last())
        } else {
            before
        }
    }
}

/// Searches files for `query`. `aliases` holds the alias of each file. The query and the
/// aliases are in lower case.
pub fn search_files(files: &Vec<AssetInfo>, aliases: &Vec<String>, query: &str) -> (res: Vec<
    AssetInfo,
>)
    requires
        aliases.len() == files.len(),
    ensures
        assets(res@) == found_files(assets(files@), texts(aliases@), query@),
{
    let mut found: Vec<AssetInfo> = Vec::new();
    let mut i: usize = 0;
    while i < files.len()
        invariant
            i <= files.len(),
            aliases.len() == files.len(),
            assets(found@) =~= found_files(
                assets(files@).take(i as int),
                texts(aliases@),
                query@,
            ),
        decreases files.len() - i,
    {
        proof {
            let done = assets(files@).take(i + 1);
            assert(done.drop_last() =~= assets(files@).take(i as int));
            assert(done.last() == files@[i as int]@);
            assert(texts(aliases@)[i as int] == aliases@[i as int]@);
        }
        if text_contains(files[i].name.as_str(), query) || text_contains(
            aliases[i].as_str(),
            query,
        ) {
            found.push(files[i].clone());
        }
        i += 1;
    }
    assert(assets(files@).take(i as int) =~= assets(files@));
    found
}

/// Searches the listed files for `query`, whatever its case. `aliases` holds the alias
/// of each listed file.
pub fn filter_file_list(session: &mut Session, query: String, aliases: &Vec<String>)
    requires
        aliases.len() == old(session).file_list.len(),
    ensures
        final(session)@ == (SessionView {
            filtered_file_list: found_files(
                old(session)@.file_list,
                all_lowercase(texts(aliases@)),
                lowercase(query@),
            ),
            ..old(session)@
        }),
{
    let query_lower = query.as_str().to_lowercase();
    let mut lower: Vec<String> = Vec::new();
    let mut i: usize = 0;
    while i < aliases.len()
        invariant
            i <= aliases.len(),
            texts(lower@) =~= all_lowercase(texts(aliases@)).take(i as int),
        decreases aliases.len() - i,
    {
        let ghost before = lower@;
        lower.push(aliases[i].as_str().to_lowercase());
        assert(texts(lower@) =~= texts(before).push(lowercase(aliases@[i as int]@)));
        i += 1;
    }
    assert(texts(lower@) =~= all_lowercase(texts(aliases@)));
    assert(lower@.len() == texts(lower@).len());
    session.filtered_file_list = search_files(&session.file_list, &lower, query_lower.as_str());
}

/// Two listings never run at once. An attempt to start one while another runs leaves
/// that one running, and it begins no further entry.
pub proof fn listing_gives_way(state: SessionView, counter: Counter)
    requires
        state.list_task_running,
    ensures
        after_acquire(state).list_task_running,
        !goes_on(after_acquire(state), counter),
{
}

/// A listing that was started runs, and goes on until all entries were begun or another
/// one is to start.
pub proof fn started_listing_runs(state: SessionView, counter: Counter)
    requires
        !state.list_task_running,
    ensures
        after_acquire(state).list_task_running,
        goes_on(after_acquire(state), counter) <==> counter.begun < counter.total,
{
}

/// The files of the given entries, in order.
pub open spec fn all_files_of(entries: Seq<EntryView>) -> Seq<AssetView>
    decreases entries.len(),
{
    if entries.len() == 0 {
        Seq::empty()
    } else {
        all_files_of(entries.drop_last()) + files_of(entries.last())
    }
}

/// The files that are listed under a category are those that are recognised as files of
/// that category: a file is listed at least once if and only if a header is found for it.
pub proof fn listed_files_are_those_recognised(kind: ListKindView, mode: Seq<char>, bytes: Seq<u8>)
    requires
        kind is WithHeaders,
        kind_of(mode) == Some(kind),
    ensures
        0 < copies(kind, bytes) <==> found_header(mode, bytes) != "INVALID"@,
{
    invalid_means_no_header(mode, bytes);
}

/// A file that is listed under a category by its first bytes is recognised as one of that
/// category when all of it is read.
pub proof fn listed_file_is_recognised(
    kind: ListKindView,
    mode: Seq<char>,
    start: Seq<u8>,
    rest: Seq<u8>,
)
    requires
        kind is WithHeaders,
        kind_of(mode) == Some(kind),
        0 < copies(kind, start),
    ensures
        found_header(mode, start + rest) != "INVALID"@,
{
    let (first, second) = (kind->WithHeaders_0, kind->WithHeaders_1);
    if holds_header(start, encode_utf8(first)) {
        longer_file_holds_header(start, rest, encode_utf8(first));
    } else {
        longer_file_holds_header(start, rest, encode_utf8(second));
    }
    invalid_means_no_header(mode, start + rest);
}

/// A search finds a file if and only if its name or its alias matches.
pub proof fn search_finds_what_matches(
    files: Seq<AssetView>,
    aliases: Seq<Seq<char>>,
    query: Seq<char>,
)
    requires
        files.len() <= aliases.len(),
    ensures
        forall|i: int|
            0 <= i < files.len() && is_found(files[i].name, #[trigger] aliases[i], query)
                ==> found_files(files, aliases, query).contains(files[i]),
        forall|k: int|
            0 <= k < found_files(files, aliases, query).len() ==> exists|i: int|
                0 <= i < files.len() && files[i] == #[trigger] found_files(
                    files,
                    aliases,
                    query,
                )[k] && is_found(files[i].name, #[trigger] aliases[i], query),
    decreases files.len(),
{
    if files.len() > 0 {
        let before = files.drop_last();
        let found_before = found_files(before, aliases, query);
        let found = found_files(files, aliases, query);
        search_finds_what_matches(before, aliases, query);
        assert forall|i: int|
            0 <= i < files.len() && is_found(
                files[i].name,
                #[trigger] aliases[i],
                query,
            ) implies found.contains(files[i]) by {
            if i < before.len() {
                assert(before[i] == files[i]);
                let k = choose|k: int| 0 <= k < found_before.len() && found_before[k] == files[i];
                assert(found[k] == files[i]);
            } else {
                assert(found[found.len() - 1] == files[i]);
            }
        }
        assert forall|k: int| 0 <= k < found.len() implies exists|i: int|
            0 <= i < files.len() && files[i] == #[trigger] found[k] && is_found(
                files[i].name,
                #[trigger] aliases[i],
                query,
            ) by {
            if k < found_before.len() {
                assert(found_before[k] == found[k]);
                let i = choose|i: int|
                    0 <= i < before.len() && before[i] == found_before[k] && is_found(
                        before[i].name,
                        #[trigger] aliases[i],
                        query,
                    );
                assert(files[i] == found[k] && is_found(files[i].name, aliases[i], query));
            } else {
                let i = files.len() - 1;
                assert(files[i] == found[k] && is_found(files[i].name, aliases[i], query));
            }
        }
    }
}

/// A search for nothing finds every file.
pub proof fn empty_search_finds_all(
    files: Seq<AssetView>,
    aliases: Seq<Seq<char>>,
    query: Seq<char>,
)
    requires
        query.len() == 0,
    ensures
        found_files(files, aliases, query) == files,
    decreases files.len(),
{
    if files.len() > 0 {
        empty_search_finds_all(files.drop_last(), aliases, query);
        let name = files.last().name;
        assert(name.subrange(0, 0) =~= query);
        assert(occurs_at(name, query, 0));
        assert(files.drop_last().push(files.last()) =~= files);
    } else {
        assert(files =~= Seq::empty());
    }
}

/// A longer search text finds no file that a part of it does not find.
pub proof fn longer_search_finds_less(
    name: Seq<char>,
    alias: Seq<char>,
    longer: Seq<char>,
    part: Seq<char>,
)
    requires
        occurs(longer, part),
        is_found(name, alias, longer),
    ensures
        is_found(name, alias, part),
{
    if occurs(name, longer) {
        part_of_part(name, longer, part);
    } else {
        part_of_part(alias, longer, part);
    }
}

proof fn part_of_part(whole: Seq<char>, middle: Seq<char>, part: Seq<char>)
    requires
        occurs(whole, middle),
        occurs(middle, part),
    ensures
        occurs(whole, part),
{
    let i = choose|i: int| occurs_at(whole, middle, i);
    let j = choose|j: int| occurs_at(middle, part, j);
    assert(whole.subrange(i + j, i + j + part.len()) =~= whole.subrange(
        i,
        i + middle.len(),
    ).subrange(j, j + part.len()));
    assert(occurs_at(whole, part, i + j));
}

/// What is listed of a file is its name, its size and the time of its change, as they were
/// read, and no more than its name where they could not be.
pub proof fn file_is_listed_as_it_was_read(
    name: Seq<char>,
    size: u64,
    modified: Option<SystemTime>,
)
    ensures
        asset_info(name, Some((size, modified))) == (AssetView {
            name,
            size,
            last_modified: modified,
        }),
        asset_info(name, None) == (AssetView { name, size: 0, last_modified: None }),
{
}

/// Trying to start a listing changes nothing but whether one runs and whether it is asked
/// to stop, and ending one nothing but whether one runs.
pub proof fn starting_and_ending_a_listing(state: SessionView, counter: Counter)
    ensures
        state.list_task_running ==> after_acquire(state) == (SessionView {
            stop_list_running: true,
            ..state
        }),
        !state.list_task_running ==> after_acquire(state) == (SessionView {
            list_task_running: true,
            stop_list_running: false,
            ..state
        }),
        after_list(state) == (SessionView { list_task_running: false, ..state }),
        goes_on(state, counter) <==> !state.stop_list_running && counter.begun < counter.total,
{
}

/// All files are listed for `music`. For a category it is those with its headers, and for
/// anything else none.
pub proof fn mode_tells_what_is_listed(mode: Seq<char>)
    ensures
        kind_of(mode) == Some(ListKindView::Everything) <==> mode == "music"@,
        kind_of(mode) == Some(ListKindView::WithHeaders("OggS"@, "ID3"@)) <==> mode == "sounds"@,
        kind_of(mode) == Some(ListKindView::WithHeaders("PNG"@, "WEBP"@)) <==> mode == "images"@,
        kind_of(mode) == Some(ListKindView::WithHeaders("KTX"@, ""@)) <==> mode == "ktx-files"@,
        kind_of(mode) == Some(ListKindView::WithHeaders("<roblox!"@, ""@)) <==> mode
            == "rbxm-files"@,
        kind_of(mode) is Some ==> mode == "music"@ || mode == "sounds"@ || mode == "images"@
            || mode == "ktx-files"@ || mode == "rbxm-files"@,
{
    names_differ();
}

/// A file is listed under a category once for each of its headers that stands anywhere in
/// the bytes, and every file is listed once where all are.
pub proof fn file_is_listed_once_for_each_header(bytes: Seq<u8>)
    ensures
        ({
            let stands = |part: Seq<u8>|
                exists|a: Seq<u8>, b: Seq<u8>| bytes == #[trigger] (a + part + b);
            let times = |found: bool| if found { 1int } else { 0int };
            let ogg = seq![0x4fu8, 0x67u8, 0x67u8, 0x53u8];
            let id3 = seq![0x49u8, 0x44u8, 0x33u8];
            let binary = seq![0x62u8, 0x69u8, 0x6eu8, 0x61u8, 0x72u8, 0x79u8, 0x2fu8];
            let png = seq![0x50u8, 0x4eu8, 0x47u8];
            let webp = seq![0x57u8, 0x45u8, 0x42u8, 0x50u8];
            let ktx = seq![0x4bu8, 0x54u8, 0x58u8];
            let model = seq![
                0x3cu8,
                0x72u8,
                0x6fu8,
                0x62u8,
                0x6cu8,
                0x6fu8,
                0x78u8,
                0x21u8,
            ];
            &&& copies(kind_of("music"@)->0, bytes) == 1
            &&& copies(kind_of("sounds"@)->0, bytes) == times(stands(ogg)) + times(
                stands(id3) && stands(binary),
            )
            &&& copies(kind_of("images"@)->0, bytes) == times(stands(png)) + times(stands(webp))
            &&& copies(kind_of("ktx-files"@)->0, bytes) == times(stands(ktx))
            &&& copies(kind_of("rbxm-files"@)->0, bytes) == times(stands(model))
        }),
{
    headers_as_bytes();
    names_differ();
    header_counts_wherever_it_stands(bytes, encode_utf8("OggS"@));
    header_counts_wherever_it_stands(bytes, encode_utf8("ID3"@));
    header_counts_wherever_it_stands(bytes, encode_utf8("PNG"@));
    header_counts_wherever_it_stands(bytes, encode_utf8("WEBP"@));
    header_counts_wherever_it_stands(bytes, encode_utf8("KTX"@));
    header_counts_wherever_it_stands(bytes, encode_utf8("<roblox!"@));
    header_counts_wherever_it_stands(bytes, encode_utf8(""@));
}

/// An entry adds to the list every file that was described for it, behind those that are
/// there, and changes nothing else. An entry that could not be read adds nothing.
pub proof fn entry_adds_every_file_described(
    state: SessionView,
    bytes: Seq<u8>,
    files: Seq<AssetView>,
    error: Seq<char>,
)
    ensures
        after_entry(state, EntryView::Listed { bytes, files }) == (SessionView {
            file_list: state.file_list + files,
            ..state
        }),
        after_entry(state, EntryView::Unnamed) == state,
        after_entry(state, EntryView::OpenFailed(error)) == state,
        after_entry(state, EntryView::ReadFailed) == state,
{
    let none = Seq::<AssetView>::empty();
    assert(state.file_list + none =~= state.file_list);
    assert(after_entry(state, EntryView::Unnamed) =~= state);
    assert(after_entry(state, EntryView::OpenFailed(error)) =~= state);
    assert(after_entry(state, EntryView::ReadFailed) =~= state);
}

/// The files of a directory are those of its entries: of some of them first, and of the rest
/// behind.
pub proof fn files_are_taken_entry_by_entry(
    a: Seq<EntryView>,
    b: Seq<EntryView>,
    bytes: Seq<u8>,
    files: Seq<AssetView>,
    error: Seq<char>,
)
    ensures
        all_files_of(a + b) == all_files_of(a) + all_files_of(b),
        all_files_of(seq![EntryView::Listed { bytes, files }]) == files,
        all_files_of(seq![EntryView::Unnamed]).len() == 0,
        all_files_of(seq![EntryView::OpenFailed(error)]).len() == 0,
        all_files_of(seq![EntryView::ReadFailed]).len() == 0,
    decreases b.len(),
{
    files_of_one_entry(EntryView::Listed { bytes, files });
    files_of_one_entry(EntryView::Unnamed);
    files_of_one_entry(EntryView::OpenFailed(error));
    files_of_one_entry(EntryView::ReadFailed);
    if b.len() == 0 {
        assert(a + b =~= a);
        assert(all_files_of(a) + all_files_of(b) =~= all_files_of(a));
    } else {
        assert((a + b).drop_last() =~= a + b.drop_last());
        assert((a + b).last() == b.last());
        files_are_taken_entry_by_entry(a, b.drop_last(), bytes, files, error);
        assert(all_files_of(a + b) =~= all_files_of(a) + all_files_of(b));
    }
}

proof fn files_of_one_entry(entry: EntryView)
    ensures
        all_files_of(seq![entry]) == files_of(entry),
{
    let one = seq![entry];
    assert(one.drop_last() =~= Seq::empty());
    assert(all_files_of(one.drop_last()) =~= Seq::empty());
    assert(all_files_of(one) =~= files_of(entry));
}

/// After each entry that has a name the status line tells how it went, with its number and
/// the number of all, and with the reason where it could not be opened.
pub proof fn entry_is_reported_with_its_number(
    item: int,
    total: int,
    bytes: Seq<u8>,
    files: Seq<AssetView>,
    error: Seq<char>,
)
    ensures
        entry_status(EntryView::Unnamed, item, total) is None,
        entry_status(EntryView::OpenFailed(error), item, total) == Some(
            counted_error("failed-opening-file"@, item, total, error),
        ),
        entry_status(EntryView::ReadFailed, item, total) == Some(
            counted("failed-opening-file"@, item, total),
        ),
        entry_status(EntryView::Listed { bytes, files }, item, total) == Some(
            counted("reading-files"@, item, total),
        ),
{
}

/// On the command line the name of every file that an entry adds is printed, in order, where
/// all files are listed; nothing is printed otherwise.
pub proof fn names_of_all_files_are_printed(
    bytes: Seq<u8>,
    files: Seq<AssetView>,
    first: Seq<char>,
    second: Seq<char>,
)
    ensures
        ({
            let entry = EntryView::Listed { bytes, files };
            let lines = entry_lines(entry, ListKindView::Everything, true);
            &&& lines.len() == files.len()
            &&& forall|i: int| 0 <= i < files.len() ==> #[trigger] lines[i] == files[i].name
            &&& entry_lines(entry, ListKindView::Everything, false).len() == 0
            &&& entry_lines(entry, ListKindView::WithHeaders(first, second), true).len() == 0
        }),
{
}

/// A search finds a file if and only if what is searched for stands anywhere in its whole
/// name or anywhere in its whole alias.
pub proof fn search_looks_at_the_whole_name_and_alias(
    name: Seq<char>,
    alias: Seq<char>,
    query: Seq<char>,
)
    ensures
        is_found(name, alias, query) <==> (exists|a: Seq<char>, b: Seq<char>|
            name == #[trigger] (a + query + b)) || (exists|a: Seq<char>, b: Seq<char>|
            alias == #[trigger] (a + query + b)),
        forall|a: Seq<char>, b: Seq<char>| is_found(#[trigger] (a + query + b), alias, query),
        forall|a: Seq<char>, b: Seq<char>| is_found(name, #[trigger] (a + query + b), query),
{
    part_stands_between_others(name, query);
    part_stands_between_others(alias, query);
    assert forall|a: Seq<char>, b: Seq<char>| is_found(
        #[trigger] (a + query + b),
        alias,
        query,
    ) by {
        part_stands_here(a, query, b);
    }
    assert forall|a: Seq<char>, b: Seq<char>| is_found(
        name,
        #[trigger] (a + query + b),
        query,
    ) by {
        part_stands_here(a, query, b);
    }
}

/// A search judges each file by itself: what it finds among some files and others is what it
/// finds among each, in order. Of one file it finds the file as it is, or nothing.
pub proof fn search_goes_file_by_file(
    a: Seq<AssetView>,
    a_aliases: Seq<Seq<char>>,
    b: Seq<AssetView>,
    b_aliases: Seq<Seq<char>>,
    file: AssetView,
    alias: Seq<char>,
    query: Seq<char>,
)
    requires
        a.len() == a_aliases.len(),
        b.len() == b_aliases.len(),
    ensures
        found_files(a + b, a_aliases + b_aliases, query) == found_files(a, a_aliases, query)
            + found_files(b, b_aliases, query),
        is_found(file.name, alias, query) ==> found_files(seq![file], seq![alias], query) == seq![
            file,
        ],
        !is_found(file.name, alias, query) ==> found_files(seq![file], seq![alias], query).len()
            == 0,
    decreases b.len(),
{
    let one = seq![file];
    assert(one.drop_last() =~= Seq::empty());
    assert(found_files(one.drop_last(), seq![alias], query) =~= Seq::empty());
    assert(one.last() == file && seq![alias][0] == alias);
    assert(Seq::<AssetView>::empty().push(file) =~= seq![file]);
    let aliases = a_aliases + b_aliases;
    if b.len() == 0 {
        assert(a + b =~= a);
        assert(aliases =~= a_aliases);
        assert(found_files(a, a_aliases, query) + found_files(b, b_aliases, query)
            =~= found_files(a, a_aliases, query));
    } else {
        let before = b_aliases.drop_last();
        assert((a + b).drop_last() =~= a + b.drop_last());
        assert((a + b).last() == b.last());
        assert(aliases[a.len() + b.len() - 1] == b_aliases[b.len() - 1]);
        search_goes_file_by_file(a, a_aliases, b.drop_last(), before, file, alias, query);
        assert(aliases.drop_last() =~= a_aliases + before);
        last_alias_does_not_matter(a + b.drop_last(), aliases, query);
        last_alias_does_not_matter(b.drop_last(), b_aliases, query);
        assert(found_files(a + b, aliases, query) =~= found_files(a, a_aliases, query)
            + found_files(b, b_aliases, query));
    }
}

proof fn last_alias_does_not_matter(
    files: Seq<AssetView>,
    aliases: Seq<Seq<char>>,
    query: Seq<char>,
)
    requires
        files.len() < aliases.len(),
    ensures
        found_files(files, aliases, query) == found_files(files, aliases.drop_last(), query),
    decreases files.len(),
{
    if files.len() > 0 {
        last_alias_does_not_matter(files.drop_last(), aliases, query);
        assert(aliases[files.len() - 1] == aliases.drop_last()[files.len() - 1]);
    }
}

/// An entry and a listing are as values all that they hold.
pub proof fn entry_is_all_it_holds(
    bytes: Vec<u8>,
    files: Vec<AssetInfo>,
    error: String,
    first: &'static str,
    second: &'static str,
    task: ListTask,
)
    ensures
        (Entry::Listed { bytes, files })@ == (EntryView::Listed {
            bytes: bytes@,
            files: assets(files@),
        }),
        (Entry::OpenFailed(error))@ == EntryView::OpenFailed(error@),
        (Entry::ReadFailed)@ == EntryView::ReadFailed,
        (Entry::Unnamed)@ == EntryView::Unnamed,
        (ListKind::Everything)@ == ListKindView::Everything,
        (ListKind::WithHeaders(first, second))@ == ListKindView::WithHeaders(first@, second@),
        task@.kind == task.kind@,
        task@.counter == task.counter,
{
}

/// What is to be told of an entry is that it is listed as often as it is to be.
pub proof fn described_as_often_as_it_is_listed(
    kind: ListKindView,
    bytes: Seq<u8>,
    files: Seq<AssetView>,
    error: Seq<char>,
)
    ensures
        listed_as_often(kind, EntryView::Listed { bytes, files }) <==> files.len() == copies(
            kind,
            bytes,
        ),
        listed_as_often(kind, EntryView::Unnamed),
        listed_as_often(kind, EntryView::OpenFailed(error)),
        listed_as_often(kind, EntryView::ReadFailed),
{
}

/// Two headers count each by itself: a file is listed once for the first and once for the
/// second, for as many of them as its bytes hold.
pub proof fn headers_count_each_by_itself(first: Seq<char>, second: Seq<char>, bytes: Seq<u8>)
    ensures
        ({
            let one = holds_header(bytes, encode_utf8(first));
            let other = holds_header(bytes, encode_utf8(second));
            let times = copies(ListKindView::WithHeaders(first, second), bytes);
            &&& times == 0 <==> !one && !other
            &&& times == 1 <==> one != other
            &&& times == 2 <==> one && other
        }),
        copies(ListKindView::Everything, bytes) == 1,
{
}

} // verus!
