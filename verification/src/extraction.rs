//! Extracting assets: which bytes are written where.

use vstd::prelude::*;
use vstd::utf8::encode_utf8;
use std::time::SystemTime;
use crate::headers::{
    all_headers, can_extract, category_headers, classified, classified_file_is_recognised,
    extension_of, extract_bytes, extracted, extracted_file_starts_at_its_header,
    extracting_twice_is_extracting_once, file_is_told_by_its_bytes, first_at,
    first_occurrence_is_unique, found_header,
    found_header_has_an_extension, found_header_stands_in_the_file, header_extension, header_of,
    header_offset, header_pairs, headers_as_bytes, held_header_is_found, holds_header,
    id3_mark_is_text, invalid_means_no_header, longer_file_holds_header_at_its_end, names_differ,
    starts_inside,
};
use crate::messages::{
    about, counted, counted_message, message_about, optional_message, plain, plain_message,
    stage_message, staged, Message, MessageView,
};
use crate::session::{begin_task, end_task, Session, SessionView};
use crate::tasks::{
    after_start, next_item, progress_at, progress_grows, progress_is_a_part_of_the_whole,
    start_on_directory, starts_as, Counter, Probe, TaskStart,
};
use crate::text::{
    join_path, joined_path_has_one_slash_between, occurs_at, optional_text, part_stands_here,
    part_that_is_no_piece, same_text, slashed, text_pairs, texts,
};

verus! {

/// What could be had of the file to extract.
#[derive(Debug)]
pub enum Source {
    /// Nothing could be found out of it, for the given reason.
    Missing(String),
    /// It is not a file.
    NotAFile,
    /// It could not be read.
    Unreadable,
    /// Its bytes, and the time of its last change, if that could be had.
    Data { bytes: Vec<u8>, modified: Option<SystemTime> },
}

/// The file does not start before the first of its bytes.
pub open spec fn is_extractable(mode: Seq<char>, bytes: Seq<u8>) -> bool {
    found_header(mode, bytes) != "INVALID"@ ==> starts_inside(found_header(mode, bytes), bytes)
}

/// The asset in a file: what stands from its start on, or the whole file if none of the
/// headers of the category is found.
pub open spec fn asset_of(mode: Seq<char>, bytes: Seq<u8>) -> Seq<u8>
    recommends
        is_extractable(mode, bytes),
{
    let header = found_header(mode, bytes);
    if header != "INVALID"@ {
        extracted(header, bytes)
    } else {
        bytes
    }
}

/// The extension of the extracted file. A file without a header is taken for music.
pub open spec fn extension_for(mode: Seq<char>, bytes: Seq<u8>) -> Seq<char> {
    match header_extension(found_header(mode, bytes)) {
        Some(extension) => extension,
        None => ".ogg"@,
    }
}

/// Where the extracted file goes.
pub open spec fn target(
    mode: Seq<char>,
    bytes: Seq<u8>,
    destination: Seq<char>,
    add_extention: bool,
) -> Seq<char> {
    if add_extention {
        destination + extension_for(mode, bytes)
    } else {
        destination
    }
}

/// The status message for a source that cannot be extracted.
pub open spec fn source_status(file: Seq<char>, source: Source) -> Option<MessageView> {
    match source {
        Source::Missing(error) => Some(about("idling"@, "error"@, error@)),
        Source::NotAFile => Some(about("failed-not-file"@, "file"@, file)),
        Source::Unreadable => Some(plain("failed-opening-file"@)),
        Source::Data { .. } => None,
    }
}

/// Tests whether a file may be given to `extract_file` and `extract_file_to_bytes`.
pub fn can_extract_file(mode: &str, bytes: &Vec<u8>) -> (res: bool)
    ensures
        res == is_extractable(mode@, bytes@),
{
    let header = header_of(mode, bytes.as_slice());
    same_text(header.as_str(), "INVALID") || can_extract(header.as_str(), bytes)
}

fn asset_in(header: String, bytes: Vec<u8>) -> (res: Vec<u8>)
    requires
        header@ != "INVALID"@ ==> starts_inside(header@, bytes@),
    ensures
        res@ == if header@ != "INVALID"@ {
            extracted(header@, bytes@)
        } else {
            bytes@
        },
{
    if same_text(header.as_str(), "INVALID") {
        bytes
    } else {
        extract_bytes(header, bytes)
    }
}

fn source_message(file: &str, source: &Source) -> (res: Option<Message>)
    ensures
        optional_message(res) == source_status(file@, *source),
{
    match source {
        Source::Missing(error) => Some(message_about("idling", "error", error.clone())),
        Source::NotAFile => Some(message_about("failed-not-file", "file", file.to_owned())),
        Source::Unreadable => Some(plain_message("failed-opening-file")),
        Source::Data { .. } => None,
    }
}

/// What is written to the extracted file, and the time of change that it gets, if any.
#[derive(Debug)]
pub struct Output {
    pub contents: Vec<u8>,
    pub modified: Option<SystemTime>,
}

/// What extracting a file comes to.
#[derive(Debug)]
pub struct Extraction {
    /// The path of the extracted file, or `None` in words.
    pub result: String,
    /// What is written there.
    pub output: Option<Output>,
    /// The status message.
    pub status: Option<Message>,
}

/// Extracts the asset from the file `file` of the category `mode`. It is to be written to
/// `destination`, to which an extension is added if `add_extention` says so.
pub fn extract_file(
    file: &str,
    source: Source,
    mode: String,
    destination: String,
    add_extention: bool,
) -> (res: Extraction)
    requires
        source matches Source::Data { bytes, .. } ==> is_extractable(mode@, bytes@),
    ensures
        optional_message(res.status) == source_status(file@, source),
        match source {
            Source::Data { bytes, modified } => {
                &&& res.result@ == target(mode@, bytes@, destination@, add_extention)
                &&& res.output matches Some(output)
                &&& output.contents@ == asset_of(mode@, bytes@)
                &&& output.modified == modified
            },
            _ => res.result@ == "None"@ && res.output is None,
        },
{
    let status = source_message(file, &source);
    match source {
        Source::Data { bytes, modified } => {
            let header = header_of(mode.as_str(), bytes.as_slice());
            let result = if add_extention {
                match extension_of(header.as_str()) {
                    Some(extension) => destination.concat(extension),
                    None => destination.concat(".ogg"),
                }
            } else {
                destination
            };
            let contents = asset_in(header, bytes);
            Extraction { result, output: Some(Output { contents, modified }), status }
        },
        _ => Extraction { result: "None".to_owned(), output: None, status },
    }
}

/// What extracting a file to bytes comes to.
#[derive(Debug)]
pub struct BytesExtraction {
    /// The asset, or `None` in words.
    pub bytes: Vec<u8>,
    /// The status message.
    pub status: Option<Message>,
}

/// Extracts the asset from the file `file` of the category `mode`.
pub fn extract_file_to_bytes(file: &str, source: Source, mode: &str) -> (res: BytesExtraction)
    requires
        source matches Source::Data { bytes, .. } ==> is_extractable(mode@, bytes@),
    ensures
        optional_message(res.status) == source_status(file@, source),
        match source {
            Source::Data { bytes, .. } => res.bytes@ == asset_of(mode@, bytes@),
            _ => res.bytes@ == encode_utf8("None"@),
        },
{
    let status = source_message(file, &source);
    match source {
        Source::Data { bytes, .. } => {
            let header = header_of(mode, bytes.as_slice());
            BytesExtraction { bytes: asset_in(header, bytes), status }
        },
        _ => BytesExtraction { bytes: "None".as_bytes_vec(), status },
    }
}

/// Starts the extraction of all listed files, from what stands at the path of their
/// directory, unless a task runs.
pub fn extract_dir(session: &mut Session, probe: &Probe) -> (res: TaskStart)
    ensures
        starts_as(old(session)@, *probe, res),
        final(session)@ == after_start(old(session)@, *probe),
{
    start_on_directory(session, probe)
}

/// A file to extract.
#[derive(Debug)]
pub struct Job {
    /// Where it is.
    pub origin: String,
    /// The category by whose headers it is extracted.
    pub mode: String,
    /// Where it goes, without its extension.
    pub destination: String,
}

/// A file to extract, as a value.
#[verifier::ext_equal]
pub struct JobView {
    pub origin: Seq<char>,
    pub mode: Seq<char>,
    pub destination: Seq<char>,
}

impl View for Job {
    type V = JobView;

    open spec fn view(&self) -> JobView {
        JobView { origin: self.origin@, mode: self.mode@, destination: self.destination@ }
    }
}

/// The name under which a file is extracted: its alias, if aliases are used.
pub open spec fn shown_name(name: Seq<char>, alias: Option<Seq<char>>) -> Seq<char> {
    match alias {
        Some(alias) => alias,
        None => name,
    }
}

/// The extraction of the file `name` of the directory `dir` into the directory
/// `destination`.
pub open spec fn job(
    dir: Seq<char>,
    name: Seq<char>,
    mode: Seq<char>,
    destination: Seq<char>,
    alias: Option<Seq<char>>,
) -> JobView {
    JobView {
        origin: slashed(dir, name),
        mode,
        destination: slashed(destination, shown_name(name, alias)),
    }
}

/// The extraction of the file `name` of the directory `dir` into the directory
/// `destination`, under its alias if there is one.
pub fn directory_job(
    dir: &str,
    name: &str,
    mode: &str,
    destination: &str,
    alias: &Option<String>,
) -> (res: Job)
    ensures
        res@ == job(dir@, name@, mode@, destination@, optional_text(*alias)),
{
    let shown = match alias {
        Some(alias) => join_path(destination, alias.as_str()),
        None => join_path(destination, name),
    };
    Job { origin: join_path(dir, name), mode: mode.to_owned(), destination: shown }
}

/// The status message after a file of a directory was extracted, from what `extract_file`
/// said of it.
pub open spec fn extraction_report(item: int, total: int, result: Seq<char>) -> MessageView {
    counted(
        if result == "None"@ {
            "failed-extracting-file"@
        } else {
            "extracting-files"@
        },
        item,
        total,
    )
}

/// The status message after a file of a directory was extracted, from what `extract_file`
/// said of it.
pub fn report_extracted(item: usize, total: usize, result: &str) -> (res: Message)
    ensures
        res@ == extraction_report(item as int, total as int, result@),
{
    if same_text(result, "None") {
        counted_message("failed-extracting-file", item, total)
    } else {
        counted_message("extracting-files", item, total)
    }
}

/// The state after an extraction has ended.
pub open spec fn after_extraction(state: SessionView) -> SessionView {
    SessionView { task_running: false, ..state }
}

/// Ends the extraction. Returns the status message.
pub fn finish_extraction(session: &mut Session) -> (res: Message)
    ensures
        final(session)@ == after_extraction(old(session)@),
        res@ == plain("all-extracted"@),
{
    end_task(session);
    plain_message("all-extracted")
}

/// What the extraction of the whole cache works with.
#[derive(Debug)]
pub struct ExtractionPlan {
    /// The directory of the music files.
    pub music_directory: String,
    /// The directory of all other files.
    pub http_directory: String,
    /// The directories to create.
    pub directories: Vec<String>,
    /// The headers to look for, each with its category.
    pub headers: Vec<(String, String)>,
}

/// What the extraction of the whole cache works with, as a value.
#[verifier::ext_equal]
pub struct PlanView {
    pub music_directory: Seq<char>,
    pub http_directory: Seq<char>,
    pub directories: Seq<Seq<char>>,
    pub headers: Seq<(Seq<char>, Seq<char>)>,
}

impl View for ExtractionPlan {
    type V = PlanView;

    open spec fn view(&self) -> PlanView {
        PlanView {
            music_directory: self.music_directory@,
            http_directory: self.http_directory@,
            directories: texts(self.directories@),
            headers: text_pairs(self.headers@),
        }
    }
}

/// The directories to create: that of the whole extraction, that of the music, and one
/// for each category.
pub open spec fn target_directories(destination: Seq<char>, keys: Seq<Seq<char>>) -> Seq<
    Seq<char>,
> {
    seq![destination, slashed(destination, "Music"@)] + Seq::new(
        keys.len(),
        |i: int| slashed(destination, keys[i]),
    )
}

/// What the extraction of the cache `cache_directory` into the directory `destination`
/// works with. `keys` holds the categories, in the order in which they are looked for.
pub open spec fn plan_for(
    cache_directory: Seq<char>,
    destination: Seq<char>,
    keys: Seq<Seq<char>>,
) -> PlanView {
    PlanView {
        music_directory: slashed(cache_directory, "sounds"@),
        http_directory: slashed(cache_directory, "http"@),
        directories: target_directories(destination, keys),
        headers: header_pairs(keys),
    }
}

/// Starts the extraction of the whole cache into the directory `destination`, unless a
/// task runs. `keys` holds the categories, in the order in which they are looked for.
pub fn extract_all(session: &mut Session, destination: &str, keys: &Vec<String>) -> (res:
    Option<ExtractionPlan>)
    ensures
        final(session)@ == (SessionView { task_running: true, ..old(session)@ }),
        match res {
            Some(plan) => {
                &&& !old(session)@.task_running
                &&& plan@ == plan_for(old(session)@.cache_directory, destination@, texts(keys@))
            },
            None => old(session)@.task_running,
        },
{
    if !begin_task(session) {
        return None;
    }
    let cache_directory = session.cache_directory.as_str();
    let music_directory = join_path(cache_directory, "sounds");
    let http_directory = join_path(cache_directory, "http");
    let mut directories: Vec<String> = Vec::new();
    directories.push(destination.to_owned());
    directories.push(join_path(destination, "Music"));
    let mut i: usize = 0;
    while i < keys.len()
        invariant
            i <= keys.len(),
            texts(directories@) =~= target_directories(
                destination@,
                texts(keys@).take(i as int),
            ),
        decreases keys.len() - i,
    {
        let ghost before = directories@;
        directories.push(join_path(destination, keys[i].as_str()));
        assert(texts(directories@) =~= texts(before).push(
            slashed(destination@, texts(keys@)[i as int]),
        ));
        i += 1;
    }
    assert(texts(keys@).take(i as int) =~= texts(keys@));
    let headers = all_headers(keys);
    Some(ExtractionPlan { music_directory, http_directory, directories, headers })
}

/// The stages of the extraction of the whole cache.
#[derive(Debug, Clone, Copy, PartialEq, Eq, Structural)]
pub enum Stage {
    /// The music files are extracted.
    Music,
    /// The other files are put into categories.
    Filter,
    /// The files that are in a category are extracted.
    Categories,
}

impl Stage {
    /// The position of the stage, counted from zero.
    pub open spec fn position(self) -> usize {
        match self {
            Stage::Music => 0,
            Stage::Filter => 1,
            Stage::Categories => 2,
        }
    }

    /// The number of the stage, in words.
    pub open spec fn words(self) -> Seq<char> {
        match self {
            Stage::Music => "1"@,
            Stage::Filter => "2"@,
            Stage::Categories => "3"@,
        }
    }

    /// What is done in the stage.
    pub open spec fn detail(self) -> Seq<char> {
        match self {
            Stage::Music => "extracting-files"@,
            Stage::Filter => "filtering-files"@,
            Stage::Categories => "extracting-files"@,
        }
    }
}

/// Begins the next item of a stage. Returns the number of the item, counted from one, or
/// nothing where all items were begun.
pub fn next_in_stage(session: &mut Session, counter: &mut Counter, stage: Stage) -> (res: Option<
    usize,
>)
    requires
        old(counter).valid(),
    ensures
        final(counter).valid(),
        final(counter).total == old(counter).total,
        match res {
            Some(item) => {
                &&& old(counter).begun < old(counter).total
                &&& item == old(counter).begun + 1
                &&& final(counter).begun == item
                &&& final(session)@ == old(session)@.with_progress(
                    progress_at(item as int, old(counter).total, stage.position(), 3),
                )
            },
            None => {
                &&& old(counter).begun == old(counter).total
                &&& final(counter).begun == old(counter).begun
                &&& final(session)@ == old(session)@
            },
        },
{
    let position: usize = match stage {
        Stage::Music => 0,
        Stage::Filter => 1,
        Stage::Categories => 2,
    };
    next_item(session, counter, position, 3)
}

/// The message whose text tells what is done in a stage.
pub fn stage_detail(stage: Stage, item: usize, total: usize) -> (res: Message)
    ensures
        res@ == counted(stage.detail(), item as int, total as int),
{
    match stage {
        Stage::Music => counted_message("extracting-files", item, total),
        Stage::Filter => counted_message("filtering-files", item, total),
        Stage::Categories => counted_message("extracting-files", item, total),
    }
}

/// The status message of a stage, around the text of `stage_detail`.
pub fn stage_status(stage: Stage, item: usize, total: usize, detail: String) -> (res: Message)
    ensures
        res@ == staged(item as int, total as int, detail@, stage.words()),
{
    let words = match stage {
        Stage::Music => "1",
        Stage::Filter => "2",
        Stage::Categories => "3",
    };
    stage_message(item, total, detail, words)
}

/// The status message for a file that could not be read when it was to be put into a
/// category.
pub fn report_unreadable(item: usize, total: usize) -> (res: Message)
    ensures
        res@ == counted("failed-opening-file"@, item as int, total as int),
{
    counted_message("failed-opening-file", item, total)
}

/// A file that was extracted with an extension is never reported as a failure: its path is
/// not the word `None`.
pub proof fn extracted_file_is_no_failure(
    mode: Seq<char>,
    bytes: Seq<u8>,
    destination: Seq<char>,
)
    ensures
        target(mode, bytes, destination, true) != "None"@,
{
    reveal_strlit("None");
    reveal_strlit(".ogg");
    reveal_strlit(".mp3");
    reveal_strlit(".png");
    reveal_strlit(".webp");
    reveal_strlit(".ktx");
    reveal_strlit(".rbxm");
    let extension = extension_for(mode, bytes);
    let path = target(mode, bytes, destination, true);
    assert(extension.len() > 0 && extension.last() != 'e');
    assert(path.last() == extension.last());
    assert("None"@.last() == 'e');
}

/// The path of an extracted file starts with the path that was asked for.
pub proof fn target_extends_destination(
    mode: Seq<char>,
    bytes: Seq<u8>,
    destination: Seq<char>,
    add_extention: bool,
)
    ensures
        destination.is_prefix_of(target(mode, bytes, destination, add_extention)),
{
    let path = target(mode, bytes, destination, add_extention);
    assert(path.subrange(0, destination.len() as int) =~= destination);
}

/// Music is extracted as it is, and gets the extension of an Ogg file.
pub proof fn music_is_kept(bytes: Seq<u8>, destination: Seq<char>)
    ensures
        is_extractable("Music"@, bytes),
        asset_of("Music"@, bytes) == bytes,
        target("Music"@, bytes, destination, true) == destination + ".ogg"@,
{
    reveal_strlit("Music");
    reveal_strlit("sounds");
    reveal_strlit("images");
    reveal_strlit("ktx-files");
    reveal_strlit("rbxm-files");
    assert("Music"@.len() == 5 && "Music"@[0] == 'M');
    assert(category_headers("Music"@) is None) by {
        assert("sounds"@.len() == 6 && "images"@.len() == 6 && "ktx-files"@.len() == 9
            && "rbxm-files"@.len() == 10);
    }
    invalid_means_no_header("Music"@, bytes);
    found_header_has_an_extension("Music"@, bytes);
}

/// What is extracted is the end of the file.
pub proof fn asset_is_the_end_of_the_file(mode: Seq<char>, bytes: Seq<u8>)
    requires
        is_extractable(mode, bytes),
    ensures
        asset_of(mode, bytes).is_suffix_of(bytes),
{
    let header = found_header(mode, bytes);
    if header != "INVALID"@ {
        found_header_stands_in_the_file(mode, bytes);
        extracted_file_starts_at_its_header(header, bytes);
    } else {
        assert(bytes =~= bytes.subrange(0, bytes.len() as int));
    }
}

/// An asset that was extracted is extracted as itself.
pub proof fn asset_is_extracted_as_itself(mode: Seq<char>, bytes: Seq<u8>)
    requires
        is_extractable(mode, bytes),
    ensures
        is_extractable(mode, asset_of(mode, bytes)),
        asset_of(mode, asset_of(mode, bytes)) == asset_of(mode, bytes),
{
    let header = found_header(mode, bytes);
    let asset = asset_of(mode, bytes);
    if header != "INVALID"@ {
        found_header_stands_in_the_file(mode, bytes);
        extracted_file_starts_at_its_header(header, bytes);
        extracting_twice_is_extracting_once(header, bytes);
        let (first, second) = category_headers(mode)->0;
        let from = bytes.len() - asset.len();
        assert(asset =~= bytes.skip(from));
        if holds_header(asset, encode_utf8(first)) {
            longer_file_holds_header_at_its_end(bytes, from, encode_utf8(first));
        }
        if header == first {
            // The mark of an MP3 file, which counts only beside the media type, is never
            // the first header of a category.
            first_header_is_not_id3(mode);
            id3_mark_is_text(first);
            assert(occurs_at(asset, encode_utf8(first), header_offset(first)));
            assert(holds_header(asset, encode_utf8(first)));
        }
    }
}

proof fn first_header_is_not_id3(mode: Seq<char>)
    ensures
        category_headers(mode) matches Some((first, _)) ==> first != "ID3"@,
{
    reveal_strlit("ID3");
    reveal_strlit("OggS");
    reveal_strlit("PNG");
    reveal_strlit("KTX");
    reveal_strlit("<roblox!");
    assert("ID3"@.len() == 3 && "ID3"@[0] == 'I' && "OggS"@.len() == 4 && "PNG"@[0] == 'P'
        && "KTX"@[0] == 'K' && "<roblox!"@.len() == 8);
}

/// An asset that is wrapped in a file of the cache, behind other bytes, is recovered as it
/// is, if its header stands there for the first time.
pub proof fn wrapped_asset_is_recovered(mode: Seq<char>, head: Seq<u8>, asset: Seq<u8>)
    requires
        found_header(mode, head + asset) != "INVALID"@,
        first_at(
            head + asset,
            encode_utf8(found_header(mode, head + asset)),
            head.len() + header_offset(found_header(mode, head + asset)),
        ),
    ensures
        is_extractable(mode, head + asset),
        asset_of(mode, head + asset) == asset,
{
    let header = found_header(mode, head + asset);
    found_header_stands_in_the_file(mode, head + asset);
    first_occurrence_is_unique(
        head + asset,
        encode_utf8(header),
        head.len() + header_offset(header),
    );
    assert((head + asset).skip(head.len() as int) =~= asset);
}

/// Files that are to go to different paths never go to the same one, whatever extensions
/// they get.
pub proof fn extracted_files_do_not_collide(
    mode_a: Seq<char>,
    bytes_a: Seq<u8>,
    destination_a: Seq<char>,
    mode_b: Seq<char>,
    bytes_b: Seq<u8>,
    destination_b: Seq<char>,
)
    requires
        target(mode_a, bytes_a, destination_a, true) == target(
            mode_b,
            bytes_b,
            destination_b,
            true,
        ),
    ensures
        destination_a == destination_b,
{
    reveal_strlit(".ogg");
    reveal_strlit(".mp3");
    reveal_strlit(".png");
    reveal_strlit(".webp");
    reveal_strlit(".ktx");
    reveal_strlit(".rbxm");
    let (one, other) = (extension_for(mode_a, bytes_a), extension_for(mode_b, bytes_b));
    let path = target(mode_a, bytes_a, destination_a, true);
    // The last two characters tell the extensions apart.
    assert(one.len() >= 4 && other.len() >= 4);
    assert(path[path.len() - 1] == one[one.len() - 1]);
    assert(path[path.len() - 1] == other[other.len() - 1]);
    assert(path[path.len() - 2] == one[one.len() - 2]);
    assert(path[path.len() - 2] == other[other.len() - 2]);
    assert(one == other);
    let size = destination_a.len() as int;
    assert(destination_a =~= path.subrange(0, size));
    assert(destination_b =~= path.subrange(0, size));
}

/// Different files of a directory are extracted to different paths, if no aliases are used.
pub proof fn different_files_have_different_jobs(
    dir: Seq<char>,
    name_a: Seq<char>,
    name_b: Seq<char>,
    mode: Seq<char>,
    destination: Seq<char>,
)
    requires
        name_a != name_b,
    ensures
        job(dir, name_a, mode, destination, None).origin != job(
            dir,
            name_b,
            mode,
            destination,
            None,
        ).origin,
        job(dir, name_a, mode, destination, None).destination != job(
            dir,
            name_b,
            mode,
            destination,
            None,
        ).destination,
{
    joined_paths_tell_names_apart(dir, name_a, name_b);
    joined_paths_tell_names_apart(destination, name_a, name_b);
}

proof fn joined_paths_tell_names_apart(dir: Seq<char>, a: Seq<char>, b: Seq<char>)
    requires
        a != b,
    ensures
        slashed(dir, a) != slashed(dir, b),
{
    let from = (dir + "/"@).len() as int;
    assert(slashed(dir, a).skip(from) =~= a);
    assert(slashed(dir, b).skip(from) =~= b);
}

/// There is a directory for every category that a file of the cache is put into.
pub proof fn category_has_a_directory(
    keys: Seq<Seq<char>>,
    name: Seq<char>,
    bytes: Seq<u8>,
    destination: Seq<char>,
    i: int,
)
    requires
        0 <= i < classified(header_pairs(keys), name, bytes).len(),
    ensures
        target_directories(destination, keys).contains(
            slashed(destination, classified(header_pairs(keys), name, bytes)[i].1),
        ),
{
    classified_file_is_recognised(keys, name, bytes, Seq::empty(), i);
    let mode = classified(header_pairs(keys), name, bytes)[i].1;
    let k = choose|k: int| 0 <= k < keys.len() && keys[k] == mode;
    assert(target_directories(destination, keys)[k + 2] == slashed(destination, mode));
}

/// The stages follow one another: as the extraction of the whole cache goes on, the part
/// that is done grows, and it is the whole at the last item of the last stage.
pub proof fn stages_follow_one_another(
    earlier_item: int,
    earlier_total: usize,
    earlier: Stage,
    later_item: int,
    later_total: usize,
    later: Stage,
)
    requires
        0 < earlier_item <= earlier_total,
        0 < later_item <= later_total,
        earlier.position() < later.position() || (earlier == later && earlier_total
            == later_total && earlier_item < later_item),
    ensures
        ({
            let before = progress_at(earlier_item, earlier_total, earlier.position(), 3);
            let after = progress_at(later_item, later_total, later.position(), 3);
            &&& before.parts_done() * after.parts() < after.parts_done() * before.parts()
            &&& after.parts_done() <= after.parts()
            &&& after.parts_done() == after.parts() <==> later is Categories && later_item
                == later_total
        }),
{
    let before = progress_at(earlier_item, earlier_total, earlier.position(), 3);
    let after = progress_at(later_item, later_total, later.position(), 3);
    progress_grows(before, after);
    progress_is_a_part_of_the_whole(after);
}

proof fn file_is_cut_at(
    mode: Seq<char>,
    header: Seq<char>,
    head: Seq<u8>,
    front: Seq<u8>,
    mark: Seq<u8>,
    tail: Seq<u8>,
)
    requires
        header != "INVALID"@,
        found_header(mode, head + front + mark + tail) == header,
        encode_utf8(header) == mark,
        mark.len() > 0,
        header_offset(header) == front.len(),
        forall|i: int|
            0 <= i < head.len() + front.len() ==> #[trigger] (head + front + mark
                + tail).subrange(i, i + mark.len()) != mark,
    ensures
        is_extractable(mode, head + front + mark + tail),
        asset_of(mode, head + front + mark + tail) == front + mark + tail,
{
    let file = head + front + mark + tail;
    let asset = front + mark + tail;
    assert(head + asset =~= file);
    part_stands_here(head + front, mark, tail);
    assert(first_at(file, mark, head.len() + header_offset(header)));
    wrapped_asset_is_recovered(mode, head, asset);
}

/// An Ogg file is extracted from its mark `OggS` on, whatever stands before and behind it.
pub proof fn ogg_file_is_extracted(head: Seq<u8>, tail: Seq<u8>, destination: Seq<char>)
    requires
        ({
            let mark = seq![0x4fu8, 0x67u8, 0x67u8, 0x53u8];
            forall|i: int|
                0 <= i < head.len() ==> #[trigger] (head + mark + tail).subrange(i, i + 4) != mark
        }),
    ensures
        ({
            let mark = seq![0x4fu8, 0x67u8, 0x67u8, 0x53u8];
            let file = head + mark + tail;
            &&& is_extractable("sounds"@, file)
            &&& asset_of("sounds"@, file) == mark + tail
            &&& target("sounds"@, file, destination, true) == destination + seq![
                '.',
                'o',
                'g',
                'g',
            ]
        }),
{
    let mark = seq![0x4fu8, 0x67u8, 0x67u8, 0x53u8];
    let none = Seq::<u8>::empty();
    headers_as_bytes();
    names_differ();
    reveal_strlit(".ogg");
    assert(".ogg"@ =~= seq!['.', 'o', 'g', 'g']);
    assert(head + none =~= head);
    assert(none + mark =~= mark);
    file_is_told_by_its_bytes("sounds"@, head + mark + tail);
    file_is_cut_at("sounds"@, "OggS"@, head, none, mark, tail);
}

/// An MP3 file, which is told by `ID3` beside `binary/`, is extracted from its mark on. A
/// file that holds `OggS` is no such file.
pub proof fn mp3_file_is_extracted(
    head: Seq<u8>,
    tail: Seq<u8>,
    before: Seq<u8>,
    behind: Seq<u8>,
    destination: Seq<char>,
)
    requires
        ({
            let mark = seq![0x49u8, 0x44u8, 0x33u8];
            let binary = seq![0x62u8, 0x69u8, 0x6eu8, 0x61u8, 0x72u8, 0x79u8, 0x2fu8];
            let ogg = seq![0x4fu8, 0x67u8, 0x67u8, 0x53u8];
            let file = head + mark + tail;
            &&& file == before + binary + behind
            &&& forall|i: int|
                0 <= i <= file.len() - ogg.len() ==> #[trigger] file.subrange(i, i + ogg.len())
                    != ogg
            &&& forall|i: int|
                0 <= i < head.len() ==> #[trigger] (head + mark + tail).subrange(i, i + 3) != mark
        }),
    ensures
        ({
            let mark = seq![0x49u8, 0x44u8, 0x33u8];
            let file = head + mark + tail;
            &&& is_extractable("sounds"@, file)
            &&& asset_of("sounds"@, file) == mark + tail
            &&& target("sounds"@, file, destination, true) == destination + seq![
                '.',
                'm',
                'p',
                '3',
            ]
        }),
{
    let mark = seq![0x49u8, 0x44u8, 0x33u8];
    let ogg = seq![0x4fu8, 0x67u8, 0x67u8, 0x53u8];
    let none = Seq::<u8>::empty();
    headers_as_bytes();
    names_differ();
    reveal_strlit(".mp3");
    assert(".mp3"@ =~= seq!['.', 'm', 'p', '3']);
    assert(head + none =~= head);
    assert(none + mark =~= mark);
    part_that_is_no_piece(head + mark + tail, ogg);
    file_is_told_by_its_bytes("sounds"@, head + mark + tail);
    file_is_cut_at("sounds"@, "ID3"@, head, none, mark, tail);
}

/// A PNG file is extracted from the byte before its mark `PNG` on.
pub proof fn png_file_is_extracted(
    head: Seq<u8>,
    front: u8,
    tail: Seq<u8>,
    destination: Seq<char>,
)
    requires
        ({
            let mark = seq![0x50u8, 0x4eu8, 0x47u8];
            forall|i: int|
                0 <= i < head.len() + 1 ==> #[trigger] (head + seq![front] + mark
                    + tail).subrange(i, i + 3) != mark
        }),
    ensures
        ({
            let mark = seq![0x50u8, 0x4eu8, 0x47u8];
            let file = head + seq![front] + mark + tail;
            &&& is_extractable("images"@, file)
            &&& asset_of("images"@, file) == seq![front] + mark + tail
            &&& target("images"@, file, destination, true) == destination + seq![
                '.',
                'p',
                'n',
                'g',
            ]
        }),
{
    let mark = seq![0x50u8, 0x4eu8, 0x47u8];
    headers_as_bytes();
    names_differ();
    reveal_strlit(".png");
    assert(".png"@ =~= seq!['.', 'p', 'n', 'g']);
    file_is_told_by_its_bytes("images"@, head + seq![front] + mark + tail);
    file_is_cut_at("images"@, "PNG"@, head, seq![front], mark, tail);
}

/// A WebP file is extracted from eight bytes before its mark `WEBP` on. A file that holds
/// `PNG` is no such file.
pub proof fn webp_file_is_extracted(
    head: Seq<u8>,
    front: Seq<u8>,
    tail: Seq<u8>,
    destination: Seq<char>,
)
    requires
        front.len() == 8,
        ({
            let mark = seq![0x57u8, 0x45u8, 0x42u8, 0x50u8];
            let png = seq![0x50u8, 0x4eu8, 0x47u8];
            let file = head + front + mark + tail;
            &&& forall|i: int|
                0 <= i <= file.len() - png.len() ==> #[trigger] file.subrange(i, i + png.len())
                    != png
            &&& forall|i: int|
                0 <= i < head.len() + 8 ==> #[trigger] (head + front + mark + tail).subrange(
                    i,
                    i + 4,
                ) != mark
        }),
    ensures
        ({
            let mark = seq![0x57u8, 0x45u8, 0x42u8, 0x50u8];
            let file = head + front + mark + tail;
            &&& is_extractable("images"@, file)
            &&& asset_of("images"@, file) == front + mark + tail
            &&& target("images"@, file, destination, true) == destination + seq![
                '.',
                'w',
                'e',
                'b',
                'p',
            ]
        }),
{
    let mark = seq![0x57u8, 0x45u8, 0x42u8, 0x50u8];
    let png = seq![0x50u8, 0x4eu8, 0x47u8];
    headers_as_bytes();
    names_differ();
    reveal_strlit(".webp");
    assert(".webp"@ =~= seq!['.', 'w', 'e', 'b', 'p']);
    part_that_is_no_piece(head + front + mark + tail, png);
    file_is_told_by_its_bytes("images"@, head + front + mark + tail);
    file_is_cut_at("images"@, "WEBP"@, head, front, mark, tail);
}

/// A KTX file is extracted from the byte before its mark `KTX` on.
pub proof fn ktx_file_is_extracted(
    head: Seq<u8>,
    front: u8,
    tail: Seq<u8>,
    destination: Seq<char>,
)
    requires
        ({
            let mark = seq![0x4bu8, 0x54u8, 0x58u8];
            forall|i: int|
                0 <= i < head.len() + 1 ==> #[trigger] (head + seq![front] + mark
                    + tail).subrange(i, i + 3) != mark
        }),
    ensures
        ({
            let mark = seq![0x4bu8, 0x54u8, 0x58u8];
            let file = head + seq![front] + mark + tail;
            &&& is_extractable("ktx-files"@, file)
            &&& asset_of("ktx-files"@, file) == seq![front] + mark + tail
            &&& target("ktx-files"@, file, destination, true) == destination + seq![
                '.',
                'k',
                't',
                'x',
            ]
        }),
{
    let mark = seq![0x4bu8, 0x54u8, 0x58u8];
    headers_as_bytes();
    names_differ();
    reveal_strlit(".ktx");
    assert(".ktx"@ =~= seq!['.', 'k', 't', 'x']);
    file_is_told_by_its_bytes("ktx-files"@, head + seq![front] + mark + tail);
    file_is_cut_at("ktx-files"@, "KTX"@, head, seq![front], mark, tail);
}

/// A model is extracted from its mark `<roblox!` on.
pub proof fn model_is_extracted(head: Seq<u8>, tail: Seq<u8>, destination: Seq<char>)
    requires
        ({
            let mark = seq![
                0x3cu8,
                0x72u8,
                0x6fu8,
                0x62u8,
                0x6cu8,
                0x6fu8,
                0x78u8,
                0x21u8,
            ];
            forall|i: int|
                0 <= i < head.len() ==> #[trigger] (head + mark + tail).subrange(i, i + 8) != mark
        }),
    ensures
        ({
            let mark = seq![
                0x3cu8,
                0x72u8,
                0x6fu8,
                0x62u8,
                0x6cu8,
                0x6fu8,
                0x78u8,
                0x21u8,
            ];
            let file = head + mark + tail;
            &&& is_extractable("rbxm-files"@, file)
            &&& asset_of("rbxm-files"@, file) == mark + tail
            &&& target("rbxm-files"@, file, destination, true) == destination + seq![
                '.',
                'r',
                'b',
                'x',
                'm',
            ]
        }),
{
    let mark = seq![0x3cu8, 0x72u8, 0x6fu8, 0x62u8, 0x6cu8, 0x6fu8, 0x78u8, 0x21u8];
    let none = Seq::<u8>::empty();
    headers_as_bytes();
    names_differ();
    reveal_strlit(".rbxm");
    assert(".rbxm"@ =~= seq!['.', 'r', 'b', 'x', 'm']);
    assert(head + none =~= head);
    assert(none + mark =~= mark);
    file_is_told_by_its_bytes("rbxm-files"@, head + mark + tail);
    file_is_cut_at("rbxm-files"@, "<roblox!"@, head, none, mark, tail);
}

/// A file for which no header is found is extracted whole, whatever the mode, and gets the
/// extension of an Ogg file. So is every file of a mode that is no category.
pub proof fn file_without_a_header_is_extracted_whole(
    mode: Seq<char>,
    bytes: Seq<u8>,
    destination: Seq<char>,
)
    requires
        found_header(mode, bytes) == "INVALID"@ || (mode != "sounds"@ && mode != "images"@ && mode
            != "ktx-files"@ && mode != "rbxm-files"@),
    ensures
        is_extractable(mode, bytes),
        asset_of(mode, bytes) == bytes,
        target(mode, bytes, destination, true) == destination + seq!['.', 'o', 'g', 'g'],
{
    names_differ();
    reveal_strlit(".ogg");
    assert(".ogg"@ =~= seq!['.', 'o', 'g', 'g']);
    file_is_told_by_its_bytes(mode, bytes);
    found_header_has_an_extension(mode, bytes);
}

/// Where no extension is asked for, a file goes where it is told to.
pub proof fn destination_is_kept_without_an_extension(
    mode: Seq<char>,
    bytes: Seq<u8>,
    destination: Seq<char>,
)
    ensures
        target(mode, bytes, destination, false) == destination,
{
}

/// What is neither an image nor a KTX file can always be extracted: its mark is its start.
pub proof fn sounds_and_models_can_be_extracted(mode: Seq<char>, bytes: Seq<u8>)
    requires
        mode != "images"@,
        mode != "ktx-files"@,
    ensures
        is_extractable(mode, bytes),
        asset_of(mode, bytes).len() <= bytes.len(),
{
    names_differ();
    file_is_told_by_its_bytes(mode, bytes);
    if found_header(mode, bytes) != "INVALID"@ {
        found_header_stands_in_the_file(mode, bytes);
        held_header_is_found(bytes, encode_utf8(found_header(mode, bytes)));
    }
    asset_is_the_end_of_the_file(mode, bytes);
}

/// The status message tells why a file could not be extracted: the reason where nothing
/// could be found out of it, its path where it is no file. Where it could be, there is none.
pub proof fn failure_is_told_with_its_reason(
    file: Seq<char>,
    reason: String,
    bytes: Vec<u8>,
    modified: Option<SystemTime>,
)
    ensures
        source_status(file, Source::Missing(reason)) == Some(
            about("idling"@, "error"@, reason@),
        ),
        source_status(file, Source::NotAFile) == Some(about("failed-not-file"@, "file"@, file)),
        source_status(file, Source::Unreadable) == Some(plain("failed-opening-file"@)),
        source_status(file, Source::Data { bytes, modified }) is None,
{
}

/// A file is taken from its directory by its name, and goes to the directory it is extracted
/// to, under its whole alias if there is one, and else under its whole name.
pub proof fn file_goes_to_its_alias_or_name(
    dir: Seq<char>,
    name: Seq<char>,
    mode: Seq<char>,
    destination: Seq<char>,
    alias: Seq<char>,
)
    ensures
        job(dir, name, mode, destination, Some(alias)) == (JobView {
            origin: dir + seq!['/'] + name,
            mode,
            destination: destination + seq!['/'] + alias,
        }),
        job(dir, name, mode, destination, None) == (JobView {
            origin: dir + seq!['/'] + name,
            mode,
            destination: destination + seq!['/'] + name,
        }),
{
    joined_path_has_one_slash_between(dir, name);
    joined_path_has_one_slash_between(destination, alias);
    joined_path_has_one_slash_between(destination, name);
}

/// Files with different aliases are extracted to different paths.
pub proof fn different_aliases_have_different_jobs(
    dir: Seq<char>,
    name_a: Seq<char>,
    name_b: Seq<char>,
    mode: Seq<char>,
    destination: Seq<char>,
    alias_a: Seq<char>,
    alias_b: Seq<char>,
)
    requires
        alias_a != alias_b,
    ensures
        job(dir, name_a, mode, destination, Some(alias_a)).destination != job(
            dir,
            name_b,
            mode,
            destination,
            Some(alias_b),
        ).destination,
{
    joined_paths_tell_names_apart(destination, alias_a, alias_b);
}

/// A job as a value is all that the job holds, and so is a plan.
pub proof fn job_is_all_it_holds(job: Job, plan: ExtractionPlan)
    ensures
        job@.origin == job.origin@,
        job@.mode == job.mode@,
        job@.destination == job.destination@,
        plan@.music_directory == plan.music_directory@,
        plan@.http_directory == plan.http_directory@,
        plan@.directories == texts(plan.directories@),
        plan@.headers == text_pairs(plan.headers@),
{
}

/// A file is reported as extracted unless the word `None` came back, with the number of the
/// file and of all files.
pub proof fn report_tells_success_from_failure(item: int, total: int, result: Seq<char>)
    ensures
        result == seq!['N', 'o', 'n', 'e'] ==> extraction_report(item, total, result) == counted(
            "failed-extracting-file"@,
            item,
            total,
        ),
        result != seq!['N', 'o', 'n', 'e'] ==> extraction_report(item, total, result) == counted(
            "extracting-files"@,
            item,
            total,
        ),
{
    reveal_strlit("None");
    assert("None"@ =~= seq!['N', 'o', 'n', 'e']);
}

/// The whole cache is extracted from its directories `sounds` and `http`, by the headers of
/// all given categories. The directory of the extraction, that of the music and that of
/// each category are created, in this order.
pub proof fn plan_covers_the_whole_cache(
    cache_directory: Seq<char>,
    destination: Seq<char>,
    keys: Seq<Seq<char>>,
    state: SessionView,
)
    ensures
        ({
            let plan = plan_for(cache_directory, destination, keys);
            &&& plan.music_directory == cache_directory + seq!['/', 's', 'o', 'u', 'n', 'd', 's']
            &&& plan.http_directory == cache_directory + seq!['/', 'h', 't', 't', 'p']
            &&& plan.headers == header_pairs(keys)
            &&& plan.directories.len() == keys.len() + 2
            &&& plan.directories[0] == destination
            &&& plan.directories[1] == destination + seq!['/', 'M', 'u', 's', 'i', 'c']
            &&& forall|i: int|
                0 <= i < keys.len() ==> #[trigger] plan.directories[i + 2] == destination + seq![
                    '/',
                ] + keys[i]
        }),
        after_extraction(state) == (SessionView { task_running: false, ..state }),
{
    reveal_strlit("sounds");
    reveal_strlit("http");
    reveal_strlit("Music");
    joined_path_has_one_slash_between(cache_directory, "sounds"@);
    joined_path_has_one_slash_between(cache_directory, "http"@);
    joined_path_has_one_slash_between(destination, "Music"@);
    let plan = plan_for(cache_directory, destination, keys);
    assert(plan.music_directory =~= cache_directory + seq!['/', 's', 'o', 'u', 'n', 'd', 's']);
    assert(plan.http_directory =~= cache_directory + seq!['/', 'h', 't', 't', 'p']);
    assert(plan.directories[1] =~= destination + seq!['/', 'M', 'u', 's', 'i', 'c']);
    assert forall|i: int| 0 <= i < keys.len() implies #[trigger] plan.directories[i + 2]
        == destination + seq!['/'] + keys[i] by {
        joined_path_has_one_slash_between(destination, keys[i]);
    }
}

/// The music is the first of three stages, sorting the second, extracting what was sorted
/// the third. They are numbered so, and the second is told as filtering.
pub proof fn stages_are_numbered_in_order(stage: Stage)
    ensures
        stage.position() == if stage is Music {
            0int
        } else if stage is Filter {
            1
        } else {
            2
        },
        stage.words() == seq![
            if stage is Music {
                '1'
            } else if stage is Filter {
                '2'
            } else {
                '3'
            },
        ],
        stage.detail() == "filtering-files"@ <==> stage is Filter,
        stage.detail() == "extracting-files"@ <==> !(stage is Filter),
{
    reveal_strlit("1");
    reveal_strlit("2");
    reveal_strlit("3");
    reveal_strlit("filtering-files");
    reveal_strlit("extracting-files");
    assert("filtering-files"@.len() == 15 && "extracting-files"@.len() == 16);
    assert(stage.words() =~= seq![
        if stage is Music {
            '1'
        } else if stage is Filter {
            '2'
        } else {
            '3'
        },
    ]);
}

} // verus!
