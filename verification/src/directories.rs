//! Where the cache and the temporary files are.

use vstd::prelude::*;
use crate::session::{Session, SessionView};
use crate::tasks::Probe;
use crate::text::{
    first_occurrence_is_replaced, occurs, occurs_at, optional_text, part_stands_between_others,
    replace_all, replaced, same_text, texts,
};

verus! {

/// `whoami::username`: the name of the user who runs the program. Nothing is claimed of
/// it: it is up to the system.
pub assume_specification[ whoami::username ]() -> String;

/// The directory of temporary files of a Windows user.
pub open spec fn windows_temp(user: Seq<char>) -> Seq<char> {
    "C:\\Users\\"@ + user + "\\AppData\\Local\\Temp"@
}

/// The directory of application data of a Windows user.
pub open spec fn windows_local_data(user: Seq<char>) -> Seq<char> {
    "C:\\Users\\"@ + user + "\\AppData\\Local"@
}

/// The home directory of a Linux user.
pub open spec fn linux_home(user: Seq<char>) -> Seq<char> {
    "/home/"@ + user
}

/// The path `directory` with its markers `%Temp%`, `%localappdata%` and `~` replaced, one
/// after the other, by the directories of the user `user`.
pub open spec fn resolved_path(directory: Seq<char>, user: Seq<char>) -> Seq<char> {
    let temp = replaced(directory, "%Temp%"@, windows_temp(user));
    let local = replaced(temp, "%localappdata%"@, windows_local_data(user));
    replaced(local, "~"@, linux_home(user))
}

/// The path has none of the markers.
pub open spec fn has_no_marker(directory: Seq<char>) -> bool {
    &&& !occurs(directory, "%Temp%"@)
    &&& !occurs(directory, "%localappdata%"@)
    &&& !occurs(directory, "~"@)
}

/// Replaces the markers in a path by the directories of the user `user`.
pub fn resolve_path_for(directory: &str, user: &str) -> (res: String)
    ensures
        res@ == resolved_path(directory@, user@),
{
    proof {
        reveal_strlit("%Temp%");
        reveal_strlit("%localappdata%");
        reveal_strlit("~");
    }
    let temp = "C:\\Users\\".to_owned().concat(user).concat("\\AppData\\Local\\Temp");
    let local = "C:\\Users\\".to_owned().concat(user).concat("\\AppData\\Local");
    let home = "/home/".to_owned().concat(user);
    let with_temp = replace_all(directory, "%Temp%", temp.as_str());
    let with_local = replace_all(with_temp.as_str(), "%localappdata%", local.as_str());
    replace_all(with_local.as_str(), "~", home.as_str())
}

/// Replaces the markers in a path by the directories of the user who runs the program.
pub fn resolve_path(directory: &str) -> (res: String)
    ensures
        exists|user: Seq<char>| res@ == #[trigger] resolved_path(directory@, user),
        has_no_marker(directory@) ==> res@ == directory@,
{
    let user = whoami::username();
    let res = resolve_path_for(directory, user.as_str());
    proof {
        if has_no_marker(directory@) {
            path_without_markers_is_kept(directory@, user@);
        }
    }
    res
}

/// Judges whether a resolved path is that of a directory, from what stands there.
pub fn validate_directory(resolved_directory: String, probe: Probe) -> (res: Result<
    String,
    String,
>)
    ensures
        match probe {
            Probe::Directory => res matches Ok(path) && path@ == resolved_directory@,
            Probe::File | Probe::Other => res matches Err(error) && error@
                == resolved_directory@ + ": Not a directory"@,
            Probe::Failed(reason) => res matches Err(error) && error@ == reason@,
        },
{
    match probe {
        Probe::Directory => Ok(resolved_directory),
        Probe::File | Probe::Other => Err(resolved_directory.concat(": Not a directory")),
        Probe::Failed(reason) => Err(reason),
    }
}

/// The directories in which the cache is looked for: that of the client on Windows, and
/// that of the client on Linux.
pub open spec fn default_directories() -> Seq<Seq<char>> {
    seq!["%Temp%\\Roblox"@, "~/.var/app/org.vinegarhq.Sober/cache/sober"@]
}

/// The directories in which the cache is looked for. That of the configuration, without
/// its quotes, comes first.
pub open spec fn candidates(configured: Option<Seq<char>>) -> Seq<Seq<char>> {
    match configured {
        Some(directory) => seq![replaced(directory, "\""@, ""@)] + default_directories(),
        None => default_directories(),
    }
}

/// The search for the cache directory.
#[derive(Debug)]
pub struct Detection {
    /// The directories to try, in order.
    pub candidates: Vec<String>,
    /// How many of them were tried in vain.
    pub tried: usize,
    /// Why they were in vain.
    pub errors: String,
}

/// The search for the cache directory, as a value.
#[verifier::ext_equal]
pub struct DetectionView {
    pub candidates: Seq<Seq<char>>,
    pub tried: int,
    pub errors: Seq<char>,
}

impl View for Detection {
    type V = DetectionView;

    open spec fn view(&self) -> DetectionView {
        DetectionView {
            candidates: texts(self.candidates@),
            tried: self.tried as int,
            errors: self.errors@,
        }
    }
}

impl DetectionView {
    /// No more directories were tried than there are.
    pub open spec fn valid(self) -> bool {
        0 <= self.tried <= self.candidates.len()
    }

    /// The search after a directory was tried in vain, for the reason `error`.
    pub open spec fn failed(self, error: Seq<char>) -> DetectionView {
        DetectionView { tried: self.tried + 1, errors: self.errors + error, ..self }
    }
}

/// The search at its start.
pub open spec fn detection_start(configured: Option<Seq<char>>) -> DetectionView {
    DetectionView { candidates: candidates(configured), tried: 0, errors: Seq::empty() }
}

/// Starts the search for the cache directory. `configured` is the directory of the
/// configuration, if there is one.
pub fn detect_directory(configured: Option<String>) -> (res: Detection)
    ensures
        res@.valid(),
        res@ == detection_start(optional_text(configured)),
{
    proof {
        reveal_strlit("\"");
    }
    let mut list: Vec<String> = Vec::new();
    let ghost given = optional_text(configured);
    if let Some(directory) = configured {
        list.push(replace_all(directory.as_str(), "\"", ""));
    }
    list.push("%Temp%\\Roblox".to_owned());
    list.push("~/.var/app/org.vinegarhq.Sober/cache/sober".to_owned());
    assert(texts(list@) =~= candidates(given));
    Detection { candidates: list, tried: 0, errors: String::new() }
}

/// The directory to try next; none where all were tried in vain.
pub fn next_candidate(detection: &Detection) -> (res: Option<String>)
    requires
        detection@.valid(),
    ensures
        match res {
            Some(directory) => {
                &&& detection@.tried < detection@.candidates.len()
                &&& directory@ == detection@.candidates[detection@.tried]
            },
            None => detection@.tried == detection@.candidates.len(),
        },
{
    if detection.tried < detection.candidates.len() {
        Some(detection.candidates[detection.tried].clone())
    } else {
        None
    }
}

/// Takes up what `validate_directory` said of the directory to try next. Returns the
/// cache directory, where it was found.
pub fn judge_candidate(detection: &mut Detection, outcome: Result<String, String>) -> (res:
    Option<String>)
    requires
        old(detection)@.valid(),
        old(detection)@.tried < old(detection)@.candidates.len(),
    ensures
        final(detection)@.valid(),
        match outcome {
            Ok(directory) => {
                &&& res matches Some(found) && found@ == directory@
                &&& final(detection)@ == old(detection)@
            },
            Err(error) => {
                &&& res is None
                &&& final(detection)@ == old(detection)@.failed(error@)
            },
        },
{
    match outcome {
        Ok(directory) => Some(directory),
        Err(error) => {
            assert(detection.tried < detection.candidates.len());
            detection.errors.append(error.as_str());
            detection.tried += 1;
            None
        },
    }
}

/// What is done when the cache directory was not found.
#[derive(Debug)]
pub enum DetectionEnd {
    /// The given directory goes into the configuration, and the search starts again.
    Restart(String),
    /// The program ends with the given words.
    Fail(String),
}

/// Decides what is done when all directories were tried in vain. `picked` is the
/// directory that the user picked and that was found to be one; none where the user
/// would not pick one.
pub fn end_detection(detection: &Detection, picked: Option<String>) -> (res: DetectionEnd)
    ensures
        match picked {
            Some(directory) => res matches DetectionEnd::Restart(path) && path@ == directory@,
            None => res matches DetectionEnd::Fail(words) && words@
                == "Directory detection failed!"@ + detection@.errors,
        },
{
    match picked {
        Some(directory) => DetectionEnd::Restart(directory),
        None => DetectionEnd::Fail(
            "Directory detection failed!".to_owned().concat(detection.errors.as_str()),
        ),
    }
}

/// What is to be done for a temporary directory.
#[derive(Debug)]
pub enum TempDirectory {
    /// It is at this path, which is empty where there is none.
    At(String),
    /// It is to be created.
    Create,
}

/// Where the temporary directory is, or nothing where it is to be created. The path is
/// empty where there is none and none is asked for.
pub open spec fn temp_path(state: SessionView, create_directory: bool) -> Option<Seq<char>> {
    match state.temp_directory {
        Some(path) => Some(path),
        None => if create_directory {
            None
        } else {
            Some(Seq::empty())
        },
    }
}

/// Tells where the temporary directory is; where there is none, it is to be created only
/// if asked.
pub fn get_temp_dir(session: &Session, create_directory: bool) -> (res: TempDirectory)
    ensures
        match temp_path(session@, create_directory) {
            Some(path) => res matches TempDirectory::At(at) && at@ == path,
            None => res is Create,
        },
{
    match &session.temp_directory {
        Some(path) => TempDirectory::At(path.clone()),
        None => if create_directory {
            TempDirectory::Create
        } else {
            TempDirectory::At(String::new())
        },
    }
}

/// Takes up that the temporary directory was created at `path`. Returns the path.
pub fn temp_dir_created(session: &mut Session, path: String) -> (res: String)
    ensures
        final(session)@ == old(session)@.with_temp_directory(path@),
        res@ == path@,
{
    session.temp_directory = Some(path.clone());
    path
}

/// The directory to delete when the program ends.
pub open spec fn to_delete(state: SessionView) -> Option<Seq<char>> {
    match state.temp_directory {
        Some(path) => if path.len() > 0 && path != "/"@ {
            Some(path)
        } else {
            None
        },
        None => None,
    }
}

/// The directory to delete when the program ends: the temporary directory, unless there
/// is none or it is the root of the file system.
pub fn clean_up(session: &Session) -> (res: Option<String>)
    ensures
        optional_text(res) == to_delete(session@),
{
    match get_temp_dir(session, false) {
        TempDirectory::At(path) => if path.as_str().is_empty() || same_text(
            path.as_str(),
            "/",
        ) {
            None
        } else {
            Some(path)
        },
        TempDirectory::Create => None,
    }
}

/// There is one temporary directory: once it was created it is the one that is used, and
/// it is deleted in the end. What is deleted is never the root of the file system.
pub proof fn temp_directory_is_kept(state: SessionView, path: Seq<char>, create_directory: bool)
    ensures
        temp_path(state.with_temp_directory(path), create_directory) == Some(path),
        path.len() > 0 && path != "/"@ ==> to_delete(state.with_temp_directory(path)) == Some(
            path,
        ),
        to_delete(state) matches Some(deleted) ==> deleted.len() > 0 && deleted != "/"@,
{
}

/// Where there is nothing to replace, replacing changes nothing.
pub proof fn nothing_to_replace(text: Seq<char>, from: Seq<char>, to: Seq<char>)
    requires
        from.len() > 0,
        !occurs(text, from),
    ensures
        replaced(text, from, to) == text,
    decreases text.len(),
{
    if text.len() > 0 {
        let rest = text.skip(1);
        if occurs(rest, from) {
            let at = choose|at: int| occurs_at(rest, from, at);
            assert(text.subrange(at + 1, at + 1 + from.len()) =~= rest.subrange(
                at,
                at + from.len(),
            ));
            assert(occurs_at(text, from, at + 1));
        }
        nothing_to_replace(rest, from, to);
        assert(seq![text[0]] + rest =~= text);
    }
}

/// A path without markers is resolved to itself, whoever the user is.
pub proof fn path_without_markers_is_kept(directory: Seq<char>, user: Seq<char>)
    requires
        has_no_marker(directory),
    ensures
        resolved_path(directory, user) == directory,
{
    reveal_strlit("%Temp%");
    reveal_strlit("%localappdata%");
    reveal_strlit("~");
    nothing_to_replace(directory, "%Temp%"@, windows_temp(user));
    nothing_to_replace(directory, "%localappdata%"@, windows_local_data(user));
    nothing_to_replace(directory, "~"@, linux_home(user));
}

/// A path under `~` that holds no other marker is resolved to the same path under the
/// home directory of the user.
pub proof fn home_path_is_under_home(rest: Seq<char>, user: Seq<char>)
    requires
        has_no_marker(rest),
    ensures
        resolved_path("~"@ + rest, user) == linux_home(user) + rest,
{
    reveal_strlit("%Temp%");
    reveal_strlit("%localappdata%");
    reveal_strlit("~");
    let path = "~"@ + rest;
    assert(path.skip(1) =~= rest);
    if occurs(path, "%Temp%"@) {
        marker_is_in_the_rest(path, "%Temp%"@);
    }
    if occurs(path, "%localappdata%"@) {
        marker_is_in_the_rest(path, "%localappdata%"@);
    }
    nothing_to_replace(path, "%Temp%"@, windows_temp(user));
    nothing_to_replace(path, "%localappdata%"@, windows_local_data(user));
    assert(path.subrange(0, 1) =~= "~"@);
    assert(occurs_at(path, "~"@, 0));
    nothing_to_replace(rest, "~"@, linux_home(user));
}

/// A marker that does not start as the path does stands in the rest of the path.
proof fn marker_is_in_the_rest(path: Seq<char>, marker: Seq<char>)
    requires
        path.len() > 0,
        marker.len() > 0,
        path[0] != marker[0],
        occurs(path, marker),
    ensures
        occurs(path.skip(1), marker),
{
    let at = choose|at: int| occurs_at(path, marker, at);
    assert(path.subrange(at, at + marker.len())[0] == path[at]);
    assert(path.skip(1).subrange(at - 1, at - 1 + marker.len()) =~= path.subrange(
        at,
        at + marker.len(),
    ));
    assert(occurs_at(path.skip(1), marker, at - 1));
}

/// A resolved path holds no `~`, unless the name of the user does.
pub proof fn resolved_path_has_no_tilde(directory: Seq<char>, user: Seq<char>)
    requires
        !user.contains('~'),
    ensures
        !resolved_path(directory, user).contains('~'),
{
    reveal_strlit("~");
    reveal_strlit("/home/");
    let home = linux_home(user);
    assert(!home.contains('~')) by {
        if home.contains('~') {
            let i = choose|i: int| 0 <= i < home.len() && home[i] == '~';
            if i >= "/home/"@.len() {
                assert(user[i - "/home/"@.len()] == '~');
            }
        }
    }
    let temp = replaced(directory, "%Temp%"@, windows_temp(user));
    let local = replaced(temp, "%localappdata%"@, windows_local_data(user));
    assert("~"@ =~= seq!['~']);
    replaced_character_is_gone(local, '~', home);
}

/// A character that was replaced by a text without it is gone.
proof fn replaced_character_is_gone(text: Seq<char>, c: char, to: Seq<char>)
    requires
        !to.contains(c),
    ensures
        !replaced(text, seq![c], to).contains(c),
    decreases text.len(),
{
    let from = seq![c];
    if text.len() > 0 {
        let out = replaced(text, from, to);
        assert(text.subrange(0, 1) =~= seq![text[0]]);
        assert(occurs_at(text, from, 0) <==> text[0] == c) by {
            assert(seq![text[0]][0] == text[0] && from[0] == c);
        }
        let rest = replaced(text.skip(1), from, to);
        replaced_character_is_gone(text.skip(1), c, to);
        let head = if text[0] == c { to } else { seq![text[0]] };
        assert(out == head + rest);
        if out.contains(c) {
            let i = choose|i: int| 0 <= i < out.len() && out[i] == c;
            if i < head.len() {
                assert(head[i] == c);
            } else {
                assert(rest[i - head.len()] == c);
            }
        }
    }
}

/// A resolved path has none of the markers, and is resolved to itself, unless the name of
/// the user holds a character by which a marker starts.
pub proof fn resolved_path_is_resolved(directory: Seq<char>, user: Seq<char>)
    requires
        !user.contains('~'),
        !user.contains('%'),
    ensures
        has_no_marker(resolved_path(directory, user)),
        resolved_path(resolved_path(directory, user), user) == resolved_path(directory, user),
{
    reveal_strlit("%Temp%");
    reveal_strlit("%localappdata%");
    reveal_strlit("~");
    reveal_strlit("C:\\Users\\");
    reveal_strlit("\\AppData\\Local\\Temp");
    reveal_strlit("\\AppData\\Local");
    reveal_strlit("/home/");
    let (for_temp, for_local, home) = (
        windows_temp(user),
        windows_local_data(user),
        linux_home(user),
    );
    joined_without("C:\\Users\\"@, user, '%');
    joined_without("C:\\Users\\"@ + user, "\\AppData\\Local\\Temp"@, '%');
    joined_without("C:\\Users\\"@ + user, "\\AppData\\Local"@, '%');
    joined_without("/home/"@, user, '%');
    joined_without("/home/"@, user, '~');
    let temp = replaced(directory, "%Temp%"@, for_temp);
    let local = replaced(temp, "%localappdata%"@, for_local);
    let path = replaced(local, "~"@, home);
    assert("%Temp%"@[0] == '%' && "%localappdata%"@[0] == '%' && "~"@[0] == '~');
    assert(for_temp[0] == 'C' && for_local[0] == 'C' && home[0] == '/');
    replaced_text_is_gone(directory, "%Temp%"@, for_temp);
    replacing_brings_in_no_marker(temp, "%localappdata%"@, for_local, "%Temp%"@);
    replaced_text_is_gone(temp, "%localappdata%"@, for_local);
    replacing_brings_in_no_marker(local, "~"@, home, "%Temp%"@);
    replacing_brings_in_no_marker(local, "~"@, home, "%localappdata%"@);
    replaced_text_is_gone(local, "~"@, home);
    path_without_markers_is_kept(path, user);
}

proof fn joined_without(a: Seq<char>, b: Seq<char>, c: char)
    requires
        !a.contains(c),
        !b.contains(c),
    ensures
        !(a + b).contains(c),
{
    if (a + b).contains(c) {
        let i = choose|i: int| 0 <= i < (a + b).len() && (a + b)[i] == c;
        if i < a.len() {
            assert(a[i] == c);
        } else {
            assert(b[i - a.len()] == c);
        }
    }
}

/// A text that has nothing of the start of `to`, and with which the outcome of replacing
/// starts, is what the text starts with.
proof fn start_is_kept(text: Seq<char>, from: Seq<char>, to: Seq<char>, start: Seq<char>)
    requires
        from.len() > 0,
        to.len() > 0,
        !start.contains(to[0]),
        occurs_at(replaced(text, from, to), start, 0),
    ensures
        occurs_at(text, start, 0),
    decreases text.len(),
{
    if start.len() == 0 {
        assert(text.subrange(0, 0) =~= start);
    } else {
        let out = replaced(text, from, to);
        assert(out.subrange(0, start.len() as int)[0] == out[0]);
        assert(start.contains(start[0]));
        let rest = text.skip(1);
        let later = start.skip(1);
        if later.contains(to[0]) {
            let i = choose|i: int| 0 <= i < later.len() && later[i] == to[0];
            assert(start[i + 1] == to[0]);
        }
        assert(replaced(rest, from, to) =~= out.skip(1));
        assert(out.skip(1).subrange(0, later.len() as int) =~= out.subrange(
            0,
            start.len() as int,
        ).skip(1));
        start_is_kept(rest, from, to, later);
        assert(text.subrange(0, start.len() as int) =~= seq![text[0]] + rest.subrange(
            0,
            later.len() as int,
        ));
        assert(seq![start[0]] + later =~= start);
    }
}

/// Replacing brings in no text that starts with a character that `to` lacks, and that lacks
/// the first character of `to`.
proof fn replacing_brings_in_no_marker(
    text: Seq<char>,
    from: Seq<char>,
    to: Seq<char>,
    marker: Seq<char>,
)
    requires
        from.len() > 0,
        to.len() > 0,
        marker.len() > 0,
        !marker.contains(to[0]),
        !to.contains(marker[0]),
        !occurs(text, marker),
    ensures
        !occurs(replaced(text, from, to), marker),
    decreases text.len(),
{
    let out = replaced(text, from, to);
    if occurs(out, marker) {
        let at = choose|at: int| occurs_at(out, marker, at);
        assert(out.subrange(at, at + marker.len())[0] == out[at]);
        let hit = occurs_at(text, from, 0);
        let size = if hit { from.len() as int } else { 1 };
        let added = if hit { to.len() as int } else { 1 };
        let rest = text.skip(size);
        if at == 0 && !hit {
            start_is_kept(text, from, to, marker);
        } else {
            if at < added {
                assert(to[at] == marker[0]);
            }
            let later = replaced(rest, from, to);
            assert(later.subrange(at - added, at - added + marker.len()) =~= out.subrange(
                at,
                at + marker.len(),
            ));
            assert(occurs_at(later, marker, at - added));
            if occurs(rest, marker) {
                let j = choose|j: int| occurs_at(rest, marker, j);
                assert(text.subrange(j + size, j + size + marker.len()) =~= rest.subrange(
                    j,
                    j + marker.len(),
                ));
                assert(occurs_at(text, marker, j + size));
            }
            replacing_brings_in_no_marker(rest, from, to, marker);
        }
    }
}

/// A text that was replaced is gone, if `to` lacks its first character, and it lacks the
/// first character of `to`.
proof fn replaced_text_is_gone(text: Seq<char>, from: Seq<char>, to: Seq<char>)
    requires
        from.len() > 0,
        to.len() > 0,
        !from.contains(to[0]),
        !to.contains(from[0]),
    ensures
        !occurs(replaced(text, from, to), from),
    decreases text.len(),
{
    let out = replaced(text, from, to);
    if occurs(out, from) {
        let at = choose|at: int| occurs_at(out, from, at);
        assert(out.subrange(at, at + from.len())[0] == out[at]);
        let hit = occurs_at(text, from, 0);
        let size = if hit { from.len() as int } else { 1 };
        let added = if hit { to.len() as int } else { 1 };
        let rest = text.skip(size);
        if at == 0 && !hit {
            start_is_kept(text, from, to, from);
        } else {
            if at < added {
                assert(to[at] == from[0]);
            }
            let later = replaced(rest, from, to);
            assert(later.subrange(at - added, at - added + from.len()) =~= out.subrange(
                at,
                at + from.len(),
            ));
            assert(occurs_at(later, from, at - added));
            replaced_text_is_gone(rest, from, to);
        }
    }
}

/// The outcome of the search: the directory that is found, or the errors of all that
/// were tried. `judge` tells what is said of each directory.
pub open spec fn detected(
    detection: DetectionView,
    judge: spec_fn(Seq<char>) -> Result<Seq<char>, Seq<char>>,
) -> Result<Seq<char>, Seq<char>>
    decreases detection.candidates.len() - detection.tried,
{
    if !(0 <= detection.tried < detection.candidates.len()) {
        Err(detection.errors)
    } else {
        match judge(detection.candidates[detection.tried]) {
            Ok(directory) => Ok(directory),
            Err(error) => detected(detection.failed(error), judge),
        }
    }
}

/// The first of the directories that is accepted is the one that is found.
pub proof fn first_accepted_directory_is_found(
    detection: DetectionView,
    judge: spec_fn(Seq<char>) -> Result<Seq<char>, Seq<char>>,
    i: int,
)
    requires
        detection.valid(),
        detection.tried <= i < detection.candidates.len(),
        judge(detection.candidates[i]) is Ok,
        forall|j: int|
            detection.tried <= j < i ==> judge(#[trigger] detection.candidates[j]) is Err,
    ensures
        detected(detection, judge) == judge(detection.candidates[i]),
    decreases i - detection.tried,
{
    if detection.tried < i {
        let error = judge(detection.candidates[detection.tried])->Err_0;
        first_accepted_directory_is_found(detection.failed(error), judge, i);
    }
}

/// A configured directory that is accepted is found, whatever is said of the others.
pub proof fn configured_directory_is_preferred(
    configured: Seq<char>,
    judge: spec_fn(Seq<char>) -> Result<Seq<char>, Seq<char>>,
)
    requires
        judge(replaced(configured, "\""@, ""@)) is Ok,
    ensures
        detected(detection_start(Some(configured)), judge) == judge(
            replaced(configured, "\""@, ""@),
        ),
{
    assert(candidates(Some(configured))[0] == replaced(configured, "\""@, ""@));
    first_accepted_directory_is_found(detection_start(Some(configured)), judge, 0);
}

/// Where no directory is accepted, what is told are the reasons of all of them, in order.
pub proof fn failed_search_tells_all_errors(
    configured: Option<Seq<char>>,
    judge: spec_fn(Seq<char>) -> Result<Seq<char>, Seq<char>>,
)
    requires
        forall|i: int|
            0 <= i < candidates(configured).len() ==> judge(
                #[trigger] candidates(configured)[i],
            ) is Err,
    ensures
        detected(detection_start(configured), judge) == Err::<Seq<char>, Seq<char>>(
            errors_from(candidates(configured), judge, 0),
        ),
{
    errors_add_up(detection_start(configured), judge);
    let all = errors_from(candidates(configured), judge, 0);
    assert(Seq::<char>::empty() + all =~= all);
}

/// What is said of the directories from the position `from` on, in order.
pub open spec fn errors_from(
    directories: Seq<Seq<char>>,
    judge: spec_fn(Seq<char>) -> Result<Seq<char>, Seq<char>>,
    from: int,
) -> Seq<char>
    decreases directories.len() - from,
{
    if !(0 <= from < directories.len()) {
        Seq::empty()
    } else {
        judge(directories[from])->Err_0 + errors_from(directories, judge, from + 1)
    }
}

proof fn errors_add_up(
    detection: DetectionView,
    judge: spec_fn(Seq<char>) -> Result<Seq<char>, Seq<char>>,
)
    requires
        detection.valid(),
        forall|i: int|
            detection.tried <= i < detection.candidates.len() ==> judge(
                #[trigger] detection.candidates[i],
            ) is Err,
    ensures
        detected(detection, judge) == Err::<Seq<char>, Seq<char>>(
            detection.errors + errors_from(detection.candidates, judge, detection.tried),
        ),
    decreases detection.candidates.len() - detection.tried,
{
    if detection.tried < detection.candidates.len() {
        let error = judge(detection.candidates[detection.tried])->Err_0;
        errors_add_up(detection.failed(error), judge);
        let later = errors_from(detection.candidates, judge, detection.tried + 1);
        assert(detection.errors + error + later =~= detection.errors + (error + later));
    } else {
        assert(detection.errors + Seq::<char>::empty() =~= detection.errors);
    }
}

/// The directories that stand for the markers.
pub proof fn markers_stand_for_directories_of_the_user(user: Seq<char>)
    ensures
        windows_temp(user) == "C:\\Users\\"@ + user + "\\AppData\\Local\\Temp"@,
        windows_local_data(user) == "C:\\Users\\"@ + user + "\\AppData\\Local"@,
        linux_home(user) == "/home/"@ + user,
{
}

/// A marker is replaced by the directory of the user wherever it stands in a path, and what
/// stands before and behind it is kept.
pub proof fn marker_is_replaced_in_its_place(a: Seq<char>, b: Seq<char>, user: Seq<char>)
    requires
        !a.contains('%'),
        !a.contains('~'),
        !b.contains('%'),
        !b.contains('~'),
        !user.contains('%'),
        !user.contains('~'),
    ensures
        resolved_path(a + "~"@ + b, user) == a + ("/home/"@ + user) + b,
        resolved_path(a + "%Temp%"@ + b, user) == a + ("C:\\Users\\"@ + user
            + "\\AppData\\Local\\Temp"@) + b,
        resolved_path(a + "%localappdata%"@ + b, user) == a + ("C:\\Users\\"@ + user
            + "\\AppData\\Local"@) + b,
        resolved_path(a, user) == a,
{
    reveal_strlit("%Temp%");
    reveal_strlit("%localappdata%");
    reveal_strlit("~");
    reveal_strlit("C:\\Users\\");
    reveal_strlit("\\AppData\\Local\\Temp");
    reveal_strlit("\\AppData\\Local");
    reveal_strlit("/home/");
    let (for_temp, for_local, home) = (
        windows_temp(user),
        windows_local_data(user),
        linux_home(user),
    );
    assert("%Temp%"@[0] == '%' && "%localappdata%"@[0] == '%' && "~"@[0] == '~');
    path_without_signs_has_no_marker(a);
    path_without_signs_has_no_marker(b);
    path_without_markers_is_kept(a, user);
    marker_at(a, "~"@, b, home);
    marker_at(a, "%Temp%"@, b, for_temp);
    marker_at(a, "%localappdata%"@, b, for_local);
    // A path with a tilde and no percent sign.
    joined_without(a, "~"@, '%');
    joined_without(a + "~"@, b, '%');
    let tilde = a + "~"@ + b;
    no_marker_without_its_sign(tilde, "%Temp%"@);
    no_marker_without_its_sign(tilde, "%localappdata%"@);
    nothing_to_replace(tilde, "%Temp%"@, for_temp);
    nothing_to_replace(tilde, "%localappdata%"@, for_local);
    // What replaces the other markers holds none.
    joined_without("C:\\Users\\"@, user, '%');
    joined_without("C:\\Users\\"@, user, '~');
    joined_without("C:\\Users\\"@ + user, "\\AppData\\Local\\Temp"@, '%');
    joined_without("C:\\Users\\"@ + user, "\\AppData\\Local\\Temp"@, '~');
    joined_without("C:\\Users\\"@ + user, "\\AppData\\Local"@, '%');
    joined_without("C:\\Users\\"@ + user, "\\AppData\\Local"@, '~');
    joined_without(a, for_temp, '%');
    joined_without(a, for_temp, '~');
    joined_without(a + for_temp, b, '%');
    joined_without(a + for_temp, b, '~');
    joined_without(a, for_local, '%');
    joined_without(a, for_local, '~');
    joined_without(a + for_local, b, '%');
    joined_without(a + for_local, b, '~');
    path_without_signs_has_no_marker(a + for_temp + b);
    path_without_signs_has_no_marker(a + for_local + b);
    nothing_to_replace(a + for_temp + b, "%localappdata%"@, for_local);
    nothing_to_replace(a + for_temp + b, "~"@, home);
    nothing_to_replace(a + for_local + b, "~"@, home);
    // The longer marker is not the shorter one.
    let local = a + "%localappdata%"@ + b;
    assert(!occurs(local, "%Temp%"@)) by {
        if occurs(local, "%Temp%"@) {
            let at = choose|at: int| occurs_at(local, "%Temp%"@, at);
            let piece = local.subrange(at, at + 6);
            assert(piece[0] == local[at] && piece[1] == local[at + 1]);
            assert("%Temp%"@[1] == 'T');
            if at < a.len() {
                assert(a[at] == '%');
            } else if at >= a.len() + "%localappdata%"@.len() {
                assert(b[at - a.len() - "%localappdata%"@.len()] == '%');
            } else if at == a.len() {
                assert(local[at + 1] == "%localappdata%"@[1]);
            } else {
                let k = at - a.len();
                assert(local[at] == "%localappdata%"@[k]);
                assert(k == 13);
                assert(piece[5] == local[at + 5]);
                assert(local[at + 5] == b[4]);
                assert(b.contains(b[4]));
            }
        }
    }
    nothing_to_replace(local, "%Temp%"@, for_temp);
}

proof fn no_marker_without_its_sign(path: Seq<char>, marker: Seq<char>)
    requires
        marker.len() > 0,
        !path.contains(marker[0]),
    ensures
        !occurs(path, marker),
{
    if occurs(path, marker) {
        let at = choose|at: int| occurs_at(path, marker, at);
        assert(path.subrange(at, at + marker.len())[0] == path[at]);
    }
}

proof fn path_without_signs_has_no_marker(path: Seq<char>)
    requires
        !path.contains('%'),
        !path.contains('~'),
    ensures
        has_no_marker(path),
{
    reveal_strlit("%Temp%");
    reveal_strlit("%localappdata%");
    reveal_strlit("~");
    assert("%Temp%"@[0] == '%' && "%localappdata%"@[0] == '%' && "~"@[0] == '~');
    no_marker_without_its_sign(path, "%Temp%"@);
    no_marker_without_its_sign(path, "%localappdata%"@);
    no_marker_without_its_sign(path, "~"@);
}

/// The only marker of a path is replaced.
proof fn marker_at(a: Seq<char>, marker: Seq<char>, b: Seq<char>, to: Seq<char>)
    requires
        marker.len() > 0,
        !a.contains(marker[0]),
        !b.contains(marker[0]),
    ensures
        replaced(a + marker + b, marker, to) == a + to + b,
{
    let path = a + marker + b;
    assert forall|i: int| 0 <= i < a.len() implies #[trigger] (a + marker + b).subrange(
        i,
        i + marker.len(),
    ) != marker by {
        assert(path.subrange(i, i + marker.len())[0] == a[i]);
        assert(a.contains(a[i]));
    }
    first_occurrence_is_replaced(a, marker, b, to);
    no_marker_without_its_sign(b, marker);
    nothing_to_replace(b, marker, to);
}

/// The markers are replaced one after the other, each by what it stands for.
pub proof fn markers_are_replaced_in_turn(directory: Seq<char>, user: Seq<char>)
    ensures
        resolved_path(directory, user) == replaced(
            replaced(
                replaced(
                    directory,
                    "%Temp%"@,
                    "C:\\Users\\"@ + user + "\\AppData\\Local\\Temp"@,
                ),
                "%localappdata%"@,
                "C:\\Users\\"@ + user + "\\AppData\\Local"@,
            ),
            "~"@,
            "/home/"@ + user,
        ),
{
}

/// The cache is looked for in the configured directory, of which nothing but the quotes is
/// left out, then in that of the client on Windows, then in that of the client on Linux.
pub proof fn directories_are_tried_in_order(configured: Seq<char>)
    ensures
        candidates(None) == seq![
            "%Temp%\\Roblox"@,
            "~/.var/app/org.vinegarhq.Sober/cache/sober"@,
        ],
        candidates(Some(configured)) == seq![
            configured.filter(|c: char| c != '"'),
            "%Temp%\\Roblox"@,
            "~/.var/app/org.vinegarhq.Sober/cache/sober"@,
        ],
{
    quotes_are_left_out(configured);
    assert(candidates(Some(configured)) =~= seq![
        configured.filter(|c: char| c != '"'),
        "%Temp%\\Roblox"@,
        "~/.var/app/org.vinegarhq.Sober/cache/sober"@,
    ]);
}

proof fn quotes_are_left_out(text: Seq<char>)
    ensures
        replaced(text, "\""@, ""@) == text.filter(|c: char| c != '"'),
    decreases text.len(),
{
    reveal(Seq::filter);
    reveal_strlit("\"");
    reveal_strlit("");
    let kept = |c: char| c != '"';
    assert("\""@ =~= seq!['"']);
    assert(""@ =~= Seq::empty());
    if text.len() > 0 {
        let head = seq![text[0]];
        let rest = text.skip(1);
        assert(text =~= head + rest);
        assert(text.subrange(0, 1) =~= head);
        assert(occurs_at(text, "\""@, 0) <==> text[0] == '"') by {
            assert(head[0] == text[0] && "\""@[0] == '"');
        }
        quotes_are_left_out(rest);
        Seq::filter_distributes_over_add(head, rest, kept);
        assert(head.drop_last() =~= Seq::empty());
        assert(head.drop_last().filter(kept) =~= Seq::empty());
        assert(head.filter(kept) =~= if text[0] != '"' {
            head
        } else {
            Seq::empty()
        });
        assert(replaced(text, "\""@, ""@) =~= head.filter(kept) + rest.filter(kept));
    } else {
        assert(text.filter(kept) =~= text);
    }
}

/// The search starts with all directories untried, and one that was tried in vain adds its
/// reason to those before.
pub proof fn search_keeps_every_reason(
    configured: Option<Seq<char>>,
    detection: DetectionView,
    error: Seq<char>,
    search: Detection,
)
    ensures
        detection_start(configured).candidates == candidates(configured),
        detection_start(configured).tried == 0,
        detection_start(configured).errors.len() == 0,
        detection.failed(error) == (DetectionView {
            candidates: detection.candidates,
            tried: detection.tried + 1,
            errors: detection.errors + error,
        }),
        detection.valid() <==> 0 <= detection.tried <= detection.candidates.len(),
        search@.candidates == texts(search.candidates@),
        search@.tried == search.tried,
        search@.errors == search.errors@,
{
}

/// Where there is no temporary directory, it is created if asked for, and else the path is
/// empty and nothing is deleted. Where there is one, it is deleted unless its path is empty
/// or the root.
pub proof fn temp_directory_is_created_on_demand(state: SessionView, path: Seq<char>)
    ensures
        state.temp_directory is None ==> temp_path(state, true) is None,
        state.temp_directory is None ==> temp_path(state, false) == Some(Seq::<char>::empty()),
        state.temp_directory is None ==> to_delete(state) is None,
        state.temp_directory == Some(path) ==> temp_path(state, true) == Some(path),
        state.temp_directory == Some(path) ==> temp_path(state, false) == Some(path),
        state.temp_directory == Some(path) && path.len() > 0 && path != seq!['/'] ==> to_delete(
            state,
        ) == Some(path),
        state.temp_directory == Some(path) && (path.len() == 0 || path == seq!['/'])
            ==> to_delete(state) is None,
{
    reveal_strlit("/");
    assert("/"@ =~= seq!['/']);
}

/// A path has no marker if and only if none of them stands anywhere in it.
pub proof fn marker_counts_wherever_it_stands(directory: Seq<char>)
    ensures
        has_no_marker(directory) <==> {
            &&& forall|a: Seq<char>, b: Seq<char>| directory != #[trigger] (a + "%Temp%"@ + b)
            &&& forall|a: Seq<char>, b: Seq<char>|
                directory != #[trigger] (a + "%localappdata%"@ + b)
            &&& forall|a: Seq<char>, b: Seq<char>| directory != #[trigger] (a + "~"@ + b)
        },
{
    part_stands_between_others(directory, "%Temp%"@);
    part_stands_between_others(directory, "%localappdata%"@);
    part_stands_between_others(directory, "~"@);
}

/// Where no directory is accepted, the reason of each of them is told in full, one behind
/// the other.
pub proof fn failed_search_tells_each_reason(
    configured: Seq<char>,
    judge: spec_fn(Seq<char>) -> Result<Seq<char>, Seq<char>>,
    of_configured: Seq<char>,
    on_windows: Seq<char>,
    on_linux: Seq<char>,
)
    requires
        judge("%Temp%\\Roblox"@) == Err::<Seq<char>, Seq<char>>(on_windows),
        judge("~/.var/app/org.vinegarhq.Sober/cache/sober"@) == Err::<Seq<char>, Seq<char>>(
            on_linux,
        ),
        judge(configured.filter(|c: char| c != '"')) == Err::<Seq<char>, Seq<char>>(
            of_configured,
        ),
    ensures
        detected(detection_start(None), judge) == Err::<Seq<char>, Seq<char>>(
            on_windows + on_linux,
        ),
        detected(detection_start(Some(configured)), judge) == Err::<Seq<char>, Seq<char>>(
            of_configured + on_windows + on_linux,
        ),
{
    reveal_with_fuel(detected, 4);
    directories_are_tried_in_order(configured);
    let none = detection_start(None);
    let some = detection_start(Some(configured));
    assert(none.candidates.len() == 2 && some.candidates.len() == 3);
    assert(Seq::<char>::empty() + on_windows + on_linux =~= on_windows + on_linux);
    assert(Seq::<char>::empty() + of_configured + on_windows + on_linux =~= of_configured
        + on_windows + on_linux);
}

} // verus!
