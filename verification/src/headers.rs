//! The categories of assets, the headers by which a file is told to belong to one, and
//! what of a file is the asset itself.

use vstd::prelude::*;
use vstd::utf8::{
    encode_utf8, encode_utf8_decode_utf8, is_ascii_chars, is_ascii_chars_encode_utf8,
};
use crate::text::{
    occurs, occurs_at, part_stands_between_others, part_stands_here, part_that_is_no_piece,
    same_bytes, same_text, text_pairs, texts,
};

verus! {

/// How many bytes of a file are read to find a header when files are listed.
pub const HEADER_BYTES: usize = 2048;

/// The mark of an MP3 file with tags.
pub open spec fn id3_mark() -> Seq<u8> {
    seq![0x49u8, 0x44u8, 0x33u8]
}

/// The start of the media type that stands in a cached MP3 file.
pub open spec fn binary_mark() -> Seq<u8> {
    seq![0x62u8, 0x69u8, 0x6eu8, 0x61u8, 0x72u8, 0x79u8, 0x2fu8]
}

/// `at` is the first position at which `needle` stands in `haystack`.
pub open spec fn first_at(haystack: Seq<u8>, needle: Seq<u8>, at: int) -> bool {
    &&& occurs_at(haystack, needle, at)
    &&& forall|j: int| 0 <= j < at ==> !occurs_at(haystack, needle, j)
}

/// The first position at which `needle` stands in `haystack`; none for an empty needle.
pub open spec fn first_occurrence(haystack: Seq<u8>, needle: Seq<u8>) -> Option<int> {
    if needle.len() > 0 && occurs(haystack, needle) {
        Some(choose|at: int| first_at(haystack, needle, at))
    } else {
        None
    }
}

/// Whether `haystack` is taken to hold the header `needle`: the needle is not empty and
/// stands in the haystack. The MP3 mark counts only beside the media type.
pub open spec fn holds_header(haystack: Seq<u8>, needle: Seq<u8>) -> bool {
    &&& needle.len() > 0
    &&& occurs(haystack, needle)
    &&& needle == id3_mark() ==> occurs(haystack, binary_mark())
}

/// The two headers of a category, in the order in which they are tried. An empty header
/// is never found.
pub open spec fn category_headers(mode: Seq<char>) -> Option<(Seq<char>, Seq<char>)> {
    if mode == "sounds"@ {
        Some(("OggS"@, "ID3"@))
    } else if mode == "images"@ {
        Some(("PNG"@, "WEBP"@))
    } else if mode == "ktx-files"@ {
        Some(("KTX"@, ""@))
    } else if mode == "rbxm-files"@ {
        Some(("<roblox!"@, ""@))
    } else {
        None
    }
}

/// The header by which a file belongs to the category `mode`, or `INVALID`.
pub open spec fn found_header(mode: Seq<char>, bytes: Seq<u8>) -> Seq<char> {
    match category_headers(mode) {
        Some((first, second)) => if holds_header(bytes, encode_utf8(first)) {
            first
        } else if holds_header(bytes, encode_utf8(second)) {
            second
        } else {
            "INVALID"@
        },
        None => "INVALID"@,
    }
}

/// How many bytes before its header a file starts.
pub open spec fn header_offset(header: Seq<char>) -> int {
    if header == "PNG"@ || header == "KTX"@ {
        1
    } else if header == "WEBP"@ {
        8
    } else {
        0
    }
}

/// The file starts at or after the first of the given bytes, where its header is found.
pub open spec fn starts_inside(header: Seq<char>, bytes: Seq<u8>) -> bool {
    first_occurrence(bytes, encode_utf8(header)) matches Some(at) ==> header_offset(header) <= at
}

/// The bytes from the start of the file on, or all of them where the header is not found.
pub open spec fn extracted(header: Seq<char>, bytes: Seq<u8>) -> Seq<u8>
    recommends
        starts_inside(header, bytes),
{
    match first_occurrence(bytes, encode_utf8(header)) {
        Some(at) => bytes.skip(at - header_offset(header)),
        None => bytes,
    }
}

/// The file name extension that goes with a header.
pub open spec fn header_extension(header: Seq<char>) -> Option<Seq<char>> {
    if header == "OggS"@ {
        Some(".ogg"@)
    } else if header == "ID3"@ {
        Some(".mp3"@)
    } else if header == "PNG"@ {
        Some(".png"@)
    } else if header == "WEBP"@ {
        Some(".webp"@)
    } else if header == "KTX"@ {
        Some(".ktx"@)
    } else if header == "<roblox!"@ {
        Some(".rbxm"@)
    } else {
        None
    }
}

/// The categories.
pub open spec fn categories() -> Seq<Seq<char>> {
    seq!["sounds"@, "images"@, "ktx-files"@, "rbxm-files"@]
}

/// Each header of the given categories with its category, in order.
pub open spec fn header_pairs(keys: Seq<Seq<char>>) -> Seq<(Seq<char>, Seq<char>)>
    decreases keys.len(),
{
    if keys.len() == 0 {
        Seq::empty()
    } else {
        header_pairs(keys.drop_last()) + match category_headers(keys.last()) {
            Some((first, second)) => seq![(first, keys.last()), (second, keys.last())],
            None => Seq::empty(),
        }
    }
}

/// The file `name` paired with the category of each of the given headers that its bytes
/// hold, in order. Each header comes with its category.
pub open spec fn classified(
    headers: Seq<(Seq<char>, Seq<char>)>,
    name: Seq<char>,
    bytes: Seq<u8>,
) -> Seq<(Seq<char>, Seq<char>)>
    decreases headers.len(),
{
    if headers.len() == 0 {
        Seq::empty()
    } else {
        let before = classified(headers.drop_last(), name, bytes);
        if holds_header(bytes, encode_utf8(headers.last().0)) {
            before.push((name, headers.last().1))
        } else {
            before
        }
    }
}

/// A position at which `needle` stands, and before which it does not, is the first.
pub proof fn first_occurrence_is_unique(haystack: Seq<u8>, needle: Seq<u8>, at: int)
    requires
        needle.len() > 0,
        first_at(haystack, needle, at),
    ensures
        first_occurrence(haystack, needle) == Some(at),
{
    let chosen = choose|k: int| first_at(haystack, needle, k);
    assert(first_at(haystack, needle, chosen));
    if chosen < at {
        assert(!occurs_at(haystack, needle, chosen));
    }
    if at < chosen {
        assert(!occurs_at(haystack, needle, at));
    }
}

/// Where something stands, there is a first position at which it stands.
proof fn first_position(haystack: Seq<u8>, needle: Seq<u8>, at: int) -> (first: int)
    requires
        occurs_at(haystack, needle, at),
    ensures
        first_at(haystack, needle, first),
    decreases at,
{
    if exists|j: int| 0 <= j < at && occurs_at(haystack, needle, j) {
        let j = choose|j: int| 0 <= j < at && occurs_at(haystack, needle, j);
        first_position(haystack, needle, j)
    } else {
        at
    }
}

/// A header that a file holds is found in it by search.
pub proof fn held_header_is_found(haystack: Seq<u8>, needle: Seq<u8>)
    requires
        holds_header(haystack, needle),
    ensures
        first_occurrence(haystack, needle) is Some,
        first_at(haystack, needle, first_occurrence(haystack, needle)->0),
{
    let at = choose|at: int| occurs_at(haystack, needle, at);
    let first = first_position(haystack, needle, at);
    first_occurrence_is_unique(haystack, needle, first);
}

/// Tests whether `needle` stands in `haystack` at position `at`.
fn bytes_at(haystack: &[u8], needle: &[u8], at: usize) -> (res: bool)
    requires
        at <= haystack.len(),
    ensures
        res == occurs_at(haystack@, needle@, at as int),
{
    if needle.len() > haystack.len() - at {
        return false;
    }
    let mut i: usize = 0;
    while i < needle.len()
        invariant
            i <= needle.len(),
            at + needle.len() <= haystack.len(),
            forall|j: int| 0 <= j < i ==> haystack[at + j] == needle[j],
        decreases needle.len() - i,
    {
        if haystack[at + i] != needle[i] {
            assert(haystack@.subrange(at as int, at + needle.len())[i as int]
                != needle@[i as int]);
            return false;
        }
        i += 1;
    }
    assert(haystack@.subrange(at as int, at + needle.len()) =~= needle@);
    true
}

/// Finds the first position at which `needle` stands in `haystack`.
fn position(haystack: &[u8], needle: &[u8]) -> (res: Option<usize>)
    requires
        needle.len() > 0,
    ensures
        match res {
            Some(at) => first_at(haystack@, needle@, at as int),
            None => !occurs(haystack@, needle@),
        },
{
    let mut at: usize = 0;
    while at < haystack.len()
        invariant
            at <= haystack.len(),
            forall|j: int| 0 <= j < at ==> !occurs_at(haystack@, needle@, j),
        decreases haystack.len() - at,
    {
        if bytes_at(haystack, needle, at) {
            return Some(at);
        }
        at += 1;
    }
    None
}

/// Finds the first position of `needle` in `haystack`. An empty needle is not found.
pub fn bytes_search(haystack: Vec<u8>, needle: &[u8]) -> (res: Option<usize>)
    ensures
        match res {
            Some(at) => first_occurrence(haystack@, needle@) == Some(at as int) && first_at(
                haystack@,
                needle@,
                at as int,
            ),
            None => first_occurrence(haystack@, needle@) is None,
        },
{
    search(haystack.as_slice(), needle)
}

/// `bytes_search` on borrowed bytes.
fn search(haystack: &[u8], needle: &[u8]) -> (res: Option<usize>)
    ensures
        match res {
            Some(at) => first_occurrence(haystack@, needle@) == Some(at as int) && first_at(
                haystack@,
                needle@,
                at as int,
            ),
            None => first_occurrence(haystack@, needle@) is None,
        },
{
    if needle.len() == 0 {
        return None;
    }
    let found = position(haystack, needle);
    proof {
        if let Some(at) = found {
            first_occurrence_is_unique(haystack@, needle@, at as int);
        }
    }
    found
}

/// Tests whether `haystack` is taken to hold the header `needle`.
pub fn bytes_contains(haystack: &[u8], needle: &[u8]) -> (res: bool)
    ensures
        res == holds_header(haystack@, needle@),
{
    if needle.len() == 0 {
        return false;
    }
    let id3: [u8; 3] = [0x49, 0x44, 0x33];
    let binary: [u8; 7] = [0x62, 0x69, 0x6e, 0x61, 0x72, 0x79, 0x2f];
    proof {
        assert(id3@ =~= id3_mark());
        assert(binary@ =~= binary_mark());
    }
    let found = position(haystack, needle).is_some();
    if same_bytes(needle, id3.as_slice()) {
        found && position(haystack, binary.as_slice()).is_some()
    } else {
        found
    }
}

/// The two headers of a category.
pub fn mode_headers(mode: &str) -> (res: Option<(&'static str, &'static str)>)
    ensures
        match res {
            Some((first, second)) => category_headers(mode@) == Some((first@, second@)),
            None => category_headers(mode@) is None,
        },
{
    if same_text(mode, "sounds") {
        Some(("OggS", "ID3"))
    } else if same_text(mode, "images") {
        Some(("PNG", "WEBP"))
    } else if same_text(mode, "ktx-files") {
        Some(("KTX", ""))
    } else if same_text(mode, "rbxm-files") {
        Some(("<roblox!", ""))
    } else {
        None
    }
}

/// Finds the header by which a file belongs to the category `mode`; `INVALID` if it
/// does not belong there, or if there is no such category.
pub fn find_header(mode: String, bytes: Vec<u8>) -> (res: String)
    ensures
        res@ == found_header(mode@, bytes@),
{
    header_of(mode.as_str(), bytes.as_slice())
}

/// `find_header` on borrowed values.
pub(crate) fn header_of(mode: &str, bytes: &[u8]) -> (res: String)
    ensures
        res@ == found_header(mode@, bytes@),
{
    if let Some((first, second)) = mode_headers(mode) {
        if bytes_contains(bytes, first.as_bytes()) {
            return first.to_owned();
        }
        if bytes_contains(bytes, second.as_bytes()) {
            return second.to_owned();
        }
    }
    "INVALID".to_owned()
}

/// How many bytes before its header a file starts.
fn offset_of(header: &str) -> (res: usize)
    ensures
        res == header_offset(header@),
{
    if same_text(header, "PNG") || same_text(header, "KTX") {
        1
    } else if same_text(header, "WEBP") {
        8
    } else {
        0
    }
}

/// Tests whether the file starts at or after the first of the given bytes: the
/// condition under which `extract_bytes` may be called.
pub fn can_extract(header: &str, bytes: &Vec<u8>) -> (res: bool)
    ensures
        res == starts_inside(header@, bytes@),
{
    match search(bytes.as_slice(), header.as_bytes()) {
        Some(at) => offset_of(header) <= at,
        None => true,
    }
}

/// Cuts off what stands before the start of the file. Bytes in which the header is not
/// found are returned as they are.
pub fn extract_bytes(header: String, bytes: Vec<u8>) -> (res: Vec<u8>)
    requires
        starts_inside(header@, bytes@),
    ensures
        res@ == extracted(header@, bytes@),
{
    let found = search(bytes.as_slice(), header.as_str().as_bytes());
    match found {
        Some(at) => {
            let start: usize = at - offset_of(header.as_str());
            let mut rest = bytes;
            rest.split_off(start)
        },
        None => bytes,
    }
}

/// The file name extension that goes with a header.
pub fn extension_of(header: &str) -> (res: Option<&'static str>)
    ensures
        match res {
            Some(extension) => header_extension(header@) == Some(extension@),
            None => header_extension(header@) is None,
        },
{
    if same_text(header, "OggS") {
        Some(".ogg")
    } else if same_text(header, "ID3") {
        Some(".mp3")
    } else if same_text(header, "PNG") {
        Some(".png")
    } else if same_text(header, "WEBP") {
        Some(".webp")
    } else if same_text(header, "KTX") {
        Some(".ktx")
    } else if same_text(header, "<roblox!") {
        Some(".rbxm")
    } else {
        None
    }
}

/// The categories of assets.
pub fn get_categories() -> (res: Vec<String>)
    ensures
        texts(res@) == categories(),
{
    let mut res: Vec<String> = Vec::new();
    res.push("sounds".to_owned());
    res.push("images".to_owned());
    res.push("ktx-files".to_owned());
    res.push("rbxm-files".to_owned());
    assert(texts(res@) =~= categories());
    res
}

/// Each header of the given categories with its category. What is no category adds
/// nothing.
pub fn all_headers(keys: &Vec<String>) -> (res: Vec<(String, String)>)
    ensures
        text_pairs(res@) == header_pairs(texts(keys@)),
{
    let mut res: Vec<(String, String)> = Vec::new();
    let mut i: usize = 0;
    while i < keys.len()
        invariant
            i <= keys.len(),
            text_pairs(res@) =~= header_pairs(texts(keys@).take(i as int)),
        decreases keys.len() - i,
    {
        proof {
            let done = texts(keys@).take(i + 1);
            assert(done.drop_last() =~= texts(keys@).take(i as int));
            assert(done.last() == keys@[i as int]@);
        }
        if let Some((first, second)) = mode_headers(keys[i].as_str()) {
            res.push((first.to_owned(), keys[i].clone()));
            res.push((second.to_owned(), keys[i].clone()));
        }
        i += 1;
    }
    assert(texts(keys@).take(i as int) =~= texts(keys@));
    res
}

/// Pairs the file `name` with the category of each of the given headers that its bytes
/// hold.
pub fn classify(headers: &Vec<(String, String)>, name: &str, bytes: &[u8]) -> (res: Vec<
    (String, String),
>)
    ensures
        text_pairs(res@) == classified(text_pairs(headers@), name@, bytes@),
{
    let mut res: Vec<(String, String)> = Vec::new();
    let mut i: usize = 0;
    while i < headers.len()
        invariant
            i <= headers.len(),
            text_pairs(res@) =~= classified(text_pairs(headers@).take(i as int), name@, bytes@),
        decreases headers.len() - i,
    {
        proof {
            let done = text_pairs(headers@).take(i + 1);
            assert(done.drop_last() =~= text_pairs(headers@).take(i as int));
            assert(done.last() == (headers@[i as int].0@, headers@[i as int].1@));
        }
        if bytes_contains(bytes, headers[i].0.as_str().as_bytes()) {
            res.push((name.to_owned(), headers[i].1.clone()));
        }
        i += 1;
    }
    assert(text_pairs(headers@).take(i as int) =~= text_pairs(headers@));
    res
}

/// A file is of a known category if and only if the category is listed.
pub proof fn categories_are_those_with_headers(mode: Seq<char>)
    ensures
        categories().contains(mode) <==> category_headers(mode) is Some,
{
    assert(categories()[0] == "sounds"@);
    assert(categories()[1] == "images"@);
    assert(categories()[2] == "ktx-files"@);
    assert(categories()[3] == "rbxm-files"@);
}

/// The header that is found for a file stands in the file, so that cutting the file at
/// its header never falls back to the whole file.
pub proof fn found_header_stands_in_the_file(mode: Seq<char>, bytes: Seq<u8>)
    requires
        found_header(mode, bytes) != "INVALID"@,
    ensures
        holds_header(bytes, encode_utf8(found_header(mode, bytes))),
        first_occurrence(bytes, encode_utf8(found_header(mode, bytes))) is Some,
{
    held_header_is_found(bytes, encode_utf8(found_header(mode, bytes)));
}

/// The header that is found for a file is one of the two of its category.
pub proof fn found_header_is_of_the_category(mode: Seq<char>, bytes: Seq<u8>)
    requires
        found_header(mode, bytes) != "INVALID"@,
    ensures
        category_headers(mode) matches Some((first, second)) && (found_header(mode, bytes)
            == first || found_header(mode, bytes) == second),
{
}

/// No category has the header `INVALID`, so that this outcome tells that no header was
/// found: neither header of the category stands in the file.
pub proof fn invalid_means_no_header(mode: Seq<char>, bytes: Seq<u8>)
    ensures
        found_header(mode, bytes) == "INVALID"@ <==> (category_headers(mode) matches Some(
            (first, second),
        ) ==> !holds_header(bytes, encode_utf8(first)) && !holds_header(
            bytes,
            encode_utf8(second),
        )),
{
    reveal_strlit("INVALID");
    reveal_strlit("OggS");
    reveal_strlit("ID3");
    reveal_strlit("PNG");
    reveal_strlit("WEBP");
    reveal_strlit("KTX");
    reveal_strlit("<roblox!");
    reveal_strlit("");
    assert("INVALID"@.len() == 7 && "<roblox!"@.len() == 8);
}

/// The MP3 mark is the text `ID3`, and no other text is encoded as that mark.
pub proof fn id3_mark_is_text(text: Seq<char>)
    ensures
        encode_utf8(text) == id3_mark() <==> text == "ID3"@,
{
    reveal_strlit("ID3");
    let id3 = "ID3"@;
    assert(is_ascii_chars(id3));
    is_ascii_chars_encode_utf8(id3);
    assert(encode_utf8(id3) =~= id3_mark());
    encode_utf8_decode_utf8(text);
    encode_utf8_decode_utf8(id3);
}

/// What stands in the end of a file stands in the file.
pub proof fn longer_file_holds_header_at_its_end(file: Seq<u8>, from: int, needle: Seq<u8>)
    requires
        0 <= from <= file.len(),
        holds_header(file.skip(from), needle),
    ensures
        holds_header(file, needle),
{
    occurs_in_whole(file, from, needle);
    if needle == id3_mark() {
        occurs_in_whole(file, from, binary_mark());
    }
}

proof fn occurs_in_whole(file: Seq<u8>, from: int, needle: Seq<u8>)
    requires
        0 <= from <= file.len(),
        occurs(file.skip(from), needle),
    ensures
        occurs(file, needle),
{
    let at = choose|at: int| occurs_at(file.skip(from), needle, at);
    assert(file.subrange(from + at, from + at + needle.len()) =~= file.skip(from).subrange(
        at,
        at + needle.len(),
    ));
    assert(occurs_at(file, needle, from + at));
}

/// What stands at the start of a file stands in the file: a header held by the bytes
/// read first is held by all of them.
pub proof fn longer_file_holds_header(start: Seq<u8>, rest: Seq<u8>, needle: Seq<u8>)
    requires
        holds_header(start, needle),
    ensures
        holds_header(start + rest, needle),
{
    occurs_in_longer(start, rest, needle);
    if needle == id3_mark() {
        occurs_in_longer(start, rest, binary_mark());
    }
}

proof fn occurs_in_longer(start: Seq<u8>, rest: Seq<u8>, needle: Seq<u8>)
    requires
        occurs(start, needle),
    ensures
        occurs(start + rest, needle),
{
    let at = choose|at: int| occurs_at(start, needle, at);
    assert((start + rest).subrange(at, at + needle.len()) =~= start.subrange(
        at,
        at + needle.len(),
    ));
    assert(occurs_at(start + rest, needle, at));
}

/// A file that is put in a category by the bytes read first is still recognised as one
/// of that category when all of it is read.
pub proof fn classified_file_is_recognised(
    keys: Seq<Seq<char>>,
    name: Seq<char>,
    start: Seq<u8>,
    rest: Seq<u8>,
    i: int,
)
    requires
        0 <= i < classified(header_pairs(keys), name, start).len(),
    ensures
        classified(header_pairs(keys), name, start)[i].0 == name,
        keys.contains(classified(header_pairs(keys), name, start)[i].1),
        found_header(classified(header_pairs(keys), name, start)[i].1, start + rest)
            != "INVALID"@,
{
    let pairs = header_pairs(keys);
    let k = classified_comes_from_header(pairs, name, start, i);
    header_pairs_are_headers(keys, k);
    longer_file_holds_header(start, rest, encode_utf8(pairs[k].0));
    invalid_means_no_header(pairs[k].1, start + rest);
}

/// Each pair of `classified` comes from a header that the bytes hold.
proof fn classified_comes_from_header(
    headers: Seq<(Seq<char>, Seq<char>)>,
    name: Seq<char>,
    bytes: Seq<u8>,
    i: int,
) -> (k: int)
    requires
        0 <= i < classified(headers, name, bytes).len(),
    ensures
        0 <= k < headers.len(),
        classified(headers, name, bytes)[i] == (name, headers[k].1),
        holds_header(bytes, encode_utf8(headers[k].0)),
    decreases headers.len(),
{
    let before = classified(headers.drop_last(), name, bytes);
    if i < before.len() {
        classified_comes_from_header(headers.drop_last(), name, bytes, i)
    } else {
        headers.len() - 1
    }
}

/// Each pair of `header_pairs` is a header of a given category with that category.
proof fn header_pairs_are_headers(keys: Seq<Seq<char>>, k: int)
    requires
        0 <= k < header_pairs(keys).len(),
    ensures
        keys.contains(header_pairs(keys)[k].1),
        category_headers(header_pairs(keys)[k].1) matches Some((first, second)) && (
        header_pairs(keys)[k].0 == first || header_pairs(keys)[k].0 == second),
    decreases keys.len(),
{
    let before = header_pairs(keys.drop_last());
    if k < before.len() {
        header_pairs_are_headers(keys.drop_last(), k);
        let j = choose|j: int|
            0 <= j < keys.drop_last().len() && keys.drop_last()[j] == before[k].1;
        assert(keys[j] == before[k].1);
    } else {
        assert(keys[keys.len() - 1] == header_pairs(keys)[k].1);
    }
}

/// The extracted file is the end of the given bytes, and its header stands at the
/// offset of that header.
pub proof fn extracted_file_starts_at_its_header(header: Seq<char>, bytes: Seq<u8>)
    requires
        starts_inside(header, bytes),
        first_occurrence(bytes, encode_utf8(header)) is Some,
    ensures
        extracted(header, bytes).is_suffix_of(bytes),
        first_at(extracted(header, bytes), encode_utf8(header), header_offset(header)),
{
    let needle = encode_utf8(header);
    let start = choose|at: int| occurs_at(bytes, needle, at);
    let first = first_position(bytes, needle, start);
    first_occurrence_is_unique(bytes, needle, first);
    let offset = header_offset(header);
    let file = extracted(header, bytes);
    assert(file.subrange(offset, offset + needle.len()) =~= bytes.subrange(
        first,
        first + needle.len(),
    ));
    assert forall|j: int| 0 <= j < offset implies !occurs_at(file, needle, j) by {
        if occurs_at(file, needle, j) {
            assert(file.subrange(j, j + needle.len()) =~= bytes.subrange(
                first - offset + j,
                first - offset + j + needle.len(),
            ));
            assert(occurs_at(bytes, needle, first - offset + j));
        }
    }
    assert(file =~= bytes.subrange(bytes.len() - file.len(), bytes.len() as int));
}

/// Extracting a file that was extracted already changes nothing.
pub proof fn extracting_twice_is_extracting_once(header: Seq<char>, bytes: Seq<u8>)
    requires
        starts_inside(header, bytes),
    ensures
        starts_inside(header, extracted(header, bytes)),
        extracted(header, extracted(header, bytes)) == extracted(header, bytes),
{
    let needle = encode_utf8(header);
    if first_occurrence(bytes, needle) is Some {
        extracted_file_starts_at_its_header(header, bytes);
        let file = extracted(header, bytes);
        first_occurrence_is_unique(file, needle, header_offset(header));
        assert(file.skip(0) =~= file);
    }
}

/// Every header that is found for a file has an extension, and `INVALID` has none.
pub proof fn found_header_has_an_extension(mode: Seq<char>, bytes: Seq<u8>)
    ensures
        header_extension(found_header(mode, bytes)) is Some <==> found_header(mode, bytes)
            != "INVALID"@,
{
    reveal_strlit("INVALID");
    reveal_strlit("OggS");
    reveal_strlit("ID3");
    reveal_strlit("PNG");
    reveal_strlit("WEBP");
    reveal_strlit("KTX");
    reveal_strlit("<roblox!");
    reveal_strlit("");
    assert("INVALID"@.len() == 7 && "OggS"@.len() == 4 && "ID3"@.len() == 3 && "PNG"@.len() == 3
        && "WEBP"@.len() == 4 && "KTX"@.len() == 3 && "<roblox!"@.len() == 8);
    if found_header(mode, bytes) != "INVALID"@ {
        found_header_stands_in_the_file(mode, bytes);
        assert(encode_utf8(Seq::<char>::empty()).len() == 0);
        if found_header(mode, bytes) == ""@ {
            assert(""@ =~= Seq::<char>::empty());
        }
    }
}

pub(crate) proof fn headers_as_bytes()
    ensures
        encode_utf8("OggS"@) == seq![0x4fu8, 0x67u8, 0x67u8, 0x53u8],
        encode_utf8("ID3"@) == seq![0x49u8, 0x44u8, 0x33u8],
        encode_utf8("PNG"@) == seq![0x50u8, 0x4eu8, 0x47u8],
        encode_utf8("WEBP"@) == seq![0x57u8, 0x45u8, 0x42u8, 0x50u8],
        encode_utf8("KTX"@) == seq![0x4bu8, 0x54u8, 0x58u8],
        encode_utf8("<roblox!"@) == seq![
            0x3cu8,
            0x72u8,
            0x6fu8,
            0x62u8,
            0x6cu8,
            0x6fu8,
            0x78u8,
            0x21u8,
        ],
        encode_utf8(""@).len() == 0,
{
    reveal_strlit("OggS");
    reveal_strlit("ID3");
    reveal_strlit("PNG");
    reveal_strlit("WEBP");
    reveal_strlit("KTX");
    reveal_strlit("<roblox!");
    reveal_strlit("");
    is_ascii_chars_encode_utf8("OggS"@);
    is_ascii_chars_encode_utf8("ID3"@);
    is_ascii_chars_encode_utf8("PNG"@);
    is_ascii_chars_encode_utf8("WEBP"@);
    is_ascii_chars_encode_utf8("KTX"@);
    is_ascii_chars_encode_utf8("<roblox!"@);
    is_ascii_chars_encode_utf8(""@);
    assert(encode_utf8("OggS"@) =~= seq![0x4fu8, 0x67u8, 0x67u8, 0x53u8]);
    assert(encode_utf8("ID3"@) =~= seq![0x49u8, 0x44u8, 0x33u8]);
    assert(encode_utf8("PNG"@) =~= seq![0x50u8, 0x4eu8, 0x47u8]);
    assert(encode_utf8("WEBP"@) =~= seq![0x57u8, 0x45u8, 0x42u8, 0x50u8]);
    assert(encode_utf8("KTX"@) =~= seq![0x4bu8, 0x54u8, 0x58u8]);
    assert(encode_utf8("<roblox!"@) =~= seq![
        0x3cu8,
        0x72u8,
        0x6fu8,
        0x62u8,
        0x6cu8,
        0x6fu8,
        0x78u8,
        0x21u8,
    ]);
}

/// A header counts wherever it stands in the bytes, but for the mark `ID3`, which counts
/// only where `binary/` stands somewhere too. An empty header never counts.
pub proof fn header_counts_wherever_it_stands(bytes: Seq<u8>, header: Seq<u8>)
    ensures
        ({
            let stands = |part: Seq<u8>|
                exists|a: Seq<u8>, b: Seq<u8>| bytes == #[trigger] (a + part + b);
            let id3 = seq![0x49u8, 0x44u8, 0x33u8];
            let binary = seq![0x62u8, 0x69u8, 0x6eu8, 0x61u8, 0x72u8, 0x79u8, 0x2fu8];
            holds_header(bytes, header) <==> header.len() > 0 && stands(header) && (header == id3
                ==> stands(binary))
        }),
{
    let binary = seq![0x62u8, 0x69u8, 0x6eu8, 0x61u8, 0x72u8, 0x79u8, 0x2fu8];
    part_stands_between_others(bytes, header);
    part_stands_between_others(bytes, binary);
}

/// What a file of each category is told by: the bytes `OggS`, else `ID3` beside `binary/`,
/// for sounds; `PNG`, else `WEBP`, for images; `KTX` and `<roblox!` for the other two. They
/// may stand anywhere. There are no other categories.
pub proof fn file_is_told_by_its_bytes(mode: Seq<char>, bytes: Seq<u8>)
    ensures
        ({
            let stands = |part: Seq<u8>|
                exists|a: Seq<u8>, b: Seq<u8>| bytes == #[trigger] (a + part + b);
            let ogg = seq![0x4fu8, 0x67u8, 0x67u8, 0x53u8];
            let id3 = seq![0x49u8, 0x44u8, 0x33u8];
            let binary = seq![0x62u8, 0x69u8, 0x6eu8, 0x61u8, 0x72u8, 0x79u8, 0x2fu8];
            let png = seq![0x50u8, 0x4eu8, 0x47u8];
            let webp = seq![0x57u8, 0x45u8, 0x42u8, 0x50u8];
            let ktx = seq![0x4bu8, 0x54u8, 0x58u8];
            let model = seq![
                0x3cu8,
                0x72u8,
                0x6fu8,
                0x62u8,
                0x6cu8,
                0x6fu8,
                0x78u8,
                0x21u8,
            ];
            let header = found_header(mode, bytes);
            &&& header == "OggS"@ <==> mode == "sounds"@ && stands(ogg)
            &&& header == "ID3"@ <==> mode == "sounds"@ && !stands(ogg) && stands(id3) && stands(
                binary,
            )
            &&& header == "PNG"@ <==> mode == "images"@ && stands(png)
            &&& header == "WEBP"@ <==> mode == "images"@ && !stands(png) && stands(webp)
            &&& header == "KTX"@ <==> mode == "ktx-files"@ && stands(ktx)
            &&& header == "<roblox!"@ <==> mode == "rbxm-files"@ && stands(model)
            &&& header == "OggS"@ || header == "ID3"@ || header == "PNG"@ || header == "WEBP"@
                || header == "KTX"@ || header == "<roblox!"@ || header == "INVALID"@
        }),
{
    headers_as_bytes();
    names_differ();
    header_counts_wherever_it_stands(bytes, encode_utf8("OggS"@));
    header_counts_wherever_it_stands(bytes, encode_utf8("ID3"@));
    header_counts_wherever_it_stands(bytes, encode_utf8("PNG"@));
    header_counts_wherever_it_stands(bytes, encode_utf8("WEBP"@));
    header_counts_wherever_it_stands(bytes, encode_utf8("KTX"@));
    header_counts_wherever_it_stands(bytes, encode_utf8("<roblox!"@));
    header_counts_wherever_it_stands(bytes, encode_utf8(""@));
}

pub(crate) proof fn names_differ()
    ensures
        "OggS"@.len() == 4 && "OggS"@[0] == 'O',
        "ID3"@.len() == 3 && "ID3"@[0] == 'I',
        "PNG"@.len() == 3 && "PNG"@[0] == 'P',
        "WEBP"@.len() == 4 && "WEBP"@[0] == 'W',
        "KTX"@.len() == 3 && "KTX"@[0] == 'K',
        "<roblox!"@.len() == 8,
        "INVALID"@.len() == 7,
        ""@.len() == 0,
        "sounds"@.len() == 6 && "sounds"@[0] == 's',
        "images"@.len() == 6 && "images"@[0] == 'i',
        "ktx-files"@.len() == 9,
        "rbxm-files"@.len() == 10,
        "music"@.len() == 5 && "music"@[0] == 'm',
{
    reveal_strlit("OggS");
    reveal_strlit("ID3");
    reveal_strlit("PNG");
    reveal_strlit("WEBP");
    reveal_strlit("KTX");
    reveal_strlit("<roblox!");
    reveal_strlit("INVALID");
    reveal_strlit("");
    reveal_strlit("sounds");
    reveal_strlit("images");
    reveal_strlit("ktx-files");
    reveal_strlit("rbxm-files");
    reveal_strlit("music");
}

/// A search tells the position of the first occurrence, wherever it is, and nothing where
/// there is none. Nothing is found for an empty needle.
pub proof fn search_tells_the_first_position(a: Seq<u8>, needle: Seq<u8>, b: Seq<u8>)
    ensures
        needle.len() == 0 ==> first_occurrence(a + needle + b, needle) is None,
        needle.len() > 0 && (forall|i: int|
            0 <= i < a.len() ==> #[trigger] (a + needle + b).subrange(i, i + needle.len())
                != needle) ==> first_occurrence(a + needle + b, needle) == Some(a.len() as int),
        needle.len() > 0 && (forall|i: int|
            0 <= i <= a.len() - needle.len() ==> #[trigger] a.subrange(i, i + needle.len())
                != needle) ==> first_occurrence(a, needle) is None,
{
    let whole = a + needle + b;
    if needle.len() > 0 {
        part_stands_here(a, needle, b);
        if forall|i: int|
            0 <= i < a.len() ==> #[trigger] whole.subrange(i, i + needle.len()) != needle {
            assert(first_at(whole, needle, a.len() as int));
            first_occurrence_is_unique(whole, needle, a.len() as int);
        }
        if forall|i: int|
            0 <= i <= a.len() - needle.len() ==> #[trigger] a.subrange(i, i + needle.len())
                != needle {
            part_that_is_no_piece(a, needle);
        }
    }
}

/// A file is put into the category of each header that its bytes hold, and into no other:
/// what comes out are those of the headers that the bytes hold, all of them, in order and
/// as often as they are given, each with the name of the file in its place.
pub proof fn file_is_sorted_by_all_its_headers(
    headers: Seq<(Seq<char>, Seq<char>)>,
    name: Seq<char>,
    bytes: Seq<u8>,
)
    ensures
        classified(headers, name, bytes) == headers.filter(
            |h: (Seq<char>, Seq<char>)| holds_header(bytes, encode_utf8(h.0)),
        ).map_values(|h: (Seq<char>, Seq<char>)| (name, h.1)),
        forall|k: int|
            0 <= k < headers.len() && holds_header(bytes, encode_utf8((#[trigger] headers[k]).0))
                ==> classified(headers, name, bytes).contains((name, headers[k].1)),
    decreases headers.len(),
{
    reveal(Seq::filter);
    let held = |h: (Seq<char>, Seq<char>)| holds_header(bytes, encode_utf8(h.0));
    let named = |h: (Seq<char>, Seq<char>)| (name, h.1);
    let all = classified(headers, name, bytes);
    if headers.len() > 0 {
        let last = headers.len() - 1;
        let before = headers.drop_last();
        let earlier = classified(before, name, bytes);
        file_is_sorted_by_all_its_headers(before, name, bytes);
        assert(headers.filter(held).map_values(named) =~= all);
        assert forall|k: int|
            0 <= k < headers.len() && holds_header(
                bytes,
                encode_utf8((#[trigger] headers[k]).0),
            ) implies all.contains((name, headers[k].1)) by {
            if k < last {
                assert(before[k] == headers[k]);
                let i = choose|i: int|
                    0 <= i < earlier.len() && earlier[i] == (name, headers[k].1);
                assert(all[i] == earlier[i]);
            } else {
                assert(all[all.len() - 1] == (name, headers[k].1));
            }
        }
    } else {
        assert(headers.filter(held).map_values(named) =~= all);
    }
}

/// Sorting by two lists of headers gives what sorting by each gives, one after the other.
pub proof fn sorting_goes_header_by_header(
    a: Seq<(Seq<char>, Seq<char>)>,
    b: Seq<(Seq<char>, Seq<char>)>,
    name: Seq<char>,
    bytes: Seq<u8>,
)
    ensures
        classified(a + b, name, bytes) == classified(a, name, bytes) + classified(b, name, bytes),
    decreases b.len(),
{
    if b.len() == 0 {
        assert(a + b =~= a);
        assert(classified(a, name, bytes) + classified(b, name, bytes) =~= classified(
            a,
            name,
            bytes,
        ));
    } else {
        assert((a + b).drop_last() =~= a + b.drop_last());
        assert((a + b).last() == b.last());
        sorting_goes_header_by_header(a, b.drop_last(), name, bytes);
        assert(classified(a + b, name, bytes) =~= classified(a, name, bytes) + classified(
            b,
            name,
            bytes,
        ));
    }
}

/// The headers of two lists of categories are those of each, one after the other.
pub proof fn headers_are_taken_category_by_category(a: Seq<Seq<char>>, b: Seq<Seq<char>>)
    ensures
        header_pairs(a + b) == header_pairs(a) + header_pairs(b),
    decreases b.len(),
{
    if b.len() == 0 {
        assert(a + b =~= a);
        assert(header_pairs(a) + header_pairs(b) =~= header_pairs(a));
    } else {
        assert((a + b).drop_last() =~= a + b.drop_last());
        assert((a + b).last() == b.last());
        headers_are_taken_category_by_category(a, b.drop_last());
        assert(header_pairs(a + b) =~= header_pairs(a) + header_pairs(b));
    }
}

/// The headers of a category, each with the category: `OggS` and `ID3` for sounds, `PNG` and
/// `WEBP` for images, `KTX` for KTX files, `<roblox!` for models. The last two have an empty
/// header beside it. Nothing else has headers.
pub proof fn headers_of_a_category(mode: Seq<char>)
    ensures
        mode == "sounds"@ ==> header_pairs(seq![mode]) == seq![("OggS"@, mode), ("ID3"@, mode)],
        mode == "images"@ ==> header_pairs(seq![mode]) == seq![("PNG"@, mode), ("WEBP"@, mode)],
        mode == "ktx-files"@ ==> header_pairs(seq![mode]) == seq![("KTX"@, mode), (""@, mode)],
        mode == "rbxm-files"@ ==> header_pairs(seq![mode]) == seq![
            ("<roblox!"@, mode),
            (""@, mode),
        ],
        mode != "sounds"@ && mode != "images"@ && mode != "ktx-files"@ && mode != "rbxm-files"@
            ==> header_pairs(seq![mode]).len() == 0,
{
    names_differ();
    let one = seq![mode];
    assert(one.drop_last() =~= Seq::empty());
    assert(one.last() == mode);
    assert(header_pairs(one.drop_last()) =~= Seq::empty());
    assert(header_pairs(one) =~= match category_headers(mode) {
        Some((first, second)) => seq![(first, mode), (second, mode)],
        None => Seq::empty(),
    });
}

/// The categories are sounds, images, KTX files and models, each once.
pub proof fn there_are_four_categories(mode: Seq<char>)
    ensures
        categories().contains(mode) <==> mode == "sounds"@ || mode == "images"@ || mode
            == "ktx-files"@ || mode == "rbxm-files"@,
        categories().len() == 4,
        categories().no_duplicates(),
{
    names_differ();
    assert(categories()[0] == "sounds"@);
    assert(categories()[1] == "images"@);
    assert(categories()[2] == "ktx-files"@);
    assert(categories()[3] == "rbxm-files"@);
}

/// A file is put into every category whose header its bytes hold, wherever the header
/// stands and whatever else is looked for.
pub proof fn file_is_put_into_each_of_its_categories(
    keys: Seq<Seq<char>>,
    name: Seq<char>,
    bytes: Seq<u8>,
)
    ensures
        ({
            let stands = |part: Seq<u8>|
                exists|a: Seq<u8>, b: Seq<u8>| bytes == #[trigger] (a + part + b);
            let ogg = seq![0x4fu8, 0x67u8, 0x67u8, 0x53u8];
            let id3 = seq![0x49u8, 0x44u8, 0x33u8];
            let binary = seq![0x62u8, 0x69u8, 0x6eu8, 0x61u8, 0x72u8, 0x79u8, 0x2fu8];
            let png = seq![0x50u8, 0x4eu8, 0x47u8];
            let webp = seq![0x57u8, 0x45u8, 0x42u8, 0x50u8];
            let ktx = seq![0x4bu8, 0x54u8, 0x58u8];
            let model = seq![
                0x3cu8,
                0x72u8,
                0x6fu8,
                0x62u8,
                0x6cu8,
                0x6fu8,
                0x78u8,
                0x21u8,
            ];
            let sorted = classified(header_pairs(keys), name, bytes);
            &&& keys.contains("sounds"@) && (stands(ogg) || stands(id3) && stands(binary)) <==>
                sorted.contains((name, "sounds"@))
            &&& keys.contains("images"@) && (stands(png) || stands(webp)) <==> sorted.contains(
                (name, "images"@),
            )
            &&& keys.contains("ktx-files"@) && stands(ktx) <==> sorted.contains(
                (name, "ktx-files"@),
            )
            &&& keys.contains("rbxm-files"@) && stands(model) <==> sorted.contains(
                (name, "rbxm-files"@),
            )
        }),
{
    headers_as_bytes();
    names_differ();
    header_counts_wherever_it_stands(bytes, encode_utf8("OggS"@));
    header_counts_wherever_it_stands(bytes, encode_utf8("ID3"@));
    header_counts_wherever_it_stands(bytes, encode_utf8("PNG"@));
    header_counts_wherever_it_stands(bytes, encode_utf8("WEBP"@));
    header_counts_wherever_it_stands(bytes, encode_utf8("KTX"@));
    header_counts_wherever_it_stands(bytes, encode_utf8("<roblox!"@));
    header_counts_wherever_it_stands(bytes, encode_utf8(""@));
    file_is_in_a_category(keys, name, bytes, "sounds"@);
    file_is_in_a_category(keys, name, bytes, "images"@);
    file_is_in_a_category(keys, name, bytes, "ktx-files"@);
    file_is_in_a_category(keys, name, bytes, "rbxm-files"@);
}

proof fn file_is_in_a_category(
    keys: Seq<Seq<char>>,
    name: Seq<char>,
    bytes: Seq<u8>,
    mode: Seq<char>,
)
    requires
        category_headers(mode) is Some,
    ensures
        classified(header_pairs(keys), name, bytes).contains((name, mode)) <==> keys.contains(
            mode,
        ) && (holds_header(bytes, encode_utf8((category_headers(mode)->0).0)) || holds_header(
            bytes,
            encode_utf8((category_headers(mode)->0).1),
        )),
{
    let pairs = header_pairs(keys);
    let sorted = classified(pairs, name, bytes);
    let (first, second) = category_headers(mode)->0;
    if sorted.contains((name, mode)) {
        let i = choose|i: int| 0 <= i < sorted.len() && sorted[i] == (name, mode);
        let k = classified_comes_from_header(pairs, name, bytes, i);
        header_pairs_are_headers(keys, k);
    }
    if keys.contains(mode) {
        let j = choose|j: int| 0 <= j < keys.len() && keys[j] == mode;
        let k = headers_come_from_key(keys, j);
        file_is_sorted_by_all_its_headers(pairs, name, bytes);
        assert(pairs[k].0 == first && pairs[k + 1].0 == second);
    }
}

/// Both headers of each given category are there.
proof fn headers_come_from_key(keys: Seq<Seq<char>>, j: int) -> (k: int)
    requires
        0 <= j < keys.len(),
        category_headers(keys[j]) is Some,
    ensures
        0 <= k && k + 1 < header_pairs(keys).len(),
        header_pairs(keys)[k] == ((category_headers(keys[j])->0).0, keys[j]),
        header_pairs(keys)[k + 1] == ((category_headers(keys[j])->0).1, keys[j]),
    decreases keys.len(),
{
    let before = header_pairs(keys.drop_last());
    if j < keys.len() - 1 {
        headers_come_from_key(keys.drop_last(), j)
    } else {
        before.len() as int
    }
}

/// When files are listed or sorted, two kibibytes of each are looked at.
pub proof fn two_kibibytes_are_looked_at()
    ensures
        HEADER_BYTES == 2 * 1024,
{
}

/// A file starts one byte before `PNG` and `KTX`, eight before `WEBP`, and at any other
/// header itself. Each header has its own extension, and no other text has one.
pub proof fn offsets_and_extensions_of_headers(header: Seq<char>)
    ensures
        header_offset(header) == 1 <==> header == "PNG"@ || header == "KTX"@,
        header_offset(header) == 8 <==> header == "WEBP"@,
        header_offset(header) == 0 || header_offset(header) == 1 || header_offset(header) == 8,
        header_extension(header) == Some(seq!['.', 'o', 'g', 'g']) <==> header == "OggS"@,
        header_extension(header) == Some(seq!['.', 'm', 'p', '3']) <==> header == "ID3"@,
        header_extension(header) == Some(seq!['.', 'p', 'n', 'g']) <==> header == "PNG"@,
        header_extension(header) == Some(seq!['.', 'w', 'e', 'b', 'p']) <==> header == "WEBP"@,
        header_extension(header) == Some(seq!['.', 'k', 't', 'x']) <==> header == "KTX"@,
        header_extension(header) == Some(seq!['.', 'r', 'b', 'x', 'm']) <==> header
            == "<roblox!"@,
        header_extension(header) is Some ==> header == "OggS"@ || header == "ID3"@ || header
            == "PNG"@ || header == "WEBP"@ || header == "KTX"@ || header == "<roblox!"@,
{
    names_differ();
    reveal_strlit(".ogg");
    reveal_strlit(".mp3");
    reveal_strlit(".png");
    reveal_strlit(".webp");
    reveal_strlit(".ktx");
    reveal_strlit(".rbxm");
    assert(".ogg"@ =~= seq!['.', 'o', 'g', 'g']);
    assert(".mp3"@ =~= seq!['.', 'm', 'p', '3']);
    assert(".png"@ =~= seq!['.', 'p', 'n', 'g']);
    assert(".webp"@ =~= seq!['.', 'w', 'e', 'b', 'p']);
    assert(".ktx"@ =~= seq!['.', 'k', 't', 'x']);
    assert(".rbxm"@ =~= seq!['.', 'r', 'b', 'x', 'm']);
    assert(".ogg"@[1] == 'o' && ".mp3"@[1] == 'm' && ".png"@[1] == 'p' && ".webp"@[1] == 'w'
        && ".ktx"@[1] == 'k' && ".rbxm"@[1] == 'r');
}

/// Cutting a file at a header keeps everything from the header on, with as many bytes
/// before it as go with the header, wherever the header stands for the first time. It can be
/// cut where there are so many, and a file without the header is kept whole.
pub proof fn file_is_cut_at_its_header(head: Seq<u8>, header: Seq<char>, tail: Seq<u8>)
    requires
        encode_utf8(header).len() > 0,
    ensures
        ({
            let mark = encode_utf8(header);
            let file = head + mark + tail;
            (forall|i: int|
                0 <= i < head.len() ==> #[trigger] (head + mark + tail).subrange(
                    i,
                    i + mark.len(),
                ) != mark) ==> {
                &&& starts_inside(header, file) <==> header_offset(header) <= head.len()
                &&& header_offset(header) <= head.len() ==> extracted(header, file)
                    == head.subrange(
                    head.len() - header_offset(header),
                    head.len() as int,
                ) + mark + tail
            }
        }),
        (forall|i: int|
            0 <= i <= head.len() - encode_utf8(header).len() ==> #[trigger] head.subrange(
                i,
                i + encode_utf8(header).len(),
            ) != encode_utf8(header)) ==> starts_inside(header, head) && extracted(header, head)
            == head,
{
    let mark = encode_utf8(header);
    let file = head + mark + tail;
    let offset = header_offset(header);
    search_tells_the_first_position(head, mark, tail);
    if offset <= head.len() {
        assert(file.skip(head.len() - offset) =~= head.subrange(
            head.len() - offset,
            head.len() as int,
        ) + mark + tail);
    }
}

} // verus!
