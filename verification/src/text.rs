//! Operations on text, stated over sequences of characters.

use vstd::prelude::*;

verus! {

/// `part` stands in `whole` at position `at`.
pub open spec fn occurs_at<T>(whole: Seq<T>, part: Seq<T>, at: int) -> bool {
    &&& 0 <= at
    &&& at + part.len() <= whole.len()
    &&& whole.subrange(at, at + part.len()) == part
}

/// `part` stands somewhere in `whole`. The empty sequence stands everywhere.
pub open spec fn occurs<T>(whole: Seq<T>, part: Seq<T>) -> bool {
    exists|at: int| occurs_at(whole, part, at)
}

/// The outcome of replacing every occurrence of `from` in `text` by `to`, from left to
/// right and without overlap. What `to` brings in is not searched again.
pub open spec fn replaced(text: Seq<char>, from: Seq<char>, to: Seq<char>) -> Seq<char>
    recommends
        from.len() > 0,
    decreases text.len(),
{
    if text.len() == 0 {
        text
    } else if from.len() > 0 && occurs_at(text, from, 0) {
        to + replaced(text.skip(from.len() as int), from, to)
    } else {
        seq![text[0]] + replaced(text.skip(1), from, to)
    }
}

/// Text `a` and text `b`, joined by a slash.
pub open spec fn slashed(a: Seq<char>, b: Seq<char>) -> Seq<char> {
    a + "/"@ + b
}

/// The text of an optional string.
pub open spec fn optional_text(value: Option<String>) -> Option<Seq<char>> {
    match value {
        Some(text) => Some(text@),
        None => None,
    }
}

/// The texts of a list of strings.
pub open spec fn texts(list: Seq<String>) -> Seq<Seq<char>> {
    Seq::new(list.len(), |i: int| list[i]@)
}

/// The texts of a list of pairs of strings.
pub open spec fn text_pairs(list: Seq<(String, String)>) -> Seq<(Seq<char>, Seq<char>)> {
    Seq::new(list.len(), |i: int| (list[i].0@, list[i].1@))
}

/// What `str::to_lowercase` returns for a text: the Unicode lowercase mapping.
pub uninterp spec fn lowercase(text: Seq<char>) -> Seq<char>;

/// The texts in lower case.
pub open spec fn all_lowercase(list: Seq<Seq<char>>) -> Seq<Seq<char>> {
    Seq::new(list.len(), |i: int| lowercase(list[i]))
}

/// `str::to_lowercase` of the standard library. It is claimed that the outcome
/// depends on the characters of the text alone.
pub assume_specification[ str::to_lowercase ](text: &str) -> (res: String)
    ensures
        res@ == lowercase(text@),
;

/// Tests two texts for equality.
pub fn same_text(a: &str, b: &str) -> (res: bool)
    ensures
        res == (a@ == b@),
{
    let left = a.as_bytes();
    let right = b.as_bytes();
    let same = same_bytes(left, right);
    proof {
        vstd::utf8::encode_utf8_decode_utf8(a@);
        vstd::utf8::encode_utf8_decode_utf8(b@);
    }
    same
}

/// Tests two byte slices for equality.
pub fn same_bytes(a: &[u8], b: &[u8]) -> (res: bool)
    ensures
        res == (a@ == b@),
{
    if a.len() != b.len() {
        return false;
    }
    let mut i: usize = 0;
    while i < a.len()
        invariant
            i <= a.len(),
            a.len() == b.len(),
            forall|j: int| 0 <= j < i ==> a[j] == b[j],
        decreases a.len() - i,
    {
        if a[i] != b[i] {
            return false;
        }
        i += 1;
    }
    assert(a@ =~= b@);
    true
}

/// The characters of a text.
pub fn characters(text: &str) -> (res: Vec<char>)
    ensures
        res@ == text@,
{
    let mut res: Vec<char> = Vec::new();
    for c in it: text.chars()
        invariant
            res@ == it.seq().take(it.index()),
            it.seq() == text@,
    {
        res.push(c);
    }
    res
}

/// Tests whether `part` stands in `whole` at position `at`.
fn stands_at(whole: &Vec<char>, part: &Vec<char>, at: usize) -> (res: bool)
    requires
        at <= whole.len(),
    ensures
        res == occurs_at(whole@, part@, at as int),
{
    if part.len() > whole.len() - at {
        return false;
    }
    let mut i: usize = 0;
    while i < part.len()
        invariant
            i <= part.len(),
            at + part.len() <= whole.len(),
            forall|j: int| 0 <= j < i ==> whole[at + j] == part[j],
        decreases part.len() - i,
    {
        if whole[at + i] != part[i] {
            assert(whole@.subrange(at as int, at + part.len())[i as int] != part@[i as int]);
            return false;
        }
        i += 1;
    }
    assert(whole@.subrange(at as int, at + part.len()) =~= part@);
    true
}

/// Tests whether `part` stands somewhere in `whole`.
pub fn text_contains(whole: &str, part: &str) -> (res: bool)
    ensures
        res == occurs(whole@, part@),
{
    let whole_chars = characters(whole);
    let part_chars = characters(part);
    let mut at: usize = 0;
    while at < whole_chars.len()
        invariant
            at <= whole_chars.len(),
            whole_chars@ == whole@,
            part_chars@ == part@,
            forall|j: int| 0 <= j < at ==> !occurs_at(whole@, part@, j),
        decreases whole_chars.len() - at,
    {
        if stands_at(&whole_chars, &part_chars, at) {
            return true;
        }
        at += 1;
    }
    stands_at(&whole_chars, &part_chars, at)
}

/// Replaces every occurrence of `from` in `text` by `to`, from left to right and
/// without overlap.
pub fn replace_all(text: &str, from: &str, to: &str) -> (res: String)
    requires
        from@.len() > 0,
    ensures
        res@ == replaced(text@, from@, to@),
{
    let chars = characters(text);
    let from_chars = characters(from);
    let mut res = String::new();
    // Everything before `copied` has gone into the outcome; what stands between `copied`
    // and `at` goes there unchanged.
    let mut copied: usize = 0;
    let mut at: usize = 0;
    proof {
        assert(text@.skip(0) =~= text@);
        assert(res@ + text@.subrange(0, 0) =~= Seq::<char>::empty());
    }
    while at < chars.len()
        invariant
            copied <= at <= chars.len(),
            chars@ == text@,
            from_chars@ == from@,
            from@.len() > 0,
            replaced(text@, from@, to@) =~= res@ + text@.subrange(copied as int, at as int)
                + replaced(text@.skip(at as int), from@, to@),
        decreases chars.len() - at,
    {
        let ghost rest = text@.skip(at as int);
        let ghost before = res@ + text@.subrange(copied as int, at as int);
        if stands_at(&chars, &from_chars, at) {
            assert(rest.subrange(0, from@.len() as int) =~= text@.subrange(
                at as int,
                at + from@.len(),
            ));
            assert(occurs_at(rest, from@, 0));
            assert(rest.skip(from@.len() as int) =~= text@.skip(at + from@.len()));
            res.append(text.substring_char(copied, at));
            res.append(to);
            at += from_chars.len();
            copied = at;
            assert(res@ =~= before + to@);
        } else {
            assert(!occurs_at(rest, from@, 0)) by {
                if occurs_at(rest, from@, 0) {
                    assert(rest.subrange(0, from@.len() as int) =~= text@.subrange(
                        at as int,
                        at + from@.len(),
                    ));
                }
            }
            assert(rest.skip(1) =~= text@.skip(at + 1));
            assert(text@.subrange(copied as int, at + 1) =~= text@.subrange(
                copied as int,
                at as int,
            ) + seq![rest[0]]);
            at += 1;
        }
    }
    res.append(text.substring_char(copied, at));
    res
}

/// Joins two texts by a slash.
pub fn join_path(a: &str, b: &str) -> (res: String)
    ensures
        res@ == slashed(a@, b@),
{
    a.to_owned().concat("/").concat(b)
}

/// A part stands in a whole if and only if the whole is the part with something before and
/// something behind it.
pub proof fn part_stands_between_others<T>(whole: Seq<T>, part: Seq<T>)
    ensures
        occurs(whole, part) <==> exists|a: Seq<T>, b: Seq<T>| whole == #[trigger] (a + part + b),
{
    if occurs(whole, part) {
        let at = choose|at: int| occurs_at(whole, part, at);
        let (a, b) = (whole.subrange(0, at), whole.skip(at + part.len()));
        assert(whole =~= a + part + b);
    }
    if exists|a: Seq<T>, b: Seq<T>| whole == #[trigger] (a + part + b) {
        let (a, b) = choose|a: Seq<T>, b: Seq<T>| whole == #[trigger] (a + part + b);
        part_stands_here(a, part, b);
    }
}

/// A part stands behind what is before it.
pub proof fn part_stands_here<T>(a: Seq<T>, part: Seq<T>, b: Seq<T>)
    ensures
        occurs_at(a + part + b, part, a.len() as int),
        occurs(a + part + b, part),
{
    let whole = a + part + b;
    assert(whole.subrange(a.len() as int, (a.len() + part.len()) as int) =~= part);
    assert(occurs_at(whole, part, a.len() as int));
}

/// A part that differs from every piece of a whole does not stand in it.
pub proof fn part_that_is_no_piece<T>(whole: Seq<T>, part: Seq<T>)
    requires
        forall|i: int|
            0 <= i <= whole.len() - part.len() ==> #[trigger] whole.subrange(i, i + part.len())
                != part,
    ensures
        !occurs(whole, part),
        forall|a: Seq<T>, b: Seq<T>| whole != #[trigger] (a + part + b),
{
    assert forall|at: int| !occurs_at(whole, part, at) by {
        if occurs_at(whole, part, at) {
            assert(whole.subrange(at, at + part.len()) == part);
        }
    }
    part_stands_between_others(whole, part);
}

/// What stands before the first occurrence of the replaced text is kept, the occurrence is
/// replaced, and so is what stands behind it.
pub proof fn first_occurrence_is_replaced(
    a: Seq<char>,
    from: Seq<char>,
    b: Seq<char>,
    to: Seq<char>,
)
    requires
        from.len() > 0,
        forall|i: int|
            0 <= i < a.len() ==> #[trigger] (a + from + b).subrange(i, i + from.len()) != from,
    ensures
        replaced(a + from + b, from, to) == a + to + replaced(b, from, to),
    decreases a.len(),
{
    let text = a + from + b;
    if a.len() == 0 {
        assert(text =~= from + b);
        assert(text.subrange(0, from.len() as int) =~= from);
        assert(occurs_at(text, from, 0));
        assert(text.skip(from.len() as int) =~= b);
        assert(a + to =~= to);
    } else {
        let rest = a.skip(1);
        let later = rest + from + b;
        assert(text.skip(1) =~= later);
        let first = 0int;
        assert(text.subrange(first, first + from.len()) != from);
        assert forall|i: int| 0 <= i < rest.len() implies #[trigger] later.subrange(
            i,
            i + from.len(),
        ) != from by {
            assert(later.subrange(i, i + from.len()) =~= text.subrange(
                i + 1,
                i + 1 + from.len(),
            ));
        }
        first_occurrence_is_replaced(rest, from, b, to);
        assert(seq![text[0]] + (rest + to + replaced(b, from, to)) =~= a + to + replaced(
            b,
            from,
            to,
        ));
    }
}

/// A joined path is the two texts with one slash between them.
pub proof fn joined_path_has_one_slash_between(a: Seq<char>, b: Seq<char>)
    ensures
        slashed(a, b) == a + seq!['/'] + b,
{
    reveal_strlit("/");
    assert("/"@ =~= seq!['/']);
}

/// The texts of a list are those of its strings, all of them and in order.
pub proof fn texts_are_those_of_the_strings(
    list: Seq<String>,
    pairs: Seq<(String, String)>,
    text: String,
)
    ensures
        texts(list).len() == list.len(),
        forall|i: int| 0 <= i < list.len() ==> #[trigger] texts(list)[i] == list[i]@,
        text_pairs(pairs).len() == pairs.len(),
        forall|i: int|
            0 <= i < pairs.len() ==> #[trigger] text_pairs(pairs)[i] == (
                pairs[i].0@,
                pairs[i].1@,
            ),
        optional_text(Some(text)) == Some(text@),
        optional_text(None) is None,
{
}

/// Each text of a list is put into lower case by itself.
pub proof fn each_text_is_put_into_lower_case(list: Seq<Seq<char>>)
    ensures
        all_lowercase(list).len() == list.len(),
        forall|i: int|
            0 <= i < list.len() ==> #[trigger] all_lowercase(list)[i] == lowercase(list[i]),
{
}

} // verus!
