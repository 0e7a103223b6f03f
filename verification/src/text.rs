//! Text as sequences of characters: searching, splitting, and reading and
//! writing decimal numbers.

use vstd::prelude::*;
use vstd::slice::{slice_subrange, slice_to_vec};

verus! {

/// Appending one character with `String::push` extends the text by exactly
/// that character.
pub assume_specification[ String::push ](s: &mut String, c: char)
    ensures
        final(s)@ == old(s)@.push(c),
;

/// The lowercase form of a text, as `str::to_lowercase` of the standard
/// library gives it: every character replaced by its Unicode lowercase
/// mapping.
pub uninterp spec fn lowercase_of(text: Seq<char>) -> Seq<char>;

/// `str::to_lowercase`: the result is the lowercase form of `text`, which
/// depends on the characters of `text` alone.
#[verifier::external_body]
pub(crate) fn lowercase(text: &str) -> (r: String)
    ensures
        r@ == lowercase_of(text@),
{
    text.to_lowercase()
}

/// A text without the whitespace at its start and at its end, as `str::trim`
/// of the standard library gives it; whitespace is what Unicode calls so.
pub uninterp spec fn trimmed_of(text: Seq<char>) -> Seq<char>;

/// `str::trim`: the result is `text` without the whitespace at its start and
/// at its end, which depends on the characters of `text` alone.
#[verifier::external_body]
pub(crate) fn trimmed(text: &str) -> (r: &str)
    ensures
        r@ == trimmed_of(text@),
{
    text.trim()
}

/// The pieces of a text between runs of whitespace, none of them empty, as
/// `str::split_whitespace` of the standard library gives them; whitespace is
/// what Unicode calls so.
pub uninterp spec fn words_of(text: Seq<char>) -> Seq<Seq<char>>;

/// `str::split_whitespace`: the result holds the pieces of `text` between
/// runs of whitespace, in order, which depend on the characters of `text`
/// alone.
#[verifier::external_body]
pub(crate) fn words(text: &str) -> (r: Vec<String>)
    ensures
        strings(r@) == words_of(text@),
{
    text.split_whitespace().map(String::from).collect()
}

/// The lines of a text, as `str::lines` of the standard library gives them:
/// the pieces that line feeds end, each without the carriage return that may
/// stand before its line feed, and after them what follows the last line
/// feed, unless that is empty.
pub uninterp spec fn lines_of(text: Seq<char>) -> Seq<Seq<char>>;

/// `str::lines`: the result holds the lines of `text`, in order, which
/// depend on the characters of `text` alone.
#[verifier::external_body]
pub(crate) fn lines(text: &str) -> (r: Vec<String>)
    ensures
        strings(r@) == lines_of(text@),
{
    text.lines().map(String::from).collect()
}

/// A text with the characters of `text`.
pub fn owned(text: &str) -> (r: String)
    ensures
        r@ == text@,
{
    text.to_owned()
}

/// The characters of `s`, in order.
pub fn chars_of(s: &str) -> (v: Vec<char>)
    ensures
        v@ == s@,
{
    let mut v: Vec<char> = Vec::new();
    for c in it: s.chars()
        invariant
            v@ == it.seq().take(it.index()),
            it.seq() == s@,
    {
        v.push(c);
    }
    v
}

/// The text made of the characters of `v`, in order.
pub fn string_of(v: &[char]) -> (s: String)
    ensures
        s@ == v@,
{
    let mut s = String::new();
    let mut i: usize = 0;
    while i < v.len()
        invariant
            i <= v.len(),
            s@ == v@.take(i as int),
        decreases v.len() - i,
    {
        s.push(v[i]);
        i += 1;
    }
    s
}

/// Appends the characters of `tail` to `out`.
pub fn push_all(out: &mut Vec<char>, tail: &[char])
    ensures
        final(out)@ == old(out)@ + tail@,
{
    let mut i: usize = 0;
    while i < tail.len()
        invariant
            i <= tail.len(),
            out@ == old(out)@ + tail@.take(i as int),
        decreases tail.len() - i,
    {
        out.push(tail[i]);
        i += 1;
    }
}

/// Appends the characters of `tail` to `out`.
pub fn push_str(out: &mut Vec<char>, tail: &str)
    ensures
        final(out)@ == old(out)@ + tail@,
{
    let chars = chars_of(tail);
    push_all(out, chars.as_slice());
}

/// Whether two texts hold the same characters.
pub fn same_text(a: &[char], b: &[char]) -> (r: bool)
    ensures
        r == (a@ == b@),
{
    if a.len() != b.len() {
        return false;
    }
    let mut i: usize = 0;
    while i < a.len()
        invariant
            i <= a.len(),
            a.len() == b.len(),
            a@.take(i as int) == b@.take(i as int),
        decreases a.len() - i,
    {
        if a[i] != b[i] {
            return false;
        }
        assert(a@.take(i as int + 1) == a@.take(i as int).push(a@[i as int]));
        assert(b@.take(i as int + 1) == b@.take(i as int).push(b@[i as int]));
        i += 1;
    }
    assert(a@ == a@.take(a.len() as int));
    assert(b@ == b@.take(b.len() as int));
    true
}

/// Whether `a` holds exactly the characters of `word`.
pub fn is_word(a: &[char], word: &str) -> (r: bool)
    ensures
        r == (a@ == word@),
{
    let w = chars_of(word);
    same_text(a, w.as_slice())
}

/// Whether `text` begins with `head`.
pub fn starts_with(text: &[char], head: &[char]) -> (r: bool)
    ensures
        r == head@.is_prefix_of(text@),
{
    if head.len() > text.len() {
        return false;
    }
    let part = slice_subrange(text, 0, head.len());
    same_text(head, part)
}

/// Whether `text` ends with `tail`.
pub fn ends_with(text: &[char], tail: &[char]) -> (r: bool)
    ensures
        r == tail@.is_suffix_of(text@),
{
    if tail.len() > text.len() {
        return false;
    }
    let part = slice_subrange(text, text.len() - tail.len(), text.len());
    same_text(tail, part)
}

/// Whether `part` occurs in `text` at position `at`.
pub open spec fn occurs_at(text: Seq<char>, part: Seq<char>, at: int) -> bool {
    0 <= at && at + part.len() <= text.len() && text.subrange(at, at + part.len()) == part
}

/// Whether `part` occurs somewhere in `text`.
pub open spec fn has_part(text: Seq<char>, part: Seq<char>) -> bool {
    exists|at: int| occurs_at(text, part, at)
}

/// Whether `part` occurs somewhere in `text`.
pub fn contains(text: &[char], part: &[char]) -> (r: bool)
    ensures
        r == has_part(text@, part@),
{
    if part.len() > text.len() {
        return false;
    }
    if part.len() == 0 {
        assert(text@.subrange(0, 0) == part@);
        assert(occurs_at(text@, part@, 0));
        return true;
    }
    let last: usize = text.len() - part.len();
    let mut at: usize = 0;
    while at <= last
        invariant
            at <= last + 1,
            last == text.len() - part.len(),
            0 < part.len() <= text.len(),
            forall|k: int| 0 <= k < at ==> !occurs_at(text@, part@, k),
        decreases last + 1 - at,
    {
        let window = slice_subrange(text, at, at + part.len());
        if same_text(window, part) {
            assert(occurs_at(text@, part@, at as int));
            return true;
        }
        at += 1;
    }
    false
}

/// Position of the first `sep` in `text`, or the length of `text` where it
/// holds none.
pub open spec fn index_of(text: Seq<char>, sep: char) -> int
    decreases text.len(),
{
    if text.len() == 0 || text[0] == sep {
        0
    } else {
        1 + index_of(text.skip(1), sep)
    }
}

/// The pieces of `text` between occurrences of `sep`: always at least one
/// piece, and one more for every `sep`.
pub open spec fn fields(text: Seq<char>, sep: char) -> Seq<Seq<char>>
    decreases text.len(),
{
    let at = index_of(text, sep);
    if 0 <= at < text.len() {
        seq![text.take(at)] + fields(text.skip(at + 1), sep)
    } else {
        seq![text]
    }
}

/// `index_of` finds the first occurrence and nothing before it.
pub proof fn lemma_index_of(text: Seq<char>, sep: char)
    ensures
        0 <= index_of(text, sep) <= text.len(),
        index_of(text, sep) < text.len() ==> text[index_of(text, sep)] == sep,
        forall|k: int| 0 <= k < index_of(text, sep) ==> text[k] != sep,
    decreases text.len(),
{
    if text.len() == 0 || text[0] == sep {
    } else {
        lemma_index_of(text.skip(1), sep);
        let rest = index_of(text.skip(1), sep);
        assert forall|k: int| 0 <= k < 1 + rest implies text[k] != sep by {
            if k > 0 {
                assert(text.skip(1)[k - 1] == text[k]);
            }
        }
        if 1 + rest < text.len() {
            assert(text.skip(1)[rest] == text[1 + rest]);
        }
    }
}

/// A position that holds `sep` with no `sep` before it is what `index_of`
/// finds.
pub proof fn lemma_index_of_is(text: Seq<char>, sep: char, at: int)
    requires
        0 <= at <= text.len(),
        at < text.len() ==> text[at] == sep,
        forall|k: int| 0 <= k < at ==> text[k] != sep,
    ensures
        index_of(text, sep) == at,
{
    lemma_index_of(text, sep);
}

/// The texts that a list of character vectors holds.
pub open spec fn texts(parts: Seq<Vec<char>>) -> Seq<Seq<char>> {
    parts.map_values(|p: Vec<char>| p@)
}

/// The texts that a list of strings holds.
pub open spec fn strings(list: Seq<String>) -> Seq<Seq<char>> {
    list.map_values(|s: String| s@)
}

/// Splits `text` at every `sep`.
pub fn split(text: &[char], sep: char) -> (parts: Vec<Vec<char>>)
    ensures
        texts(parts@) == fields(text@, sep),
        parts.len() >= 1,
{
    let mut parts: Vec<Vec<char>> = Vec::new();
    let mut start: usize = 0;
    let mut i: usize = 0;
    assert(text@.skip(0) == text@);
    assert(texts(parts@) + fields(text@, sep) == fields(text@, sep));
    while i < text.len()
        invariant
            start <= i <= text.len(),
            forall|k: int| start <= k < i ==> text@[k] != sep,
            fields(text@, sep) == texts(parts@) + fields(text@.skip(start as int), sep),
        decreases text.len() - i,
    {
        if text[i] == sep {
            let piece = slice_to_vec(slice_subrange(text, start, i));
            proof {
                let tail = text@.skip(start as int);
                assert forall|k: int| 0 <= k < i - start implies tail[k] != sep by {
                    assert(tail[k] == text@[start + k]);
                }
                lemma_index_of_is(tail, sep, i - start);
                assert(tail.take(i - start) == piece@);
                assert(tail.skip(i - start + 1) == text@.skip(i as int + 1));
                assert(texts(parts@).push(piece@) + fields(text@.skip(i as int + 1), sep)
                    == texts(parts@) + (seq![piece@] + fields(text@.skip(i as int + 1), sep)));
            }
            let ghost before = texts(parts@);
            parts.push(piece);
            assert(texts(parts@) == before.push(piece@));
            start = i + 1;
        }
        i += 1;
    }
    let piece = slice_to_vec(slice_subrange(text, start, text.len()));
    proof {
        let tail = text@.skip(start as int);
        assert forall|k: int| 0 <= k < tail.len() implies tail[k] != sep by {
            assert(tail[k] == text@[start + k]);
        }
        lemma_index_of_is(tail, sep, tail.len() as int);
        assert(tail == piece@);
        assert(fields(tail, sep) == seq![tail]);
    }
    let ghost before = texts(parts@);
    parts.push(piece);
    assert(texts(parts@) == before.push(piece@));
    parts
}

/// The texts of `list` one after the other, with `sep` between each two.
pub open spec fn joined(list: Seq<Seq<char>>, sep: Seq<char>) -> Seq<char>
    decreases list.len(),
{
    if list.len() == 0 {
        Seq::empty()
    } else if list.len() == 1 {
        list[0]
    } else {
        joined(list.drop_last(), sep) + sep + list.last()
    }
}

/// Appends the texts of `list` to `out`, with `sep` between each two.
pub fn push_joined(out: &mut Vec<char>, list: &Vec<String>, sep: &str)
    ensures
        final(out)@ == old(out)@ + joined(strings(list@), sep@),
{
    let mut i: usize = 0;
    while i < list.len()
        invariant
            i <= list.len(),
            out@ == old(out)@ + joined(strings(list@).take(i as int), sep@),
        decreases list.len() - i,
    {
        let ghost sofar = strings(list@).take(i as int);
        let ghost next = strings(list@).take(i as int + 1);
        proof {
            assert(next.drop_last() == sofar);
            assert(next.last() == list@[i as int]@);
        }
        if i > 0 {
            push_str(out, sep);
        }
        push_str(out, list[i].as_str());
        i += 1;
    }
    assert(strings(list@).take(list.len() as int) == strings(list@));
}

/// A copy of the strings of `list` from position `from` on.
pub fn tail_of(list: &Vec<String>, from: usize) -> (r: Vec<String>)
    requires
        from <= list.len(),
    ensures
        strings(r@) == strings(list@).skip(from as int),
{
    let mut r: Vec<String> = Vec::new();
    let mut i: usize = from;
    while i < list.len()
        invariant
            from <= i <= list.len(),
            strings(r@) == strings(list@).subrange(from as int, i as int),
        decreases list.len() - i,
    {
        let ghost before = strings(r@);
        r.push(list[i].clone());
        assert(strings(r@) == before.push(list@[i as int]@));
        i += 1;
    }
    assert(strings(list@).subrange(from as int, list.len() as int) == strings(list@).skip(
        from as int,
    ));
    r
}

/// Joining a list that begins with `first` puts `first` in front, and `sep`
/// after it where more follows.
pub proof fn lemma_joined_front(first: Seq<char>, rest: Seq<Seq<char>>, sep: Seq<char>)
    ensures
        joined(seq![first] + rest, sep) == (if rest.len() == 0 {
            first
        } else {
            first + sep + joined(rest, sep)
        }),
    decreases rest.len(),
{
    let all = seq![first] + rest;
    if rest.len() == 0 {
        assert(all == seq![first]);
    } else {
        assert(all.drop_last() == seq![first] + rest.drop_last());
        assert(all.last() == rest.last());
        lemma_joined_front(first, rest.drop_last(), sep);
        if rest.len() == 1 {
            assert(rest.drop_last().len() == 0);
            assert(joined(rest, sep) == rest[0]);
        }
    }
}

/// What is split at a character and joined again with that character is
/// the same text.
pub proof fn lemma_split_joined(text: Seq<char>, sep: char)
    ensures
        fields(text, sep).len() >= 1,
        joined(fields(text, sep), seq![sep]) == text,
    decreases text.len(),
{
    lemma_index_of(text, sep);
    let at = index_of(text, sep);
    if 0 <= at < text.len() {
        let rest = text.skip(at + 1);
        lemma_split_joined(rest, sep);
        lemma_joined_front(text.take(at), fields(rest, sep), seq![sep]);
        assert(text.take(at) + seq![sep] + rest == text);
    } else {
        assert(fields(text, sep) == seq![text]);
    }
}

} // verus!
