//! Text on the wire: lines, separated fields, and the way between bytes and
//! strings.

use vstd::prelude::*;
use vstd::string::{StrSliceExecFns, StringExecFns};
use vstd::utf8::{decode_utf8, encode_utf8, valid_utf8};

verus! {

/// Whether `c` occurs nowhere in `s`.
pub open spec fn free_of(s: Seq<char>, c: char) -> bool {
    forall|i: int| 0 <= i < s.len() ==> s[i] != c
}

/// The index of the first `c` in `s`, or the length of `s` where there is
/// none.
pub open spec fn first_index(s: Seq<char>, c: char) -> int
    decreases s.len(),
{
    if s.len() == 0 || s[0] == c {
        0
    } else {
        1 + first_index(s.skip(1), c)
    }
}

/// The first line of `text`: everything before its first line feed, or all of
/// it where it has none.
pub open spec fn line_of(text: Seq<char>) -> Seq<char> {
    text.take(first_index(text, '\n'))
}

/// The fields of `s` that `separator` sets apart, in order. There is always
/// one field more than there are separators, so a text without separator is
/// its own single field, and so is the empty text.
pub open spec fn split(s: Seq<char>, separator: char) -> Seq<Seq<char>>
    decreases s.len(),
{
    let cut = first_index(s, separator);
    if 0 <= cut < s.len() {
        seq![s.take(cut)] + split(s.skip(cut + 1), separator)
    } else {
        seq![s]
    }
}

/// The `parts` in a row with one `separator` between each two neighbours.
pub open spec fn join(parts: Seq<Seq<char>>, separator: char) -> Seq<char>
    decreases parts.len(),
{
    if parts.len() == 0 {
        Seq::empty()
    } else if parts.len() == 1 {
        parts[0]
    } else {
        parts[0] + seq![separator] + join(parts.skip(1), separator)
    }
}

/// An index with no `c` before it, which holds `c` or is the length of the
/// text, is the `first_index`.
pub proof fn lemma_first_index_is(s: Seq<char>, c: char, at: int)
    requires
        0 <= at <= s.len(),
        forall|k: int| 0 <= k < at ==> s[k] != c,
        at < s.len() ==> s[at] == c,
    ensures
        first_index(s, c) == at,
    decreases s.len(),
{
    if s.len() == 0 || s[0] == c {
    } else {
        lemma_first_index_is(s.skip(1), c, at - 1);
    }
}

/// A text without separator is its own single field.
pub proof fn lemma_split_single(s: Seq<char>, separator: char)
    requires
        free_of(s, separator),
    ensures
        split(s, separator) == seq![s],
{
    lemma_first_index_is(s, separator, s.len() as int);
}

/// The first field ends at the first separator, and the rest is split on its
/// own.
pub proof fn lemma_split_cons(head: Seq<char>, tail: Seq<char>, separator: char)
    requires
        free_of(head, separator),
    ensures
        split(head + seq![separator] + tail, separator) == seq![head] + split(tail, separator),
{
    let s = head + seq![separator] + tail;
    lemma_first_index_is(s, separator, head.len() as int);
    assert(s.take(head.len() as int) =~= head);
    assert(s.skip(head.len() as int + 1) =~= tail);
}

/// Splitting undoes joining, for at least one part and parts that do not
/// hold the separator.
pub proof fn lemma_split_join(parts: Seq<Seq<char>>, separator: char)
    requires
        parts.len() > 0,
        forall|i: int| 0 <= i < parts.len() ==> free_of(#[trigger] parts[i], separator),
    ensures
        split(join(parts, separator), separator) == parts,
    decreases parts.len(),
{
    if parts.len() == 1 {
        lemma_split_single(parts[0], separator);
    } else {
        let rest = parts.skip(1);
        lemma_split_join(rest, separator);
        lemma_split_cons(parts[0], join(rest, separator), separator);
    }
}

/// Joining brings in no character but the separator.
pub proof fn lemma_join_free_of(parts: Seq<Seq<char>>, separator: char, c: char)
    requires
        c != separator,
        forall|i: int| 0 <= i < parts.len() ==> free_of(#[trigger] parts[i], c),
    ensures
        free_of(join(parts, separator), c),
    decreases parts.len(),
{
    if parts.len() >= 2 {
        let rest = parts.skip(1);
        lemma_join_free_of(rest, separator, c);
    }
}

/// A line ends at its line feed, whatever follows.
pub proof fn lemma_line_of(line: Seq<char>, rest: Seq<char>)
    requires
        free_of(line, '\n'),
    ensures
        line_of(line + seq!['\n'] + rest) == line,
{
    let text = line + seq!['\n'] + rest;
    lemma_first_index_is(text, '\n', line.len() as int);
}

/// The bytes of two texts in a row are the bytes of the one, then those of
/// the other.
pub proof fn lemma_encode_utf8_concat(a: Seq<char>, b: Seq<char>)
    ensures
        encode_utf8(a + b) == encode_utf8(a) + encode_utf8(b),
    decreases a.len(),
{
    if a.len() > 0 {
        lemma_encode_utf8_concat(a.drop_first(), b);
        assert((a + b).drop_first() =~= a.drop_first() + b);
    }
}

/// `String::push` appends one character to the end of a string.
pub assume_specification[ String::push ](s: &mut String, c: char)
    ensures
        final(s)@ == old(s)@.push(c),
;

/// `String::from_utf8`: the string whose bytes are `bytes`. There is one
/// exactly where `bytes` are well-formed UTF-8.
#[verifier::external_body]
pub(crate) fn utf8_string(bytes: Vec<u8>) -> (text: Option<String>)
    ensures
        text is Some <==> valid_utf8(bytes@),
        text matches Some(s) ==> encode_utf8(s@) == bytes@,
{
    match String::from_utf8(bytes) {
        Ok(s) => Some(s),
        Err(_) => None,
    }
}

/// What `String::from_utf8_lossy` of the standard library makes of `bytes`:
/// their text, with a replacement character for each run of bytes that is no
/// UTF-8.
pub uninterp spec fn lossy_text(bytes: Seq<u8>) -> Seq<char>;

/// The text that a field of `bytes` is read as: the text that the bytes
/// encode where they are well-formed UTF-8, and `lossy_text` of them where
/// they are not.
pub open spec fn field_text(bytes: Seq<u8>) -> Seq<char> {
    if valid_utf8(bytes) {
        decode_utf8(bytes)
    } else {
        lossy_text(bytes)
    }
}

/// `String::from_utf8_lossy`: `bytes` as a string, whatever they hold. The
/// contract gives the result its name, and claims of it what the function
/// documents for well-formed input: the result is the text that the bytes
/// encode.
#[verifier::external_body]
pub(crate) fn lossy_string(bytes: &[u8]) -> (text: String)
    ensures
        text@ == lossy_text(bytes@),
        valid_utf8(bytes@) ==> text@ == decode_utf8(bytes@),
{
    String::from_utf8_lossy(bytes).into_owned()
}

/// The bytes of `text` in UTF-8.
pub fn text_bytes(text: &str) -> (bytes: Vec<u8>)
    ensures
        bytes@ == encode_utf8(text@),
{
    text.as_bytes_vec()
}

/// The first line of `text`, without its line feed.
pub fn first_line(text: &str) -> (line: String)
    ensures
        line@ == line_of(text@),
{
    let mut line = String::new();
    let mut ended = false;
    for c in it: text.chars()
        invariant
            it.seq() == text@,
            0 <= it.index() <= text@.len(),
            ended ==> first_index(text@, '\n') < it.index() && line@ == line_of(text@),
            !ended ==> line@ == text@.take(it.index()),
            !ended ==> forall|k: int| 0 <= k < it.index() ==> text@[k] != '\n',
    {
        if !ended {
            if c == '\n' {
                proof {
                    lemma_first_index_is(text@, '\n', it.index());
                }
                ended = true;
            } else {
                line.push(c);
            }
        }
    }
    proof {
        if !ended {
            lemma_first_index_is(text@, '\n', text@.len() as int);
        }
    }
    line
}

/// The fields of `text` that `separator` sets apart.
pub fn split_text(text: &str, separator: char) -> (fields: Vec<String>)
    ensures
        fields.deep_view() == split(text@, separator),
{
    let mut fields: Vec<String> = Vec::new();
    let mut current = String::new();
    let ghost mut start: int = 0;
    proof {
        assert(text@.skip(0) =~= text@);
    }
    for c in it: text.chars()
        invariant
            it.seq() == text@,
            0 <= start <= it.index() <= text@.len(),
            current@ == text@.subrange(start, it.index()),
            forall|k: int| start <= k < it.index() ==> text@[k] != separator,
            split(text@, separator) == fields.deep_view() + split(text@.skip(start), separator),
    {
        if c == separator {
            let ghost rest = text@.skip(start);
            proof {
                lemma_first_index_is(rest, separator, it.index() - start);
                assert(rest.take(it.index() - start) =~= current@);
                assert(rest.skip(it.index() - start + 1) =~= text@.skip(it.index() + 1));
            }
            fields.push(current);
            current = String::new();
            proof {
                start = it.index() + 1;
            }
        } else {
            current.push(c);
        }
    }
    proof {
        let rest = text@.skip(start);
        lemma_first_index_is(rest, separator, rest.len() as int);
    }
    fields.push(current);
    fields
}

/// The `parts` in a row with one `separator` between each two neighbours.
pub fn join_text(parts: &Vec<String>, separator: char) -> (joined: String)
    ensures
        joined@ == join(parts.deep_view(), separator),
{
    let mut joined = String::new();
    let ghost all = parts.deep_view();
    let mut i: usize = 0;
    while i < parts.len()
        invariant
            i <= parts.len(),
            all == parts.deep_view(),
            i == 0 ==> joined@ == Seq::<char>::empty(),
            0 < i < parts.len() ==> join(all, separator) == joined@ + seq![separator] + join(
                all.skip(i as int),
                separator,
            ),
            0 < i == parts.len() ==> join(all, separator) == joined@,
        decreases parts.len() - i,
    {
        if i > 0 {
            joined.push(separator);
        }
        joined.append(parts[i].as_str());
        assert(all.skip(i as int).skip(1) =~= all.skip(i + 1));
        i += 1;
    }
    joined
}

} // verus!
