//! Recovery of the message and the session identifier from an agent's output.
//!
//! An agent prints its answer and may end it with a trailer:
//!
//! ```text
//! <message>
//! ---
//! SESSION_ID: <id>
//! ```
//!
//! Three marker forms are recognised, strictest first. Within a form the last
//! occurrence wins, because the answer itself may hold marker-like text.

use vstd::prelude::*;
use crate::text::{
    chars_of, contains, first_line, first_line_end, is_last_occurrence, is_space,
    last_occurrence, lemma_first_line, lemma_last_occurrence_is, lemma_strip_end,
    lemma_strip_start, normalize_newlines, normalized, occurs_at, rfind, strip_end, strip_end_in,
    strip_start, strip_start_in, substring, trim, CharClass,
};

verus! {

/// The key that introduces the session identifier.
pub open spec fn session_key() -> Seq<char> {
    "SESSION_ID:"@
}

/// The separator line directly followed by the key, on a line of its own.
pub open spec fn exact_marker() -> Seq<char> {
    "\n---\nSESSION_ID:"@
}

/// The separator directly followed by the key, without the line feed in front.
pub open spec fn loose_marker() -> Seq<char> {
    "---\nSESSION_ID:"@
}

/// The identifier on the rest of the key's line: that rest without surrounding
/// white space and, where `strip_colons` is set, without further leading
/// colons; absent where nothing is left.
pub open spec fn session_token(tail: Seq<char>, strip_colons: bool) -> Option<Seq<char>> {
    let line = trim(first_line(tail));
    let token = if strip_colons {
        trim(strip_start(line, CharClass::Just(':')))
    } else {
        line
    };
    if token.len() == 0 {
        None
    } else {
        Some(token)
    }
}

/// The message in front of a trailer: the text without trailing separator
/// dashes and without surrounding white space.
pub open spec fn message_of(before: Seq<char>) -> Seq<char> {
    trim(strip_end(before, CharClass::Just('-')))
}

/// What a trailer marker found at index `at` of `text` yields: the message
/// in front of it and the identifier after it.
pub open spec fn split_at_marker(text: Seq<char>, marker: Seq<char>, at: int) -> (
    Seq<char>,
    Option<Seq<char>>,
) {
    (message_of(text.take(at)), session_token(text.skip(at + marker.len()), true))
}

/// What a bare key found at index `at` of `text` yields: the message in
/// front of it and the identifier after it.
pub open spec fn split_at_key(text: Seq<char>, at: int) -> (Seq<char>, Option<Seq<char>>) {
    (message_of(text.take(at)), session_token(text.skip(at + session_key().len()), false))
}

/// The message and session identifier held by an agent's standard output.
pub open spec fn parsed_output(stdout: Seq<char>) -> (Seq<char>, Option<Seq<char>>) {
    let text = normalize_newlines(stdout);
    if let Some(at) = last_occurrence(text, exact_marker()) {
        split_at_marker(text, exact_marker(), at)
    } else if let Some(at) = last_occurrence(text, loose_marker()) {
        split_at_marker(text, loose_marker(), at)
    } else if let Some(at) = last_occurrence(text, session_key()) {
        split_at_key(text, at)
    } else {
        (trim(text), None)
    }
}

/// Reads the identifier from the first line of `text[from..]`.
fn read_session_token(text: &Vec<char>, from: usize, strip_colons: bool) -> (token: Option<String>)
    requires
        from <= text.len(),
    ensures
        token.deep_view() == session_token(text@.skip(from as int), strip_colons),
{
    let len = text.len();
    assert(text@.skip(from as int) == text@.subrange(from as int, len as int));
    let line_end = first_line_end(text, from, len);
    let lo = strip_start_in(text, from, line_end, CharClass::Whitespace);
    let hi = strip_end_in(text, lo, line_end, CharClass::Whitespace);
    let (lo, hi) = if strip_colons {
        let lo2 = strip_start_in(text, lo, hi, CharClass::Just(':'));
        let lo3 = strip_start_in(text, lo2, hi, CharClass::Whitespace);
        let hi3 = strip_end_in(text, lo3, hi, CharClass::Whitespace);
        (lo3, hi3)
    } else {
        (lo, hi)
    };
    if lo == hi {
        None
    } else {
        Some(substring(text, lo, hi))
    }
}

/// Copies `text[..at]` without surrounding white space.
fn trimmed_prefix(text: &Vec<char>, at: usize) -> (out: String)
    requires
        at <= text.len(),
    ensures
        out@ == trim(text@.take(at as int)),
{
    assert(text@.take(at as int) == text@.subrange(0, at as int));
    let lo = strip_start_in(text, 0, at, CharClass::Whitespace);
    let hi = strip_end_in(text, lo, at, CharClass::Whitespace);
    substring(text, lo, hi)
}

/// Copies the message in front of a trailer that starts at index `at`.
fn message_before(text: &Vec<char>, at: usize) -> (out: String)
    requires
        at <= text.len(),
    ensures
        out@ == message_of(text@.take(at as int)),
{
    assert(text@.take(at as int) == text@.subrange(0, at as int));
    let end = strip_end_in(text, 0, at, CharClass::Just('-'));
    let lo = strip_start_in(text, 0, end, CharClass::Whitespace);
    let hi = strip_end_in(text, lo, end, CharClass::Whitespace);
    substring(text, lo, hi)
}

/// Splits an agent's standard output into its message and the session
/// identifier of its trailer.
///
/// Line endings are normalised first. The trailer is looked for as the exact
/// marker, then as the loose marker, then as the bare key, each at its last
/// occurrence. The message is what stands in front of the trailer, without
/// trailing separator dashes and surrounding white space. Without a trailer
/// the whole trimmed text is the message and no identifier is reported.
pub fn parse_codeagent_stdout(stdout: &str) -> (result: (String, Option<String>))
    ensures
        result.0@ == parsed_output(stdout@).0,
        result.1.deep_view() == parsed_output(stdout@).1,
{
    let raw = chars_of(stdout);
    let text = normalized(&raw);

    let exact = chars_of("\n---\nSESSION_ID:");
    if let Some(at) = rfind(&text, &exact) {
        let message = message_before(&text, at);
        let session_id = read_session_token(&text, at + exact.len(), true);
        return (message, session_id);
    }
    let loose = chars_of("---\nSESSION_ID:");
    if let Some(at) = rfind(&text, &loose) {
        let message = message_before(&text, at);
        let session_id = read_session_token(&text, at + loose.len(), true);
        return (message, session_id);
    }
    let key = chars_of("SESSION_ID:");
    if let Some(at) = rfind(&text, &key) {
        let message = message_before(&text, at);
        let session_id = read_session_token(&text, at + key.len(), false);
        return (message, session_id);
    }
    let message = trimmed_prefix(&text, text.len());
    assert(text@.take(text.len() as int) == text@);
    (message, None)
}

/// The three markers, character by character: each of the first two is a
/// separator followed by the key.
pub proof fn lemma_marker_texts()
    ensures
        session_key() == seq!['S', 'E', 'S', 'S', 'I', 'O', 'N', '_', 'I', 'D', ':'],
        exact_marker() == seq!['\n', '-', '-', '-', '\n'] + session_key(),
        loose_marker() == seq!['-', '-', '-', '\n'] + session_key(),
        exact_marker() == seq!['\n'] + loose_marker(),
{
    reveal_strlit("SESSION_ID:");
    reveal_strlit("\n---\nSESSION_ID:");
    reveal_strlit("---\nSESSION_ID:");
    assert(session_key() =~= seq!['S', 'E', 'S', 'S', 'I', 'O', 'N', '_', 'I', 'D', ':']);
    assert(exact_marker() =~= seq!['\n', '-', '-', '-', '\n'] + session_key());
    assert(loose_marker() =~= seq!['-', '-', '-', '\n'] + session_key());
    assert(exact_marker() =~= seq!['\n'] + loose_marker());
}

/// A text without carriage return is left as it is by the normalisation of
/// line endings.
pub proof fn lemma_normalize_without_cr(s: Seq<char>)
    requires
        forall|i: int| 0 <= i < s.len() ==> #[trigger] s[i] != '\r',
    ensures
        normalize_newlines(s) == s,
    decreases s.len(),
{
    if s.len() > 0 {
        let t = s.skip(1);
        assert forall|i: int| 0 <= i < t.len() implies #[trigger] t[i] != '\r' by {
            assert(t[i] == s[i + 1]);
        }
        lemma_normalize_without_cr(t);
        assert(s[0] != '\r');
        assert(seq![s[0]] + t == s);
    }
}

/// Where the key does not occur, neither marker does.
pub proof fn lemma_markers_hold_key(text: Seq<char>)
    requires
        !contains(text, session_key()),
    ensures
        !contains(text, exact_marker()),
        !contains(text, loose_marker()),
{
    lemma_marker_texts();
    assert forall|i: int| !occurs_at(text, exact_marker(), i) by {
        if occurs_at(text, exact_marker(), i) {
            let w = text.subrange(i, i + exact_marker().len());
            assert(text.subrange(i + 5, i + 5 + session_key().len()) =~= w.subrange(5, 16));
            assert(w.subrange(5, 16) =~= session_key());
            assert(occurs_at(text, session_key(), i + 5));
        }
    }
    assert forall|i: int| !occurs_at(text, loose_marker(), i) by {
        if occurs_at(text, loose_marker(), i) {
            let w = text.subrange(i, i + loose_marker().len());
            assert(text.subrange(i + 4, i + 4 + session_key().len()) =~= w.subrange(4, 15));
            assert(w.subrange(4, 15) =~= session_key());
            assert(occurs_at(text, session_key(), i + 4));
        }
    }
}

/// An output that does not hold the key, in any of the three marker forms, is
/// all message: the message is the whole normalised text, trimmed, and no
/// session identifier is reported.
pub proof fn lemma_output_without_trailer(stdout: Seq<char>)
    requires
        !contains(normalize_newlines(stdout), session_key()),
    ensures
        parsed_output(stdout) == (trim(normalize_newlines(stdout)), None::<Seq<char>>),
{
    lemma_markers_hold_key(normalize_newlines(stdout));
}

/// An identifier as a well-formed trailer carries it: not empty, on one
/// line, and without white space at either end.
pub open spec fn is_session_token(id: Seq<char>) -> bool {
    &&& id.len() > 0
    &&& !is_space(id[0])
    &&& !is_space(id.last())
    &&& forall|i: int| 0 <= i < id.len() ==> #[trigger] id[i] != '\n'
}

/// The rest of the key's line in a well-formed trailer, and the line's end:
/// a blank, the identifier, a line feed.
pub open spec fn trailer_rest(id: Seq<char>) -> Seq<char> {
    seq![' '] + id + seq!['\n']
}

/// The identifier is read back from the rest of the key's line.
proof fn lemma_token_of_rest(id: Seq<char>, strip_colons: bool)
    requires
        is_session_token(id),
        strip_colons ==> id[0] != ':',
    ensures
        session_token(trailer_rest(id), strip_colons) == Some(id),
{
    let rest = trailer_rest(id);
    let line = seq![' '] + id;
    assert forall|i: int| 0 <= i < line.len() implies #[trigger] rest[i] != '\n' by {
        if i > 0 {
            assert(rest[i] == id[i - 1]);
        }
    }
    lemma_first_line(rest, line.len() as int);
    assert(rest.take(line.len() as int) == line);
    assert(line[1] == id[0]);
    lemma_strip_start(line, CharClass::Whitespace, 1);
    assert(line.skip(1) == id);
    lemma_strip_end(id, CharClass::Whitespace, id.len() as int);
    assert(id.take(id.len() as int) == id);
    assert(trim(line) == id);
    if strip_colons {
        lemma_strip_start(id, CharClass::Just(':'), 0);
        assert(id.skip(0) == id);
        lemma_strip_start(id, CharClass::Whitespace, 0);
    }
}

/// The character at index `i` of a body followed by a marker and the rest of
/// the key's line.
spec fn composed_at(body: Seq<char>, marker: Seq<char>, id: Seq<char>, i: int) -> char {
    let at = body.len() as int;
    let m = marker.len() as int;
    if i < at {
        body[i]
    } else if i < at + m {
        marker[i - at]
    } else if i == at + m {
        ' '
    } else if i < at + m + 1 + id.len() {
        id[i - at - m - 1]
    } else {
        '\n'
    }
}

/// How a body followed by a marker and the rest of the key's line is laid out.
proof fn lemma_composed(body: Seq<char>, marker: Seq<char>, id: Seq<char>)
    ensures
        ({
            let text = body + marker + trailer_rest(id);
            let at = body.len() as int;
            let m = marker.len() as int;
            &&& text.len() == at + m + id.len() + 2
            &&& text.take(at) == body
            &&& text.subrange(at, at + m) == marker
            &&& text.skip(at + m) == trailer_rest(id)
            &&& forall|i: int|
                0 <= i < text.len() ==> #[trigger] text[i] == composed_at(body, marker, id, i)
        }),
{
    let text = body + marker + trailer_rest(id);
    let at = body.len() as int;
    let m = marker.len() as int;
    assert(text.take(at) =~= body);
    assert(text.subrange(at, at + m) =~= marker);
    assert(text.skip(at + m) =~= trailer_rest(id));
}

/// A text laid out as a body, a marker and the rest of the key's line holds
/// no carriage return if the body, the marker and the identifier hold none.
proof fn lemma_composed_without_cr(body: Seq<char>, marker: Seq<char>, id: Seq<char>)
    requires
        forall|i: int| 0 <= i < body.len() ==> #[trigger] body[i] != '\r',
        forall|i: int| 0 <= i < marker.len() ==> #[trigger] marker[i] != '\r',
        forall|i: int| 0 <= i < id.len() ==> #[trigger] id[i] != '\r',
    ensures
        normalize_newlines(body + marker + trailer_rest(id)) == body + marker + trailer_rest(id),
{
    let text = body + marker + trailer_rest(id);
    lemma_composed(body, marker, id);
    assert forall|i: int| 0 <= i < text.len() implies #[trigger] text[i] != '\r' by {
        assert(text[i] == composed_at(body, marker, id, i));
    }
    lemma_normalize_without_cr(text);
}

/// Where the markers hold their line feeds, and what follows them.
proof fn lemma_line_feeds_of_markers()
    ensures
        exact_marker().len() == 16,
        forall|k: int| 0 <= k < 16 ==> (#[trigger] exact_marker()[k] == '\n' <==> k == 0 || k == 4),
        exact_marker()[5] != '-',
        loose_marker().len() == 15,
        forall|k: int| 0 <= k < 15 ==> (#[trigger] loose_marker()[k] == '\n' <==> k == 3),
        loose_marker()[2] == '-',
        loose_marker()[3] == '\n',
{
    reveal_strlit("\n---\nSESSION_ID:");
    reveal_strlit("---\nSESSION_ID:");
}

/// The exact marker that a well-formed trailer is introduced by is the last
/// one of the output.
proof fn lemma_exact_marker_is_last(body: Seq<char>, id: Seq<char>)
    requires
        forall|i: int| 0 <= i < id.len() ==> #[trigger] id[i] != '\n',
    ensures
        is_last_occurrence(
            body + exact_marker() + trailer_rest(id),
            exact_marker(),
            body.len() as int,
        ),
{
    lemma_line_feeds_of_markers();
    let marker = exact_marker();
    let text = body + marker + trailer_rest(id);
    let at = body.len() as int;
    lemma_composed(body, marker, id);
    assert forall|j: int| at < j implies !occurs_at(text, marker, j) by {
        if occurs_at(text, marker, j) {
            let w = text.subrange(j, j + 16);
            assert(text[j] == w[0]);
            assert(text[j + 1] == w[1]);
            assert(text[j] == composed_at(body, marker, id, j));
            assert(text[j + 1] == composed_at(body, marker, id, j + 1));
        }
    }
}

/// The loose marker that a well-formed trailer is introduced by is the last
/// one of the output.
proof fn lemma_loose_marker_is_last(body: Seq<char>, id: Seq<char>)
    requires
        forall|i: int| 0 <= i < id.len() ==> #[trigger] id[i] != '\n',
    ensures
        is_last_occurrence(
            body + loose_marker() + trailer_rest(id),
            loose_marker(),
            body.len() as int,
        ),
{
    lemma_line_feeds_of_markers();
    let marker = loose_marker();
    let text = body + marker + trailer_rest(id);
    let at = body.len() as int;
    lemma_composed(body, marker, id);
    assert forall|j: int| at < j implies !occurs_at(text, marker, j) by {
        if occurs_at(text, marker, j) {
            let w = text.subrange(j, j + 15);
            assert(text[j + 2] == w[2]);
            assert(text[j + 3] == w[3]);
            assert(text[j + 2] == composed_at(body, marker, id, j + 2));
            assert(text[j + 3] == composed_at(body, marker, id, j + 3));
        }
    }
}

/// The key that a well-formed trailer is introduced by is the last one of
/// the output, provided that the identifier does not hold the key.
proof fn lemma_key_is_last(body: Seq<char>, id: Seq<char>)
    requires
        forall|i: int| 0 <= i < id.len() ==> #[trigger] id[i] != '\n',
        !contains(id, session_key()),
    ensures
        is_last_occurrence(
            body + session_key() + trailer_rest(id),
            session_key(),
            body.len() as int,
        ),
{
    lemma_marker_texts();
    let key = session_key();
    let text = body + key + trailer_rest(id);
    let at = body.len() as int;
    let id_at = at + 12;
    lemma_composed(body, key, id);
    assert(key.len() == 11);
    assert forall|j: int| at < j implies !occurs_at(text, key, j) by {
        if occurs_at(text, key, j) {
            let w = text.subrange(j, j + 11);
            assert(text[j] == w[0]);
            assert(text[j + 1] == w[1]);
            assert(text[j + 10] == w[10]);
            assert(text[j] == composed_at(body, key, id, j));
            assert(text[j + 1] == composed_at(body, key, id, j + 1));
            assert(text[j + 10] == composed_at(body, key, id, j + 10));
            if j >= id_at {
                assert(j + 11 <= text.len() - 1);
                assert forall|k: int| 0 <= k < 11 implies id[j - id_at + k] == key[k] by {
                    assert(text[j + k] == w[k]);
                    assert(text[j + k] == composed_at(body, key, id, j + k));
                }
                assert(id.subrange(j - id_at, j - id_at + 11) =~= key);
                assert(occurs_at(id, key, j - id_at));
            }
        }
    }
}

/// The trailer in its exact form is read back. For every message body and
/// every identifier that a trailer can carry, provided that neither holds a
/// carriage return and that the identifier does not start with a colon: the
/// output made of the body, the exact marker, a blank, the identifier and a
/// line feed parses to the body without trailing dashes and surrounding
/// white space, and the identifier.
pub proof fn lemma_exact_trailer_parses(body: Seq<char>, id: Seq<char>)
    requires
        is_session_token(id),
        id[0] != ':',
        forall|i: int| 0 <= i < body.len() ==> #[trigger] body[i] != '\r',
        forall|i: int| 0 <= i < id.len() ==> #[trigger] id[i] != '\r',
    ensures
        parsed_output(body + exact_marker() + trailer_rest(id)) == (message_of(body), Some(id)),
{
    let marker = exact_marker();
    let text = body + marker + trailer_rest(id);
    assert forall|i: int| 0 <= i < marker.len() implies #[trigger] marker[i] != '\r' by {
        lemma_marker_texts();
    }
    lemma_composed_without_cr(body, marker, id);
    lemma_composed(body, marker, id);
    lemma_exact_marker_is_last(body, id);
    lemma_last_occurrence_is(text, marker, body.len() as int);
    lemma_token_of_rest(id, true);
}

/// The trailer in its loose form is read back. For every message body and
/// every identifier that a trailer can carry, provided that neither holds a
/// carriage return, that the identifier does not start with a colon, and that
/// the exact marker occurs nowhere in the output: the output made of the
/// body, the loose marker, a blank, the identifier and a line feed parses to
/// the body without trailing dashes and surrounding white space, and the
/// identifier.
pub proof fn lemma_loose_trailer_parses(body: Seq<char>, id: Seq<char>)
    requires
        is_session_token(id),
        id[0] != ':',
        forall|i: int| 0 <= i < body.len() ==> #[trigger] body[i] != '\r',
        forall|i: int| 0 <= i < id.len() ==> #[trigger] id[i] != '\r',
        !contains(body + loose_marker() + trailer_rest(id), exact_marker()),
    ensures
        parsed_output(body + loose_marker() + trailer_rest(id)) == (message_of(body), Some(id)),
{
    let marker = loose_marker();
    let text = body + marker + trailer_rest(id);
    assert forall|i: int| 0 <= i < marker.len() implies #[trigger] marker[i] != '\r' by {
        lemma_marker_texts();
    }
    lemma_composed_without_cr(body, marker, id);
    lemma_composed(body, marker, id);
    lemma_loose_marker_is_last(body, id);
    lemma_last_occurrence_is(text, marker, body.len() as int);
    lemma_token_of_rest(id, true);
}

/// The trailer in its bare form is read back. For every message body and
/// every identifier that a trailer can carry, provided that neither holds a
/// carriage return, that the key does not occur in the identifier, and that
/// neither marker occurs in the output: the output made of the body, the
/// key, a blank, the identifier and a line feed parses to the body without
/// trailing dashes and surrounding white space, and the identifier.
pub proof fn lemma_bare_trailer_parses(body: Seq<char>, id: Seq<char>)
    requires
        is_session_token(id),
        forall|i: int| 0 <= i < body.len() ==> #[trigger] body[i] != '\r',
        forall|i: int| 0 <= i < id.len() ==> #[trigger] id[i] != '\r',
        !contains(id, session_key()),
        !contains(body + session_key() + trailer_rest(id), exact_marker()),
        !contains(body + session_key() + trailer_rest(id), loose_marker()),
    ensures
        parsed_output(body + session_key() + trailer_rest(id)) == (message_of(body), Some(id)),
{
    let key = session_key();
    let text = body + key + trailer_rest(id);
    assert forall|i: int| 0 <= i < key.len() implies #[trigger] key[i] != '\r' by {
        lemma_marker_texts();
    }
    lemma_composed_without_cr(body, key, id);
    lemma_composed(body, key, id);
    lemma_key_is_last(body, id);
    lemma_last_occurrence_is(text, key, body.len() as int);
    lemma_token_of_rest(id, false);
}

} // verus!
