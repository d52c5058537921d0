//! Character-level text primitives shared by the rest of the library.
//!
//! Every text is modelled as the sequence of its Unicode scalar values. The
//! executable functions work on `Vec<char>` windows `[lo, hi)` so that callers
//! can narrow a text repeatedly without copying it.

use vstd::prelude::*;
use vstd::std_specs::iter::IteratorSpec;

verus! {

/// `String::push` appends exactly one character to the end of the string.
pub assume_specification[ String::push ](s: &mut String, c: char)
    ensures
        final(s)@ == old(s)@.push(c),
;

/// Collects the characters of `s`, in order.
pub fn chars_of(s: &str) -> (out: Vec<char>)
    ensures
        out@ == s@,
{
    let mut out: Vec<char> = Vec::new();
    for c in it: s.chars()
        invariant
            it.seq() == s@,
            out@ == it.seq().take(it.index() as int),
    {
        out.push(c);
    }
    out
}

/// Builds the string whose characters are `chars[lo..hi]`, in order.
pub fn substring(chars: &Vec<char>, lo: usize, hi: usize) -> (out: String)
    requires
        lo <= hi <= chars.len(),
    ensures
        out@ == chars@.subrange(lo as int, hi as int),
{
    let mut out = String::new();
    let mut i: usize = lo;
    while i < hi
        invariant
            lo <= i <= hi <= chars.len(),
            out@ == chars@.subrange(lo as int, i as int),
        decreases hi - i,
    {
        out.push(chars[i]);
        i += 1;
    }
    out
}

/// Builds the string whose characters are `chars`, in order.
pub fn string_of(chars: &Vec<char>) -> (out: String)
    ensures
        out@ == chars@,
{
    let out = substring(chars, 0, chars.len());
    assert(chars@.subrange(0, chars.len() as int) == chars@);
    out
}

/// The characters with the Unicode `White_Space` property.
pub open spec fn is_space(c: char) -> bool {
    let n = c as u32;
    ||| 0x09 <= n <= 0x0D
    ||| n == 0x20
    ||| n == 0x85
    ||| n == 0xA0
    ||| n == 0x1680
    ||| 0x2000 <= n <= 0x200A
    ||| n == 0x2028
    ||| n == 0x2029
    ||| n == 0x202F
    ||| n == 0x205F
    ||| n == 0x3000
}

/// Tells whether `c` is Unicode white space.
pub fn is_whitespace(c: char) -> (b: bool)
    ensures
        b == is_space(c),
{
    let n: u32 = c as u32;
    (0x09 <= n && n <= 0x0D) || n == 0x20 || n == 0x85 || n == 0xA0 || n == 0x1680 || (0x2000 <= n
        && n <= 0x200A) || n == 0x2028 || n == 0x2029 || n == 0x202F || n == 0x205F || n == 0x3000
}

/// A set of characters that can be stripped from the ends of a text.
#[derive(Clone, Copy, Debug)]
pub enum CharClass {
    /// Unicode white space.
    Whitespace,
    /// Exactly the given character.
    Just(char),
}

impl CharClass {
    /// Membership of `c` in the class.
    pub open spec fn holds(self, c: char) -> bool {
        match self {
            CharClass::Whitespace => is_space(c),
            CharClass::Just(d) => c == d,
        }
    }

    /// Tests membership of `c` in the class.
    pub fn test(&self, c: char) -> (b: bool)
        ensures
            b == self.holds(c),
    {
        match self {
            CharClass::Whitespace => is_whitespace(c),
            CharClass::Just(d) => c == *d,
        }
    }
}

/// `s` without its longest prefix made of characters of `class`.
pub open spec fn strip_start(s: Seq<char>, class: CharClass) -> Seq<char>
    decreases s.len(),
{
    if s.len() > 0 && class.holds(s[0]) {
        strip_start(s.skip(1), class)
    } else {
        s
    }
}

/// `s` without its longest suffix made of characters of `class`.
pub open spec fn strip_end(s: Seq<char>, class: CharClass) -> Seq<char>
    decreases s.len(),
{
    if s.len() > 0 && class.holds(s.last()) {
        strip_end(s.drop_last(), class)
    } else {
        s
    }
}

/// `s` without leading and trailing white space.
pub open spec fn trim(s: Seq<char>) -> Seq<char> {
    strip_end(strip_start(s, CharClass::Whitespace), CharClass::Whitespace)
}

/// Stripping a prefix of `k` class characters that is followed by the end of
/// the text or by a character outside the class leaves `s.skip(k)`.
pub proof fn lemma_strip_start(s: Seq<char>, class: CharClass, k: int)
    requires
        0 <= k <= s.len(),
        forall|i: int| 0 <= i < k ==> class.holds(#[trigger] s[i]),
        k < s.len() ==> !class.holds(s[k]),
    ensures
        strip_start(s, class) == s.skip(k),
    decreases k,
{
    if k == 0 {
        assert(s.skip(0) == s);
    } else {
        let t = s.skip(1);
        assert forall|i: int| 0 <= i < k - 1 implies class.holds(#[trigger] t[i]) by {
            assert(t[i] == s[i + 1]);
        }
        lemma_strip_start(t, class, k - 1);
        assert(t.skip(k - 1) == s.skip(k));
    }
}

/// Stripping a suffix of class characters that is preceded by the start of
/// the text or by a character outside the class leaves `s.take(k)`.
pub proof fn lemma_strip_end(s: Seq<char>, class: CharClass, k: int)
    requires
        0 <= k <= s.len(),
        forall|i: int| k <= i < s.len() ==> class.holds(#[trigger] s[i]),
        k > 0 ==> !class.holds(s[k - 1]),
    ensures
        strip_end(s, class) == s.take(k),
    decreases s.len() - k,
{
    if k == s.len() {
        assert(s.take(k) == s);
    } else {
        let t = s.drop_last();
        assert forall|i: int| k <= i < t.len() implies class.holds(#[trigger] t[i]) by {
            assert(t[i] == s[i]);
        }
        lemma_strip_end(t, class, k);
        assert(t.take(k) == s.take(k));
    }
}

/// Narrows the window `[lo, hi)` of `v` from the left past every leading
/// character of `class`.
pub fn strip_start_in(v: &Vec<char>, lo: usize, hi: usize, class: CharClass) -> (start: usize)
    requires
        lo <= hi <= v.len(),
    ensures
        lo <= start <= hi,
        v@.subrange(start as int, hi as int) == strip_start(
            v@.subrange(lo as int, hi as int),
            class,
        ),
{
    let mut start: usize = lo;
    while start < hi && class.test(v[start])
        invariant
            lo <= start <= hi <= v.len(),
            forall|i: int| lo <= i < start ==> class.holds(#[trigger] v@[i]),
        decreases hi - start,
    {
        start += 1;
    }
    proof {
        let s = v@.subrange(lo as int, hi as int);
        lemma_strip_start(s, class, start - lo);
        assert(s.skip(start - lo) == v@.subrange(start as int, hi as int));
    }
    start
}

/// Narrows the window `[lo, hi)` of `v` from the right past every trailing
/// character of `class`.
pub fn strip_end_in(v: &Vec<char>, lo: usize, hi: usize, class: CharClass) -> (end: usize)
    requires
        lo <= hi <= v.len(),
    ensures
        lo <= end <= hi,
        v@.subrange(lo as int, end as int) == strip_end(v@.subrange(lo as int, hi as int), class),
{
    let mut end: usize = hi;
    while end > lo && class.test(v[end - 1])
        invariant
            lo <= end <= hi <= v.len(),
            forall|i: int| end <= i < hi ==> class.holds(#[trigger] v@[i]),
        decreases end - lo,
    {
        end -= 1;
    }
    proof {
        let s = v@.subrange(lo as int, hi as int);
        lemma_strip_end(s, class, end - lo);
        assert(s.take(end - lo) == v@.subrange(lo as int, end as int));
    }
    end
}

/// `pat` occurs in `text` at index `i`.
pub open spec fn occurs_at(text: Seq<char>, pat: Seq<char>, i: int) -> bool {
    &&& 0 <= i
    &&& i + pat.len() <= text.len()
    &&& text.subrange(i, i + pat.len()) == pat
}

/// `pat` occurs somewhere in `text`.
pub open spec fn contains(text: Seq<char>, pat: Seq<char>) -> bool {
    exists|i: int| occurs_at(text, pat, i)
}

/// `pat` occurs in `text` at index `i` and at no greater index.
pub open spec fn is_last_occurrence(text: Seq<char>, pat: Seq<char>, i: int) -> bool {
    &&& occurs_at(text, pat, i)
    &&& forall|j: int| i < j ==> !occurs_at(text, pat, j)
}

/// The greatest index at which `pat` occurs in `text`, if it occurs at all.
pub open spec fn last_occurrence(text: Seq<char>, pat: Seq<char>) -> Option<int> {
    if contains(text, pat) {
        Some(choose|i: int| is_last_occurrence(text, pat, i))
    } else {
        None
    }
}

/// An index known to be the last occurrence is the one `last_occurrence` names.
pub proof fn lemma_last_occurrence_is(text: Seq<char>, pat: Seq<char>, i: int)
    requires
        is_last_occurrence(text, pat, i),
    ensures
        last_occurrence(text, pat) == Some(i),
{
    assert(occurs_at(text, pat, i));
    let c = choose|c: int| is_last_occurrence(text, pat, c);
    assert(is_last_occurrence(text, pat, c));
    if c < i {
        assert(!occurs_at(text, pat, i));
    }
    if i < c {
        assert(!occurs_at(text, pat, c));
    }
}

/// Tests whether `pat` occurs in `text` at index `i`.
pub fn matches_at(text: &Vec<char>, pat: &Vec<char>, i: usize) -> (b: bool)
    ensures
        b == occurs_at(text@, pat@, i as int),
{
    if pat.len() > text.len() || i > text.len() - pat.len() {
        return false;
    }
    let mut k: usize = 0;
    while k < pat.len()
        invariant
            k <= pat.len(),
            i + pat.len() <= text.len(),
            forall|j: int| 0 <= j < k ==> text@[i + j] == pat@[j],
        decreases pat.len() - k,
    {
        if text[i + k] != pat[k] {
            proof {
                let window = text@.subrange(i as int, i + pat.len());
                assert(window[k as int] != pat@[k as int]);
            }
            return false;
        }
        k += 1;
    }
    assert(text@.subrange(i as int, i + pat.len()) =~= pat@);
    true
}

/// Finds the greatest index at which `pat` occurs in `text`.
pub fn rfind(text: &Vec<char>, pat: &Vec<char>) -> (found: Option<usize>)
    ensures
        match found {
            Some(i) => last_occurrence(text@, pat@) == Some(i as int) && is_last_occurrence(
                text@,
                pat@,
                i as int,
            ),
            None => last_occurrence(text@, pat@) is None,
        },
{
    if pat.len() > text.len() {
        return None;
    }
    let mut i: usize = text.len() - pat.len();
    loop
        invariant
            pat.len() <= text.len(),
            i <= text.len() - pat.len(),
            forall|j: int| i < j ==> !occurs_at(text@, pat@, j),
        decreases i,
    {
        if matches_at(text, pat, i) {
            proof {
                lemma_last_occurrence_is(text@, pat@, i as int);
            }
            return Some(i);
        }
        if i == 0 {
            return None;
        }
        i -= 1;
    }
}

/// Tests whether `pat` occurs somewhere in `text`.
pub fn contains_chars(text: &Vec<char>, pat: &Vec<char>) -> (b: bool)
    ensures
        b == contains(text@, pat@),
{
    rfind(text, pat).is_some()
}

/// `s` with every carriage return that is directly followed by a line feed
/// removed, so that each `"\r\n"` becomes `"\n"`.
pub open spec fn normalize_newlines(s: Seq<char>) -> Seq<char>
    decreases s.len(),
{
    if s.len() == 0 {
        s
    } else if s.len() >= 2 && s[0] == '\r' && s[1] == '\n' {
        normalize_newlines(s.skip(1))
    } else {
        seq![s[0]] + normalize_newlines(s.skip(1))
    }
}

/// Replaces each `"\r\n"` of `v` by `"\n"`.
pub fn normalized(v: &Vec<char>) -> (out: Vec<char>)
    ensures
        out@ == normalize_newlines(v@),
{
    let mut out: Vec<char> = Vec::new();
    let mut i: usize = 0;
    proof {
        assert(v@.skip(0) == v@);
        assert(out@ + normalize_newlines(v@) == normalize_newlines(v@));
    }
    while i < v.len()
        invariant
            i <= v.len(),
            out@ + normalize_newlines(v@.skip(i as int)) == normalize_newlines(v@),
        decreases v.len() - i,
    {
        let ghost rest = v@.skip(i as int);
        proof {
            assert(rest.skip(1) == v@.skip(i + 1));
            assert(rest[0] == v@[i as int]);
        }
        if v[i] == '\r' && i + 1 < v.len() && v[i + 1] == '\n' {
            proof {
                assert(rest[1] == v@[i + 1]);
            }
        } else {
            let ghost before = out@;
            out.push(v[i]);
            proof {
                assert(out@ + normalize_newlines(rest.skip(1)) == before + (seq![rest[0]]
                    + normalize_newlines(rest.skip(1))));
            }
        }
        i += 1;
    }
    proof {
        assert(v@.skip(v.len() as int).len() == 0);
        assert(out@ + Seq::<char>::empty() == out@);
    }
    out
}

/// The longest prefix of `s` that holds no line feed.
pub open spec fn first_line(s: Seq<char>) -> Seq<char>
    decreases s.len(),
{
    if s.len() == 0 || s[0] == '\n' {
        Seq::empty()
    } else {
        seq![s[0]] + first_line(s.skip(1))
    }
}

/// A prefix without line feed that is followed by the end of the text or by a
/// line feed is the first line.
pub proof fn lemma_first_line(s: Seq<char>, k: int)
    requires
        0 <= k <= s.len(),
        forall|i: int| 0 <= i < k ==> #[trigger] s[i] != '\n',
        k < s.len() ==> s[k] == '\n',
    ensures
        first_line(s) == s.take(k),
    decreases k,
{
    if k == 0 {
        assert(s.take(0) == Seq::<char>::empty());
    } else {
        let t = s.skip(1);
        assert forall|i: int| 0 <= i < k - 1 implies #[trigger] t[i] != '\n' by {
            assert(t[i] == s[i + 1]);
        }
        lemma_first_line(t, k - 1);
        assert(seq![s[0]] + t.take(k - 1) == s.take(k));
    }
}

/// Finds where the first line of the window `[lo, hi)` of `v` ends.
pub fn first_line_end(v: &Vec<char>, lo: usize, hi: usize) -> (end: usize)
    requires
        lo <= hi <= v.len(),
    ensures
        lo <= end <= hi,
        v@.subrange(lo as int, end as int) == first_line(v@.subrange(lo as int, hi as int)),
{
    let mut end: usize = lo;
    while end < hi && v[end] != '\n'
        invariant
            lo <= end <= hi <= v.len(),
            forall|i: int| lo <= i < end ==> #[trigger] v@[i] != '\n',
        decreases hi - end,
    {
        end += 1;
    }
    proof {
        let s = v@.subrange(lo as int, hi as int);
        lemma_first_line(s, end - lo);
        assert(s.take(end - lo) == v@.subrange(lo as int, end as int));
    }
    end
}

/// The lower-case form that `str::to_lowercase` gives to a text.
pub uninterp spec fn lowercase_of(s: Seq<char>) -> Seq<char>;

/// `str::to_lowercase` maps a text to its lower-case form by the Unicode
/// case tables; the result depends on the text alone.
pub assume_specification[ str::to_lowercase ](s: &str) -> (out: String)
    ensures
        out@ == lowercase_of(s@),
;

/// `c` with an ASCII upper-case letter replaced by its lower-case letter.
pub open spec fn ascii_lower(c: char) -> char {
    if 'A' <= c <= 'Z' {
        ((c as u8) + 32) as char
    } else {
        c
    }
}

/// `a` and `b` are equal up to the case of their ASCII letters.
pub open spec fn eq_ignore_ascii_case(a: Seq<char>, b: Seq<char>) -> bool {
    &&& a.len() == b.len()
    &&& forall|i: int| 0 <= i < a.len() ==> ascii_lower(#[trigger] a[i]) == ascii_lower(b[i])
}

/// Replaces an ASCII upper-case letter by its lower-case letter.
pub fn to_ascii_lower(c: char) -> (out: char)
    ensures
        out == ascii_lower(c),
{
    if 'A' <= c && c <= 'Z' {
        let b: u8 = c as u8;
        (b + 32) as char
    } else {
        c
    }
}

/// Tests whether the window `[lo, hi)` of `v` equals `other` up to the case
/// of ASCII letters.
pub fn window_eq_ignore_ascii_case(v: &Vec<char>, lo: usize, hi: usize, other: &Vec<char>) -> (b:
    bool)
    requires
        lo <= hi <= v.len(),
    ensures
        b == eq_ignore_ascii_case(v@.subrange(lo as int, hi as int), other@),
{
    if hi - lo != other.len() {
        return false;
    }
    let ghost window = v@.subrange(lo as int, hi as int);
    let mut k: usize = 0;
    while k < other.len()
        invariant
            lo <= hi <= v.len(),
            hi - lo == other.len(),
            k <= other.len(),
            window == v@.subrange(lo as int, hi as int),
            forall|i: int| 0 <= i < k ==> ascii_lower(#[trigger] window[i]) == ascii_lower(other@[i]),
        decreases other.len() - k,
    {
        if to_ascii_lower(v[lo + k]) != to_ascii_lower(other[k]) {
            assert(window[k as int] == v@[lo + k]);
            return false;
        }
        assert(window[k as int] == v@[lo + k]);
        k += 1;
    }
    true
}

/// The decimal digit that stands for `d`.
pub open spec fn digit(d: nat) -> char
    recommends
        d < 10,
{
    (('0' as u8) + d) as char
}

/// The decimal numeral of `n`, without leading zeros.
pub open spec fn decimal(n: nat) -> Seq<char>
    decreases n,
{
    if n < 10 {
        seq![digit(n)]
    } else {
        decimal(n / 10).push(digit(n % 10))
    }
}

/// The decimal numeral of `i`, with a minus sign in front where it is
/// negative.
pub open spec fn signed_decimal(i: int) -> Seq<char> {
    if i < 0 {
        seq!['-'] + decimal((-i) as nat)
    } else {
        decimal(i as nat)
    }
}

/// Appends the decimal numeral of `n` to `out`.
pub fn push_decimal(out: &mut String, n: u64)
    ensures
        final(out)@ == old(out)@ + decimal(n as nat),
    decreases n,
{
    if n >= 10 {
        push_decimal(out, n / 10);
    }
    let d: u8 = (n % 10) as u8;
    out.push((48u8 + d) as char);
    proof {
        let numeral = decimal(n as nat);
        if n >= 10 {
            assert(old(out)@ + decimal((n / 10) as nat).push(digit((n % 10) as nat)) == (old(out)@
                + decimal((n / 10) as nat)).push(digit((n % 10) as nat)));
        } else {
            assert(old(out)@ + seq![digit(n as nat)] == old(out)@.push(digit(n as nat)));
        }
    }
}

/// The decimal numeral of `n`.
pub fn decimal_string(n: u64) -> (out: String)
    ensures
        out@ == decimal(n as nat),
{
    let mut out = String::new();
    push_decimal(&mut out, n);
    assert(Seq::<char>::empty() + decimal(n as nat) == decimal(n as nat));
    out
}

/// The decimal numeral of `i`, signed.
pub fn signed_decimal_string(i: i32) -> (out: String)
    ensures
        out@ == signed_decimal(i as int),
{
    let mut out = String::new();
    if i < 0 {
        out.push('-');
        let magnitude: u64 = (-(i as i64)) as u64;
        push_decimal(&mut out, magnitude);
        assert(Seq::<char>::empty().push('-') == seq!['-']);
    } else {
        push_decimal(&mut out, i as u64);
        assert(Seq::<char>::empty() + decimal(i as nat) == decimal(i as nat));
    }
    out
}

/// The texts of a list of strings, in order.
pub open spec fn texts(v: Seq<String>) -> Seq<Seq<char>> {
    Seq::new(v.len(), |i: int| v[i]@)
}

/// Appends `s` to `v`.
pub fn push_text(v: &mut Vec<String>, s: String)
    ensures
        texts(final(v)@) == texts(old(v)@).push(s@),
{
    v.push(s);
    assert(texts(v@) =~= texts(old(v)@).push(s@));
}

/// Copies `s` without leading and trailing white space.
pub fn trimmed(s: &str) -> (out: String)
    ensures
        out@ == trim(s@),
{
    let v = chars_of(s);
    assert(v@.subrange(0, v.len() as int) == v@);
    let lo = strip_start_in(&v, 0, v.len(), CharClass::Whitespace);
    let hi = strip_end_in(&v, lo, v.len(), CharClass::Whitespace);
    substring(&v, lo, hi)
}

/// The texts of a list of pairs of strings, in order.
pub open spec fn text_pairs(v: Seq<(String, String)>) -> Seq<(Seq<char>, Seq<char>)> {
    Seq::new(v.len(), |i: int| (v[i].0@, v[i].1@))
}

/// Appends the pair of `key` and `value` to `v`.
pub fn push_pair(v: &mut Vec<(String, String)>, key: String, value: String)
    ensures
        text_pairs(final(v)@) == text_pairs(old(v)@).push((key@, value@)),
{
    v.push((key, value));
    assert(text_pairs(v@) =~= text_pairs(old(v)@).push((key@, value@)));
}

/// Tests whether two texts are the same.
pub fn same_text(a: &str, b: &str) -> (same: bool)
    ensures
        same == (a@ == b@),
{
    let x = chars_of(a);
    let y = chars_of(b);
    if x.len() != y.len() {
        return false;
    }
    let mut i: usize = 0;
    while i < x.len()
        invariant
            x@ == a@,
            y@ == b@,
            x.len() == y.len(),
            i <= x.len(),
            forall|k: int| 0 <= k < i ==> x@[k] == y@[k],
        decreases x.len() - i,
    {
        if x[i] != y[i] {
            assert(a@[i as int] != b@[i as int]);
            return false;
        }
        i += 1;
    }
    assert(x@ =~= y@);
    true
}

/// The view of an optional string.
pub open spec fn opt_text(o: Option<String>) -> Option<Seq<char>> {
    match o {
        Some(s) => Some(s@),
        None => None,
    }
}

/// A copy of an optional string.
pub fn clone_text(o: &Option<String>) -> (out: Option<String>)
    ensures
        out == *o,
{
    match o {
        Some(s) => Some(s.clone()),
        None => None,
    }
}

} // verus!
