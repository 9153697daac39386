//! Character-level building blocks of the filter grammar: whitespace,
//! splitting on a delimiter, splitting into words, trimming and decimal
//! integers. Every executable function works on a window of a character
//! slice and is proved to compute a function on plain sequences.

use vstd::prelude::*;
use vstd::string::*;
use vstd::utf8::*;

verus! {

/// A half-open window `start..end` into a sequence of characters.
#[derive(Clone, Copy, Debug, PartialEq, Eq)]
pub struct Span {
    pub start: usize,
    pub end: usize,
}

impl Span {
    /// The window lies inside `s`.
    pub open spec fn within(self, s: Seq<char>) -> bool {
        self.start <= self.end <= s.len()
    }

    /// The characters of `s` that the window covers.
    pub open spec fn text(self, s: Seq<char>) -> Seq<char> {
        s.subrange(self.start as int, self.end as int)
    }
}

/// The texts that a list of windows covers, in order.
pub open spec fn texts(s: Seq<char>, spans: Seq<Span>) -> Seq<Seq<char>> {
    Seq::new(spans.len(), |k: int| spans[k].text(s))
}

/// Every window of the list lies inside `s`.
pub open spec fn all_within(s: Seq<char>, spans: Seq<Span>) -> bool {
    forall|k: int| 0 <= k < spans.len() ==> (#[trigger] spans[k]).within(s)
}

/// The characters of `s`, in order.
pub fn chars_of(s: &str) -> (chars: Vec<char>)
    ensures
        chars@ == s@,
{
    let mut chars: Vec<char> = Vec::new();
    for c in it: s.chars()
        invariant
            chars@ == it.seq().take(it.index() as int),
            it.seq() == s@,
    {
        chars.push(c);
    }
    chars
}

/// The part of `s` that the window covers.
pub fn cut(s: &str, window: Span) -> (r: &str)
    requires
        window.within(s@),
    ensures
        r@ == window.text(s@),
{
    s.substring_char(window.start, window.end)
}

/// The code points with the Unicode property White_Space.
pub open spec fn is_whitespace(c: char) -> bool {
    let n = c as u32;
    ||| 0x09 <= n <= 0x0d
    ||| n == 0x20
    ||| n == 0x85
    ||| n == 0xa0
    ||| n == 0x1680
    ||| 0x2000 <= n <= 0x200a
    ||| n == 0x2028
    ||| n == 0x2029
    ||| n == 0x202f
    ||| n == 0x205f
    ||| n == 0x3000
}

/// Whether `c` separates words.
pub fn is_space(c: char) -> (r: bool)
    ensures
        r == is_whitespace(c),
{
    let n: u32 = c as u32;
    (0x09 <= n && n <= 0x0d) || n == 0x20 || n == 0x85 || n == 0xa0 || n == 0x1680 || (0x2000 <= n
        && n <= 0x200a) || n == 0x2028 || n == 0x2029 || n == 0x202f || n == 0x205f || n == 0x3000
}

/// `pat` stands in `s` at index `at`.
pub open spec fn occurs_at(s: Seq<char>, pat: Seq<char>, at: int) -> bool {
    0 <= at && at + pat.len() <= s.len() && s.subrange(at, at + pat.len()) == pat
}

/// The least index at or after `from` at which `pat` occurs in `s`.
pub open spec fn first_match_from(s: Seq<char>, pat: Seq<char>, from: int) -> Option<int>
    decreases s.len() + 1 - from,
{
    if from < 0 || from + pat.len() > s.len() {
        None
    } else if occurs_at(s, pat, from) {
        Some(from)
    } else {
        first_match_from(s, pat, from + 1)
    }
}

/// The least index at which `pat` occurs in `s`.
pub open spec fn first_match(s: Seq<char>, pat: Seq<char>) -> Option<int> {
    first_match_from(s, pat, 0)
}

/// `first_match_from` finds an occurrence, and none lies before it; where it
/// finds nothing there is none.
pub proof fn lemma_first_match_from(s: Seq<char>, pat: Seq<char>, from: int)
    requires
        0 <= from,
    ensures
        match first_match_from(s, pat, from) {
            Some(i) => {
                &&& from <= i
                &&& occurs_at(s, pat, i)
                &&& forall|j: int| from <= j < i ==> !occurs_at(s, pat, j)
            },
            None => forall|j: int| from <= j ==> !occurs_at(s, pat, j),
        },
    decreases s.len() + 1 - from,
{
    if from + pat.len() <= s.len() && !occurs_at(s, pat, from) {
        lemma_first_match_from(s, pat, from + 1);
    }
}

/// The pieces of `s` between the occurrences of the delimiter `pat`, taken
/// from the left without overlap. There is always at least one piece.
pub open spec fn split_on(s: Seq<char>, pat: Seq<char>) -> Seq<Seq<char>>
    decreases s.len(),
    via split_on_decreases
{
    match first_match(s, pat) {
        Some(i) if pat.len() > 0 => seq![s.take(i)] + split_on(s.skip(i + pat.len()), pat),
        _ => seq![s],
    }
}

#[via_fn]
proof fn split_on_decreases(s: Seq<char>, pat: Seq<char>) {
    lemma_first_match_from(s, pat, 0);
}

/// Whether `pat` stands in `chars` at index `at`.
pub fn matches_at(chars: &[char], at: usize, pat: &[char]) -> (r: bool)
    ensures
        r == occurs_at(chars@, pat@, at as int),
{
    if pat.len() > chars.len() || at > chars.len() - pat.len() {
        return false;
    }
    let mut j: usize = 0;
    while j < pat.len()
        invariant
            j <= pat.len(),
            at + pat.len() <= chars.len(),
            forall|k: int| 0 <= k < j ==> chars[at + k] == pat[k],
        decreases pat.len() - j,
    {
        if chars[at + j] != pat[j] {
            assert(chars@.subrange(at as int, at + pat.len())[j as int] != pat@[j as int]);
            return false;
        }
        j += 1;
    }
    assert(chars@.subrange(at as int, at + pat.len()) =~= pat@);
    true
}

/// The index of the first occurrence of `pat` inside the window.
pub fn find(chars: &[char], window: Span, pat: &[char]) -> (r: Option<usize>)
    requires
        window.within(chars@),
    ensures
        match r {
            Some(i) => window.start <= i && first_match(window.text(chars@), pat@) == Some(
                i - window.start,
            ),
            None => first_match(window.text(chars@), pat@) is None,
        },
{
    if window.end - window.start < pat.len() {
        return None;
    }
    let last: usize = window.end - pat.len();
    let mut i: usize = window.start;
    let ghost text = window.text(chars@);
    loop
        invariant
            window.within(chars@),
            text == window.text(chars@),
            last == window.end - pat.len(),
            window.start <= i <= last,
            first_match_from(text, pat@, i - window.start) == first_match(text, pat@),
        decreases last - i,
    {
        let here = matches_at(chars, i, pat);
        assert(text.subrange(i - window.start, i - window.start + pat.len()) =~= chars@.subrange(
            i as int,
            i + pat.len(),
        ));
        if here {
            return Some(i);
        }
        if i == last {
            assert(first_match_from(text, pat@, i - window.start + 1) is None);
            return None;
        }
        i += 1;
    }
}

/// The windows of the pieces into which the delimiter `pat` splits the
/// window, in order. An empty delimiter splits nothing.
pub fn split(chars: &[char], window: Span, pat: &[char]) -> (spans: Vec<Span>)
    requires
        window.within(chars@),
    ensures
        all_within(chars@, spans@),
        texts(chars@, spans@) == split_on(window.text(chars@), pat@),
        forall|k: int|
            0 <= k < spans.len() ==> window.start <= (#[trigger] spans[k]).start && spans[k].end
                <= window.end,
{
    let mut spans: Vec<Span> = Vec::new();
    if pat.len() == 0 {
        spans.push(window);
        assert(texts(chars@, spans@) =~= seq![window.text(chars@)]);
        return spans;
    }
    let mut rest = window;
    loop
        invariant
            window.within(chars@),
            rest.within(chars@),
            window.start <= rest.start,
            rest.end == window.end,
            pat.len() > 0,
            all_within(chars@, spans@),
            forall|k: int|
                0 <= k < spans.len() ==> window.start <= (#[trigger] spans[k]).start
                    && spans[k].end <= window.end,
            split_on(window.text(chars@), pat@) == texts(chars@, spans@) + split_on(
                rest.text(chars@),
                pat@,
            ),
        decreases rest.end - rest.start,
    {
        let ghost before = texts(chars@, spans@);
        let ghost tail = rest.text(chars@);
        proof {
            lemma_first_match_from(tail, pat@, 0);
        }
        match find(chars, rest, pat) {
            Some(i) => {
                let piece = Span { start: rest.start, end: i };
                let next = Span { start: i + pat.len(), end: rest.end };
                proof {
                    assert(tail.take(i - rest.start) =~= piece.text(chars@));
                    assert(tail.skip(i - rest.start + pat.len()) =~= next.text(chars@));
                    assert(texts(chars@, spans@.push(piece)) =~= before + seq![
                        piece.text(chars@),
                    ]);
                    let head = seq![piece.text(chars@)];
                    let others = split_on(next.text(chars@), pat@);
                    assert(split_on(tail, pat@) == head + others);
                    assert(before + (head + others) =~= (before + head) + others);
                }
                spans.push(piece);
                rest = next;
            },
            None => {
                proof {
                    assert(texts(chars@, spans@.push(rest)) =~= before + seq![tail]);
                }
                spans.push(rest);
                return spans;
            },
        }
    }
}

/// The number of characters of `s` before its first whitespace.
pub open spec fn word_len(s: Seq<char>) -> nat
    decreases s.len(),
{
    if s.len() == 0 || is_whitespace(s[0]) {
        0
    } else {
        1 + word_len(s.drop_first())
    }
}

/// `word_len` stays inside `s`, covers no whitespace, and stops at one.
pub proof fn lemma_word_len(s: Seq<char>)
    ensures
        word_len(s) <= s.len(),
        forall|j: int| 0 <= j < word_len(s) ==> !is_whitespace(#[trigger] s[j]),
        word_len(s) < s.len() ==> is_whitespace(s[word_len(s) as int]),
    decreases s.len(),
{
    if s.len() > 0 && !is_whitespace(s[0]) {
        let rest = s.drop_first();
        lemma_word_len(rest);
        assert forall|j: int| 0 <= j < word_len(s) implies !is_whitespace(#[trigger] s[j]) by {
            if j > 0 {
                assert(s[j] == rest[j - 1]);
            }
        }
        if word_len(s) < s.len() {
            assert(s[word_len(s) as int] == rest[word_len(rest) as int]);
        }
    }
}

/// The maximal runs of non-whitespace characters of `s`, in order.
pub open spec fn words(s: Seq<char>) -> Seq<Seq<char>>
    decreases s.len(),
    via words_decreases
{
    if s.len() == 0 {
        Seq::empty()
    } else if is_whitespace(s[0]) {
        words(s.drop_first())
    } else {
        seq![s.take(word_len(s) as int)] + words(s.skip(word_len(s) as int))
    }
}

#[via_fn]
proof fn words_decreases(s: Seq<char>) {
    lemma_word_len(s);
}

/// The windows of the words inside the window, in order.
pub fn word_spans(chars: &[char], window: Span) -> (spans: Vec<Span>)
    requires
        window.within(chars@),
    ensures
        all_within(chars@, spans@),
        texts(chars@, spans@) == words(window.text(chars@)),
        forall|k: int|
            0 <= k < spans.len() ==> window.start <= (#[trigger] spans[k]).start && spans[k].end
                <= window.end,
{
    let mut spans: Vec<Span> = Vec::new();
    let mut i: usize = window.start;
    while i < window.end
        invariant
            window.within(chars@),
            window.start <= i <= window.end,
            all_within(chars@, spans@),
            forall|k: int|
                0 <= k < spans.len() ==> window.start <= (#[trigger] spans[k]).start
                    && spans[k].end <= window.end,
            words(window.text(chars@)) == texts(chars@, spans@) + words(
                chars@.subrange(i as int, window.end as int),
            ),
        decreases window.end - i,
    {
        let ghost before = texts(chars@, spans@);
        let ghost tail = chars@.subrange(i as int, window.end as int);
        if is_space(chars[i]) {
            assert(tail.drop_first() =~= chars@.subrange(i + 1, window.end as int));
            i += 1;
        } else {
            let start: usize = i;
            while i < window.end && !is_space(chars[i])
                invariant
                    window.within(chars@),
                    start <= i <= window.end,
                    start < window.end,
                    !is_whitespace(chars@[start as int]),
                    tail == chars@.subrange(start as int, window.end as int),
                    word_len(tail) == (i - start) + word_len(
                        chars@.subrange(i as int, window.end as int),
                    ),
                decreases window.end - i,
            {
                assert(chars@.subrange(i as int, window.end as int).drop_first()
                    =~= chars@.subrange(i + 1, window.end as int));
                i += 1;
            }
            let word = Span { start, end: i };
            proof {
                assert(word_len(tail) == i - start);
                assert(tail.take(i - start) =~= word.text(chars@));
                assert(tail.skip(i - start) =~= chars@.subrange(i as int, window.end as int));
                assert(texts(chars@, spans@.push(word)) =~= before + seq![word.text(chars@)]);
                assert(before + (seq![word.text(chars@)] + words(
                    chars@.subrange(i as int, window.end as int),
                )) =~= (before + seq![word.text(chars@)]) + words(
                    chars@.subrange(i as int, window.end as int),
                ));
            }
            spans.push(word);
        }
    }
    assert(texts(chars@, spans@) + Seq::<Seq<char>>::empty() =~= texts(chars@, spans@));
    spans
}

/// `s` without its leading run of `c`.
pub open spec fn trimmed_start(s: Seq<char>, c: char) -> Seq<char>
    decreases s.len(),
{
    if s.len() > 0 && s[0] == c {
        trimmed_start(s.drop_first(), c)
    } else {
        s
    }
}

/// `s` without its trailing run of `c`.
pub open spec fn trimmed_end(s: Seq<char>, c: char) -> Seq<char>
    decreases s.len(),
{
    if s.len() > 0 && s.last() == c {
        trimmed_end(s.drop_last(), c)
    } else {
        s
    }
}

/// `s` without its leading and trailing runs of `c`.
pub open spec fn trimmed(s: Seq<char>, c: char) -> Seq<char> {
    trimmed_end(trimmed_start(s, c), c)
}

/// The window without its leading run of `c`.
pub fn trim_start(chars: &[char], window: Span, c: char) -> (r: Span)
    requires
        window.within(chars@),
    ensures
        r.within(chars@),
        window.start <= r.start,
        r.end == window.end,
        r.text(chars@) == trimmed_start(window.text(chars@), c),
{
    let mut i: usize = window.start;
    while i < window.end && chars[i] == c
        invariant
            window.within(chars@),
            window.start <= i <= window.end,
            trimmed_start(chars@.subrange(i as int, window.end as int), c) == trimmed_start(
                window.text(chars@),
                c,
            ),
        decreases window.end - i,
    {
        assert(chars@.subrange(i as int, window.end as int).drop_first() =~= chars@.subrange(
            i + 1,
            window.end as int,
        ));
        i += 1;
    }
    Span { start: i, end: window.end }
}

/// The window without its trailing run of `c`.
pub fn trim_end(chars: &[char], window: Span, c: char) -> (r: Span)
    requires
        window.within(chars@),
    ensures
        r.within(chars@),
        r.start == window.start,
        r.end <= window.end,
        r.text(chars@) == trimmed_end(window.text(chars@), c),
{
    let mut i: usize = window.end;
    while i > window.start && chars[i - 1] == c
        invariant
            window.within(chars@),
            window.start <= i <= window.end,
            trimmed_end(chars@.subrange(window.start as int, i as int), c) == trimmed_end(
                window.text(chars@),
                c,
            ),
        decreases i - window.start,
    {
        assert(chars@.subrange(window.start as int, i as int).drop_last() =~= chars@.subrange(
            window.start as int,
            i - 1,
        ));
        i -= 1;
    }
    Span { start: window.start, end: i }
}

/// The window without its leading and trailing runs of `c`.
pub fn trim(chars: &[char], window: Span, c: char) -> (r: Span)
    requires
        window.within(chars@),
    ensures
        r.within(chars@),
        window.start <= r.start,
        r.end <= window.end,
        r.text(chars@) == trimmed(window.text(chars@), c),
{
    let front = trim_start(chars, window, c);
    trim_end(chars, front, c)
}

/// `c` is one of the ten ASCII digits.
pub open spec fn is_digit(c: char) -> bool {
    0x30 <= c as u32 <= 0x39
}

/// The number that an ASCII digit stands for.
pub open spec fn digit_value(c: char) -> nat {
    (c as u32 - 0x30) as nat
}

/// Every character of `s` is an ASCII digit.
pub open spec fn all_digits(s: Seq<char>) -> bool {
    forall|i: int| 0 <= i < s.len() ==> is_digit(#[trigger] s[i])
}

/// The number that a run of digits denotes in base ten; leading zeros count
/// for nothing.
pub open spec fn decimal(s: Seq<char>) -> nat
    decreases s.len(),
{
    if s.len() == 0 {
        0
    } else {
        10 * decimal(s.drop_last()) + digit_value(s.last())
    }
}

/// A prefix of a run of digits denotes no more than the whole run.
pub proof fn lemma_decimal_prefix(s: Seq<char>, k: int)
    requires
        0 <= k <= s.len(),
    ensures
        decimal(s.take(k)) <= decimal(s),
    decreases s.len(),
{
    if k == s.len() {
        assert(s.take(k) =~= s);
    } else {
        assert(s.drop_last().take(k) =~= s.take(k));
        lemma_decimal_prefix(s.drop_last(), k);
    }
}

/// The signed 64-bit integer that a non-empty run of ASCII digits denotes
/// under a sign, where it lies within the range of `i64`.
pub open spec fn signed_decimal(negative: bool, digits: Seq<char>) -> Option<i64> {
    let value: int = if negative {
        -decimal(digits)
    } else {
        decimal(digits) as int
    };
    if digits.len() > 0 && all_digits(digits) && i64::MIN <= value <= i64::MAX {
        Some(value as i64)
    } else {
        None
    }
}

/// The signed 64-bit integer that `s` denotes: an optional sign `+` or `-`,
/// then one or more ASCII digits, the whole within the range of `i64`.
pub open spec fn integer_of(s: Seq<char>) -> Option<i64> {
    if s.len() > 0 && s[0] == '-' {
        signed_decimal(true, s.drop_first())
    } else if s.len() > 0 && s[0] == '+' {
        signed_decimal(false, s.drop_first())
    } else {
        signed_decimal(false, s)
    }
}

/// The integer that the window denotes, if it denotes one.
pub fn parse_integer(chars: &[char], window: Span) -> (r: Option<i64>)
    requires
        window.within(chars@),
    ensures
        r == integer_of(window.text(chars@)),
{
    let ghost s = window.text(chars@);
    if window.start == window.end {
        return None;
    }
    let first = chars[window.start];
    assert(s[0] == first);
    let negative = first == '-';
    let signed = first == '-' || first == '+';
    let begin: usize = if signed {
        window.start + 1
    } else {
        window.start
    };
    let ghost body = chars@.subrange(begin as int, window.end as int);
    assert(body =~= if signed {
        s.drop_first()
    } else {
        s
    });
    if begin == window.end {
        return None;
    }
    let limit: u64 = if negative {
        0x8000_0000_0000_0000
    } else {
        0x7fff_ffff_ffff_ffff
    };
    let mut acc: u64 = 0;
    let mut i: usize = begin;
    while i < window.end
        invariant
            window.within(chars@),
            begin <= i <= window.end,
            body == chars@.subrange(begin as int, window.end as int),
            integer_of(window.text(chars@)) == signed_decimal(negative, body),
            all_digits(body.take(i - begin)),
            acc == decimal(body.take(i - begin)),
            acc <= limit,
            limit == if negative {
                0x8000_0000_0000_0000u64
            } else {
                0x7fff_ffff_ffff_ffffu64
            },
        decreases window.end - i,
    {
        let c: char = chars[i];
        let n: u32 = c as u32;
        assert(body[i - begin] == c);
        if n < 0x30 || n > 0x39 {
            return None;
        }
        let d: u64 = (n - 0x30) as u64;
        let ghost longer = body.take(i - begin + 1);
        proof {
            assert(longer.drop_last() =~= body.take(i - begin));
            assert(longer.last() == chars@[i as int]);
            assert(decimal(longer) == 10 * acc + d);
            assert forall|j: int| 0 <= j < longer.len() implies is_digit(#[trigger] longer[j]) by {
                if j < i - begin {
                    assert(longer[j] == body.take(i - begin)[j]);
                }
            }
        }
        if acc > (limit - d) / 10 {
            proof {
                lemma_decimal_prefix(body, i - begin + 1);
            }
            return None;
        }
        acc = acc * 10 + d;
        i += 1;
    }
    assert(body.take(i - begin) =~= body);
    if negative {
        if acc == 0x8000_0000_0000_0000 {
            Some(i64::MIN)
        } else {
            Some(-(acc as i64))
        }
    } else {
        Some(acc as i64)
    }
}

/// Whether two strings hold the same characters.
pub fn text_eq(a: &str, b: &str) -> (r: bool)
    ensures
        r == (a@ == b@),
{
    broadcast use encode_utf8_decode_utf8;

    let x = a.as_bytes();
    let y = b.as_bytes();
    proof {
        // Two strings with the same encoding are the same string.
        assert(decode_utf8(encode_utf8(a@)) == a@);
        assert(decode_utf8(encode_utf8(b@)) == b@);
        assert((x@ == y@) == (a@ == b@));
    }
    if x.len() != y.len() {
        return false;
    }
    let mut i: usize = 0;
    while i < x.len()
        invariant
            x.len() == y.len(),
            i <= x.len(),
            (x@ == y@) == (a@ == b@),
            forall|k: int| 0 <= k < i ==> x[k] == y[k],
        decreases x.len() - i,
    {
        if x[i] != y[i] {
            return false;
        }
        i += 1;
    }
    assert(x@ =~= y@);
    true
}

} // verus!
