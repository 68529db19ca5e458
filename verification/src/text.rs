//! Reading text: characters, lines, words and markers.
//!
//! The output of a benchmark binary is text for people. The functions here
//! take it apart the way the readers of that output need: into lines, into the
//! parts of a line around a marker, and into words separated by white space.
use vstd::prelude::*;
use vstd::std_specs::iter::IteratorSpec;
use vstd::string::StrSliceExecFns;

verus! {

/// A stretch of a text: the characters from `start` up to `end`.
#[derive(Debug, Clone, Copy, PartialEq, Eq)]
pub struct Span {
    pub start: usize,
    pub end: usize,
}

/// Where a scan stops.
#[derive(Debug, Clone, Copy, PartialEq, Eq)]
pub enum Stop {
    /// At this character.
    At(char),
    /// At white space.
    Space,
    /// At anything but white space.
    Word,
}

/// White space as Unicode defines it: the characters with the property
/// `White_Space`.
pub open spec fn is_whitespace(c: char) -> bool {
    let n = c as u32;
    ||| n == 0x20
    ||| 0x09 <= n <= 0x0d
    ||| n == 0x85
    ||| n == 0xa0
    ||| n == 0x1680
    ||| 0x2000 <= n <= 0x200a
    ||| n == 0x2028
    ||| n == 0x2029
    ||| n == 0x202f
    ||| n == 0x205f
    ||| n == 0x3000
}

/// Whether `c` is white space.
pub fn char_is_whitespace(c: char) -> (r: bool)
    ensures
        r == is_whitespace(c),
{
    let n: u32 = c as u32;
    n == 0x20 || (0x09 <= n && n <= 0x0d) || n == 0x85 || n == 0xa0 || n == 0x1680 || (0x2000 <= n
        && n <= 0x200a) || n == 0x2028 || n == 0x2029 || n == 0x202f || n == 0x205f || n == 0x3000
}

impl Stop {
    /// Whether a scan stops at `c`.
    pub open spec fn holds(self, c: char) -> bool {
        match self {
            Stop::At(d) => c == d,
            Stop::Space => is_whitespace(c),
            Stop::Word => !is_whitespace(c),
        }
    }

    /// Whether a scan stops at `c`.
    pub fn test(self, c: char) -> (r: bool)
        ensures
            r == self.holds(c),
    {
        match self {
            Stop::At(d) => c == d,
            Stop::Space => char_is_whitespace(c),
            Stop::Word => !char_is_whitespace(c),
        }
    }
}

/// The first place at or after `from` where the scan stops, or the length of
/// the text if it stops nowhere.
pub open spec fn scan(s: Seq<char>, from: int, stop: Stop) -> int
    decreases s.len() - from,
{
    if from >= s.len() {
        s.len() as int
    } else if stop.holds(s[from]) {
        from
    } else {
        scan(s, from + 1, stop)
    }
}

/// A scan ends between its start and the end of the text; it passes over
/// nothing it stops at, and where it ends inside the text it stops.
pub proof fn lemma_scan(s: Seq<char>, from: int, stop: Stop)
    requires
        0 <= from <= s.len(),
    ensures
        from <= scan(s, from, stop) <= s.len(),
        scan(s, from, stop) < s.len() ==> stop.holds(s[scan(s, from, stop)]),
        forall|j: int| from <= j < scan(s, from, stop) ==> !stop.holds(#[trigger] s[j]),
    decreases s.len() - from,
{
    if from < s.len() && !stop.holds(s[from]) {
        lemma_scan(s, from + 1, stop);
    }
}

/// The text without one carriage return at its end, if it ends with one.
pub open spec fn strip_carriage_return(line: Seq<char>) -> Seq<char> {
    if line.len() > 0 && line.last() == '\r' {
        line.drop_last()
    } else {
        line
    }
}

/// The lines of the text from `from` on.
pub open spec fn lines_from(s: Seq<char>, from: int) -> Seq<Seq<char>>
    decreases s.len() - from,
{
    if from < 0 || from >= s.len() {
        Seq::empty()
    } else {
        let end = scan(s, from, Stop::At('\n'));
        if end >= s.len() {
            seq![s.subrange(from, s.len() as int)]
        } else {
            proof {
                lemma_scan(s, from, Stop::At('\n'));
            }
            seq![strip_carriage_return(s.subrange(from, end))] + lines_from(s, end + 1)
        }
    }
}

/// The lines of a text. A line ends with a line feed, or with a carriage
/// return and a line feed; neither belongs to the line. The end of the text
/// ends the last line, and a line ending at the very end of the text opens no
/// further line.
pub open spec fn lines(s: Seq<char>) -> Seq<Seq<char>> {
    lines_from(s, 0)
}

/// The stretches of `s` that `spans` names.
pub open spec fn spans_view(s: Seq<char>, spans: Seq<Span>) -> Seq<Seq<char>> {
    Seq::new(spans.len(), |i: int| s.subrange(spans[i].start as int, spans[i].end as int))
}

/// Whether `line` ends with `suffix`.
pub open spec fn ends_with(line: Seq<char>, suffix: Seq<char>) -> bool {
    suffix.len() <= line.len() && line.subrange(line.len() - suffix.len(), line.len() as int)
        == suffix
}

/// Whether `marker` stands in `line` at place `at`.
pub open spec fn occurs_at(line: Seq<char>, marker: Seq<char>, at: int) -> bool {
    0 <= at && at + marker.len() <= line.len() && line.subrange(at, at + marker.len()) == marker
}

/// Whether `marker` stands somewhere in `line`.
pub open spec fn contains(line: Seq<char>, marker: Seq<char>) -> bool {
    exists|at: int| occurs_at(line, marker, at)
}

/// The strings of a list, each as a sequence of characters.
pub open spec fn strings_view(strings: Seq<String>) -> Seq<Seq<char>> {
    Seq::new(strings.len(), |i: int| strings[i]@)
}

/// An optional string as an optional sequence of characters.
pub open spec fn optional_view(s: Option<String>) -> Option<Seq<char>> {
    match s {
        Some(s) => Some(s@),
        None => None,
    }
}

/// A copy of a list of strings.
pub fn clone_strings(strings: &Vec<String>) -> (r: Vec<String>)
    ensures
        strings_view(r@) == strings_view(strings@),
{
    let mut copy: Vec<String> = Vec::new();
    let mut i: usize = 0;
    while i < strings.len()
        invariant
            i <= strings.len(),
            copy.len() == i,
            forall|j: int| 0 <= j < i ==> (#[trigger] copy[j])@ == strings[j]@,
        decreases strings.len() - i,
    {
        copy.push(strings[i].clone());
        i += 1;
    }
    copy
}

/// A copy of an optional string.
pub fn clone_optional(s: &Option<String>) -> (r: Option<String>)
    ensures
        optional_view(r) == optional_view(*s),
{
    match s {
        Some(s) => Some(s.clone()),
        None => None,
    }
}

/// The characters of `text`, in order.
pub fn chars_of(text: &str) -> (r: Vec<char>)
    ensures
        r@ == text@,
{
    broadcast use vstd::string::group_string_axioms;

    let mut it = text.chars();
    let mut chars: Vec<char> = Vec::new();
    loop
        invariant
            it.obeys_prophetic_iter_laws(),
            it.decrease() is Some,
            chars@ + it.remaining() == text@,
        ensures
            chars@ == text@,
        decreases it.decrease()->0,
    {
        match it.next() {
            Some(c) => {
                chars.push(c);
            },
            None => {
                break ;
            },
        }
    }
    chars
}

/// The characters of `chars` from `start` up to `end`.
pub fn copy_span(chars: &Vec<char>, start: usize, end: usize) -> (r: Vec<char>)
    requires
        start <= end <= chars.len(),
    ensures
        r@ == chars@.subrange(start as int, end as int),
{
    let mut copy: Vec<char> = Vec::new();
    let mut i: usize = start;
    while i < end
        invariant
            start <= i <= end <= chars.len(),
            copy@ == chars@.subrange(start as int, i as int),
        decreases end - i,
    {
        copy.push(chars[i]);
        i += 1;
    }
    copy
}

/// The part of `text` from character `start` up to character `end`, as a
/// string of its own.
pub fn substring(text: &str, start: usize, end: usize) -> (r: String)
    requires
        start <= end <= text@.len(),
    ensures
        r@ == text@.subrange(start as int, end as int),
{
    text.substring_char(start, end).to_owned()
}

/// The first place at or after `from` where the scan stops, or the length of
/// the text if it stops nowhere.
pub fn scan_chars(chars: &Vec<char>, from: usize, stop: Stop) -> (r: usize)
    requires
        from <= chars.len(),
    ensures
        r == scan(chars@, from as int, stop),
        from <= r <= chars.len(),
{
    let mut i: usize = from;
    while i < chars.len()
        invariant
            from <= i <= chars.len(),
            scan(chars@, from as int, stop) == scan(chars@, i as int, stop),
        decreases chars.len() - i,
    {
        if stop.test(chars[i]) {
            return i;
        }
        i += 1;
    }
    i
}

/// Whether `marker` stands in `line` at place `at`.
pub fn occurs_at_chars(line: &Vec<char>, marker: &Vec<char>, at: usize) -> (r: bool)
    requires
        at + marker.len() <= line.len(),
    ensures
        r == occurs_at(line@, marker@, at as int),
{
    let mut i: usize = 0;
    while i < marker.len()
        invariant
            i <= marker.len(),
            at + marker.len() <= line.len(),
            forall|j: int| 0 <= j < i ==> line[at + j] == marker[j],
        decreases marker.len() - i,
    {
        if line[at + i] != marker[i] {
            proof {
                assert(line@.subrange(at as int, at + marker.len())[i as int] == line[at + i]);
            }
            return false;
        }
        i += 1;
    }
    proof {
        assert(line@.subrange(at as int, at + marker.len()) =~= marker@);
    }
    true
}

/// Whether `line` ends with `suffix`.
pub fn ends_with_chars(line: &Vec<char>, suffix: &Vec<char>) -> (r: bool)
    ensures
        r == ends_with(line@, suffix@),
{
    if suffix.len() > line.len() {
        return false;
    }
    occurs_at_chars(line, suffix, line.len() - suffix.len())
}

/// Whether `marker` stands somewhere in `line`.
pub fn contains_chars(line: &Vec<char>, marker: &Vec<char>) -> (r: bool)
    ensures
        r == contains(line@, marker@),
{
    if marker.len() > line.len() {
        proof {
            assert forall|at: int| !occurs_at(line@, marker@, at) by {}
        }
        return false;
    }
    let last: usize = line.len() - marker.len();
    let mut at: usize = 0;
    while at < last
        invariant
            at <= last,
            last == line.len() - marker.len(),
            forall|k: int| 0 <= k < at ==> !occurs_at(line@, marker@, k),
        decreases last - at,
    {
        if occurs_at_chars(line, marker, at) {
            return true;
        }
        at += 1;
    }
    let found = occurs_at_chars(line, marker, last);
    proof {
        if !found {
            assert forall|k: int| !occurs_at(line@, marker@, k) by {}
        }
    }
    found
}

/// The lines of a text, each as the stretch of `chars` it covers.
pub fn line_spans(chars: &Vec<char>) -> (r: Vec<Span>)
    ensures
        spans_view(chars@, r@) == lines(chars@),
        forall|i: int| 0 <= i < r.len() ==> (#[trigger] r[i]).start <= r[i].end <= chars.len(),
{
    let mut spans: Vec<Span> = Vec::new();
    let mut from: usize = 0;
    while from < chars.len()
        invariant
            from <= chars.len(),
            spans_view(chars@, spans@) + lines_from(chars@, from as int) == lines(chars@),
            forall|i: int|
                0 <= i < spans.len() ==> (#[trigger] spans[i]).start <= spans[i].end <= chars.len(),
        decreases chars.len() - from,
    {
        let stop = scan_chars(chars, from, Stop::At('\n'));
        if stop >= chars.len() {
            spans.push(Span { start: from, end: stop });
            from = stop;
        } else {
            let end: usize = if stop > from && chars[stop - 1] == '\r' {
                stop - 1
            } else {
                stop
            };
            spans.push(Span { start: from, end });
            proof {
                let line = chars@.subrange(from as int, stop as int);
                assert(strip_carriage_return(line) =~= chars@.subrange(from as int, end as int));
            }
            from = stop + 1;
        }
    }
    spans
}

} // verus!
