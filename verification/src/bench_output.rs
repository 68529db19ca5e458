//! Reading what a benchmark binary prints.
//!
//! Asked for its benches, the binary prints one line per bench: the name, then
//! `: benchmark`. Asked to run a bench, it prints a report whose line with
//! `time: ` holds three measurements in square brackets, lowest, typical and
//! highest, each followed by its unit; the typical one is the wall time.
//!
//! The text is made for people and may change with the tool that prints it.
//! Everything that depends on its shape is in this file.
use crate::text::{
    chars_of, contains, contains_chars, copy_span, ends_with, ends_with_chars, line_spans, lines,
    scan, scan_chars, spans_view, strings_view, substring, Span, Stop,
};
use vstd::prelude::*;
use vstd::string::StringExecFns;

verus! {

/// Why no wall time could be read.
#[derive(Debug, Clone, PartialEq, Eq)]
pub enum ParseError {
    /// No line of the output reports a time.
    MissingTimeMarker,
    /// This line reports a time but holds no `[`.
    MissingBracket { line: String },
    /// This line reports a time but holds fewer than three words after its
    /// first `[`.
    MissingValue { line: String },
    /// This word stands where the wall time should and is no number.
    InvalidNumber { token: String },
}

pub enum ParseErrorView {
    MissingTimeMarker,
    MissingBracket { line: Seq<char> },
    MissingValue { line: Seq<char> },
    InvalidNumber { token: Seq<char> },
}

impl View for ParseError {
    type V = ParseErrorView;

    open spec fn view(&self) -> ParseErrorView {
        match self {
            ParseError::MissingTimeMarker => ParseErrorView::MissingTimeMarker,
            ParseError::MissingBracket { line } => ParseErrorView::MissingBracket { line: line@ },
            ParseError::MissingValue { line } => ParseErrorView::MissingValue { line: line@ },
            ParseError::InvalidNumber { token } => ParseErrorView::InvalidNumber { token: token@ },
        }
    }
}

impl ParseErrorView {
    /// The failure in words.
    pub open spec fn message(self) -> Seq<char> {
        match self {
            ParseErrorView::MissingTimeMarker => "Did not find wall time in output"@,
            ParseErrorView::MissingBracket { line } => "Did not find '[' in time report: "@ + line,
            ParseErrorView::MissingValue { line } => "Did not find the wall time in time report: "@
                + line,
            ParseErrorView::InvalidNumber { token } => "Failed to parse "@ + token + " as float"@,
        }
    }
}

impl ParseError {
    /// The failure in words.
    pub fn message(&self) -> (r: String)
        ensures
            r@ == self@.message(),
    {
        match self {
            ParseError::MissingTimeMarker => "Did not find wall time in output".to_owned(),
            ParseError::MissingBracket { line } => {
                let mut text = "Did not find '[' in time report: ".to_owned();
                text.append(line.as_str());
                text
            },
            ParseError::MissingValue { line } => {
                let mut text = "Did not find the wall time in time report: ".to_owned();
                text.append(line.as_str());
                text
            },
            ParseError::InvalidNumber { token } => {
                let mut text = "Failed to parse ".to_owned();
                text.append(token.as_str());
                text.append(" as float");
                text
            },
        }
    }
}

/// What follows the name on the line of a bench.
pub open spec fn bench_marker() -> Seq<char> {
    ": benchmark"@
}

/// What stands on the line that reports the time.
pub open spec fn time_marker() -> Seq<char> {
    "time: "@
}

/// The name on a line of the list of benches, if the line names a bench.
pub open spec fn bench_name_of(line: Seq<char>) -> Option<Seq<char>> {
    if ends_with(line, bench_marker()) {
        Some(line.take(line.len() - bench_marker().len()))
    } else {
        None
    }
}

/// The names on the first `n` of the lines, in order.
pub open spec fn bench_names_upto(ls: Seq<Seq<char>>, n: int) -> Seq<Seq<char>>
    decreases n,
{
    if n <= 0 {
        Seq::empty()
    } else {
        let before = bench_names_upto(ls, n - 1);
        match bench_name_of(ls[n - 1]) {
            Some(name) => before.push(name),
            None => before,
        }
    }
}

/// The names of the benches that the output lists: of every line that ends
/// with the marker, what stands before the marker. Other lines are passed
/// over, so an output that names no bench gives no name.
pub open spec fn bench_names(output: Seq<char>) -> Seq<Seq<char>> {
    bench_names_upto(lines(output), lines(output).len() as int)
}

/// What stands between the first `[` of the line and the next, if the line
/// holds a `[`.
pub open spec fn bracket_group(line: Seq<char>) -> Option<Seq<char>> {
    let open = scan(line, 0, Stop::At('['));
    if open >= line.len() {
        None
    } else {
        Some(line.subrange(open + 1, scan(line, open + 1, Stop::At('['))))
    }
}

/// Where the third word of `piece` starts and ends. Words are what white space
/// separates. Without a third word both places are the end of the piece.
pub open spec fn third_word_span(piece: Seq<char>) -> (int, int) {
    let first = scan(piece, 0, Stop::Word);
    let second = scan(piece, scan(piece, first, Stop::Space), Stop::Word);
    let third = scan(piece, scan(piece, second, Stop::Space), Stop::Word);
    (third, scan(piece, third, Stop::Space))
}

/// The third word of `piece`, if it has three.
pub open spec fn third_word(piece: Seq<char>) -> Option<Seq<char>> {
    let (start, end) = third_word_span(piece);
    if start >= piece.len() {
        None
    } else {
        Some(piece.subrange(start, end))
    }
}

/// The word that holds the wall time on a line that reports the time: the
/// third word after the first `[`, which is the second of the three
/// measurements.
pub open spec fn time_token(line: Seq<char>) -> Result<Seq<char>, ParseErrorView> {
    match bracket_group(line) {
        None => Err(ParseErrorView::MissingBracket { line }),
        Some(group) => match third_word(group) {
            None => Err(ParseErrorView::MissingValue { line }),
            Some(token) => Ok(token),
        },
    }
}

/// The wall-time words of the first `n` lines, in order; or what is wrong with
/// the first line among them that reports a time and holds no such word.
pub open spec fn time_tokens_upto(ls: Seq<Seq<char>>, n: int) -> Result<
    Seq<Seq<char>>,
    ParseErrorView,
>
    decreases n,
{
    if n <= 0 {
        Ok(Seq::empty())
    } else {
        match time_tokens_upto(ls, n - 1) {
            Err(e) => Err(e),
            Ok(tokens) => if !contains(ls[n - 1], time_marker()) {
                Ok(tokens)
            } else {
                match time_token(ls[n - 1]) {
                    Ok(token) => Ok(tokens.push(token)),
                    Err(e) => Err(e),
                }
            },
        }
    }
}

/// The wall-time words of an output, one for each line that reports a time,
/// in order. An output without such a line is an error, and so is a line that
/// reports a time without the word.
pub open spec fn wall_time_tokens(output: Seq<char>) -> Result<Seq<Seq<char>>, ParseErrorView> {
    match time_tokens_upto(lines(output), lines(output).len() as int) {
        Err(e) => Err(e),
        Ok(tokens) => if tokens.len() == 0 {
            Err(ParseErrorView::MissingTimeMarker)
        } else {
            Ok(tokens)
        },
    }
}

/// A wall-time word and the number it stands for: the bit pattern of the
/// single-precision value, or nothing if the word is no number.
#[derive(Debug, Clone, PartialEq, Eq)]
pub struct Reading {
    pub token: String,
    pub bits: Option<u32>,
}

pub struct ReadingView {
    pub token: Seq<char>,
    pub bits: Option<u32>,
}

impl View for Reading {
    type V = ReadingView;

    open spec fn view(&self) -> ReadingView {
        ReadingView { token: self.token@, bits: self.bits }
    }
}

/// The readings of a list, each by its view.
pub open spec fn readings_view(readings: Seq<Reading>) -> Seq<ReadingView> {
    Seq::new(readings.len(), |i: int| readings[i]@)
}

/// The number of the last of the first `n` readings, if every one of them is
/// a number; else the first among them that is none.
pub open spec fn wall_time_upto(readings: Seq<ReadingView>, n: int) -> Result<
    Option<u32>,
    ParseErrorView,
>
    decreases n,
{
    if n <= 0 {
        Ok(None)
    } else {
        match wall_time_upto(readings, n - 1) {
            Err(e) => Err(e),
            Ok(_) => match readings[n - 1].bits {
                Some(bits) => Ok(Some(bits)),
                None => Err(ParseErrorView::InvalidNumber { token: readings[n - 1].token }),
            },
        }
    }
}

/// The wall time that the readings of an output give: the last of them, if
/// all are numbers. The first that is no number is an error, and so is an
/// output without a reading.
pub open spec fn wall_time(readings: Seq<ReadingView>) -> Result<u32, ParseErrorView> {
    match wall_time_upto(readings, readings.len() as int) {
        Err(e) => Err(e),
        Ok(None) => Err(ParseErrorView::MissingTimeMarker),
        Ok(Some(bits)) => Ok(bits),
    }
}

/// The names of the benches that `output` lists.
pub fn parse_bench_names(output: &str) -> (r: Vec<String>)
    ensures
        strings_view(r@) == bench_names(output@),
{
    let chars = chars_of(output);
    let spans = line_spans(&chars);
    let marker = chars_of(": benchmark");
    let ghost ls = lines(output@);
    let mut names: Vec<String> = Vec::new();
    let mut i: usize = 0;
    while i < spans.len()
        invariant
            i <= spans.len(),
            chars@ == output@,
            marker@ == bench_marker(),
            ls == lines(output@),
            spans_view(chars@, spans@) == ls,
            forall|k: int|
                0 <= k < spans.len() ==> (#[trigger] spans[k]).start <= spans[k].end <= chars.len(),
            strings_view(names@) == bench_names_upto(ls, i as int),
        decreases spans.len() - i,
    {
        let span = spans[i];
        let line = copy_span(&chars, span.start, span.end);
        proof {
            assert(ls[i as int] == line@);
        }
        if ends_with_chars(&line, &marker) {
            let name = substring(output, span.start, span.end - marker.len());
            names.push(name);
            proof {
                assert(name@ =~= line@.take(line@.len() - marker@.len()));
            }
        }
        i += 1;
    }
    names
}

/// The third word of `piece`: where it starts and where it ends.
fn find_third_word(piece: &Vec<char>) -> (r: (usize, usize))
    ensures
        (r.0 as int, r.1 as int) == third_word_span(piece@),
        r.0 <= r.1 <= piece.len(),
{
    let first = scan_chars(piece, 0, Stop::Word);
    let gap = scan_chars(piece, first, Stop::Space);
    let second = scan_chars(piece, gap, Stop::Word);
    let gap = scan_chars(piece, second, Stop::Space);
    let third = scan_chars(piece, gap, Stop::Word);
    let end = scan_chars(piece, third, Stop::Space);
    (third, end)
}

/// The word that holds the wall time on the line at `span`.
fn find_time_token(output: &str, chars: &Vec<char>, span: Span) -> (r: Result<String, ParseError>)
    requires
        chars@ == output@,
        span.start <= span.end <= chars.len(),
    ensures
        match r {
            Ok(token) => time_token(chars@.subrange(span.start as int, span.end as int)) == Ok::<
                Seq<char>,
                ParseErrorView,
            >(token@),
            Err(e) => time_token(chars@.subrange(span.start as int, span.end as int)) == Err::<
                Seq<char>,
                ParseErrorView,
            >(e@),
        },
{
    let line = copy_span(chars, span.start, span.end);
    let open = scan_chars(&line, 0, Stop::At('['));
    if open >= line.len() {
        return Err(ParseError::MissingBracket { line: substring(output, span.start, span.end) });
    }
    let close = scan_chars(&line, open + 1, Stop::At('['));
    let group = copy_span(&line, open + 1, close);
    let (start, end) = find_third_word(&group);
    if start >= group.len() {
        return Err(ParseError::MissingValue { line: substring(output, span.start, span.end) });
    }
    let offset: usize = span.start + open + 1;
    let token = substring(output, offset + start, offset + end);
    proof {
        assert(token@ =~= group@.subrange(start as int, end as int));
    }
    Ok(token)
}

/// The wall-time words of `output`, one for each line that reports a time.
pub fn parse_wall_time_tokens(output: &str) -> (r: Result<Vec<String>, ParseError>)
    ensures
        match r {
            Ok(tokens) => wall_time_tokens(output@) == Ok::<Seq<Seq<char>>, ParseErrorView>(
                strings_view(tokens@),
            ),
            Err(e) => wall_time_tokens(output@) == Err::<Seq<Seq<char>>, ParseErrorView>(e@),
        },
{
    let chars = chars_of(output);
    let spans = line_spans(&chars);
    let marker = chars_of("time: ");
    let ghost ls = lines(output@);
    let mut tokens: Vec<String> = Vec::new();
    let mut i: usize = 0;
    proof {
        assert(strings_view(tokens@) =~= Seq::<Seq<char>>::empty());
    }
    while i < spans.len()
        invariant
            i <= spans.len(),
            chars@ == output@,
            marker@ == time_marker(),
            ls == lines(output@),
            spans_view(chars@, spans@) == ls,
            forall|k: int|
                0 <= k < spans.len() ==> (#[trigger] spans[k]).start <= spans[k].end <= chars.len(),
            time_tokens_upto(ls, i as int) == Ok::<Seq<Seq<char>>, ParseErrorView>(
                strings_view(tokens@),
            ),
        decreases spans.len() - i,
    {
        let span = spans[i];
        let line = copy_span(&chars, span.start, span.end);
        let ghost before = strings_view(tokens@);
        proof {
            assert(ls[i as int] == line@);
        }
        if contains_chars(&line, &marker) {
            match find_time_token(output, &chars, span) {
                Ok(token) => {
                    tokens.push(token);
                    proof {
                        assert(strings_view(tokens@) =~= before.push(token@));
                    }
                },
                Err(e) => {
                    proof {
                        lemma_failure_stays(ls, i as int + 1, spans.len() as int);
                    }
                    return Err(e);
                },
            }
        }
        i += 1;
    }
    if tokens.len() == 0 {
        return Err(ParseError::MissingTimeMarker);
    }
    Ok(tokens)
}

/// Once a line has failed, more lines change nothing: the failure of the
/// first `n` lines is the failure of any longer stretch.
proof fn lemma_failure_stays(ls: Seq<Seq<char>>, n: int, m: int)
    requires
        n <= m,
        time_tokens_upto(ls, n) is Err,
    ensures
        time_tokens_upto(ls, m) == time_tokens_upto(ls, n),
    decreases m - n,
{
    if n < m {
        lemma_failure_stays(ls, n, m - 1);
    }
}

/// The wall time that the readings of an output give.
pub fn select_wall_time(readings: &Vec<Reading>) -> (r: Result<u32, ParseError>)
    ensures
        match r {
            Ok(bits) => wall_time(readings_view(readings@)) == Ok::<u32, ParseErrorView>(bits),
            Err(e) => wall_time(readings_view(readings@)) == Err::<u32, ParseErrorView>(e@),
        },
{
    let ghost rs = readings_view(readings@);
    let mut last: Option<u32> = None;
    let mut i: usize = 0;
    while i < readings.len()
        invariant
            i <= readings.len(),
            rs == readings_view(readings@),
            wall_time_upto(rs, i as int) == Ok::<Option<u32>, ParseErrorView>(last),
        decreases readings.len() - i,
    {
        match readings[i].bits {
            Some(bits) => {
                last = Some(bits);
            },
            None => {
                proof {
                    lemma_unread_stays(rs, i as int + 1, readings.len() as int);
                }
                return Err(ParseError::InvalidNumber { token: readings[i].token.clone() });
            },
        }
        i += 1;
    }
    match last {
        Some(bits) => Ok(bits),
        None => Err(ParseError::MissingTimeMarker),
    }
}

/// Once a reading has failed, more readings change nothing.
proof fn lemma_unread_stays(readings: Seq<ReadingView>, n: int, m: int)
    requires
        n <= m,
        wall_time_upto(readings, n) is Err,
    ensures
        wall_time_upto(readings, m) == wall_time_upto(readings, n),
    decreases m - n,
{
    if n < m {
        lemma_unread_stays(readings, n, m - 1);
    }
}

proof fn lemma_no_marker_no_token(ls: Seq<Seq<char>>, n: int)
    requires
        0 <= n <= ls.len(),
        forall|i: int| 0 <= i < ls.len() ==> !contains(#[trigger] ls[i], time_marker()),
    ensures
        time_tokens_upto(ls, n) == Ok::<Seq<Seq<char>>, ParseErrorView>(Seq::empty()),
    decreases n,
{
    if n > 0 {
        lemma_no_marker_no_token(ls, n - 1);
    }
}

/// An output in which no line reports a time has no wall time: reading it
/// gives the error `MissingTimeMarker`, whatever else the output holds.
pub proof fn law_no_time_marker_is_an_error(output: Seq<char>)
    requires
        forall|i: int|
            0 <= i < lines(output).len() ==> !contains(#[trigger] lines(output)[i], time_marker()),
    ensures
        wall_time_tokens(output) == Err::<Seq<Seq<char>>, ParseErrorView>(
            ParseErrorView::MissingTimeMarker,
        ),
{
    lemma_no_marker_no_token(lines(output), lines(output).len() as int);
}

} // verus!
