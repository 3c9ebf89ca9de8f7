//! The reporter: the text under a captured node, and the lines that show the
//! matches of one file.
use vstd::prelude::*;
use vstd::slice::slice_subrange;
use vstd::string::*;
use vstd::utf8::{decode_utf8, valid_utf8};
use crate::engine::{Capture, CaptureView, Match, match_views};
use crate::tree::{Span, SyntaxNode};

verus! {

/// Why the text under a node could not be had.
#[derive(Clone, Copy, Debug, PartialEq, Eq, Structural)]
pub enum TextDecodeError {
    /// The node's byte span does not lie inside the source.
    OutOfRange,
    /// The bytes under the node are not UTF-8.
    InvalidUtf8,
}

/// The text under a span: the bytes of the source from the span's start to
/// its end, decoded as UTF-8.
pub open spec fn span_text(span: Span, source: Seq<u8>) -> Result<Seq<char>, TextDecodeError> {
    if span.start_byte <= span.end_byte <= source.len() {
        let bytes = source.subrange(span.start_byte as int, span.end_byte as int);
        if valid_utf8(bytes) {
            Ok(decode_utf8(bytes))
        } else {
            Err(TextDecodeError::InvalidUtf8)
        }
    } else {
        Err(TextDecodeError::OutOfRange)
    }
}

/// What is shown in place of a text that could not be had.
pub open spec fn placeholder() -> Seq<char> {
    seq!['\u{2048}', '\u{2048}', '\u{2048}']
}

/// The text shown for a span: the text under it, or the placeholder.
pub open spec fn shown_text(span: Span, source: Seq<u8>) -> Seq<char> {
    match span_text(span, source) {
        Ok(text) => text,
        Err(_) => placeholder(),
    }
}

/// The views of a decoding attempt.
pub open spec fn text_outcome(r: Result<String, TextDecodeError>) -> Result<
    Seq<char>,
    TextDecodeError,
> {
    match r {
        Ok(text) => Ok(text@),
        Err(e) => Err(e),
    }
}

/// `std::str::from_utf8`: the bytes as a string slice if they are valid
/// UTF-8, and nothing otherwise. The slice spells the characters that the
/// bytes encode.
#[verifier::external_body]
fn str_from_utf8<'a>(bytes: &'a [u8]) -> (r: Option<&'a str>)
    ensures
        r is Some <==> valid_utf8(bytes@),
        r is Some ==> r->0@ == decode_utf8(bytes@),
{
    std::str::from_utf8(bytes).ok()
}

impl SyntaxNode {
    /// The source text under this node.
    pub fn utf8_text(&self, source: &[u8]) -> (r: Result<String, TextDecodeError>)
        ensures
            text_outcome(r) == span_text(self@.span, source@),
    {
        if self.span.start_byte <= self.span.end_byte && self.span.end_byte <= source.len() {
            let bytes = slice_subrange(source, self.span.start_byte, self.span.end_byte);
            match str_from_utf8(bytes) {
                Some(text) => Ok(String::from_str(text)),
                None => Err(TextDecodeError::InvalidUtf8),
            }
        } else {
            Err(TextDecodeError::OutOfRange)
        }
    }

    /// The text to show for this node: its source text, or the placeholder
    /// if that cannot be had.
    pub fn display_text(&self, source: &[u8]) -> (text: String)
        ensures
            text@ == shown_text(self@.span, source@),
    {
        match self.utf8_text(source) {
            Ok(text) => text,
            Err(_) => {
                proof {
                    reveal_strlit("\u{2048}\u{2048}\u{2048}");
                }
                String::from_str("\u{2048}\u{2048}\u{2048}")
            },
        }
    }
}

/// The character of a decimal digit.
pub open spec fn digit_char(d: nat) -> char {
    if d == 0 {
        '0'
    } else if d == 1 {
        '1'
    } else if d == 2 {
        '2'
    } else if d == 3 {
        '3'
    } else if d == 4 {
        '4'
    } else if d == 5 {
        '5'
    } else if d == 6 {
        '6'
    } else if d == 7 {
        '7'
    } else if d == 8 {
        '8'
    } else {
        '9'
    }
}

/// A number in decimal notation, without leading zeros.
pub open spec fn decimal_digits(n: nat) -> Seq<char>
    decreases n,
{
    if n < 10 {
        seq![digit_char(n)]
    } else {
        decimal_digits(n / 10).push(digit_char(n % 10))
    }
}

fn digit_text(d: usize) -> (text: &'static str)
    requires
        d < 10,
    ensures
        text@ == seq![digit_char(d as nat)],
{
    proof {
        reveal_strlit("0");
        reveal_strlit("1");
        reveal_strlit("2");
        reveal_strlit("3");
        reveal_strlit("4");
        reveal_strlit("5");
        reveal_strlit("6");
        reveal_strlit("7");
        reveal_strlit("8");
        reveal_strlit("9");
    }
    let text = if d == 0 {
        "0"
    } else if d == 1 {
        "1"
    } else if d == 2 {
        "2"
    } else if d == 3 {
        "3"
    } else if d == 4 {
        "4"
    } else if d == 5 {
        "5"
    } else if d == 6 {
        "6"
    } else if d == 7 {
        "7"
    } else if d == 8 {
        "8"
    } else {
        "9"
    };
    text
}

/// A number in decimal notation.
pub fn decimal(n: usize) -> (text: String)
    ensures
        text@ == decimal_digits(n as nat),
    decreases n,
{
    if n < 10 {
        String::from_str(digit_text(n))
    } else {
        let mut text = decimal(n / 10);
        text.append(digit_text(n % 10));
        text
    }
}

/// The line that opens the group of a label: two blanks, the label, a colon.
pub open spec fn label_line(label: Seq<char>) -> Seq<char> {
    seq![' ', ' '] + label + seq![':', '\n']
}

/// The line of one binding: four blanks, the zero-based row on which the
/// node starts, a colon and a blank, and the text shown for the node.
pub open spec fn entry_line(c: CaptureView, source: Seq<u8>) -> Seq<char> {
    seq![' ', ' ', ' ', ' '] + decimal_digits(c.node.span.start_row as nat) + seq![':', ' ']
        + shown_text(c.node.span, source) + seq!['\n']
}

/// The lines of one capture on its own: its label line and its entry line.
pub open spec fn capture_text(c: CaptureView, source: Seq<u8>) -> Seq<char> {
    label_line(c.label) + entry_line(c, source)
}

/// The entry lines of those of the first `k` captures that carry `label`.
pub open spec fn entries_upto(
    captures: Seq<CaptureView>,
    label: Seq<char>,
    source: Seq<u8>,
    k: int,
) -> Seq<char>
    decreases k,
{
    if k <= 0 {
        Seq::empty()
    } else if captures[k - 1].label == label {
        entries_upto(captures, label, source, k - 1) + entry_line(captures[k - 1], source)
    } else {
        entries_upto(captures, label, source, k - 1)
    }
}

/// Whether no capture before `captures[k]` carries its label.
pub open spec fn first_with_label(captures: Seq<CaptureView>, k: int) -> bool {
    forall|i: int| 0 <= i < k ==> (#[trigger] captures[i]).label != captures[k].label
}

/// The group that `captures[k]` opens: the label line and the entry lines of
/// all captures with that label, if `captures[k]` is the first of them, and
/// nothing otherwise.
pub open spec fn group_text(captures: Seq<CaptureView>, source: Seq<u8>, k: int) -> Seq<char> {
    if first_with_label(captures, k) {
        label_line(captures[k].label) + entries_upto(
            captures,
            captures[k].label,
            source,
            captures.len() as int,
        )
    } else {
        Seq::empty()
    }
}

/// The groups that the first `k` captures open.
pub open spec fn groups_upto(captures: Seq<CaptureView>, source: Seq<u8>, k: int) -> Seq<char>
    decreases k,
{
    if k <= 0 {
        Seq::empty()
    } else {
        groups_upto(captures, source, k - 1) + group_text(captures, source, k - 1)
    }
}

/// The lines of one match: its captures grouped by label, the groups in the
/// order in which their labels first occur, the bindings of a group in the
/// order of the captures.
pub open spec fn match_text(captures: Seq<CaptureView>, source: Seq<u8>) -> Seq<char> {
    groups_upto(captures, source, captures.len() as int)
}

/// The lines of the first `k` matches.
pub open spec fn matches_text_upto(matches: Seq<Seq<CaptureView>>, source: Seq<u8>, k: int) -> Seq<
    char,
>
    decreases k,
{
    if k <= 0 {
        Seq::empty()
    } else {
        matches_text_upto(matches, source, k - 1) + match_text(matches[k - 1], source)
    }
}

/// What is shown for one file: nothing if it has no match, else a line with
/// the file's name and a colon, and the lines of its matches.
pub open spec fn report_text(
    name: Seq<char>,
    matches: Seq<Seq<CaptureView>>,
    source: Seq<u8>,
) -> Seq<char> {
    if matches.len() == 0 {
        Seq::empty()
    } else {
        name + seq![':', '\n'] + matches_text_upto(matches, source, matches.len() as int)
    }
}

/// The lines of the first `k` captures, each on its own.
pub open spec fn captures_text_upto(captures: Seq<CaptureView>, source: Seq<u8>, k: int) -> Seq<
    char,
>
    decreases k,
{
    if k <= 0 {
        Seq::empty()
    } else {
        captures_text_upto(captures, source, k - 1) + capture_text(captures[k - 1], source)
    }
}

/// Whether no two captures carry the same label.
pub open spec fn labels_differ(captures: Seq<CaptureView>) -> bool {
    forall|i: int, j: int|
        0 <= i < j < captures.len() ==> (#[trigger] captures[i]).label != (
        #[trigger] captures[j]).label
}

/// Among captures with different labels, the entries under the label of
/// `captures[at]` are the one entry of that capture.
proof fn entries_of_a_single_binding(
    captures: Seq<CaptureView>,
    source: Seq<u8>,
    at: int,
    k: int,
)
    requires
        labels_differ(captures),
        0 <= at < captures.len(),
        0 <= k <= captures.len(),
    ensures
        entries_upto(captures, captures[at].label, source, k) == if at < k {
            entry_line(captures[at], source)
        } else {
            Seq::empty()
        },
    decreases k,
{
    if k > 0 {
        entries_of_a_single_binding(captures, source, at, k - 1);
    }
}

/// Where no label is bound twice, grouping changes nothing: the lines of a
/// match are the lines of its captures, each on its own, one after the
/// other.
pub proof fn single_bindings_are_shown_one_by_one(captures: Seq<CaptureView>, source: Seq<u8>)
    requires
        labels_differ(captures),
    ensures
        match_text(captures, source) == captures_text_upto(
            captures,
            source,
            captures.len() as int,
        ),
{
    groups_of_single_bindings(captures, source, captures.len() as int);
}

/// The same for the groups that the first `k` captures open.
proof fn groups_of_single_bindings(captures: Seq<CaptureView>, source: Seq<u8>, k: int)
    requires
        labels_differ(captures),
        0 <= k <= captures.len(),
    ensures
        groups_upto(captures, source, k) == captures_text_upto(captures, source, k),
    decreases k,
{
    if k > 0 {
        groups_of_single_bindings(captures, source, k - 1);
        entries_of_a_single_binding(captures, source, k - 1, captures.len() as int);
    }
}

/// Appends the label line of `label` to `out`.
fn push_label_line(out: &mut String, label: &String)
    ensures
        final(out)@ == old(out)@ + label_line(label@),
{
    proof {
        reveal_strlit("  ");
        reveal_strlit(":\n");
    }
    out.append("  ");
    out.append(label.as_str());
    out.append(":\n");
}

/// Appends the entry line of `capture` to `out`.
fn push_entry_line(out: &mut String, capture: &Capture, source: &[u8])
    ensures
        final(out)@ == old(out)@ + entry_line(capture@, source@),
{
    proof {
        reveal_strlit("    ");
        reveal_strlit(": ");
        reveal_strlit("\n");
    }
    let row = decimal(capture.node.span.start_row);
    let text = capture.node.display_text(source);
    out.append("    ");
    out.append(row.as_str());
    out.append(": ");
    out.append(text.as_str());
    out.append("\n");
}

/// The lines of one capture on its own: two blanks, the label and a colon,
/// then four blanks, the row, a colon, a blank and the text.
pub fn format_capture(capture: &Capture, source: &[u8]) -> (text: String)
    ensures
        text@ == capture_text(capture@, source@),
{
    let mut text = String::new();
    push_label_line(&mut text, &capture.label);
    push_entry_line(&mut text, capture, source);
    text
}

/// Whether `captures[k]` is the first capture with its label.
fn opens_group(captures: &Vec<Capture>, k: usize) -> (r: bool)
    requires
        k < captures.len(),
    ensures
        r == first_with_label(crate::engine::capture_views(captures@), k as int),
{
    let ghost views = crate::engine::capture_views(captures@);
    let mut i: usize = 0;
    while i < k
        invariant
            i <= k < captures.len(),
            views == crate::engine::capture_views(captures@),
            forall|h: int| 0 <= h < i ==> (#[trigger] views[h]).label != views[k as int].label,
        decreases k - i,
    {
        if captures[i].label == captures[k].label {
            assert(views[i as int].label == views[k as int].label);
            return false;
        }
        i = i + 1;
    }
    true
}

/// Appends the entry lines of the captures that carry `label` to `out`.
fn push_entries(out: &mut String, captures: &Vec<Capture>, label: &String, source: &[u8])
    ensures
        final(out)@ == old(out)@ + entries_upto(
            crate::engine::capture_views(captures@),
            label@,
            source@,
            captures.len() as int,
        ),
{
    let ghost before = out@;
    let ghost views = crate::engine::capture_views(captures@);
    let mut k: usize = 0;
    while k < captures.len()
        invariant
            k <= captures.len(),
            views == crate::engine::capture_views(captures@),
            out@ == before + entries_upto(views, label@, source@, k as int),
        decreases captures.len() - k,
    {
        if captures[k].label == *label {
            push_entry_line(out, &captures[k], source);
        }
        k = k + 1;
    }
}

/// The lines of one match, its captures grouped by label: each label once,
/// in the order of first occurrence, followed by one line for every node
/// bound to it.
pub fn format_match(found: &Match, source: &[u8]) -> (text: String)
    ensures
        text@ == match_text(found@, source@),
{
    let captures = &found.captures;
    let ghost views = found@;
    let mut text = String::new();
    let mut k: usize = 0;
    while k < captures.len()
        invariant
            k <= captures.len(),
            captures == &found.captures,
            views == crate::engine::capture_views(captures@),
            text@ == groups_upto(views, source@, k as int),
        decreases captures.len() - k,
    {
        if opens_group(captures, k) {
            push_label_line(&mut text, &captures[k].label);
            push_entries(&mut text, captures, &captures[k].label, source);
        }
        k = k + 1;
    }
    text
}

/// What is shown for one file. A file without a match shows nothing, not
/// even its name; any other file shows its name and a colon on a line of
/// their own, and then the lines of its matches in their order.
pub fn report(name: &str, matches: &Vec<Match>, source: &[u8]) -> (text: String)
    ensures
        text@ == report_text(name@, match_views(matches@), source@),
        matches.len() == 0 ==> text@.len() == 0,
{
    let mut text = String::new();
    if matches.len() == 0 {
        return text;
    }
    proof {
        reveal_strlit(":\n");
    }
    text.append(name);
    text.append(":\n");
    let ghost head = text@;
    let ghost views = match_views(matches@);
    let mut k: usize = 0;
    while k < matches.len()
        invariant
            k <= matches.len(),
            views == match_views(matches@),
            text@ == head + matches_text_upto(views, source@, k as int),
        decreases matches.len() - k,
    {
        let lines = format_match(&matches[k], source);
        text.append(lines.as_str());
        k = k + 1;
    }
    text
}

} // verus!
