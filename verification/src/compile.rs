//! The query compiler: from the text of a query to a [`Pattern`].
//!
//! ```text
//! query     := pattern
//! pattern   := '(' kind matcher* ')' capture?  |  '_' capture?
//! kind      := NAME | '_'
//! matcher   := (NAME ':')? pattern quantifier?
//! quantifier:= '*' | '+' | '?'
//! capture   := '@' NAME
//! ```
//!
//! A `NAME` is a run of ASCII letters, digits and underscores other than the
//! single underscore, which is the wildcard. Blanks may stand between any two
//! tokens, but not between `@` and the name that follows it. Names of kinds
//! and fields are not checked against any grammar.
use vstd::prelude::*;
use vstd::string::*;
use crate::pattern::{Pattern, PatternView, Quantifier};
use crate::report::{decimal, decimal_digits};

verus! {

/// Why a query was refused.
#[derive(Clone, Copy, Debug, PartialEq, Eq, Structural)]
pub enum CompileErrorKind {
    /// The query holds nothing but blanks.
    EmptyQuery,
    /// The query ends inside an open pattern, or a `)` closes nothing.
    UnbalancedParentheses,
    /// A `:` without a field name before it, or a bare name among the
    /// children of a pattern that no `:` follows.
    InvalidField,
    /// An `@` without a name behind it, or where no capture may stand.
    InvalidCapture,
    /// A `*`, `+` or `?` where no quantifier may stand.
    MalformedQuantifier,
    /// Any other character that cannot stand where it was found.
    UnexpectedToken,
}

/// A refused query: the index of the first offending character, counted in
/// characters from the start of the query, and the reason.
#[derive(Clone, Copy, Debug, PartialEq, Eq, Structural)]
pub struct CompileError {
    pub position: usize,
    pub kind: CompileErrorKind,
}

/// The reason for a refusal in words.
pub open spec fn reason(kind: CompileErrorKind) -> Seq<char> {
    match kind {
        CompileErrorKind::EmptyQuery => "the query is empty"@,
        CompileErrorKind::UnbalancedParentheses => "unbalanced parentheses"@,
        CompileErrorKind::InvalidField => "invalid field name"@,
        CompileErrorKind::InvalidCapture => "invalid capture"@,
        CompileErrorKind::MalformedQuantifier => "malformed quantifier"@,
        CompileErrorKind::UnexpectedToken => "unexpected token"@,
    }
}

/// The diagnostic for a refused query: the reason and the position of the
/// offending character.
pub open spec fn diagnostic(e: CompileError) -> Seq<char> {
    reason(e.kind) + " at character "@ + decimal_digits(e.position as nat)
}

impl CompileErrorKind {
    /// The reason in words.
    pub fn reason(self) -> (text: &'static str)
        ensures
            text@ == reason(self),
    {
        match self {
            CompileErrorKind::EmptyQuery => "the query is empty",
            CompileErrorKind::UnbalancedParentheses => "unbalanced parentheses",
            CompileErrorKind::InvalidField => "invalid field name",
            CompileErrorKind::InvalidCapture => "invalid capture",
            CompileErrorKind::MalformedQuantifier => "malformed quantifier",
            CompileErrorKind::UnexpectedToken => "unexpected token",
        }
    }
}

impl CompileError {
    /// The diagnostic to show for the refused query.
    pub fn message(&self) -> (text: String)
        ensures
            text@ == diagnostic(*self),
    {
        let mut text = String::from_str(self.kind.reason());
        text.append(" at character ");
        let position = decimal(self.position);
        text.append(position.as_str());
        text
    }
}

/// The outcome of reading one piece of a query: the value read and the
/// position behind it, or the position and kind of the first offence.
pub ghost enum Parsed<T> {
    Done(T, int),
    Refused(int, CompileErrorKind),
}

/// Whether `c` may stand between two tokens: a space, a tab, or the end of a
/// line.
pub open spec fn is_blank(c: char) -> bool {
    c == ' ' || c == '\t' || c == '\n' || c == '\r'
}

/// Whether `c` may stand in a name: an ASCII letter, a digit, or an
/// underscore.
pub open spec fn is_name_char(c: char) -> bool {
    ('a' <= c && c <= 'z') || ('A' <= c && c <= 'Z') || ('0' <= c && c <= '9') || c == '_'
}

/// Whether `c` is one of the quantifiers `*`, `+` and `?`.
pub open spec fn is_quantifier_char(c: char) -> bool {
    c == '*' || c == '+' || c == '?'
}

/// The quantifier that a quantifier character stands for.
pub open spec fn quantifier_of(c: char) -> Quantifier {
    if c == '*' {
        Quantifier::ZeroOrMore
    } else if c == '+' {
        Quantifier::OneOrMore
    } else {
        Quantifier::ZeroOrOne
    }
}

/// The first position at or after `pos` that holds no blank.
pub open spec fn skip_blanks(s: Seq<char>, pos: int) -> int
    decreases s.len() - pos,
{
    if 0 <= pos < s.len() && is_blank(s[pos]) {
        skip_blanks(s, pos + 1)
    } else {
        pos
    }
}

/// The first position at or after `pos` that holds no name character.
pub open spec fn name_end(s: Seq<char>, pos: int) -> int
    decreases s.len() - pos,
{
    if 0 <= pos < s.len() && is_name_char(s[pos]) {
        name_end(s, pos + 1)
    } else {
        pos
    }
}

/// Whether the run of name characters `s[from..to]` is the wildcard `_`.
pub open spec fn is_wildcard(s: Seq<char>, from: int, to: int) -> bool {
    to == from + 1 && s[from] == '_'
}

/// Skipping blanks moves forward, stays inside the text, and stops at a
/// character that is no blank.
pub proof fn skip_blanks_bounds(s: Seq<char>, pos: int)
    ensures
        pos <= skip_blanks(s, pos),
        pos <= s.len() ==> skip_blanks(s, pos) <= s.len(),
        0 <= pos && skip_blanks(s, pos) < s.len() ==> !is_blank(s[skip_blanks(s, pos)]),
    decreases s.len() - pos,
{
    if 0 <= pos < s.len() && is_blank(s[pos]) {
        skip_blanks_bounds(s, pos + 1);
    }
}

/// A run of name characters moves forward, stays inside the text, holds
/// name characters only, and stops at a character that is none.
pub proof fn name_end_bounds(s: Seq<char>, pos: int)
    ensures
        pos <= name_end(s, pos),
        pos <= s.len() ==> name_end(s, pos) <= s.len(),
        0 <= pos && name_end(s, pos) < s.len() ==> !is_name_char(s[name_end(s, pos)]),
        forall|k: int| pos <= k < name_end(s, pos) ==> is_name_char(#[trigger] s[k]),
        name_end(s, pos) > pos ==> 0 <= pos < s.len(),
    decreases s.len() - pos,
{
    if 0 <= pos < s.len() && is_name_char(s[pos]) {
        name_end_bounds(s, pos + 1);
    }
}

/// The offence of the character at `pos`, where a pattern had to start or
/// the query had to end. `nested` says whether a pattern is open there.
pub open spec fn offence(s: Seq<char>, pos: int, nested: bool) -> CompileErrorKind {
    if !(0 <= pos < s.len()) {
        if nested {
            CompileErrorKind::UnbalancedParentheses
        } else {
            CompileErrorKind::EmptyQuery
        }
    } else if s[pos] == ')' {
        if nested {
            CompileErrorKind::UnexpectedToken
        } else {
            CompileErrorKind::UnbalancedParentheses
        }
    } else if is_quantifier_char(s[pos]) {
        CompileErrorKind::MalformedQuantifier
    } else if s[pos] == '@' {
        CompileErrorKind::InvalidCapture
    } else if s[pos] == ':' {
        CompileErrorKind::InvalidField
    } else {
        CompileErrorKind::UnexpectedToken
    }
}

/// An optional capture behind a pattern that ends before `pos`.
pub open spec fn parse_capture(s: Seq<char>, pos: int) -> Parsed<Option<Seq<char>>> {
    let at = skip_blanks(s, pos);
    if 0 <= at < s.len() && s[at] == '@' {
        let end = name_end(s, at + 1);
        if end == at + 1 || is_wildcard(s, at + 1, end) {
            Parsed::Refused(at, CompileErrorKind::InvalidCapture)
        } else {
            Parsed::Done(Some(s.subrange(at + 1, end)), end)
        }
    } else {
        Parsed::Done(None, pos)
    }
}

/// An optional quantifier behind a pattern that ends before `pos`.
pub open spec fn parse_quantifier(s: Seq<char>, pos: int) -> (Quantifier, int) {
    let at = skip_blanks(s, pos);
    if 0 <= at < s.len() && is_quantifier_char(s[at]) {
        (quantifier_of(s[at]), at + 1)
    } else {
        (Quantifier::One, pos)
    }
}

/// A pattern that starts at `pos`, which holds no blank.
pub open spec fn parse_pattern(s: Seq<char>, pos: int, nested: bool) -> Parsed<PatternView>
    decreases s.len() - pos, 0int,
{
    if 0 <= pos < s.len() && s[pos] == '(' {
        let start = skip_blanks(s, pos + 1);
        let end = name_end(s, start);
        if end == start {
            Parsed::Refused(start, offence(s, start, true))
        } else {
            let kind = if is_wildcard(s, start, end) {
                None
            } else {
                Some(s.subrange(start, end))
            };
            proof {
                skip_blanks_bounds(s, pos + 1);
                name_end_bounds(s, start);
            }
            match parse_children(s, end) {
                Parsed::Refused(at, why) => Parsed::Refused(at, why),
                Parsed::Done(children, close) => match parse_capture(s, close + 1) {
                    Parsed::Refused(at, why) => Parsed::Refused(at, why),
                    Parsed::Done(capture, next) => Parsed::Done(
                        PatternView {
                            kind,
                            capture,
                            field: None,
                            quantifier: Quantifier::One,
                            children,
                        },
                        next,
                    ),
                },
            }
        }
    } else if 0 <= pos < s.len() && is_wildcard(s, pos, name_end(s, pos)) {
        match parse_capture(s, pos + 1) {
            Parsed::Refused(at, why) => Parsed::Refused(at, why),
            Parsed::Done(capture, next) => Parsed::Done(
                PatternView {
                    kind: None,
                    capture,
                    field: None,
                    quantifier: Quantifier::One,
                    children: Seq::empty(),
                },
                next,
            ),
        }
    } else {
        Parsed::Refused(pos, offence(s, pos, nested))
    }
}

/// The child patterns of an open pattern, from `pos` up to the `)` that
/// closes it. The position handed back is that of the `)`.
pub open spec fn parse_children(s: Seq<char>, pos: int) -> Parsed<Seq<PatternView>>
    decreases s.len() - pos, 2int,
{
    let at = skip_blanks(s, pos);
    if !(0 <= pos <= at < s.len()) {
        Parsed::Refused(s.len() as int, CompileErrorKind::UnbalancedParentheses)
    } else if s[at] == ')' {
        Parsed::Done(Seq::empty(), at)
    } else {
        match parse_matcher(s, at) {
            Parsed::Refused(p, why) => Parsed::Refused(p, why),
            Parsed::Done(first, next) => if at < next <= s.len() {
                match parse_children(s, next) {
                    Parsed::Refused(p, why) => Parsed::Refused(p, why),
                    Parsed::Done(rest, close) => Parsed::Done(seq![first] + rest, close),
                }
            } else {
                Parsed::Refused(at, CompileErrorKind::UnexpectedToken)
            },
        }
    }
}

/// One child pattern with its field name and quantifier, starting at `pos`,
/// which holds neither a blank nor a `)`.
pub open spec fn parse_matcher(s: Seq<char>, pos: int) -> Parsed<PatternView>
    decreases s.len() - pos, 1int,
{
    let end = name_end(s, pos);
    if end > pos && !is_wildcard(s, pos, end) {
        let colon = skip_blanks(s, end);
        if 0 <= colon < s.len() && s[colon] == ':' {
            proof {
                skip_blanks_bounds(s, end);
                skip_blanks_bounds(s, colon + 1);
            }
            match parse_pattern(s, skip_blanks(s, colon + 1), true) {
                Parsed::Refused(at, why) => Parsed::Refused(at, why),
                Parsed::Done(p, next) => Parsed::Done(
                    PatternView {
                        field: Some(s.subrange(pos, end)),
                        quantifier: parse_quantifier(s, next).0,
                        ..p
                    },
                    parse_quantifier(s, next).1,
                ),
            }
        } else {
            Parsed::Refused(pos, CompileErrorKind::InvalidField)
        }
    } else {
        match parse_pattern(s, pos, true) {
            Parsed::Refused(at, why) => Parsed::Refused(at, why),
            Parsed::Done(p, next) => Parsed::Done(
                PatternView { quantifier: parse_quantifier(s, next).0, ..p },
                parse_quantifier(s, next).1,
            ),
        }
    }
}

/// What a whole query compiles to: one pattern, with blanks around it and
/// nothing else.
pub open spec fn parse_query(s: Seq<char>) -> Result<PatternView, (int, CompileErrorKind)> {
    let start = skip_blanks(s, 0);
    match parse_pattern(s, start, false) {
        Parsed::Refused(at, why) => Err((at, why)),
        Parsed::Done(p, next) => {
            let end = skip_blanks(s, next);
            if end >= s.len() {
                Ok(p)
            } else {
                Err((end, offence(s, end, false)))
            }
        },
    }
}

/// Whether `name` can stand in a query as the name of a kind, a field or a
/// capture: a run of name characters other than the single underscore.
pub open spec fn is_name(name: Seq<char>) -> bool {
    &&& name.len() > 0
    &&& forall|k: int| 0 <= k < name.len() ==> is_name_char(#[trigger] name[k])
    &&& !(name.len() == 1 && name[0] == '_')
}

/// Whether a name that may be absent can stand in a query.
pub open spec fn is_name_or_absent(name: Option<Seq<char>>) -> bool {
    match name {
        Some(n) => is_name(n),
        None => true,
    }
}

/// Whether a query can spell the pattern: every kind, field and capture in
/// it is a name.
pub open spec fn well_formed(p: PatternView) -> bool
    decreases p,
{
    &&& is_name_or_absent(p.kind)
    &&& is_name_or_absent(p.capture)
    &&& is_name_or_absent(p.field)
    &&& forall|k: int| 0 <= k < p.children.len() ==> well_formed(#[trigger] p.children[k])
}

/// The capture that the grammar reads is a name, and reading it moves
/// forward inside the text.
pub proof fn parsed_capture_is_name(s: Seq<char>, pos: int)
    requires
        0 <= pos <= s.len(),
    ensures
        match parse_capture(s, pos) {
            Parsed::Done(capture, next) => is_name_or_absent(capture) && pos <= next <= s.len(),
            Parsed::Refused(at, _) => pos <= at <= s.len(),
        },
{
    let at = skip_blanks(s, pos);
    skip_blanks_bounds(s, pos);
    if 0 <= at < s.len() && s[at] == '@' {
        name_end_bounds(s, at + 1);
    }
}

/// What the grammar reads as a pattern is well formed and carries neither a
/// field nor a quantifier; reading it moves forward inside the text, and an
/// offence lies inside the text or at its end.
pub proof fn parsed_pattern_is_well_formed(s: Seq<char>, pos: int, nested: bool)
    requires
        0 <= pos <= s.len(),
    ensures
        match parse_pattern(s, pos, nested) {
            Parsed::Done(p, next) => {
                &&& well_formed(p)
                &&& p.field is None
                &&& p.quantifier == Quantifier::One
                &&& pos < next <= s.len()
            },
            Parsed::Refused(at, _) => pos <= at <= s.len(),
        },
    decreases s.len() - pos, 0int,
{
    if pos < s.len() && s[pos] == '(' {
        let start = skip_blanks(s, pos + 1);
        let end = name_end(s, start);
        skip_blanks_bounds(s, pos + 1);
        name_end_bounds(s, start);
        if end != start {
            parsed_children_are_well_formed(s, end);
            match parse_children(s, end) {
                Parsed::Refused(_, _) => {},
                Parsed::Done(_, close) => {
                    parsed_capture_is_name(s, close + 1);
                },
            }
        }
    } else if pos < s.len() && is_wildcard(s, pos, name_end(s, pos)) {
        parsed_capture_is_name(s, pos + 1);
    }
}

/// The same for the child patterns of an open pattern; the position handed
/// back holds the `)` that closes it.
pub proof fn parsed_children_are_well_formed(s: Seq<char>, pos: int)
    requires
        0 <= pos <= s.len(),
    ensures
        match parse_children(s, pos) {
            Parsed::Done(ps, close) => {
                &&& forall|k: int| 0 <= k < ps.len() ==> well_formed(#[trigger] ps[k])
                &&& pos <= close < s.len()
                &&& s[close] == ')'
            },
            Parsed::Refused(at, _) => pos <= at <= s.len(),
        },
    decreases s.len() - pos, 2int,
{
    let at = skip_blanks(s, pos);
    skip_blanks_bounds(s, pos);
    if at < s.len() && s[at] != ')' {
        parsed_matcher_is_well_formed(s, at);
        match parse_matcher(s, at) {
            Parsed::Refused(_, _) => {},
            Parsed::Done(first, next) => {
                parsed_children_are_well_formed(s, next);
                match parse_children(s, next) {
                    Parsed::Refused(_, _) => {},
                    Parsed::Done(rest, _) => {
                        let all = seq![first] + rest;
                    },
                }
            },
        }
    }
}

/// The same for one child pattern with its field name and quantifier.
pub proof fn parsed_matcher_is_well_formed(s: Seq<char>, pos: int)
    requires
        0 <= pos < s.len(),
    ensures
        match parse_matcher(s, pos) {
            Parsed::Done(p, next) => well_formed(p) && pos < next <= s.len(),
            Parsed::Refused(at, _) => pos <= at <= s.len(),
        },
    decreases s.len() - pos, 1int,
{
    let end = name_end(s, pos);
    name_end_bounds(s, pos);
    if end > pos && !is_wildcard(s, pos, end) {
        let colon = skip_blanks(s, end);
        skip_blanks_bounds(s, end);
        if colon < s.len() && s[colon] == ':' {
            skip_blanks_bounds(s, colon + 1);
            let start = skip_blanks(s, colon + 1);
            parsed_pattern_is_well_formed(s, start, true);
            match parse_pattern(s, start, true) {
                Parsed::Refused(_, _) => {},
                Parsed::Done(p, next) => {
                    skip_blanks_bounds(s, next);
                    let q = PatternView {
                        field: Some(s.subrange(pos, end)),
                        quantifier: parse_quantifier(s, next).0,
                        ..p
                    };
                },
            }
        }
    } else {
        parsed_pattern_is_well_formed(s, pos, true);
        match parse_pattern(s, pos, true) {
            Parsed::Refused(_, _) => {},
            Parsed::Done(p, next) => {
                skip_blanks_bounds(s, next);
                let q = PatternView { quantifier: parse_quantifier(s, next).0, ..p };
            },
        }
    }
}

/// What a query compiles to is well formed and carries neither a field nor
/// a quantifier at its root; the offence of a refused query lies inside the
/// query or at its end.
pub proof fn compiled_pattern_is_well_formed(s: Seq<char>)
    ensures
        match parse_query(s) {
            Ok(p) => well_formed(p) && p.field is None && p.quantifier == Quantifier::One,
            Err((at, _)) => 0 <= at <= s.len(),
        },
{
    skip_blanks_bounds(s, 0);
    parsed_pattern_is_well_formed(s, skip_blanks(s, 0), false);
    match parse_pattern(s, skip_blanks(s, 0), false) {
        Parsed::Refused(_, _) => {},
        Parsed::Done(_, next) => {
            skip_blanks_bounds(s, next);
        },
    }
}

/// The views of a sequence of patterns.
pub open spec fn pattern_views(patterns: Seq<Pattern>) -> Seq<PatternView> {
    patterns.map_values(|p: Pattern| p@)
}

/// The grammar's reading of what the compiler read as one pattern.
pub open spec fn pattern_outcome(r: Result<(Pattern, usize), CompileError>) -> Parsed<PatternView> {
    match r {
        Ok((p, next)) => Parsed::Done(p@, next as int),
        Err(e) => Parsed::Refused(e.position as int, e.kind),
    }
}

/// The grammar's reading of what the compiler read as a list of patterns.
pub open spec fn children_outcome(r: Result<(Vec<Pattern>, usize), CompileError>) -> Parsed<
    Seq<PatternView>,
> {
    match r {
        Ok((ps, close)) => Parsed::Done(pattern_views(ps@), close as int),
        Err(e) => Parsed::Refused(e.position as int, e.kind),
    }
}

/// The grammar's reading of what the compiler read as a capture.
pub open spec fn capture_outcome(r: Result<(Option<String>, usize), CompileError>) -> Parsed<
    Option<Seq<char>>,
> {
    match r {
        Ok((label, next)) => Parsed::Done(crate::tree::opt_view(label), next as int),
        Err(e) => Parsed::Refused(e.position as int, e.kind),
    }
}

/// The grammar's reading of what the compiler made of a whole query.
pub open spec fn query_outcome(r: Result<Pattern, CompileError>) -> Result<
    PatternView,
    (int, CompileErrorKind),
> {
    match r {
        Ok(p) => Ok(p@),
        Err(e) => Err((e.position as int, e.kind)),
    }
}

/// The characters of a string, one by one.
fn to_chars(s: &str) -> (chars: Vec<char>)
    ensures
        chars@ == s@,
{
    let mut chars: Vec<char> = Vec::new();
    for c in it: s.chars()
        invariant
            chars@ == it.seq().take(it.index() as int),
            it.seq() == s@,
    {
        chars.push(c);
    }
    chars
}

/// Whether `c` is a blank.
fn blank(c: char) -> (r: bool)
    ensures
        r == is_blank(c),
{
    c == ' ' || c == '\t' || c == '\n' || c == '\r'
}

/// Whether `c` may stand in a name.
fn name_char(c: char) -> (r: bool)
    ensures
        r == is_name_char(c),
{
    ('a' <= c && c <= 'z') || ('A' <= c && c <= 'Z') || ('0' <= c && c <= '9') || c == '_'
}

/// Whether `c` is a quantifier.
fn quantifier_char(c: char) -> (r: bool)
    ensures
        r == is_quantifier_char(c),
{
    c == '*' || c == '+' || c == '?'
}

/// The first position at or after `pos` that holds no blank.
fn skip(chars: &Vec<char>, pos: usize) -> (r: usize)
    requires
        pos <= chars.len(),
    ensures
        r == skip_blanks(chars@, pos as int),
        pos <= r <= chars.len(),
{
    let mut r: usize = pos;
    while r < chars.len() && blank(chars[r])
        invariant
            pos <= r <= chars.len(),
            skip_blanks(chars@, pos as int) == skip_blanks(chars@, r as int),
        decreases chars.len() - r,
    {
        r = r + 1;
    }
    r
}

/// The first position at or after `pos` that holds no name character.
fn end_of_name(chars: &Vec<char>, pos: usize) -> (r: usize)
    requires
        pos <= chars.len(),
    ensures
        r == name_end(chars@, pos as int),
        pos <= r <= chars.len(),
{
    let mut r: usize = pos;
    while r < chars.len() && name_char(chars[r])
        invariant
            pos <= r <= chars.len(),
            name_end(chars@, pos as int) == name_end(chars@, r as int),
        decreases chars.len() - r,
    {
        r = r + 1;
    }
    r
}

/// Whether the run of name characters from `from` to `to` is the wildcard.
fn wildcard(chars: &Vec<char>, from: usize, to: usize) -> (r: bool)
    requires
        from < chars.len(),
    ensures
        r == is_wildcard(chars@, from as int, to as int),
{
    to == from + 1 && chars[from] == '_'
}

/// The offence of the character at `pos`, where a pattern had to start or
/// the query had to end.
fn classify(chars: &Vec<char>, pos: usize, nested: bool) -> (kind: CompileErrorKind)
    ensures
        kind == offence(chars@, pos as int, nested),
{
    if pos >= chars.len() {
        if nested {
            CompileErrorKind::UnbalancedParentheses
        } else {
            CompileErrorKind::EmptyQuery
        }
    } else if chars[pos] == ')' {
        if nested {
            CompileErrorKind::UnexpectedToken
        } else {
            CompileErrorKind::UnbalancedParentheses
        }
    } else if quantifier_char(chars[pos]) {
        CompileErrorKind::MalformedQuantifier
    } else if chars[pos] == '@' {
        CompileErrorKind::InvalidCapture
    } else if chars[pos] == ':' {
        CompileErrorKind::InvalidField
    } else {
        CompileErrorKind::UnexpectedToken
    }
}

/// The name that the characters `from..to` of the query spell.
fn name_at(query: &str, from: usize, to: usize) -> (name: String)
    requires
        from <= to <= query@.len(),
    ensures
        name@ == query@.subrange(from as int, to as int),
{
    String::from_str(query.substring_char(from, to))
}

/// Reads an optional capture behind a pattern that ends before `pos`.
fn read_capture(query: &str, chars: &Vec<char>, pos: usize) -> (r: Result<
    (Option<String>, usize),
    CompileError,
>)
    requires
        chars@ == query@,
        pos <= chars.len(),
    ensures
        capture_outcome(r) == parse_capture(query@, pos as int),
        r is Ok ==> pos <= r->Ok_0.1 <= chars.len(),
{
    let at = skip(chars, pos);
    if at < chars.len() && chars[at] == '@' {
        let end = end_of_name(chars, at + 1);
        if end == at + 1 || wildcard(chars, at + 1, end) {
            Err(CompileError { position: at, kind: CompileErrorKind::InvalidCapture })
        } else {
            Ok((Some(name_at(query, at + 1, end)), end))
        }
    } else {
        Ok((None, pos))
    }
}

/// Reads an optional quantifier behind a pattern that ends before `pos`.
fn read_quantifier(chars: &Vec<char>, pos: usize) -> (r: (Quantifier, usize))
    requires
        pos <= chars.len(),
    ensures
        r.0 == parse_quantifier(chars@, pos as int).0,
        r.1 == parse_quantifier(chars@, pos as int).1,
        pos <= r.1 <= chars.len(),
{
    let at = skip(chars, pos);
    if at < chars.len() && quantifier_char(chars[at]) {
        let c = chars[at];
        let q = if c == '*' {
            Quantifier::ZeroOrMore
        } else if c == '+' {
            Quantifier::OneOrMore
        } else {
            Quantifier::ZeroOrOne
        };
        (q, at + 1)
    } else {
        (Quantifier::One, pos)
    }
}

/// Reads the pattern that starts at `pos`.
fn read_pattern(query: &str, chars: &Vec<char>, pos: usize, nested: bool) -> (r: Result<
    (Pattern, usize),
    CompileError,
>)
    requires
        chars@ == query@,
        pos <= chars.len(),
    ensures
        pattern_outcome(r) == parse_pattern(query@, pos as int, nested),
        r is Ok ==> pos < r->Ok_0.1 <= chars.len(),
    decreases chars.len() - pos, 0int,
{
    if pos < chars.len() && chars[pos] == '(' {
        let start = skip(chars, pos + 1);
        let end = end_of_name(chars, start);
        if end == start {
            return Err(CompileError { position: start, kind: classify(chars, start, true) });
        }
        let kind = if wildcard(chars, start, end) {
            None
        } else {
            Some(name_at(query, start, end))
        };
        match read_children(query, chars, end) {
            Err(e) => Err(e),
            Ok((children, close)) => match read_capture(query, chars, close + 1) {
                Err(e) => Err(e),
                Ok((capture, next)) => {
                    let p = Pattern {
                        kind,
                        capture,
                        field: None,
                        quantifier: Quantifier::One,
                        children,
                    };
                    proof {
                        p.view_children();
                        assert(p@.children =~= pattern_views(children@));
                    }
                    Ok((p, next))
                },
            },
        }
    } else if pos < chars.len() && wildcard(chars, pos, end_of_name(chars, pos)) {
        match read_capture(query, chars, pos + 1) {
            Err(e) => Err(e),
            Ok((capture, next)) => {
                let p = Pattern {
                    kind: None,
                    capture,
                    field: None,
                    quantifier: Quantifier::One,
                    children: Vec::new(),
                };
                proof {
                    assert(p@.children =~= Seq::<PatternView>::empty());
                }
                Ok((p, next))
            },
        }
    } else {
        Err(CompileError { position: pos, kind: classify(chars, pos, nested) })
    }
}

/// Reads the child patterns of an open pattern, up to the `)` that closes
/// it.
fn read_children(query: &str, chars: &Vec<char>, pos: usize) -> (r: Result<
    (Vec<Pattern>, usize),
    CompileError,
>)
    requires
        chars@ == query@,
        pos <= chars.len(),
    ensures
        children_outcome(r) == parse_children(query@, pos as int),
        r is Ok ==> pos <= r->Ok_0.1 < chars.len(),
    decreases chars.len() - pos, 2int,
{
    let at = skip(chars, pos);
    if at >= chars.len() {
        return Err(
            CompileError { position: chars.len(), kind: CompileErrorKind::UnbalancedParentheses },
        );
    }
    if chars[at] == ')' {
        proof {
            assert(pattern_views(Seq::<Pattern>::empty()) =~= Seq::<PatternView>::empty());
        }
        return Ok((Vec::new(), at));
    }
    match read_matcher(query, chars, at) {
        Err(e) => Err(e),
        Ok((first, next)) => match read_children(query, chars, next) {
            Err(e) => Err(e),
            Ok((mut rest, close)) => {
                let mut all: Vec<Pattern> = Vec::new();
                proof {
                    assert(pattern_views(seq![first] + rest@) =~= seq![first@] + pattern_views(
                        rest@,
                    ));
                }
                all.push(first);
                all.append(&mut rest);
                Ok((all, close))
            },
        },
    }
}

/// Reads one child pattern with its field name and quantifier.
fn read_matcher(query: &str, chars: &Vec<char>, pos: usize) -> (r: Result<
    (Pattern, usize),
    CompileError,
>)
    requires
        chars@ == query@,
        pos < chars.len(),
    ensures
        pattern_outcome(r) == parse_matcher(query@, pos as int),
        r is Ok ==> pos < r->Ok_0.1 <= chars.len(),
    decreases chars.len() - pos, 1int,
{
    let end = end_of_name(chars, pos);
    let (field, read) = if end > pos && !wildcard(chars, pos, end) {
        let colon = skip(chars, end);
        if colon < chars.len() && chars[colon] == ':' {
            let start = skip(chars, colon + 1);
            (Some(name_at(query, pos, end)), read_pattern(query, chars, start, true))
        } else {
            return Err(CompileError { position: pos, kind: CompileErrorKind::InvalidField });
        }
    } else {
        (None, read_pattern(query, chars, pos, true))
    };
    match read {
        Err(e) => Err(e),
        Ok((p, next)) => {
            let (quantifier, after) = read_quantifier(chars, next);
            let Pattern { kind, capture, field: _, quantifier: _, children } = p;
            let q = Pattern { kind, capture, field, quantifier, children };
            Ok((q, after))
        },
    }
}

/// Compiles the text of a query. The outcome is what the grammar makes of
/// the text: the pattern it spells, or the first offence against the grammar.
pub fn compile(query: &str) -> (r: Result<Pattern, CompileError>)
    ensures
        query_outcome(r) == parse_query(query@),
        r is Ok ==> well_formed(r->Ok_0@) && r->Ok_0@.field is None && r->Ok_0@.quantifier
            == Quantifier::One,
        r is Err ==> r->Err_0.position <= query@.len(),
{
    proof {
        compiled_pattern_is_well_formed(query@);
    }
    let chars = to_chars(query);
    let start = skip(&chars, 0);
    match read_pattern(query, &chars, start, false) {
        Err(e) => Err(e),
        Ok((p, next)) => {
            let end = skip(&chars, next);
            if end >= chars.len() {
                Ok(p)
            } else {
                Err(CompileError { position: end, kind: classify(&chars, end, false) })
            }
        },
    }
}

} // verus!
