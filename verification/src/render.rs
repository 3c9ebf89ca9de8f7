//! The text of a pattern, and the law that the compiler reads it back.
use vstd::prelude::*;
use vstd::string::*;
use crate::compile::{
    CompileErrorKind, Parsed, compiled_pattern_is_well_formed, is_name_char, is_name_or_absent,
    is_quantifier_char, is_wildcard, name_end, parse_capture, parse_children, parse_matcher,
    parse_pattern, parse_quantifier, parse_query, skip_blanks, well_formed,
};
use crate::pattern::{Pattern, PatternView, Quantifier};

verus! {

/// A kind as a query spells it: its name, or `_` for the wildcard.
pub open spec fn render_kind(kind: Option<Seq<char>>) -> Seq<char> {
    match kind {
        Some(k) => k,
        None => seq!['_'],
    }
}

/// A capture as a query spells it: `@` and the label, or nothing.
pub open spec fn render_capture(capture: Option<Seq<char>>) -> Seq<char> {
    match capture {
        Some(label) => seq!['@'] + label,
        None => Seq::empty(),
    }
}

/// A field qualifier as a query spells it: the name, a colon and a blank,
/// or nothing.
pub open spec fn render_field(field: Option<Seq<char>>) -> Seq<char> {
    match field {
        Some(name) => name + seq![':', ' '],
        None => Seq::empty(),
    }
}

/// A quantifier as a query spells it.
pub open spec fn render_quantifier(q: Quantifier) -> Seq<char> {
    match q {
        Quantifier::One => Seq::empty(),
        Quantifier::ZeroOrMore => seq!['*'],
        Quantifier::OneOrMore => seq!['+'],
        Quantifier::ZeroOrOne => seq!['?'],
    }
}

/// Whether the pattern is the wildcard without child patterns, which a
/// query spells as a bare `_`.
pub open spec fn is_bare(p: PatternView) -> bool {
    p.kind is None && p.children.len() == 0
}

/// A pattern as a query spells it, without its field and quantifier: a bare
/// `_`, or the kind and the child patterns in parentheses, and then the
/// capture.
pub open spec fn render_body(p: PatternView) -> Seq<char>
    decreases p, 0int,
{
    if is_bare(p) {
        seq!['_'] + render_capture(p.capture)
    } else {
        seq!['('] + render_kind(p.kind) + render_children(p.children, 0) + seq![')']
            + render_capture(p.capture)
    }
}

/// The child patterns `ps[j..]` as a query spells them, a blank before
/// each.
pub open spec fn render_children(ps: Seq<PatternView>, j: int) -> Seq<char>
    decreases ps, ps.len() - j,
{
    if 0 <= j < ps.len() {
        seq![' '] + render(ps[j]) + render_children(ps, j + 1)
    } else {
        Seq::empty()
    }
}

/// A pattern as a query spells it where it stands among its siblings: the
/// field, the pattern, the quantifier. For the root of a query, which has
/// neither field nor quantifier, this is the whole query.
pub open spec fn render(p: PatternView) -> Seq<char>
    decreases p, 1int,
{
    render_field(p.field) + render_body(p) + render_quantifier(p.quantifier)
}

/// Appends the field qualifier of `p` to `out`.
fn write_field(p: &Pattern, out: &mut String)
    ensures
        final(out)@ == old(out)@ + render_field(p@.field),
{
    proof {
        p.view_children();
        reveal_strlit(": ");
    }
    let ghost before = out@;
    if let Some(name) = &p.field {
        out.append(name.as_str());
        out.append(": ");
    }
    assert(out@ =~= before + render_field(p@.field));
}

/// Appends what stands before the child patterns of `p` to `out`: the
/// opening parenthesis and the kind.
fn write_opening(p: &Pattern, out: &mut String)
    ensures
        final(out)@ == old(out)@ + seq!['('] + render_kind(p@.kind),
{
    proof {
        p.view_children();
        reveal_strlit("(");
        reveal_strlit("_");
    }
    let ghost before = out@;
    out.append("(");
    match &p.kind {
        Some(kind) => out.append(kind.as_str()),
        None => out.append("_"),
    }
    assert(out@ =~= before + seq!['('] + render_kind(p@.kind));
}

/// Appends what stands behind the body of `p` to `out`: the capture and the
/// quantifier.
fn write_closing(p: &Pattern, out: &mut String)
    ensures
        final(out)@ == old(out)@ + render_capture(p@.capture) + render_quantifier(p@.quantifier),
{
    proof {
        p.view_children();
        reveal_strlit("@");
        reveal_strlit("*");
        reveal_strlit("+");
        reveal_strlit("?");
    }
    let ghost before = out@;
    if let Some(label) = &p.capture {
        out.append("@");
        out.append(label.as_str());
    }
    assert(out@ =~= before + render_capture(p@.capture));
    match p.quantifier {
        Quantifier::One => {},
        Quantifier::ZeroOrMore => out.append("*"),
        Quantifier::OneOrMore => out.append("+"),
        Quantifier::ZeroOrOne => out.append("?"),
    }
    assert(out@ =~= before + render_capture(p@.capture) + render_quantifier(p@.quantifier));
}

/// Appends the text of `p`, as it stands among its siblings, to `out`.
fn write_pattern(p: &Pattern, out: &mut String)
    ensures
        final(out)@ == old(out)@ + render(p@),
    decreases p,
{
    proof {
        p.view_children();
    }
    let ghost before = out@;
    write_field(p, out);
    if p.kind.is_none() && p.children.len() == 0 {
        proof {
            reveal_strlit("_");
        }
        out.append("_");
        write_closing(p, out);
        assert(out@ =~= before + render(p@));
        return ;
    }
    write_opening(p, out);
    let ghost head = out@;
    let mut j: usize = 0;
    while j < p.children.len()
        invariant
            j <= p.children.len(),
            p@.children.len() == p.children.len(),
            forall|k: int|
                0 <= k < p.children.len() ==> p@.children[k] == (#[trigger] p.children[k])@,
            out@ + render_children(p@.children, j as int) == head + render_children(p@.children, 0),
        decreases p.children.len() - j,
    {
        let ghost so_far = out@;
        out.append(" ");
        write_pattern(&p.children[j], out);
        proof {
            reveal_strlit(" ");
            let first = render(p@.children[j as int]);
            let rest = render_children(p@.children, j + 1);
            assert(out@ =~= so_far + seq![' '] + first);
            assert(so_far + seq![' '] + first + rest =~= so_far + (seq![' '] + first + rest));
        }
        j = j + 1;
    }
    assert(out@ =~= head + render_children(p@.children, 0));
    proof {
        reveal_strlit(")");
    }
    out.append(")");
    write_closing(p, out);
    assert(out@ =~= before + render(p@));
}

impl Pattern {
    /// The text of the pattern as a query spells it.
    pub fn to_query(&self) -> (text: String)
        ensures
            text@ == render(self@),
    {
        let mut text = String::new();
        write_pattern(self, &mut text);
        assert(text@ =~= render(self@));
        text
    }
}

/// Whether the text `s` holds `x` from position `pos` on.
spec fn occurs_at(s: Seq<char>, pos: int, x: Seq<char>) -> bool {
    &&& 0 <= pos
    &&& pos + x.len() <= s.len()
    &&& forall|k: int| 0 <= k < x.len() ==> s[pos + k] == #[trigger] x[k]
}

/// Whether what stands at `pos` cannot be taken for more of the pattern that
/// ends there: no name character stands at `pos`, and neither a capture nor
/// a quantifier comes after the blanks from `pos` on.
spec fn ends_pattern(s: Seq<char>, pos: int) -> bool {
    &&& pos >= s.len() || !is_name_char(s[pos])
    &&& skip_blanks(s, pos) >= s.len() || (s[skip_blanks(s, pos)] != '@' && !is_quantifier_char(
        s[skip_blanks(s, pos)],
    ))
}

/// A text that holds `a + b` holds `a`, and `b` behind it.
proof fn occurs_split(s: Seq<char>, pos: int, a: Seq<char>, b: Seq<char>)
    requires
        occurs_at(s, pos, a + b),
    ensures
        occurs_at(s, pos, a),
        occurs_at(s, pos + a.len(), b),
{
    assert forall|k: int| 0 <= k < a.len() implies s[pos + k] == #[trigger] a[k] by {
        assert((a + b)[k] == a[k]);
    }
    assert forall|k: int| 0 <= k < b.len() implies s[pos + a.len() + k] == #[trigger] b[k] by {
        assert((a + b)[a.len() + k] == b[k]);
    }
}

/// A name that stands in the text before a character that is no name
/// character is read as one run, from any position inside it.
proof fn name_is_read(s: Seq<char>, pos: int, name: Seq<char>, from: int)
    requires
        occurs_at(s, pos, name),
        forall|k: int| 0 <= k < name.len() ==> is_name_char(#[trigger] name[k]),
        pos + name.len() >= s.len() || !is_name_char(s[pos + name.len()]),
        0 <= from <= name.len(),
    ensures
        name_end(s, pos + from) == pos + name.len(),
        s.subrange(pos, pos + name.len()) == name,
    decreases name.len() - from,
{
    if from < name.len() {
        assert(s[pos + from] == name[from]);
        name_is_read(s, pos, name, from + 1);
    }
    assert(s.subrange(pos, pos + name.len()) =~= name);
}

/// The first character of a rendered child pattern is a name character or
/// an opening parenthesis.
proof fn render_starts(p: PatternView)
    requires
        well_formed(p),
    ensures
        render(p).len() > 0,
        is_name_char(render(p)[0]) || render(p)[0] == '(',
{
    match p.field {
        Some(name) => {
            assert(is_name_char(name[0]));
            assert(render(p)[0] == name[0]);
        },
        None => {
            assert(render_field(p.field) + render_body(p) =~= render_body(p));
            assert(render_body(p)[0] == '(' || render_body(p)[0] == '_');
            assert(render(p)[0] == render_body(p)[0]);
        },
    }
}

/// Whether what stands at `pos` cannot be taken for more of the pattern
/// body that ends there: no name character stands at `pos`, and no capture
/// comes after the blanks from `pos` on.
spec fn ends_body(s: Seq<char>, pos: int) -> bool {
    &&& pos >= s.len() || !is_name_char(s[pos])
    &&& skip_blanks(s, pos) >= s.len() || s[skip_blanks(s, pos)] != '@'
}

/// A rendered pattern body in a text is read back as that pattern, without
/// field and quantifier.
proof fn body_is_read_back(s: Seq<char>, pos: int, p: PatternView, nested: bool)
    requires
        well_formed(p),
        occurs_at(s, pos, render_body(p)),
        ends_body(s, pos + render_body(p).len()),
    ensures
        parse_pattern(s, pos, nested) == Parsed::Done(
            PatternView { field: None, quantifier: Quantifier::One, ..p },
            pos + render_body(p).len(),
        ),
    decreases p, 1int,
{
    if is_bare(p) {
        occurs_split(s, pos, seq!['_'], render_capture(p.capture));
        assert(s[pos] == seq!['_'][0]);
        read_capture_back(s, pos + 1, p.capture);
        assert(pos + 1 >= s.len() || !is_name_char(s[pos + 1])) by {
            if p.capture is Some {
                assert(s[pos + 1] == render_capture(p.capture)[0]);
            }
        }
        assert(name_end(s, pos + 1) == pos + 1);
        assert(name_end(s, pos) == pos + 1);
        assert(p.children =~= Seq::<PatternView>::empty());
    } else {
        parenthesized_is_read_back(s, pos, p, nested);
    }
}

/// A rendered capture in a text is read back as that capture.
proof fn read_capture_back(s: Seq<char>, pos: int, capture: Option<Seq<char>>)
    requires
        is_name_or_absent(capture),
        occurs_at(s, pos, render_capture(capture)),
        ends_body(s, pos + render_capture(capture).len()),
    ensures
        parse_capture(s, pos) == Parsed::Done(capture, pos + render_capture(capture).len()),
{
    match capture {
        Some(label) => {
            occurs_split(s, pos, seq!['@'], label);
            assert(s[pos] == seq!['@'][0]);
            assert(skip_blanks(s, pos) == pos);
            name_is_read(s, pos + 1, label, 0);
            assert(s[pos + 1] == label[0]);
        },
        None => {},
    }
}

/// The same for a pattern that is written in parentheses.
proof fn parenthesized_is_read_back(s: Seq<char>, pos: int, p: PatternView, nested: bool)
    requires
        well_formed(p),
        !is_bare(p),
        occurs_at(s, pos, render_body(p)),
        ends_body(s, pos + render_body(p).len()),
    ensures
        parse_pattern(s, pos, nested) == Parsed::Done(
            PatternView { field: None, quantifier: Quantifier::One, ..p },
            pos + render_body(p).len(),
        ),
    decreases p, 0int,
{
    let open = seq!['('];
    let kind = render_kind(p.kind);
    let children = render_children(p.children, 0);
    let close = seq![')'];
    let capture = render_capture(p.capture);
    occurs_split(s, pos, open + kind + children + close, capture);
    occurs_split(s, pos, open + kind + children, close);
    occurs_split(s, pos, open + kind, children);
    occurs_split(s, pos, open, kind);
    assert(s[pos] == open[0]);
    let start = pos + 1;
    let end = start + kind.len();
    let closing = end + children.len();
    assert(s[closing] == close[0]);
    assert(kind.len() > 0 && is_name_char(kind[0]));
    assert(s[start] == kind[0]);
    assert(skip_blanks(s, start) == start);
    assert(!is_name_char(s[end])) by {
        if p.children.len() > 0 {
            assert(children[0] == ' ');
            assert(s[end] == children[0]);
        } else {
            assert(children.len() == 0);
        }
    }
    name_is_read(s, start, kind, 0);
    assert(is_wildcard(s, start, end) <==> p.kind is None);
    children_are_read_back(s, end, p.children, 0);
    assert(p.children.subrange(0, p.children.len() as int) =~= p.children);
    read_capture_back(s, closing + 1, p.capture);
}

/// Rendered child patterns in a text, with the closing parenthesis behind
/// them, are read back as those patterns.
proof fn children_are_read_back(s: Seq<char>, pos: int, ps: Seq<PatternView>, j: int)
    requires
        forall|k: int| 0 <= k < ps.len() ==> well_formed(#[trigger] ps[k]),
        0 <= j <= ps.len(),
        occurs_at(s, pos, render_children(ps, j)),
        pos + render_children(ps, j).len() < s.len(),
        s[pos + render_children(ps, j).len()] == ')',
    ensures
        parse_children(s, pos) == Parsed::Done(
            ps.subrange(j, ps.len() as int),
            pos + render_children(ps, j).len(),
        ),
    decreases ps, ps.len() - j,
{
    if j < ps.len() {
        let first = render(ps[j]);
        let rest = render_children(ps, j + 1);
        occurs_split(s, pos, seq![' '] + first, rest);
        occurs_split(s, pos, seq![' '], first);
        assert(s[pos] == seq![' '][0]);
        render_starts(ps[j]);
        assert(s[pos + 1] == first[0]);
        assert(skip_blanks(s, pos + 1) == pos + 1);
        assert(skip_blanks(s, pos) == pos + 1);
        let next = pos + 1 + first.len();
        assert(ends_pattern(s, next)) by {
            if j + 1 < ps.len() {
                let second = render(ps[j + 1]);
                render_starts(ps[j + 1]);
                occurs_split(s, next, seq![' '] + second, render_children(ps, j + 2));
                occurs_split(s, next, seq![' '], second);
                assert(s[next] == seq![' '][0]);
                assert(s[next + 1] == second[0]);
                assert(skip_blanks(s, next + 1) == next + 1);
                assert(skip_blanks(s, next) == next + 1);
            } else {
                assert(rest.len() == 0);
                assert(skip_blanks(s, next) == next);
            }
        }
        matcher_is_read_back(s, pos + 1, ps[j]);
        children_are_read_back(s, next, ps, j + 1);
        assert(seq![ps[j]] + ps.subrange(j + 1, ps.len() as int) =~= ps.subrange(
            j,
            ps.len() as int,
        ));
    } else {
        assert(skip_blanks(s, pos) == pos);
        assert(ps.subrange(j, ps.len() as int) =~= Seq::<PatternView>::empty());
    }
}

/// A rendered child pattern in a text is read back as that pattern, with its
/// field and quantifier.
proof fn matcher_is_read_back(s: Seq<char>, pos: int, p: PatternView)
    requires
        well_formed(p),
        occurs_at(s, pos, render(p)),
        ends_pattern(s, pos + render(p).len()),
    ensures
        parse_matcher(s, pos) == Parsed::Done(p, pos + render(p).len()),
    decreases p, 2int,
{
    let field = render_field(p.field);
    let body = render_body(p);
    let quantifier = render_quantifier(p.quantifier);
    occurs_split(s, pos, field + body, quantifier);
    occurs_split(s, pos, field, body);
    let start = pos + field.len();
    let end = start + body.len();
    assert(body[0] == '(' || body[0] == '_');
    assert(s[start] == body[0]);
    assert(ends_body(s, end)) by {
        if p.quantifier != Quantifier::One {
            assert(s[end] == quantifier[0]);
            assert(skip_blanks(s, end) == end);
        }
    }
    body_is_read_back(s, start, p, true);
    let read = PatternView { field: None, quantifier: Quantifier::One, ..p };
    assert(parse_quantifier(s, end) == (p.quantifier, pos + render(p).len())) by {
        if p.quantifier != Quantifier::One {
            assert(s[end] == quantifier[0]);
            assert(skip_blanks(s, end) == end);
        }
    }
    match p.field {
        Some(name) => {
            occurs_split(s, pos, name, seq![':', ' ']);
            assert(s[pos + name.len()] == seq![':', ' '][0]);
            assert(s[pos + name.len() + 1] == seq![':', ' '][1]);
            name_is_read(s, pos, name, 0);
            assert(s[pos] == name[0]);
            let colon = pos + name.len();
            assert(skip_blanks(s, colon) == colon);
            assert(skip_blanks(s, start) == start);
            assert(skip_blanks(s, colon + 1) == start);
            assert(!is_wildcard(s, pos, colon));
            assert(PatternView { field: Some(name), quantifier: p.quantifier, ..read } == p);
        },
        None => {
            if is_bare(p) {
                assert(pos + 1 >= s.len() || !is_name_char(s[pos + 1])) by {
                    if body.len() > 1 {
                        assert(body[1] == '@');
                        assert(s[start + 1] == body[1]);
                    } else if p.quantifier != Quantifier::One {
                        assert(s[end] == quantifier[0]);
                    }
                }
                assert(name_end(s, pos + 1) == pos + 1);
                assert(name_end(s, pos) == pos + 1);
            } else {
                assert(name_end(s, pos) == pos);
            }
            assert(PatternView { quantifier: p.quantifier, ..read } == p);
        },
    }
}

/// Compiling reads back what rendering writes: the query that spells a well
/// formed pattern without field and quantifier compiles to that pattern.
pub proof fn rendered_pattern_compiles_to_itself(p: PatternView)
    requires
        well_formed(p),
        p.field is None,
        p.quantifier == Quantifier::One,
    ensures
        parse_query(render(p)) == Ok::<PatternView, (int, CompileErrorKind)>(p),
{
    let s = render(p);
    assert(s =~= render_body(p));
    assert(s[0] == '(' || s[0] == '_');
    assert(skip_blanks(s, 0) == 0);
    assert(skip_blanks(s, s.len() as int) == s.len());
    body_is_read_back(s, 0, p, false);
    assert(PatternView { field: None, quantifier: Quantifier::One, ..p } == p);
}

/// What a query compiles to is spelled by its rendering: the rendering of a
/// compiled pattern compiles to the same pattern again.
pub proof fn compiled_pattern_is_spelled_by_its_rendering(query: Seq<char>)
    requires
        parse_query(query) is Ok,
    ensures
        parse_query(render(parse_query(query)->Ok_0)) == parse_query(query),
{
    compiled_pattern_is_well_formed(query);
    rendered_pattern_compiles_to_itself(parse_query(query)->Ok_0);
}

} // verus!
