//! The non-numeric parts of the SVG writer: escaping, number text, path data
//! and layer groups.
//!
//! Coordinates arrive already formatted to fixed precision; what is decided
//! here is how that text is trimmed and how the pieces are put together.

use vstd::prelude::*;
use crate::text::{push_char, decimal, write_decimal, chars_of, string_of_prefix};

verus! {

/// Export options.
#[derive(Debug, Clone, Copy)]
pub struct SvgOptions {
    /// Tag each named layer so Inkscape treats it as a layer rather than a
    /// plain group.
    pub inkscape_layers: bool,
}

impl Default for SvgOptions {
    fn default() -> (o: Self)
        ensures
            !o.inkscape_layers,
    {
        SvgOptions { inkscape_layers: false }
    }
}

/// The namespace declared for Inkscape's layer attributes.
pub const INKSCAPE_NS: &'static str = "http://www.inkscape.org/namespaces/inkscape";

/// The namespace declared alongside it.
pub const SODIPODI_NS: &'static str = "http://sodipodi.sourceforge.net/DTD/sodipodi-0.0.dtd";

/// How one character is written in XML text and attribute values.
pub open spec fn escape_char(c: char) -> Seq<char> {
    if c == '&' {
        seq!['&', 'a', 'm', 'p', ';']
    } else if c == '<' {
        seq!['&', 'l', 't', ';']
    } else if c == '>' {
        seq!['&', 'g', 't', ';']
    } else if c == '"' {
        seq!['&', 'q', 'u', 'o', 't', ';']
    } else if c == '\'' {
        seq!['&', 'a', 'p', 'o', 's', ';']
    } else {
        seq![c]
    }
}

/// `s` with each markup character replaced by its entity.
pub open spec fn escaped(s: Seq<char>) -> Seq<char>
    decreases s.len(),
{
    if s.len() == 0 {
        seq![]
    } else {
        escape_char(s[0]) + escaped(s.drop_first())
    }
}

/// Escaping a concatenation escapes each part.
pub proof fn lemma_escaped_concat(a: Seq<char>, b: Seq<char>)
    ensures
        escaped(a + b) == escaped(a) + escaped(b),
    decreases a.len(),
{
    if a.len() == 0 {
        assert(a + b =~= b);
    } else {
        lemma_escaped_concat(a.drop_first(), b);
        assert((a + b).drop_first() =~= a.drop_first() + b);
        assert((a + b)[0] == a[0]);
    }
}

/// Escape `text` for use as XML character data or an attribute value.
pub fn escape(text: &str) -> (out: String)
    ensures
        out@ == escaped(text@),
{
    let mut out = String::new();
    for c in it: text.chars()
        invariant
            it.seq() == text@,
            out@ == escaped(text@.take(it.index())),
    {
        let ghost k = it.index();
        proof {
            lemma_escaped_concat(text@.take(k), seq![c]);
            assert(text@.take(k + 1) =~= text@.take(k) + seq![c]);
            assert(seq![c].drop_first() =~= Seq::<char>::empty());
            assert(escaped(Seq::<char>::empty()) == Seq::<char>::empty());
            assert(seq![c][0] == c);
            assert(escaped(seq![c]) =~= escape_char(c) + escaped(Seq::<char>::empty()));
            assert(escaped(seq![c]) =~= escape_char(c));
        }
        let ghost before = out@;
        if c == '&' {
            push_char(&mut out, '&');
            push_char(&mut out, 'a');
            push_char(&mut out, 'm');
            push_char(&mut out, 'p');
            push_char(&mut out, ';');
        } else if c == '<' {
            push_char(&mut out, '&');
            push_char(&mut out, 'l');
            push_char(&mut out, 't');
            push_char(&mut out, ';');
        } else if c == '>' {
            push_char(&mut out, '&');
            push_char(&mut out, 'g');
            push_char(&mut out, 't');
            push_char(&mut out, ';');
        } else if c == '"' {
            push_char(&mut out, '&');
            push_char(&mut out, 'q');
            push_char(&mut out, 'u');
            push_char(&mut out, 'o');
            push_char(&mut out, 't');
            push_char(&mut out, ';');
        } else if c == '\'' {
            push_char(&mut out, '&');
            push_char(&mut out, 'a');
            push_char(&mut out, 'p');
            push_char(&mut out, 'o');
            push_char(&mut out, 's');
            push_char(&mut out, ';');
        } else {
            push_char(&mut out, c);
        }
        assert(out@ =~= before + escape_char(c));
    }
    assert(text@.take(text@.len() as int) =~= text@);
    out
}

/// Whether `c` would be read as markup inside a quoted attribute or text.
pub open spec fn is_markup(c: char) -> bool {
    c == '<' || c == '>' || c == '"' || c == '\''
}

/// Escaped text holds no markup character, so it can neither close the
/// element nor end the attribute it is written into.
pub proof fn law_escaped_has_no_markup(s: Seq<char>)
    ensures
        forall|i: int| 0 <= i < escaped(s).len() ==> !is_markup(#[trigger] escaped(s)[i]),
    decreases s.len(),
{
    if s.len() > 0 {
        law_escaped_has_no_markup(s.drop_first());
        let e = escape_char(s[0]);
        let rest = escaped(s.drop_first());
        assert forall|i: int| 0 <= i < escaped(s).len() implies !is_markup(#[trigger] escaped(s)[i]) by {
            if i < e.len() {
                assert(escaped(s)[i] == e[i]);
            } else {
                assert(escaped(s)[i] == rest[i - e.len()]);
            }
        }
    }
}

/// No character's escape is a proper or improper prefix of another's.
proof fn lemma_escape_char_prefix_free(x: char, y: char, rest_x: Seq<char>, rest_y: Seq<char>)
    requires
        escape_char(x) + rest_x == escape_char(y) + rest_y,
    ensures
        x == y,
{
    let ex = escape_char(x);
    let ey = escape_char(y);
    assert((escape_char(x) + rest_x)[0] == ex[0]);
    assert((escape_char(y) + rest_y)[0] == ey[0]);
    if ex[0] == '&' && ey[0] == '&' {
        assert((escape_char(x) + rest_x)[1] == ex[1]);
        assert((escape_char(y) + rest_y)[1] == ey[1]);
        assert((escape_char(x) + rest_x)[2] == ex[2]);
        assert((escape_char(y) + rest_y)[2] == ey[2]);
    }
}

/// Escaping loses nothing: different text never escapes to the same text.
pub proof fn law_escape_is_injective(a: Seq<char>, b: Seq<char>)
    requires
        escaped(a) == escaped(b),
    ensures
        a == b,
    decreases a.len(),
{
    if a.len() == 0 {
        if b.len() > 0 {
            assert(escaped(b).len() >= escape_char(b[0]).len());
        }
        assert(a =~= b);
    } else {
        if b.len() == 0 {
            assert(escaped(a).len() >= escape_char(a[0]).len());
        }
        assert(b.len() > 0);
        lemma_escape_char_prefix_free(a[0], b[0], escaped(a.drop_first()), escaped(b.drop_first()));
        let e = escape_char(a[0]);
        assert(escaped(a.drop_first()) =~= escaped(a).skip(e.len() as int));
        assert(escaped(b.drop_first()) =~= escaped(b).skip(e.len() as int));
        law_escape_is_injective(a.drop_first(), b.drop_first());
        assert(a =~= seq![a[0]] + a.drop_first());
        assert(b =~= seq![b[0]] + b.drop_first());
    }
}

/// `s` without its trailing run of `c`.
pub open spec fn trim_end(s: Seq<char>, c: char) -> Seq<char>
    decreases s.len(),
{
    if s.len() > 0 && s.last() == c { trim_end(s.drop_last(), c) } else { s }
}

/// A fixed-precision number as it is written into the document: trailing
/// zeros after the point dropped, then a bare point, and `-0` or nothing at
/// all written as `0`.
pub open spec fn trimmed_number(fixed: Seq<char>) -> Seq<char> {
    let t = if fixed.contains('.') { trim_end(trim_end(fixed, '0'), '.') } else { fixed };
    if t == seq!['-', '0'] || t.len() == 0 { seq!['0'] } else { t }
}

/// Trimming a trailing run of `c` keeps a prefix and drops only `c`s.
proof fn lemma_trim_end_prefix(s: Seq<char>, c: char)
    ensures
        trim_end(s, c).len() <= s.len(),
        trim_end(s, c) == s.take(trim_end(s, c).len() as int),
        forall|i: int| trim_end(s, c).len() <= i < s.len() ==> s[i] == c,
        trim_end(s, c).len() > 0 ==> trim_end(s, c).last() != c,
    decreases s.len(),
{
    if s.len() > 0 && s.last() == c {
        let p = s.drop_last();
        lemma_trim_end_prefix(p, c);
        let t = trim_end(p, c);
        assert(p.take(t.len() as int) =~= s.take(t.len() as int));
        assert forall|i: int| t.len() <= i < s.len() implies s[i] == c by {
            if i < p.len() {
                assert(s[i] == p[i]);
            }
        }
    } else {
        assert(s.take(s.len() as int) =~= s);
    }
}

/// Whether every character of `s` is `0`, `-` or `.`: text that can only
/// stand for zero.
pub open spec fn zero_text(s: Seq<char>) -> bool {
    forall|i: int| 0 <= i < s.len() ==> s[i] == '0' || s[i] == '-' || s[i] == '.'
}

/// Trimming a number keeps its value. Either the input can only stand for
/// zero and the result is `0`, or the result is the input with only
/// trailing zeros and the point removed, and then only if the input has a
/// point at or before where the result ends, so no zero before the point is
/// ever lost. In particular an input with a nonzero digit never becomes
/// `0`, and `-0.500` stays `-0.5`.
pub proof fn law_trimming_keeps_the_value(fixed: Seq<char>)
    ensures
        ({
            let r = trimmed_number(fixed);
            ||| (r == seq!['0'] && zero_text(fixed))
            ||| {
                &&& r.len() <= fixed.len()
                &&& r == fixed.take(r.len() as int)
                &&& forall|i: int| r.len() <= i < fixed.len() ==> fixed[i] == '0' || fixed[i] == '.'
                &&& r.len() < fixed.len() ==> exists|p: int| 0 <= p <= r.len() && p < fixed.len() && fixed[p] == '.'
            }
        }),
{
    let r = trimmed_number(fixed);
    if fixed.contains('.') {
        let s1 = trim_end(fixed, '0');
        let t = trim_end(s1, '.');
        lemma_trim_end_prefix(fixed, '0');
        lemma_trim_end_prefix(s1, '.');
        let q = choose|q: int| 0 <= q < fixed.len() && fixed[q] == '.';
        assert(q < s1.len());
        assert(t =~= fixed.take(t.len() as int));
        assert forall|i: int| t.len() <= i < fixed.len() implies fixed[i] == '0' || fixed[i] == '.' by {
            if i < s1.len() {
                assert(s1[i] == fixed[i]);
            }
        }
        let p = if t.len() < s1.len() { t.len() as int } else { q };
        assert(s1[t.len() as int] == '.' || t.len() == s1.len());
        if t.len() < s1.len() {
            assert(fixed[p] == s1[p]);
        }
        if t == seq!['-', '0'] || t.len() == 0 {
            assert forall|i: int| 0 <= i < fixed.len() implies fixed[i] == '0' || fixed[i] == '-' || fixed[i] == '.' by {
                if i < t.len() {
                    assert(fixed[i] == t[i]);
                }
            }
        }
    } else {
        if fixed == seq!['-', '0'] || fixed.len() == 0 {
            assert(zero_text(fixed));
        } else {
            assert(fixed.take(fixed.len() as int) =~= fixed);
        }
    }
}

/// How far `v[..end]` reaches once its trailing run of `c` is dropped.
fn trim_end_len(v: &Vec<char>, end: usize, c: char) -> (n: usize)
    requires
        end <= v.len(),
    ensures
        n <= end,
        v@.take(n as int) == trim_end(v@.take(end as int), c),
    decreases end,
{
    if end > 0 && v[end - 1] == c {
        assert(v@.take(end as int).drop_last() =~= v@.take(end as int - 1));
        trim_end_len(v, end - 1, c)
    } else {
        end
    }
}

/// Trim fixed-precision number text, `format!("{v:.3}")`, for the document.
pub fn trim_fixed(fixed: &str) -> (out: String)
    ensures
        out@ == trimmed_number(fixed@),
{
    let v = chars_of(fixed);
    let mut has_point = false;
    let mut i: usize = 0;
    while i < v.len()
        invariant
            i <= v.len(),
            v@ == fixed@,
            has_point == v@.take(i as int).contains('.'),
        decreases v.len() - i,
    {
        if v[i] == '.' {
            assert(v@.take(i as int + 1)[i as int] == '.');
            has_point = true;
        } else {
            proof {
                assert(v@.take(i as int + 1) =~= v@.take(i as int).push(v[i as int]));
                if v@.take(i as int + 1).contains('.') {
                    let j = choose|j: int| 0 <= j < i + 1 && #[trigger] v@.take(i as int + 1)[j] == '.';
                    assert(v@.take(i as int)[j] == '.');
                }
            }
        }
        i = i + 1;
    }
    assert(v@.take(v.len() as int) =~= v@);
    let mut end = v.len();
    if has_point {
        let zeros = trim_end_len(&v, end, '0');
        end = trim_end_len(&v, zeros, '.');
        assert(v@.take(zeros as int).take(end as int) =~= v@.take(end as int));
        assert(v@.take(v.len() as int) =~= v@);
    }
    let t = string_of_prefix(&v, end);
    let ghost spec_t = if fixed@.contains('.') { trim_end(trim_end(fixed@, '0'), '.') } else { fixed@ };
    assert(t@ == spec_t);
    if end == 0 || (end == 2 && v[0] == '-' && v[1] == '0') {
        proof {
            if end == 2 {
                assert(t@ =~= seq!['-', '0']);
            }
        }
        let mut zero = String::new();
        push_char(&mut zero, '0');
        assert(zero@ =~= seq!['0']);
        return zero;
    }
    proof {
        if t@ == seq!['-', '0'] {
            assert(t@[0] == v@[0] && t@[1] == v@[1]);
        }
    }
    t
}

/// The path data for points whose coordinates are already written out:
/// `M` to the first, `L` to each after it, separated by spaces, and ` Z` at
/// the end of a closed path.
pub open spec fn path_moves(points: Seq<(Seq<char>, Seq<char>)>) -> Seq<char>
    decreases points.len(),
{
    if points.len() == 0 {
        seq![]
    } else {
        let p = points.last();
        let lead = if points.len() == 1 { seq!['M'] } else { seq![' ', 'L'] };
        path_moves(points.drop_last()) + lead + p.0 + seq![','] + p.1
    }
}

/// The whole path data: the moves, then ` Z` if closed.
pub open spec fn path_text(points: Seq<(Seq<char>, Seq<char>)>, closed: bool) -> Seq<char> {
    path_moves(points) + if closed { seq![' ', 'Z'] } else { seq![] }
}

/// The mathematical value of written-out points.
pub open spec fn points_view(points: Seq<(String, String)>) -> Seq<(Seq<char>, Seq<char>)> {
    points.map_values(|p: (String, String)| (p.0@, p.1@))
}

/// Appends a string.
fn push_str(out: &mut String, s: &String)
    ensures
        final(out)@ == old(out)@ + s@,
{
    out.append(s.as_str());
}

/// Path data for a polyline, from its points' written-out `x` and `y`.
pub fn path_data(points: &Vec<(String, String)>, closed: bool) -> (d: String)
    ensures
        d@ == path_text(points_view(points@), closed),
{
    let ghost pts = points_view(points@);
    let mut d = String::new();
    let mut i: usize = 0;
    assert(pts.take(0) =~= Seq::<(Seq<char>, Seq<char>)>::empty());
    while i < points.len()
        invariant
            i <= points.len(),
            pts == points_view(points@),
            d@ == path_moves(pts.take(i as int)),
        decreases points.len() - i,
    {
        if i > 0 {
            push_char(&mut d, ' ');
            push_char(&mut d, 'L');
        } else {
            push_char(&mut d, 'M');
        }
        push_str(&mut d, &points[i].0);
        push_char(&mut d, ',');
        push_str(&mut d, &points[i].1);
        assert(pts.take(i as int + 1).drop_last() =~= pts.take(i as int));
        assert(pts.take(i as int + 1).last() == pts[i as int]);
        assert(d@ =~= path_moves(pts.take(i as int + 1)));
        i = i + 1;
    }
    assert(pts.take(points.len() as int) =~= pts);
    if closed {
        push_char(&mut d, ' ');
        push_char(&mut d, 'Z');
    }
    assert(d@ =~= path_text(pts, closed));
    d
}

/// A colour in the document's form, `rgb(r,g,b)`, from byte components.
pub open spec fn rgb_text(r: u8, g: u8, b: u8) -> Seq<char> {
    seq!['r', 'g', 'b', '('] + decimal(r as nat) + seq![','] + decimal(g as nat) + seq![',']
        + decimal(b as nat) + seq![')']
}

/// Write a colour as `rgb(r,g,b)`.
pub fn rgb_string(r: u8, g: u8, b: u8) -> (s: String)
    ensures
        s@ == rgb_text(r, g, b),
{
    let mut s = String::new();
    push_char(&mut s, 'r');
    push_char(&mut s, 'g');
    push_char(&mut s, 'b');
    push_char(&mut s, '(');
    write_decimal(&mut s, r as usize);
    push_char(&mut s, ',');
    write_decimal(&mut s, g as usize);
    push_char(&mut s, ',');
    write_decimal(&mut s, b as usize);
    push_char(&mut s, ')');
    assert(s@ =~= rgb_text(r, g, b));
    s
}

/// The opening tag of a layer's group: its name as the id, and, in Inkscape
/// mode, also as a layer label.
pub open spec fn layer_open_text(name: Seq<char>, inkscape: bool) -> Seq<char> {
    "  <g id=\""@ + escaped(name) + "\""@
        + (if inkscape { " inkscape:groupmode=\"layer\" inkscape:label=\""@ + escaped(name) + "\""@ } else { seq![] })
        + ">\n"@
}

/// Write the opening tag of a layer's group.
pub fn layer_open_tag(name: &str, inkscape: bool) -> (s: String)
    ensures
        s@ == layer_open_text(name@, inkscape),
{
    let e = escape(name);
    let mut s = String::new();
    s.append("  <g id=\"");
    s.append(e.as_str());
    s.append("\"");
    if inkscape {
        s.append(" inkscape:groupmode=\"layer\" inkscape:label=\"");
        s.append(e.as_str());
        s.append("\"");
    }
    s.append(">\n");
    assert(s@ =~= layer_open_text(name@, inkscape));
    s
}

} // verus!
