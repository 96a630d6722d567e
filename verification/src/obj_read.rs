//! Reading the face records back out of OBJ text.
//!
//! Lines are split at `\n`. Each line is split into tokens at whitespace
//! (what `char::is_whitespace` calls whitespace, so a `\r` before the `\n`
//! is just more whitespace). A line whose first token is `f` is a face: each
//! later token contributes the index before its first `/`, if that reads as a
//! `usize`, and tokens that do not read are skipped. A face line with no
//! readable index is ignored, as is every other line.

use vstd::prelude::*;
use crate::text::{parse_usize, all_digits, digits_value, is_digit, digit_value};

verus! {

/// What `char::is_whitespace` accepts: the Unicode `White_Space` characters.
pub open spec fn is_ws(c: char) -> bool {
    let u = c as u32;
    ||| 0x09 <= u <= 0x0D
    ||| u == 0x20
    ||| u == 0x85
    ||| u == 0xA0
    ||| u == 0x1680
    ||| 0x2000 <= u <= 0x200A
    ||| u == 0x2028
    ||| u == 0x2029
    ||| u == 0x202F
    ||| u == 0x205F
    ||| u == 0x3000
}

/// The part of a token before its first `/`: the vertex index of a
/// `v/vt/vn` reference.
pub open spec fn before_slash(t: Seq<char>) -> Seq<char>
    decreases t.len(),
{
    if t.len() == 0 {
        t
    } else if before_slash(t.drop_last()).len() < t.len() - 1 {
        before_slash(t.drop_last())
    } else if t.last() == '/' {
        t.drop_last()
    } else {
        t
    }
}

/// The indices that the tokens after the `f` contribute.
pub open spec fn indices_of(tokens: Seq<Seq<char>>) -> Seq<nat>
    decreases tokens.len(),
{
    if tokens.len() == 0 {
        seq![]
    } else {
        let rest = indices_of(tokens.drop_last());
        match parse_usize(before_slash(tokens.last())) {
            Some(n) => rest.push(n),
            None => rest,
        }
    }
}

/// The face a line's tokens describe, if they describe one.
pub open spec fn face_of(tokens: Seq<Seq<char>>) -> Option<Seq<nat>> {
    if tokens.len() > 0 && tokens[0] == seq!['f'] && indices_of(tokens.drop_first()).len() > 0 {
        Some(indices_of(tokens.drop_first()))
    } else {
        None
    }
}

/// `faces`, with the face of `tokens` added if there is one.
pub open spec fn add_face(faces: Seq<Seq<nat>>, tokens: Seq<Seq<char>>) -> Seq<Seq<nat>> {
    match face_of(tokens) {
        Some(f) => faces.push(f),
        None => faces,
    }
}

/// `tokens`, with `token` added if it is not empty.
pub open spec fn close_token(tokens: Seq<Seq<char>>, token: Seq<char>) -> Seq<Seq<char>> {
    if token.len() > 0 { tokens.push(token) } else { tokens }
}

/// Where reading has got to: the faces of the finished lines, the finished
/// tokens of the current line, and the token being read.
pub struct Scan {
    pub faces: Seq<Seq<nat>>,
    pub tokens: Seq<Seq<char>>,
    pub token: Seq<char>,
}

/// Reading one more character.
pub open spec fn scan_step(st: Scan, c: char) -> Scan {
    if c == '\n' {
        Scan { faces: add_face(st.faces, close_token(st.tokens, st.token)), tokens: seq![], token: seq![] }
    } else if is_ws(c) {
        Scan { faces: st.faces, tokens: close_token(st.tokens, st.token), token: seq![] }
    } else {
        Scan { faces: st.faces, tokens: st.tokens, token: st.token.push(c) }
    }
}

/// The state after reading all of `s`.
pub open spec fn scan(s: Seq<char>) -> Scan
    decreases s.len(),
{
    if s.len() == 0 {
        Scan { faces: seq![], tokens: seq![], token: seq![] }
    } else {
        scan_step(scan(s.drop_last()), s.last())
    }
}

/// The faces of OBJ text `s`, in order.
pub open spec fn faces_of_text(s: Seq<char>) -> Seq<Seq<nat>> {
    let st = scan(s);
    add_face(st.faces, close_token(st.tokens, st.token))
}

/// Whether `c` is whitespace, as `char::is_whitespace` decides it.
pub fn is_whitespace(c: char) -> (r: bool)
    ensures
        r == is_ws(c),
{
    let u = c as u32;
    (0x09 <= u && u <= 0x0D) || u == 0x20 || u == 0x85 || u == 0xA0 || u == 0x1680
        || (0x2000 <= u && u <= 0x200A) || u == 0x2028 || u == 0x2029 || u == 0x202F
        || u == 0x205F || u == 0x3000
}

/// A run of digits is worth at least any run of digits it starts with.
proof fn lemma_digits_value_grows(s: Seq<char>, i: int)
    requires
        0 <= i <= s.len(),
    ensures
        digits_value(s.take(i)) <= digits_value(s),
    decreases s.len() - i,
{
    if i < s.len() {
        lemma_digits_value_grows(s, i + 1);
        assert(s.take(i + 1).drop_last() =~= s.take(i));
    } else {
        assert(s.take(i) =~= s);
    }
}

/// What a token contributes: the index before its first `/`, if it reads.
pub fn token_index(t: &Vec<char>) -> (r: Option<usize>)
    ensures
        match parse_usize(before_slash(t@)) {
            Some(n) => r == Some(n as usize),
            None => r is None,
        },
{
    // Find the end of the index: the first `/`, or the end of the token.
    let mut end: usize = 0;
    let mut found = false;
    while end < t.len() && !found
        invariant
            0 <= end <= t.len(),
            found ==> (end > 0 ==> before_slash(t@.take(end as int)).len() == end as int - 1),
            found ==> end >= 1 && t@[end as int - 1] == '/',
            found ==> before_slash(t@) == t@.take(end as int - 1),
            !found ==> before_slash(t@.take(end as int)) == t@.take(end as int),
        decreases t.len() - end + if found { 0int } else { 1int },
    {
        assert(t@.take(end as int + 1).drop_last() =~= t@.take(end as int));
        if t[end] == '/' {
            found = true;
            proof {
                lemma_before_slash_stable(t@, end as int + 1);
            }
        }
        end = end + 1;
    }
    let stop: usize = if found { end - 1 } else { end };
    proof {
        if !found {
            assert(t@.take(end as int) =~= t@);
        }
    }
    let ghost d0 = t@.take(stop as int);
    assert(d0 == before_slash(t@));
    // An optional `+`, then digits.
    let mut i: usize = 0;
    if stop > 0 && t[0] == '+' {
        i = 1;
    }
    let ghost digits = if d0.len() > 0 && d0[0] == '+' { d0.drop_first() } else { d0 };
    let start = i;
    assert(digits =~= d0.skip(start as int));
    if start >= stop {
        return None;
    }
    let mut acc: usize = 0;
    while i < stop
        invariant
            start <= i <= stop,
            stop <= t.len(),
            d0 == t@.take(stop as int),
            d0 == before_slash(t@),
            digits == d0.skip(start as int),
            digits == (if d0.len() > 0 && d0[0] == '+' { d0.drop_first() } else { d0 }),
            digits.len() > 0,
            start <= 1,
            all_digits(digits.take(i - start)),
            acc as nat == digits_value(digits.take(i - start)),
        decreases stop - i,
    {
        let c = t[i];
        assert(digits[i - start] == c);
        if c < '0' || c > '9' {
            assert(!is_digit(digits[i - start]));
            return None;
        }
        let d = (c as u32 - 48) as usize;
        assert(digits.take(i - start + 1).drop_last() =~= digits.take(i - start));
        assert(digits_value(digits.take(i - start + 1)) == digits_value(digits.take(i - start)) * 10 + d);
        let next = match acc.checked_mul(10) {
            Some(m) => m.checked_add(d),
            None => None,
        };
        match next {
            Some(v) => {
                acc = v;
            }
            None => {
                proof {
                    assert(acc * 10 + d > usize::MAX);
                    lemma_digits_value_grows(digits, i - start + 1);
                }
                return None;
            }
        }
        i = i + 1;
    }
    assert(digits.take(stop - start) =~= digits);
    Some(acc)
}

/// Once a `/` has been seen, the index part stays put.
proof fn lemma_before_slash_stable(t: Seq<char>, k: int)
    requires
        1 <= k <= t.len(),
        t[k - 1] == '/',
        before_slash(t.take(k - 1)) == t.take(k - 1),
    ensures
        before_slash(t.take(k)) == t.take(k - 1),
        before_slash(t) == t.take(k - 1),
    decreases t.len() - k,
{
    assert(t.take(k).drop_last() =~= t.take(k - 1));
    if k < t.len() {
        lemma_before_slash_grows(t, k);
    } else {
        assert(t.take(k) =~= t);
    }
}

/// After the first `/`, further characters leave the index part alone.
proof fn lemma_before_slash_grows(t: Seq<char>, k: int)
    requires
        1 <= k <= t.len(),
        before_slash(t.take(k)).len() < k,
    ensures
        before_slash(t) == before_slash(t.take(k)),
    decreases t.len() - k,
{
    if k < t.len() {
        assert(t.take(k + 1).drop_last() =~= t.take(k));
        lemma_before_slash_grows(t, k + 1);
    } else {
        assert(t.take(k) =~= t);
    }
}

/// The mathematical value of a list of tokens.
pub open spec fn tokens_view(tokens: Seq<Vec<char>>) -> Seq<Seq<char>> {
    tokens.map_values(|t: Vec<char>| t@)
}

/// The mathematical value of a list of faces.
pub open spec fn faces_view(faces: Seq<Vec<usize>>) -> Seq<Seq<nat>> {
    faces.map_values(|f: Vec<usize>| f@.map_values(|x: usize| x as nat))
}

/// The face that a line's tokens describe, if any.
fn face_from_tokens(tokens: &Vec<Vec<char>>) -> (r: Option<Vec<usize>>)
    ensures
        match face_of(tokens_view(tokens@)) {
            Some(f) => r is Some && r->0@.map_values(|x: usize| x as nat) == f,
            None => r is None,
        },
{
    let ghost toks = tokens_view(tokens@);
    if tokens.len() == 0 || tokens[0].len() != 1 || tokens[0][0] != 'f' {
        proof {
            if toks.len() > 0 {
                assert(toks[0] == tokens@[0]@);
                if toks[0] == seq!['f'] {
                    assert(toks[0].len() == 1 && toks[0][0] == 'f');
                }
            }
        }
        return None;
    }
    assert(toks[0] =~= seq!['f']);
    let ghost rest = toks.drop_first();
    let mut indices: Vec<usize> = Vec::new();
    let mut j: usize = 1;
    assert(rest.take(0) =~= Seq::<Seq<char>>::empty());
    while j < tokens.len()
        invariant
            1 <= j <= tokens.len(),
            toks == tokens_view(tokens@),
            rest == toks.drop_first(),
            indices@.map_values(|x: usize| x as nat) == indices_of(rest.take(j - 1)),
        decreases tokens.len() - j,
    {
        let ghost before = indices@;
        assert(rest.take(j as int).drop_last() =~= rest.take(j - 1));
        assert(rest.take(j as int).last() == tokens@[j as int]@);
        match token_index(&tokens[j]) {
            Some(n) => {
                indices.push(n);
                assert(indices@.map_values(|x: usize| x as nat) =~=
                    before.map_values(|x: usize| x as nat).push(n as nat));
            }
            None => {}
        }
        j = j + 1;
    }
    assert(rest.take(tokens.len() - 1) =~= rest);
    if indices.len() == 0 {
        return None;
    }
    Some(indices)
}

/// `faces`, with the face of `tokens` added if there is one.
fn add_face_exec(faces: &mut Vec<Vec<usize>>, tokens: &Vec<Vec<char>>)
    ensures
        faces_view(final(faces)@) == add_face(faces_view(old(faces)@), tokens_view(tokens@)),
{
    let ghost before = faces@;
    match face_from_tokens(tokens) {
        Some(f) => {
            faces.push(f);
            assert(faces_view(faces@) =~= faces_view(before).push(f@.map_values(|x: usize| x as nat)));
        }
        None => {}
    }
}

/// `tokens`, with `token` added if it is not empty; `token` is left empty.
fn close_token_exec(tokens: &mut Vec<Vec<char>>, token: &mut Vec<char>)
    ensures
        tokens_view(final(tokens)@) == close_token(tokens_view(old(tokens)@), old(token)@),
        final(token)@ == Seq::<char>::empty(),
{
    if token.len() > 0 {
        let ghost before = tokens@;
        let mut t: Vec<char> = Vec::new();
        std::mem::swap(&mut t, token);
        tokens.push(t);
        assert(tokens_view(tokens@) =~= tokens_view(before).push(old(token)@));
    }
}

/// The faces recorded in OBJ text, in order: what a reader of the text
/// finds in its `f` lines. Vertex records and other lines are skipped.
pub fn parse_obj_faces(text: &str) -> (faces: Vec<Vec<usize>>)
    ensures
        faces_view(faces@) == faces_of_text(text@),
{
    let mut faces: Vec<Vec<usize>> = Vec::new();
    let mut tokens: Vec<Vec<char>> = Vec::new();
    let mut token: Vec<char> = Vec::new();
    for c in it: text.chars()
        invariant
            it.seq() == text@,
            faces_view(faces@) == scan(text@.take(it.index())).faces,
            tokens_view(tokens@) == scan(text@.take(it.index())).tokens,
            token@ == scan(text@.take(it.index())).token,
    {
        let ghost k = it.index();
        assert(text@.take(k + 1).drop_last() =~= text@.take(k));
        assert(text@.take(k + 1).last() == c);
        if c == '\n' {
            close_token_exec(&mut tokens, &mut token);
            add_face_exec(&mut faces, &tokens);
            tokens = Vec::new();
            assert(tokens_view(tokens@) =~= Seq::<Seq<char>>::empty());
        } else if is_whitespace(c) {
            close_token_exec(&mut tokens, &mut token);
        } else {
            token.push(c);
        }
    }
    assert(text@.take(text@.len() as int) =~= text@);
    close_token_exec(&mut tokens, &mut token);
    add_face_exec(&mut faces, &tokens);
    faces
}

} // verus!
