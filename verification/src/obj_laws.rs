//! What the OBJ face records promise: that reading them gives back exactly
//! the faces that were written.

use vstd::prelude::*;
use crate::text::{decimal, is_digit, parse_usize, law_parse_reads_decimal, lemma_decimal_reads_back, all_digits};
use crate::obj::{face_line, faces_text, indices_text, surface_faces, flat_faces, vertex_line, vertices_text,
    surface_vertex_count, flat_vertex_count, law_surface_faces_are_proper, law_flat_faces_are_proper};
use crate::obj_read::{Scan, scan, scan_step, faces_of_text, is_ws, before_slash, indices_of,
    face_of, add_face, close_token};

verus! {

/// Reading a run of characters, starting from state `st`.
pub open spec fn scan_from(st: Scan, s: Seq<char>) -> Scan
    decreases s.len(),
{
    if s.len() == 0 {
        st
    } else {
        scan_step(scan_from(st, s.drop_last()), s.last())
    }
}

/// Reading `a` then `b` is reading `b` from where `a` left off.
proof fn lemma_scan_concat(a: Seq<char>, b: Seq<char>)
    ensures
        scan(a + b) == scan_from(scan(a), b),
    decreases b.len(),
{
    if b.len() == 0 {
        assert(a + b =~= a);
    } else {
        lemma_scan_concat(a, b.drop_last());
        assert((a + b).drop_last() =~= a + b.drop_last());
        assert((a + b).last() == b.last());
    }
}

/// Reading `a` then `b` from a state.
proof fn lemma_scan_from_concat(st: Scan, a: Seq<char>, b: Seq<char>)
    ensures
        scan_from(st, a + b) == scan_from(scan_from(st, a), b),
    decreases b.len(),
{
    if b.len() == 0 {
        assert(a + b =~= a);
    } else {
        lemma_scan_from_concat(st, a, b.drop_last());
        assert((a + b).drop_last() =~= a + b.drop_last());
        assert((a + b).last() == b.last());
    }
}

/// Reading a single character.
proof fn lemma_scan_one(st: Scan, c: char)
    ensures
        scan_from(st, seq![c]) == scan_step(st, c),
{
    assert(seq![c].drop_last() =~= Seq::<char>::empty());
    assert(scan_from(st, Seq::<char>::empty()) == st);
    assert(seq![c].last() == c);
}

/// Digits neither end a line nor a token.
proof fn lemma_digit_is_plain(c: char)
    requires
        is_digit(c),
    ensures
        c != '\n',
        !is_ws(c),
        c != '/',
{
}

/// A run of digits only extends the token being read.
proof fn lemma_scan_digits(st: Scan, d: Seq<char>)
    requires
        all_digits(d),
    ensures
        scan_from(st, d) == (Scan { faces: st.faces, tokens: st.tokens, token: st.token + d }),
    decreases d.len(),
{
    if d.len() == 0 {
        assert(st.token + d =~= st.token);
    } else {
        let p = d.drop_last();
        assert(all_digits(p)) by {
            assert forall|i: int| 0 <= i < p.len() implies is_digit(#[trigger] p[i]) by {
                assert(p[i] == d[i]);
            }
        }
        lemma_scan_digits(st, p);
        lemma_digit_is_plain(d[d.len() - 1]);
        assert(st.token + p.push(d.last()) =~= st.token + d);
    }
}

/// A token of digits has no `/`, so all of it is the index.
proof fn lemma_before_slash_of_digits(t: Seq<char>)
    requires
        all_digits(t),
    ensures
        before_slash(t) == t,
    decreases t.len(),
{
    if t.len() > 0 {
        let p = t.drop_last();
        assert(all_digits(p)) by {
            assert forall|i: int| 0 <= i < p.len() implies is_digit(#[trigger] p[i]) by {
                assert(p[i] == t[i]);
            }
        }
        lemma_before_slash_of_digits(p);
        lemma_digit_is_plain(t[t.len() - 1]);
    }
}

/// The tokens written for indices `f`.
pub open spec fn decimal_tokens(f: Seq<nat>) -> Seq<Seq<char>> {
    f.map_values(|x: nat| decimal(x))
}

/// Reading the indices back from their tokens.
proof fn lemma_indices_of_decimals(f: Seq<nat>)
    requires
        forall|i: int| 0 <= i < f.len() ==> #[trigger] f[i] <= usize::MAX,
    ensures
        indices_of(decimal_tokens(f)) == f,
    decreases f.len(),
{
    if f.len() > 0 {
        let p = f.drop_last();
        assert(decimal_tokens(f).drop_last() =~= decimal_tokens(p));
        assert forall|i: int| 0 <= i < p.len() implies #[trigger] p[i] <= usize::MAX by {
            assert(p[i] == f[i]);
        }
        lemma_indices_of_decimals(p);
        let x = f.last();
        assert(f[f.len() - 1] <= usize::MAX);
        lemma_decimal_reads_back(x);
        lemma_before_slash_of_digits(decimal(x));
        law_parse_reads_decimal(x);
        assert(decimal_tokens(f).last() == decimal(x));
        assert(p.push(x) =~= f);
    }
}

/// Reading the index part of a face record, after its `f`.
proof fn lemma_scan_indices(faces: Seq<Seq<nat>>, f: Seq<nat>)
    requires
        f.len() > 0,
    ensures
        scan_from(Scan { faces, tokens: seq![], token: seq!['f'] }, indices_text(f))
            == (Scan { faces, tokens: seq![seq!['f']] + decimal_tokens(f.drop_last()), token: decimal(f.last()) }),
    decreases f.len(),
{
    let st0 = Scan { faces, tokens: seq![], token: seq!['f'] };
    let x = f.last();
    let p = f.drop_last();
    lemma_decimal_reads_back(x);
    assert(indices_text(f) == indices_text(p) + seq![' '] + decimal(x));
    lemma_scan_from_concat(st0, indices_text(p) + seq![' '], decimal(x));
    lemma_scan_from_concat(st0, indices_text(p), seq![' ']);
    let mid = scan_from(st0, indices_text(p));
    lemma_scan_one(mid, ' ');
    assert(is_ws(' '));
    if p.len() == 0 {
        assert(indices_text(p) == Seq::<char>::empty());
        assert(mid == st0);
        assert(decimal_tokens(p) =~= Seq::<Seq<char>>::empty());
        assert(seq![seq!['f']] + decimal_tokens(p) =~= seq![seq!['f']]);
    } else {
        lemma_scan_indices(faces, p);
        lemma_decimal_reads_back(p.last());
        assert(decimal_tokens(p) =~= decimal_tokens(p.drop_last()).push(decimal(p.last())));
        assert(seq![seq!['f']] + decimal_tokens(p) =~= (seq![seq!['f']] + decimal_tokens(p.drop_last())).push(decimal(p.last())));
    }
    let after_space = scan_step(mid, ' ');
    assert(after_space.token == Seq::<char>::empty());
    lemma_scan_digits(after_space, decimal(x));
    assert(Seq::<char>::empty() + decimal(x) =~= decimal(x));
}

/// Reading one face record at the start of a line adds exactly that face.
proof fn lemma_scan_face_line(faces: Seq<Seq<nat>>, f: Seq<nat>)
    requires
        f.len() > 0,
        forall|i: int| 0 <= i < f.len() ==> #[trigger] f[i] <= usize::MAX,
    ensures
        scan_from(Scan { faces, tokens: seq![], token: seq![] }, face_line(f))
            == (Scan { faces: faces.push(f), tokens: seq![], token: seq![] }),
{
    let st = Scan { faces, tokens: seq![], token: seq![] };
    let line = face_line(f);
    assert(line =~= seq!['f'] + indices_text(f) + seq![' '] + seq!['\n']);
    lemma_scan_from_concat(st, seq!['f'] + indices_text(f) + seq![' '], seq!['\n']);
    lemma_scan_from_concat(st, seq!['f'] + indices_text(f), seq![' ']);
    lemma_scan_from_concat(st, seq!['f'], indices_text(f));
    assert(seq!['f'].drop_last() =~= Seq::<char>::empty());
    assert(seq![' '].drop_last() =~= Seq::<char>::empty());
    assert(seq!['\n'].drop_last() =~= Seq::<char>::empty());
    assert(is_ws(' '));
    assert(!is_ws('f'));
    lemma_scan_one(st, 'f');
    let st_f = scan_from(st, seq!['f']);
    assert(st_f == scan_step(st, 'f'));
    assert(Seq::<char>::empty().push('f') =~= seq!['f']);
    lemma_scan_indices(faces, f);
    let toks = seq![seq!['f']] + decimal_tokens(f.drop_last());
    let st_i = scan_from(st_f, indices_text(f));
    lemma_scan_one(st_i, ' ');
    let st_s = scan_step(st_i, ' ');
    lemma_scan_one(st_s, '\n');
    lemma_decimal_reads_back(f.last());
    let all = toks.push(decimal(f.last()));
    assert(all =~= seq![seq!['f']] + decimal_tokens(f)) by {
        assert(decimal_tokens(f) =~= decimal_tokens(f.drop_last()).push(decimal(f.last())));
    }
    assert(all.drop_first() =~= decimal_tokens(f));
    lemma_indices_of_decimals(f);
    assert(all[0] == seq!['f']);
    assert(face_of(all) == Some(f));
}

/// Reading the face records of `faces` from the start.
proof fn lemma_scan_faces_text(faces: Seq<Seq<nat>>)
    requires
        forall|k: int| 0 <= k < faces.len() ==> (#[trigger] faces[k]).len() > 0,
        forall|k: int, j: int| 0 <= k < faces.len() && 0 <= j < faces[k].len() ==> #[trigger] faces[k][j] <= usize::MAX,
    ensures
        scan(faces_text(faces)) == (Scan { faces, tokens: seq![], token: seq![] }),
    decreases faces.len(),
{
    if faces.len() == 0 {
        assert(faces_text(faces) == Seq::<char>::empty());
        assert(faces =~= Seq::<Seq<nat>>::empty());
    } else {
        let p = faces.drop_last();
        assert forall|k: int| 0 <= k < p.len() implies (#[trigger] p[k]).len() > 0 by {
            assert(p[k] == faces[k]);
        }
        assert forall|k: int, j: int| 0 <= k < p.len() && 0 <= j < p[k].len() implies #[trigger] p[k][j] <= usize::MAX by {
            assert(p[k] == faces[k]);
        }
        lemma_scan_faces_text(p);
        lemma_scan_concat(faces_text(p), face_line(faces.last()));
        let f = faces.last();
        assert(f == faces[faces.len() - 1]);
        assert forall|i: int| 0 <= i < f.len() implies #[trigger] f[i] <= usize::MAX by {
            assert(faces[faces.len() - 1][i] <= usize::MAX);
        }
        lemma_scan_face_line(p, f);
        assert(p.push(f) =~= faces);
    }
}

/// Reading back what was written: the faces read from the face records of
/// `faces` are `faces`, provided every face has an index and every index
/// fits in a `usize`.
pub proof fn law_face_records_read_back(faces: Seq<Seq<nat>>)
    requires
        forall|k: int| 0 <= k < faces.len() ==> (#[trigger] faces[k]).len() > 0,
        forall|k: int, j: int| 0 <= k < faces.len() && 0 <= j < faces[k].len() ==> #[trigger] faces[k][j] <= usize::MAX,
    ensures
        faces_of_text(faces_text(faces)) == faces,
{
    lemma_scan_faces_text(faces);
    assert(close_token(seq![], seq![]) == Seq::<Seq<char>>::empty());
    assert(face_of(Seq::<Seq<char>>::empty()) is None);
}

/// The surface mesh's face records read back as its faces.
pub proof fn law_surface_records_read_back(phi: nat, theta: nat)
    requires
        surface_vertex_count(phi, theta) <= usize::MAX,
    ensures
        faces_of_text(faces_text(surface_faces(phi, theta))) == surface_faces(phi, theta),
{
    law_surface_faces_are_proper(phi, theta);
    let faces = surface_faces(phi, theta);
    assert forall|k: int, j: int| 0 <= k < faces.len() && 0 <= j < faces[k].len() implies #[trigger] faces[k][j] <= usize::MAX by {
        assert(1 <= faces[k][j] <= surface_vertex_count(phi, theta));
    }
    law_face_records_read_back(faces);
}

/// The flat mesh's face records read back as its faces.
pub proof fn law_flat_records_read_back(phi: nat, theta: nat)
    requires
        flat_vertex_count(phi, theta) <= usize::MAX,
    ensures
        faces_of_text(faces_text(flat_faces(phi, theta))) == flat_faces(phi, theta),
{
    law_flat_faces_are_proper(phi, theta);
    let faces = flat_faces(phi, theta);
    assert forall|k: int, j: int| 0 <= k < faces.len() && 0 <= j < faces[k].len() implies #[trigger] faces[k][j] <= usize::MAX by {
        assert(1 <= faces[k][j] <= flat_vertex_count(phi, theta));
    }
    law_face_records_read_back(faces);
}

/// Whether `s` fits on one line: it holds no newline.
pub open spec fn one_line(s: Seq<char>) -> bool {
    forall|i: int| 0 <= i < s.len() ==> s[i] != '\n'
}

/// Whether every coordinate of `coords` fits on one line.
pub open spec fn coords_one_line(coords: Seq<(Seq<char>, Seq<char>, Seq<char>)>) -> bool {
    forall|k: int| 0 <= k < coords.len() ==> {
        &&& one_line((#[trigger] coords[k]).0)
        &&& one_line(coords[k].1)
        &&& one_line(coords[k].2)
    }
}

/// The state at the start of a line, with `faces` read so far.
pub open spec fn line_start(faces: Seq<Seq<nat>>) -> Scan {
    Scan { faces, tokens: seq![], token: seq![] }
}

/// Reading from the very start.
proof fn lemma_scan_is_scan_from_start(s: Seq<char>)
    ensures
        scan(s) == scan_from(line_start(seq![]), s),
    decreases s.len(),
{
    if s.len() > 0 {
        lemma_scan_is_scan_from_start(s.drop_last());
    }
}

/// Within a line, reading keeps the faces found so far and the line's first
/// token.
proof fn lemma_scan_keeps_first_token(st: Scan, s: Seq<char>)
    requires
        st.tokens.len() > 0,
        one_line(s),
    ensures
        scan_from(st, s).faces == st.faces,
        scan_from(st, s).tokens.len() > 0,
        scan_from(st, s).tokens[0] == st.tokens[0],
    decreases s.len(),
{
    if s.len() > 0 {
        let p = s.drop_last();
        assert(one_line(p)) by {
            assert forall|i: int| 0 <= i < p.len() implies p[i] != '\n' by {
                assert(p[i] == s[i]);
            }
        }
        lemma_scan_keeps_first_token(st, p);
        assert(s.last() == s[s.len() - 1]);
        let m = scan_from(st, p);
        if m.token.len() > 0 {
            assert(m.tokens.push(m.token)[0] == m.tokens[0]);
        }
    }
}

/// A vertex record is read past: it adds no face, and reading is back at
/// the start of a line.
proof fn lemma_scan_vertex_line(faces: Seq<Seq<nat>>, x: Seq<char>, y: Seq<char>, z: Seq<char>)
    requires
        one_line(x),
        one_line(y),
        one_line(z),
    ensures
        scan_from(line_start(faces), vertex_line(x, y, z)) == line_start(faces),
{
    let st = line_start(faces);
    let rest = x + seq![' '] + y + seq![' '] + z + seq![' '];
    assert(one_line(rest)) by {
        assert forall|i: int| 0 <= i < rest.len() implies rest[i] != '\n' by {
            if i < x.len() {
                assert(rest[i] == x[i]);
            } else if i == x.len() {
            } else if i < x.len() + 1 + y.len() {
                assert(rest[i] == y[i - x.len() - 1]);
            } else if i == x.len() + 1 + y.len() {
            } else if i < x.len() + 2 + y.len() + z.len() {
                assert(rest[i] == z[i - x.len() - 2 - y.len()]);
            }
        }
    }
    assert(vertex_line(x, y, z) =~= seq!['v'] + seq![' '] + rest + seq!['\n']);
    lemma_scan_from_concat(st, seq!['v'] + seq![' '] + rest, seq!['\n']);
    lemma_scan_from_concat(st, seq!['v'] + seq![' '], rest);
    lemma_scan_from_concat(st, seq!['v'], seq![' ']);
    lemma_scan_one(st, 'v');
    assert(!is_ws('v'));
    let st_v = scan_step(st, 'v');
    assert(Seq::<char>::empty().push('v') =~= seq!['v']);
    lemma_scan_one(st_v, ' ');
    assert(is_ws(' '));
    let st_s = scan_step(st_v, ' ');
    assert(st_s.tokens =~= seq![seq!['v']]);
    lemma_scan_keeps_first_token(st_s, rest);
    let st_r = scan_from(st_s, rest);
    lemma_scan_one(st_r, '\n');
    let toks = close_token(st_r.tokens, st_r.token);
    if st_r.token.len() > 0 {
        assert(st_r.tokens.push(st_r.token)[0] == st_r.tokens[0]);
    }
    assert(toks[0] == seq!['v']);
    assert(seq!['v'][0] != seq!['f'][0]);
    assert(face_of(toks) is None);
}

/// Reading vertex records from the start of a line finds no faces.
proof fn lemma_scan_vertices_text(faces: Seq<Seq<nat>>, coords: Seq<(Seq<char>, Seq<char>, Seq<char>)>)
    requires
        coords_one_line(coords),
    ensures
        scan_from(line_start(faces), vertices_text(coords)) == line_start(faces),
    decreases coords.len(),
{
    if coords.len() > 0 {
        let p = coords.drop_last();
        assert(coords_one_line(p)) by {
            assert forall|k: int| 0 <= k < p.len() implies {
                &&& one_line((#[trigger] p[k]).0)
                &&& one_line(p[k].1)
                &&& one_line(p[k].2)
            } by {
                assert(p[k] == coords[k]);
            }
        }
        lemma_scan_vertices_text(faces, p);
        let v = coords.last();
        assert(v == coords[coords.len() - 1]);
        lemma_scan_from_concat(line_start(faces), vertices_text(p), vertex_line(v.0, v.1, v.2));
        lemma_scan_vertex_line(faces, v.0, v.1, v.2);
    }
}

/// Reading back a whole OBJ document: vertex records then face records, as
/// the writers lay them out, read back as exactly the faces written. The
/// vertex records are skipped whatever their coordinates say, so long as
/// each coordinate stays on its line.
pub proof fn law_document_faces_read_back(
    coords: Seq<(Seq<char>, Seq<char>, Seq<char>)>,
    faces: Seq<Seq<nat>>,
)
    requires
        coords_one_line(coords),
        forall|k: int| 0 <= k < faces.len() ==> (#[trigger] faces[k]).len() > 0,
        forall|k: int, j: int| 0 <= k < faces.len() && 0 <= j < faces[k].len() ==> #[trigger] faces[k][j] <= usize::MAX,
    ensures
        faces_of_text(vertices_text(coords) + faces_text(faces)) == faces,
{
    lemma_scan_concat(vertices_text(coords), faces_text(faces));
    lemma_scan_is_scan_from_start(vertices_text(coords));
    lemma_scan_vertices_text(seq![], coords);
    lemma_scan_is_scan_from_start(faces_text(faces));
    law_face_records_read_back(faces);
}

} // verus!
