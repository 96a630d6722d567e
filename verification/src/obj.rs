//! The face records of the Wavefront OBJ meshes.
//!
//! Both meshes are quads. The surface mesh shares vertices between
//! neighbouring panels: its vertices are the grid points, `theta + 1` per phi
//! line over `phi + 1` phi lines, numbered row after row from 1. The flat mesh
//! does not share them: each rung of each panel strip contributes its own two
//! vertices, `2 * (theta + 1)` per strip over `phi` strips.
//!
//! The vertex records hold coordinates and are written by the caller; the
//! face records, which are all index arithmetic, are written here.

use vstd::prelude::*;
use crate::text::{decimal, write_decimal, push_char};

verus! {

/// The surface quad in phi band `ip` (1-based) and theta band `it`
/// (1-based), as the four vertex indices in the order they are written.
pub open spec fn surface_face(theta: nat, ip: nat, it: nat) -> Seq<nat> {
    let a = it + (ip - 1) * theta + (ip - 1);
    let b = a + 1;
    let c = b + (theta + 1);
    let d = c - 1;
    seq![a as nat, d as nat, c as nat, b as nat]
}

/// Every surface quad, phi band by phi band, theta band within.
pub open spec fn surface_faces(phi: nat, theta: nat) -> Seq<Seq<nat>> {
    Seq::new(phi * theta, |k: int| surface_face(theta, (k / theta as int + 1) as nat, (k % theta as int + 1) as nat))
}

/// The flat quad of strip `ip` (0-based) between rungs `it` and `it + 1`.
pub open spec fn flat_face(theta: nat, ip: nat, it: nat) -> Seq<nat> {
    let a = 1 + it * 2 + ip * theta * 2 + ip * 2;
    seq![a as nat, (a + 1) as nat, (a + 3) as nat, (a + 2) as nat]
}

/// Every flat quad, strip by strip, rung within.
pub open spec fn flat_faces(phi: nat, theta: nat) -> Seq<Seq<nat>> {
    Seq::new(phi * theta, |k: int| flat_face(theta, (k / theta as int) as nat, (k % theta as int) as nat))
}

/// The indices of a face, each after a space.
pub open spec fn indices_text(f: Seq<nat>) -> Seq<char>
    decreases f.len(),
{
    if f.len() == 0 {
        seq![]
    } else {
        indices_text(f.drop_last()) + seq![' '] + decimal(f.last())
    }
}

/// One face record: `f`, the indices, a trailing space and a newline.
pub open spec fn face_line(f: Seq<nat>) -> Seq<char> {
    seq!['f'] + indices_text(f) + seq![' ', '\n']
}

/// The face records of `faces`, one line each, in order.
pub open spec fn faces_text(faces: Seq<Seq<nat>>) -> Seq<char>
    decreases faces.len(),
{
    if faces.len() == 0 {
        seq![]
    } else {
        faces_text(faces.drop_last()) + face_line(faces.last())
    }
}

/// One vertex record, from its coordinates as written: `v x y z `, then a
/// newline.
pub open spec fn vertex_line(x: Seq<char>, y: Seq<char>, z: Seq<char>) -> Seq<char> {
    seq!['v', ' '] + x + seq![' '] + y + seq![' '] + z + seq![' ', '\n']
}

/// The vertex records of written-out coordinates, one line each, in order.
pub open spec fn vertices_text(coords: Seq<(Seq<char>, Seq<char>, Seq<char>)>) -> Seq<char>
    decreases coords.len(),
{
    if coords.len() == 0 {
        seq![]
    } else {
        let v = coords.last();
        vertices_text(coords.drop_last()) + vertex_line(v.0, v.1, v.2)
    }
}

/// The mathematical value of written-out coordinates.
pub open spec fn coords_view(coords: Seq<(String, String, String)>) -> Seq<(Seq<char>, Seq<char>, Seq<char>)> {
    coords.map_values(|c: (String, String, String)| (c.0@, c.1@, c.2@))
}

/// Number of vertices in the surface mesh.
pub open spec fn surface_vertex_count(phi: nat, theta: nat) -> nat {
    (phi + 1) * (theta + 1)
}

/// Number of vertices in the flat mesh.
pub open spec fn flat_vertex_count(phi: nat, theta: nat) -> nat {
    phi * (theta + 1) * 2
}

/// Whether `f` is a quad on four distinct vertices, each numbered from 1 up
/// to `count`.
pub open spec fn proper_quad(f: Seq<nat>, count: nat) -> bool {
    &&& f.len() == 4
    &&& forall|j: int| 0 <= j < 4 ==> 1 <= #[trigger] f[j] <= count
    &&& forall|i: int, j: int| 0 <= i < j < 4 ==> f[i] != f[j]
}

/// Appends one face record.
fn write_face(out: &mut String, f: &[usize; 4])
    ensures
        final(out)@ == old(out)@ + face_line(f@.map_values(|x: usize| x as nat)),
{
    let ghost start = out@;
    let ghost fs = f@.map_values(|x: usize| x as nat);
    push_char(out, 'f');
    let mut i: usize = 0;
    while i < 4
        invariant
            0 <= i <= 4,
            fs == f@.map_values(|x: usize| x as nat),
            fs.len() == 4,
            out@ == start + seq!['f'] + indices_text(fs.take(i as int)),
        decreases 4 - i,
    {
        push_char(out, ' ');
        write_decimal(out, f[i]);
        assert(fs.take(i as int + 1).drop_last() =~= fs.take(i as int));
        assert(fs.take(i as int + 1).last() == f[i as int] as nat);
        assert(out@ =~= start + seq!['f'] + indices_text(fs.take(i as int + 1)));
        i = i + 1;
    }
    push_char(out, ' ');
    push_char(out, '\n');
    assert(fs.take(4) =~= fs);
    assert(out@ =~= start + face_line(fs));
}

/// The faces of the surface mesh.
pub proof fn lemma_surface_face_bounds(phi: nat, theta: nat, ip: nat, it: nat)
    requires
        1 <= ip <= phi,
        1 <= it <= theta,
    ensures
        proper_quad(surface_face(theta, ip, it), surface_vertex_count(phi, theta)),
        surface_face(theta, ip, it)[2] <= surface_vertex_count(phi, theta),
{
    let a = it + (ip - 1) * theta + (ip - 1);
    assert((ip - 1) * theta <= (phi - 1) * theta) by (nonlinear_arith)
        requires ip <= phi, ip >= 1;
    assert((phi + 1) * (theta + 1) == phi * theta + phi + theta + 1) by (nonlinear_arith);
    assert((phi - 1) * theta == phi * theta - theta) by (nonlinear_arith) requires phi >= 1;
    assert(a + theta + 2 <= surface_vertex_count(phi, theta));
}

/// The surface mesh's faces are quads on four distinct vertices that exist:
/// every index runs from 1 to the number of grid points. There is one face
/// per grid cell.
pub proof fn law_surface_faces_are_proper(phi: nat, theta: nat)
    ensures
        surface_faces(phi, theta).len() == phi * theta,
        forall|k: int| 0 <= k < phi * theta ==>
            proper_quad(#[trigger] surface_faces(phi, theta)[k], surface_vertex_count(phi, theta)),
{
    assert forall|k: int| 0 <= k < phi * theta implies
        proper_quad(#[trigger] surface_faces(phi, theta)[k], surface_vertex_count(phi, theta)) by {
        let q = k / theta as int;
        let r = k % theta as int;
        assert(theta > 0) by (nonlinear_arith) requires 0 <= k < phi * theta;
        assert(0 <= q < phi) by (nonlinear_arith)
            requires 0 <= k < phi * theta, theta > 0, q == k / theta as int;
        assert(0 <= r < theta) by (nonlinear_arith) requires theta > 0, r == k % theta as int;
        lemma_surface_face_bounds(phi, theta, (q + 1) as nat, (r + 1) as nat);
    }
}

/// The flat faces of one strip's band.
pub proof fn lemma_flat_face_bounds(phi: nat, theta: nat, ip: nat, it: nat)
    requires
        ip < phi,
        it < theta,
    ensures
        proper_quad(flat_face(theta, ip, it), flat_vertex_count(phi, theta)),
{
    assert(ip * theta * 2 + ip * 2 <= (phi - 1) * theta * 2 + (phi - 1) * 2) by (nonlinear_arith)
        requires ip < phi;
    assert(phi * (theta + 1) * 2 == (phi - 1) * theta * 2 + (phi - 1) * 2 + 2 * theta + 2) by (nonlinear_arith)
        requires phi >= 1;
}

/// The flat mesh's faces are quads on four distinct vertices that exist:
/// every index runs from 1 to the number of rung ends. There is one face per
/// panel cell.
pub proof fn law_flat_faces_are_proper(phi: nat, theta: nat)
    ensures
        flat_faces(phi, theta).len() == phi * theta,
        forall|k: int| 0 <= k < phi * theta ==>
            proper_quad(#[trigger] flat_faces(phi, theta)[k], flat_vertex_count(phi, theta)),
{
    assert forall|k: int| 0 <= k < phi * theta implies
        proper_quad(#[trigger] flat_faces(phi, theta)[k], flat_vertex_count(phi, theta)) by {
        let q = k / theta as int;
        let r = k % theta as int;
        assert(theta > 0) by (nonlinear_arith) requires 0 <= k < phi * theta;
        assert(0 <= q < phi) by (nonlinear_arith)
            requires 0 <= k < phi * theta, theta > 0, q == k / theta as int;
        assert(0 <= r < theta) by (nonlinear_arith) requires theta > 0, r == k % theta as int;
        lemma_flat_face_bounds(phi, theta, q as nat, r as nat);
    }
}

/// The vertex records for coordinates already written out, in the order
/// given: what precedes the face records in either OBJ.
pub fn vertex_records(coords: &Vec<(String, String, String)>) -> (out: String)
    ensures
        out@ == vertices_text(coords_view(coords@)),
{
    let ghost cs = coords_view(coords@);
    let mut out = String::new();
    let mut i: usize = 0;
    assert(cs.take(0) =~= Seq::<(Seq<char>, Seq<char>, Seq<char>)>::empty());
    while i < coords.len()
        invariant
            i <= coords.len(),
            cs == coords_view(coords@),
            out@ == vertices_text(cs.take(i as int)),
        decreases coords.len() - i,
    {
        let ghost start = out@;
        push_char(&mut out, 'v');
        push_char(&mut out, ' ');
        out.append(coords[i].0.as_str());
        push_char(&mut out, ' ');
        out.append(coords[i].1.as_str());
        push_char(&mut out, ' ');
        out.append(coords[i].2.as_str());
        push_char(&mut out, ' ');
        push_char(&mut out, '\n');
        assert(cs.take(i as int + 1).drop_last() =~= cs.take(i as int));
        assert(cs.take(i as int + 1).last() == cs[i as int]);
        assert(out@ =~= start + vertex_line(cs[i as int].0, cs[i as int].1, cs[i as int].2));
        i = i + 1;
    }
    assert(cs.take(coords.len() as int) =~= cs);
    out
}

/// `faces_text` grows by one line per face.
proof fn lemma_faces_text_step(faces: Seq<Seq<nat>>, k: int)
    requires
        0 <= k < faces.len(),
    ensures
        faces_text(faces.take(k + 1)) == faces_text(faces.take(k)) + face_line(faces[k]),
{
    assert(faces.take(k + 1).drop_last() =~= faces.take(k));
}

/// The face records of the surface mesh over `phi_divisions` phi bands and
/// `theta_divisions` theta bands: the text that follows the grid's vertex
/// records in the surface OBJ.
pub fn surface_face_records(phi_divisions: usize, theta_divisions: usize) -> (out: String)
    requires
        surface_vertex_count(phi_divisions as nat, theta_divisions as nat) <= usize::MAX,
    ensures
        out@ == faces_text(surface_faces(phi_divisions as nat, theta_divisions as nat)),
{
    let ghost phi = phi_divisions as nat;
    let ghost theta = theta_divisions as nat;
    let ghost faces = surface_faces(phi, theta);
    let mut out = String::new();
    let mut ip: usize = 1;
    assert(faces.take(0) =~= Seq::<Seq<nat>>::empty());
    assert(phi + 1 <= (phi + 1) * (theta + 1)) by (nonlinear_arith);
    while ip <= phi_divisions
        invariant
            1 <= ip <= phi_divisions + 1,
            phi_divisions + 1 <= usize::MAX,
            faces == surface_faces(phi, theta),
            phi == phi_divisions as nat,
            theta == theta_divisions as nat,
            surface_vertex_count(phi, theta) <= usize::MAX,
            out@ == faces_text(faces.take((ip as int - 1) * theta as int)),
        decreases phi_divisions + 1 - ip,
    {
        let mut it: usize = 1;
        assert((ip as int - 1) * theta as int + 0 == (ip as int - 1) * theta as int);
        while it <= theta_divisions
            invariant
                1 <= ip <= phi_divisions,
                1 <= it <= theta_divisions + 1,
                faces == surface_faces(phi, theta),
                phi == phi_divisions as nat,
                theta == theta_divisions as nat,
                surface_vertex_count(phi, theta) <= usize::MAX,
                out@ == faces_text(faces.take((ip as int - 1) * theta as int + it as int - 1)),
            decreases theta_divisions + 1 - it,
        {
            let ghost k = (ip as int - 1) * theta as int + it as int - 1;
            proof {
                lemma_surface_face_bounds(phi, theta, ip as nat, it as nat);
                assert(0 <= k < phi * theta) by (nonlinear_arith)
                    requires k == (ip - 1) * theta + it - 1, 1 <= ip <= phi, 1 <= it <= theta;
                vstd::arithmetic::div_mod::lemma_fundamental_div_mod_converse(
                    k, theta as int, ip as int - 1, it as int - 1);
                lemma_faces_text_step(faces, k);
            }
            let a = it + (ip - 1) * theta_divisions + (ip - 1);
            let b = a + 1;
            let c = b + (theta_divisions + 1);
            let d = c - 1;
            let quad = [a, d, c, b];
            write_face(&mut out, &quad);
            assert(quad@.map_values(|x: usize| x as nat) =~= faces[k]);
            it = it + 1;
        }
        assert((ip as int - 1) * theta as int + theta as int == ip as int * theta as int) by (nonlinear_arith);
        ip = ip + 1;
    }
    assert(phi as int * theta as int == (ip as int - 1) * theta as int);
    assert(faces.take((phi * theta) as int) =~= faces);
    out
}

/// The face records of the flat mesh over `phi_divisions` strips of
/// `theta_divisions` cells: the text that follows the rungs' vertex records
/// in the flat OBJ.
pub fn flat_face_records(phi_divisions: usize, theta_divisions: usize) -> (out: String)
    requires
        flat_vertex_count(phi_divisions as nat, theta_divisions as nat) <= usize::MAX,
    ensures
        out@ == faces_text(flat_faces(phi_divisions as nat, theta_divisions as nat)),
{
    let ghost phi = phi_divisions as nat;
    let ghost theta = theta_divisions as nat;
    let ghost faces = flat_faces(phi, theta);
    let mut out = String::new();
    let mut ip: usize = 0;
    assert(faces.take(0) =~= Seq::<Seq<nat>>::empty());
    while ip < phi_divisions
        invariant
            0 <= ip <= phi_divisions,
            faces == flat_faces(phi, theta),
            phi == phi_divisions as nat,
            theta == theta_divisions as nat,
            flat_vertex_count(phi, theta) <= usize::MAX,
            out@ == faces_text(faces.take(ip as int * theta as int)),
        decreases phi_divisions - ip,
    {
        let mut it: usize = 0;
        while it < theta_divisions
            invariant
                0 <= ip < phi_divisions,
                0 <= it <= theta_divisions,
                faces == flat_faces(phi, theta),
                phi == phi_divisions as nat,
                theta == theta_divisions as nat,
                flat_vertex_count(phi, theta) <= usize::MAX,
                out@ == faces_text(faces.take(ip as int * theta as int + it as int)),
            decreases theta_divisions - it,
        {
            let ghost k = ip as int * theta as int + it as int;
            proof {
                lemma_flat_face_bounds(phi, theta, ip as nat, it as nat);
                assert(0 <= k < phi * theta) by (nonlinear_arith)
                    requires k == ip * theta + it, 0 <= ip < phi, 0 <= it < theta;
                vstd::arithmetic::div_mod::lemma_fundamental_div_mod_converse(
                    k, theta as int, ip as int, it as int);
                lemma_faces_text_step(faces, k);
            }
            let a = 1 + it * 2 + ip * theta_divisions * 2 + ip * 2;
            let quad = [a, a + 1, a + 3, a + 2];
            write_face(&mut out, &quad);
            assert(quad@.map_values(|x: usize| x as nat) =~= faces[k]);
            it = it + 1;
        }
        assert(ip as int * theta as int + theta as int == (ip as int + 1) * theta as int) by (nonlinear_arith);
        ip = ip + 1;
    }
    assert(faces.take((phi * theta) as int) =~= faces);
    out
}

} // verus!
