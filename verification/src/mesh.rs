//! Triangle indices for the preview meshes of the surface grid.
//!
//! The grid's vertices are numbered row after row, `positions_per_row` per
//! phi line. Each quad is split into two triangles, `(v00, v10, v11)` then
//! `(v00, v11, v01)`, where the first digit steps along phi and the second
//! along theta.

use vstd::prelude::*;

verus! {

/// The six indices of the quad in phi band `ip` and theta band `it`.
pub open spec fn quad_triangles(per_row: nat, ip: nat, it: nat) -> Seq<nat> {
    let v00 = ip * per_row + it;
    let v01 = v00 + 1;
    let v10 = (ip + 1) * per_row + it;
    let v11 = v10 + 1;
    seq![v00, v10, v11, v00, v11, v01]
}

/// The indices of the first `k` quads.
pub open spec fn grid_indices_upto(per_row: nat, phi: nat, theta: nat, k: nat) -> Seq<nat>
    decreases k,
{
    if k == 0 || theta == 0 {
        seq![]
    } else {
        let q = (k - 1) as nat;
        grid_indices_upto(per_row, phi, theta, q) + quad_triangles(per_row, q / theta, q % theta)
    }
}

/// The largest index any quad uses.
pub open spec fn largest_index(per_row: nat, phi: nat, theta: nat) -> nat {
    phi * per_row + theta
}

/// Triangle indices for the quad grid.
pub fn quad_indices(positions_per_row: usize, phi_divisions: usize, theta_divisions: usize) -> (indices: Vec<u32>)
    requires
        largest_index(positions_per_row as nat, phi_divisions as nat, theta_divisions as nat) <= u32::MAX,
    ensures
        indices@.map_values(|x: u32| x as nat)
            == grid_indices_upto(positions_per_row as nat, phi_divisions as nat, theta_divisions as nat,
                (phi_divisions * theta_divisions) as nat),
{
    let ghost per_row = positions_per_row as nat;
    let ghost phi = phi_divisions as nat;
    let ghost theta = theta_divisions as nat;
    let mut indices: Vec<u32> = Vec::new();
    let mut ip: usize = 0;
    while ip < phi_divisions
        invariant
            ip <= phi_divisions,
            per_row == positions_per_row as nat,
            phi == phi_divisions as nat,
            theta == theta_divisions as nat,
            largest_index(per_row, phi, theta) <= u32::MAX,
            indices@.map_values(|x: u32| x as nat) == grid_indices_upto(per_row, phi, theta, (ip * theta) as nat),
        decreases phi_divisions - ip,
    {
        let mut it: usize = 0;
        while it < theta_divisions
            invariant
                ip < phi_divisions,
                it <= theta_divisions,
                per_row == positions_per_row as nat,
                phi == phi_divisions as nat,
                theta == theta_divisions as nat,
                largest_index(per_row, phi, theta) <= u32::MAX,
                indices@.map_values(|x: u32| x as nat)
                    == grid_indices_upto(per_row, phi, theta, (ip * theta + it) as nat),
            decreases theta_divisions - it,
        {
            proof {
                let q = ip * theta + it;
                vstd::arithmetic::div_mod::lemma_fundamental_div_mod_converse(
                    q as int, theta as int, ip as int, it as int);
                assert((ip + 1) * per_row + it + 1 <= phi * per_row + theta) by (nonlinear_arith)
                    requires ip < phi, it < theta;
                assert(ip * per_row + it + 1 <= (ip + 1) * per_row + it + 1) by (nonlinear_arith);
            }
            let v00 = (ip * positions_per_row + it) as u32;
            let v01 = v00 + 1;
            let v10 = ((ip + 1) * positions_per_row + it) as u32;
            let v11 = v10 + 1;
            let ghost before = indices@;
            indices.push(v00);
            indices.push(v10);
            indices.push(v11);
            indices.push(v00);
            indices.push(v11);
            indices.push(v01);
            proof {
                let q = (ip * theta + it) as nat;
                assert((q + 1 - 1) as nat == q);
                assert(indices@.map_values(|x: u32| x as nat)
                    =~= before.map_values(|x: u32| x as nat) + quad_triangles(per_row, ip as nat, it as nat));
            }
            it = it + 1;
        }
        assert(ip * theta + theta == (ip + 1) * theta) by (nonlinear_arith);
        ip = ip + 1;
    }
    indices
}

/// Every index a quad of the grid uses names a vertex that exists when the
/// rows hold one vertex per theta line, and each of its two triangles has
/// three different corners.
pub proof fn law_quad_indices_are_proper(phi: nat, theta: nat, ip: nat, it: nat)
    requires
        ip < phi,
        it < theta,
    ensures
        forall|j: int| 0 <= j < 6 ==> #[trigger] quad_triangles(theta + 1, ip, it)[j] < (phi + 1) * (theta + 1),
        quad_triangles(theta + 1, ip, it)[0] != quad_triangles(theta + 1, ip, it)[1],
        quad_triangles(theta + 1, ip, it)[0] != quad_triangles(theta + 1, ip, it)[2],
        quad_triangles(theta + 1, ip, it)[1] != quad_triangles(theta + 1, ip, it)[2],
        quad_triangles(theta + 1, ip, it)[3] != quad_triangles(theta + 1, ip, it)[4],
        quad_triangles(theta + 1, ip, it)[3] != quad_triangles(theta + 1, ip, it)[5],
        quad_triangles(theta + 1, ip, it)[4] != quad_triangles(theta + 1, ip, it)[5],
{
    assert((ip + 1) * (theta + 1) + it + 1 < (phi + 1) * (theta + 1)) by (nonlinear_arith)
        requires ip < phi, it < theta;
    assert((ip + 1) * (theta + 1) == ip * (theta + 1) + theta + 1) by (nonlinear_arith);
}

/// The whole index buffer of a grid with one vertex per theta line in each
/// row: two triangles per quad, and every index names a vertex that exists.
pub proof fn law_grid_indices_in_range(phi: nat, theta: nat, k: nat)
    requires
        k <= phi * theta,
    ensures
        grid_indices_upto(theta + 1, phi, theta, k).len() == 6 * k,
        forall|j: int| 0 <= j < 6 * k ==>
            #[trigger] grid_indices_upto(theta + 1, phi, theta, k)[j] < (phi + 1) * (theta + 1),
    decreases k,
{
    if k > 0 {
        let q = (k - 1) as nat;
        law_grid_indices_in_range(phi, theta, q);
        assert(theta > 0) by (nonlinear_arith) requires k <= phi * theta, k > 0;
        assert(q / theta < phi) by (nonlinear_arith) requires q < phi * theta, theta > 0;
        assert(q % theta < theta) by (nonlinear_arith) requires theta > 0;
        law_quad_indices_are_proper(phi, theta, q / theta, q % theta);
        let prev = grid_indices_upto(theta + 1, phi, theta, q);
        let quad = quad_triangles(theta + 1, q / theta, q % theta);
        assert(grid_indices_upto(theta + 1, phi, theta, k) == prev + quad);
        assert forall|j: int| 0 <= j < 6 * k implies
            #[trigger] grid_indices_upto(theta + 1, phi, theta, k)[j] < (phi + 1) * (theta + 1) by {
            if j < 6 * q {
                assert((prev + quad)[j] == prev[j]);
            } else {
                assert((prev + quad)[j] == quad[j - 6 * q]);
            }
        }
    }
}

} // verus!
