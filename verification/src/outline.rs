//! The order in which the cut outline of the flat pattern visits the panels'
//! edges.
//!
//! Each panel (one per phi division) is a strip of rungs, one per theta line,
//! and each rung has a left end (side 0) and a right end (side 1). Around the
//! ellipsoid, the left ends of a panel meet the right ends of the panel
//! before it. The outline runs along these edges; where two panels touch at
//! a rung, their ends are compared, and an end is kept only where the panels
//! have come apart by more than the minimum gap. That distance is floating
//! point and is the caller's; which ends are visited, in what order, and
//! which end each is compared with, is decided here.

use vstd::prelude::*;
use crate::settings::Projection;

verus! {

/// One end of a rung: rung `row` of panel `panel`, on side `side`
/// (0 for left, 1 for right).
#[derive(Debug, Clone, Copy, PartialEq, Eq, Structural)]
pub struct RungEnd {
    pub panel: usize,
    pub row: usize,
    pub side: usize,
}

/// A candidate vertex of the outline: `point` is kept when `always` is set,
/// or when it lies more than the minimum gap away from `neighbour`, the end
/// of the adjacent panel that it meets.
#[derive(Debug, Clone, Copy, PartialEq, Eq, Structural)]
pub struct OutlineStep {
    pub point: RungEnd,
    pub neighbour: RungEnd,
    pub always: bool,
}

/// The rung end at the given place.
pub open spec fn end(panel: int, row: int, side: int) -> RungEnd {
    RungEnd { panel: panel as usize, row: row as usize, side: side as usize }
}

/// The panel before `ip`, going round the ellipsoid.
pub open spec fn before(ip: int, phi: int) -> int {
    if ip == 0 { phi - 1 } else { ip - 1 }
}

/// The panel after `ip`, going round the ellipsoid.
pub open spec fn after(ip: int, phi: int) -> int {
    if ip + 1 == phi { 0 } else { ip + 1 }
}

/// A step that is kept only across a wide enough gap.
pub open spec fn gap_step(point: RungEnd, neighbour: RungEnd) -> OutlineStep {
    OutlineStep { point, neighbour, always: false }
}

/// Spherical, panel `ip`, going up: the right end of the panel before it at
/// row `it`, against the left end of `ip`; the top row is always kept when
/// the ellipsoid has height added above its top.
pub open spec fn spherical_up(phi: nat, theta: nat, ip: nat, top_extended: bool, it: int) -> OutlineStep {
    OutlineStep {
        point: end(before(ip as int, phi as int), it, 1),
        neighbour: end(ip as int, it, 0),
        always: top_extended && it == theta,
    }
}

/// Spherical, panel `ip`, coming down: the `k`th step down from the top is
/// its own left end, against the right end of the panel before it.
pub open spec fn spherical_down(phi: nat, theta: nat, ip: nat, top_extended: bool, k: int) -> OutlineStep {
    let it = theta - k;
    OutlineStep {
        point: end(ip as int, it, 0),
        neighbour: end(before(ip as int, phi as int), it, 1),
        always: top_extended && it == theta,
    }
}

/// What panel `ip` adds to a spherical outline.
pub open spec fn spherical_panel(phi: nat, theta: nat, ip: nat, top_extended: bool) -> Seq<OutlineStep> {
    Seq::new(theta + 1, |it: int| spherical_up(phi, theta, ip, top_extended, it))
        + Seq::new(theta + 1, |k: int| spherical_down(phi, theta, ip, top_extended, k))
}

/// The spherical outline through the first `n` panels.
pub open spec fn spherical_walk(phi: nat, theta: nat, top_extended: bool, n: nat) -> Seq<OutlineStep>
    decreases n,
{
    if n == 0 {
        seq![]
    } else {
        spherical_walk(phi, theta, top_extended, (n - 1) as nat) + spherical_panel(phi, theta, (n - 1) as nat, top_extended)
    }
}

/// Cylindrical, front half, panel `ip`: down its left edge from the widest
/// row, the `k`th step being against the panel before it.
pub open spec fn front_down(phi: nat, widest: nat, ip: nat, k: int) -> OutlineStep {
    let it = widest - k;
    gap_step(end(ip as int, it, 0), end(before(ip as int, phi as int), it, 1))
}

/// Cylindrical, front half, panel `ip`: up its right edge to the widest row,
/// against the panel after it.
pub open spec fn front_up(phi: nat, ip: nat, it: int) -> OutlineStep {
    gap_step(end(ip as int, it, 1), end(after(ip as int, phi as int), it, 0))
}

/// What panel `ip` adds to the front half of a cylindrical outline: the
/// rows from the bottom to the widest.
pub open spec fn front_panel(phi: nat, widest: nat, ip: nat) -> Seq<OutlineStep> {
    Seq::new(widest + 1, |k: int| front_down(phi, widest, ip, k))
        + Seq::new(widest + 1, |it: int| front_up(phi, ip, it))
}

/// Cylindrical, back half, panel `ip`: up its right edge from the widest
/// row, the `k`th step being against the panel after it.
pub open spec fn back_up(phi: nat, widest: nat, ip: nat, k: int) -> OutlineStep {
    let it = widest + k;
    gap_step(end(ip as int, it, 1), end(after(ip as int, phi as int), it, 0))
}

/// Cylindrical, back half, panel `ip`: the `k`th step down its left edge
/// from the top, to just above the widest row, against the panel before it.
pub open spec fn back_down(phi: nat, theta: nat, ip: nat, k: int) -> OutlineStep {
    let it = theta - k;
    gap_step(end(ip as int, it, 0), end(before(ip as int, phi as int), it, 1))
}

/// What panel `ip` adds to the back half of a cylindrical outline: the
/// rows from the widest to the top.
pub open spec fn back_panel(phi: nat, theta: nat, widest: nat, ip: nat) -> Seq<OutlineStep> {
    Seq::new((theta - widest + 1) as nat, |k: int| back_up(phi, widest, ip, k))
        + Seq::new((theta - widest) as nat, |k: int| back_down(phi, theta, ip, k))
}

/// The front half of a cylindrical outline through the first `n` panels.
pub open spec fn front_walk(phi: nat, widest: nat, n: nat) -> Seq<OutlineStep>
    decreases n,
{
    if n == 0 {
        seq![]
    } else {
        front_walk(phi, widest, (n - 1) as nat) + front_panel(phi, widest, (n - 1) as nat)
    }
}

/// The back half of a cylindrical outline through the last `n` panels,
/// taken from the last panel back towards the first.
pub open spec fn back_walk(phi: nat, theta: nat, widest: nat, n: nat) -> Seq<OutlineStep>
    decreases n,
{
    if n == 0 {
        seq![]
    } else {
        back_walk(phi, theta, widest, (n - 1) as nat) + back_panel(phi, theta, widest, (phi - n) as nat)
    }
}

/// The whole cylindrical outline: across the front of every panel, then
/// back across the tops.
pub open spec fn cylindrical_walk(phi: nat, theta: nat, widest: nat) -> Seq<OutlineStep> {
    front_walk(phi, widest, phi) + back_walk(phi, theta, widest, phi)
}

/// The outline's steps for a projection.
pub open spec fn outline_walk(projection: Projection, phi: nat, theta: nat, widest: nat, top_extended: bool) -> Seq<OutlineStep> {
    match projection {
        Projection::Spherical => spherical_walk(phi, theta, top_extended, phi),
        Projection::Cylindrical => cylindrical_walk(phi, theta, widest),
    }
}

/// The panel before `ip`.
fn panel_before(ip: usize, phi: usize) -> (p: usize)
    requires
        ip < phi,
    ensures
        p == before(ip as int, phi as int),
{
    if ip == 0 { phi - 1 } else { ip - 1 }
}

/// The panel after `ip`.
fn panel_after(ip: usize, phi: usize) -> (p: usize)
    requires
        ip < phi,
    ensures
        p == after(ip as int, phi as int),
{
    if ip + 1 == phi { 0 } else { ip + 1 }
}

/// The steps of a spherical outline: for each panel, up the right edge of
/// the panel before it, then down its own left edge.
pub fn spherical_outline(phi_divisions: usize, theta_divisions: usize, top_extended: bool) -> (steps: Vec<OutlineStep>)
    requires
        theta_divisions < usize::MAX,
    ensures
        steps@ == spherical_walk(phi_divisions as nat, theta_divisions as nat, top_extended, phi_divisions as nat),
{
    let ghost phi = phi_divisions as nat;
    let ghost theta = theta_divisions as nat;
    let mut steps: Vec<OutlineStep> = Vec::new();
    let mut ip: usize = 0;
    while ip < phi_divisions
        invariant
            ip <= phi_divisions,
            theta_divisions < usize::MAX,
            phi == phi_divisions as nat,
            theta == theta_divisions as nat,
            steps@ == spherical_walk(phi, theta, top_extended, ip as nat),
        decreases phi_divisions - ip,
    {
        let prev = panel_before(ip, phi_divisions);
        let ghost base = steps@;
        let mut it: usize = 0;
        while it <= theta_divisions
            invariant
                ip < phi_divisions,
                it <= theta_divisions + 1,
                theta_divisions < usize::MAX,
                prev == before(ip as int, phi_divisions as int),
                phi == phi_divisions as nat,
                theta == theta_divisions as nat,
                steps@ == base + Seq::new(it as nat, |i: int| spherical_up(phi, theta, ip as nat, top_extended, i)),
            decreases theta_divisions + 1 - it,
        {
            steps.push(OutlineStep {
                point: RungEnd { panel: prev, row: it, side: 1 },
                neighbour: RungEnd { panel: ip, row: it, side: 0 },
                always: top_extended && it == theta_divisions,
            });
            assert(steps@ =~= base + Seq::new((it + 1) as nat, |i: int| spherical_up(phi, theta, ip as nat, top_extended, i)));
            it = it + 1;
        }
        let ghost middle = steps@;
        let mut k: usize = 0;
        while k <= theta_divisions
            invariant
                ip < phi_divisions,
                k <= theta_divisions + 1,
                theta_divisions < usize::MAX,
                prev == before(ip as int, phi_divisions as int),
                phi == phi_divisions as nat,
                theta == theta_divisions as nat,
                steps@ == middle + Seq::new(k as nat, |i: int| spherical_down(phi, theta, ip as nat, top_extended, i)),
            decreases theta_divisions + 1 - k,
        {
            let row = theta_divisions - k;
            steps.push(OutlineStep {
                point: RungEnd { panel: ip, row, side: 0 },
                neighbour: RungEnd { panel: prev, row, side: 1 },
                always: top_extended && row == theta_divisions,
            });
            assert(steps@ =~= middle + Seq::new((k + 1) as nat, |i: int| spherical_down(phi, theta, ip as nat, top_extended, i)));
            k = k + 1;
        }
        assert(steps@ =~= spherical_walk(phi, theta, top_extended, (ip + 1) as nat));
        ip = ip + 1;
    }
    steps
}

/// The steps of a cylindrical outline: across the front of each panel in
/// turn, from the bottom to the widest row, then back across each panel from
/// the last, from the widest row to the top.
pub fn cylindrical_outline(phi_divisions: usize, theta_divisions: usize, widest_row: usize) -> (steps: Vec<OutlineStep>)
    requires
        theta_divisions < usize::MAX,
        widest_row <= theta_divisions,
    ensures
        steps@ == cylindrical_walk(phi_divisions as nat, theta_divisions as nat, widest_row as nat),
{
    let ghost phi = phi_divisions as nat;
    let ghost theta = theta_divisions as nat;
    let ghost widest = widest_row as nat;
    let mut steps: Vec<OutlineStep> = Vec::new();
    let mut ip: usize = 0;
    while ip < phi_divisions
        invariant
            ip <= phi_divisions,
            widest_row <= theta_divisions < usize::MAX,
            phi == phi_divisions as nat,
            theta == theta_divisions as nat,
            widest == widest_row as nat,
            steps@ == front_walk(phi, widest, ip as nat),
        decreases phi_divisions - ip,
    {
        let prev = panel_before(ip, phi_divisions);
        let next = panel_after(ip, phi_divisions);
        let ghost base = steps@;
        let mut k: usize = 0;
        while k <= widest_row
            invariant
                ip < phi_divisions,
                k <= widest_row + 1,
                widest_row <= theta_divisions < usize::MAX,
                prev == before(ip as int, phi_divisions as int),
                phi == phi_divisions as nat,
                widest == widest_row as nat,
                steps@ == base + Seq::new(k as nat, |i: int| front_down(phi, widest, ip as nat, i)),
            decreases widest_row + 1 - k,
        {
            let row = widest_row - k;
            steps.push(OutlineStep {
                point: RungEnd { panel: ip, row, side: 0 },
                neighbour: RungEnd { panel: prev, row, side: 1 },
                always: false,
            });
            assert(steps@ =~= base + Seq::new((k + 1) as nat, |i: int| front_down(phi, widest, ip as nat, i)));
            k = k + 1;
        }
        let ghost middle = steps@;
        let mut it: usize = 0;
        while it <= widest_row
            invariant
                ip < phi_divisions,
                it <= widest_row + 1,
                widest_row <= theta_divisions < usize::MAX,
                next == after(ip as int, phi_divisions as int),
                phi == phi_divisions as nat,
                widest == widest_row as nat,
                steps@ == middle + Seq::new(it as nat, |i: int| front_up(phi, ip as nat, i)),
            decreases widest_row + 1 - it,
        {
            steps.push(OutlineStep {
                point: RungEnd { panel: ip, row: it, side: 1 },
                neighbour: RungEnd { panel: next, row: it, side: 0 },
                always: false,
            });
            assert(steps@ =~= middle + Seq::new((it + 1) as nat, |i: int| front_up(phi, ip as nat, i)));
            it = it + 1;
        }
        assert(steps@ =~= front_walk(phi, widest, (ip + 1) as nat));
        ip = ip + 1;
    }
    let ghost front = steps@;
    let mut n: usize = 0;
    assert(front =~= front + back_walk(phi, theta, widest, 0));
    while n < phi_divisions
        invariant
            n <= phi_divisions,
            widest_row <= theta_divisions < usize::MAX,
            phi == phi_divisions as nat,
            theta == theta_divisions as nat,
            widest == widest_row as nat,
            steps@ == front + back_walk(phi, theta, widest, n as nat),
        decreases phi_divisions - n,
    {
        let ip = phi_divisions - 1 - n;
        let prev = panel_after(ip, phi_divisions);
        let next = panel_before(ip, phi_divisions);
        let ghost base = steps@;
        let mut k: usize = 0;
        while k <= theta_divisions - widest_row
            invariant
                ip < phi_divisions,
                k <= theta_divisions - widest_row + 1,
                widest_row <= theta_divisions < usize::MAX,
                prev == after(ip as int, phi_divisions as int),
                phi == phi_divisions as nat,
                widest == widest_row as nat,
                steps@ == base + Seq::new(k as nat, |i: int| back_up(phi, widest, ip as nat, i)),
            decreases theta_divisions - widest_row + 1 - k,
        {
            let row = widest_row + k;
            steps.push(OutlineStep {
                point: RungEnd { panel: ip, row, side: 1 },
                neighbour: RungEnd { panel: prev, row, side: 0 },
                always: false,
            });
            assert(steps@ =~= base + Seq::new((k + 1) as nat, |i: int| back_up(phi, widest, ip as nat, i)));
            k = k + 1;
        }
        let ghost middle = steps@;
        let mut k: usize = 0;
        while k < theta_divisions - widest_row
            invariant
                ip < phi_divisions,
                k <= theta_divisions - widest_row,
                widest_row <= theta_divisions < usize::MAX,
                next == before(ip as int, phi_divisions as int),
                phi == phi_divisions as nat,
                theta == theta_divisions as nat,
                steps@ == middle + Seq::new(k as nat, |i: int| back_down(phi, theta, ip as nat, i)),
            decreases theta_divisions - widest_row - k,
        {
            let row = theta_divisions - k;
            steps.push(OutlineStep {
                point: RungEnd { panel: ip, row, side: 0 },
                neighbour: RungEnd { panel: next, row, side: 1 },
                always: false,
            });
            assert(steps@ =~= middle + Seq::new((k + 1) as nat, |i: int| back_down(phi, theta, ip as nat, i)));
            k = k + 1;
        }
        assert(ip as nat == (phi - (n + 1)) as nat);
        assert(steps@ =~= front + back_walk(phi, theta, widest, (n + 1) as nat));
        n = n + 1;
    }
    steps
}

/// The steps of the cut outline for a projection. `top_extended` says whether
/// the ellipsoid has added height at the top; in the spherical projection
/// its top row is then always part of the outline. The widest row matters
/// only to the cylindrical projection.
pub fn outline_steps(
    projection: Projection,
    phi_divisions: usize,
    theta_divisions: usize,
    widest_row: usize,
    top_extended: bool,
) -> (steps: Vec<OutlineStep>)
    requires
        theta_divisions < usize::MAX,
        projection == Projection::Cylindrical ==> widest_row <= theta_divisions,
    ensures
        steps@ == outline_walk(projection, phi_divisions as nat, theta_divisions as nat, widest_row as nat, top_extended),
{
    match projection {
        Projection::Spherical => spherical_outline(phi_divisions, theta_divisions, top_extended),
        Projection::Cylindrical => cylindrical_outline(phi_divisions, theta_divisions, widest_row),
    }
}

/// Whether a rung end exists in a pattern of `phi` panels with rows
/// `0..=theta`.
pub open spec fn in_pattern(e: RungEnd, phi: nat, theta: nat) -> bool {
    e.panel < phi && e.row <= theta && e.side < 2
}

/// Whether `b` is the rung end that `a` meets across a seam: on the same
/// row and the other side, of the panel next to `a`'s on that side.
pub open spec fn meets(a: RungEnd, b: RungEnd, phi: nat) -> bool {
    &&& a.row == b.row
    &&& a.side < 2
    &&& b.side == 1 - a.side
    &&& b.panel == if a.side == 0 { before(a.panel as int, phi as int) } else { after(a.panel as int, phi as int) }
}

/// Whether a step names ends that exist, and compares its point with the
/// end it meets.
pub open spec fn sound_step(s: OutlineStep, phi: nat, theta: nat) -> bool {
    in_pattern(s.point, phi, theta) && in_pattern(s.neighbour, phi, theta) && meets(s.point, s.neighbour, phi)
}

/// Whether every step of `steps` is sound.
pub open spec fn all_sound(steps: Seq<OutlineStep>, phi: nat, theta: nat) -> bool {
    forall|i: int| 0 <= i < steps.len() ==> #[trigger] sound_step(steps[i], phi, theta)
}

/// Joining two runs of sound steps gives a run of sound steps.
proof fn lemma_all_sound_concat(a: Seq<OutlineStep>, b: Seq<OutlineStep>, phi: nat, theta: nat)
    requires
        all_sound(a, phi, theta),
        all_sound(b, phi, theta),
    ensures
        all_sound(a + b, phi, theta),
{
    assert forall|i: int| 0 <= i < (a + b).len() implies #[trigger] sound_step((a + b)[i], phi, theta) by {
        if i < a.len() {
            assert((a + b)[i] == a[i]);
        } else {
            assert((a + b)[i] == b[i - a.len()]);
        }
    }
}

proof fn lemma_spherical_sound(phi: usize, theta: usize, top_extended: bool, n: nat)
    requires
        theta < usize::MAX,
        n <= phi,
    ensures
        all_sound(spherical_walk(phi as nat, theta as nat, top_extended, n), phi as nat, theta as nat),
    decreases n,
{
    if n > 0 {
        let ip = (n - 1) as nat;
        lemma_spherical_sound(phi, theta, top_extended, ip);
        let up = Seq::new(theta as nat + 1, |it: int| spherical_up(phi as nat, theta as nat, ip, top_extended, it));
        let down = Seq::new(theta as nat + 1, |k: int| spherical_down(phi as nat, theta as nat, ip, top_extended, k));
        assert(all_sound(up, phi as nat, theta as nat));
        assert(all_sound(down, phi as nat, theta as nat));
        lemma_all_sound_concat(up, down, phi as nat, theta as nat);
        lemma_all_sound_concat(spherical_walk(phi as nat, theta as nat, top_extended, ip), up + down, phi as nat, theta as nat);
    }
}

proof fn lemma_front_sound(phi: usize, theta: usize, widest: usize, n: nat)
    requires
        widest <= theta < usize::MAX,
        n <= phi,
    ensures
        all_sound(front_walk(phi as nat, widest as nat, n), phi as nat, theta as nat),
    decreases n,
{
    if n > 0 {
        let ip = (n - 1) as nat;
        lemma_front_sound(phi, theta, widest, ip);
        let down = Seq::new(widest as nat + 1, |k: int| front_down(phi as nat, widest as nat, ip, k));
        let up = Seq::new(widest as nat + 1, |it: int| front_up(phi as nat, ip, it));
        assert(all_sound(down, phi as nat, theta as nat));
        assert(all_sound(up, phi as nat, theta as nat));
        lemma_all_sound_concat(down, up, phi as nat, theta as nat);
        lemma_all_sound_concat(front_walk(phi as nat, widest as nat, ip), down + up, phi as nat, theta as nat);
    }
}

proof fn lemma_back_sound(phi: usize, theta: usize, widest: usize, n: nat)
    requires
        widest <= theta < usize::MAX,
        n <= phi,
    ensures
        all_sound(back_walk(phi as nat, theta as nat, widest as nat, n), phi as nat, theta as nat),
    decreases n,
{
    if n > 0 {
        let ip = (phi - n) as nat;
        lemma_back_sound(phi, theta, widest, (n - 1) as nat);
        let up = Seq::new((theta - widest + 1) as nat, |k: int| back_up(phi as nat, widest as nat, ip, k));
        let down = Seq::new((theta - widest) as nat, |k: int| back_down(phi as nat, theta as nat, ip, k));
        assert(all_sound(up, phi as nat, theta as nat));
        assert(all_sound(down, phi as nat, theta as nat));
        lemma_all_sound_concat(up, down, phi as nat, theta as nat);
        lemma_all_sound_concat(back_walk(phi as nat, theta as nat, widest as nat, (n - 1) as nat), up + down, phi as nat, theta as nat);
    }
}

/// Every step of the outline, in either projection, names rung ends that
/// exist in the pattern, and compares each end with the end of the
/// neighbouring panel that it meets across their seam.
pub proof fn law_outline_compares_ends_that_meet(
    projection: Projection,
    phi: usize,
    theta: usize,
    widest: usize,
    top_extended: bool,
)
    requires
        theta < usize::MAX,
        projection == Projection::Cylindrical ==> widest <= theta,
    ensures
        all_sound(outline_walk(projection, phi as nat, theta as nat, widest as nat, top_extended), phi as nat, theta as nat),
{
    match projection {
        Projection::Spherical => lemma_spherical_sound(phi, theta, top_extended, phi as nat),
        Projection::Cylindrical => {
            lemma_front_sound(phi, theta, widest, phi as nat);
            lemma_back_sound(phi, theta, widest, phi as nat);
            lemma_all_sound_concat(
                front_walk(phi as nat, widest as nat, phi as nat),
                back_walk(phi as nat, theta as nat, widest as nat, phi as nat),
                phi as nat,
                theta as nat,
            );
        },
    }
}

/// Whether some step of `steps` has `e` as its candidate point.
pub open spec fn visits(steps: Seq<OutlineStep>, e: RungEnd) -> bool {
    exists|i: int| 0 <= i < steps.len() && #[trigger] steps[i].point == e
}

/// A point visited by a run of steps is visited by any run that starts or
/// ends with it.
proof fn lemma_visits_concat(a: Seq<OutlineStep>, b: Seq<OutlineStep>, e: RungEnd)
    ensures
        visits(a, e) ==> visits(a + b, e),
        visits(b, e) ==> visits(a + b, e),
{
    if visits(a, e) {
        let i = choose|i: int| 0 <= i < a.len() && #[trigger] a[i].point == e;
        assert((a + b)[i] == a[i]);
    }
    if visits(b, e) {
        let i = choose|i: int| 0 <= i < b.len() && #[trigger] b[i].point == e;
        assert((a + b)[a.len() + i] == b[i]);
    }
}

proof fn lemma_spherical_visits(phi: usize, theta: usize, top_extended: bool, n: nat)
    requires
        theta < usize::MAX,
        n <= phi,
    ensures
        forall|q: int, r: int| 0 <= q < n && 0 <= r <= theta ==> {
            &&& visits(spherical_walk(phi as nat, theta as nat, top_extended, n), #[trigger] end(q, r, 0))
            &&& visits(spherical_walk(phi as nat, theta as nat, top_extended, n), end(before(q, phi as int), r, 1))
        },
    decreases n,
{
    if n > 0 {
        let ip = (n - 1) as nat;
        lemma_spherical_visits(phi, theta, top_extended, ip);
        let prior = spherical_walk(phi as nat, theta as nat, top_extended, ip);
        let up = Seq::new(theta as nat + 1, |it: int| spherical_up(phi as nat, theta as nat, ip, top_extended, it));
        let down = Seq::new(theta as nat + 1, |k: int| spherical_down(phi as nat, theta as nat, ip, top_extended, k));
        let whole = spherical_walk(phi as nat, theta as nat, top_extended, n);
        assert(whole == prior + (up + down));
        assert forall|q: int, r: int| 0 <= q < n && 0 <= r <= theta implies {
            &&& visits(whole, #[trigger] end(q, r, 0))
            &&& visits(whole, end(before(q, phi as int), r, 1))
        } by {
            let left = end(q, r, 0);
            let right = end(before(q, phi as int), r, 1);
            if q < ip {
                lemma_visits_concat(prior, up + down, left);
                lemma_visits_concat(prior, up + down, right);
            } else {
                assert(up[r].point == right);
                assert(down[theta - r].point == left);
                lemma_visits_concat(up, down, left);
                lemma_visits_concat(up, down, right);
                lemma_visits_concat(prior, up + down, left);
                lemma_visits_concat(prior, up + down, right);
            }
        }
    }
}

proof fn lemma_front_visits(phi: usize, theta: usize, widest: usize, n: nat)
    requires
        widest <= theta < usize::MAX,
        n <= phi,
    ensures
        forall|q: int, r: int, side: int| 0 <= q < n && 0 <= r <= widest && 0 <= side < 2 ==>
            visits(front_walk(phi as nat, widest as nat, n), #[trigger] end(q, r, side)),
    decreases n,
{
    if n > 0 {
        let ip = (n - 1) as nat;
        lemma_front_visits(phi, theta, widest, ip);
        let prior = front_walk(phi as nat, widest as nat, ip);
        let down = Seq::new(widest as nat + 1, |k: int| front_down(phi as nat, widest as nat, ip, k));
        let up = Seq::new(widest as nat + 1, |it: int| front_up(phi as nat, ip, it));
        assert(front_walk(phi as nat, widest as nat, n) == prior + (down + up));
        assert forall|q: int, r: int, side: int| 0 <= q < n && 0 <= r <= widest && 0 <= side < 2 implies
            visits(prior + (down + up), #[trigger] end(q, r, side)) by {
            let e = end(q, r, side);
            if q < ip {
                lemma_visits_concat(prior, down + up, e);
            } else {
                if side == 0 {
                    assert(down[widest - r].point == e);
                } else {
                    assert(up[r].point == e);
                }
                lemma_visits_concat(down, up, e);
                lemma_visits_concat(prior, down + up, e);
            }
        }
    }
}

proof fn lemma_back_visits(phi: usize, theta: usize, widest: usize, n: nat)
    requires
        widest <= theta < usize::MAX,
        n <= phi,
    ensures
        forall|q: int, r: int, side: int| phi - n <= q < phi && widest <= r <= theta && 0 <= side < 2
            && (side == 0 ==> r > widest) ==>
            visits(back_walk(phi as nat, theta as nat, widest as nat, n), #[trigger] end(q, r, side)),
    decreases n,
{
    if n > 0 {
        let ip = (phi - n) as nat;
        lemma_back_visits(phi, theta, widest, (n - 1) as nat);
        let prior = back_walk(phi as nat, theta as nat, widest as nat, (n - 1) as nat);
        let up = Seq::new((theta - widest + 1) as nat, |k: int| back_up(phi as nat, widest as nat, ip, k));
        let down = Seq::new((theta - widest) as nat, |k: int| back_down(phi as nat, theta as nat, ip, k));
        assert(back_walk(phi as nat, theta as nat, widest as nat, n) == prior + (up + down));
        assert forall|q: int, r: int, side: int| phi - n <= q < phi && widest <= r <= theta && 0 <= side < 2
            && (side == 0 ==> r > widest) implies
            visits(prior + (up + down), #[trigger] end(q, r, side)) by {
            let e = end(q, r, side);
            if q > ip {
                lemma_visits_concat(prior, up + down, e);
            } else {
                if side == 0 {
                    assert(down[theta - r].point == e);
                } else {
                    assert(up[r - widest].point == e);
                }
                lemma_visits_concat(up, down, e);
                lemma_visits_concat(prior, up + down, e);
            }
        }
    }
}

/// The outline, in either projection, passes along every edge of every
/// panel: each rung end of the pattern is a candidate vertex of it.
pub proof fn law_outline_visits_every_rung_end(
    projection: Projection,
    phi: usize,
    theta: usize,
    widest: usize,
    top_extended: bool,
    panel: usize,
    row: usize,
    side: usize,
)
    requires
        theta < usize::MAX,
        projection == Projection::Cylindrical ==> widest <= theta,
        panel < phi,
        row <= theta,
        side < 2,
    ensures
        visits(
            outline_walk(projection, phi as nat, theta as nat, widest as nat, top_extended),
            RungEnd { panel, row, side },
        ),
{
    let e = RungEnd { panel, row, side };
    assert(e == end(panel as int, row as int, side as int));
    match projection {
        Projection::Spherical => {
            lemma_spherical_visits(phi, theta, top_extended, phi as nat);
            if side == 1 {
                let q = after(panel as int, phi as int);
                assert(before(q, phi as int) == panel);
                assert(visits(spherical_walk(phi as nat, theta as nat, top_extended, phi as nat), end(q, row as int, 0)));
            }
        },
        Projection::Cylindrical => {
            let front = front_walk(phi as nat, widest as nat, phi as nat);
            let back = back_walk(phi as nat, theta as nat, widest as nat, phi as nat);
            lemma_front_visits(phi, theta, widest, phi as nat);
            lemma_back_visits(phi, theta, widest, phi as nat);
            lemma_visits_concat(front, back, e);
            if row <= widest {
                assert(visits(front, end(panel as int, row as int, side as int)));
            } else {
                assert(visits(back, end(panel as int, row as int, side as int)));
            }
        },
    }
}

/// A corner of a panel cell's source quadrilateral, the shape the cell
/// takes before its panel is cut apart from its neighbours.
#[derive(Debug, Clone, Copy, PartialEq, Eq, Structural)]
pub enum QuadCorner {
    /// Halfway between two rung ends that meet across a seam.
    Between(RungEnd, RungEnd),
    /// On the pattern's left edge, level with this rung end.
    LeftEdge(RungEnd),
    /// On the pattern's right edge, level with this rung end.
    RightEdge(RungEnd),
}

/// The source quadrilateral of the cell between rows `it` and `it + 1` of a
/// panel: its corners on the panel's left side at both rows, then on its
/// right side at the upper row and at the lower one.
#[derive(Debug, Clone, Copy, PartialEq, Eq, Structural)]
pub struct SourceQuad {
    pub left_low: QuadCorner,
    pub left_high: QuadCorner,
    pub right_high: QuadCorner,
    pub right_low: QuadCorner,
}

/// The corner at a rung end of panel `ip`: halfway to the end it meets on
/// the neighbouring panel.
pub open spec fn seam_corner(ip: int, row: int, side: int, phi: int) -> QuadCorner {
    let other = if side == 0 { before(ip, phi) } else { after(ip, phi) };
    QuadCorner::Between(end(ip, row, side), end(other, row, 1 - side))
}

/// The source quadrilateral of cell `it` of panel `ip`. In the cylindrical
/// projection the panels are laid side by side, so the first panel's left
/// side and the last panel's right side have no neighbour there: those
/// corners sit on the pattern's edges instead. In the spherical projection
/// the panels close up round the top, and every side has a neighbour.
pub open spec fn source_quad(projection: Projection, phi: nat, ip: nat, it: nat) -> SourceQuad {
    let cylindrical = projection == Projection::Cylindrical;
    let first = cylindrical && ip == 0;
    let last = cylindrical && ip + 1 == phi;
    SourceQuad {
        left_low: if first { QuadCorner::LeftEdge(end(ip as int, it as int, 0)) } else {
            seam_corner(ip as int, it as int, 0, phi as int)
        },
        left_high: if first { QuadCorner::LeftEdge(end(ip as int, it + 1int, 0)) } else {
            seam_corner(ip as int, it + 1int, 0, phi as int)
        },
        right_high: if last { QuadCorner::RightEdge(end(ip as int, it + 1int, 1)) } else {
            seam_corner(ip as int, it + 1int, 1, phi as int)
        },
        right_low: if last { QuadCorner::RightEdge(end(ip as int, it as int, 1)) } else {
            seam_corner(ip as int, it as int, 1, phi as int)
        },
    }
}

/// The source quadrilaterals of the first `n` panels, panel by panel, cell
/// by cell from the bottom.
pub open spec fn source_walk(projection: Projection, phi: nat, theta: nat, n: nat) -> Seq<SourceQuad>
    decreases n,
{
    if n == 0 {
        seq![]
    } else {
        source_walk(projection, phi, theta, (n - 1) as nat)
            + Seq::new(theta, |it: int| source_quad(projection, phi, (n - 1) as nat, it as nat))
    }
}

/// The corner at a rung end, halfway to the end it meets.
fn seam_corner_at(ip: usize, row: usize, side: usize, phi: usize) -> (c: QuadCorner)
    requires
        ip < phi,
        side < 2,
    ensures
        c == seam_corner(ip as int, row as int, side as int, phi as int),
{
    let other = if side == 0 { panel_before(ip, phi) } else { panel_after(ip, phi) };
    QuadCorner::Between(RungEnd { panel: ip, row, side }, RungEnd { panel: other, row, side: 1 - side })
}

/// The source quadrilaterals of every cell of every panel. A pattern of a
/// single panel has no neighbours to take corners from, and is refused.
pub fn source_quads(projection: Projection, phi_divisions: usize, theta_divisions: usize) -> (quads: Vec<SourceQuad>)
    requires
        phi_divisions != 1,
        theta_divisions < usize::MAX,
    ensures
        quads@ == source_walk(projection, phi_divisions as nat, theta_divisions as nat, phi_divisions as nat),
{
    let ghost phi = phi_divisions as nat;
    let ghost theta = theta_divisions as nat;
    let cylindrical = projection == Projection::Cylindrical;
    let mut quads: Vec<SourceQuad> = Vec::new();
    let mut ip: usize = 0;
    while ip < phi_divisions
        invariant
            ip <= phi_divisions,
            theta_divisions < usize::MAX,
            phi == phi_divisions as nat,
            theta == theta_divisions as nat,
            cylindrical == (projection == Projection::Cylindrical),
            quads@ == source_walk(projection, phi, theta, ip as nat),
        decreases phi_divisions - ip,
    {
        let first = cylindrical && ip == 0;
        let last = cylindrical && ip + 1 == phi_divisions;
        let ghost base = quads@;
        let mut it: usize = 0;
        while it < theta_divisions
            invariant
                ip < phi_divisions,
                it <= theta_divisions < usize::MAX,
                phi == phi_divisions as nat,
                theta == theta_divisions as nat,
                first == (projection == Projection::Cylindrical && ip == 0),
                last == (projection == Projection::Cylindrical && ip + 1 == phi_divisions),
                quads@ == base + Seq::new(it as nat, |i: int| source_quad(projection, phi, ip as nat, i as nat)),
            decreases theta_divisions - it,
        {
            let quad = SourceQuad {
                left_low: if first { QuadCorner::LeftEdge(RungEnd { panel: ip, row: it, side: 0 }) } else {
                    seam_corner_at(ip, it, 0, phi_divisions)
                },
                left_high: if first { QuadCorner::LeftEdge(RungEnd { panel: ip, row: it + 1, side: 0 }) } else {
                    seam_corner_at(ip, it + 1, 0, phi_divisions)
                },
                right_high: if last { QuadCorner::RightEdge(RungEnd { panel: ip, row: it + 1, side: 1 }) } else {
                    seam_corner_at(ip, it + 1, 1, phi_divisions)
                },
                right_low: if last { QuadCorner::RightEdge(RungEnd { panel: ip, row: it, side: 1 }) } else {
                    seam_corner_at(ip, it, 1, phi_divisions)
                },
            };
            quads.push(quad);
            assert(quads@ =~= base + Seq::new((it + 1) as nat, |i: int| source_quad(projection, phi, ip as nat, i as nat)));
            it = it + 1;
        }
        assert(quads@ =~= source_walk(projection, phi, theta, (ip + 1) as nat));
        ip = ip + 1;
    }
    quads
}

/// Whether a corner names rung ends of the pattern, and sits where it
/// should: between two ends that meet across a seam, or on the pattern's
/// left edge level with the first panel's left side, or on its right edge
/// level with the last panel's right side.
pub open spec fn sound_corner(c: QuadCorner, phi: nat, theta: nat) -> bool {
    match c {
        QuadCorner::Between(a, b) => in_pattern(a, phi, theta) && in_pattern(b, phi, theta) && meets(a, b, phi),
        QuadCorner::LeftEdge(e) => in_pattern(e, phi, theta) && e.panel == 0 && e.side == 0,
        QuadCorner::RightEdge(e) => in_pattern(e, phi, theta) && e.panel + 1 == phi && e.side == 1,
    }
}

/// Whether all four corners of a quadrilateral are sound.
pub open spec fn sound_quad(q: SourceQuad, phi: nat, theta: nat) -> bool {
    &&& sound_corner(q.left_low, phi, theta)
    &&& sound_corner(q.left_high, phi, theta)
    &&& sound_corner(q.right_high, phi, theta)
    &&& sound_corner(q.right_low, phi, theta)
}

proof fn lemma_source_walk_sound(projection: Projection, phi: usize, theta: usize, n: nat)
    requires
        phi != 1,
        theta < usize::MAX,
        n <= phi,
    ensures
        forall|i: int| 0 <= i < source_walk(projection, phi as nat, theta as nat, n).len() ==>
            #[trigger] sound_quad(source_walk(projection, phi as nat, theta as nat, n)[i], phi as nat, theta as nat),
    decreases n,
{
    if n > 0 {
        let ip = (n - 1) as nat;
        lemma_source_walk_sound(projection, phi, theta, ip);
        let prior = source_walk(projection, phi as nat, theta as nat, ip);
        let cells = Seq::new(theta as nat, |it: int| source_quad(projection, phi as nat, ip, it as nat));
        let whole = source_walk(projection, phi as nat, theta as nat, n);
        assert(whole == prior + cells);
        assert forall|i: int| 0 <= i < whole.len() implies #[trigger] sound_quad(whole[i], phi as nat, theta as nat) by {
            if i < prior.len() {
                assert(whole[i] == prior[i]);
            } else {
                assert(whole[i] == cells[i - prior.len()]);
            }
        }
    }
}

/// Every corner of every source quadrilateral names rung ends that exist in
/// the pattern: a corner between two panels is halfway between ends that
/// meet across their seam, and a corner on the pattern's edge is level with
/// the first panel's left side or the last panel's right side.
pub proof fn law_source_quads_are_sound(projection: Projection, phi: usize, theta: usize)
    requires
        phi != 1,
        theta < usize::MAX,
    ensures
        forall|i: int| 0 <= i < source_walk(projection, phi as nat, theta as nat, phi as nat).len() ==>
            #[trigger] sound_quad(source_walk(projection, phi as nat, theta as nat, phi as nat)[i], phi as nat, theta as nat),
{
    lemma_source_walk_sound(projection, phi, theta, phi as nat);
}

/// Whether every step of `steps` compares rung ends whose rows lie in
/// `lo..=hi`.
pub open spec fn rows_within(steps: Seq<OutlineStep>, lo: int, hi: int) -> bool {
    forall|i: int| 0 <= i < steps.len() ==> {
        &&& lo <= (#[trigger] steps[i]).point.row <= hi
        &&& lo <= steps[i].neighbour.row <= hi
    }
}

proof fn lemma_rows_within_concat(a: Seq<OutlineStep>, b: Seq<OutlineStep>, lo: int, hi: int)
    requires
        rows_within(a, lo, hi),
        rows_within(b, lo, hi),
    ensures
        rows_within(a + b, lo, hi),
{
    assert forall|i: int| 0 <= i < (a + b).len() implies {
        &&& lo <= (#[trigger] (a + b)[i]).point.row <= hi
        &&& lo <= (a + b)[i].neighbour.row <= hi
    } by {
        if i < a.len() {
            assert((a + b)[i] == a[i]);
        } else {
            assert((a + b)[i] == b[i - a.len()]);
        }
    }
}

/// The front half: `2 * (widest + 1)` steps per panel, none above the
/// widest row, and the first at the left end of the first panel on it.
proof fn lemma_front_half(phi: usize, widest: usize, n: nat)
    requires
        widest < usize::MAX,
        n <= phi,
    ensures
        front_walk(phi as nat, widest as nat, n).len() == n * (2 * (widest + 1)),
        rows_within(front_walk(phi as nat, widest as nat, n), 0, widest as int),
        n > 0 ==> front_walk(phi as nat, widest as nat, n)[0].point == (RungEnd { panel: 0, row: widest, side: 0 }),
    decreases n,
{
    if n > 0 {
        let ip = (n - 1) as nat;
        lemma_front_half(phi, widest, ip);
        let prior = front_walk(phi as nat, widest as nat, ip);
        let down = Seq::new(widest as nat + 1, |k: int| front_down(phi as nat, widest as nat, ip, k));
        let up = Seq::new(widest as nat + 1, |it: int| front_up(phi as nat, ip, it));
        assert(rows_within(down, 0, widest as int));
        assert(rows_within(up, 0, widest as int));
        lemma_rows_within_concat(down, up, 0, widest as int);
        lemma_rows_within_concat(prior, down + up, 0, widest as int);
        assert(front_walk(phi as nat, widest as nat, n) == prior + (down + up));
        assert(n * (2 * (widest + 1)) == ip * (2 * (widest + 1)) + 2 * (widest + 1)) by (nonlinear_arith)
            requires n == ip + 1;
        if ip == 0 {
            assert(prior.len() == 0);
            assert((prior + (down + up))[0] == down[0]);
        } else {
            assert((prior + (down + up))[0] == prior[0]);
        }
    }
}

/// The back half: no step below the widest row.
proof fn lemma_back_half(phi: usize, theta: usize, widest: usize, n: nat)
    requires
        widest <= theta < usize::MAX,
        n <= phi,
    ensures
        rows_within(back_walk(phi as nat, theta as nat, widest as nat, n), widest as int, theta as int),
    decreases n,
{
    if n > 0 {
        let ip = (phi - n) as nat;
        lemma_back_half(phi, theta, widest, (n - 1) as nat);
        let up = Seq::new((theta - widest + 1) as nat, |k: int| back_up(phi as nat, widest as nat, ip, k));
        let down = Seq::new((theta - widest) as nat, |k: int| back_down(phi as nat, theta as nat, ip, k));
        assert(rows_within(up, widest as int, theta as int));
        assert(rows_within(down, widest as int, theta as int));
        lemma_rows_within_concat(up, down, widest as int, theta as int);
        lemma_rows_within_concat(back_walk(phi as nat, theta as nat, widest as nat, (n - 1) as nat), up + down, widest as int, theta as int);
    }
}

/// Cylindrical panels are joined along the widest row, and the outline is
/// unrolled from there: it starts at the first panel's left end on the
/// widest row, its first `2 * (widest + 1)` steps per panel (the front half)
/// stay on or below the widest row, and every step after them stays on or
/// above it.
pub proof fn law_cylindrical_outline_unrolls_from_the_widest_row(
    phi: usize,
    theta: usize,
    widest: usize,
    top_extended: bool,
)
    requires
        widest <= theta < usize::MAX,
        phi > 0,
    ensures
        ({
            let w = outline_walk(Projection::Cylindrical, phi as nat, theta as nat, widest as nat, top_extended);
            let front = 2 * (widest + 1) * phi;
            &&& front <= w.len()
            &&& w[0].point == (RungEnd { panel: 0, row: widest, side: 0 })
            &&& forall|i: int| 0 <= i < front ==> (#[trigger] w[i]).point.row <= widest && w[i].neighbour.row <= widest
            &&& forall|i: int| front <= i < w.len() ==> (#[trigger] w[i]).point.row >= widest && w[i].neighbour.row >= widest
        }),
{
    let f = front_walk(phi as nat, widest as nat, phi as nat);
    let b = back_walk(phi as nat, theta as nat, widest as nat, phi as nat);
    let w = outline_walk(Projection::Cylindrical, phi as nat, theta as nat, widest as nat, top_extended);
    lemma_front_half(phi, widest, phi as nat);
    lemma_back_half(phi, theta, widest, phi as nat);
    assert(w == f + b);
    assert(2 * (widest + 1) * phi == phi * (2 * (widest + 1))) by (nonlinear_arith);
    let front = 2 * (widest + 1) * phi;
    assert(f.len() == front);
    assert(w[0] == f[0]);
    assert forall|i: int| 0 <= i < front implies (#[trigger] w[i]).point.row <= widest && w[i].neighbour.row <= widest by {
        assert(w[i] == f[i]);
    }
    assert forall|i: int| front <= i < w.len() implies (#[trigger] w[i]).point.row >= widest && w[i].neighbour.row >= widest by {
        assert(w[i] == b[i - front]);
    }
}

} // verus!
