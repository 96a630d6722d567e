use ellipsoid::outline::{
    cylindrical_outline, outline_steps, source_quads, spherical_outline, OutlineStep, QuadCorner, RungEnd, SourceQuad,
};
use ellipsoid::Projection;

fn end((panel, row, side): (usize, usize, usize)) -> RungEnd {
    RungEnd { panel, row, side }
}

fn step(point: (usize, usize, usize), neighbour: (usize, usize, usize), always: bool) -> OutlineStep {
    OutlineStep { point: end(point), neighbour: end(neighbour), always }
}

#[test]
fn spherical_outline_goes_up_the_seam_then_down_the_panel() {
    let steps = spherical_outline(2, 1, false);
    assert_eq!(
        steps,
        vec![
            step((1, 0, 1), (0, 0, 0), false),
            step((1, 1, 1), (0, 1, 0), false),
            step((0, 1, 0), (1, 1, 1), false),
            step((0, 0, 0), (1, 0, 1), false),
            step((0, 0, 1), (1, 0, 0), false),
            step((0, 1, 1), (1, 1, 0), false),
            step((1, 1, 0), (0, 1, 1), false),
            step((1, 0, 0), (0, 0, 1), false),
        ]
    );
}

#[test]
fn a_raised_top_keeps_the_top_row_in_a_spherical_outline() {
    let steps = spherical_outline(3, 4, true);
    assert_eq!(steps.len(), 3 * 2 * 5);
    for s in &steps {
        assert_eq!(s.always, s.point.row == 4, "{s:?}");
    }
    assert!(spherical_outline(3, 4, false).iter().all(|s| !s.always));
}

#[test]
fn cylindrical_outline_crosses_the_front_then_comes_back_over_the_top() {
    let steps = cylindrical_outline(2, 2, 1);
    assert_eq!(
        steps,
        vec![
            // Front, panel 0.
            step((0, 1, 0), (1, 1, 1), false),
            step((0, 0, 0), (1, 0, 1), false),
            step((0, 0, 1), (1, 0, 0), false),
            step((0, 1, 1), (1, 1, 0), false),
            // Front, panel 1.
            step((1, 1, 0), (0, 1, 1), false),
            step((1, 0, 0), (0, 0, 1), false),
            step((1, 0, 1), (0, 0, 0), false),
            step((1, 1, 1), (0, 1, 0), false),
            // Back, panel 1.
            step((1, 1, 1), (0, 1, 0), false),
            step((1, 2, 1), (0, 2, 0), false),
            step((1, 2, 0), (0, 2, 1), false),
            // Back, panel 0.
            step((0, 1, 1), (1, 1, 0), false),
            step((0, 2, 1), (1, 2, 0), false),
            step((0, 2, 0), (1, 2, 1), false),
        ]
    );
}

#[test]
fn every_step_compares_ends_that_meet_and_every_end_is_visited() {
    for projection in Projection::ALL {
        let (phi, theta, widest) = (5usize, 6usize, 2usize);
        let steps = outline_steps(projection, phi, theta, widest, true);
        for s in &steps {
            let (a, b) = (s.point, s.neighbour);
            assert!(a.panel < phi && a.row <= theta && a.side < 2, "{s:?}");
            assert_eq!(a.row, b.row);
            assert_eq!(a.side + b.side, 1);
            let expected = if a.side == 0 { (a.panel + phi - 1) % phi } else { (a.panel + 1) % phi };
            assert_eq!(b.panel, expected, "{s:?}");
        }
        for panel in 0..phi {
            for row in 0..=theta {
                for side in 0..2 {
                    assert!(
                        steps.iter().any(|s| s.point == RungEnd { panel, row, side }),
                        "{projection:?} misses {panel} {row} {side}"
                    );
                }
            }
        }
    }
}

#[test]
fn no_panels_means_no_outline() {
    assert!(outline_steps(Projection::Spherical, 0, 3, 0, true).is_empty());
    assert!(outline_steps(Projection::Cylindrical, 0, 3, 1, false).is_empty());
}

fn between(a: (usize, usize, usize), b: (usize, usize, usize)) -> QuadCorner {
    QuadCorner::Between(end(a), end(b))
}

fn quad(left_low: QuadCorner, left_high: QuadCorner, right_high: QuadCorner, right_low: QuadCorner) -> SourceQuad {
    SourceQuad { left_low, left_high, right_high, right_low }
}

#[test]
fn cylindrical_source_quads_end_on_the_pattern_edges() {
    let quads = source_quads(Projection::Cylindrical, 3, 1);
    assert_eq!(
        quads,
        vec![
            quad(
                QuadCorner::LeftEdge(end((0, 0, 0))),
                QuadCorner::LeftEdge(end((0, 1, 0))),
                between((0, 1, 1), (1, 1, 0)),
                between((0, 0, 1), (1, 0, 0)),
            ),
            quad(
                between((1, 0, 0), (0, 0, 1)),
                between((1, 1, 0), (0, 1, 1)),
                between((1, 1, 1), (2, 1, 0)),
                between((1, 0, 1), (2, 0, 0)),
            ),
            quad(
                between((2, 0, 0), (1, 0, 1)),
                between((2, 1, 0), (1, 1, 1)),
                QuadCorner::RightEdge(end((2, 1, 1))),
                QuadCorner::RightEdge(end((2, 0, 1))),
            ),
        ]
    );
}

#[test]
fn spherical_source_quads_wrap_round_the_seam() {
    let quads = source_quads(Projection::Spherical, 2, 1);
    assert_eq!(
        quads,
        vec![
            quad(
                between((0, 0, 0), (1, 0, 1)),
                between((0, 1, 0), (1, 1, 1)),
                between((0, 1, 1), (1, 1, 0)),
                between((0, 0, 1), (1, 0, 0)),
            ),
            quad(
                between((1, 0, 0), (0, 0, 1)),
                between((1, 1, 0), (0, 1, 1)),
                between((1, 1, 1), (0, 1, 0)),
                between((1, 0, 1), (0, 0, 0)),
            ),
        ]
    );
    assert_eq!(source_quads(Projection::Spherical, 8, 16).len(), 8 * 16);
    assert!(source_quads(Projection::Cylindrical, 0, 4).is_empty());
}
