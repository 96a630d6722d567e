use ellipsoid::editing::{
    draft_step, preview_step, shape_controls, DraftAction, EditAction, EditState, Grab, PointerAt, PointerFrame,
};
use ellipsoid::platform::Status;

fn idle() -> EditState {
    EditState { editing: None, drag: None, draft_len: None }
}

fn frame() -> PointerFrame {
    PointerFrame {
        drag_started: false,
        dragged: false,
        drag_stopped: false,
        double_clicked: false,
        clicked: false,
        shift: false,
        ctrl: false,
    }
}

fn click(shift: bool, ctrl: bool) -> PointerFrame {
    PointerFrame { clicked: true, shift, ctrl, ..frame() }
}

fn info(text: &str) -> Option<Status> {
    Some(Status::info(text.into()))
}

/// A hole, a triangle and a square.
fn counts() -> Vec<Option<usize>> {
    vec![None, Some(3), Some(4)]
}

#[test]
fn a_shape_keeps_at_least_three_points() {
    let editing = EditState { editing: Some(1), ..idle() };
    let r = preview_step(editing, click(true, false), Some(Grab::Vertex(1, 0)), &counts(), PointerAt::OnPattern, false, None);
    assert!(r.actions.is_empty());
    assert_eq!(r.status, Some(Status::error("A shape needs at least 3 points".into())));
    assert!(!r.changed);

    let editing = EditState { editing: Some(2), ..idle() };
    let r = preview_step(editing, click(true, false), Some(Grab::Vertex(2, 3)), &counts(), PointerAt::OffPattern, false, None);
    assert_eq!(r.actions, vec![EditAction::RemoveVertex(2, 3)]);
    assert_eq!(r.status, info("Removed point"));
    assert!(r.changed);
}

#[test]
fn double_clicks_enter_and_leave_point_editing() {
    let dbl = PointerFrame { double_clicked: true, clicked: true, ..frame() };
    let r = preview_step(idle(), dbl, Some(Grab::Cutout(2)), &counts(), PointerAt::OnPattern, false, None);
    assert_eq!(r.state.editing, Some(2));
    assert_eq!(r.status, info("Editing shape points"));
    // The click that comes with it does nothing more.
    assert!(r.actions.is_empty());

    let r = preview_step(idle(), dbl, Some(Grab::Cutout(0)), &counts(), PointerAt::OnPattern, false, None);
    assert_eq!(r.state.editing, None);
    assert_eq!(r.status, info("A hole has no points to edit"));

    let editing = EditState { editing: Some(2), ..idle() };
    let r = preview_step(editing, dbl, Some(Grab::Vertex(2, 1)), &counts(), PointerAt::OnPattern, false, None);
    assert_eq!(r.state.editing, Some(2));
    assert_eq!(r.status, None);
    let r = preview_step(editing, dbl, None, &counts(), PointerAt::OnPattern, false, None);
    assert_eq!(r.state.editing, None);
    assert_eq!(r.status, info("Finished editing"));
}

#[test]
fn a_drag_grabs_moves_and_lets_go() {
    let start = PointerFrame { drag_started: true, dragged: true, ..frame() };
    let r = preview_step(idle(), start, Some(Grab::Cutout(1)), &counts(), PointerAt::OnPattern, true, None);
    assert_eq!(r.state.drag, Some(Grab::Cutout(1)));
    assert_eq!(r.actions, vec![EditAction::StartDrag(Grab::Cutout(1)), EditAction::Move(Grab::Cutout(1))]);
    assert!(r.changed);

    // Off the pattern the grab holds still.
    let held = EditState { drag: Some(Grab::Vertex(2, 1)), ..idle() };
    let r = preview_step(held, PointerFrame { dragged: true, ..frame() }, None, &counts(), PointerAt::OffPattern, false, None);
    assert!(r.actions.is_empty());
    assert_eq!(r.state.drag, Some(Grab::Vertex(2, 1)));

    let stop = PointerFrame { drag_stopped: true, ..frame() };
    let r = preview_step(held, stop, None, &counts(), PointerAt::OnPattern, false, None);
    assert_eq!(r.state.drag, None);
    assert_eq!(r.status, info("Moved point"));

    // A grab on something that has gone moves nothing.
    let gone = EditState { drag: Some(Grab::Cutout(7)), ..idle() };
    let r = preview_step(gone, PointerFrame { dragged: true, ..frame() }, None, &counts(), PointerAt::OnPattern, true, None);
    assert_eq!(r.actions, vec![EditAction::Move(Grab::Cutout(7))]);
    assert!(!r.changed);
}

#[test]
fn clicks_add_holes_and_draft_points() {
    let r = preview_step(idle(), click(false, true), None, &counts(), PointerAt::OnPattern, false, None);
    assert_eq!(r.actions, vec![EditAction::AddHole]);
    assert_eq!(r.status, info("Added hole"));
    assert!(r.changed);

    // Off the pattern nothing is added.
    let r = preview_step(idle(), click(false, true), None, &counts(), PointerAt::OffPattern, false, None);
    assert!(r.actions.is_empty());
    assert_eq!(r.status, None);

    let drawing = EditState { draft_len: Some(2), ..idle() };
    let r = preview_step(drawing, click(false, false), None, &counts(), PointerAt::OnPattern, false, None);
    assert_eq!(r.actions, vec![EditAction::PlaceDraftPoint]);
    assert_eq!(r.state.draft_len, Some(3));
    assert_eq!(r.status, info("3 points placed"));
    assert!(!r.changed);
}

#[test]
fn ctrl_click_on_an_edge_inserts_a_point() {
    let editing = EditState { editing: Some(2), ..idle() };
    let r = preview_step(editing, click(false, true), None, &counts(), PointerAt::OnPattern, false, Some(4));
    assert_eq!(r.actions, vec![EditAction::InsertVertex(2, 4)]);
    assert_eq!(r.status, info("Added point"));
    let r = preview_step(editing, click(false, true), None, &counts(), PointerAt::OnPattern, false, None);
    assert!(r.actions.is_empty());
    assert_eq!(r.status, info("Ctrl-click an outline edge to add a point"));
    // A plain click while editing does nothing.
    let r = preview_step(editing, click(false, false), None, &counts(), PointerAt::OnPattern, false, Some(1));
    assert!(r.actions.is_empty() && r.status.is_none());
}

#[test]
fn removing_a_cutout_lets_go_of_it_and_renumbers_the_rest() {
    let state = EditState { editing: Some(2), drag: Some(Grab::Vertex(2, 0)), draft_len: None };
    let r = preview_step(state, click(true, false), Some(Grab::Cutout(0)), &counts(), PointerAt::OnPattern, false, None);
    assert_eq!(r.actions, vec![EditAction::RemoveCutout(0)]);
    assert_eq!(r.status, info("Removed hole"));
    assert_eq!(r.state.editing, Some(1));
    assert_eq!(r.state.drag, Some(Grab::Vertex(1, 0)));

    let state = EditState { editing: None, drag: Some(Grab::Cutout(1)), draft_len: None };
    let r = preview_step(state, click(true, false), Some(Grab::Cutout(1)), &counts(), PointerAt::OnPattern, false, None);
    assert_eq!(r.status, info("Removed shape"));
    assert_eq!(r.state.drag, None);
}

#[test]
fn a_stale_shape_index_stops_editing() {
    let stale = EditState { editing: Some(0), ..idle() };
    let r = preview_step(stale, frame(), None, &counts(), PointerAt::Nowhere, false, None);
    assert_eq!(r.state.editing, None);
    let stale = EditState { editing: Some(9), ..idle() };
    assert_eq!(preview_step(stale, frame(), None, &counts(), PointerAt::Nowhere, false, None).state.editing, None);
}

#[test]
fn the_draft_controls_finish_discard_and_undo_in_that_order() {
    assert_eq!(draft_step(3, true, true, true), DraftAction::Finish);
    assert_eq!(draft_step(2, true, true, true), DraftAction::Discard);
    assert_eq!(draft_step(2, true, false, true), DraftAction::Undo);
    assert_eq!(draft_step(0, false, false, true), DraftAction::Keep);
    assert_eq!(draft_step(5, false, false, false), DraftAction::Keep);

    let drawing = EditState { draft_len: Some(3), ..idle() };
    let (s, a, st) = shape_controls(drawing, false, false, true, false, false);
    assert_eq!((s.draft_len, a, st), (None, DraftAction::Finish, info("Added shape")));
    let (s, a, st) = shape_controls(drawing, false, false, false, true, false);
    assert_eq!((s.draft_len, a, st), (None, DraftAction::Discard, info("Discarded shape")));
    let (s, a, st) = shape_controls(drawing, false, false, false, false, true);
    assert_eq!((s.draft_len, a, st), (Some(2), DraftAction::Undo, None));
    let (s, _, _) = shape_controls(idle(), false, true, false, false, false);
    assert_eq!(s.draft_len, Some(0));
    let editing = EditState { editing: Some(1), ..idle() };
    let (s, _, st) = shape_controls(editing, true, false, false, false, false);
    assert_eq!((s.editing, st), (None, info("Finished editing")));
}
