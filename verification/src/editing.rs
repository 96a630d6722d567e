//! Editing cutouts on the pattern preview: what each pointer gesture does.
//!
//! Where the pointer is, which handle is nearest, where a click lands on the
//! surface and where on an outline a new point would go are all measured in
//! floating point by the caller, and handed in here as plain answers. What
//! the gestures then do, to the shape being edited, the handle being dragged,
//! the shape being drawn and the cutouts, is decided here:
//!
//! - a drag that starts on a handle grabs it, and moves it until it stops;
//! - a double-click on a shape edits its points, and one away from the shape
//!   being edited stops editing;
//! - shift-click removes a cutout, or one point of the shape being edited,
//!   as long as that shape keeps at least three points;
//! - ctrl-click adds a hole, or a point on the edge of the shape being
//!   edited;
//! - while a shape is being drawn, a click places its next point.
//!
//! The shape being drawn is then finished, discarded or has its last point
//! undone from its controls.

use vstd::prelude::*;
use crate::platform::Status;
use crate::text::{decimal, write_decimal};

verus! {

/// What a drag has hold of.
#[derive(Debug, Clone, Copy, PartialEq, Eq, Structural)]
pub enum Grab {
    /// A whole cutout, by index.
    Cutout(usize),
    /// One point of a shape: `(cutout, point)`.
    Vertex(usize, usize),
}

/// The editing state: the shape whose points are being edited, what a drag
/// has hold of, and how many points the shape being drawn has, if one is.
#[derive(Debug, Clone, Copy, PartialEq, Eq, Structural)]
pub struct EditState {
    pub editing: Option<usize>,
    pub drag: Option<Grab>,
    pub draft_len: Option<usize>,
}

/// What the pointer did this frame. A double-click is also reported as a
/// click, and takes precedence over it.
#[derive(Debug, Clone, Copy, PartialEq, Eq, Structural)]
pub struct PointerFrame {
    pub drag_started: bool,
    pub dragged: bool,
    pub drag_stopped: bool,
    pub double_clicked: bool,
    pub clicked: bool,
    pub shift: bool,
    /// Ctrl, or the command key.
    pub ctrl: bool,
}

/// Where the pointer is.
#[derive(Debug, Clone, Copy, PartialEq, Eq, Structural)]
pub enum PointerAt {
    /// Not over the preview at all.
    Nowhere,
    /// Over the preview, but off the pattern.
    OffPattern,
    /// Over the pattern, at a point of the surface.
    OnPattern,
}

/// What the caller is to do to the cutouts and the drawing.
#[derive(Debug, Clone, Copy, PartialEq, Eq, Structural)]
pub enum EditAction {
    /// Note where on the surface the grab starts.
    StartDrag(Grab),
    /// Move what is grabbed by the pointer's travel since the last frame,
    /// if it still exists, and note where the pointer now is.
    Move(Grab),
    /// Remove a cutout.
    RemoveCutout(usize),
    /// Remove one point of a shape.
    RemoveVertex(usize, usize),
    /// Insert a point into a shape, before the given one, where the pointer
    /// meets its outline.
    InsertVertex(usize, usize),
    /// Add the point under the pointer to the shape being drawn.
    PlaceDraftPoint,
    /// Add a hole under the pointer.
    AddHole,
}

/// Everything a frame of editing comes to.
#[derive(Debug)]
pub struct EditStep {
    pub state: EditState,
    pub actions: Vec<EditAction>,
    pub status: Option<Status>,
    /// Whether the cutouts changed, so the pattern and the 3D markers must
    /// be rebuilt.
    pub changed: bool,
}

/// An [`EditStep`] as mathematical values; the status is its text and
/// whether it reports a failure.
pub struct EditView {
    pub state: EditState,
    pub actions: Seq<EditAction>,
    pub status: Option<(Seq<char>, bool)>,
    pub changed: bool,
}

/// The status as mathematical values.
pub open spec fn status_view(s: Option<Status>) -> Option<(Seq<char>, bool)> {
    match s {
        Some(st) => Some((st.text@, st.is_error)),
        None => None,
    }
}

impl EditStep {
    /// The step as mathematical values.
    pub open spec fn view_of(self) -> EditView {
        EditView { state: self.state, actions: self.actions@, status: status_view(self.status), changed: self.changed }
    }
}

/// Whether cutout `i` is a shape, given each cutout's point count (`None`
/// for a hole).
pub open spec fn is_shape(i: int, counts: Seq<Option<usize>>) -> bool {
    0 <= i < counts.len() && counts[i] is Some
}

/// Whether what is grabbed still exists.
pub open spec fn grab_exists(g: Grab, counts: Seq<Option<usize>>) -> bool {
    match g {
        Grab::Cutout(i) => i < counts.len(),
        Grab::Vertex(i, k) => is_shape(i as int, counts) && k < counts[i as int]->0,
    }
}

/// Whether an action changes the cutouts. A move changes them only when
/// what it moves still exists.
pub open spec fn changes_cutouts(a: EditAction, counts: Seq<Option<usize>>) -> bool {
    match a {
        EditAction::StartDrag(_) | EditAction::PlaceDraftPoint => false,
        EditAction::Move(g) => grab_exists(g, counts),
        _ => true,
    }
}

/// An index after cutout `removed` is taken out of the list: gone if it was
/// that one, one less if it came after it.
pub open spec fn index_after_removal(i: usize, removed: usize) -> Option<usize> {
    if i == removed {
        None
    } else if i > removed {
        Some((i - 1) as usize)
    } else {
        Some(i)
    }
}

/// A grab after cutout `removed` is taken out of the list.
pub open spec fn grab_after_removal(g: Grab, removed: usize) -> Option<Grab> {
    match g {
        Grab::Cutout(i) => match index_after_removal(i, removed) {
            Some(j) => Some(Grab::Cutout(j)),
            None => None,
        },
        Grab::Vertex(i, k) => match index_after_removal(i, removed) {
            Some(j) => Some(Grab::Vertex(j, k)),
            None => None,
        },
    }
}

/// The editing state after cutout `removed` is taken out: whatever pointed
/// at it is let go, and later indices move down by one.
pub open spec fn state_after_removal(s: EditState, removed: usize) -> EditState {
    EditState {
        editing: match s.editing {
            Some(i) => index_after_removal(i, removed),
            None => None,
        },
        drag: match s.drag {
            Some(g) => grab_after_removal(g, removed),
            None => None,
        },
        draft_len: s.draft_len,
    }
}

/// An informational status.
pub open spec fn info(text: Seq<char>) -> Option<(Seq<char>, bool)> {
    Some((text, false))
}

/// The frame's start: a shape being edited that is no longer a shape is let
/// go.
pub open spec fn start(s: EditState, counts: Seq<Option<usize>>) -> EditView {
    let editing = match s.editing {
        Some(i) => if is_shape(i as int, counts) { Some(i) } else { None },
        None => None,
    };
    EditView {
        state: EditState { editing, drag: s.drag, draft_len: s.draft_len },
        actions: seq![],
        status: None,
        changed: false,
    }
}

/// A drag that starts on a handle, over the pattern, grabs it.
pub open spec fn drag_start(p: EditView, f: PointerFrame, nearest: Option<Grab>, pointer: PointerAt) -> EditView {
    match nearest {
        Some(g) => if f.drag_started && pointer == PointerAt::OnPattern {
            EditView {
                state: EditState { drag: Some(g), ..p.state },
                actions: p.actions.push(EditAction::StartDrag(g)),
                ..p
            }
        } else {
            p
        },
        None => p,
    }
}

/// What is grabbed follows the pointer while it is over the pattern, and is
/// let go when the drag stops.
pub open spec fn drag_moves(p: EditView, f: PointerFrame, drag_on_pattern: bool, counts: Seq<Option<usize>>) -> EditView {
    match p.state.drag {
        None => p,
        Some(g) => {
            let moved = if f.dragged && drag_on_pattern {
                EditView {
                    actions: p.actions.push(EditAction::Move(g)),
                    changed: p.changed || grab_exists(g, counts),
                    ..p
                }
            } else {
                p
            };
            if f.drag_stopped {
                EditView {
                    state: EditState { drag: None, ..moved.state },
                    status: info(match g {
                        Grab::Cutout(_) => "Moved cutout"@,
                        Grab::Vertex(_, _) => "Moved point"@,
                    }),
                    ..moved
                }
            } else {
                moved
            }
        },
    }
}

/// A double-click on a shape edits its points; on a hole it explains that
/// there are none; away from every handle it stops editing.
pub open spec fn double_click(p: EditView, nearest: Option<Grab>, counts: Seq<Option<usize>>) -> EditView {
    match nearest {
        Some(Grab::Cutout(i)) => if counts[i as int] is Some {
            EditView { state: EditState { editing: Some(i), ..p.state }, status: info("Editing shape points"@), ..p }
        } else {
            EditView { status: info("A hole has no points to edit"@), ..p }
        },
        Some(Grab::Vertex(_, _)) => p,
        None => if p.state.editing is Some {
            EditView { state: EditState { editing: None, ..p.state }, status: info("Finished editing"@), ..p }
        } else {
            p
        },
    }
}

/// A shift-click removes the cutout under the pointer, or the point under
/// it, as long as its shape keeps at least three points.
pub open spec fn shift_click(p: EditView, nearest: Option<Grab>, counts: Seq<Option<usize>>) -> EditView {
    match nearest {
        Some(Grab::Cutout(i)) => EditView {
            state: state_after_removal(p.state, i),
            actions: p.actions.push(EditAction::RemoveCutout(i)),
            status: info("Removed "@ + if counts[i as int] is Some { "shape"@ } else { "hole"@ }),
            changed: true,
        },
        Some(Grab::Vertex(i, k)) => if is_shape(i as int, counts) {
            if counts[i as int]->0 > 3 {
                EditView {
                    actions: p.actions.push(EditAction::RemoveVertex(i, k)),
                    status: info("Removed point"@),
                    changed: true,
                    ..p
                }
            } else {
                EditView { status: Some(("A shape needs at least 3 points"@, true)), ..p }
            }
        } else {
            p
        },
        None => p,
    }
}

/// A plain or ctrl-click: while a shape's points are edited, ctrl-click
/// adds a point on its outline; otherwise, over the pattern, a click places
/// the next point of the shape being drawn, or ctrl-click adds a hole.
pub open spec fn plain_click(p: EditView, f: PointerFrame, pointer: PointerAt, edge_slot: Option<usize>) -> EditView {
    match p.state.editing {
        Some(index) => if f.ctrl {
            match edge_slot {
                Some(k) => EditView {
                    actions: p.actions.push(EditAction::InsertVertex(index, k)),
                    status: info("Added point"@),
                    changed: true,
                    ..p
                },
                None => EditView { status: info("Ctrl-click an outline edge to add a point"@), ..p },
            }
        } else {
            p
        },
        None => if pointer == PointerAt::OnPattern {
            match p.state.draft_len {
                Some(n) => EditView {
                    state: EditState { draft_len: Some((n + 1) as usize), ..p.state },
                    actions: p.actions.push(EditAction::PlaceDraftPoint),
                    status: info(decimal((n + 1) as nat) + " points placed"@),
                    ..p
                },
                None => if f.ctrl {
                    EditView {
                        actions: p.actions.push(EditAction::AddHole),
                        status: info("Added hole"@),
                        changed: true,
                        ..p
                    }
                } else {
                    p
                },
            }
        } else {
            p
        },
    }
}

/// The clicks of a frame: a double-click, or else a click where the pointer
/// is over the preview.
pub open spec fn clicks(
    p: EditView,
    f: PointerFrame,
    nearest: Option<Grab>,
    counts: Seq<Option<usize>>,
    pointer: PointerAt,
    edge_slot: Option<usize>,
) -> EditView {
    if f.double_clicked {
        double_click(p, nearest, counts)
    } else if f.clicked && pointer != PointerAt::Nowhere {
        if f.shift {
            shift_click(p, nearest, counts)
        } else {
            plain_click(p, f, pointer, edge_slot)
        }
    } else {
        p
    }
}

/// One frame of editing: the start, then the drag, then the clicks.
pub open spec fn preview_step_spec(
    s: EditState,
    f: PointerFrame,
    nearest: Option<Grab>,
    counts: Seq<Option<usize>>,
    pointer: PointerAt,
    drag_on_pattern: bool,
    edge_slot: Option<usize>,
) -> EditView {
    let p0 = start(s, counts);
    let p1 = drag_start(p0, f, nearest, pointer);
    let p2 = drag_moves(p1, f, drag_on_pattern, counts);
    clicks(p2, f, nearest, counts, pointer, edge_slot)
}

/// The frames the caller can hand in: the handle under the pointer names a
/// cutout that exists where the frame looks it up by index, a point to be
/// removed exists, an outline slot lies within its shape, and the shape
/// being drawn has room for one more point.
pub open spec fn step_admissible(
    s: EditState,
    f: PointerFrame,
    nearest: Option<Grab>,
    counts: Seq<Option<usize>>,
    pointer: PointerAt,
    edge_slot: Option<usize>,
) -> bool {
    let p = start(s, counts);
    &&& f.double_clicked ==> (nearest matches Some(Grab::Cutout(i)) ==> i < counts.len())
    &&& (!f.double_clicked && f.clicked && pointer != PointerAt::Nowhere && f.shift) ==> {
        &&& nearest matches Some(Grab::Cutout(i)) ==> i < counts.len()
        &&& nearest matches Some(Grab::Vertex(i, k)) ==> (is_shape(i as int, counts) && counts[i as int]->0 > 3 ==> k < counts[i as int]->0)
    }
    &&& (!f.double_clicked && f.clicked && pointer != PointerAt::Nowhere && !f.shift && f.ctrl) ==> (
        p.state.editing matches Some(index) ==> (edge_slot matches Some(k) ==> k <= counts[index as int]->0))
    &&& s.draft_len matches Some(n) ==> n < usize::MAX
}

/// Appends a literal status text.
fn info_status(text: &str) -> (st: Option<Status>)
    ensures
        status_view(st) == info(text@),
{
    let mut t = String::new();
    t.append(text);
    Some(Status::info(t))
}

/// Whether what is grabbed still exists.
fn grab_exists_exec(g: Grab, counts: &Vec<Option<usize>>) -> (r: bool)
    ensures
        r == grab_exists(g, counts@),
{
    match g {
        Grab::Cutout(i) => i < counts.len(),
        Grab::Vertex(i, k) => i < counts.len() && match counts[i] {
            Some(n) => k < n,
            None => false,
        },
    }
}

/// An index after a cutout is removed.
fn index_after(i: usize, removed: usize) -> (r: Option<usize>)
    ensures
        r == index_after_removal(i, removed),
{
    if i == removed {
        None
    } else if i > removed {
        Some(i - 1)
    } else {
        Some(i)
    }
}

/// Decide what one frame of pointer input does to the cutouts being edited.
/// `nearest` is the handle under the pointer, `counts` each cutout's number
/// of points (`None` for a hole), `pointer` where the pointer is,
/// `drag_on_pattern` whether a drag's pointer is over the pattern, and
/// `edge_slot` where on the outline of the shape being edited a ctrl-click
/// would insert a point, if it is near enough to an edge.
pub fn preview_step(
    state: EditState,
    frame: PointerFrame,
    nearest: Option<Grab>,
    counts: &Vec<Option<usize>>,
    pointer: PointerAt,
    drag_on_pattern: bool,
    edge_slot: Option<usize>,
) -> (r: EditStep)
    requires
        step_admissible(state, frame, nearest, counts@, pointer, edge_slot),
    ensures
        r.view_of() == preview_step_spec(state, frame, nearest, counts@, pointer, drag_on_pattern, edge_slot),
{
    let ghost cs = counts@;
    // The start.
    let mut editing = match state.editing {
        Some(i) => if i < counts.len() && counts[i].is_some() { Some(i) } else { None },
        None => None,
    };
    let mut drag = state.drag;
    let mut draft_len = state.draft_len;
    let mut actions: Vec<EditAction> = Vec::new();
    let mut status: Option<Status> = None;
    let mut changed = false;
    let ghost p0 = start(state, cs);
    assert(EditState { editing, drag, draft_len } == p0.state);

    // A drag starting on a handle.
    if frame.drag_started && pointer == PointerAt::OnPattern {
        if let Some(g) = nearest {
            drag = Some(g);
            actions.push(EditAction::StartDrag(g));
        }
    }
    let ghost p1 = drag_start(p0, frame, nearest, pointer);
    assert(actions@ =~= p1.actions);
    assert(EditState { editing, drag, draft_len } == p1.state);

    // Following the pointer, and letting go.
    if let Some(g) = drag {
        if frame.dragged && drag_on_pattern {
            actions.push(EditAction::Move(g));
            changed = changed || grab_exists_exec(g, counts);
        }
        if frame.drag_stopped {
            drag = None;
            status = match g {
                Grab::Cutout(_) => info_status("Moved cutout"),
                Grab::Vertex(_, _) => info_status("Moved point"),
            };
        }
    }
    let ghost p2 = drag_moves(p1, frame, drag_on_pattern, cs);
    assert(actions@ =~= p2.actions);
    assert(EditState { editing, drag, draft_len } == p2.state);
    assert(status_view(status) == p2.status);
    assert(changed == p2.changed);

    // The clicks.
    if frame.double_clicked {
        match nearest {
            Some(Grab::Cutout(i)) => {
                if counts[i].is_some() {
                    editing = Some(i);
                    status = info_status("Editing shape points");
                } else {
                    status = info_status("A hole has no points to edit");
                }
            },
            Some(Grab::Vertex(_, _)) => {},
            None => {
                if editing.is_some() {
                    editing = None;
                    status = info_status("Finished editing");
                }
            },
        }
    } else if frame.clicked && pointer != PointerAt::Nowhere {
        if frame.shift {
            match nearest {
                Some(Grab::Cutout(i)) => {
                    editing = match editing {
                        Some(e) => index_after(e, i),
                        None => None,
                    };
                    drag = match drag {
                        Some(Grab::Cutout(c)) => match index_after(c, i) {
                            Some(j) => Some(Grab::Cutout(j)),
                            None => None,
                        },
                        Some(Grab::Vertex(c, k)) => match index_after(c, i) {
                            Some(j) => Some(Grab::Vertex(j, k)),
                            None => None,
                        },
                        None => None,
                    };
                    actions.push(EditAction::RemoveCutout(i));
                    let mut t = String::new();
                    t.append("Removed ");
                    if counts[i].is_some() {
                        t.append("shape");
                    } else {
                        t.append("hole");
                    }
                    status = Some(Status::info(t));
                    changed = true;
                },
                Some(Grab::Vertex(i, k)) => {
                    if i < counts.len() {
                        match counts[i] {
                            Some(n) => {
                                if n > 3 {
                                    actions.push(EditAction::RemoveVertex(i, k));
                                    status = info_status("Removed point");
                                    changed = true;
                                } else {
                                    let mut t = String::new();
                                    t.append("A shape needs at least 3 points");
                                    status = Some(Status::error(t));
                                }
                            },
                            None => {},
                        }
                    }
                },
                None => {},
            }
        } else {
            match editing {
                Some(index) => {
                    if frame.ctrl {
                        match edge_slot {
                            Some(k) => {
                                actions.push(EditAction::InsertVertex(index, k));
                                status = info_status("Added point");
                                changed = true;
                            },
                            None => {
                                status = info_status("Ctrl-click an outline edge to add a point");
                            },
                        }
                    }
                },
                None => {
                    if pointer == PointerAt::OnPattern {
                        match draft_len {
                            Some(n) => {
                                let placed = n + 1;
                                draft_len = Some(placed);
                                actions.push(EditAction::PlaceDraftPoint);
                                let mut t = String::new();
                                write_decimal(&mut t, placed);
                                t.append(" points placed");
                                status = Some(Status::info(t));
                            },
                            None => {
                                if frame.ctrl {
                                    actions.push(EditAction::AddHole);
                                    status = info_status("Added hole");
                                    changed = true;
                                }
                            },
                        }
                    }
                },
            }
        }
    }
    let ghost p3 = clicks(p2, frame, nearest, cs, pointer, edge_slot);
    assert(actions@ =~= p3.actions);
    assert(status_view(status) =~~= p3.status);
    EditStep { state: EditState { editing, drag, draft_len }, actions, status, changed }
}

/// A shape keeps at least three points: a point is removed only from a
/// shape that has more than three.
pub proof fn law_shapes_keep_three_points(
    s: EditState,
    f: PointerFrame,
    nearest: Option<Grab>,
    counts: Seq<Option<usize>>,
    pointer: PointerAt,
    drag_on_pattern: bool,
    edge_slot: Option<usize>,
    j: int,
)
    requires
        0 <= j < preview_step_spec(s, f, nearest, counts, pointer, drag_on_pattern, edge_slot).actions.len(),
        preview_step_spec(s, f, nearest, counts, pointer, drag_on_pattern, edge_slot).actions[j]
            matches EditAction::RemoveVertex(_, _),
    ensures
        preview_step_spec(s, f, nearest, counts, pointer, drag_on_pattern, edge_slot).actions[j]
            matches EditAction::RemoveVertex(i, _) && is_shape(i as int, counts) && counts[i as int]->0 > 3,
{
    let p2 = drag_moves(drag_start(start(s, counts), f, nearest, pointer), f, drag_on_pattern, counts);
    assert forall|k: int| 0 <= k < p2.actions.len() implies !(#[trigger] p2.actions[k] matches EditAction::RemoveVertex(_, _)) by {
        let p1 = drag_start(start(s, counts), f, nearest, pointer);
        if k < p1.actions.len() {
            assert(p2.actions[k] == p1.actions[k]);
        }
    }
}

/// The cutouts are marked changed, so the pattern and the 3D markers are
/// rebuilt, exactly when some action of the frame changes them.
pub proof fn law_changes_mark_the_cutouts_changed(
    s: EditState,
    f: PointerFrame,
    nearest: Option<Grab>,
    counts: Seq<Option<usize>>,
    pointer: PointerAt,
    drag_on_pattern: bool,
    edge_slot: Option<usize>,
)
    ensures
        ({
            let r = preview_step_spec(s, f, nearest, counts, pointer, drag_on_pattern, edge_slot);
            r.changed <==> exists|j: int| 0 <= j < r.actions.len() && changes_cutouts(#[trigger] r.actions[j], counts)
        }),
{
    let p0 = start(s, counts);
    let p1 = drag_start(p0, f, nearest, pointer);
    let p2 = drag_moves(p1, f, drag_on_pattern, counts);
    let r = clicks(p2, f, nearest, counts, pointer, edge_slot);
    assert(!p1.changed);
    assert forall|j: int| 0 <= j < p1.actions.len() implies !changes_cutouts(#[trigger] p1.actions[j], counts) by {}
    if p2.changed {
        let j = p1.actions.len() as int;
        assert(changes_cutouts(p2.actions[j], counts));
    }
    assert(p2.changed <==> exists|j: int| 0 <= j < p2.actions.len() && changes_cutouts(#[trigger] p2.actions[j], counts)) by {
        if exists|j: int| 0 <= j < p2.actions.len() && changes_cutouts(#[trigger] p2.actions[j], counts) {
            let j = choose|j: int| 0 <= j < p2.actions.len() && changes_cutouts(#[trigger] p2.actions[j], counts);
            if j < p1.actions.len() {
                assert(p2.actions[j] == p1.actions[j]);
            }
        }
    }
    if r.actions.len() > p2.actions.len() {
        let j = p2.actions.len() as int;
        assert(r.actions =~= p2.actions.push(r.actions[j]));
        if changes_cutouts(r.actions[j], counts) {
            assert(r.changed);
        } else {
            assert(r.changed == p2.changed);
        }
        if exists|i: int| 0 <= i < r.actions.len() && changes_cutouts(#[trigger] r.actions[i], counts) {
            let i = choose|i: int| 0 <= i < r.actions.len() && changes_cutouts(#[trigger] r.actions[i], counts);
            if i < p2.actions.len() {
                assert(r.actions[i] == p2.actions[i]);
            }
        }
        if p2.changed {
            let i = choose|i: int| 0 <= i < p2.actions.len() && changes_cutouts(#[trigger] p2.actions[i], counts);
            assert(r.actions[i] == p2.actions[i]);
        }
    } else {
        assert(r.actions == p2.actions);
        assert(r.changed == p2.changed);
    }
}

/// What the controls of a shape being drawn do.
#[derive(Debug, Clone, Copy, PartialEq, Eq, Structural)]
pub enum DraftAction {
    /// Close the outline and add it as a cutout.
    Finish,
    /// Throw the shape away.
    Discard,
    /// Take back the last point placed.
    Undo,
    /// Carry on drawing.
    Keep,
}

/// What the controls do with a shape of `draft_len` points, given which of
/// finish (its button or Enter), cancel (its button or Escape) and undo (its
/// button or Backspace) were asked for: finishing needs three points and
/// comes first, then discarding, then undoing, which needs a point.
pub fn draft_step(draft_len: usize, finish: bool, cancel: bool, undo: bool) -> (a: DraftAction)
    ensures
        a == (if finish && draft_len >= 3 {
            DraftAction::Finish
        } else if cancel {
            DraftAction::Discard
        } else if undo && draft_len > 0 {
            DraftAction::Undo
        } else {
            DraftAction::Keep
        }),
{
    if finish && draft_len >= 3 {
        DraftAction::Finish
    } else if cancel {
        DraftAction::Discard
    } else if undo && draft_len > 0 {
        DraftAction::Undo
    } else {
        DraftAction::Keep
    }
}

/// What the shape controls come to: the editing state after them, what to
/// do with the shape being drawn, and the status.
pub struct ControlsView {
    pub state: EditState,
    pub draft: DraftAction,
    pub status: Option<(Seq<char>, bool)>,
}

/// The shape controls. While a shape's points are edited, done (its button
/// or Escape) stops editing. Otherwise, with no shape being drawn, the draw
/// button starts one with no points; with one being drawn, its controls
/// finish, discard or undo as [`draft_step`] says. A finished shape becomes
/// a cutout and changes the cutouts.
pub open spec fn controls_spec(s: EditState, done: bool, draw: bool, finish: bool, cancel: bool, undo: bool) -> ControlsView {
    match s.editing {
        Some(_) => if done {
            ControlsView { state: EditState { editing: None, ..s }, draft: DraftAction::Keep, status: info("Finished editing"@) }
        } else {
            ControlsView { state: s, draft: DraftAction::Keep, status: None }
        },
        None => match s.draft_len {
            None => if draw {
                ControlsView { state: EditState { draft_len: Some(0), ..s }, draft: DraftAction::Keep, status: None }
            } else {
                ControlsView { state: s, draft: DraftAction::Keep, status: None }
            },
            Some(n) => {
                let a = if finish && n >= 3 {
                    DraftAction::Finish
                } else if cancel {
                    DraftAction::Discard
                } else if undo && n > 0 {
                    DraftAction::Undo
                } else {
                    DraftAction::Keep
                };
                match a {
                    DraftAction::Finish => ControlsView {
                        state: EditState { draft_len: None, ..s }, draft: a, status: info("Added shape"@),
                    },
                    DraftAction::Discard => ControlsView {
                        state: EditState { draft_len: None, ..s }, draft: a, status: info("Discarded shape"@),
                    },
                    DraftAction::Undo => ControlsView {
                        state: EditState { draft_len: Some((n - 1) as usize), ..s }, draft: a, status: None,
                    },
                    DraftAction::Keep => ControlsView { state: s, draft: a, status: None },
                }
            },
        },
    }
}

/// Apply the shape controls to the editing state.
pub fn shape_controls(state: EditState, done: bool, draw: bool, finish: bool, cancel: bool, undo: bool)
    -> (r: (EditState, DraftAction, Option<Status>))
    ensures
        ({
            let v = controls_spec(state, done, draw, finish, cancel, undo);
            r.0 == v.state && r.1 == v.draft && status_view(r.2) == v.status
        }),
{
    match state.editing {
        Some(_) => {
            if done {
                (EditState { editing: None, ..state }, DraftAction::Keep, info_status("Finished editing"))
            } else {
                (state, DraftAction::Keep, None)
            }
        },
        None => match state.draft_len {
            None => {
                if draw {
                    (EditState { draft_len: Some(0), ..state }, DraftAction::Keep, None)
                } else {
                    (state, DraftAction::Keep, None)
                }
            },
            Some(n) => {
                let a = draft_step(n, finish, cancel, undo);
                match a {
                    DraftAction::Finish => (EditState { draft_len: None, ..state }, a, info_status("Added shape")),
                    DraftAction::Discard => (EditState { draft_len: None, ..state }, a, info_status("Discarded shape")),
                    DraftAction::Undo => (EditState { draft_len: Some(n - 1), ..state }, a, None),
                    DraftAction::Keep => (state, a, None),
                }
            },
        },
    }
}

/// A finished shape has at least three points.
pub proof fn law_finished_shapes_have_three_points(s: EditState, done: bool, draw: bool, finish: bool, cancel: bool, undo: bool)
    requires
        controls_spec(s, done, draw, finish, cancel, undo).draft == DraftAction::Finish,
    ensures
        s.draft_len matches Some(n) && n >= 3,
{
}

/// Whether an action adds something at the pointer's place on the surface.
pub open spec fn places_at_pointer(a: EditAction) -> bool {
    a matches EditAction::PlaceDraftPoint || a matches EditAction::AddHole
}

/// Nothing is placed where there is no surface: when the pointer is not
/// over the pattern, a frame neither places a point of the shape being
/// drawn nor adds a hole, and the shape being drawn keeps its points.
pub proof fn law_nothing_is_placed_off_the_pattern(
    s: EditState,
    f: PointerFrame,
    nearest: Option<Grab>,
    counts: Seq<Option<usize>>,
    pointer: PointerAt,
    drag_on_pattern: bool,
    edge_slot: Option<usize>,
)
    requires
        pointer != PointerAt::OnPattern,
    ensures
        ({
            let r = preview_step_spec(s, f, nearest, counts, pointer, drag_on_pattern, edge_slot);
            &&& r.state.draft_len == s.draft_len
            &&& forall|j: int| 0 <= j < r.actions.len() ==> !places_at_pointer(#[trigger] r.actions[j])
        }),
{
    let p0 = start(s, counts);
    let p1 = drag_start(p0, f, nearest, pointer);
    let p2 = drag_moves(p1, f, drag_on_pattern, counts);
    let r = clicks(p2, f, nearest, counts, pointer, edge_slot);
    assert(p1 == p0);
    assert(p2.state.draft_len == s.draft_len);
    assert forall|j: int| 0 <= j < p2.actions.len() implies !places_at_pointer(#[trigger] p2.actions[j]) by {}
    assert forall|j: int| 0 <= j < r.actions.len() implies !places_at_pointer(#[trigger] r.actions[j]) by {
        if j < p2.actions.len() {
            assert(r.actions[j] == p2.actions[j]);
        }
    }
}

/// The shape controls act only when asked: with no control pressed, the
/// editing state is left as it is, the shape being drawn is kept, and
/// nothing is reported.
pub proof fn law_controls_act_only_when_pressed(s: EditState)
    ensures
        controls_spec(s, false, false, false, false, false).state == s,
        controls_spec(s, false, false, false, false, false).draft == DraftAction::Keep,
        controls_spec(s, false, false, false, false, false).status is None,
{
}

/// Each control does only its own work: point editing ends only when done
/// is pressed, a drawing starts only when draw is pressed, and a shape
/// being drawn changes only when finish, cancel or undo is.
pub proof fn law_each_control_does_its_own_work(
    s: EditState,
    done: bool,
    draw: bool,
    finish: bool,
    cancel: bool,
    undo: bool,
)
    ensures
        ({
            let v = controls_spec(s, done, draw, finish, cancel, undo);
            &&& (s.editing is Some && v.state.editing is None) ==> done
            &&& (s.draft_len is None && v.state.draft_len is Some) ==> draw
            &&& (s.draft_len is Some && v.state.draft_len != s.draft_len) ==> (finish || cancel || undo)
            &&& v.state.drag == s.drag
        }),
{
}

} // verus!
