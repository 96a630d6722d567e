//! The two 3D views and what a click in one of them asks for.

use vstd::prelude::*;

verus! {

/// Which of the two views.
#[derive(Debug, Clone, Copy, PartialEq, Eq, Structural)]
pub enum ViewKind {
    /// The ellipsoid surface.
    Surface,
    /// The flattened pattern.
    Flat,
}

/// What a modified click in a view should do.
#[derive(Debug, Clone, Copy, PartialEq, Eq, Structural)]
pub enum PickAction {
    Add,
    Remove,
}

impl ViewKind {
    /// The render layer of the view.
    pub open spec fn layer_number(self) -> usize {
        match self {
            ViewKind::Surface => 1,
            ViewKind::Flat => 2,
        }
    }

    /// Both views.
    pub const ALL: [ViewKind; 2] = [ViewKind::Surface, ViewKind::Flat];

    /// The view's title.
    pub fn title(self) -> (s: &'static str)
        ensures
            s@ == match self {
                ViewKind::Surface => "Ellipsoid"@,
                ViewKind::Flat => "Flattened"@,
            },
    {
        match self {
            ViewKind::Surface => "Ellipsoid",
            ViewKind::Flat => "Flattened",
        }
    }

    /// The render layer the view's camera and mesh live on: the main scene
    /// is on layer 0, so each view gets a layer of its own above it.
    pub fn layer(self) -> (l: usize)
        ensures
            l == self.layer_number(),
    {
        match self {
            ViewKind::Surface => 1,
            ViewKind::Flat => 2,
        }
    }
}

/// The two views never share a render layer, and neither is on the main
/// scene's layer 0, so no camera sees another's mesh.
pub proof fn law_views_have_their_own_layers(a: ViewKind, b: ViewKind)
    ensures
        a != b ==> a.layer_number() != b.layer_number(),
        a.layer_number() > 0,
{
}

} // verus!
