//! Names and tags of the drawing's layers and text.

use vstd::prelude::*;
use crate::text::{decimal, write_decimal};
use crate::units::Unit;

verus! {

/// The cut outline.
pub const LAYER_PATTERN: &'static str = "Ellipsoid Pattern";
/// The canvas outline.
pub const LAYER_BOUNDING_BOX: &'static str = "Bounding Box";
/// Dart and seam guides.
pub const LAYER_GUIDE_LINES: &'static str = "Guide Lines";
/// Panel-to-panel mapping data: where each quad lands.
pub const LAYER_QUADS_DEST: &'static str = "Edges Destination Quadrilaterals";
/// Panel-to-panel mapping data: where each quad comes from.
pub const LAYER_QUADS_SRC: &'static str = "Edges Source Quadrilaterals";
/// Cutouts.
pub const LAYER_CUTOUTS: &'static str = "Cutouts";
/// The filename, ruler and settings dump.
pub const LAYER_NOTES: &'static str = "Notes";

/// Layers dropped before the drawing is exported: they hold only the
/// panel-to-panel mapping data.
pub const PREVIEW_ONLY_LAYERS: [&'static str; 2] = [LAYER_QUADS_DEST, LAYER_QUADS_SRC];

/// Where a text's position sits relative to its glyphs.
#[derive(Debug, Clone, Copy, PartialEq, Eq, Structural)]
pub enum TextAnchor {
    /// The position is the baseline origin.
    BaselineStart,
    /// The position is the centre of the text's bounding box.
    Center,
}

impl TextAnchor {
    /// The attribute text for this anchor.
    pub open spec fn anchor_text(self) -> Seq<char> {
        match self {
            TextAnchor::BaselineStart => ""@,
            TextAnchor::Center => " text-anchor=\"middle\" dominant-baseline=\"central\""@,
        }
    }

    /// The attributes that place text by this anchor in the document: none
    /// for a baseline start, which is the default there.
    pub fn svg_attributes(self) -> (s: &'static str)
        ensures
            s@ == self.anchor_text(),
    {
        match self {
            TextAnchor::BaselineStart => "",
            TextAnchor::Center => " text-anchor=\"middle\" dominant-baseline=\"central\"",
        }
    }
}

/// The label of the ruler tick `i` units from its start.
pub fn ruler_label(i: usize, unit: Unit) -> (s: String)
    ensures
        s@ == decimal(i as nat) + unit.suffix_text(),
{
    let mut s = String::new();
    write_decimal(&mut s, i);
    s.append(unit.suffix());
    s
}

} // verus!
