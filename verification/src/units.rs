//! Drawing units.

use vstd::prelude::*;
use crate::text::str_eq;

verus! {

/// Unit of length for pattern output.
#[derive(Debug, Clone, Copy, PartialEq, Eq, Hash, Structural)]
pub enum Unit {
    /// Inches. 96 px/in is the Inkscape and CSS standard.
    Inch,
    /// Millimeters.
    Mm,
    /// Centimeters.
    Cm,
}

impl Default for Unit {
    fn default() -> (u: Self)
        ensures
            u == Unit::Inch,
    {
        Unit::Inch
    }
}

/// The unit a settings file means by `name`.
pub open spec fn unit_named(name: Seq<char>) -> Option<Unit> {
    if name == seq!['i', 'n'] || name == seq!['i', 'n', 'c', 'h'] {
        Some(Unit::Inch)
    } else if name == seq!['m', 'm'] {
        Some(Unit::Mm)
    } else if name == seq!['c', 'm'] {
        Some(Unit::Cm)
    } else {
        None
    }
}

impl Unit {
    /// All units, for populating pickers.
    pub const ALL: [Unit; 3] = [Unit::Inch, Unit::Mm, Unit::Cm];

    /// The unit's short name.
    pub open spec fn suffix_text(self) -> Seq<char> {
        match self {
            Unit::Inch => seq!['i', 'n'],
            Unit::Mm => seq!['m', 'm'],
            Unit::Cm => seq!['c', 'm'],
        }
    }

    /// Short suffix used in generated filenames and ruler labels, and the
    /// name a settings file gives the unit.
    pub fn suffix(self) -> (s: &'static str)
        ensures
            s@ == self.suffix_text(),
    {
        proof {
            reveal_strlit("in");
            reveal_strlit("mm");
            reveal_strlit("cm");
        }
        match self {
            Unit::Inch => "in",
            Unit::Mm => "mm",
            Unit::Cm => "cm",
        }
    }

    /// The unit as text: its suffix.
    pub fn to_string(self) -> (s: String)
        ensures
            s@ == self.suffix_text(),
    {
        self.suffix().to_string()
    }

    /// The unit a settings file names: its suffix, or `inch`, the name
    /// earlier settings files used for inches.
    pub fn from_settings_name(name: &str) -> (u: Option<Unit>)
        ensures
            u == unit_named(name@),
    {
        proof {
            reveal_strlit("in");
            reveal_strlit("inch");
            reveal_strlit("mm");
            reveal_strlit("cm");
            assert("in"@ =~= seq!['i', 'n']);
            assert("inch"@ =~= seq!['i', 'n', 'c', 'h']);
            assert("mm"@ =~= seq!['m', 'm']);
            assert("cm"@ =~= seq!['c', 'm']);
        }
        if str_eq(name, "in") || str_eq(name, "inch") {
            Some(Unit::Inch)
        } else if str_eq(name, "mm") {
            Some(Unit::Mm)
        } else if str_eq(name, "cm") {
            Some(Unit::Cm)
        } else {
            None
        }
    }
}

/// A unit's name in a settings file reads back as that unit, and so does
/// the older name for inches.
pub proof fn law_unit_names_read_back(u: Unit)
    ensures
        unit_named(u.suffix_text()) == Some(u),
        unit_named(seq!['i', 'n', 'c', 'h']) == Some(Unit::Inch),
{
    assert(seq!['m', 'm'] != seq!['i', 'n']) by { assert(seq!['m', 'm'][0] != seq!['i', 'n'][0]); }
    assert(seq!['c', 'm'] != seq!['i', 'n']) by { assert(seq!['c', 'm'][0] != seq!['i', 'n'][0]); }
    assert(seq!['c', 'm'] != seq!['m', 'm']) by { assert(seq!['c', 'm'][0] != seq!['m', 'm'][0]); }
    assert(seq!['m', 'm'].len() != seq!['i', 'n', 'c', 'h'].len());
    assert(seq!['c', 'm'].len() != seq!['i', 'n', 'c', 'h'].len());
}

} // verus!
