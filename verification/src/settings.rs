//! The parts of the settings that are not lengths or angles: the
//! projection, the errors validation reports, and reading settings text.

use vstd::prelude::*;
use crate::text::{str_eq, decimal, write_decimal, chars_of, string_of_prefix, parse_usize, law_parse_reads_decimal, lemma_decimal_reads_back};
use crate::units::Unit;

verus! {

/// How the ellipsoid surface is unrolled into a flat pattern.
#[derive(Debug, Clone, Copy, PartialEq, Eq, Hash, Structural)]
pub enum Projection {
    /// Unfold from the top of the ellipsoid.
    Spherical,
    /// Unfold from the front of the ellipsoid.
    Cylindrical,
}

impl Default for Projection {
    fn default() -> (p: Self)
        ensures
            p == Projection::Cylindrical,
    {
        Projection::Cylindrical
    }
}

/// The projection a settings file means by `name`.
pub open spec fn projection_named(name: Seq<char>) -> Option<Projection> {
    if name == Projection::Spherical.name_text() {
        Some(Projection::Spherical)
    } else if name == Projection::Cylindrical.name_text() {
        Some(Projection::Cylindrical)
    } else {
        None
    }
}

impl Projection {
    /// All projections, for populating pickers.
    pub const ALL: [Projection; 2] = [Projection::Spherical, Projection::Cylindrical];

    /// The projection's lowercase name.
    pub open spec fn name_text(self) -> Seq<char> {
        match self {
            Projection::Spherical => seq!['s', 'p', 'h', 'e', 'r', 'i', 'c', 'a', 'l'],
            Projection::Cylindrical => seq!['c', 'y', 'l', 'i', 'n', 'd', 'r', 'i', 'c', 'a', 'l'],
        }
    }

    /// Lowercase name, also the name a settings file gives the projection.
    pub fn name(self) -> (s: &'static str)
        ensures
            s@ == self.name_text(),
    {
        proof {
            reveal_strlit("spherical");
            reveal_strlit("cylindrical");
            assert("spherical"@ =~= Projection::Spherical.name_text());
            assert("cylindrical"@ =~= Projection::Cylindrical.name_text());
        }
        match self {
            Projection::Spherical => "spherical",
            Projection::Cylindrical => "cylindrical",
        }
    }

    /// The projection as text: its name.
    pub fn to_string(self) -> (s: String)
        ensures
            s@ == self.name_text(),
    {
        self.name().to_string()
    }

    /// The projection a settings file names.
    pub fn from_name(name: &str) -> (p: Option<Projection>)
        ensures
            p == projection_named(name@),
    {
        if str_eq(name, Projection::Spherical.name()) {
            Some(Projection::Spherical)
        } else if str_eq(name, Projection::Cylindrical.name()) {
            Some(Projection::Cylindrical)
        } else {
            None
        }
    }
}

/// A projection's name reads back as that projection.
pub proof fn law_projection_names_read_back(p: Projection)
    ensures
        projection_named(p.name_text()) == Some(p),
{
    assert(Projection::Spherical.name_text().len() != Projection::Cylindrical.name_text().len());
}

/// A parameter that would produce a broken or meaningless pattern.
#[derive(Debug, Clone, PartialEq, Eq)]
pub struct ValidationError {
    /// Field name as it appears in the serialised form.
    pub field: &'static str,
    pub message: String,
}

impl ValidationError {
    /// The error as a line of text: `field: message`.
    pub fn to_string(&self) -> (s: String)
        ensures
            s@ == self.field@ + seq![':', ' '] + self.message@,
    {
        let mut s = self.field.to_string();
        s.append(": ");
        s.append(self.message.as_str());
        proof {
            reveal_strlit(": ");
            assert(": "@ =~= seq![':', ' ']);
        }
        s
    }
}

/// The fewest divisions a pattern can have in either direction.
pub const MIN_DIVISIONS: usize = 3;

/// The message for a division count below [`MIN_DIVISIONS`].
pub open spec fn too_few_divisions_text(count: nat) -> Seq<char> {
    "must be 3 or more, got "@ + decimal(count)
}

/// Check a division count: the geometry raises counts below three to three,
/// so a count below three is reported rather than quietly changed.
pub fn check_division_count(field: &'static str, count: usize) -> (e: Option<ValidationError>)
    ensures
        e is Some <==> count < MIN_DIVISIONS,
        e matches Some(err) ==> err.field == field && err.message@ == too_few_divisions_text(count as nat),
{
    if count >= MIN_DIVISIONS {
        return None;
    }
    let mut message = String::new();
    message.append("must be 3 or more, got ");
    write_decimal(&mut message, count);
    Some(ValidationError { field, message })
}

/// The message for a number that is not finite.
pub open spec fn not_finite_text(value: Seq<char>) -> Seq<char> {
    "must be a finite number, got "@ + value
}

/// The message for a number outside the bound `want` describes.
pub open spec fn out_of_bounds_text(want: Seq<char>, value: Seq<char>) -> Seq<char> {
    "must be "@ + want + ", got "@ + value
}

/// Check one numeric field. `value` is the number as text, `finite` says
/// whether it is a finite number, and `in_bounds` whether it meets the
/// field's bound, which `want` describes. A value that is not finite is
/// reported as such, whatever its bound.
pub fn check_number(field: &'static str, value: &str, finite: bool, in_bounds: bool, want: &str) -> (e: Option<ValidationError>)
    ensures
        e is Some <==> !finite || !in_bounds,
        e matches Some(err) ==> err.field == field && err.message@ == (if !finite {
            not_finite_text(value@)
        } else {
            out_of_bounds_text(want@, value@)
        }),
{
    if !finite {
        let mut message = String::new();
        message.append("must be a finite number, got ");
        message.append(value);
        Some(ValidationError { field, message })
    } else if !in_bounds {
        let mut message = String::new();
        message.append("must be ");
        message.append(want);
        message.append(", got ");
        message.append(value);
        Some(ValidationError { field, message })
    } else {
        None
    }
}

/// The message for a theta range that is empty or upside down.
pub open spec fn theta_order_text(min: Seq<char>, max: Seq<char>) -> Seq<char> {
    "must be less than theta_max ("@ + min + " >= "@ + max + ")"@
}

/// Check that the theta range runs upwards. `min` and `max` are the bounds
/// as text, and `inverted` says whether both are finite and the lower is not
/// below the upper; a bound that is not finite has been reported already.
pub fn check_theta_order(min: &str, max: &str, inverted: bool) -> (e: Option<ValidationError>)
    ensures
        e is Some <==> inverted,
        e matches Some(err) ==> err.field@ == "theta_min"@ && err.message@ == theta_order_text(min@, max@),
{
    if inverted {
        let mut message = String::new();
        message.append("must be less than theta_max (");
        message.append(min);
        message.append(" >= ");
        message.append(max);
        message.append(")");
        Some(ValidationError { field: "theta_min", message })
    } else {
        None
    }
}

/// The message for cutout `index`, described by `description`, that cannot
/// be cut.
pub open spec fn bad_cutout_text(index: nat, description: Seq<char>) -> Seq<char> {
    "cutout "@ + decimal(index) + " ("@ + description
        + ") has a non-finite value, a diameter of zero, or fewer than three points"@
}

/// Check cutout `index`: `valid` says whether its values are finite, its
/// diameter nonzero and its outline at least a triangle.
pub fn check_cutout(index: usize, description: &str, valid: bool) -> (e: Option<ValidationError>)
    ensures
        e is Some <==> !valid,
        e matches Some(err) ==> err.field@ == "cutouts"@ && err.message@ == bad_cutout_text(index as nat, description@),
{
    if valid {
        return None;
    }
    let mut message = String::new();
    message.append("cutout ");
    write_decimal(&mut message, index);
    message.append(" (");
    message.append(description);
    message.append(") has a non-finite value, a diameter of zero, or fewer than three points");
    Some(ValidationError { field: "cutouts", message })
}

/// Settings text with a leading byte-order mark removed, if there is one.
/// Windows editors add one, and the JSON reader would reject it.
pub fn strip_bom(text: &str) -> (s: &str)
    ensures
        s@ == (if text@.len() > 0 && text@[0] == '\u{feff}' { text@.drop_first() } else { text@ }),
{
    let n = text.unicode_len();
    if n > 0 && text.get_char(0) == '\u{feff}' {
        let rest = text.substring_char(1, n);
        assert(rest@ =~= text@.drop_first());
        rest
    } else {
        text
    }
}

/// The suggested output filename stem, from the semi-axes already written
/// to two decimal places: `ellipsoid_a3.75in_b2.88in_c3.00in`.
pub open spec fn filename_stem_text(a: Seq<char>, b: Seq<char>, c: Seq<char>, unit: Unit) -> Seq<char> {
    let u = unit.suffix_text();
    "ellipsoid_a"@ + a + u + "_b"@ + b + u + "_c"@ + c + u
}

/// Suggested output filename stem, from the semi-axes written to two
/// decimal places and the unit.
pub fn filename_stem(a: &str, b: &str, c: &str, unit: Unit) -> (s: String)
    ensures
        s@ == filename_stem_text(a@, b@, c@, unit),
{
    let u = unit.suffix();
    let mut s = String::new();
    s.append("ellipsoid_a");
    s.append(a);
    s.append(u);
    s.append("_b");
    s.append(b);
    s.append(u);
    s.append("_c");
    s.append(c);
    s.append(u);
    s
}

/// The settings stamp on a drawing: the settings' compact JSON, written
/// without cutouts, with their number added as a last `cutouts` member when
/// there are any.
pub open spec fn stamped_text(json: Seq<char>, cutouts: nat) -> Seq<char> {
    if cutouts > 0 && json.len() > 0 && json.last() == '}' {
        json.drop_last() + ",\"cutouts\":"@ + decimal(cutouts) + seq!['}']
    } else {
        json
    }
}

/// Add the number of cutouts to the settings stamp.
pub fn stamp_cutout_count(json: &str, cutouts: usize) -> (s: String)
    ensures
        s@ == stamped_text(json@, cutouts as nat),
{
    let v = chars_of(json);
    if cutouts > 0 && v.len() > 0 && v[v.len() - 1] == '}' {
        let mut s = string_of_prefix(&v, v.len() - 1);
        s.append(",\"cutouts\":");
        write_decimal(&mut s, cutouts);
        s.append("}");
        proof {
            reveal_strlit("}");
            assert("}"@ =~= seq!['}']);
            assert(v@.take(v.len() - 1) =~= json@.drop_last());
        }
        s
    } else {
        json.to_string()
    }
}

/// The stamp counts the cutouts: with settings JSON that ends in `}` and
/// any cutouts at all, the stamp is the JSON with a last member `cutouts`
/// added, whose value reads back as the number of cutouts, so it is never
/// the JSON unchanged; with none, or JSON that does not end in `}`, the
/// JSON is left as it is.
pub proof fn law_the_stamp_counts_the_cutouts(json: Seq<char>, cutouts: usize)
    ensures
        (cutouts > 0 && json.len() > 0 && json.last() == '}') ==> {
            let s = stamped_text(json, cutouts as nat);
            &&& s.len() > json.len()
            &&& exists|d: Seq<char>| s == json.drop_last() + ",\"cutouts\":"@ + d + seq!['}']
                && #[trigger] parse_usize(d) == Some(cutouts as nat)
        },
        (cutouts == 0 || json.len() == 0 || json.last() != '}') ==> stamped_text(json, cutouts as nat) == json,
{
    if json.len() > 0 && json.last() == '}' && cutouts > 0 {
        law_parse_reads_decimal(cutouts as nat);
        lemma_decimal_reads_back(cutouts as nat);
        let d = decimal(cutouts as nat);
        assert(stamped_text(json, cutouts as nat) == json.drop_last() + ",\"cutouts\":"@ + d + seq!['}']);
    }
}

/// The message refusing a set of parameters: a heading, then each problem on
/// a line of its own, indented.
pub open spec fn problems_text(problems: Seq<ValidationError>) -> Seq<char>
    decreases problems.len(),
{
    if problems.len() == 0 {
        "invalid parameters:"@
    } else {
        let e = problems.last();
        problems_text(problems.drop_last()) + "\n  "@ + e.field@ + seq![':', ' '] + e.message@
    }
}

/// Refuse a set of parameters, saying everything that is wrong with them.
pub fn invalid_parameters_message(problems: &Vec<ValidationError>) -> (s: String)
    ensures
        s@ == problems_text(problems@),
{
    let mut s = String::new();
    s.append("invalid parameters:");
    let mut i: usize = 0;
    assert(problems@.take(0) =~= Seq::<ValidationError>::empty());
    while i < problems.len()
        invariant
            i <= problems.len(),
            s@ == problems_text(problems@.take(i as int)),
        decreases problems.len() - i,
    {
        s.append("\n  ");
        let line = problems[i].to_string();
        s.append(line.as_str());
        assert(problems@.take(i as int + 1).drop_last() =~= problems@.take(i as int));
        assert(problems@.take(i as int + 1).last() == problems@[i as int]);
        i = i + 1;
    }
    assert(problems@.take(problems.len() as int) =~= problems@);
    s
}

} // verus!
