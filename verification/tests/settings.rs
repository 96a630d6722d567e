use ellipsoid::settings::{filename_stem, stamp_cutout_count, invalid_parameters_message};
use ellipsoid::settings::{check_cutout, check_division_count, check_number, check_theta_order, strip_bom};
use ellipsoid::{Projection, Unit, ValidationError};

#[test]
fn units_have_short_names() {
    assert_eq!(Unit::Inch.suffix(), "in");
    assert_eq!(Unit::Mm.suffix(), "mm");
    assert_eq!(Unit::Cm.suffix(), "cm");
    assert_eq!(Unit::Mm.to_string(), "mm");
    assert_eq!(Unit::default(), Unit::Inch);
    assert_eq!(Unit::ALL, [Unit::Inch, Unit::Mm, Unit::Cm]);
}

#[test]
fn unit_names_read_back_and_the_old_inch_still_loads() {
    for unit in Unit::ALL {
        assert_eq!(Unit::from_settings_name(unit.suffix()), Some(unit));
    }
    assert_eq!(Unit::from_settings_name("inch"), Some(Unit::Inch));
    assert_eq!(Unit::from_settings_name("Inch"), None);
    assert_eq!(Unit::from_settings_name(""), None);
}

#[test]
fn projections_have_lowercase_names() {
    assert_eq!(Projection::Spherical.name(), "spherical");
    assert_eq!(Projection::Cylindrical.name(), "cylindrical");
    assert_eq!(Projection::default(), Projection::Cylindrical);
    for p in Projection::ALL {
        assert_eq!(Projection::from_name(p.name()), Some(p));
        assert_eq!(p.to_string(), p.name());
    }
    assert_eq!(Projection::from_name("conical"), None);
}

#[test]
fn rejects_division_counts_below_the_clamp() {
    let errors: Vec<ValidationError> = [("phi_divisions", 2), ("theta_divisions", 0)]
        .into_iter()
        .filter_map(|(field, n)| check_division_count(field, n))
        .collect();
    assert_eq!(errors.len(), 2, "{errors:?}");
    assert_eq!(errors[0].to_string(), "phi_divisions: must be 3 or more, got 2");
    assert_eq!(errors[1].message, "must be 3 or more, got 0");
    assert_eq!(check_division_count("phi_divisions", 3), None);
    assert_eq!(check_division_count("theta_divisions", 16), None);
}

#[test]
fn a_byte_order_mark_does_not_stop_a_file_loading() {
    assert_eq!(strip_bom("\u{feff}{\"a\": 9.0}"), "{\"a\": 9.0}");
    assert_eq!(strip_bom("{\"a\": 9.0}"), "{\"a\": 9.0}");
    assert_eq!(strip_bom(""), "");
    // Only one mark, and only at the start.
    assert_eq!(strip_bom("\u{feff}\u{feff}x"), "\u{feff}x");
    assert_eq!(strip_bom("x\u{feff}"), "x\u{feff}");
}

#[test]
fn filename_stem_matches_legacy_format() {
    let two = |v: f64| format!("{v:.2}");
    assert_eq!(
        filename_stem(&two(3.75), &two(2.875), &two(3.0), Unit::Inch),
        "ellipsoid_a3.75in_b2.88in_c3.00in"
    );
    assert_eq!(filename_stem("1.00", "2.00", "3.00", Unit::Mm), "ellipsoid_a1.00mm_b2.00mm_c3.00mm");
}

#[test]
fn the_stamp_counts_cutouts_instead_of_listing_them() {
    assert_eq!(stamp_cutout_count("{\"a\":1.0}", 0), "{\"a\":1.0}");
    assert_eq!(stamp_cutout_count("{\"a\":1.0}", 2), "{\"a\":1.0,\"cutouts\":2}");
    assert_eq!(stamp_cutout_count("not json", 5), "not json");
    assert_eq!(stamp_cutout_count("", 5), "");
}

#[test]
fn every_invalid_parameter_is_listed() {
    let problems = vec![
        ValidationError { field: "a", message: "must be greater than 0, got 0".into() },
        check_division_count("phi_divisions", 1).unwrap(),
    ];
    assert_eq!(
        invalid_parameters_message(&problems),
        "invalid parameters:\n  a: must be greater than 0, got 0\n  phi_divisions: must be 3 or more, got 1"
    );
    assert_eq!(invalid_parameters_message(&vec![]), "invalid parameters:");
}

#[test]
fn rejects_nonpositive_axes_and_nan() {
    let errors: Vec<ValidationError> = [("a", 0.0_f64), ("b", -1.0), ("c", f64::NAN)]
        .into_iter()
        .filter_map(|(field, v)| check_number(field, &v.to_string(), v.is_finite(), v > 0.0, "greater than 0"))
        .collect();
    // Every problem is reported, not just the first.
    assert_eq!(errors.len(), 3, "{errors:?}");
    assert_eq!(errors[0].to_string(), "a: must be greater than 0, got 0");
    assert_eq!(errors[1].to_string(), "b: must be greater than 0, got -1");
    assert_eq!(errors[2].to_string(), "c: must be a finite number, got NaN");
    assert_eq!(check_number("a", "3.75", true, true, "greater than 0"), None);
    // Not finite is what is reported, even where the bound also fails.
    assert_eq!(
        check_number("min_gap", "-inf", false, false, "0 or greater").unwrap().message,
        "must be a finite number, got -inf"
    );
}

#[test]
fn rejects_an_inverted_theta_range() {
    let e = check_theta_order("40", "10", true).unwrap();
    assert_eq!(e.field, "theta_min");
    assert_eq!(e.message, "must be less than theta_max (40 >= 10)");
}

#[test]
fn accepts_the_extremes_of_the_theta_range() {
    // The bound is tested the way the settings test it, on the number itself.
    let within = |v: f64| (-90.0..=90.0).contains(&v);
    for (field, v) in [("theta_min", -90.0_f64), ("theta_max", 90.0)] {
        assert_eq!(check_number(field, &v.to_string(), v.is_finite(), within(v), "between -90 and 90"), None);
    }
    assert_eq!(check_theta_order("-90", "90", -90.0_f64 >= 90.0), None);
    let beyond = 90.5_f64;
    assert_eq!(
        check_number("theta_max", &beyond.to_string(), beyond.is_finite(), within(beyond), "between -90 and 90")
            .unwrap()
            .message,
        "must be between -90 and 90, got 90.5"
    );
}

#[test]
fn a_cutout_that_cannot_be_cut_is_named() {
    assert_eq!(check_cutout(0, "hole at (0.25, 0.5)", true), None);
    let e = check_cutout(12, "polygon of 2 points", false).unwrap();
    assert_eq!(e.field, "cutouts");
    assert_eq!(
        e.message,
        "cutout 12 (polygon of 2 points) has a non-finite value, a diameter of zero, or fewer than three points"
    );
}
