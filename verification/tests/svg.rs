use ellipsoid::document::{to_svg, SvgItem, SvgLayer, SvgScene, SvgText};
use ellipsoid::scene::ruler_label;
use ellipsoid::Unit;
use ellipsoid::scene::{TextAnchor, LAYER_PATTERN, PREVIEW_ONLY_LAYERS, LAYER_QUADS_DEST, LAYER_QUADS_SRC};
use ellipsoid::svg::{escape, layer_open_tag, path_data, rgb_string, trim_fixed, SvgOptions, INKSCAPE_NS};

fn num(v: f64) -> String {
    trim_fixed(&format!("{v:.3}"))
}

#[test]
fn numbers_are_trimmed_and_signed_zero_is_normalised() {
    assert_eq!(num(1.0), "1");
    assert_eq!(num(1.5), "1.5");
    assert_eq!(num(1.23456), "1.235");
    assert_eq!(num(-0.0001), "0");
    assert_eq!(num(0.0), "0");
}

#[test]
fn text_without_a_point_is_left_alone() {
    assert_eq!(trim_fixed("100"), "100");
    assert_eq!(trim_fixed("-0"), "0");
    assert_eq!(trim_fixed(""), "0");
    assert_eq!(trim_fixed("-12.500"), "-12.5");
    assert_eq!(trim_fixed("20.000"), "20");
}

#[test]
fn text_content_is_escaped() {
    // A text item at the origin, in a Notes layer, rendered as a document.
    let scene = SvgScene {
        min_x: "0".into(),
        min_y: "0".into(),
        width: "1".into(),
        height: "1".into(),
        layers: vec![SvgLayer {
            name: "Notes".into(),
            items: vec![SvgItem::Text(SvgText {
                x: trim_fixed("0.000"),
                y: trim_fixed("0.000"),
                content: r#"a<b>&"c""#.into(),
                font_family: "Roboto".into(),
                font_size: trim_fixed("10.000"),
                fill: rgb_string(0, 0, 0),
                anchor: TextAnchor::BaselineStart,
                rotation: None,
            })],
        }],
    };
    let svg = to_svg(&scene, &SvgOptions::default());
    assert!(svg.contains("a&lt;b&gt;&amp;&quot;c&quot;"), "{svg}");
    assert!(!svg.contains("<b>"));
}

#[test]
fn escape_replaces_each_markup_character() {
    let escaped = escape(r#"a<b>&"c""#);
    assert_eq!(escaped, "a&lt;b&gt;&amp;&quot;c&quot;");
    assert!(!escaped.contains("<b>"));
    assert_eq!(escape("it's"), "it&apos;s");
    assert_eq!(escape("plain ünïcode"), "plain ünïcode");
}

#[test]
fn escaping_keeps_different_text_apart() {
    // Text that already looks like an entity is escaped again, so it never
    // collides with the character the entity stands for.
    assert_eq!(escape("&lt;"), "&amp;lt;");
    assert_ne!(escape("&lt;"), escape("<"));
    assert_ne!(escape("'"), escape("\""));
    for text in ["<", ">", "&", "\"", "'", "a", ""] {
        let e = escape(text);
        assert!(!e.contains(['<', '>', '"', '\'']), "{e}");
    }
}

#[test]
fn colors_serialize_as_byte_rgb() {
    let byte = |v: f64| (v.clamp(0.0, 1.0) * 255.0).round() as u8;
    assert_eq!(rgb_string(byte(1.0), byte(0.0), byte(0.5)), "rgb(255,0,128)");
    assert_eq!(rgb_string(0, 0, 0), "rgb(0,0,0)");
}

#[test]
fn closed_paths_end_with_z() {
    let points = vec![
        (num(0.0), num(0.0)),
        (num(10.0), num(0.0)),
        (num(10.0), num(5.0)),
    ];
    assert_eq!(path_data(&points, true), "M0,0 L10,0 L10,5 Z");
    assert_eq!(path_data(&points, false), "M0,0 L10,0 L10,5");
    assert_eq!(path_data(&vec![], false), "");
}

#[test]
fn layers_become_identified_groups() {
    let tag = layer_open_tag(LAYER_PATTERN, SvgOptions::default().inkscape_layers);
    assert_eq!(tag, "  <g id=\"Ellipsoid Pattern\">\n");
    assert!(!tag.contains("inkscape"), "plain mode must stay clean");
}

#[test]
fn inkscape_mode_tags_layers_and_declares_the_namespace() {
    let tag = layer_open_tag("Notes & <more>", true);
    assert_eq!(
        tag,
        "  <g id=\"Notes &amp; &lt;more&gt;\" inkscape:groupmode=\"layer\" inkscape:label=\"Notes &amp; &lt;more&gt;\">\n"
    );
    assert_eq!(INKSCAPE_NS, "http://www.inkscape.org/namespaces/inkscape");
}

#[test]
fn centred_text_says_so() {
    assert_eq!(TextAnchor::BaselineStart.svg_attributes(), "");
    assert_eq!(
        TextAnchor::Center.svg_attributes(),
        " text-anchor=\"middle\" dominant-baseline=\"central\""
    );
}

#[test]
fn the_quad_layers_are_preview_only() {
    assert_eq!(PREVIEW_ONLY_LAYERS, [LAYER_QUADS_DEST, LAYER_QUADS_SRC]);
}

#[test]
fn ruler_labels_count_whole_units() {
    assert_eq!(ruler_label(0, Unit::Inch), "0in");
    assert_eq!(ruler_label(12, Unit::Cm), "12cm");
}
