use ellipsoid::document::{
    paint_attrs, to_svg, write_item, SvgColor, SvgItem, SvgLayer, SvgPaint, SvgScene, SvgStroke, SvgText,
};
use ellipsoid::scene::TextAnchor;
use ellipsoid::svg::SvgOptions;

fn s(text: &str) -> String {
    text.to_string()
}

fn black() -> SvgColor {
    SvgColor { rgb: s("rgb(0,0,0)"), opacity: None }
}

fn scene() -> SvgScene {
    let outline = SvgItem::Path {
        points: vec![(s("0"), s("0")), (s("1"), s("2"))],
        closed: true,
        paint: SvgPaint { stroke: Some(SvgStroke { color: black(), width: s("0.01") }), fill: None },
    };
    let nothing = SvgItem::Path {
        points: vec![],
        closed: false,
        paint: SvgPaint { stroke: None, fill: None },
    };
    let boxed = SvgItem::Group(vec![SvgItem::Rect {
        x: s("1"),
        y: s("2"),
        width: s("3"),
        height: s("4"),
        paint: SvgPaint { stroke: None, fill: Some(SvgColor { rgb: s("rgb(255,0,0)"), opacity: Some(s("0.5")) }) },
    }]);
    let label = SvgItem::Text(SvgText {
        x: s("1"),
        y: s("2"),
        content: s("a<b"),
        font_family: s("sans-serif"),
        font_size: s("0.2"),
        fill: s("rgb(0,0,0)"),
        anchor: TextAnchor::Center,
        rotation: Some(s("90")),
    });
    SvgScene {
        min_x: s("0"),
        min_y: s("0"),
        width: s("10"),
        height: s("5"),
        layers: vec![
            SvgLayer { name: s("Ellipsoid Pattern"), items: vec![outline, nothing, boxed] },
            SvgLayer { name: s("Notes"), items: vec![label] },
        ],
    }
}

const BODY: &str = r#"    <path d="M0,0 L1,2 Z" fill="none" stroke="rgb(0,0,0)" stroke-width="0.01"/>
    <g>
      <rect x="1" y="2" width="3" height="4" fill="rgb(255,0,0)" fill-opacity="0.5"/>
    </g>
"#;

const NOTE: &str = r#"    <text x="1" y="2" font-family="sans-serif" font-size="0.2" fill="rgb(0,0,0)" text-anchor="middle" dominant-baseline="central" transform="rotate(90,1,2)">a&lt;b</text>
"#;

#[test]
fn a_plain_document_is_written_exactly() {
    let svg = to_svg(&scene(), &SvgOptions { inkscape_layers: false });
    let expected = format!(
        "<?xml version=\"1.0\" encoding=\"UTF-8\" standalone=\"no\"?>\n\
         <svg xmlns=\"http://www.w3.org/2000/svg\" xmlns:xlink=\"http://www.w3.org/1999/xlink\" \
         width=\"10\" height=\"5\" viewBox=\"0 0 10 5\">\n  <g id=\"Ellipsoid Pattern\">\n{BODY}  </g>\n  \
         <g id=\"Notes\">\n{NOTE}  </g>\n</svg>\n"
    );
    assert_eq!(svg, expected);
}

#[test]
fn inkscape_mode_tags_layers_and_declares_the_namespaces() {
    let svg = to_svg(&scene(), &SvgOptions { inkscape_layers: true });
    assert!(svg.contains(
        " xmlns:inkscape=\"http://www.inkscape.org/namespaces/inkscape\" \
         xmlns:sodipodi=\"http://sodipodi.sourceforge.net/DTD/sodipodi-0.0.dtd\" width=\"10\""
    ));
    assert!(svg.contains("<g id=\"Notes\" inkscape:groupmode=\"layer\" inkscape:label=\"Notes\">\n"));
    let plain = to_svg(&scene(), &SvgOptions { inkscape_layers: false });
    assert!(!plain.contains("inkscape"));
    assert!(!plain.contains("sodipodi"));
}

#[test]
fn output_is_byte_stable() {
    let options = SvgOptions { inkscape_layers: true };
    assert_eq!(to_svg(&scene(), &options), to_svg(&scene(), &options));
}

#[test]
fn an_empty_scene_is_just_the_frame() {
    let empty = SvgScene { min_x: s("0"), min_y: s("0"), width: s("0"), height: s("0"), layers: vec![] };
    assert_eq!(
        to_svg(&empty, &SvgOptions::default()),
        "<?xml version=\"1.0\" encoding=\"UTF-8\" standalone=\"no\"?>\n\
         <svg xmlns=\"http://www.w3.org/2000/svg\" xmlns:xlink=\"http://www.w3.org/1999/xlink\" \
         width=\"0\" height=\"0\" viewBox=\"0 0 0 0\">\n</svg>\n"
    );
}

#[test]
fn translucent_fill_emits_separate_opacity() {
    let mut out = String::new();
    let paint = SvgPaint {
        stroke: Some(SvgStroke { color: SvgColor { rgb: s("rgb(1,2,3)"), opacity: Some(s("0.25")) }, width: s("2") }),
        fill: Some(SvgColor { rgb: s("rgb(4,5,6)"), opacity: Some(s("0.5")) }),
    };
    paint_attrs(&mut out, &paint);
    assert_eq!(
        out,
        " fill=\"rgb(4,5,6)\" fill-opacity=\"0.5\" stroke=\"rgb(1,2,3)\" stroke-width=\"2\" stroke-opacity=\"0.25\""
    );
}

#[test]
fn nested_groups_indent_one_step_each_and_upright_text_has_no_transform() {
    let mut out = String::from("x");
    let inner = SvgItem::Text(SvgText {
        x: s("0"),
        y: s("1"),
        content: s("Tom & \"Jerry\""),
        font_family: s("Fira 'Sans'"),
        font_size: s("3"),
        fill: s("rgb(0,0,0)"),
        anchor: TextAnchor::BaselineStart,
        rotation: None,
    });
    let item = SvgItem::Group(vec![SvgItem::Group(vec![inner])]);
    write_item(&mut out, &item, &s(""));
    assert_eq!(
        out,
        "x<g>\n  <g>\n    <text x=\"0\" y=\"1\" font-family=\"Fira &apos;Sans&apos;\" font-size=\"3\" \
         fill=\"rgb(0,0,0)\">Tom &amp; &quot;Jerry&quot;</text>\n  </g>\n</g>\n"
    );
}
