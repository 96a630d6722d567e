//! The SVG document: named layers of paths, rectangles, text and groups.
//!
//! Every number arrives already written out (see [`crate::svg::trim_fixed`]),
//! so what is decided here is the document's shape: which elements and
//! attributes appear, in what order, how they nest and indent, and what is
//! escaped. The output is deterministic: the same scene always gives the same
//! bytes.

use vstd::prelude::*;
use crate::scene::TextAnchor;
use crate::svg::{escape, escaped, layer_open_tag, layer_open_text, path_data, path_text, points_view};
use crate::svg::{SvgOptions, INKSCAPE_NS, SODIPODI_NS};

verus! {

/// A colour as written: its `rgb(..)` text and, for a translucent colour,
/// its opacity.
#[derive(Debug)]
pub struct SvgColor {
    pub rgb: String,
    pub opacity: Option<String>,
}

/// An outline's colour and width.
#[derive(Debug)]
pub struct SvgStroke {
    pub color: SvgColor,
    pub width: String,
}

/// How a shape is painted: its outline, if any, and its fill, if any.
#[derive(Debug)]
pub struct SvgPaint {
    pub stroke: Option<SvgStroke>,
    pub fill: Option<SvgColor>,
}

/// A run of text at a point.
#[derive(Debug)]
pub struct SvgText {
    pub x: String,
    pub y: String,
    pub content: String,
    pub font_family: String,
    pub font_size: String,
    /// The fill's `rgb(..)` text.
    pub fill: String,
    pub anchor: TextAnchor,
    /// The rotation in degrees about the text's position, unless it is
    /// upright.
    pub rotation: Option<String>,
}

/// One element of a layer.
#[derive(Debug)]
pub enum SvgItem {
    /// A polyline through written-out `(x, y)` points.
    Path { points: Vec<(String, String)>, closed: bool, paint: SvgPaint },
    /// An axis-aligned rectangle.
    Rect { x: String, y: String, width: String, height: String, paint: SvgPaint },
    Text(SvgText),
    /// Elements kept together.
    Group(Vec<SvgItem>),
}

/// A named layer.
#[derive(Debug)]
pub struct SvgLayer {
    pub name: String,
    pub items: Vec<SvgItem>,
}

/// The whole drawing, with the view box that frames it.
#[derive(Debug)]
pub struct SvgScene {
    pub min_x: String,
    pub min_y: String,
    pub width: String,
    pub height: String,
    pub layers: Vec<SvgLayer>,
}

/// An opacity attribute, when there is an opacity to state.
pub open spec fn opacity_text(open: Seq<char>, opacity: Option<String>) -> Seq<char> {
    match opacity {
        Some(o) => open + o@ + "\""@,
        None => seq![],
    }
}

/// The fill and stroke attributes of a shape. A shape with no fill says so,
/// since the default fill is black; one with no stroke says nothing.
pub open spec fn paint_text(paint: SvgPaint) -> Seq<char> {
    let fill = match paint.fill {
        Some(c) => " fill=\""@ + c.rgb@ + "\""@ + opacity_text(" fill-opacity=\""@, c.opacity),
        None => " fill=\"none\""@,
    };
    let stroke = match paint.stroke {
        Some(s) => " stroke=\""@ + s.color.rgb@ + "\""@ + " stroke-width=\""@ + s.width@ + "\""@
            + opacity_text(" stroke-opacity=\""@, s.color.opacity),
        None => seq![],
    };
    fill + stroke
}

/// The rotation attribute of a text, about its own position.
pub open spec fn rotation_text(t: SvgText) -> Seq<char> {
    match t.rotation {
        Some(r) => " transform=\"rotate("@ + r@ + ","@ + t.x@ + ","@ + t.y@ + ")\""@,
        None => seq![],
    }
}

/// A text element on a line of its own; the font family and the content
/// are escaped.
pub open spec fn text_line(t: SvgText, pad: Seq<char>) -> Seq<char> {
    pad + "<text x=\""@ + t.x@ + "\" y=\""@ + t.y@ + "\" font-family=\""@ + escaped(t.font_family@)
        + "\" font-size=\""@ + t.font_size@ + "\" fill=\""@ + t.fill@ + "\""@ + t.anchor.anchor_text()
        + rotation_text(t) + ">"@ + escaped(t.content@) + "</text>\n"@
}

/// An element written at indentation `pad`: one line per path, rectangle
/// or text, nothing for a path without points, and a group's children
/// between its tags, indented one step further.
pub open spec fn item_text(item: SvgItem, pad: Seq<char>) -> Seq<char>
    decreases item,
{
    match item {
        SvgItem::Path { points, closed, paint } => if points.len() == 0 {
            seq![]
        } else {
            pad + "<path d=\""@ + path_text(points_view(points@), closed) + "\""@ + paint_text(paint) + "/>\n"@
        },
        SvgItem::Rect { x, y, width, height, paint } => pad + "<rect x=\""@ + x@ + "\" y=\""@ + y@
            + "\" width=\""@ + width@ + "\" height=\""@ + height@ + "\""@ + paint_text(paint) + "/>\n"@,
        SvgItem::Text(t) => text_line(t, pad),
        SvgItem::Group(children) => pad + "<g>\n"@ + items_text(children@, pad + "  "@) + pad + "</g>\n"@,
    }
}

/// Elements written one after the other at indentation `pad`.
pub open spec fn items_text(items: Seq<SvgItem>, pad: Seq<char>) -> Seq<char>
    decreases items,
{
    if items.len() == 0 {
        seq![]
    } else {
        items_text(items.drop_last(), pad) + item_text(items.last(), pad)
    }
}

/// A layer: its group's opening tag, its elements two steps in, and the
/// closing tag.
pub open spec fn layer_text(layer: SvgLayer, inkscape: bool) -> Seq<char> {
    layer_open_text(layer.name@, inkscape) + items_text(layer.items@, "    "@) + "  </g>\n"@
}

/// Layers written one after the other.
pub open spec fn layers_text(layers: Seq<SvgLayer>, inkscape: bool) -> Seq<char>
    decreases layers.len(),
{
    if layers.len() == 0 {
        seq![]
    } else {
        layers_text(layers.drop_last(), inkscape) + layer_text(layers.last(), inkscape)
    }
}

/// The XML declaration and the opening `svg` tag: the namespaces (Inkscape's
/// two only in Inkscape mode), the size, and a view box that hugs the
/// drawing.
pub open spec fn header_text(scene: SvgScene, inkscape: bool) -> Seq<char> {
    "<?xml version=\"1.0\" encoding=\"UTF-8\" standalone=\"no\"?>\n"@
        + "<svg xmlns=\"http://www.w3.org/2000/svg\""@
        + " xmlns:xlink=\"http://www.w3.org/1999/xlink\""@
        + (if inkscape {
            " xmlns:inkscape=\""@ + INKSCAPE_NS@ + "\""@ + " xmlns:sodipodi=\""@ + SODIPODI_NS@ + "\""@
        } else {
            seq![]
        })
        + " width=\""@ + scene.width@ + "\" height=\""@ + scene.height@ + "\" viewBox=\""@
        + scene.min_x@ + " "@ + scene.min_y@ + " "@ + scene.width@ + " "@ + scene.height@ + "\">\n"@
}

/// The whole document.
pub open spec fn document_text(scene: SvgScene, inkscape: bool) -> Seq<char> {
    header_text(scene, inkscape) + layers_text(scene.layers@, inkscape) + "</svg>\n"@
}

/// Appends a string.
fn push_str(out: &mut String, s: &String)
    ensures
        final(out)@ == old(out)@ + s@,
{
    out.append(s.as_str());
}

/// Appends an opacity attribute, when there is one.
fn opacity_attr(out: &mut String, open: &str, opacity: &Option<String>)
    ensures
        final(out)@ == old(out)@ + opacity_text(open@, *opacity),
{
    match opacity {
        Some(o) => {
            out.append(open);
            push_str(out, o);
            out.append("\"");
        },
        None => {
            assert(old(out)@ + seq![] =~= old(out)@);
        },
    }
}

/// Appends the fill and stroke attributes of a shape.
pub fn paint_attrs(out: &mut String, paint: &SvgPaint)
    ensures
        final(out)@ == old(out)@ + paint_text(*paint),
{
    let ghost start = out@;
    match &paint.fill {
        Some(c) => {
            out.append(" fill=\"");
            push_str(out, &c.rgb);
            out.append("\"");
            opacity_attr(out, " fill-opacity=\"", &c.opacity);
        },
        None => {
            out.append(" fill=\"none\"");
        },
    }
    match &paint.stroke {
        Some(s) => {
            out.append(" stroke=\"");
            push_str(out, &s.color.rgb);
            out.append("\"");
            out.append(" stroke-width=\"");
            push_str(out, &s.width);
            out.append("\"");
            opacity_attr(out, " stroke-opacity=\"", &s.color.opacity);
        },
        None => {},
    }
    assert(out@ =~= start + paint_text(*paint));
}

/// Appends a text element.
fn write_text(out: &mut String, t: &SvgText, pad: &String)
    ensures
        final(out)@ == old(out)@ + text_line(*t, pad@),
{
    let ghost start = out@;
    push_str(out, pad);
    out.append("<text x=\"");
    push_str(out, &t.x);
    out.append("\" y=\"");
    push_str(out, &t.y);
    out.append("\" font-family=\"");
    let family = escape(t.font_family.as_str());
    push_str(out, &family);
    out.append("\" font-size=\"");
    push_str(out, &t.font_size);
    out.append("\" fill=\"");
    push_str(out, &t.fill);
    out.append("\"");
    out.append(t.anchor.svg_attributes());
    match &t.rotation {
        Some(r) => {
            out.append(" transform=\"rotate(");
            push_str(out, r);
            out.append(",");
            push_str(out, &t.x);
            out.append(",");
            push_str(out, &t.y);
            out.append(")\"");
        },
        None => {},
    }
    out.append(">");
    let content = escape(t.content.as_str());
    push_str(out, &content);
    out.append("</text>\n");
    assert(out@ =~= start + text_line(*t, pad@));
}

/// Appends one element, indented by `pad`.
pub fn write_item(out: &mut String, item: &SvgItem, pad: &String)
    ensures
        final(out)@ == old(out)@ + item_text(*item, pad@),
    decreases item,
{
    let ghost start = out@;
    match item {
        SvgItem::Path { points, closed, paint } => {
            if points.len() == 0 {
                assert(start + seq![] =~= start);
                return;
            }
            let d = path_data(points, *closed);
            push_str(out, pad);
            out.append("<path d=\"");
            push_str(out, &d);
            out.append("\"");
            paint_attrs(out, paint);
            out.append("/>\n");
            assert(out@ =~= start + item_text(*item, pad@));
        },
        SvgItem::Rect { x, y, width, height, paint } => {
            push_str(out, pad);
            out.append("<rect x=\"");
            push_str(out, x);
            out.append("\" y=\"");
            push_str(out, y);
            out.append("\" width=\"");
            push_str(out, width);
            out.append("\" height=\"");
            push_str(out, height);
            out.append("\"");
            paint_attrs(out, paint);
            out.append("/>\n");
            assert(out@ =~= start + item_text(*item, pad@));
        },
        SvgItem::Text(t) => {
            write_text(out, t, pad);
        },
        SvgItem::Group(children) => {
            push_str(out, pad);
            out.append("<g>\n");
            let mut inner = pad.clone();
            inner.append("  ");
            let ghost opened = out@;
            let mut i: usize = 0;
            assert(children@.take(0) =~= Seq::<SvgItem>::empty());
            while i < children.len()
                invariant
                    i <= children.len(),
                    *item == SvgItem::Group(*children),
                    inner@ == pad@ + "  "@,
                    out@ == opened + items_text(children@.take(i as int), inner@),
                decreases children.len() - i,
            {
                proof {
                    assert(decreases_to!(*item => (*item)->Group_0));
                    assert((*item)->Group_0 == *children);
                }
                write_item(out, &children[i], &inner);
                assert(children@.take(i as int + 1).drop_last() =~= children@.take(i as int));
                assert(children@.take(i as int + 1).last() == children@[i as int]);
                assert(out@ =~= opened + items_text(children@.take(i as int + 1), inner@));
                i = i + 1;
            }
            assert(children@.take(children.len() as int) =~= children@);
            push_str(out, pad);
            out.append("</g>\n");
            assert(out@ =~= start + item_text(*item, pad@));
        },
    }
}

/// Appends a layer.
fn write_layer(out: &mut String, layer: &SvgLayer, inkscape: bool)
    ensures
        final(out)@ == old(out)@ + layer_text(*layer, inkscape),
{
    let ghost start = out@;
    let open = layer_open_tag(layer.name.as_str(), inkscape);
    push_str(out, &open);
    let mut pad = String::new();
    pad.append("    ");
    let ghost opened = out@;
    let items = &layer.items;
    let mut i: usize = 0;
    assert(items@.take(0) =~= Seq::<SvgItem>::empty());
    while i < items.len()
        invariant
            i <= items.len(),
            pad@ == "    "@,
            out@ == opened + items_text(items@.take(i as int), pad@),
        decreases items.len() - i,
    {
        write_item(out, &items[i], &pad);
        assert(items@.take(i as int + 1).drop_last() =~= items@.take(i as int));
        assert(items@.take(i as int + 1).last() == items@[i as int]);
        assert(out@ =~= opened + items_text(items@.take(i as int + 1), pad@));
        i = i + 1;
    }
    assert(items@.take(items.len() as int) =~= items@);
    out.append("  </g>\n");
    assert(out@ =~= start + layer_text(*layer, inkscape));
}

/// The scene as a standalone SVG document.
pub fn to_svg(scene: &SvgScene, options: &SvgOptions) -> (svg: String)
    ensures
        svg@ == document_text(*scene, options.inkscape_layers),
{
    let inkscape = options.inkscape_layers;
    let mut out = String::new();
    out.append("<?xml version=\"1.0\" encoding=\"UTF-8\" standalone=\"no\"?>\n");
    out.append("<svg xmlns=\"http://www.w3.org/2000/svg\"");
    out.append(" xmlns:xlink=\"http://www.w3.org/1999/xlink\"");
    if inkscape {
        out.append(" xmlns:inkscape=\"");
        out.append(INKSCAPE_NS);
        out.append("\"");
        out.append(" xmlns:sodipodi=\"");
        out.append(SODIPODI_NS);
        out.append("\"");
    }
    out.append(" width=\"");
    push_str(&mut out, &scene.width);
    out.append("\" height=\"");
    push_str(&mut out, &scene.height);
    out.append("\" viewBox=\"");
    push_str(&mut out, &scene.min_x);
    out.append(" ");
    push_str(&mut out, &scene.min_y);
    out.append(" ");
    push_str(&mut out, &scene.width);
    out.append(" ");
    push_str(&mut out, &scene.height);
    out.append("\">\n");
    assert(out@ =~= header_text(*scene, inkscape));
    let ghost header = out@;
    let layers = &scene.layers;
    let mut i: usize = 0;
    assert(layers@.take(0) =~= Seq::<SvgLayer>::empty());
    while i < layers.len()
        invariant
            i <= layers.len(),
            out@ == header + layers_text(layers@.take(i as int), inkscape),
        decreases layers.len() - i,
    {
        write_layer(&mut out, &layers[i], inkscape);
        assert(layers@.take(i as int + 1).drop_last() =~= layers@.take(i as int));
        assert(layers@.take(i as int + 1).last() == layers@[i as int]);
        assert(out@ =~= header + layers_text(layers@.take(i as int + 1), inkscape));
        i = i + 1;
    }
    assert(layers@.take(layers.len() as int) =~= layers@);
    out.append("</svg>\n");
    assert(out@ =~= document_text(*scene, inkscape));
    out
}

/// The first `j` layers' text is where the first `n` layers' text begins.
proof fn lemma_layers_text_prefix(layers: Seq<SvgLayer>, inkscape: bool, j: nat, n: nat)
    requires
        j <= n <= layers.len(),
    ensures
        layers_text(layers.take(n as int), inkscape).len() >= layers_text(layers.take(j as int), inkscape).len(),
        layers_text(layers.take(n as int), inkscape).take(layers_text(layers.take(j as int), inkscape).len() as int)
            == layers_text(layers.take(j as int), inkscape),
    decreases n - j,
{
    let short = layers_text(layers.take(j as int), inkscape);
    if j < n {
        lemma_layers_text_prefix(layers, inkscape, j, (n - 1) as nat);
        let mid = layers_text(layers.take(n - 1), inkscape);
        assert(layers.take(n as int).drop_last() =~= layers.take(n - 1));
        let long = layers_text(layers.take(n as int), inkscape);
        assert(long == mid + layer_text(layers.take(n as int).last(), inkscape));
        assert(long.take(short.len() as int) =~= mid.take(short.len() as int));
    } else {
        assert(layers_text(layers.take(n as int), inkscape).take(short.len() as int) =~= short);
    }
}

/// The document is its header, then each layer in turn as a group
/// identified by the layer's name, then the closing tag: layer `i` stands
/// right after the header and the layers before it, and opens with the
/// tag that carries its escaped name as the group's id.
pub proof fn law_document_is_framed_layers(scene: SvgScene, inkscape: bool, i: int)
    requires
        0 <= i < scene.layers@.len(),
    ensures
        ({
            let doc = document_text(scene, inkscape);
            let layers = scene.layers@;
            let at = (header_text(scene, inkscape).len() + layers_text(layers.take(i), inkscape).len()) as int;
            let layer = layer_text(layers[i], inkscape);
            &&& doc.take(header_text(scene, inkscape).len() as int) == header_text(scene, inkscape)
            &&& doc.skip(doc.len() - 7) == "</svg>\n"@
            &&& at + layer.len() <= doc.len()
            &&& doc.subrange(at, at + layer.len() as int) == layer
            &&& layer.take(layer_open_text(layers[i].name@, inkscape).len() as int)
                == layer_open_text(layers[i].name@, inkscape)
        }),
{
    reveal_strlit("</svg>\n");
    let doc = document_text(scene, inkscape);
    let layers = scene.layers@;
    let header = header_text(scene, inkscape);
    let all = layers_text(layers, inkscape);
    let before = layers_text(layers.take(i), inkscape);
    let layer = layer_text(layers[i], inkscape);
    assert(layers.take(layers.len() as int) =~= layers);
    lemma_layers_text_prefix(layers, inkscape, (i + 1) as nat, layers.len());
    assert(layers.take(i + 1).drop_last() =~= layers.take(i));
    assert(layers.take(i + 1).last() == layers[i]);
    let upto = layers_text(layers.take(i + 1), inkscape);
    assert(upto == before + layer);
    assert(all.take(upto.len() as int) == upto);
    assert(doc =~= header + all + "</svg>\n"@);
    assert(doc.take(header.len() as int) =~= header);
    assert(doc.skip(doc.len() - 7) =~= "</svg>\n"@);
    let at = (header.len() + before.len()) as int;
    assert(doc.subrange(at, at + layer.len() as int) =~= layer) by {
        assert forall|k: int| 0 <= k < layer.len() implies doc[at + k] == layer[k] by {
            assert(doc[at + k] == all[before.len() + k]);
            assert(all[before.len() + k] == all.take(upto.len() as int)[before.len() + k]);
            assert(upto[before.len() + k] == layer[k]);
        }
    }
    let open = layer_open_text(layers[i].name@, inkscape);
    assert(layer.take(open.len() as int) =~= open);
}

/// Whether `part` occurs in `whole`, starting at `at`.
pub open spec fn occurs_at(whole: Seq<char>, part: Seq<char>, at: int) -> bool {
    0 <= at && at + part.len() <= whole.len() && whole.subrange(at, at + part.len() as int) == part
}

/// `b` occurs in `a + b + c` right after `a`.
proof fn lemma_occurs_in_middle(a: Seq<char>, b: Seq<char>, c: Seq<char>)
    ensures
        occurs_at(a + b + c, b, a.len() as int),
{
    assert((a + b + c).subrange(a.len() as int, (a.len() + b.len()) as int) =~= b);
}

/// In Inkscape mode the document declares Inkscape's namespace in its
/// header, and, when it has layers, marks its first layer's group as an
/// Inkscape layer.
#[verifier::spinoff_prover]
#[verifier::rlimit(40)]
pub proof fn law_inkscape_mode_declares_and_tags(scene: SvgScene)
    ensures
        exists|at: int| occurs_at(document_text(scene, true), " xmlns:inkscape=\""@ + INKSCAPE_NS@ + "\""@, at),
        scene.layers@.len() > 0 ==> exists|at: int|
            occurs_at(document_text(scene, true), " inkscape:groupmode=\"layer\" inkscape:label=\""@, at),
{
    let doc = document_text(scene, true);
    let decl = " xmlns:inkscape=\""@ + INKSCAPE_NS@ + "\""@;
    let lead = "<?xml version=\"1.0\" encoding=\"UTF-8\" standalone=\"no\"?>\n"@
        + "<svg xmlns=\"http://www.w3.org/2000/svg\""@ + " xmlns:xlink=\"http://www.w3.org/1999/xlink\""@;
    let header = header_text(scene, true);
    let after = doc.skip((lead.len() + decl.len()) as int);
    assert(doc =~= lead + decl + after) by {
        assert(header =~= lead + decl + header.skip((lead.len() + decl.len()) as int));
        assert(doc =~= header + layers_text(scene.layers@, true) + "</svg>\n"@);
    }
    lemma_occurs_in_middle(lead, decl, after);
    assert(occurs_at(doc, decl, lead.len() as int));
    if scene.layers@.len() > 0 {
        law_document_is_framed_layers(scene, true, 0);
        let layers = scene.layers@;
        let at = (header.len() + layers_text(layers.take(0), true).len()) as int;
        let layer = layer_text(layers[0], true);
        let open = layer_open_text(layers[0].name@, true);
        let tag = " inkscape:groupmode=\"layer\" inkscape:label=\""@;
        let front = "  <g id=\""@ + escaped(layers[0].name@) + "\""@;
        assert(open =~= front + tag + open.skip((front.len() + tag.len()) as int));
        lemma_occurs_in_middle(front, tag, open.skip((front.len() + tag.len()) as int));
        assert(layer.take(open.len() as int) == open);
        let p = at + front.len();
        assert(occurs_at(doc, tag, p)) by {
            assert forall|k: int| 0 <= k < tag.len() implies doc.subrange(p, p + tag.len() as int)[k] == tag[k] by {
                assert(doc.subrange(at, at + layer.len() as int)[front.len() + k] == doc[p + k]);
                assert(layer[front.len() + k] == open[front.len() + k]);
                assert(open[front.len() + k] == tag[k]);
            }
            assert(doc.subrange(p, p + tag.len() as int) =~= tag);
        }
    }
}

} // verus!
