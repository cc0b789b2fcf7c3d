use usvg_colr::painter::{GlyphPainter, GradientStop, LinearGradient, Paint, RadialGradient};
use usvg_colr::path::Builder;
use usvg_colr::style::{CompositeMode, Extend, MatrixText, Rgba};
use usvg_colr::xml::SvgWriter;
use xmlwriter::{Indent, Options, XmlWriter};

type Ts = [f32; 6];

const IDENTITY: Ts = [1.0, 0.0, 0.0, 1.0, 0.0, 0.0];

fn flat_writer() -> XmlWriter {
    XmlWriter::new(Options {
        use_single_quote: false,
        indent: Indent::None,
        attributes_indent: Indent::None,
    })
}

fn painter() -> GlyphPainter<Ts> {
    GlyphPainter::new(SvgWriter::new(flat_writer()), 0, IDENTITY)
}

fn output(p: GlyphPainter<Ts>) -> String {
    p.svg.into_inner().end_document()
}

fn matrix(v: [&str; 6]) -> MatrixText {
    MatrixText {
        a: v[0].to_string(),
        b: v[1].to_string(),
        c: v[2].to_string(),
        d: v[3].to_string(),
        e: v[4].to_string(),
        f: v[5].to_string(),
    }
}

fn triangle(p: &mut GlyphPainter<Ts>) {
    let mut b = Builder::new();
    b.move_to("0", "0");
    b.line_to("10", "0");
    b.line_to("5", "8");
    b.close();
    p.outline_glyph(b, true);
}

fn stop(offset: &str, color: Rgba, opacity: &str) -> GradientStop {
    GradientStop { offset: offset.to_string(), color, opacity: opacity.to_string() }
}

fn red() -> Rgba {
    Rgba { red: 255, green: 0, blue: 0, alpha: 255 }
}

fn blue() -> Rgba {
    Rgba { red: 0, green: 0, blue: 255, alpha: 51 }
}

fn linear(extend: Extend, transform: Option<MatrixText>) -> LinearGradient {
    LinearGradient {
        x0: "0".to_string(),
        y0: "1".to_string(),
        x1: "2".to_string(),
        y1: "3".to_string(),
        extend,
        transform,
        stops: vec![stop("0", red(), "1"), stop("1", blue(), "0.2")],
    }
}

fn radial() -> RadialGradient {
    RadialGradient {
        x0: "1".to_string(),
        y0: "2".to_string(),
        r0: "3".to_string(),
        x1: "4".to_string(),
        y1: "5".to_string(),
        r1: "6".to_string(),
        extend: Extend::Reflect,
        transform: None,
        stops: vec![stop("0.5", red(), "1")],
    }
}

#[test]
fn outline_glyph_takes_the_finished_outline() {
    let mut p = painter();
    p.push_transform([2.0, 0.0, 0.0, 2.0, 0.0, 0.0]);
    triangle(&mut p);
    assert_eq!(p.path_buf, "M 0 0 L 10 0 L 5 8 Z");
    assert_eq!(p.outline_transform, [2.0, 0.0, 0.0, 2.0, 0.0, 0.0]);
}

#[test]
fn outline_glyph_without_an_outline_keeps_the_outline_transform() {
    let mut p = painter();
    p.push_transform([2.0, 0.0, 0.0, 2.0, 0.0, 0.0]);
    let mut b = Builder::new();
    b.move_to("1", "1");
    p.outline_glyph(b, false);
    assert_eq!(p.path_buf, "M 1 1 ");
    assert_eq!(p.outline_transform, IDENTITY);
}

#[test]
fn push_clip_glyph_updates_the_outline_transform_only_when_found() {
    let mut p = painter();
    p.push_transform([3.0, 0.0, 0.0, 3.0, 1.0, 1.0]);
    p.push_clip_glyph(false);
    assert_eq!(p.outline_transform, IDENTITY);
    p.push_clip_glyph(true);
    assert_eq!(p.outline_transform, [3.0, 0.0, 0.0, 3.0, 1.0, 1.0]);
    assert_eq!(output(p), "");
}

#[test]
fn pop_transform_restores_the_pushed_one() {
    let mut p = painter();
    let a = [2.0, 0.0, 0.0, 2.0, 0.0, 0.0];
    let b = [1.0, 0.0, 0.0, 1.0, 5.0, 5.0];
    p.push_transform(a);
    p.push_transform(b);
    assert_eq!(p.transform, b);
    assert_eq!(p.transforms_stack, vec![IDENTITY, a]);
    p.pop_transform();
    assert_eq!(p.transform, a);
    p.pop_transform();
    assert_eq!(p.transform, IDENTITY);
    assert!(p.transforms_stack.is_empty());
}

#[test]
fn pop_transform_on_an_empty_stack_changes_nothing() {
    let mut p = painter();
    p.pop_transform();
    assert_eq!(p.transform, IDENTITY);
    assert!(p.transforms_stack.is_empty());
}

#[test]
fn paint_solid_writes_a_filled_path() {
    let mut p = painter();
    triangle(&mut p);
    p.paint_solid(&red(), "0.5", &None);
    assert_eq!(
        output(p),
        "<path fill=\"rgb(255, 0, 0)\" fill-opacity=\"0.5\" d=\"M 0 0 L 10 0 L 5 8 Z\"/>"
    );
}

#[test]
fn paint_solid_with_an_outline_transform() {
    let mut p = painter();
    triangle(&mut p);
    p.paint_solid(&blue(), "0.2", &Some(matrix(["2", "0", "0", "2", "0", "0"])));
    assert_eq!(
        output(p),
        "<path fill=\"rgb(0, 0, 255)\" fill-opacity=\"0.2\" transform=\"matrix(2 0 0 2 0 0)\" d=\"M 0 0 L 10 0 L 5 8 Z\"/>"
    );
}

#[test]
fn paint_linear_gradient_defines_and_uses_a_gradient() {
    let mut p = painter();
    triangle(&mut p);
    p.paint_linear_gradient(&linear(Extend::Pad, Some(matrix(["1", "0", "0", "1", "3", "4"]))), &None);
    assert_eq!(p.gradient_index, 1);
    assert_eq!(
        output(p),
        [
            "<linearGradient id=\"lg0\" x1=\"0\" y1=\"1\" x2=\"2\" y2=\"3\" gradientUnits=\"userSpaceOnUse\" ",
            "spreadMethod=\"pad\" gradientTransform=\"matrix(1 0 0 1 3 4)\">",
            "<stop offset=\"0\" stop-color=\"rgb(255, 0, 0)\" stop-opacity=\"1\"/>",
            "<stop offset=\"1\" stop-color=\"rgb(0, 0, 255)\" stop-opacity=\"0.2\"/>",
            "</linearGradient>",
            "<path fill=\"url(#lg0)\" d=\"M 0 0 L 10 0 L 5 8 Z\"/>"
        ].concat()
    );
}

#[test]
fn paint_linear_gradient_with_unknown_extend_writes_no_spread_method() {
    let mut p = painter();
    p.paint_linear_gradient(&linear(Extend::Unknown, None), &None);
    let out = output(p);
    assert!(!out.contains("spreadMethod"));
    assert!(out.starts_with("<linearGradient id=\"lg0\" x1=\"0\" y1=\"1\" x2=\"2\" y2=\"3\" gradientUnits=\"userSpaceOnUse\"><stop"));
}

#[test]
fn paint_radial_gradient_defines_and_uses_a_gradient() {
    let mut p = painter();
    triangle(&mut p);
    p.paint_radial_gradient(&radial(), &Some(matrix(["1", "0", "0", "1", "0", "0"])));
    assert_eq!(
        output(p),
        [
            "<radialGradient id=\"rg0\" cx=\"4\" cy=\"5\" r=\"6\" fr=\"3\" fx=\"1\" fy=\"2\" ",
            "gradientUnits=\"userSpaceOnUse\" spreadMethod=\"reflect\">",
            "<stop offset=\"0.5\" stop-color=\"rgb(255, 0, 0)\" stop-opacity=\"1\"/>",
            "</radialGradient>",
            "<path fill=\"url(#rg0)\" transform=\"matrix(1 0 0 1 0 0)\" d=\"M 0 0 L 10 0 L 5 8 Z\"/>"
        ].concat()
    );
}

#[test]
fn gradients_share_one_counter() {
    let mut p = painter();
    p.paint_linear_gradient(&linear(Extend::Pad, None), &None);
    p.paint_radial_gradient(&radial(), &None);
    p.paint_linear_gradient(&linear(Extend::Pad, None), &None);
    assert_eq!(p.gradient_index, 3);
    let out = output(p);
    assert!(out.contains("id=\"lg0\""));
    assert!(out.contains("id=\"rg1\""));
    assert!(out.contains("id=\"lg2\""));
    assert!(out.contains("fill=\"url(#rg1)\""));
}

#[test]
fn gradient_without_stops() {
    let mut p = painter();
    let g = LinearGradient {
        x0: "0".to_string(),
        y0: "0".to_string(),
        x1: "1".to_string(),
        y1: "1".to_string(),
        extend: Extend::Repeat,
        transform: None,
        stops: vec![],
    };
    p.paint_linear_gradient(&g, &None);
    assert_eq!(
        output(p),
        [
            "<linearGradient id=\"lg0\" x1=\"0\" y1=\"0\" x2=\"1\" y2=\"1\" gradientUnits=\"userSpaceOnUse\" spreadMethod=\"repeat\"/>",
            "<path fill=\"url(#lg0)\" d=\"\"/>"
        ].concat()
    );
}

#[test]
fn paint_dispatches_on_the_kind_of_paint() {
    let mut p = painter();
    triangle(&mut p);
    assert!(p.paint(&Paint::Solid { color: red(), opacity: "1".to_string() }, &None));
    assert!(p.paint(&Paint::LinearGradient(linear(Extend::Pad, None)), &None));
    assert!(p.paint(&Paint::RadialGradient(radial()), &None));
    assert_eq!(p.gradient_index, 2);
    let out = output(p);
    assert!(out.starts_with("<path fill=\"rgb(255, 0, 0)\" fill-opacity=\"1\""));
    assert!(out.contains("<linearGradient id=\"lg0\""));
    assert!(out.contains("<radialGradient id=\"rg1\""));
}

#[test]
fn sweep_gradients_are_not_drawn() {
    let mut p = painter();
    triangle(&mut p);
    assert!(!p.paint(&Paint::SweepGradient, &None));
    assert_eq!(p.gradient_index, 0);
    assert_eq!(output(p), "");
}

#[test]
fn push_clip_defines_a_clip_path_and_opens_a_group() {
    let mut p = painter();
    triangle(&mut p);
    p.push_clip(&Some(matrix(["1", "0", "0", "1", "0", "0"])));
    assert_eq!(p.clip_path_index, 1);
    p.paint_solid(&red(), "1", &None);
    p.pop_clip();
    assert_eq!(
        output(p),
        [
            "<clipPath id=\"cp0\"><path transform=\"matrix(1 0 0 1 0 0)\" d=\"M 0 0 L 10 0 L 5 8 Z\"/></clipPath>",
            "<g clip-path=\"url(#cp0)\">",
            "<path fill=\"rgb(255, 0, 0)\" fill-opacity=\"1\" d=\"M 0 0 L 10 0 L 5 8 Z\"/>",
            "</g>"
        ].concat()
    );
}

#[test]
fn push_clip_box_clips_by_a_rectangle() {
    let mut p = painter();
    p.push_clip_box("0", "1", "10", "20", &None);
    p.pop_clip();
    p.push_clip_box("0", "0", "1", "1", &None);
    p.pop_clip();
    assert_eq!(p.clip_path_index, 2);
    assert_eq!(
        output(p),
        [
            "<clipPath id=\"cp0\"><path d=\"M 0 1 L 10 1 L 10 20 L 0 20 Z\"/></clipPath>",
            "<g clip-path=\"url(#cp0)\"/>",
            "<clipPath id=\"cp1\"><path d=\"M 0 0 L 1 0 L 1 1 L 0 1 Z\"/></clipPath>",
            "<g clip-path=\"url(#cp1)\"/>"
        ].concat()
    );
}

#[test]
fn push_layer_opens_a_blended_group() {
    let mut p = painter();
    assert!(p.push_layer(CompositeMode::Screen));
    p.pop_layer();
    assert!(!p.push_layer(CompositeMode::Plus));
    p.pop_layer();
    assert_eq!(
        output(p),
        [
            "<g style=\"mix-blend-mode: screen; isolation: isolate\"/>",
            "<g style=\"mix-blend-mode: normal; isolation: isolate\"/>"
        ].concat()
    );
}

#[test]
fn nested_layers_and_clips_with_indentation() {
    let mut p = GlyphPainter::new(SvgWriter::new(XmlWriter::new(Options::default())), 0, IDENTITY);
    triangle(&mut p);
    p.push_layer(CompositeMode::SourceOver);
    p.paint_solid(&red(), "1", &None);
    p.pop_layer();
    assert_eq!(
        output(p),
        "<g style=\"mix-blend-mode: normal; isolation: isolate\">\n    <path fill=\"rgb(255, 0, 0)\" fill-opacity=\"1\" d=\"M 0 0 L 10 0 L 5 8 Z\"/>\n</g>\n"
    );
}

#[test]
fn svg_writer_helpers() {
    let mut w = SvgWriter::new(flat_writer());
    w.start_element("rect");
    w.write_color_attribute("fill", &Rgba { red: 1, green: 2, blue: 3, alpha: 4 });
    w.write_transform_attribute("transform", &None);
    w.write_transform_attribute("t", &Some(matrix(["a", "b", "c", "d", "e", "f"])));
    w.write_spread_method_attribute(Extend::Unknown);
    w.write_spread_method_attribute(Extend::Repeat);
    w.end_element();
    assert_eq!(
        w.into_inner().end_document(),
        "<rect fill=\"rgb(1, 2, 3)\" t=\"matrix(a b c d e f)\" spreadMethod=\"repeat\"/>"
    );
}

#[test]
fn attribute_values_with_quotes_are_escaped_by_the_writer() {
    let mut w = SvgWriter::new(flat_writer());
    w.start_element("text");
    w.write_attribute("title", "say \"hi\"");
    w.end_element();
    assert_eq!(w.into_inner().end_document(), "<text title=\"say &quot;hi&quot;\"/>");
}

#[test]
fn identity_transform_writes_nothing_with_default_options() {
    let mut w = SvgWriter::new(XmlWriter::new(Options::default()));
    w.start_element("path");
    w.write_transform_attribute("transform", &None);
    assert_eq!(w.into_inner().end_document(), "<path/>\n");
}

#[test]
fn spread_method_reflect_with_default_options() {
    let mut w = SvgWriter::new(XmlWriter::new(Options::default()));
    w.start_element("linearGradient");
    w.write_spread_method_attribute(Extend::Reflect);
    assert_eq!(w.into_inner().end_document(), "<linearGradient spreadMethod=\"reflect\"/>\n");
}

#[test]
fn color_attribute_leaves_out_alpha_with_default_options() {
    let mut w = SvgWriter::new(XmlWriter::new(Options::default()));
    w.start_element("path");
    w.write_color_attribute("fill", &Rgba { red: 255, green: 0, blue: 128, alpha: 10 });
    assert_eq!(w.into_inner().end_document(), "<path fill=\"rgb(255, 0, 128)\"/>\n");
}

#[test]
fn push_nested_pairs_then_pop_restores() {
    let mut p = painter();
    let a = [2.0, 0.0, 0.0, 2.0, 0.0, 0.0];
    let b = [1.0, 0.0, 0.0, 1.0, 5.0, 5.0];
    p.push_transform(a);
    p.push_transform(b);
    p.push_transform(a);
    p.pop_transform();
    p.pop_transform();
    p.push_transform(b);
    p.pop_transform();
    p.pop_transform();
    assert_eq!(p.transform, IDENTITY);
    assert!(p.transforms_stack.is_empty());
}

#[test]
fn layer_encloses_a_clip_and_a_paint() {
    let mut p = painter();
    triangle(&mut p);
    p.push_layer(CompositeMode::Multiply);
    p.push_clip(&None);
    p.paint(&Paint::LinearGradient(linear(Extend::Pad, None)), &None);
    p.pop_clip();
    p.pop_layer();
    let out = output(p);
    assert!(out.starts_with("<g style=\"mix-blend-mode: multiply; isolation: isolate\"><clipPath id=\"cp0\">"));
    assert!(out.ends_with("<path fill=\"url(#lg0)\" d=\"M 0 0 L 10 0 L 5 8 Z\"/></g></g>"));
}

#[test]
fn solid_paint_at_a_full_gradient_counter_is_drawn() {
    let mut p = painter();
    p.gradient_index = usize::MAX;
    assert!(p.paint(&Paint::Solid { color: red(), opacity: "1".to_string() }, &None));
    assert_eq!(p.gradient_index, usize::MAX);
}
