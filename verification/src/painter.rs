//! The glyph painter: the state that COLR paint operations act on, and the SVG each of
//! them writes.
//!
//! Transforms are of a type `T` chosen by the caller; the painter only stores, saves and
//! restores them. Coordinates, offsets, opacities and matrix entries arrive rendered as
//! text. The painter's contracts state the exact sequence of writer calls each
//! operation makes, over `SvgWriter::calls`.

use vstd::prelude::*;
use crate::path::{finished, Builder};
use crate::style::{
    blend_keyword, clip_box_path, matrix_text, spread_keyword, clip_box_text, element_id, id_text, layer_style,
    layer_style_text, rgb_text, url_reference, url_text, CompositeMode, Extend, MatrixText, Rgba,
};
use crate::xml::{
    calls_written, joined_calls, law_written_concat, lemma_written_chain, lemma_written_empty,
    balanced, depth_after, element, lemma_attributes_concat, lemma_attributes_neutral,
    lemma_balanced_neutral, lemma_element, lemma_neutral_balanced, lemma_neutral_concat, neutral,
    spread_calls, transform_calls, SvgWriter, XmlCall,
};

verus! {

/// One colour stop of a gradient.
#[derive(Debug)]
pub struct GradientStop {
    /// The stop offset, rendered as text.
    pub offset: String,
    /// The stop colour.
    pub color: Rgba,
    /// The stop opacity, rendered as text.
    pub opacity: String,
}

/// A linear gradient from `(x0, y0)` to `(x1, y1)`.
#[derive(Debug)]
pub struct LinearGradient {
    pub x0: String,
    pub y0: String,
    pub x1: String,
    pub y1: String,
    pub extend: Extend,
    /// The gradient transform; `None` for the identity.
    pub transform: Option<MatrixText>,
    pub stops: Vec<GradientStop>,
}

/// A radial gradient from the circle `(x0, y0, r0)` to the circle `(x1, y1, r1)`.
#[derive(Debug)]
pub struct RadialGradient {
    pub x0: String,
    pub y0: String,
    pub r0: String,
    pub x1: String,
    pub y1: String,
    pub r1: String,
    pub extend: Extend,
    /// The gradient transform; `None` for the identity.
    pub transform: Option<MatrixText>,
    pub stops: Vec<GradientStop>,
}

/// What fills the current outline.
#[derive(Debug)]
pub enum Paint {
    /// A solid colour with an opacity rendered as text.
    Solid { color: Rgba, opacity: String },
    LinearGradient(LinearGradient),
    RadialGradient(RadialGradient),
    /// Sweep gradients have no SVG counterpart and are not drawn.
    SweepGradient,
}

/// The calls that write one gradient stop.
pub open spec fn stop_calls(s: GradientStop) -> Seq<XmlCall> {
    seq![
        XmlCall::Start("stop"@),
        XmlCall::Attribute("offset"@, s.offset@),
        XmlCall::Attribute("stop-color"@, rgb_text(s.color)),
        XmlCall::Attribute("stop-opacity"@, s.opacity@),
        XmlCall::End,
    ]
}

/// The calls that write the stops `stops`, in order.
pub open spec fn stops_calls(stops: Seq<GradientStop>) -> Seq<XmlCall>
    decreases stops.len(),
{
    if stops.len() == 0 {
        Seq::empty()
    } else {
        stops_calls(stops.drop_last()) + stop_calls(stops.last())
    }
}

/// The calls that draw the outline `path` filled with the paint server `id`.
pub open spec fn fill_path_calls(
    id: Seq<char>,
    outline: Option<MatrixText>,
    path: Seq<char>,
) -> Seq<XmlCall> {
    seq![XmlCall::Start("path"@), XmlCall::Attribute("fill"@, url_text(id))] + transform_calls(
        "transform"@,
        outline,
    ) + seq![XmlCall::Attribute("d"@, path), XmlCall::End]
}

/// The calls that draw the outline `path` in a solid colour.
pub open spec fn solid_calls(
    color: Rgba,
    opacity: Seq<char>,
    outline: Option<MatrixText>,
    path: Seq<char>,
) -> Seq<XmlCall> {
    seq![
        XmlCall::Start("path"@),
        XmlCall::Attribute("fill"@, rgb_text(color)),
        XmlCall::Attribute("fill-opacity"@, opacity),
    ] + transform_calls("transform"@, outline) + seq![XmlCall::Attribute("d"@, path), XmlCall::End]
}

/// The calls that define a linear gradient with id `id`.
pub open spec fn linear_definition_calls(id: Seq<char>, g: LinearGradient) -> Seq<XmlCall> {
    seq![
        XmlCall::Start("linearGradient"@),
        XmlCall::Attribute("id"@, id),
        XmlCall::Attribute("x1"@, g.x0@),
        XmlCall::Attribute("y1"@, g.y0@),
        XmlCall::Attribute("x2"@, g.x1@),
        XmlCall::Attribute("y2"@, g.y1@),
        XmlCall::Attribute("gradientUnits"@, "userSpaceOnUse"@),
    ] + spread_calls(g.extend) + transform_calls("gradientTransform"@, g.transform) + stops_calls(
        g.stops@,
    ) + seq![XmlCall::End]
}

/// The calls that define a linear gradient with id `id` and fill `path` with it.
pub open spec fn linear_calls(
    id: Seq<char>,
    g: LinearGradient,
    outline: Option<MatrixText>,
    path: Seq<char>,
) -> Seq<XmlCall> {
    linear_definition_calls(id, g) + fill_path_calls(id, outline, path)
}

/// The calls that define a radial gradient with id `id`.
pub open spec fn radial_definition_calls(id: Seq<char>, g: RadialGradient) -> Seq<XmlCall> {
    seq![
        XmlCall::Start("radialGradient"@),
        XmlCall::Attribute("id"@, id),
        XmlCall::Attribute("cx"@, g.x1@),
        XmlCall::Attribute("cy"@, g.y1@),
        XmlCall::Attribute("r"@, g.r1@),
        XmlCall::Attribute("fr"@, g.r0@),
        XmlCall::Attribute("fx"@, g.x0@),
        XmlCall::Attribute("fy"@, g.y0@),
        XmlCall::Attribute("gradientUnits"@, "userSpaceOnUse"@),
    ] + spread_calls(g.extend) + transform_calls("gradientTransform"@, g.transform) + stops_calls(
        g.stops@,
    ) + seq![XmlCall::End]
}

/// The calls that define a radial gradient with id `id` and fill `path` with it.
pub open spec fn radial_calls(
    id: Seq<char>,
    g: RadialGradient,
    outline: Option<MatrixText>,
    path: Seq<char>,
) -> Seq<XmlCall> {
    radial_definition_calls(id, g) + fill_path_calls(id, outline, path)
}

/// The calls that define the clip path `id` from `path` and open the group it clips.
pub open spec fn clip_calls(
    id: Seq<char>,
    outline: Option<MatrixText>,
    path: Seq<char>,
) -> Seq<XmlCall> {
    seq![
        XmlCall::Start("clipPath"@),
        XmlCall::Attribute("id"@, id),
        XmlCall::Start("path"@),
    ] + transform_calls("transform"@, outline) + seq![
        XmlCall::Attribute("d"@, path),
        XmlCall::End,
        XmlCall::End,
        XmlCall::Start("g"@),
        XmlCall::Attribute("clip-path"@, url_text(id)),
    ]
}

/// The calls that open a layer group blended with `mode`.
pub open spec fn layer_calls(mode: CompositeMode) -> Seq<XmlCall> {
    seq![XmlCall::Start("g"@), XmlCall::Attribute("style"@, layer_style_text(mode))]
}

/// The prefix of the id of a gradient paint: `lg` for linear, `rg` for radial.
pub open spec fn gradient_prefix(p: Paint) -> Seq<char> {
    match p {
        Paint::RadialGradient(_) => "rg"@,
        _ => "lg"@,
    }
}

/// The id a gradient paint gets when the gradient counter stands at `index`.
pub open spec fn gradient_id(index: nat, p: Paint) -> Seq<char> {
    id_text(gradient_prefix(p), index)
}

/// How many gradient ids a paint uses up.
pub open spec fn gradients_used(p: Paint) -> nat {
    match p {
        Paint::LinearGradient(_) => 1,
        Paint::RadialGradient(_) => 1,
        _ => 0,
    }
}

/// The calls that fill `path` with the paint `p`, gradient ids being made from `index`.
pub open spec fn paint_calls(
    index: nat,
    p: Paint,
    outline: Option<MatrixText>,
    path: Seq<char>,
) -> Seq<XmlCall> {
    match p {
        Paint::Solid { color, opacity } => solid_calls(color, opacity@, outline, path),
        Paint::LinearGradient(g) => linear_calls(id_text("lg"@, index), g, outline, path),
        Paint::RadialGradient(g) => radial_calls(id_text("rg"@, index), g, outline, path),
        Paint::SweepGradient => Seq::empty(),
    }
}

/// Writes the stops of a gradient, each as a `stop` element.
pub fn write_gradient_stops(svg: &mut SvgWriter, stops: &Vec<GradientStop>)
    ensures
        final(svg).calls() == old(svg).calls() + stops_calls(stops@),
        calls_written(old(svg).text(), stops_calls(stops@), final(svg).text()),
{
    let n = stops.len();
    let mut i: usize = 0;
    proof {
        assert(stops@.take(0) =~= Seq::<GradientStop>::empty());
        assert(old(svg).calls() + stops_calls(stops@.take(0)) =~= old(svg).calls());
        lemma_written_empty(old(svg).text());
    }
    while i < n
        invariant
            n == stops@.len(),
            i <= n,
            svg.calls() == old(svg).calls() + stops_calls(stops@.take(i as int)),
            calls_written(old(svg).text(), stops_calls(stops@.take(i as int)), svg.text()),
        decreases n - i,
    {
        let ghost before = svg.calls();
        let ghost t0 = svg.text();
        let stop = &stops[i];
        svg.start_element("stop");
        let ghost t1 = svg.text();
        svg.write_attribute("offset", stop.offset.as_str());
        let ghost t2 = svg.text();
        svg.write_color_attribute("stop-color", &stop.color);
        let ghost t3 = svg.text();
        svg.write_attribute("stop-opacity", stop.opacity.as_str());
        let ghost t4 = svg.text();
        svg.end_element();
        proof {
            assert(stops@.take(i + 1).drop_last() =~= stops@.take(i as int));
            assert(stops@.take(i + 1).last() == *stop);
            assert(svg.calls() =~= before + stop_calls(*stop));
            assert(svg.calls() =~= old(svg).calls() + stops_calls(stops@.take(i + 1)));
            let parts = seq![
                seq![XmlCall::Start("stop"@)],
                seq![XmlCall::Attribute("offset"@, stop.offset@)],
                seq![XmlCall::Attribute("stop-color"@, rgb_text(stop.color))],
                seq![XmlCall::Attribute("stop-opacity"@, stop.opacity@)],
                seq![XmlCall::End],
            ];
            lemma_written_chain(seq![t0, t1, t2, t3, t4, svg.text()], parts);
            reveal_with_fuel(joined_calls, 6);
            assert(joined_calls(parts) =~= stop_calls(*stop));
            law_written_concat(
                old(svg).text(),
                stops_calls(stops@.take(i as int)),
                t0,
                stop_calls(*stop),
                svg.text(),
            );
        }
        i = i + 1;
    }
    proof {
        assert(stops@.take(n as int) =~= stops@);
    }
}

/// Writes the definition of a linear gradient with id `id`.
#[verifier::spinoff_prover]
#[verifier::rlimit(50)]
fn write_linear_definition(svg: &mut SvgWriter, id: &str, g: &LinearGradient)
    ensures
        final(svg).calls() == old(svg).calls() + linear_definition_calls(id@, *g),
        calls_written(old(svg).text(), linear_definition_calls(id@, *g), final(svg).text()),
{
    let ghost c0 = svg.calls();
    let ghost t0 = svg.text();
    svg.start_element("linearGradient");
    let ghost t1 = svg.text();
    svg.write_attribute("id", id);
    let ghost t2 = svg.text();
    svg.write_attribute("x1", g.x0.as_str());
    let ghost t3 = svg.text();
    svg.write_attribute("y1", g.y0.as_str());
    let ghost t4 = svg.text();
    svg.write_attribute("x2", g.x1.as_str());
    let ghost t5 = svg.text();
    svg.write_attribute("y2", g.y1.as_str());
    let ghost t6 = svg.text();
    svg.write_attribute("gradientUnits", "userSpaceOnUse");
    let ghost t7 = svg.text();
    svg.write_spread_method_attribute(g.extend);
    let ghost t8 = svg.text();
    svg.write_transform_attribute("gradientTransform", &g.transform);
    let ghost t9 = svg.text();
    write_gradient_stops(svg, &g.stops);
    let ghost t10 = svg.text();
    svg.end_element();
    proof {
        assert(svg.calls() =~= c0 + linear_definition_calls(id@, *g));
        assert(calls_written(t0, linear_definition_calls(id@, *g), svg.text())) by {
            let parts = seq![
                seq![XmlCall::Start("linearGradient"@)],
                seq![XmlCall::Attribute("id"@, id@)],
                seq![XmlCall::Attribute("x1"@, g.x0@)],
                seq![XmlCall::Attribute("y1"@, g.y0@)],
                seq![XmlCall::Attribute("x2"@, g.x1@)],
                seq![XmlCall::Attribute("y2"@, g.y1@)],
                seq![XmlCall::Attribute("gradientUnits"@, "userSpaceOnUse"@)],
                spread_calls(g.extend),
                transform_calls("gradientTransform"@, g.transform),
                stops_calls(g.stops@),
                seq![XmlCall::End],
            ];
            lemma_written_chain(seq![t0, t1, t2, t3, t4, t5, t6, t7, t8, t9, t10, svg.text()], parts);
            reveal_with_fuel(joined_calls, 12);
            assert(joined_calls(parts) =~= linear_definition_calls(id@, *g));
        }
    }
}

/// Writes the definition of a radial gradient with id `id`.
#[verifier::spinoff_prover]
#[verifier::rlimit(50)]
fn write_radial_definition(svg: &mut SvgWriter, id: &str, g: &RadialGradient)
    ensures
        final(svg).calls() == old(svg).calls() + radial_definition_calls(id@, *g),
        calls_written(old(svg).text(), radial_definition_calls(id@, *g), final(svg).text()),
{
    let ghost c0 = svg.calls();
    let ghost t0 = svg.text();
    svg.start_element("radialGradient");
    let ghost t1 = svg.text();
    svg.write_attribute("id", id);
    let ghost t2 = svg.text();
    svg.write_attribute("cx", g.x1.as_str());
    let ghost t3 = svg.text();
    svg.write_attribute("cy", g.y1.as_str());
    let ghost t4 = svg.text();
    svg.write_attribute("r", g.r1.as_str());
    let ghost t5 = svg.text();
    svg.write_attribute("fr", g.r0.as_str());
    let ghost t6 = svg.text();
    svg.write_attribute("fx", g.x0.as_str());
    let ghost t7 = svg.text();
    svg.write_attribute("fy", g.y0.as_str());
    let ghost t8 = svg.text();
    svg.write_attribute("gradientUnits", "userSpaceOnUse");
    let ghost t9 = svg.text();
    svg.write_spread_method_attribute(g.extend);
    let ghost t10 = svg.text();
    svg.write_transform_attribute("gradientTransform", &g.transform);
    let ghost t11 = svg.text();
    write_gradient_stops(svg, &g.stops);
    let ghost t12 = svg.text();
    svg.end_element();
    proof {
        assert(svg.calls() =~= c0 + radial_definition_calls(id@, *g));
        assert(calls_written(t0, radial_definition_calls(id@, *g), svg.text())) by {
            let parts = seq![
                seq![XmlCall::Start("radialGradient"@)],
                seq![XmlCall::Attribute("id"@, id@)],
                seq![XmlCall::Attribute("cx"@, g.x1@)],
                seq![XmlCall::Attribute("cy"@, g.y1@)],
                seq![XmlCall::Attribute("r"@, g.r1@)],
                seq![XmlCall::Attribute("fr"@, g.r0@)],
                seq![XmlCall::Attribute("fx"@, g.x0@)],
                seq![XmlCall::Attribute("fy"@, g.y0@)],
                seq![XmlCall::Attribute("gradientUnits"@, "userSpaceOnUse"@)],
                spread_calls(g.extend),
                transform_calls("gradientTransform"@, g.transform),
                stops_calls(g.stops@),
                seq![XmlCall::End],
            ];
            lemma_written_chain(
                seq![t0, t1, t2, t3, t4, t5, t6, t7, t8, t9, t10, t11, t12, svg.text()],
                parts,
            );
            reveal_with_fuel(joined_calls, 14);
            assert(joined_calls(parts) =~= radial_definition_calls(id@, *g));
        }
    }
}

/// Draws the outline `path` filled with the paint server `id`.
fn write_fill_path(svg: &mut SvgWriter, id: &str, outline: &Option<MatrixText>, path: &str)
    ensures
        final(svg).calls() == old(svg).calls() + fill_path_calls(id@, *outline, path@),
        calls_written(old(svg).text(), fill_path_calls(id@, *outline, path@), final(svg).text()),
{
    let ghost c0 = svg.calls();
    let fill = url_reference(id);
    let ghost t0 = svg.text();
    svg.start_element("path");
    let ghost t1 = svg.text();
    svg.write_attribute("fill", fill.as_str());
    let ghost t2 = svg.text();
    svg.write_transform_attribute("transform", outline);
    let ghost t3 = svg.text();
    svg.write_attribute("d", path);
    let ghost t4 = svg.text();
    svg.end_element();
    proof {
        assert(svg.calls() =~= c0 + fill_path_calls(id@, *outline, path@));
        let parts = seq![
            seq![XmlCall::Start("path"@)],
            seq![XmlCall::Attribute("fill"@, url_text(id@))],
            transform_calls("transform"@, *outline),
            seq![XmlCall::Attribute("d"@, path@)],
            seq![XmlCall::End],
        ];
        lemma_written_chain(seq![t0, t1, t2, t3, t4, svg.text()], parts);
        reveal_with_fuel(joined_calls, 6);
        assert(joined_calls(parts) =~= fill_path_calls(id@, *outline, path@));
    }
}

/// A change to the transform state: push a transform, or pop the innermost one.
pub enum TransformOp<T> {
    Push(T),
    Pop,
}

/// The transform state after pushing `t`: `t` in force, the previous one saved.
pub open spec fn push_state<T>(s: (T, Seq<T>), t: T) -> (T, Seq<T>) {
    (t, s.1.push(s.0))
}

/// The transform state after a pop: the innermost saved transform restored and removed;
/// unchanged when nothing is saved.
pub open spec fn pop_state<T>(s: (T, Seq<T>)) -> (T, Seq<T>) {
    if s.1.len() > 0 {
        (s.1.last(), s.1.drop_last())
    } else {
        s
    }
}

/// The transform state after the changes `ops`, in order.
pub open spec fn apply_ops<T>(s: (T, Seq<T>), ops: Seq<TransformOp<T>>) -> (T, Seq<T>)
    decreases ops.len(),
{
    if ops.len() == 0 {
        s
    } else {
        let r = apply_ops(s, ops.drop_last());
        match ops.last() {
            TransformOp::Push(t) => push_state(r, t),
            TransformOp::Pop => pop_state(r),
        }
    }
}

/// Pushes minus pops over `ops`.
pub open spec fn ops_depth<T>(ops: Seq<TransformOp<T>>) -> int
    decreases ops.len(),
{
    if ops.len() == 0 {
        0
    } else {
        ops_depth(ops.drop_last()) + match ops.last() {
            TransformOp::Push(_) => 1int,
            TransformOp::Pop => -1int,
        }
    }
}

/// No prefix of `ops` pops more than it pushed.
pub open spec fn ops_nested<T>(ops: Seq<TransformOp<T>>) -> bool
    decreases ops.len(),
{
    ops.len() == 0 || (ops_nested(ops.drop_last()) && ops_depth(ops) >= 0)
}

proof fn lemma_nested_ops<T>(s: (T, Seq<T>), ops: Seq<TransformOp<T>>)
    requires
        ops_nested(ops),
    ensures
        ops_depth(ops) >= 0,
        apply_ops(s, ops).1.len() == s.1.len() + ops_depth(ops),
        apply_ops(s, ops).1.subrange(0, s.1.len() as int) =~= s.1,
        ops_depth(ops) == 0 ==> apply_ops(s, ops).0 == s.0,
        ops_depth(ops) > 0 ==> apply_ops(s, ops).1[s.1.len() as int] == s.0,
    decreases ops.len(),
{
    if ops.len() > 0 {
        let prev = ops.drop_last();
        lemma_nested_ops(s, prev);
        let r = apply_ops(s, prev);
        let n = s.1.len() as int;
        match ops.last() {
            TransformOp::Push(t) => {
                assert(r.1.push(r.0).subrange(0, n) =~= r.1.subrange(0, n));
                if ops_depth(prev) == 0 {
                    assert(r.1.push(r.0)[n] == r.0);
                } else {
                    assert(r.1.push(r.0)[n] == r.1[n]);
                }
            },
            TransformOp::Pop => {
                assert(r.1.drop_last().subrange(0, n) =~= r.1.subrange(0, n));
                if ops_depth(prev) == 1 {
                    assert(r.1.last() == r.1[n]);
                } else {
                    assert(r.1.drop_last()[n] == r.1[n]);
                }
            },
        }
    }
}

/// Law: changes that pop exactly what they push, never popping more than they pushed
/// before, leave the transform state as it was. In particular a push, followed by any
/// such changes, followed by a pop, restores the transform and the saved transforms.
pub proof fn law_nested_ops_restore<T>(s: (T, Seq<T>), ops: Seq<TransformOp<T>>)
    requires
        ops_nested(ops),
        ops_depth(ops) == 0,
    ensures
        apply_ops(s, ops) == s,
{
    lemma_nested_ops(s, ops);
    let r = apply_ops(s, ops);
    assert(r.1 =~= r.1.subrange(0, s.1.len() as int));
}

/// Law: a push, then nested changes that pop what they push, then a pop, restore the
/// transform state.
pub proof fn law_push_nested_pop_restores<T>(s: (T, Seq<T>), t: T, ops: Seq<TransformOp<T>>)
    requires
        ops_nested(ops),
        ops_depth(ops) == 0,
    ensures
        pop_state(apply_ops(push_state(s, t), ops)) == s,
{
    law_nested_ops_restore(push_state(s, t), ops);
    assert(s.1.push(s.0).drop_last() =~= s.1);
}

/// The painter that turns the paint operations of a COLR glyph into SVG.
pub struct GlyphPainter<T> {
    /// Where the SVG goes.
    pub svg: SvgWriter,
    /// The current outline, as path data.
    pub path_buf: String,
    /// The number from which the next gradient id is made.
    pub gradient_index: usize,
    /// The number from which the next clip path id is made.
    pub clip_path_index: usize,
    /// The palette that colours are taken from.
    pub palette_index: u16,
    /// The current transform.
    pub transform: T,
    /// The transform in force when the current outline was taken.
    pub outline_transform: T,
    /// The transforms saved by `push_transform`, innermost last.
    pub transforms_stack: Vec<T>,
}

impl<T: Copy> GlyphPainter<T> {
    /// The outline, palette and transforms are the same in `self` and `other`.
    pub open spec fn same_drawing_state(&self, other: &Self) -> bool {
        &&& self.path_buf@ == other.path_buf@
        &&& self.palette_index == other.palette_index
        &&& self.transform == other.transform
        &&& self.outline_transform == other.outline_transform
        &&& self.transforms_stack@ == other.transforms_stack@
    }

    /// Everything but the transform and the stack of saved transforms is the same in
    /// `self` and `other`.
    pub open spec fn same_but_transforms(&self, other: &Self) -> bool {
        &&& self.svg == other.svg
        &&& self.path_buf@ == other.path_buf@
        &&& self.gradient_index == other.gradient_index
        &&& self.clip_path_index == other.clip_path_index
        &&& self.palette_index == other.palette_index
        &&& self.outline_transform == other.outline_transform
    }

    /// What `push_transform(t)` makes of `before`: the current transform saved on the
    /// stack and `t` in force.
    pub open spec fn pushed(before: &Self, after: &Self, t: T) -> bool {
        &&& after.same_but_transforms(before)
        &&& after.transform_state() == push_state(before.transform_state(), t)
    }

    /// The transform in force and the saved transforms.
    pub open spec fn transform_state(&self) -> (T, Seq<T>) {
        (self.transform, self.transforms_stack@)
    }

    /// What `pop_transform` makes of `before`: the innermost saved transform restored
    /// and removed from the stack; nothing changes when the stack is empty.
    pub open spec fn popped(before: &Self, after: &Self) -> bool {
        &&& after.same_but_transforms(before)
        &&& after.transform_state() == pop_state(before.transform_state())
    }

    /// A painter writing to `svg`, with an empty outline, both id counters at zero,
    /// `transform` as the current and the outline transform, and no saved transforms.
    pub fn new(svg: SvgWriter, palette_index: u16, transform: T) -> (p: Self)
        ensures
            p.svg == svg,
            p.path_buf@ == Seq::<char>::empty(),
            p.gradient_index == 0,
            p.clip_path_index == 0,
            p.palette_index == palette_index,
            p.transform == transform,
            p.outline_transform == transform,
            p.transforms_stack@ == Seq::<T>::empty(),
    {
        GlyphPainter {
            svg,
            path_buf: String::new(),
            gradient_index: 0,
            clip_path_index: 0,
            palette_index,
            transform,
            outline_transform: transform,
            transforms_stack: Vec::new(),
        }
    }

    /// Saves the current transform and makes `transform` (the current one combined
    /// with the new one) current.
    pub fn push_transform(&mut self, transform: T)
        ensures
            Self::pushed(old(self), final(self), transform),
    {
        let current = self.transform;
        self.transforms_stack.push(current);
        self.transform = transform;
    }

    /// Restores the innermost saved transform, if there is one.
    pub fn pop_transform(&mut self)
        ensures
            Self::popped(old(self), final(self)),
    {
        if let Some(ts) = self.transforms_stack.pop() {
            self.transform = ts;
        }
    }

    /// Takes the outline that a glyph was drawn as: `drawn` is the builder the outline
    /// was written into, starting empty, and `found` tells whether the glyph had an
    /// outline. When it had, the builder is finished and the current transform becomes
    /// the outline transform.
    pub fn outline_glyph(&mut self, drawn: Builder, found: bool)
        ensures
            final(self).path_buf@ == (if found {
                finished(drawn.path@)
            } else {
                drawn.path@
            }),
            final(self).outline_transform == (if found {
                old(self).transform
            } else {
                old(self).outline_transform
            }),
            final(self).svg == old(self).svg,
            final(self).gradient_index == old(self).gradient_index,
            final(self).clip_path_index == old(self).clip_path_index,
            final(self).palette_index == old(self).palette_index,
            final(self).transform == old(self).transform,
            final(self).transforms_stack@ == old(self).transforms_stack@,
    {
        let mut builder = drawn;
        if !found {
            self.path_buf = builder.path;
            return;
        }
        builder.finish();
        self.path_buf = builder.path;
        self.outline_transform = self.transform;
    }

    /// Takes note of a clip glyph: when the glyph has an outline, the current transform
    /// becomes the outline transform. The outline itself is not kept.
    pub fn push_clip_glyph(&mut self, found: bool)
        ensures
            final(self).outline_transform == (if found {
                old(self).transform
            } else {
                old(self).outline_transform
            }),
            final(self).svg == old(self).svg,
            final(self).path_buf@ == old(self).path_buf@,
            final(self).gradient_index == old(self).gradient_index,
            final(self).clip_path_index == old(self).clip_path_index,
            final(self).palette_index == old(self).palette_index,
            final(self).transform == old(self).transform,
            final(self).transforms_stack@ == old(self).transforms_stack@,
    {
        if found {
            self.outline_transform = self.transform;
        }
    }

    /// Fills the current outline with a solid colour.
    pub fn paint_solid(&mut self, color: &Rgba, opacity: &str, outline: &Option<MatrixText>)
        ensures
            final(self).svg.calls() == old(self).svg.calls() + solid_calls(
                *color,
                opacity@,
                *outline,
                old(self).path_buf@,
            ),
            calls_written(
                old(self).svg.text(),
                solid_calls(*color, opacity@, *outline, old(self).path_buf@),
                final(self).svg.text(),
            ),
            final(self).same_drawing_state(old(self)),
            final(self).gradient_index == old(self).gradient_index,
            final(self).clip_path_index == old(self).clip_path_index,
    {
        let ghost c0 = self.svg.calls();
        let ghost t0 = self.svg.text();
        self.svg.start_element("path");
        let ghost t1 = self.svg.text();
        self.svg.write_color_attribute("fill", color);
        let ghost t2 = self.svg.text();
        self.svg.write_attribute("fill-opacity", opacity);
        let ghost t3 = self.svg.text();
        self.svg.write_transform_attribute("transform", outline);
        let ghost t4 = self.svg.text();
        self.svg.write_attribute("d", self.path_buf.as_str());
        let ghost t5 = self.svg.text();
        self.svg.end_element();
        proof {
            assert(self.svg.calls() =~= c0 + solid_calls(*color, opacity@, *outline, self.path_buf@));
            let parts = seq![
                seq![XmlCall::Start("path"@)],
                seq![XmlCall::Attribute("fill"@, rgb_text(*color))],
                seq![XmlCall::Attribute("fill-opacity"@, opacity@)],
                transform_calls("transform"@, *outline),
                seq![XmlCall::Attribute("d"@, self.path_buf@)],
                seq![XmlCall::End],
            ];
            lemma_written_chain(seq![t0, t1, t2, t3, t4, t5, self.svg.text()], parts);
            reveal_with_fuel(joined_calls, 7);
            assert(joined_calls(parts) =~= solid_calls(*color, opacity@, *outline, self.path_buf@));
        }
    }

    /// Defines a linear gradient with a fresh id and fills the current outline with it.
    pub fn paint_linear_gradient(&mut self, gradient: &LinearGradient, outline: &Option<MatrixText>)
        requires
            old(self).gradient_index < usize::MAX,
        ensures
            final(self).svg.calls() == old(self).svg.calls() + linear_calls(
                id_text("lg"@, old(self).gradient_index as nat),
                *gradient,
                *outline,
                old(self).path_buf@,
            ),
            calls_written(
                old(self).svg.text(),
                linear_calls(
                    id_text("lg"@, old(self).gradient_index as nat),
                    *gradient,
                    *outline,
                    old(self).path_buf@,
                ),
                final(self).svg.text(),
            ),
            final(self).gradient_index == old(self).gradient_index + 1,
            final(self).same_drawing_state(old(self)),
            final(self).clip_path_index == old(self).clip_path_index,
    {
        let gradient_id = element_id("lg", self.gradient_index);
        self.gradient_index += 1;
        let ghost c0 = self.svg.calls();
        let ghost t0 = self.svg.text();
        write_linear_definition(&mut self.svg, gradient_id.as_str(), gradient);
        let ghost t1 = self.svg.text();
        write_fill_path(&mut self.svg, gradient_id.as_str(), outline, self.path_buf.as_str());
        proof {
            law_written_concat(
                t0,
                linear_definition_calls(gradient_id@, *gradient),
                t1,
                fill_path_calls(gradient_id@, *outline, self.path_buf@),
                self.svg.text(),
            );
            assert(self.svg.calls() =~= c0 + linear_calls(
                gradient_id@,
                *gradient,
                *outline,
                self.path_buf@,
            ));
        }
    }

    /// Defines a radial gradient with a fresh id and fills the current outline with it.
    pub fn paint_radial_gradient(&mut self, gradient: &RadialGradient, outline: &Option<MatrixText>)
        requires
            old(self).gradient_index < usize::MAX,
        ensures
            final(self).svg.calls() == old(self).svg.calls() + radial_calls(
                id_text("rg"@, old(self).gradient_index as nat),
                *gradient,
                *outline,
                old(self).path_buf@,
            ),
            calls_written(
                old(self).svg.text(),
                radial_calls(
                    id_text("rg"@, old(self).gradient_index as nat),
                    *gradient,
                    *outline,
                    old(self).path_buf@,
                ),
                final(self).svg.text(),
            ),
            final(self).gradient_index == old(self).gradient_index + 1,
            final(self).same_drawing_state(old(self)),
            final(self).clip_path_index == old(self).clip_path_index,
    {
        let gradient_id = element_id("rg", self.gradient_index);
        self.gradient_index += 1;
        let ghost c0 = self.svg.calls();
        let ghost t0 = self.svg.text();
        write_radial_definition(&mut self.svg, gradient_id.as_str(), gradient);
        let ghost t1 = self.svg.text();
        write_fill_path(&mut self.svg, gradient_id.as_str(), outline, self.path_buf.as_str());
        proof {
            law_written_concat(
                t0,
                radial_definition_calls(gradient_id@, *gradient),
                t1,
                fill_path_calls(gradient_id@, *outline, self.path_buf@),
                self.svg.text(),
            );
            assert(self.svg.calls() =~= c0 + radial_calls(
                gradient_id@,
                *gradient,
                *outline,
                self.path_buf@,
            ));
        }
    }

    /// Defines a clip path with a fresh id from `path` and opens a group clipped by it;
    /// `pop_clip` closes the group.
    #[verifier::spinoff_prover]
    #[verifier::rlimit(50)]
    pub fn clip_with_path(&mut self, path: &str, outline: &Option<MatrixText>)
        requires
            old(self).clip_path_index < usize::MAX,
        ensures
            final(self).svg.calls() == old(self).svg.calls() + clip_calls(
                id_text("cp"@, old(self).clip_path_index as nat),
                *outline,
                path@,
            ),
            calls_written(
                old(self).svg.text(),
                clip_calls(id_text("cp"@, old(self).clip_path_index as nat), *outline, path@),
                final(self).svg.text(),
            ),
            final(self).clip_path_index == old(self).clip_path_index + 1,
            final(self).same_drawing_state(old(self)),
            final(self).gradient_index == old(self).gradient_index,
    {
        let clip_id = element_id("cp", self.clip_path_index);
        self.clip_path_index += 1;
        let ghost c0 = self.svg.calls();
        let reference = url_reference(clip_id.as_str());

        let ghost t0 = self.svg.text();
        self.svg.start_element("clipPath");
        let ghost t1 = self.svg.text();
        self.svg.write_attribute("id", clip_id.as_str());
        let ghost t2 = self.svg.text();
        self.svg.start_element("path");
        let ghost t3 = self.svg.text();
        self.svg.write_transform_attribute("transform", outline);
        let ghost t4 = self.svg.text();
        self.svg.write_attribute("d", path);
        let ghost t5 = self.svg.text();
        self.svg.end_element();
        let ghost t6 = self.svg.text();
        self.svg.end_element();
        let ghost t7 = self.svg.text();

        self.svg.start_element("g");
        let ghost t8 = self.svg.text();
        self.svg.write_attribute("clip-path", reference.as_str());
        proof {
            assert(self.svg.calls() =~= c0 + clip_calls(clip_id@, *outline, path@));
            assert(calls_written(t0, clip_calls(clip_id@, *outline, path@), self.svg.text())) by {
                let parts = seq![
                    seq![XmlCall::Start("clipPath"@)],
                    seq![XmlCall::Attribute("id"@, clip_id@)],
                    seq![XmlCall::Start("path"@)],
                    transform_calls("transform"@, *outline),
                    seq![XmlCall::Attribute("d"@, path@)],
                    seq![XmlCall::End],
                    seq![XmlCall::End],
                    seq![XmlCall::Start("g"@)],
                    seq![XmlCall::Attribute("clip-path"@, url_text(clip_id@))],
                ];
                lemma_written_chain(seq![t0, t1, t2, t3, t4, t5, t6, t7, t8, self.svg.text()], parts);
                reveal_with_fuel(joined_calls, 10);
                assert(joined_calls(parts) =~= clip_calls(clip_id@, *outline, path@));
            }
        }
    }

    /// Clips by the current outline.
    pub fn push_clip(&mut self, outline: &Option<MatrixText>)
        requires
            old(self).clip_path_index < usize::MAX,
        ensures
            final(self).svg.calls() == old(self).svg.calls() + clip_calls(
                id_text("cp"@, old(self).clip_path_index as nat),
                *outline,
                old(self).path_buf@,
            ),
            calls_written(
                old(self).svg.text(),
                clip_calls(
                    id_text("cp"@, old(self).clip_path_index as nat),
                    *outline,
                    old(self).path_buf@,
                ),
                final(self).svg.text(),
            ),
            final(self).clip_path_index == old(self).clip_path_index + 1,
            final(self).same_drawing_state(old(self)),
            final(self).gradient_index == old(self).gradient_index,
    {
        let path = self.path_buf.clone();
        self.clip_with_path(path.as_str(), outline);
    }

    /// Clips by the box from `(x_min, y_min)` to `(x_max, y_max)`.
    pub fn push_clip_box(
        &mut self,
        x_min: &str,
        y_min: &str,
        x_max: &str,
        y_max: &str,
        outline: &Option<MatrixText>,
    )
        requires
            old(self).clip_path_index < usize::MAX,
        ensures
            final(self).svg.calls() == old(self).svg.calls() + clip_calls(
                id_text("cp"@, old(self).clip_path_index as nat),
                *outline,
                clip_box_text(x_min@, y_min@, x_max@, y_max@),
            ),
            calls_written(
                old(self).svg.text(),
                clip_calls(
                    id_text("cp"@, old(self).clip_path_index as nat),
                    *outline,
                    clip_box_text(x_min@, y_min@, x_max@, y_max@),
                ),
                final(self).svg.text(),
            ),
            final(self).clip_path_index == old(self).clip_path_index + 1,
            final(self).same_drawing_state(old(self)),
            final(self).gradient_index == old(self).gradient_index,
    {
        let clip_path = clip_box_path(x_min, y_min, x_max, y_max);
        self.clip_with_path(clip_path.as_str(), outline);
    }

    /// Closes the group opened by the innermost clip.
    pub fn pop_clip(&mut self)
        ensures
            final(self).svg.calls() == old(self).svg.calls().push(XmlCall::End),
            calls_written(old(self).svg.text(), seq![XmlCall::End], final(self).svg.text()),
            final(self).same_drawing_state(old(self)),
            final(self).gradient_index == old(self).gradient_index,
            final(self).clip_path_index == old(self).clip_path_index,
    {
        self.svg.end_element();
    }

    /// Opens a group blended with `mode`. Returns whether `mode` has a CSS keyword of its
    /// own; when it has none, the group is blended `normal`.
    pub fn push_layer(&mut self, mode: CompositeMode) -> (supported: bool)
        ensures
            final(self).svg.calls() == old(self).svg.calls() + layer_calls(mode),
            calls_written(old(self).svg.text(), layer_calls(mode), final(self).svg.text()),
            supported == (blend_keyword(mode) is Some),
            final(self).same_drawing_state(old(self)),
            final(self).gradient_index == old(self).gradient_index,
            final(self).clip_path_index == old(self).clip_path_index,
    {
        let ghost c0 = self.svg.calls();
        let ghost t0 = self.svg.text();
        self.svg.start_element("g");
        let ghost t1 = self.svg.text();
        let (style, supported) = layer_style(mode);
        self.svg.write_attribute("style", style.as_str());
        proof {
            assert(self.svg.calls() =~= c0 + layer_calls(mode));
            law_written_concat(
                t0,
                seq![XmlCall::Start("g"@)],
                t1,
                seq![XmlCall::Attribute("style"@, layer_style_text(mode))],
                self.svg.text(),
            );
            assert(seq![XmlCall::Start("g"@)] + seq![
                XmlCall::Attribute("style"@, layer_style_text(mode)),
            ] =~= layer_calls(mode));
        }
        supported
    }

    /// Closes the group opened by the innermost layer.
    pub fn pop_layer(&mut self)
        ensures
            final(self).svg.calls() == old(self).svg.calls().push(XmlCall::End),
            calls_written(old(self).svg.text(), seq![XmlCall::End], final(self).svg.text()),
            final(self).same_drawing_state(old(self)),
            final(self).gradient_index == old(self).gradient_index,
            final(self).clip_path_index == old(self).clip_path_index,
    {
        self.svg.end_element();
    }

    /// Fills the current outline with `paint`. Returns whether anything was drawn: sweep
    /// gradients are not.
    pub fn paint(&mut self, paint: &Paint, outline: &Option<MatrixText>) -> (drawn: bool)
        requires
            gradients_used(*paint) > 0 ==> old(self).gradient_index < usize::MAX,
        ensures
            final(self).svg.calls() == old(self).svg.calls() + paint_calls(
                old(self).gradient_index as nat,
                *paint,
                *outline,
                old(self).path_buf@,
            ),
            calls_written(
                old(self).svg.text(),
                paint_calls(old(self).gradient_index as nat, *paint, *outline, old(self).path_buf@),
                final(self).svg.text(),
            ),
            final(self).gradient_index == old(self).gradient_index + gradients_used(*paint),
            drawn == !(paint is SweepGradient),
            (*paint) is SweepGradient ==> final(self).svg == old(self).svg,
            final(self).same_drawing_state(old(self)),
            final(self).clip_path_index == old(self).clip_path_index,
    {
        match paint {
            Paint::Solid { color, opacity } => {
                self.paint_solid(color, opacity.as_str(), outline);
                true
            },
            Paint::LinearGradient(g) => {
                self.paint_linear_gradient(g, outline);
                true
            },
            Paint::RadialGradient(g) => {
                self.paint_radial_gradient(g, outline);
                true
            },
            Paint::SweepGradient => {
                proof {
                    assert(old(self).svg.calls() + Seq::<XmlCall>::empty() =~= self.svg.calls());
                    lemma_written_empty(self.svg.text());
                }
                false
            },
        }
    }
}

/// Law: popping a transform undoes pushing one: the transform in force and the saved
/// transforms are as before the push, and nothing else has changed.
pub proof fn law_pop_undoes_push<T: Copy>(
    before: GlyphPainter<T>,
    pushed: GlyphPainter<T>,
    after: GlyphPainter<T>,
    t: T,
)
    requires
        GlyphPainter::pushed(&before, &pushed, t),
        GlyphPainter::popped(&pushed, &after),
    ensures
        after.transform == before.transform,
        after.transforms_stack@ == before.transforms_stack@,
        after.same_but_transforms(&before),
{
    assert(before.transforms_stack@.push(before.transform).drop_last() =~= before.transforms_stack@);
}

/// Law: the ids of two gradients made from different counter values differ, whichever
/// kind each gradient is; as each gradient advances the counter, no gradient id is ever
/// used twice by one painter.
pub proof fn law_gradient_ids_distinct(i: nat, p: Paint, j: nat, q: Paint)
    requires
        gradients_used(p) == 1,
        gradients_used(q) == 1,
        i != j,
    ensures
        gradient_id(i, p) != gradient_id(j, q),
{
    reveal_strlit("lg");
    reveal_strlit("rg");
    crate::style::law_ids_distinct(gradient_prefix(p), i, gradient_prefix(q), j);
}

/// Law: the ids of two clip paths made from different counter values differ.
pub proof fn law_clip_ids_distinct(i: nat, j: nat)
    requires
        i != j,
    ensures
        id_text("cp"@, i) != id_text("cp"@, j),
{
    crate::style::law_ids_distinct("cp"@, i, "cp"@, j);
}

proof fn lemma_stops_neutral(stops: Seq<GradientStop>)
    ensures
        neutral(stops_calls(stops)),
    decreases stops.len(),
{
    if stops.len() == 0 {
        lemma_attributes_neutral(Seq::empty());
    } else {
        let s = stops.last();
        lemma_stops_neutral(stops.drop_last());
        let attrs = seq![
            XmlCall::Attribute("offset"@, s.offset@),
            XmlCall::Attribute("stop-color"@, rgb_text(s.color)),
            XmlCall::Attribute("stop-opacity"@, s.opacity@),
        ];
        lemma_attributes_neutral(Seq::empty());
        lemma_element("stop"@, attrs, Seq::empty());
        assert(stop_calls(s) =~= element("stop"@, attrs, Seq::empty()));
        lemma_neutral_concat(stops_calls(stops.drop_last()), stop_calls(s));
    }
}

proof fn lemma_fill_path_neutral(id: Seq<char>, outline: Option<MatrixText>, path: Seq<char>)
    ensures
        neutral(fill_path_calls(id, outline, path)),
{
    let attrs = seq![XmlCall::Attribute("fill"@, url_text(id))] + transform_calls(
        "transform"@,
        outline,
    ) + seq![XmlCall::Attribute("d"@, path)];
    lemma_attributes_concat(
        seq![XmlCall::Attribute("fill"@, url_text(id))],
        transform_calls("transform"@, outline),
    );
    lemma_attributes_concat(
        seq![XmlCall::Attribute("fill"@, url_text(id))] + transform_calls("transform"@, outline),
        seq![XmlCall::Attribute("d"@, path)],
    );
    lemma_attributes_neutral(Seq::empty());
    lemma_element("path"@, attrs, Seq::empty());
    assert(fill_path_calls(id, outline, path) =~= element("path"@, attrs, Seq::empty()));
}

proof fn lemma_solid_neutral(color: Rgba, opacity: Seq<char>, outline: Option<MatrixText>, path: Seq<char>)
    ensures
        neutral(solid_calls(color, opacity, outline, path)),
{
    let tr = transform_calls("transform"@, outline);
    let head = seq![
        XmlCall::Attribute("fill"@, rgb_text(color)),
        XmlCall::Attribute("fill-opacity"@, opacity),
    ];
    let tail = seq![XmlCall::Attribute("d"@, path)];
    lemma_attributes_concat(head, tr);
    lemma_attributes_concat(head + tr, tail);
    lemma_attributes_neutral(Seq::empty());
    lemma_element("path"@, head + tr + tail, Seq::empty());
    assert(solid_calls(color, opacity, outline, path) =~= element(
        "path"@,
        head + tr + tail,
        Seq::empty(),
    ));
}

proof fn lemma_linear_neutral(id: Seq<char>, g: LinearGradient, outline: Option<MatrixText>, path: Seq<char>)
    ensures
        neutral(linear_calls(id, g, outline, path)),
{
    let head = seq![
        XmlCall::Attribute("id"@, id),
        XmlCall::Attribute("x1"@, g.x0@),
        XmlCall::Attribute("y1"@, g.y0@),
        XmlCall::Attribute("x2"@, g.x1@),
        XmlCall::Attribute("y2"@, g.y1@),
        XmlCall::Attribute("gradientUnits"@, "userSpaceOnUse"@),
    ];
    let sp = spread_calls(g.extend);
    let gt = transform_calls("gradientTransform"@, g.transform);
    lemma_attributes_concat(head, sp);
    lemma_attributes_concat(head + sp, gt);
    lemma_stops_neutral(g.stops@);
    lemma_element("linearGradient"@, head + sp + gt, stops_calls(g.stops@));
    assert(linear_definition_calls(id, g) =~= element(
        "linearGradient"@,
        head + sp + gt,
        stops_calls(g.stops@),
    ));
    lemma_fill_path_neutral(id, outline, path);
    lemma_neutral_concat(linear_definition_calls(id, g), fill_path_calls(id, outline, path));
}

proof fn lemma_radial_neutral(id: Seq<char>, g: RadialGradient, outline: Option<MatrixText>, path: Seq<char>)
    ensures
        neutral(radial_calls(id, g, outline, path)),
{
    let head = seq![
        XmlCall::Attribute("id"@, id),
        XmlCall::Attribute("cx"@, g.x1@),
        XmlCall::Attribute("cy"@, g.y1@),
        XmlCall::Attribute("r"@, g.r1@),
        XmlCall::Attribute("fr"@, g.r0@),
        XmlCall::Attribute("fx"@, g.x0@),
        XmlCall::Attribute("fy"@, g.y0@),
        XmlCall::Attribute("gradientUnits"@, "userSpaceOnUse"@),
    ];
    let sp = spread_calls(g.extend);
    let gt = transform_calls("gradientTransform"@, g.transform);
    lemma_attributes_concat(head, sp);
    lemma_attributes_concat(head + sp, gt);
    lemma_stops_neutral(g.stops@);
    lemma_element("radialGradient"@, head + sp + gt, stops_calls(g.stops@));
    assert(radial_definition_calls(id, g) =~= element(
        "radialGradient"@,
        head + sp + gt,
        stops_calls(g.stops@),
    ));
    lemma_fill_path_neutral(id, outline, path);
    lemma_neutral_concat(radial_definition_calls(id, g), fill_path_calls(id, outline, path));
}

/// Law: whatever a paint draws is balanced: every element it opens it closes again,
/// and it never closes one it did not open.
pub proof fn law_paint_balanced(index: nat, p: Paint, outline: Option<MatrixText>, path: Seq<char>)
    ensures
        balanced(paint_calls(index, p, outline, path)),
{
    match p {
        Paint::Solid { color, opacity } => {
            lemma_solid_neutral(color, opacity@, outline, path);
        },
        Paint::LinearGradient(g) => {
            lemma_linear_neutral(id_text("lg"@, index), g, outline, path);
        },
        Paint::RadialGradient(g) => {
            lemma_radial_neutral(id_text("rg"@, index), g, outline, path);
        },
        Paint::SweepGradient => {
            lemma_attributes_neutral(Seq::empty());
        },
    }
    lemma_neutral_balanced(paint_calls(index, p, outline, path));
}

/// Law: a clip leaves exactly one group open, and closing it with `pop_clip` makes the
/// whole balanced.
pub proof fn law_clip_then_pop_balanced(id: Seq<char>, outline: Option<MatrixText>, path: Seq<char>)
    ensures
        depth_after(clip_calls(id, outline, path)) == 1,
        balanced(clip_calls(id, outline, path).push(XmlCall::End)),
{
    let tr = transform_calls("transform"@, outline);
    let inner_attrs = tr + seq![XmlCall::Attribute("d"@, path)];
    lemma_attributes_concat(tr, seq![XmlCall::Attribute("d"@, path)]);
    lemma_attributes_neutral(Seq::empty());
    lemma_element("path"@, inner_attrs, Seq::empty());
    let inner = element("path"@, inner_attrs, Seq::empty());
    let id_attr = seq![XmlCall::Attribute("id"@, id)];
    lemma_element("clipPath"@, id_attr, inner);
    let group_attr = seq![XmlCall::Attribute("clip-path"@, url_text(id))];
    lemma_element("g"@, group_attr, Seq::empty());
    let whole = element("clipPath"@, id_attr, inner) + element("g"@, group_attr, Seq::empty());
    lemma_neutral_concat(element("clipPath"@, id_attr, inner), element("g"@, group_attr, Seq::empty()));
    assert(clip_calls(id, outline, path).push(XmlCall::End) =~= whole);
    lemma_neutral_balanced(whole);
    assert(clip_calls(id, outline, path).push(XmlCall::End) =~= clip_calls(id, outline, path)
        + seq![XmlCall::End]);
    crate::xml::lemma_concat(clip_calls(id, outline, path), seq![XmlCall::End], 0);
    crate::xml::lemma_single(XmlCall::End, 0);
}

/// Law: a layer leaves exactly one group open, and closing it with `pop_layer` makes
/// the whole balanced.
pub proof fn law_layer_then_pop_balanced(mode: CompositeMode)
    ensures
        depth_after(layer_calls(mode)) == 1,
        balanced(layer_calls(mode).push(XmlCall::End)),
{
    let attr = seq![XmlCall::Attribute("style"@, layer_style_text(mode))];
    lemma_attributes_neutral(Seq::empty());
    lemma_element("g"@, attr, Seq::empty());
    assert(layer_calls(mode).push(XmlCall::End) =~= element("g"@, attr, Seq::empty()));
    lemma_neutral_balanced(layer_calls(mode).push(XmlCall::End));
    assert(layer_calls(mode).push(XmlCall::End) =~= layer_calls(mode) + seq![XmlCall::End]);
    crate::xml::lemma_concat(layer_calls(mode), seq![XmlCall::End], 0);
    crate::xml::lemma_single(XmlCall::End, 0);
}

/// Law: a layer encloses whatever is drawn inside it. With any number of elements open
/// before `push_layer`, when everything drawn between it and `pop_layer` is balanced,
/// the whole closes exactly what it opens: the same elements are open afterwards.
pub proof fn law_layer_encloses(mode: CompositeMode, inside: Seq<XmlCall>)
    requires
        balanced(inside),
    ensures
        neutral(layer_calls(mode) + inside + seq![XmlCall::End]),
{
    lemma_balanced_neutral(inside);
    let attr = seq![XmlCall::Attribute("style"@, layer_style_text(mode))];
    lemma_element("g"@, attr, inside);
    assert(layer_calls(mode) + inside + seq![XmlCall::End] =~= element("g"@, attr, inside));
}

/// Law: a clip encloses whatever is drawn inside it. With any number of elements open
/// before the clip, when everything drawn between it and `pop_clip` is balanced, the
/// whole closes exactly what it opens.
pub proof fn law_clip_encloses(
    id: Seq<char>,
    outline: Option<MatrixText>,
    path: Seq<char>,
    inside: Seq<XmlCall>,
)
    requires
        balanced(inside),
    ensures
        neutral(clip_calls(id, outline, path) + inside + seq![XmlCall::End]),
{
    lemma_balanced_neutral(inside);
    let tr = transform_calls("transform"@, outline);
    let inner_attrs = tr + seq![XmlCall::Attribute("d"@, path)];
    lemma_attributes_concat(tr, seq![XmlCall::Attribute("d"@, path)]);
    lemma_attributes_neutral(Seq::empty());
    lemma_element("path"@, inner_attrs, Seq::empty());
    let inner = element("path"@, inner_attrs, Seq::empty());
    let id_attr = seq![XmlCall::Attribute("id"@, id)];
    lemma_element("clipPath"@, id_attr, inner);
    let group_attr = seq![XmlCall::Attribute("clip-path"@, url_text(id))];
    lemma_element("g"@, group_attr, inside);
    lemma_neutral_concat(element("clipPath"@, id_attr, inner), element("g"@, group_attr, inside));
    assert(clip_calls(id, outline, path) + inside + seq![XmlCall::End] =~= element(
        "clipPath"@,
        id_attr,
        inner,
    ) + element("g"@, group_attr, inside));
}

/// Law: the calls of a clip define the clip path with its id and then reference that
/// same id from the group they open.
pub proof fn law_clip_names_own_path(id: Seq<char>, outline: Option<MatrixText>, path: Seq<char>)
    ensures
        clip_calls(id, outline, path)[0] == XmlCall::Start("clipPath"@),
        clip_calls(id, outline, path)[1] == XmlCall::Attribute("id"@, id),
        clip_calls(id, outline, path).last() == XmlCall::Attribute("clip-path"@, url_text(id)),
{
}

/// The number of gradient ids used by the first `k` paints of `ps`.
pub open spec fn gradients_used_before(ps: Seq<Paint>, k: int) -> nat
    decreases k,
{
    if k <= 0 {
        0
    } else {
        gradients_used_before(ps, k - 1) + gradients_used(ps[k - 1])
    }
}

proof fn lemma_used_before_monotone(ps: Seq<Paint>, k1: int, k2: int)
    requires
        0 <= k1 <= k2,
    ensures
        gradients_used_before(ps, k1) <= gradients_used_before(ps, k2),
    decreases k2 - k1,
{
    if k1 < k2 {
        lemma_used_before_monotone(ps, k1, k2 - 1);
    }
}

/// Law: in a run of paints on one painter, starting with the gradient counter at `start`
/// and with nothing else changing it, paint `k` finds the counter at
/// `start + gradients_used_before(ps, k)` (the `ensures` of `paint`), so no two gradients
/// of the run get the same id.
pub proof fn law_paint_run_ids_distinct(start: nat, ps: Seq<Paint>, k1: int, k2: int)
    requires
        0 <= k1 < k2 < ps.len(),
        gradients_used(ps[k1]) == 1,
        gradients_used(ps[k2]) == 1,
    ensures
        gradient_id(start + gradients_used_before(ps, k1), ps[k1]) != gradient_id(
            start + gradients_used_before(ps, k2),
            ps[k2],
        ),
{
    lemma_used_before_monotone(ps, k1 + 1, k2);
    law_gradient_ids_distinct(
        start + gradients_used_before(ps, k1),
        ps[k1],
        start + gradients_used_before(ps, k2),
        ps[k2],
    );
}

/// Law: a gradient paint defines its gradient under its id first, then fills the
/// outline with a reference to that same id.
pub proof fn law_fill_names_own_gradient(
    index: nat,
    p: Paint,
    outline: Option<MatrixText>,
    path: Seq<char>,
)
    requires
        gradients_used(p) == 1,
    ensures
        paint_calls(index, p, outline, path)[1] == XmlCall::Attribute("id"@, gradient_id(index, p)),
        exists|j: int|
            1 < j < paint_calls(index, p, outline, path).len() && paint_calls(
                index,
                p,
                outline,
                path,
            )[j] == XmlCall::Attribute("fill"@, url_text(gradient_id(index, p))),
{
    let id = gradient_id(index, p);
    let fill = fill_path_calls(id, outline, path);
    match p {
        Paint::LinearGradient(g) => {
            let d = linear_definition_calls(id, g);
            assert(paint_calls(index, p, outline, path) == d + fill);
            assert((d + fill)[d.len() as int + 1] == fill[1]);
        },
        Paint::RadialGradient(g) => {
            let d = radial_definition_calls(id, g);
            assert(paint_calls(index, p, outline, path) == d + fill);
            assert((d + fill)[d.len() as int + 1] == fill[1]);
        },
        _ => {},
    }
}

/// The transform of a gradient paint; `None` for other paints.
pub open spec fn gradient_transform(p: Paint) -> Option<MatrixText> {
    match p {
        Paint::LinearGradient(g) => g.transform,
        Paint::RadialGradient(g) => g.transform,
        _ => None,
    }
}

/// The extend mode of a gradient paint; `Unknown` for other paints.
pub open spec fn gradient_extend(p: Paint) -> Extend {
    match p {
        Paint::LinearGradient(g) => g.extend,
        Paint::RadialGradient(g) => g.extend,
        _ => Extend::Unknown,
    }
}

/// The stops of a gradient paint; none for other paints.
pub open spec fn gradient_stops(p: Paint) -> Seq<GradientStop> {
    match p {
        Paint::LinearGradient(g) => g.stops@,
        Paint::RadialGradient(g) => g.stops@,
        _ => Seq::empty(),
    }
}

proof fn lemma_contains_left(a: Seq<XmlCall>, b: Seq<XmlCall>, x: XmlCall)
    requires
        a.contains(x),
    ensures
        (a + b).contains(x),
{
    let i = choose|i: int| 0 <= i < a.len() && a[i] == x;
    assert((a + b)[i] == x);
}

proof fn lemma_contains_right(a: Seq<XmlCall>, b: Seq<XmlCall>, x: XmlCall)
    requires
        b.contains(x),
    ensures
        (a + b).contains(x),
{
    let i = choose|i: int| 0 <= i < b.len() && b[i] == x;
    assert((a + b)[a.len() + i] == x);
}

/// The parts of a gradient paint's calls: the opening attributes, the spread method,
/// the gradient transform, the stops, and what follows them.
proof fn lemma_gradient_parts(index: nat, p: Paint, outline: Option<MatrixText>, path: Seq<char>)
    -> (r: (Seq<XmlCall>, Seq<XmlCall>))
    requires
        gradients_used(p) == 1,
    ensures
        paint_calls(index, p, outline, path) == r.0 + spread_calls(gradient_extend(p))
            + transform_calls("gradientTransform"@, gradient_transform(p)) + stops_calls(
            gradient_stops(p),
        ) + r.1,
        r.1 == seq![XmlCall::End] + fill_path_calls(gradient_id(index, p), outline, path),
        r.0.len() == (if p is RadialGradient {
            9int
        } else {
            7int
        }),
{
    let id = gradient_id(index, p);
    let tail = seq![XmlCall::End] + fill_path_calls(id, outline, path);
    match p {
        Paint::LinearGradient(g) => {
            let head = seq![
                XmlCall::Start("linearGradient"@),
                XmlCall::Attribute("id"@, id),
                XmlCall::Attribute("x1"@, g.x0@),
                XmlCall::Attribute("y1"@, g.y0@),
                XmlCall::Attribute("x2"@, g.x1@),
                XmlCall::Attribute("y2"@, g.y1@),
                XmlCall::Attribute("gradientUnits"@, "userSpaceOnUse"@),
            ];
            assert(paint_calls(index, p, outline, path) =~= head + spread_calls(g.extend)
                + transform_calls("gradientTransform"@, g.transform) + stops_calls(g.stops@)
                + tail);
            (head, tail)
        },
        Paint::RadialGradient(g) => {
            let head = seq![
                XmlCall::Start("radialGradient"@),
                XmlCall::Attribute("id"@, id),
                XmlCall::Attribute("cx"@, g.x1@),
                XmlCall::Attribute("cy"@, g.y1@),
                XmlCall::Attribute("r"@, g.r1@),
                XmlCall::Attribute("fr"@, g.r0@),
                XmlCall::Attribute("fx"@, g.x0@),
                XmlCall::Attribute("fy"@, g.y0@),
                XmlCall::Attribute("gradientUnits"@, "userSpaceOnUse"@),
            ];
            assert(paint_calls(index, p, outline, path) =~= head + spread_calls(g.extend)
                + transform_calls("gradientTransform"@, g.transform) + stops_calls(g.stops@)
                + tail);
            (head, tail)
        },
        _ => {
            (Seq::empty(), tail)
        },
    }
}

/// Law: a gradient paint writes the gradient's own transform as `gradientTransform`
/// whenever the gradient has one, linear and radial alike.
pub proof fn law_gradient_writes_its_transform(
    index: nat,
    p: Paint,
    outline: Option<MatrixText>,
    path: Seq<char>,
)
    requires
        gradients_used(p) == 1,
    ensures
        gradient_transform(p) matches Some(m) ==> paint_calls(index, p, outline, path).contains(
            XmlCall::Attribute("gradientTransform"@, matrix_text(m)),
        ),
{
    let (head, tail) = lemma_gradient_parts(index, p, outline, path);
    if let Some(m) = gradient_transform(p) {
        let x = XmlCall::Attribute("gradientTransform"@, matrix_text(m));
        let gt = transform_calls("gradientTransform"@, gradient_transform(p));
        assert(gt[0] == x);
        lemma_contains_right(head + spread_calls(gradient_extend(p)), gt, x);
        lemma_contains_left(head + spread_calls(gradient_extend(p)) + gt, stops_calls(gradient_stops(p)), x);
        lemma_contains_left(
            head + spread_calls(gradient_extend(p)) + gt + stops_calls(gradient_stops(p)),
            tail,
            x,
        );
    }
}

/// Law: a gradient paint writes the spread method of the gradient's own extend mode
/// whenever that mode has a keyword, linear and radial alike.
pub proof fn law_gradient_writes_its_spread_method(
    index: nat,
    p: Paint,
    outline: Option<MatrixText>,
    path: Seq<char>,
)
    requires
        gradients_used(p) == 1,
    ensures
        spread_keyword(gradient_extend(p)) matches Some(k) ==> paint_calls(
            index,
            p,
            outline,
            path,
        ).contains(XmlCall::Attribute("spreadMethod"@, k)),
{
    let (head, tail) = lemma_gradient_parts(index, p, outline, path);
    if let Some(k) = spread_keyword(gradient_extend(p)) {
        let x = XmlCall::Attribute("spreadMethod"@, k);
        let sp = spread_calls(gradient_extend(p));
        let gt = transform_calls("gradientTransform"@, gradient_transform(p));
        assert(sp[0] == x);
        lemma_contains_right(head, sp, x);
        lemma_contains_left(head + sp, gt, x);
        lemma_contains_left(head + sp + gt, stops_calls(gradient_stops(p)), x);
        lemma_contains_left(head + sp + gt + stops_calls(gradient_stops(p)), tail, x);
    }
}

/// Law: every extend mode but the unknown one has a spread-method keyword, and the
/// three keywords differ.
pub proof fn law_spread_keywords(e1: Extend, e2: Extend)
    ensures
        spread_keyword(e1) is Some <==> e1 != Extend::Unknown,
        spread_keyword(e1) is Some && spread_keyword(e1) == spread_keyword(e2) ==> e1 == e2,
{
    reveal_strlit("pad");
    reveal_strlit("repeat");
    reveal_strlit("reflect");
    assert("pad"@.len() == 3);
    assert("repeat"@.len() == 6);
    assert("reflect"@.len() == 7);
}

/// Law: every paint that draws writes the current outline as the path data and, when
/// there is an outline transform, writes it as the path's `transform`; solid colours
/// and gradients alike.
pub proof fn law_paint_draws_outline_with_its_transform(
    index: nat,
    p: Paint,
    outline: Option<MatrixText>,
    path: Seq<char>,
)
    requires
        !(p is SweepGradient),
    ensures
        paint_calls(index, p, outline, path).contains(XmlCall::Attribute("d"@, path)),
        outline matches Some(m) ==> paint_calls(index, p, outline, path).contains(
            XmlCall::Attribute("transform"@, matrix_text(m)),
        ),
{
    let tr = transform_calls("transform"@, outline);
    let d = XmlCall::Attribute("d"@, path);
    match p {
        Paint::Solid { color, opacity } => {
            let head = seq![
                XmlCall::Start("path"@),
                XmlCall::Attribute("fill"@, rgb_text(color)),
                XmlCall::Attribute("fill-opacity"@, opacity@),
            ];
            let tail = seq![d, XmlCall::End];
            assert(paint_calls(index, p, outline, path) =~= head + tr + tail);
            assert(tail[0] == d);
            lemma_contains_right(head + tr, tail, d);
            if let Some(m) = outline {
                let x = XmlCall::Attribute("transform"@, matrix_text(m));
                assert(tr[0] == x);
                lemma_contains_right(head, tr, x);
                lemma_contains_left(head + tr, tail, x);
            }
        },
        _ => {
            let (head, tail) = lemma_gradient_parts(index, p, outline, path);
            let id = gradient_id(index, p);
            let fhead = seq![XmlCall::Start("path"@), XmlCall::Attribute("fill"@, url_text(id))];
            let ftail = seq![d, XmlCall::End];
            let before = head + spread_calls(gradient_extend(p)) + transform_calls(
                "gradientTransform"@,
                gradient_transform(p),
            ) + stops_calls(gradient_stops(p)) + seq![XmlCall::End];
            assert(paint_calls(index, p, outline, path) =~= before + fhead + tr + ftail);
            assert(ftail[0] == d);
            lemma_contains_right(before + fhead + tr, ftail, d);
            if let Some(m) = outline {
                let x = XmlCall::Attribute("transform"@, matrix_text(m));
                assert(tr[0] == x);
                lemma_contains_right(before + fhead, tr, x);
                lemma_contains_left(before + fhead + tr, ftail, x);
            }
        },
    }
}

/// Law: the stops are written as one `stop` element per stop, in order and whatever
/// their colours: five calls per stop, the `k`-th group opening a `stop` with that
/// stop's offset, colour and opacity and closing it again.
pub proof fn law_stops_one_element_each(stops: Seq<GradientStop>)
    ensures
        stops_calls(stops).len() == 5 * stops.len(),
        forall|k: int|
            0 <= k < stops.len() ==> {
                &&& stops_calls(stops)[5 * k] == XmlCall::Start("stop"@)
                &&& stops_calls(stops)[5 * k + 1] == XmlCall::Attribute(
                    "offset"@,
                    (#[trigger] stops[k]).offset@,
                )
                &&& stops_calls(stops)[5 * k + 2] == XmlCall::Attribute(
                    "stop-color"@,
                    rgb_text(stops[k].color),
                )
                &&& stops_calls(stops)[5 * k + 3] == XmlCall::Attribute(
                    "stop-opacity"@,
                    stops[k].opacity@,
                )
                &&& stops_calls(stops)[5 * k + 4] == XmlCall::End
            },
    decreases stops.len(),
{
    if stops.len() > 0 {
        let prev = stops.drop_last();
        law_stops_one_element_each(prev);
        let a = stops_calls(prev);
        let b = stop_calls(stops.last());
        assert forall|k: int| 0 <= k < stops.len() implies {
            &&& stops_calls(stops)[5 * k] == XmlCall::Start("stop"@)
            &&& stops_calls(stops)[5 * k + 1] == XmlCall::Attribute(
                "offset"@,
                (#[trigger] stops[k]).offset@,
            )
            &&& stops_calls(stops)[5 * k + 2] == XmlCall::Attribute(
                "stop-color"@,
                rgb_text(stops[k].color),
            )
            &&& stops_calls(stops)[5 * k + 3] == XmlCall::Attribute(
                "stop-opacity"@,
                stops[k].opacity@,
            )
            &&& stops_calls(stops)[5 * k + 4] == XmlCall::End
        } by {
            if k < stops.len() - 1 {
                assert(prev[k] == stops[k]);
            } else {
                assert(stops.last() == stops[k]);
            }
        }
    }
}

/// Law: a gradient paint writes all of its gradient's stops as one contiguous run;
/// the run starts at the returned position.
pub proof fn law_gradient_writes_all_stops(
    index: nat,
    p: Paint,
    outline: Option<MatrixText>,
    path: Seq<char>,
) -> (j: int)
    requires
        gradients_used(p) == 1,
    ensures
        0 <= j,
        j + stops_calls(gradient_stops(p)).len() <= paint_calls(index, p, outline, path).len(),
        paint_calls(index, p, outline, path).subrange(j, j + stops_calls(gradient_stops(p)).len())
            == stops_calls(gradient_stops(p)),
{
    let (head, tail) = lemma_gradient_parts(index, p, outline, path);
    let before = head + spread_calls(gradient_extend(p)) + transform_calls(
        "gradientTransform"@,
        gradient_transform(p),
    );
    let st = stops_calls(gradient_stops(p));
    let calls = paint_calls(index, p, outline, path);
    let j = before.len() as int;
    assert(calls.subrange(j, j + st.len()) =~= st);
    j
}

/// Law: a layer's style names the mode's own CSS keyword, `normal` standing in for a
/// mode without one, in the form `mix-blend-mode: K; isolation: isolate`.
pub proof fn law_layer_style_names_the_mode(mode: CompositeMode)
    ensures
        layer_style_text(mode) == "mix-blend-mode: "@ + (match blend_keyword(mode) {
            Some(k) => k,
            None => "normal"@,
        }) + "; isolation: isolate"@,
        layer_calls(mode)[1] == XmlCall::Attribute("style"@, layer_style_text(mode)),
{
}

/// Law: different modes with keywords get different keywords, and only source-over is
/// drawn as `normal`.
pub proof fn law_blend_keywords_distinct(m1: CompositeMode, m2: CompositeMode)
    ensures
        blend_keyword(m1) is Some && blend_keyword(m1) == blend_keyword(m2) ==> m1 == m2,
        blend_keyword(m1) == Some("normal"@) <==> m1 == CompositeMode::SourceOver,
{
    reveal_strlit("normal");
    assert("normal"@.len() == 6 && "normal"@[0] == 'n' && "normal"@[1] == 'o');
    reveal_strlit("screen");
    assert("screen"@.len() == 6 && "screen"@[0] == 's' && "screen"@[1] == 'c');
    reveal_strlit("overlay");
    assert("overlay"@.len() == 7 && "overlay"@[0] == 'o' && "overlay"@[1] == 'v');
    reveal_strlit("darken");
    assert("darken"@.len() == 6 && "darken"@[0] == 'd' && "darken"@[1] == 'a');
    reveal_strlit("lighten");
    assert("lighten"@.len() == 7 && "lighten"@[0] == 'l' && "lighten"@[1] == 'i');
    reveal_strlit("color-dodge");
    assert("color-dodge"@.len() == 11 && "color-dodge"@[0] == 'c' && "color-dodge"@[1] == 'o');
    reveal_strlit("color-burn");
    assert("color-burn"@.len() == 10 && "color-burn"@[0] == 'c' && "color-burn"@[1] == 'o');
    reveal_strlit("hard-light");
    assert("hard-light"@.len() == 10 && "hard-light"@[0] == 'h' && "hard-light"@[1] == 'a');
    reveal_strlit("soft-light");
    assert("soft-light"@.len() == 10 && "soft-light"@[0] == 's' && "soft-light"@[1] == 'o');
    reveal_strlit("difference");
    assert("difference"@.len() == 10 && "difference"@[0] == 'd' && "difference"@[1] == 'i');
    reveal_strlit("exclusion");
    assert("exclusion"@.len() == 9 && "exclusion"@[0] == 'e' && "exclusion"@[1] == 'x');
    reveal_strlit("multiply");
    assert("multiply"@.len() == 8 && "multiply"@[0] == 'm' && "multiply"@[1] == 'u');
    reveal_strlit("hue");
    assert("hue"@.len() == 3 && "hue"@[0] == 'h' && "hue"@[1] == 'u');
    reveal_strlit("saturation");
    assert("saturation"@.len() == 10 && "saturation"@[0] == 's' && "saturation"@[1] == 'a');
    reveal_strlit("color");
    assert("color"@.len() == 5 && "color"@[0] == 'c' && "color"@[1] == 'o');
    reveal_strlit("luminosity");
    assert("luminosity"@.len() == 10 && "luminosity"@[0] == 'l' && "luminosity"@[1] == 'u');
}

/// Law: a linear gradient paint writes the gradient's own geometry, its start point as
/// `x1`/`y1` and its end point as `x2`/`y2`, in user-space units.
pub proof fn law_linear_writes_its_geometry(
    index: nat,
    g: LinearGradient,
    outline: Option<MatrixText>,
    path: Seq<char>,
)
    ensures
        ({
            let calls = paint_calls(index, Paint::LinearGradient(g), outline, path);
            &&& calls.contains(XmlCall::Attribute("x1"@, g.x0@))
            &&& calls.contains(XmlCall::Attribute("y1"@, g.y0@))
            &&& calls.contains(XmlCall::Attribute("x2"@, g.x1@))
            &&& calls.contains(XmlCall::Attribute("y2"@, g.y1@))
            &&& calls.contains(XmlCall::Attribute("gradientUnits"@, "userSpaceOnUse"@))
        }),
{
    let p = Paint::LinearGradient(g);
    let (head, tail) = lemma_gradient_parts(index, p, outline, path);
    let calls = paint_calls(index, p, outline, path);
    let rest = spread_calls(g.extend) + transform_calls("gradientTransform"@, g.transform)
        + stops_calls(g.stops@) + tail;
    assert(calls =~= head + rest);
    assert(calls[2] == XmlCall::Attribute("x1"@, g.x0@));
    assert(calls[3] == XmlCall::Attribute("y1"@, g.y0@));
    assert(calls[4] == XmlCall::Attribute("x2"@, g.x1@));
    assert(calls[5] == XmlCall::Attribute("y2"@, g.y1@));
    assert(calls[6] == XmlCall::Attribute("gradientUnits"@, "userSpaceOnUse"@));
}

/// Law: a radial gradient paint writes the gradient's own geometry: the end circle as
/// `cx`/`cy`/`r`, the start circle as `fx`/`fy`/`fr`, in user-space units.
pub proof fn law_radial_writes_its_geometry(
    index: nat,
    g: RadialGradient,
    outline: Option<MatrixText>,
    path: Seq<char>,
)
    ensures
        ({
            let calls = paint_calls(index, Paint::RadialGradient(g), outline, path);
            &&& calls.contains(XmlCall::Attribute("cx"@, g.x1@))
            &&& calls.contains(XmlCall::Attribute("cy"@, g.y1@))
            &&& calls.contains(XmlCall::Attribute("r"@, g.r1@))
            &&& calls.contains(XmlCall::Attribute("fr"@, g.r0@))
            &&& calls.contains(XmlCall::Attribute("fx"@, g.x0@))
            &&& calls.contains(XmlCall::Attribute("fy"@, g.y0@))
            &&& calls.contains(XmlCall::Attribute("gradientUnits"@, "userSpaceOnUse"@))
        }),
{
    let p = Paint::RadialGradient(g);
    let (head, tail) = lemma_gradient_parts(index, p, outline, path);
    let calls = paint_calls(index, p, outline, path);
    let rest = spread_calls(g.extend) + transform_calls("gradientTransform"@, g.transform)
        + stops_calls(g.stops@) + tail;
    assert(calls =~= head + rest);
    assert(calls[2] == XmlCall::Attribute("cx"@, g.x1@));
    assert(calls[3] == XmlCall::Attribute("cy"@, g.y1@));
    assert(calls[4] == XmlCall::Attribute("r"@, g.r1@));
    assert(calls[5] == XmlCall::Attribute("fr"@, g.r0@));
    assert(calls[6] == XmlCall::Attribute("fx"@, g.x0@));
    assert(calls[7] == XmlCall::Attribute("fy"@, g.y0@));
    assert(calls[8] == XmlCall::Attribute("gradientUnits"@, "userSpaceOnUse"@));
}

/// Law: a solid paint fills the outline with its own colour at its own opacity.
pub proof fn law_solid_writes_its_colour(
    index: nat,
    color: Rgba,
    opacity: String,
    outline: Option<MatrixText>,
    path: Seq<char>,
)
    ensures
        ({
            let calls = paint_calls(index, Paint::Solid { color, opacity }, outline, path);
            &&& calls[0] == XmlCall::Start("path"@)
            &&& calls.contains(XmlCall::Attribute("fill"@, rgb_text(color)))
            &&& calls.contains(XmlCall::Attribute("fill-opacity"@, opacity@))
        }),
{
    let calls = paint_calls(index, Paint::Solid { color, opacity }, outline, path);
    assert(calls[1] == XmlCall::Attribute("fill"@, rgb_text(color)));
    assert(calls[2] == XmlCall::Attribute("fill-opacity"@, opacity@));
}

/// One call when `o` holds a transform, none otherwise.
pub open spec fn transform_count(o: Option<MatrixText>) -> int {
    if o is Some {
        1
    } else {
        0
    }
}

/// One call when the extend mode `e` has a spread-method keyword, none otherwise.
pub open spec fn spread_count(e: Extend) -> int {
    if spread_keyword(e) is Some {
        1
    } else {
        0
    }
}

/// Law: a paint makes exactly the calls it needs and no more: a solid fill is a `path`
/// with fill, opacity, data and the outline transform when there is one; a gradient
/// adds to its fill path the definition's opening, its spread method when the extend
/// mode has a keyword, its transform when it has one, five calls per stop and the
/// closing; a sweep gradient writes nothing.
pub proof fn law_paint_call_count(
    index: nat,
    p: Paint,
    outline: Option<MatrixText>,
    path: Seq<char>,
)
    ensures
        paint_calls(index, p, outline, path).len() == match p {
            Paint::Solid { .. } => 5 + transform_count(outline),
            Paint::LinearGradient(g) => 7 + spread_count(g.extend) + transform_count(g.transform)
                + 5 * g.stops@.len() + 1 + 4 + transform_count(outline),
            Paint::RadialGradient(g) => 9 + spread_count(g.extend) + transform_count(g.transform)
                + 5 * g.stops@.len() + 1 + 4 + transform_count(outline),
            Paint::SweepGradient => 0,
        },
{
    match p {
        Paint::Solid { .. } => {},
        Paint::SweepGradient => {},
        _ => {
            law_stops_one_element_each(gradient_stops(p));
            let (head, tail) = lemma_gradient_parts(index, p, outline, path);
            let id = gradient_id(index, p);
            assert(fill_path_calls(id, outline, path).len() == 4 + transform_count(outline));
            assert(tail.len() == 5 + transform_count(outline));
            assert(spread_calls(gradient_extend(p)).len() == spread_count(gradient_extend(p)));
            assert(transform_calls("gradientTransform"@, gradient_transform(p)).len()
                == transform_count(gradient_transform(p)));
        },
    }
}

} // verus!
