//! SVG attribute values: colours, blend modes, spread methods, transform matrices,
//! element ids and references. Numbers that are not integers arrive already rendered
//! as text.

use vstd::prelude::*;
use crate::text::{decimal, push_decimal, push_str};

verus! {

/// An RGBA colour with 8-bit channels.
#[derive(Clone, Copy, Debug, PartialEq, Eq)]
pub struct Rgba {
    pub red: u8,
    pub green: u8,
    pub blue: u8,
    pub alpha: u8,
}

/// `rgb(R, G, B)` with each channel in decimal; alpha is not part of it.
pub open spec fn rgb_text(c: Rgba) -> Seq<char> {
    "rgb("@ + decimal(c.red as nat) + ", "@ + decimal(c.green as nat) + ", "@ + decimal(
        c.blue as nat,
    ) + ")"@
}

/// The value of a colour attribute: `rgb(R, G, B)`.
pub fn rgb_value(color: &Rgba) -> (s: String)
    ensures
        s@ == rgb_text(*color),
{
    let mut s = String::new();
    push_str(&mut s, "rgb(");
    push_decimal(&mut s, color.red as u64);
    push_str(&mut s, ", ");
    push_decimal(&mut s, color.green as u64);
    push_str(&mut s, ", ");
    push_decimal(&mut s, color.blue as u64);
    push_str(&mut s, ")");
    proof {
        assert(s@ =~= rgb_text(*color));
    }
    s
}

/// The compositing and blending modes of a COLR layer.
#[derive(Clone, Copy, Debug, PartialEq, Eq)]
pub enum CompositeMode {
    Clear,
    Source,
    Destination,
    SourceOver,
    DestinationOver,
    SourceIn,
    DestinationIn,
    SourceOut,
    DestinationOut,
    SourceAtop,
    DestinationAtop,
    Xor,
    Plus,
    Screen,
    Overlay,
    Darken,
    Lighten,
    ColorDodge,
    ColorBurn,
    HardLight,
    SoftLight,
    Difference,
    Exclusion,
    Multiply,
    Hue,
    Saturation,
    Color,
    Luminosity,
    Unknown,
}

/// The CSS `mix-blend-mode` keyword of a mode that SVG can express, `None` for the
/// Porter-Duff operators other than source-over and for unknown modes.
pub open spec fn blend_keyword(m: CompositeMode) -> Option<Seq<char>> {
    match m {
        CompositeMode::SourceOver => Some("normal"@),
        CompositeMode::Screen => Some("screen"@),
        CompositeMode::Overlay => Some("overlay"@),
        CompositeMode::Darken => Some("darken"@),
        CompositeMode::Lighten => Some("lighten"@),
        CompositeMode::ColorDodge => Some("color-dodge"@),
        CompositeMode::ColorBurn => Some("color-burn"@),
        CompositeMode::HardLight => Some("hard-light"@),
        CompositeMode::SoftLight => Some("soft-light"@),
        CompositeMode::Difference => Some("difference"@),
        CompositeMode::Exclusion => Some("exclusion"@),
        CompositeMode::Multiply => Some("multiply"@),
        CompositeMode::Hue => Some("hue"@),
        CompositeMode::Saturation => Some("saturation"@),
        CompositeMode::Color => Some("color"@),
        CompositeMode::Luminosity => Some("luminosity"@),
        _ => None,
    }
}

/// The keyword used for a layer: its own where it has one, `normal` otherwise.
pub open spec fn effective_blend_keyword(m: CompositeMode) -> Seq<char> {
    match blend_keyword(m) {
        Some(k) => k,
        None => "normal"@,
    }
}

/// The `style` value of a layer group.
pub open spec fn layer_style_text(m: CompositeMode) -> Seq<char> {
    "mix-blend-mode: "@ + effective_blend_keyword(m) + "; isolation: isolate"@
}

/// The CSS keyword of `mode`, or `None` where SVG has no counterpart.
pub fn blend_mode_name(mode: CompositeMode) -> (r: Option<&'static str>)
    ensures
        r is Some <==> blend_keyword(mode) is Some,
        r matches Some(k) ==> blend_keyword(mode) == Some(k@),
{
    match mode {
        CompositeMode::SourceOver => Some("normal"),
        CompositeMode::Screen => Some("screen"),
        CompositeMode::Overlay => Some("overlay"),
        CompositeMode::Darken => Some("darken"),
        CompositeMode::Lighten => Some("lighten"),
        CompositeMode::ColorDodge => Some("color-dodge"),
        CompositeMode::ColorBurn => Some("color-burn"),
        CompositeMode::HardLight => Some("hard-light"),
        CompositeMode::SoftLight => Some("soft-light"),
        CompositeMode::Difference => Some("difference"),
        CompositeMode::Exclusion => Some("exclusion"),
        CompositeMode::Multiply => Some("multiply"),
        CompositeMode::Hue => Some("hue"),
        CompositeMode::Saturation => Some("saturation"),
        CompositeMode::Color => Some("color"),
        CompositeMode::Luminosity => Some("luminosity"),
        _ => None,
    }
}

/// The `style` value of a layer group, `mix-blend-mode: K; isolation: isolate`, and
/// whether `mode` has a keyword of its own (when it has none, `normal` stands in).
pub fn layer_style(mode: CompositeMode) -> (r: (String, bool))
    ensures
        r.0@ == layer_style_text(mode),
        r.1 == (blend_keyword(mode) is Some),
{
    let (keyword, supported) = match blend_mode_name(mode) {
        Some(k) => (k, true),
        None => ("normal", false),
    };
    let mut s = String::new();
    push_str(&mut s, "mix-blend-mode: ");
    push_str(&mut s, keyword);
    push_str(&mut s, "; isolation: isolate");
    proof {
        assert(s@ =~= layer_style_text(mode));
    }
    (s, supported)
}

/// How a gradient continues beyond its first and last stops.
#[derive(Clone, Copy, Debug, PartialEq, Eq)]
pub enum Extend {
    Pad,
    Repeat,
    Reflect,
    Unknown,
}

/// The `spreadMethod` value of an extend mode; `None` for an unknown one.
pub open spec fn spread_keyword(e: Extend) -> Option<Seq<char>> {
    match e {
        Extend::Pad => Some("pad"@),
        Extend::Repeat => Some("repeat"@),
        Extend::Reflect => Some("reflect"@),
        Extend::Unknown => None,
    }
}

/// The `spreadMethod` value of `extend`, if it has one.
pub fn spread_method_value(extend: Extend) -> (r: Option<&'static str>)
    ensures
        r is Some <==> spread_keyword(extend) is Some,
        r matches Some(k) ==> spread_keyword(extend) == Some(k@),
{
    match extend {
        Extend::Pad => Some("pad"),
        Extend::Repeat => Some("repeat"),
        Extend::Reflect => Some("reflect"),
        Extend::Unknown => None,
    }
}

/// The six entries of a transform matrix, each already rendered as text, in the
/// order in which they are written.
#[derive(Debug)]
pub struct MatrixText {
    pub a: String,
    pub b: String,
    pub c: String,
    pub d: String,
    pub e: String,
    pub f: String,
}

/// `matrix(a b c d e f)`.
pub open spec fn matrix_text(m: MatrixText) -> Seq<char> {
    "matrix("@ + m.a@ + " "@ + m.b@ + " "@ + m.c@ + " "@ + m.d@ + " "@ + m.e@ + " "@ + m.f@
        + ")"@
}

/// The value of a transform attribute: `matrix(a b c d e f)`.
pub fn matrix_value(m: &MatrixText) -> (s: String)
    ensures
        s@ == matrix_text(*m),
{
    let mut s = String::new();
    push_str(&mut s, "matrix(");
    push_str(&mut s, m.a.as_str());
    push_str(&mut s, " ");
    push_str(&mut s, m.b.as_str());
    push_str(&mut s, " ");
    push_str(&mut s, m.c.as_str());
    push_str(&mut s, " ");
    push_str(&mut s, m.d.as_str());
    push_str(&mut s, " ");
    push_str(&mut s, m.e.as_str());
    push_str(&mut s, " ");
    push_str(&mut s, m.f.as_str());
    push_str(&mut s, ")");
    proof {
        assert(s@ =~= matrix_text(*m));
    }
    s
}

/// An element id: `prefix` followed by `index` in decimal.
pub open spec fn id_text(prefix: Seq<char>, index: nat) -> Seq<char> {
    prefix + decimal(index)
}

/// The id `prefix` + `index`, as `format!("{prefix}{index}")` gives it.
pub fn element_id(prefix: &str, index: usize) -> (s: String)
    ensures
        s@ == id_text(prefix@, index as nat),
{
    let mut s = String::new();
    push_str(&mut s, prefix);
    push_decimal(&mut s, index as u64);
    proof {
        assert(s@ =~= id_text(prefix@, index as nat));
    }
    s
}

/// A reference to the element with id `id`: `url(#id)`.
pub open spec fn url_text(id: Seq<char>) -> Seq<char> {
    "url(#"@ + id + ")"@
}

/// The value `url(#id)`.
pub fn url_reference(id: &str) -> (s: String)
    ensures
        s@ == url_text(id@),
{
    let mut s = String::new();
    push_str(&mut s, "url(#");
    push_str(&mut s, id);
    push_str(&mut s, ")");
    proof {
        assert(s@ =~= url_text(id@));
    }
    s
}

/// The outline of a clip box: `M x0 y0 L x1 y0 L x1 y1 L x0 y1 Z`.
pub open spec fn clip_box_text(
    x_min: Seq<char>,
    y_min: Seq<char>,
    x_max: Seq<char>,
    y_max: Seq<char>,
) -> Seq<char> {
    "M "@ + x_min + " "@ + y_min + " L "@ + x_max + " "@ + y_min + " L "@ + x_max + " "@ + y_max
        + " L "@ + x_min + " "@ + y_max + " Z"@
}

/// The closed rectangular path around a clip box.
pub fn clip_box_path(x_min: &str, y_min: &str, x_max: &str, y_max: &str) -> (s: String)
    ensures
        s@ == clip_box_text(x_min@, y_min@, x_max@, y_max@),
{
    let mut s = String::new();
    push_str(&mut s, "M ");
    push_str(&mut s, x_min);
    push_str(&mut s, " ");
    push_str(&mut s, y_min);
    push_str(&mut s, " L ");
    push_str(&mut s, x_max);
    push_str(&mut s, " ");
    push_str(&mut s, y_min);
    push_str(&mut s, " L ");
    push_str(&mut s, x_max);
    push_str(&mut s, " ");
    push_str(&mut s, y_max);
    push_str(&mut s, " L ");
    push_str(&mut s, x_min);
    push_str(&mut s, " ");
    push_str(&mut s, y_max);
    push_str(&mut s, " Z");
    proof {
        assert(s@ =~= clip_box_text(x_min@, y_min@, x_max@, y_max@));
    }
    s
}

/// Law: ids made from prefixes of the same length and two different indices differ.
pub proof fn law_ids_distinct(prefix1: Seq<char>, i: nat, prefix2: Seq<char>, j: nat)
    requires
        prefix1.len() == prefix2.len(),
        i != j,
    ensures
        id_text(prefix1, i) != id_text(prefix2, j),
{
    if id_text(prefix1, i) == id_text(prefix2, j) {
        let n = prefix1.len() as int;
        assert(id_text(prefix1, i).subrange(n, id_text(prefix1, i).len() as int) =~= decimal(i));
        assert(id_text(prefix2, j).subrange(n, id_text(prefix2, j).len() as int) =~= decimal(j));
        crate::text::lemma_decimal_injective(i, j);
    }
}

} // verus!
