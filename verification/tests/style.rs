use usvg_colr::style::{
    blend_mode_name, clip_box_path, element_id, layer_style, matrix_value, rgb_value,
    spread_method_value, url_reference, CompositeMode, Extend, MatrixText, Rgba,
};

fn matrix(v: [&str; 6]) -> MatrixText {
    MatrixText {
        a: v[0].to_string(),
        b: v[1].to_string(),
        c: v[2].to_string(),
        d: v[3].to_string(),
        e: v[4].to_string(),
        f: v[5].to_string(),
    }
}

#[test]
fn rgb_value_writes_channels_in_decimal_without_alpha() {
    let c = Rgba { red: 255, green: 0, blue: 17, alpha: 128 };
    assert_eq!(rgb_value(&c), "rgb(255, 0, 17)");
    let black = Rgba { red: 0, green: 0, blue: 0, alpha: 0 };
    assert_eq!(rgb_value(&black), "rgb(0, 0, 0)");
}

#[test]
fn blend_modes_with_css_keywords() {
    let cases = [
        (CompositeMode::SourceOver, "normal"),
        (CompositeMode::Screen, "screen"),
        (CompositeMode::Overlay, "overlay"),
        (CompositeMode::Darken, "darken"),
        (CompositeMode::Lighten, "lighten"),
        (CompositeMode::ColorDodge, "color-dodge"),
        (CompositeMode::ColorBurn, "color-burn"),
        (CompositeMode::HardLight, "hard-light"),
        (CompositeMode::SoftLight, "soft-light"),
        (CompositeMode::Difference, "difference"),
        (CompositeMode::Exclusion, "exclusion"),
        (CompositeMode::Multiply, "multiply"),
        (CompositeMode::Hue, "hue"),
        (CompositeMode::Saturation, "saturation"),
        (CompositeMode::Color, "color"),
        (CompositeMode::Luminosity, "luminosity"),
    ];
    for (mode, name) in cases {
        assert_eq!(blend_mode_name(mode), Some(name));
    }
}

#[test]
fn blend_modes_without_css_keywords() {
    let cases = [
        CompositeMode::Clear,
        CompositeMode::Source,
        CompositeMode::Destination,
        CompositeMode::DestinationOver,
        CompositeMode::SourceIn,
        CompositeMode::DestinationIn,
        CompositeMode::SourceOut,
        CompositeMode::DestinationOut,
        CompositeMode::SourceAtop,
        CompositeMode::DestinationAtop,
        CompositeMode::Xor,
        CompositeMode::Plus,
        CompositeMode::Unknown,
    ];
    for mode in cases {
        assert_eq!(blend_mode_name(mode), None);
    }
}

#[test]
fn layer_style_of_a_supported_mode() {
    let (style, supported) = layer_style(CompositeMode::Multiply);
    assert_eq!(style, "mix-blend-mode: multiply; isolation: isolate");
    assert!(supported);
}

#[test]
fn layer_style_falls_back_to_normal() {
    let (style, supported) = layer_style(CompositeMode::Xor);
    assert_eq!(style, "mix-blend-mode: normal; isolation: isolate");
    assert!(!supported);
}

#[test]
fn spread_methods() {
    assert_eq!(spread_method_value(Extend::Pad), Some("pad"));
    assert_eq!(spread_method_value(Extend::Repeat), Some("repeat"));
    assert_eq!(spread_method_value(Extend::Reflect), Some("reflect"));
    assert_eq!(spread_method_value(Extend::Unknown), None);
}

#[test]
fn matrix_value_lists_six_entries() {
    assert_eq!(matrix_value(&matrix(["1", "0", "0", "1", "2.5", "-3"])), "matrix(1 0 0 1 2.5 -3)");
}

#[test]
fn ids_and_references() {
    assert_eq!(element_id("lg", 0), "lg0");
    assert_eq!(element_id("cp", 123), "cp123");
    assert_eq!(url_reference("rg7"), "url(#rg7)");
}

#[test]
fn ids_from_different_indices_differ() {
    for i in 0..50usize {
        for j in 0..50usize {
            if i != j {
                assert_ne!(element_id("lg", i), element_id("rg", j));
                assert_ne!(element_id("lg", i), element_id("lg", j));
            }
        }
    }
}

#[test]
fn clip_box_path_is_a_closed_rectangle() {
    assert_eq!(clip_box_path("0", "1", "10", "20"), "M 0 1 L 10 1 L 10 20 L 0 20 Z");
}
