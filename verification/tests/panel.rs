use rustypaint::panel::{CanvasPanel, CutoutPreview, Field};

#[test]
fn each_field_shows_its_own_unit() {
    assert_eq!(Field::BlurAngle.unit(), "\u{b0}");
    assert_eq!(Field::Opacity.unit(), "%");
    assert_eq!(Field::CutoutTolerance.unit(), "%");
    assert_eq!(Field::BlurPasses.unit(), "");
    assert_eq!(Field::BlurBlades.unit(), "");
    assert_eq!(Field::Thickness.unit(), "px");
    assert_eq!(Field::FloatX.unit(), "px");
}

#[test]
fn fractions_are_shown_in_percent() {
    for field in [
        Field::Hardness,
        Field::Opacity,
        Field::CutoutTolerance,
        Field::Stabilizer,
        Field::Tolerance,
        Field::BlurDetail,
        Field::FloatOpacity,
    ] {
        assert!(field.in_percent(), "{field:?}");
    }
    for field in [Field::Thickness, Field::BlurAngle, Field::BlurPasses, Field::CutoutShift] {
        assert!(!field.in_percent(), "{field:?}");
    }
}

#[test]
fn the_unit_comes_off_while_a_box_is_edited() {
    assert_eq!(Field::Thickness.editable("12px"), "12");
    assert_eq!(Field::Thickness.editable("12pxpx"), "12");
    assert_eq!(Field::Thickness.editable("px12"), "px12");
    assert_eq!(Field::Opacity.editable("50%"), "50");
    assert_eq!(Field::BlurAngle.editable("45\u{b0}"), "45");
    assert_eq!(Field::BlurPasses.editable("3"), "3");
    assert_eq!(Field::Thickness.editable(""), "");
    for text in ["12px", "12pxpx", "px", "p", "1 px"] {
        assert_eq!(Field::Thickness.editable(text), text.trim_end_matches("px"));
    }
}

#[test]
fn the_panel_starts_in_pixels_with_the_aspect_locked() {
    let panel = CanvasPanel::new((1920, 1080));
    assert_eq!(panel.width, "1920");
    assert_eq!(panel.height, "1080");
    assert!(panel.lock_aspect);
    assert!(!panel.resize_image);
    assert!(!panel.percent);
    assert!(panel.show_canvas);
}

#[test]
fn the_fields_follow_the_size_in_the_unit_chosen() {
    let mut panel = CanvasPanel::new((10, 20));
    panel.sync((300, 200));
    assert_eq!((panel.width.as_str(), panel.height.as_str()), ("300", "200"));
    panel.percent = true;
    panel.sync((300, 200));
    assert_eq!((panel.width.as_str(), panel.height.as_str()), ("100", "100"));
}

#[test]
fn the_previews_come_in_order() {
    assert_eq!(
        CutoutPreview::all(),
        vec![CutoutPreview::Overlay, CutoutPreview::Checkerboard, CutoutPreview::Colour]
    );
}
