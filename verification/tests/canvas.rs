use rustypaint::canvas::{
    clamp, custom_canvas, custom_fields, describe, even, read_field, size, size_for, NewCanvas,
    Ratio, MAX_CANVAS, MIN_CANVAS,
};

const FALLBACK: (u32, u32) = (1152, 648);

#[test]
fn the_default_is_what_the_document_already_was() {
    assert_eq!(NewCanvas::default(), NewCanvas::Fit(Ratio::Widescreen));
}

#[test]
fn a_fixed_size_is_itself() {
    assert_eq!(size_for(NewCanvas::Fixed(1920, 1080), None, FALLBACK), (1920, 1080));
    assert_eq!(size_for(NewCanvas::Custom(37, 4001), None, FALLBACK), (37, 4001));
}

#[test]
fn nothing_gets_out_of_bounds() {
    assert_eq!(size_for(NewCanvas::Custom(0, 0), None, FALLBACK), (16, 16));
    assert_eq!(
        size_for(NewCanvas::Custom(999_999, 999_999), None, FALLBACK),
        (MAX_CANVAS, MAX_CANVAS)
    );
    // A 90 000 pixel window leaves 89 952 pixels of room in each direction.
    let (w, h) = size_for(NewCanvas::Fit(Ratio::Square), Some((89_952, 89_952)), FALLBACK);
    assert!(w <= MAX_CANVAS && h <= MAX_CANVAS, "{w} x {h}");
}

#[test]
fn the_readout_says_which_way_the_size_was_arrived_at() {
    // A 1400 by 1000 window fits a 16:9 canvas of 1352 by 760.5 pixels.
    let fitted = describe(NewCanvas::Fit(Ratio::Widescreen), Some((1352, 761)), FALLBACK);
    assert!(fitted.contains("16:9") && fitted.contains("fitted"), "{fitted}");
    assert_eq!(fitted, "1352 x 760 px, 16:9 fitted to the window");
    let fixed = describe(NewCanvas::Fixed(1920, 1080), None, FALLBACK);
    assert_eq!(fixed, "1920 x 1080 px");
}

#[test]
fn a_window_with_no_room_gives_the_fallback() {
    assert_eq!(size_for(NewCanvas::Fit(Ratio::Square), None, FALLBACK), FALLBACK);
    assert_eq!(
        describe(NewCanvas::Fit(Ratio::Portrait), None, FALLBACK),
        "1152 x 648 px, 9:16 fitted to the window"
    );
}

#[test]
fn every_fitted_side_is_even_and_within_the_limits() {
    for side in [0u32, 1, 15, 16, 17, 451, 452, 19_999, 20_000, 20_001, u32::MAX] {
        let (w, h) = size_for(NewCanvas::Fit(Ratio::Photo), Some((side, side)), FALLBACK);
        assert_eq!(w % 2, 0, "{w} is odd");
        assert_eq!(h % 2, 0, "{h} is odd");
        assert!((MIN_CANVAS..=MAX_CANVAS).contains(&w));
    }
}

#[test]
fn clamping_and_evening_give_exact_sides() {
    assert_eq!(clamp(0), 16);
    assert_eq!(clamp(16), 16);
    assert_eq!(clamp(1234), 1234);
    assert_eq!(clamp(20_000), 20_000);
    assert_eq!(clamp(20_001), 20_000);
    assert_eq!(even(17), 16);
    assert_eq!(even(761), 760);
    assert_eq!(even(762), 762);
    assert_eq!(even(3), 16);
    assert_eq!(even(u32::MAX), 20_000);
}

#[test]
fn a_size_reads_width_then_height() {
    assert_eq!(size(3840, 2160), "3840 x 2160");
    assert_eq!(size(0, 7), "0 x 7");
    assert_eq!(size(u32::MAX, 10), "4294967295 x 10");
}

#[test]
fn every_shape_has_its_label() {
    let names: Vec<&str> = Ratio::all().into_iter().map(|r| r.name()).collect();
    assert_eq!(names, ["16:9", "4:3", "3:2", "1:1", "9:16"]);
}

#[test]
fn the_custom_boxes_show_the_preset_or_a_blank_document() {
    assert_eq!(
        custom_fields(NewCanvas::Custom(640, 480), FALLBACK),
        ("640".to_string(), "480".to_string())
    );
    assert_eq!(
        custom_fields(NewCanvas::Fixed(2480, 3508), FALLBACK),
        ("2480".to_string(), "3508".to_string())
    );
    assert_eq!(
        custom_fields(NewCanvas::Fit(Ratio::Square), FALLBACK),
        ("1152".to_string(), "648".to_string())
    );
}

#[test]
fn a_custom_size_is_only_taken_once_both_halves_are_numbers() {
    let mut preset = NewCanvas::Custom(100, 100);
    let mut fields = custom_fields(preset, FALLBACK);

    fields.0 = String::new();
    if let Some(typed) = custom_canvas(&fields) {
        preset = typed;
    }
    assert_eq!(preset, NewCanvas::Custom(100, 100), "half typed, left alone");

    fields.0 = "640".into();
    if let Some(typed) = custom_canvas(&fields) {
        preset = typed;
    }
    fields.1 = "480".into();
    if let Some(typed) = custom_canvas(&fields) {
        preset = typed;
    }
    assert_eq!(preset, NewCanvas::Custom(640, 480));

    fields.1 = "nonsense".into();
    if let Some(typed) = custom_canvas(&fields) {
        preset = typed;
    }
    assert_eq!(preset, NewCanvas::Custom(640, 480), "rubbish changes nothing");
}

#[test]
fn a_custom_size_is_trimmed_held_to_the_limit_and_never_zero() {
    let typed = |w: &str, h: &str| custom_canvas(&(w.to_string(), h.to_string()));
    assert_eq!(typed(" 640 ", "\t480\n"), Some(NewCanvas::Custom(640, 480)));
    assert_eq!(typed("+12", "0012"), Some(NewCanvas::Custom(12, 12)));
    assert_eq!(typed("99999", "5"), Some(NewCanvas::Custom(MAX_CANVAS, 5)));
    assert_eq!(typed("0", "5"), None);
    assert_eq!(typed("-5", "5"), None);
    assert_eq!(typed("4294967296", "5"), None);
    assert_eq!(typed("1.5", "5"), None);
    assert_eq!(typed("+", "5"), None);
}

#[test]
fn a_box_reads_as_u32_parse_reads_it() {
    for text in ["", " ", "7", " 42 ", "+9", "++9", "-0", "4294967295", "4294967296", "1_000", "\u{a0}12\u{3000}", "٣"] {
        assert_eq!(read_field(text), text.trim().parse::<u32>().ok(), "{text:?}");
    }
}

#[test]
fn the_boxes_read_back_as_the_size_they_show() {
    for preset in [NewCanvas::Custom(640, 480), NewCanvas::Fixed(1, MAX_CANVAS), NewCanvas::Fit(Ratio::Square)] {
        let fields = custom_fields(preset, (1920, 1080));
        let expected = match preset {
            NewCanvas::Custom(w, h) | NewCanvas::Fixed(w, h) => NewCanvas::Custom(w, h),
            NewCanvas::Fit(_) => NewCanvas::Custom(1920, 1080),
        };
        assert_eq!(custom_canvas(&fields), Some(expected));
    }
}
