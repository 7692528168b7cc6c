use rustypaint::region::{dragged_edges, Cropping, Handle, Rect};

#[test]
fn a_rect_knows_its_size() {
    let r = Rect::new(2, 3, 10, 7);
    assert_eq!((r.width(), r.height()), (8, 4));
    assert!(!r.is_empty());
    assert!(Rect::new(4, 4, 4, 9).is_empty());
}

#[test]
fn cropping_starts_as_the_whole_canvas() {
    let cropping = Cropping::new((400, 300));
    assert_eq!(cropping.rect, Rect::new(0, 0, 400, 300));
    assert_eq!(cropping.fields, ("400".to_string(), "300".to_string()));
    assert!(!cropping.lock);
    assert!(cropping.grabbed.is_none());
}

#[test]
fn the_crop_fields_move_the_frame() {
    let canvas = (400, 300);
    let mut cropping = Cropping::new(canvas);
    cropping.crop_field("120".into(), true, canvas);
    cropping.crop_field("90".into(), false, canvas);

    let frame = cropping.rect;
    assert_eq!((frame.width(), frame.height()), (120, 90));

    cropping.crop_field(String::new(), true, canvas);
    assert_eq!(cropping.rect.width(), 120);
    assert_eq!(cropping.fields.0, "");
}

#[test]
fn a_typed_crop_is_at_least_a_pixel_and_stops_at_the_canvas() {
    let canvas = (400, 300);
    let mut cropping = Cropping::new(canvas);
    cropping.rect = Rect::new(100, 50, 200, 150);
    cropping.crop_field(" 0 ".into(), true, canvas);
    assert_eq!(cropping.rect, Rect::new(100, 50, 101, 150));
    cropping.crop_field("1000".into(), false, canvas);
    assert_eq!(cropping.rect, Rect::new(100, 50, 101, 300));
    assert_eq!(cropping.fields, (" 0 ".to_string(), "1000".to_string()));
}

#[test]
fn the_fields_follow_the_frame() {
    let mut cropping = Cropping::new((400, 300));
    cropping.rect = Rect::new(10, 20, 110, 70);
    cropping.sync();
    assert_eq!(cropping.fields, ("100".to_string(), "50".to_string()));
}

#[test]
fn a_grip_moves_only_its_own_edges() {
    let from = Rect::new(100, 100, 200, 200);
    let canvas = (400, 300);
    assert_eq!(dragged_edges(from, Handle::Right, (250, 0), canvas), Rect::new(100, 100, 250, 200));
    assert_eq!(dragged_edges(from, Handle::Left, (-50, 999), canvas), Rect::new(0, 100, 200, 200));
    assert_eq!(dragged_edges(from, Handle::Top, (0, 150), canvas), Rect::new(100, 150, 200, 200));
    assert_eq!(dragged_edges(from, Handle::BottomRight, (999, 999), canvas), Rect::new(100, 100, 400, 300));
    assert_eq!(dragged_edges(from, Handle::TopLeft, (150, 150), canvas), Rect::new(150, 150, 200, 200));
}

#[test]
fn a_grip_cannot_turn_the_frame_inside_out() {
    let from = Rect::new(100, 100, 200, 200);
    let canvas = (400, 300);
    assert_eq!(dragged_edges(from, Handle::Left, (300, 0), canvas), Rect::new(199, 100, 200, 200));
    assert_eq!(dragged_edges(from, Handle::Bottom, (0, 10), canvas), Rect::new(100, 100, 200, 101));
}

#[test]
fn a_grip_dragged_far_off_the_canvas_leaves_a_frame_on_it() {
    let from = Rect::new(10, 10, 20, 20);
    for handle in [Handle::TopLeft, Handle::BottomRight, Handle::Left, Handle::Bottom] {
        for to in [(-1000, -1000), (1000, 1000), (15, 15)] {
            let r = dragged_edges(from, handle, to, (40, 30));
            assert!(r.x0 < r.x1 && r.y0 < r.y1, "{handle:?} to {to:?} gave {r:?}");
            assert!(r.x1 <= 40 && r.y1 <= 30, "{handle:?} to {to:?} gave {r:?}");
        }
    }
    assert_eq!(dragged_edges(from, Handle::BottomRight, (1000, 1000), (40, 30)), Rect::new(10, 10, 40, 30));
    assert_eq!(dragged_edges(from, Handle::TopLeft, (25, 25), (40, 30)), Rect::new(19, 19, 20, 20));
}
