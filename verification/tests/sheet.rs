use rustypaint::region::Rect;
use rustypaint::sheet::{drag_rect, Document, Sheet};

const RED: [u8; 4] = [255, 0, 0, 255];

fn app(width: u32, height: u32) -> Sheet {
    Sheet::new(Document::blank_sized(width, height))
}

fn fill_canvas(app: &mut Sheet, colour: [u8; 4]) {
    for pixel in app.doc.pixels.iter_mut() {
        *pixel = colour;
    }
}

fn drag_selection(app: &mut Sheet, a: (i64, i64), b: (i64, i64)) {
    app.select_began(a.0, a.1);
    app.select_moved(b.0, b.1);
    app.select_ended();
}

fn pixel(app: &Sheet, x: u32, y: u32) -> [u8; 4] {
    app.doc.pick(x as i64, y as i64).unwrap()
}

/// Where a click lands, the way the canvas reports it: a press and a release.
fn click(app: &mut Sheet, colour: &mut [u8; 4], x: i64, y: i64) {
    app.commit_floating();
    if let Some(picked) = app.doc.eyedropper(x, y) {
        *colour = picked;
    }
}

#[test]
fn the_pipette_leaves_the_colour_alone_over_nothing() {
    let mut app = app(8, 8);
    let mut colour = [9, 9, 9, 255];
    click(&mut app, &mut colour, 4, 4);
    assert_eq!(colour, [9, 9, 9, 255]);
}

#[test]
fn dragging_a_selection_lifts_it_off_the_canvas() {
    let mut app = app(16, 16);
    fill_canvas(&mut app, RED);
    drag_selection(&mut app, (2, 2), (8, 8));

    assert!(app.floating.is_some(), "there should be something floating");
    assert_eq!(pixel(&app, 4, 4), [0, 0, 0, 0], "and a hole where it was");
    assert_eq!(pixel(&app, 12, 12), RED, "elsewhere untouched");
}

#[test]
fn a_selection_dragged_backwards_still_works() {
    let mut app = app(16, 16);
    fill_canvas(&mut app, RED);
    drag_selection(&mut app, (10, 10), (4, 4));
    assert!(app.floating.is_some());
}

#[test]
fn a_stray_click_does_not_select_anything() {
    let mut app = app(16, 16);
    fill_canvas(&mut app, RED);
    drag_selection(&mut app, (5, 5), (5, 5));
    assert!(app.floating.is_none(), "a zero-sized drag is not a selection");
    assert_eq!(pixel(&app, 5, 5), RED, "and nothing was lifted");
}

#[test]
fn starting_a_new_selection_puts_down_the_old_one() {
    let mut app = app(16, 16);
    fill_canvas(&mut app, RED);
    drag_selection(&mut app, (0, 0), (4, 4));
    drag_selection(&mut app, (8, 8), (12, 12));

    assert!(app.floating.is_some());
    assert_eq!(pixel(&app, 1, 1), RED);
}

#[test]
fn the_pipette_takes_the_colour_under_it() {
    let mut app = app(8, 8);
    fill_canvas(&mut app, [1, 2, 3, 4]);
    let mut colour = [9, 9, 9, 255];
    click(&mut app, &mut colour, 3, 3);
    assert_eq!(colour, [1, 2, 3, 4]);
    click(&mut app, &mut colour, -1, 3);
    click(&mut app, &mut colour, 3, 8);
    assert_eq!(colour, [1, 2, 3, 4], "nothing to take off the canvas");
}

#[test]
fn a_selection_put_back_down_gives_the_picture_back() {
    let mut app = app(5, 4);
    for (i, pixel) in app.doc.pixels.iter_mut().enumerate() {
        *pixel = [i as u8, 2 * i as u8, 3, 255];
    }
    let before = app.doc.pixels.clone();
    drag_selection(&mut app, (1, 1), (4, 3));
    assert_eq!(app.floating.as_ref().unwrap().pixels.len(), 6);
    assert_eq!(pixel(&app, 1, 1), [0, 0, 0, 0]);
    app.commit_floating();
    assert!(app.floating.is_none());
    assert_eq!(app.doc.pixels, before);
}

#[test]
fn a_drag_one_pixel_across_is_too_small_to_be_meant() {
    let mut app = app(16, 16);
    fill_canvas(&mut app, RED);
    drag_selection(&mut app, (5, 5), (6, 6));
    assert!(app.floating.is_none());
    drag_selection(&mut app, (5, 5), (7, 5));
    assert!(app.floating.is_none(), "two across but nothing down marks out no pixel");
}

#[test]
fn a_drag_off_the_canvas_is_cut_down_to_it() {
    assert_eq!(drag_rect((-5, -5), (3, 40), (16, 16)), Some(Rect::new(0, 0, 3, 16)));
    assert_eq!(drag_rect((20, 2), (30, 9), (16, 16)), None);
    assert_eq!(drag_rect((8, 8), (2, 3), (16, 16)), Some(Rect::new(2, 3, 8, 8)));
}

#[test]
fn a_lifted_selection_remembers_where_it_came_from() {
    let mut app = app(16, 16);
    fill_canvas(&mut app, RED);
    drag_selection(&mut app, (2, 2), (6, 6));
    assert_eq!(app.floating.as_ref().unwrap().lifted_from, Some(Rect::new(2, 2, 6, 6)));
    let mut back = self::app(16, 16);
    fill_canvas(&mut back, RED);
    drag_selection(&mut back, (10, 10), (4, 4));
    assert_eq!(back.floating.as_ref().unwrap().lifted_from, Some(Rect::new(4, 4, 10, 10)));
}
