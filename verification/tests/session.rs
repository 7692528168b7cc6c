use rustypaint::canvas::{size_for, NewCanvas, Ratio};
use rustypaint::config::{Config, OpenIn};
use rustypaint::panel::Discard;
use rustypaint::session::{Action, Event, Page, Pending, Session};

type S = Session<&'static str>;

fn page(doc: &'static str, unsaved: bool, untouched: bool) -> Page<&'static str> {
    Page { doc, unsaved, untouched, size: (100, 80) }
}

fn session_with(config: Config) -> S {
    let start = size_for(config.new_canvas, None, (1920, 1080));
    Session::new(Page { doc: "blank", unsaved: false, untouched: true, size: start }, (1920, 1080), config, [0, 0, 0, 255])
}

fn session(confirm: bool) -> S {
    session_with(Config { confirm_discard: confirm, ..Config::default() })
}

fn go(s: S, e: Event<&'static str>) -> (S, Action<&'static str>) {
    s.step(e)
}

fn names(s: &S) -> Vec<&'static str> {
    let mut v: Vec<&'static str> = s.sheets.parked.iter().map(|p| p.doc).collect();
    v.insert(s.sheets.active, s.sheets.open.doc);
    v
}

fn new_page(s: &S, name: &'static str) -> Page<&'static str> {
    let size = size_for(s.chrome.config.new_canvas, s.chrome.room, s.chrome.blank);
    Page { doc: name, unsaved: false, untouched: true, size }
}

fn pick(s: S, colour: [u8; 4]) -> (S, Action<&'static str>) {
    let (s, _) = go(s, Event::PickerOpened);
    go(s, Event::PickerConfirmed(colour))
}

#[test]
fn a_file_takes_over_an_untouched_blank_and_otherwise_opens_a_tab() {
    let (s, a) = go(session(true), Event::OpenRequested);
    assert_eq!(a, Action::PickAndLoad);
    let (s, a) = go(s, Event::Opened(page("one.png", false, false)));
    assert_eq!(a, Action::Nothing);
    assert_eq!(names(&s), vec!["one.png"]);
    let (s, _) = go(s, Event::Opened(page("two.png", false, false)));
    assert_eq!(names(&s), vec!["one.png", "two.png"]);
    assert_eq!(s.sheets.active, 1);
}

#[test]
fn with_open_in_window_work_opens_in_a_window_of_its_own() {
    let s = session_with(Config { open_in: OpenIn::Window, ..Config::default() });
    assert_eq!(go(s, Event::OpenRequested).1, Action::PickAndLoad, "an untouched blank is a free slot");
    let s = session_with(Config { open_in: OpenIn::Window, ..Config::default() });
    let (s, _) = go(s, Event::Changed { unsaved: true, untouched: false });
    let (s, a) = go(s, Event::OpenRequested);
    assert_eq!(a, Action::PickElsewhere);
    let p = new_page(&s, "second");
    let (s, a) = go(s, Event::NewRequested(p));
    assert_eq!(a, Action::NewElsewhere);
    assert_eq!(names(&s).len(), 1);
}

#[test]
fn new_leaves_the_open_document_where_it_is_and_adds_a_tab() {
    let (s, _) = go(session(true), Event::WindowMeasured(Some((801, 451))));
    let p = new_page(&s, "ignored");
    let (s, _) = go(s, Event::NewRequested(p));
    assert_eq!(names(&s).len(), 1, "an untouched blank is not doubled");
    let (s, _) = go(s, Event::Changed { unsaved: true, untouched: false });
    let (s, _) = go(s, Event::MenuToggled(true));
    let p = new_page(&s, "second");
    let (s, a) = go(s, Event::NewRequested(p));
    assert_eq!(a, Action::Nothing);
    assert!(!s.chrome.menu_open);
    assert_eq!(names(&s), vec!["blank", "second"]);
    assert_eq!(s.sheets.active, 1);
    assert_eq!(s.sheets.open.size, (800, 450), "the size new canvases take in this window");
    assert_eq!(s.chrome.asking, None);
    assert!(s.sheets.parked[0].unsaved, "the first document is as it was");
}

#[test]
fn a_session_steps_round_its_tabs_in_both_directions() {
    let (s, _) = go(session(true), Event::Opened(page("a", false, false)));
    let (s, _) = go(s, Event::Opened(page("b", false, false)));
    let (s, _) = go(s, Event::Opened(page("c", false, false)));
    assert_eq!(s.sheets.active, 2);
    let (s, _) = go(s, Event::TabStepped(1));
    assert_eq!(s.sheets.active, 0, "past the end back to the first");
    let (s, _) = go(s, Event::TabStepped(-1));
    assert_eq!(s.sheets.active, 2);
    let (s, _) = go(s, Event::TabSelected(1));
    assert_eq!(s.sheets.open.doc, "b");
    assert_eq!(names(&s), vec!["a", "b", "c"]);
}

#[test]
fn closing_unsaved_work_asks_first_and_keep_leaves_it() {
    let (s, _) = go(session(true), Event::Opened(page("a", false, false)));
    let (s, _) = go(s, Event::Opened(page("b", false, false)));
    let (s, _) = go(s, Event::Changed { unsaved: true, untouched: false });
    let (s, a) = go(s, Event::TabCloseRequested);
    assert_eq!(a, Action::Ask);
    assert_eq!(s.chrome.asking, Some(Pending::Tab));
    let (s, a) = go(s, Event::DiscardAnswered(Discard::Keep));
    assert_eq!(a, Action::Nothing);
    assert_eq!(s.chrome.asking, None);
    assert_eq!(names(&s), vec!["a", "b"]);
    let (s, _) = go(s, Event::TabCloseRequested);
    let (s, a) = go(s, Event::DiscardAnswered(Discard::Throw));
    assert_eq!(a, Action::Closed("b"));
    assert_eq!(names(&s), vec!["a"]);
}

#[test]
fn closing_the_only_tab_closes_the_window_instead() {
    let (s, _) = go(session(true), Event::Changed { unsaved: true, untouched: false });
    let (s, a) = go(s, Event::TabClosed(0));
    assert_eq!(a, Action::Ask);
    assert_eq!(s.chrome.asking, Some(Pending::Close));
    let (_, a) = go(s, Event::DiscardAnswered(Discard::Throw));
    assert_eq!(a, Action::Quit);
}

#[test]
fn saving_in_answer_closes_only_once_the_save_worked() {
    let (s, _) = go(session(true), Event::Changed { unsaved: true, untouched: false });
    let (s, a) = go(s, Event::WindowClosed);
    assert_eq!(a, Action::Ask);
    let (s, a) = go(s, Event::DiscardAnswered(Discard::Save));
    assert_eq!(a, Action::Save);
    assert_eq!(s.chrome.after_save, Some(Pending::Close));
    let (s, a) = go(s, Event::Saved(false));
    assert_eq!(a, Action::Nothing, "a failed save calls the close off");
    assert_eq!(s.chrome.after_save, None);
    let (s, _) = go(s, Event::WindowClosed);
    let (s, _) = go(s, Event::DiscardAnswered(Discard::Save));
    let (s, a) = go(s, Event::Saved(true));
    assert_eq!(a, Action::Quit);
    assert!(!s.sheets.open.unsaved);
}

#[test]
fn with_asking_off_or_nothing_unsaved_the_window_just_closes() {
    let (s, _) = go(session(false), Event::Changed { unsaved: true, untouched: false });
    assert_eq!(go(s, Event::WindowClosed).1, Action::Quit);
    let (s, a) = go(session(true), Event::WindowClosed);
    assert_eq!(a, Action::Quit);
    assert_eq!(s.chrome.asking, None);
    let (_, a) = go(s, Event::DiscardAnswered(Discard::Throw));
    assert_eq!(a, Action::Nothing, "an answer nobody asked for does nothing");
}

#[test]
fn the_dialog_checkbox_is_the_setting() {
    let s = session_with(Config::default());
    assert!(s.chrome.config.confirm_discard);
    let (s, a) = go(s, Event::ConfirmDiscardToggled(false));
    assert_eq!(a, Action::SaveConfig);
    assert!(!s.chrome.config.confirm_discard, "ticking it off is the setting");
}

#[test]
fn a_parked_tab_with_unsaved_work_stops_the_window_closing_unasked() {
    let (s, _) = go(session(true), Event::Opened(page("a", true, false)));
    let (s, _) = go(s, Event::Opened(page("b", false, false)));
    let (s, a) = go(s, Event::WindowClosed);
    assert_eq!(a, Action::Ask);
    assert_eq!(s.chrome.asking, Some(Pending::Close));
}

#[test]
fn the_custom_row_holds_one_row_and_no_duplicates_and_the_brush_takes_the_colour() {
    let mut s = session(true);
    for grey in [0x11u8, 0x22, 0x33, 0x44, 0x55, 0x66, 0x77] {
        let (next, a) = pick(s, [grey, grey, grey, 255]);
        assert_eq!(a, Action::SaveConfig);
        s = next;
    }
    let row: Vec<[u8; 4]> = [0x22u8, 0x33, 0x44, 0x55, 0x66, 0x77].iter().map(|&g| [g, g, g, 255]).collect();
    assert_eq!(s.chrome.config.custom_colours, row, "the oldest went out first, the newest is last");
    assert_eq!(s.chrome.brush_colour, [0x77, 0x77, 0x77, 255]);
    assert!(!s.chrome.picker_open);
    assert_eq!(s.chrome.picking_field, None);
    let (s, a) = pick(s, [0x33, 0x33, 0x33, 255]);
    assert_eq!(a, Action::Nothing, "a colour already on the row is not added twice");
    assert_eq!(s.chrome.config.custom_colours, row);
    assert_eq!(s.chrome.brush_colour, [0x33, 0x33, 0x33, 255]);
}

#[test]
fn removing_a_swatch_closes_its_menu() {
    let (s, _) = pick(session(true), [0x11, 0x22, 0x33, 255]);
    let (s, _) = pick(s, [0x44, 0x55, 0x66, 255]);
    let (s, _) = go(s, Event::CustomColourMenuOpened(0));
    assert_eq!(s.chrome.swatch_menu, Some(0));
    let (s, a) = go(s, Event::CustomColourRemoved(0));
    assert_eq!(a, Action::SaveConfig);
    assert_eq!(s.chrome.config.custom_colours, vec![[0x44, 0x55, 0x66, 255]]);
    assert_eq!(s.chrome.swatch_menu, None);
    let (s, _) = go(s, Event::CustomColourMenuOpened(5));
    assert_eq!(s.chrome.swatch_menu, None, "no menu for a swatch that is not there");
    let (_, a) = go(s, Event::CustomColourRemoved(3));
    assert_eq!(a, Action::Nothing);
}

#[test]
fn a_swatch_edited_in_the_picker_is_written_back() {
    let (s, _) = pick(session(true), [1, 1, 1, 255]);
    let (s, _) = pick(s, [2, 2, 2, 255]);
    let (s, _) = go(s, Event::ColourTargetPicked(true));
    let (s, _) = go(s, Event::CustomColourEditRequested(0));
    assert!(s.chrome.picker_open);
    assert_eq!(s.chrome.editing, Some(0));
    let (s, a) = go(s, Event::PickerConfirmed([9, 9, 9, 255]));
    assert_eq!(a, Action::SaveConfig);
    assert_eq!(s.chrome.config.custom_colours, vec![[9, 9, 9, 255], [2, 2, 2, 255]]);
    assert_eq!(s.chrome.shape_fill, Some([9, 9, 9, 255]), "picked colours fill shapes too");
    let (s, _) = go(s, Event::CustomColourPicked(1));
    assert_eq!(s.chrome.brush_colour, [2, 2, 2, 255]);
    let (s, _) = go(s, Event::PickerPressed(true));
    assert_eq!(s.chrome.picking_field, Some(true));
    let (s, a) = go(s, Event::PickerConfirmed([5, 5, 5, 255]));
    assert_eq!(a, Action::Nothing, "with no picker open there is nothing to take");
    assert_eq!(s.chrome.brush_colour, [2, 2, 2, 255]);
    assert_eq!(s.chrome.picking_field, None);
}

#[test]
fn the_first_measurement_fits_an_untouched_blank_to_the_window() {
    let (s, a) = go(session(true), Event::WindowMeasured(Some((801, 451))));
    assert_eq!(a, Action::Reblank(800, 450));
    assert_eq!(s.sheets.open.size, (800, 450));
    let (s, a) = go(s, Event::WindowMeasured(Some((1001, 601))));
    assert_eq!(a, Action::Nothing, "only the first measurement refits");
    assert_eq!(s.chrome.room, Some((1001, 601)), "but the room is kept up to date");

    let (s, _) = go(session(true), Event::NewCanvasPicked(NewCanvas::Fixed(640, 480)));
    assert_eq!(go(s, Event::WindowMeasured(Some((800, 450)))).1, Action::Fit);
    let (s, _) = go(session(true), Event::Opened(page("photo", false, false)));
    assert_eq!(go(s, Event::WindowMeasured(Some((800, 450)))).1, Action::Fit);
    let (s, _) = go(session(true), Event::NewCanvasPicked(NewCanvas::Fit(Ratio::Square)));
    let (s, _) = go(s, Event::OpenInPicked(OpenIn::Window));
    assert_eq!(s.chrome.config.open_in, OpenIn::Window);
    assert_eq!(go(s, Event::WindowMeasured(None)).1, Action::Fit, "no room: the fallback it already has");
}

#[test]
fn each_tab_shows_whether_it_holds_unsaved_work() {
    let (s, _) = go(session(true), Event::Opened(page("a", true, false)));
    let (s, _) = go(s, Event::Opened(page("b", false, false)));
    let (s, _) = go(s, Event::Opened(page("c", true, false)));
    let (s, _) = go(s, Event::TabSelected(1));
    assert_eq!((0..4).map(|t| s.tab_unsaved(t)).collect::<Vec<_>>(), vec![true, false, true, false]);
}
