use rustypaint::tabs::Sheets;

fn three() -> Sheets<&'static str> {
    Sheets::single("first").add("middle").add("last")
}

fn order(sheets: Sheets<&'static str>) -> (Vec<&'static str>, usize) {
    let active = sheets.active;
    (sheets.collapse(), active)
}

#[test]
fn stepping_wraps_round_the_tabs_in_both_directions() {
    let sheets = three();
    assert_eq!(sheets.sheets(), 3);
    assert_eq!(sheets.active, 2);

    let sheets = sheets.step(1);
    assert_eq!(sheets.active, 0, "past the end comes back to the first");
    let sheets = sheets.step(-1);
    assert_eq!(sheets.active, 2, "and back the other way");
}

#[test]
fn a_closed_tab_leaves_the_order_of_the_rest_alone() {
    let sheets = three().switch_to(1);
    assert_eq!(sheets.open, "middle");
    let (sheets, gone) = sheets.close();
    assert_eq!(gone, Some("middle"));
    assert_eq!(sheets.sheets(), 2);

    let sheets = sheets.switch_to(0);
    assert_eq!(sheets.open, "first", "the first is still the first");
    let sheets = sheets.switch_to(1);
    assert_eq!(sheets.open, "last", "and the last is still the last");
}

#[test]
fn the_only_tab_is_never_closed() {
    let (sheets, gone) = Sheets::single("only").close();
    assert_eq!(gone, None);
    assert_eq!(order(sheets), (vec!["only"], 0));
}

#[test]
fn closing_the_last_tab_opens_the_one_before_it() {
    let (sheets, gone) = three().close();
    assert_eq!(gone, Some("last"));
    assert_eq!(order(sheets), (vec!["first", "middle"], 1));
}

#[test]
fn a_tab_that_is_not_there_cannot_be_switched_to() {
    let sheets = three().switch_to(7);
    assert_eq!(order(sheets), (vec!["first", "middle", "last"], 2));
}

#[test]
fn a_tab_is_found_among_the_parked_ones() {
    let sheets = three().switch_to(1);
    assert_eq!(sheets.parked_at(0), Some(0));
    assert_eq!(sheets.parked_at(1), None);
    assert_eq!(sheets.parked_at(2), Some(1));
    assert_eq!(sheets.parked, vec!["first", "last"]);
}

#[test]
fn expanding_past_the_end_opens_the_last_tab() {
    let sheets = Sheets::expand(vec!["a", "b"], 9);
    assert_eq!(sheets.active, 1);
    assert_eq!(sheets.open, "b");
}

#[test]
fn a_long_step_goes_round_more_than_once() {
    let sheets = three().switch_to(0).step(7);
    assert_eq!(sheets.active, 1);
    let sheets = sheets.step(-5);
    assert_eq!(sheets.active, 2);
}
