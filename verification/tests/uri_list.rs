use rustypaint::uri_list::{digit, finishes, local_path, offers_uris, on_device, paths, unescape, DeviceAction, DeviceEvent};

#[test]
fn a_crlf_uri_list_becomes_paths() {
    let list = "file:///home/me/one.png\r\nfile:///home/me/two.png\r\n";
    assert_eq!(paths(list), vec!["/home/me/one.png".to_string(), "/home/me/two.png".to_string()]);
}

#[test]
fn escapes_and_hosts_and_comments_are_understood() {
    let list = "#comment\nfile://localhost/tmp/a%20b%25c.png\n";
    assert_eq!(paths(list), vec!["/tmp/a b%c.png".to_string()]);
}

#[test]
fn anything_that_is_not_a_local_file_is_left_alone() {
    assert!(paths("https://example.invalid/cat.png\n").is_empty());
    assert!(paths("").is_empty());
}

#[test]
fn blank_lines_indented_lines_and_a_last_line_without_its_end_are_taken() {
    let list = "\n   file:///a.png   \n\n\tfile:///b%2Fc.png";
    assert_eq!(paths(list), vec!["/a.png".to_string(), "/b/c.png".to_string()]);
}

#[test]
fn hex_digits_read_in_either_case() {
    assert_eq!(digit(b'0'), Some(0));
    assert_eq!(digit(b'9'), Some(9));
    assert_eq!(digit(b'a'), Some(10));
    assert_eq!(digit(b'F'), Some(15));
    assert_eq!(digit(b'g'), None);
    assert_eq!(digit(b'%'), None);
    assert_eq!(digit(0xAA), None);
}

#[test]
fn escapes_are_undone_and_half_escapes_kept() {
    assert_eq!(unescape("/a%20b"), "/a b");
    assert_eq!(unescape("/%41%62"), "/Ab");
    assert_eq!(unescape("/100%"), "/100%");
    assert_eq!(unescape("/%2"), "/%2");
    assert_eq!(unescape("/%zz"), "/%zz");
    assert_eq!(unescape("/caf%C3%A9"), "/café");
    assert_eq!(unescape("/café"), "/café");
}

#[test]
fn an_escape_that_is_not_utf8_reads_as_a_replacement_character() {
    assert_eq!(unescape("/%FF.png"), "/\u{fffd}.png");
}

#[test]
fn only_a_file_uri_with_a_path_is_local() {
    assert_eq!(local_path("file:///tmp/x.png"), Some("/tmp/x.png".to_string()));
    assert_eq!(local_path("file://host/tmp/x.png"), Some("/tmp/x.png".to_string()));
    assert_eq!(local_path("file://host"), None);
    assert_eq!(local_path("file:/tmp/x.png"), None);
    assert_eq!(local_path("FILE:///tmp/x.png"), None);
    assert_eq!(local_path("/tmp/x.png"), None);
}

#[test]
fn a_drop_is_taken_only_when_it_offers_a_uri_list() {
    let offered = |kinds: &[&str]| offers_uris(&kinds.iter().map(|k| k.to_string()).collect());
    assert!(offered(&["text/plain", "text/uri-list"]));
    assert!(!offered(&["text/plain", "text/uri-list "]));
    assert!(!offered(&[]));
}

#[test]
fn only_an_offer_of_files_is_taken_up_and_read_once() {
    let files = |version: u32| DeviceEvent::Entered { offers_uris: true, version };
    assert_eq!(on_device(false, files(3)), (DeviceAction::Accept { ask_copy: true }, true));
    assert_eq!(on_device(false, files(2)), (DeviceAction::Accept { ask_copy: false }, true));
    assert_eq!(
        on_device(false, DeviceEvent::Entered { offers_uris: false, version: 3 }),
        (DeviceAction::Refuse, false)
    );
    assert_eq!(on_device(true, DeviceEvent::Dropped), (DeviceAction::Read, false));
    assert_eq!(on_device(false, DeviceEvent::Dropped), (DeviceAction::Nothing, false));
    assert_eq!(on_device(true, DeviceEvent::Left), (DeviceAction::Release, false));
    assert_eq!(on_device(true, DeviceEvent::Selection), (DeviceAction::Discard, true));
    assert_eq!(on_device(true, DeviceEvent::Other), (DeviceAction::Nothing, true));
    assert!(finishes(3, true));
    assert!(!finishes(2, true));
    assert!(!finishes(3, false));
}
