use vstd::prelude::*;
use vstd::utf8::{decode_utf8, encode_utf8, valid_utf8};

use crate::text::{chars_of, find_line_end, lemma_line_end_bounds, line_end, string_of, trim, trim_bounds};

verus! {

/// The value of a hexadecimal digit byte, as `char::to_digit(16)` reads it.
pub open spec fn hex_value(byte: u8) -> Option<u8> {
    if 0x30 <= byte <= 0x39 {
        Some((byte - 0x30) as u8)
    } else if 0x61 <= byte <= 0x66 {
        Some((byte - 0x61 + 10) as u8)
    } else if 0x41 <= byte <= 0x46 {
        Some((byte - 0x41 + 10) as u8)
    } else {
        None
    }
}

/// Reads one hexadecimal digit.
pub fn digit(byte: u8) -> (r: Option<u8>)
    ensures
        r == hex_value(byte),
        r matches Some(d) ==> d < 16,
{
    if 0x30 <= byte && byte <= 0x39 {
        Some(byte - 0x30)
    } else if 0x61 <= byte && byte <= 0x66 {
        Some(byte - 0x61 + 10)
    } else if 0x41 <= byte && byte <= 0x46 {
        Some(byte - 0x41 + 10)
    } else {
        None
    }
}

/// Whether a `%` escape with two hexadecimal digits starts at `i`.
pub open spec fn escape_at(b: Seq<u8>, i: int) -> bool {
    &&& 0 <= i
    &&& i + 2 < b.len()
    &&& b[i] == 0x25
    &&& hex_value(b[i + 1]) is Some
    &&& hex_value(b[i + 2]) is Some
}

/// The bytes of `b` from `i` on with each `%XX` escape turned into the byte it names;
/// anything else, a `%` without two digits after it too, is kept as it is.
pub open spec fn decoded_from(b: Seq<u8>, i: int) -> Seq<u8>
    decreases b.len() - i,
{
    if i < 0 || i >= b.len() {
        Seq::empty()
    } else if escape_at(b, i) {
        seq![(hex_value(b[i + 1])->0 * 16 + hex_value(b[i + 2])->0) as u8] + decoded_from(b, i + 3)
    } else {
        seq![b[i]] + decoded_from(b, i + 1)
    }
}

/// What `String::from_utf8_lossy` makes of a run of bytes. Every valid sequence reads
/// as the characters it encodes (stated where the name is given a value); what an invalid
/// one reads as is left unsaid.
pub uninterp spec fn lossy_utf8(bytes: Seq<u8>) -> Seq<char>;

/// Reads bytes as UTF-8 text, each invalid sequence taken as U+FFFD
/// (`String::from_utf8_lossy`). Claims that the result is the name's value for the bytes,
/// and that valid UTF-8 reads as the characters it encodes.
#[verifier::external_body]
fn from_utf8_lossy(bytes: &[u8]) -> (s: String)
    ensures
        s@ == lossy_utf8(bytes@),
        valid_utf8(bytes@) ==> s@ == decode_utf8(bytes@),
{
    String::from_utf8_lossy(bytes).into_owned()
}

/// A path from a `file:` URI with its `%XX` escapes undone: the decoded bytes read as
/// UTF-8, which, where they are valid, are the characters they encode.
pub open spec fn unescaped(text: Seq<char>) -> Seq<char> {
    let d = decoded_from(encode_utf8(text), 0);
    if valid_utf8(d) { decode_utf8(d) } else { lossy_utf8(d) }
}

/// Undoes the `%XX` escapes in the path of a `file:` URI.
pub fn unescape(text: &str) -> (r: String)
    ensures
        r@ == unescaped(text@),
        !text@.contains('%') ==> r@ == text@,
{
    let bytes = text.as_bytes();
    let ghost b = bytes@;
    let mut out: Vec<u8> = Vec::new();
    let mut i: usize = 0;
    while i < bytes.len()
        invariant
            b == bytes@,
            i <= bytes@.len(),
            out@ + decoded_from(b, i as int) == decoded_from(b, 0),
        decreases bytes@.len() - i,
    {
        let escape = if bytes[i] == 0x25 && bytes.len() - i > 2 {
            match (digit(bytes[i + 1]), digit(bytes[i + 2])) {
                (Some(high), Some(low)) => Some((high, low)),
                _ => None,
            }
        } else {
            None
        };
        match escape {
            Some((high, low)) => {
                assert(escape_at(b, i as int));
                assert(decoded_from(b, i as int) == seq![(high * 16 + low) as u8] + decoded_from(b, i + 3));
                out.push(high * 16 + low);
                assert(out@ + decoded_from(b, i + 3) =~= decoded_from(b, 0));
                i = i + 3;
            },
            None => {
                assert(!escape_at(b, i as int));
                assert(decoded_from(b, i as int) == seq![b[i as int]] + decoded_from(b, i + 1));
                out.push(bytes[i]);
                assert(out@ + decoded_from(b, i + 1) =~= decoded_from(b, 0));
                i = i + 1;
            },
        }
    }
    assert(out@ =~= decoded_from(b, 0));
    proof {
        if !text@.contains('%') {
            lemma_text_has_no_percent(text@);
            lemma_nothing_to_decode(b, 0);
            assert(b.skip(0) =~= b);
            vstd::utf8::encode_utf8_valid_utf8(text@);
            vstd::utf8::encode_utf8_decode_utf8(text@);
        }
    }
    from_utf8_lossy(out.as_slice())
}

} // verus!

verus! {

/// What a local file URI starts with.
pub open spec fn file_scheme() -> Seq<char> {
    seq!['f', 'i', 'l', 'e', ':', '/', '/']
}

/// The index of the first `'/'` at or after `i`, or the length when there is none.
pub open spec fn slash_from(s: Seq<char>, i: int) -> int
    decreases s.len() - i,
{
    if i >= s.len() || s[i] == '/' {
        i
    } else {
        slash_from(s, i + 1)
    }
}

/// The local path a URI names: for `file://HOST/PATH`, the unescaped `/PATH` (the host,
/// usually empty or `localhost`, is passed over); nothing for any other URI.
pub open spec fn local_path_of(uri: Seq<char>) -> Option<Seq<char>> {
    if uri.len() >= 7 && uri.subrange(0, 7) == file_scheme() {
        let k = slash_from(uri, 7);
        if k < uri.len() {
            Some(unescaped(uri.subrange(k, uri.len() as int)))
        } else {
            None
        }
    } else {
        None
    }
}

/// The local file a URI points at, if it is a `file:` URI with a path.
pub fn local_path(uri: &str) -> (r: Option<String>)
    ensures
        r matches Some(p) ==> local_path_of(uri@) == Some(p@),
        r is None ==> local_path_of(uri@) is None,
{
    let chars = chars_of(uri);
    let n = chars.len();
    if n < 7 || !(chars[0] == 'f' && chars[1] == 'i' && chars[2] == 'l' && chars[3] == 'e'
        && chars[4] == ':' && chars[5] == '/' && chars[6] == '/') {
        proof {
            if n >= 7 && chars@.subrange(0, 7) == file_scheme() {
                assert(chars@.subrange(0, 7)[0] == 'f');
                assert(chars@.subrange(0, 7)[1] == 'i');
                assert(chars@.subrange(0, 7)[2] == 'l');
                assert(chars@.subrange(0, 7)[3] == 'e');
                assert(chars@.subrange(0, 7)[4] == ':');
                assert(chars@.subrange(0, 7)[5] == '/');
                assert(chars@.subrange(0, 7)[6] == '/');
            }
        }
        return None;
    }
    assert(chars@.subrange(0, 7) =~= file_scheme());
    let mut k: usize = 7;
    while k < n && chars[k] != '/'
        invariant
            7 <= k <= n,
            n == chars@.len(),
            slash_from(chars@, k as int) == slash_from(chars@, 7),
        decreases n - k,
    {
        k = k + 1;
    }
    if k >= n {
        return None;
    }
    let path = string_of(&chars, k, n);
    Some(unescape(path.as_str()))
}

/// The local path a line of a `text/uri-list` stands for: the line with white space
/// trimmed off, unless it is empty or a `#` comment, read as a URI.
pub open spec fn entry(line: Seq<char>) -> Option<Seq<char>> {
    let t = trim(line);
    if t.len() > 0 && t[0] != '#' {
        local_path_of(t)
    } else {
        None
    }
}

/// The local paths in the lines of `s` that start at `start` or later. Lines end at
/// `'\n'`; a line feed at the very end starts no further line.
pub open spec fn paths_from(s: Seq<char>, start: int) -> Seq<Seq<char>>
    decreases s.len() - start,
{
    if start < 0 || start >= s.len() {
        Seq::empty()
    } else {
        let e = line_end(s, start);
        proof {
            lemma_line_end_bounds(s, start);
        }
        let rest = if e < s.len() { paths_from(s, e + 1) } else { Seq::empty() };
        match entry(s.subrange(start, e)) {
            Some(p) => seq![p] + rest,
            None => rest,
        }
    }
}

/// The local paths a `text/uri-list` names, in order.
pub open spec fn uri_paths(s: Seq<char>) -> Seq<Seq<char>> {
    paths_from(s, 0)
}

/// The characters of each string.
pub open spec fn views(v: Seq<String>) -> Seq<Seq<char>> {
    v.map_values(|x: String| x@)
}

/// The local files a dropped `text/uri-list` names, in the order it names them; comments,
/// blank lines and URIs that are not local files are passed over.
pub fn paths(uris: &str) -> (r: Vec<String>)
    ensures
        views(r@) == uri_paths(uris@),
{
    let chars = chars_of(uris);
    let ghost s = chars@;
    let n = chars.len();
    let mut found: Vec<String> = Vec::new();
    let mut start: usize = 0;
    while start < n
        invariant
            s == chars@,
            n == s.len(),
            start <= n,
            views(found@) + paths_from(s, start as int) == paths_from(s, 0),
        decreases n - start,
    {
        let e = find_line_end(&chars, start);
        proof {
            lemma_line_end_bounds(s, start as int);
        }
        let (a, b) = trim_bounds(&chars, start, e);
        let ghost rest = if e < n { paths_from(s, e + 1) } else { Seq::empty() };
        let ghost before = views(found@);
        if b > a && chars[a] != '#' {
            let line = string_of(&chars, a, b);
            match local_path(line.as_str()) {
                Some(p) => {
                    found.push(p);
                    assert(views(found@) =~= before.push(p@));
                    assert(views(found@) + rest =~= before + (seq![p@] + rest));
                },
                None => {},
            }
        }
        if e >= n {
            start = n;
            assert(paths_from(s, start as int) == Seq::<Seq<char>>::empty());
        } else {
            start = e + 1;
        }
    }
    assert(views(found@) + paths_from(s, start as int) =~= views(found@));
    found
}

/// The kind of offer a dropped list of files comes as.
pub const URI_LIST: &'static str = "text/uri-list";

/// Whether a drag offers its files as a `text/uri-list`, among the kinds it names.
pub fn offers_uris(mimes: &Vec<String>) -> (r: bool)
    ensures
        r == exists|i: int| 0 <= i < mimes@.len() && #[trigger] mimes@[i]@ == URI_LIST@,
{
    let wanted = String::from_str(URI_LIST);
    let mut i: usize = 0;
    while i < mimes.len()
        invariant
            i <= mimes@.len(),
            wanted@ == URI_LIST@,
            forall|k: int| 0 <= k < i ==> #[trigger] mimes@[k]@ != URI_LIST@,
        decreases mimes@.len() - i,
    {
        if mimes[i] == wanted {
            return true;
        }
        i = i + 1;
    }
    false
}

} // verus!

verus! {

/// No byte of the UTF-8 encoding of a character other than `%` is the byte of `%`.
pub proof fn lemma_scalar_has_no_percent(c: char)
    requires
        c != '%',
    ensures
        !vstd::utf8::encode_scalar(c as u32).contains(0x25u8),
{
    let u = c as u32;
    let e = vstd::utf8::encode_scalar(u);
    assert forall|k: int| 0 <= k < e.len() implies e[k] != 0x25u8 by {
        if u <= 0x7F {
            assert(u <= 0x7F ==> (u & 0x7F) as u8 == u as u8) by (bit_vector);
            assert(u != 0x25);
        } else {
            assert(forall|v: u32| #[trigger] (0xC0u8 | ((v >> 6) & 0x1F) as u8) >= 0xC0u8) by (bit_vector);
            assert(forall|v: u32| #[trigger] (0xE0u8 | ((v >> 12) & 0x0F) as u8) >= 0xE0u8) by (bit_vector);
            assert(forall|v: u32| #[trigger] (0xF0u8 | ((v >> 18) & 0x7) as u8) >= 0xF0u8) by (bit_vector);
            assert(forall|v: u32| #[trigger] (0x80u8 | (v & 0x3F) as u8) >= 0x80u8) by (bit_vector);
            assert(forall|v: u32| #[trigger] (0x80u8 | ((v >> 6) & 0x3F) as u8) >= 0x80u8) by (bit_vector);
            assert(forall|v: u32| #[trigger] (0x80u8 | ((v >> 12) & 0x3F) as u8) >= 0x80u8) by (bit_vector);
        }
    }
}

/// The UTF-8 encoding of text without `%` holds no `%` byte.
pub proof fn lemma_text_has_no_percent(t: Seq<char>)
    requires
        !t.contains('%'),
    ensures
        !encode_utf8(t).contains(0x25u8),
    decreases t.len(),
{
    if t.len() > 0 {
        assert(t[0] != '%');
        lemma_scalar_has_no_percent(t[0]);
        assert(!t.drop_first().contains('%')) by {
            if t.drop_first().contains('%') {
                let k = choose|k: int| 0 <= k < t.drop_first().len() && t.drop_first()[k] == '%';
                assert(t[k + 1] == '%');
            }
        }
        lemma_text_has_no_percent(t.drop_first());
        let a = vstd::utf8::encode_scalar(t[0] as u32);
        let b = encode_utf8(t.drop_first());
        assert(encode_utf8(t) == a + b);
        assert forall|k: int| 0 <= k < (a + b).len() implies (a + b)[k] != 0x25u8 by {
            if k < a.len() {
                assert(!a.contains(0x25u8));
                assert(a[k] == (a + b)[k]);
            } else {
                assert(b[k - a.len()] == (a + b)[k]);
                assert(!b.contains(0x25u8));
            }
        }
    }
}

/// With no `%` to undo, decoding leaves the bytes as they are.
pub proof fn lemma_nothing_to_decode(b: Seq<u8>, i: int)
    requires
        0 <= i <= b.len(),
        !b.contains(0x25u8),
    ensures
        decoded_from(b, i) == b.skip(i),
    decreases b.len() - i,
{
    if i < b.len() {
        assert(b[i] != 0x25u8);
        lemma_nothing_to_decode(b, i + 1);
        assert(b.skip(i) =~= seq![b[i]] + b.skip(i + 1));
    } else {
        assert(b.skip(i) =~= Seq::<u8>::empty());
    }
}

} // verus!

verus! {

/// What the data device reports while a drag goes over the window.
#[derive(Debug, Clone, Copy, PartialEq, Eq, Structural)]
pub enum DeviceEvent {
    /// A drag came in, with an offer that names `text/uri-list` among its kinds or not,
    /// speaking the given protocol version.
    Entered { offers_uris: bool, version: u32 },
    /// The drag went out again.
    Left,
    /// The drag was let go over the window.
    Dropped,
    /// The clipboard offers something.
    Selection,
    /// Anything else.
    Other,
}

/// What to do with the offers a drag brings.
#[derive(Debug, Clone, Copy, PartialEq, Eq, Structural)]
pub enum DeviceAction {
    /// Accept the new offer as a list of files and hold on to it, asking for a copy first
    /// when the offer is new enough to be asked.
    Accept { ask_copy: bool },
    /// Refuse the new offer and let it go.
    Refuse,
    /// Let the held offer go.
    Release,
    /// Read the list of files off the held offer.
    Read,
    /// Let the clipboard's offer go.
    Discard,
    /// Nothing.
    Nothing,
}

/// The first protocol version in which an offer can be asked for a copy and told that
/// the drop is finished.
pub const COPY_VERSION: u32 = 3;

/// What a data-device event asks for, given whether an offer is held, and whether one is
/// held afterwards: only an offer of files is taken up, it is let go when the drag leaves,
/// and read when it is dropped.
pub open spec fn device_step(holding: bool, event: DeviceEvent) -> (DeviceAction, bool) {
    match event {
        DeviceEvent::Entered { offers_uris, version } => if offers_uris {
            (DeviceAction::Accept { ask_copy: version >= COPY_VERSION }, true)
        } else {
            (DeviceAction::Refuse, holding)
        },
        DeviceEvent::Left => if holding { (DeviceAction::Release, false) } else { (DeviceAction::Nothing, false) },
        DeviceEvent::Dropped => if holding { (DeviceAction::Read, false) } else { (DeviceAction::Nothing, false) },
        DeviceEvent::Selection => (DeviceAction::Discard, holding),
        DeviceEvent::Other => (DeviceAction::Nothing, holding),
    }
}

/// Follows a drag over the window (see `device_step`): says what to do and whether an
/// offer is held afterwards.
pub fn on_device(holding: bool, event: DeviceEvent) -> (r: (DeviceAction, bool))
    ensures
        r == device_step(holding, event),
{
    match event {
        DeviceEvent::Entered { offers_uris, version } => if offers_uris {
            (DeviceAction::Accept { ask_copy: version >= COPY_VERSION }, true)
        } else {
            (DeviceAction::Refuse, holding)
        },
        DeviceEvent::Left => if holding { (DeviceAction::Release, false) } else { (DeviceAction::Nothing, false) },
        DeviceEvent::Dropped => if holding { (DeviceAction::Read, false) } else { (DeviceAction::Nothing, false) },
        DeviceEvent::Selection => (DeviceAction::Discard, holding),
        DeviceEvent::Other => (DeviceAction::Nothing, holding),
    }
}

/// Whether a read offer is told the drop is finished before it is let go: only when the
/// offer is new enough and the drag settled on an action.
pub fn finishes(version: u32, matched: bool) -> (b: bool)
    ensures
        b == (version >= COPY_VERSION && matched),
{
    version >= COPY_VERSION && matched
}

/// A drop is read at most once: once it has been read, or the drag has left, nothing is
/// held until another offer of files comes in.
pub proof fn lemma_a_drop_is_read_once(holding: bool, event: DeviceEvent)
    ensures
        (event is Dropped || event is Left) ==> !device_step(holding, event).1,
        device_step(false, DeviceEvent::Dropped).0 == DeviceAction::Nothing,
        device_step(holding, event).0 == DeviceAction::Read ==> holding && event is Dropped,
{
}

} // verus!
