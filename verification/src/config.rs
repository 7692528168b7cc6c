use vstd::prelude::*;

use crate::canvas::NewCanvas;
use crate::text::{opt_chars, chars_of, find_line_end, first_line_of, lemma_line_end_bounds, string_of};

verus! {

/// Which appearance the window takes.
#[derive(Debug, Clone, Copy, PartialEq, Eq, Structural)]
pub enum Choice {
    /// Follow the system.
    Auto,
    Light,
    Dark,
}

impl Default for Choice {
    fn default() -> (r: Self)
        ensures
            r == Choice::Auto,
    {
        Choice::Auto
    }
}

/// Which accent colours the window wears.
#[derive(Debug, Clone, Copy, PartialEq, Eq, Structural)]
pub enum Scheme {
    Rusty,
    Classic,
    Custom,
}

impl Default for Scheme {
    fn default() -> (r: Self)
        ensures
            r == Scheme::Rusty,
    {
        Scheme::Rusty
    }
}

/// Where a file or a new document opens while the window already holds work.
#[derive(Debug, Clone, Copy, PartialEq, Eq, Structural)]
pub enum OpenIn {
    /// In a new tab of this window.
    Tab,
    /// In a window of its own.
    Window,
}

impl Default for OpenIn {
    fn default() -> (r: Self)
        ensures
            r == OpenIn::Tab,
    {
        OpenIn::Tab
    }
}

/// The most custom colours the palette row holds.
pub const CUSTOM_ROW: usize = 6;

/// The settings that outlive a session.
#[derive(Debug, Clone)]
pub struct Config {
    pub theme: Choice,
    pub accent: Scheme,
    pub new_canvas: NewCanvas,
    pub acrylic: bool,
    pub decorations: bool,
    pub custom_colours: Vec<[u8; 4]>,
    /// Whether to ask before unsaved work is thrown away.
    pub confirm_discard: bool,
    /// Where files and new documents open while the window holds work.
    pub open_in: OpenIn,
}

/// Whether these are the settings of a first launch.
pub open spec fn is_default(c: Config) -> bool {
    &&& c.theme == Choice::Auto
    &&& c.accent == Scheme::Rusty
    &&& c.new_canvas == NewCanvas::Fit(crate::canvas::Ratio::Widescreen)
    &&& c.acrylic
    &&& !c.decorations
    &&& c.custom_colours@.len() == 0
    &&& c.confirm_discard
    &&& c.open_in == OpenIn::Tab
}

impl Default for Config {
    fn default() -> (r: Self)
        ensures
            is_default(r),
    {
        Self {
            theme: Choice::default(),
            accent: Scheme::default(),
            new_canvas: NewCanvas::default(),
            acrylic: true,
            decorations: false,
            custom_colours: Vec::new(),
            confirm_discard: true,
            open_in: OpenIn::default(),
        }
    }
}

/// What became of reading the settings file.
pub enum Reading {
    /// There is nowhere settings could be kept.
    NoPath,
    /// There is no settings file yet.
    Missing,
    /// The file is there but could not be read; the reason is given.
    Unreadable(String),
    /// The file read and parsed into these settings.
    Parsed(Config),
    /// The file read but did not parse; the parser's complaint is given.
    Malformed(String),
}

/// What a failed parse is reported as: the first line of the complaint, or a word for it
/// when the complaint is empty.
pub open spec fn complaint_line(text: Seq<char>) -> Seq<char> {
    match first_line_of(text) {
        Some(l) => l,
        None => "malformed"@,
    }
}

/// The settings a launch starts with, and what the status bar says about them.
pub open spec fn settled(reading: Reading, config: Config, message: Option<String>) -> bool {
    match reading {
        Reading::NoPath => is_default(config) && message is None,
        Reading::Missing => is_default(config) && message is None,
        Reading::Unreadable(e) => is_default(config) && (message matches Some(m)
            && m@ == "Cannot read settings: "@ + e@),
        Reading::Parsed(c) => config == c && message is None,
        Reading::Malformed(e) => is_default(config) && (message matches Some(m)
            && m@ == "Settings file is not readable, using defaults: "@ + complaint_line(e@)),
    }
}

/// The first line of a parser's complaint, or "malformed" when there is none.
pub fn first_line(text: &str) -> (r: String)
    ensures
        r@ == complaint_line(text@),
{
    let chars = chars_of(text);
    if chars.len() == 0 {
        return String::from_str("malformed");
    }
    let e = find_line_end(&chars, 0);
    proof {
        lemma_line_end_bounds(chars@, 0);
    }
    if e < chars.len() && e > 0 && chars[e - 1] == '\r' {
        assert(chars@.subrange(0, e as int).drop_last() =~= chars@.subrange(0, e - 1));
        string_of(&chars, 0, e - 1)
    } else {
        string_of(&chars, 0, e)
    }
}

impl Config {
    /// Settles what a launch starts with once the settings file has been looked for: the
    /// parsed settings, or the defaults together with a complaint when the file could not be
    /// read or parsed. A missing file, or nowhere to keep one, is no complaint.
    pub fn settle(reading: Reading) -> (r: (Config, Option<String>))
        ensures
            settled(reading, r.0, r.1),
    {
        match reading {
            Reading::NoPath | Reading::Missing => (Self::default(), None),
            Reading::Unreadable(e) => {
                let mut m = String::from_str("Cannot read settings: ");
                m.append(e.as_str());
                (Self::default(), Some(m))
            },
            Reading::Parsed(c) => (c, None),
            Reading::Malformed(e) => {
                let mut m = String::from_str("Settings file is not readable, using defaults: ");
                let line = first_line(e.as_str());
                m.append(line.as_str());
                (Self::default(), Some(m))
            },
        }
    }
}

} // verus!

verus! {

/// `base` with the relative name `part` added as one more path component, as
/// `PathBuf::join` does on Unix for a name that does not start at the root: a separator
/// goes between them unless `base` is empty or already ends in one.
pub open spec fn joined(base: Seq<char>, part: Seq<char>) -> Seq<char> {
    if base.len() == 0 || base.last() == '/' {
        base + part
    } else {
        base + "/"@ + part
    }
}

/// Adds the relative name `part` to the path `base` (see [`joined`]).
pub fn join(base: &str, part: &str) -> (r: String)
    ensures
        r@ == joined(base@, part@),
{
    let chars = chars_of(base);
    let mut r = String::from_str(base);
    if chars.len() > 0 && chars[chars.len() - 1] != '/' {
        r.append("/");
    }
    r.append(part);
    r
}

/// The operating systems whose conventions decide where the settings live.
#[derive(Debug, Clone, Copy, PartialEq, Eq, Structural)]
pub enum System {
    Windows,
    MacOs,
    /// Linux and the other Unix-like systems, which follow the XDG conventions.
    Unix,
}

/// The environment variables the settings location is read from.
#[derive(Debug, Clone)]
pub struct Environment {
    /// `APPDATA`, read on Windows.
    pub appdata: Option<String>,
    /// `XDG_CONFIG_HOME`, read on Unix-like systems.
    pub xdg_config_home: Option<String>,
    /// `HOME`, read on macOS and on Unix-like systems.
    pub home: Option<String>,
}

/// Whether a path is a drive and nothing more, such as `C:`.
pub open spec fn drive_only(base: Seq<char>) -> bool {
    base.len() == 2 && base[1] == ':' && (('a' <= base[0] && base[0] <= 'z') || ('A' <= base[0] && base[0] <= 'Z'))
}

/// `base` with the relative name `part` added, as `PathBuf::join` does on Windows: a
/// backslash goes between them unless `base` is empty, already ends in a separator (`\`
/// or `/`), or is a bare drive such as `C:`.
pub open spec fn win_joined(base: Seq<char>, part: Seq<char>) -> Seq<char> {
    if base.len() == 0 || base.last() == '\\' || base.last() == '/' || drive_only(base) {
        base + part
    } else {
        base + "\\"@ + part
    }
}

/// `base` with the relative name `part` added, by the conventions of `system`.
pub open spec fn joined_on(system: System, base: Seq<char>, part: Seq<char>) -> Seq<char> {
    if system is Windows { win_joined(base, part) } else { joined(base, part) }
}

/// Adds the relative name `part` to the path `base` on Windows (see [`win_joined`]).
pub fn win_join(base: &str, part: &str) -> (r: String)
    ensures
        r@ == win_joined(base@, part@),
{
    let chars = chars_of(base);
    let n = chars.len();
    let drive = n == 2 && chars[1] == ':'
        && (('a' <= chars[0] && chars[0] <= 'z') || ('A' <= chars[0] && chars[0] <= 'Z'));
    let mut r = String::from_str(base);
    if n > 0 && chars[n - 1] != '\\' && chars[n - 1] != '/' && !drive {
        r.append("\\");
    }
    r.append(part);
    r
}

/// Where the settings directory lies. On Windows, `RustyPaint` under `APPDATA`; on macOS,
/// `Library/Application Support/RustyPaint` under `HOME`; elsewhere `rustypaint` under
/// `XDG_CONFIG_HOME` when that is set and not empty, else under `HOME/.config`. Nowhere when
/// the variables it needs are not set.
pub open spec fn settings_dir(
    system: System,
    appdata: Option<Seq<char>>,
    xdg_config_home: Option<Seq<char>>,
    home: Option<Seq<char>>,
) -> Option<Seq<char>> {
    match system {
        System::Windows => match appdata {
            Some(a) => Some(win_joined(a, "RustyPaint"@)),
            None => None,
        },
        System::MacOs => match home {
            Some(h) => Some(joined(joined(joined(h, "Library"@), "Application Support"@), "RustyPaint"@)),
            None => None,
        },
        System::Unix => {
            let root = match xdg_config_home {
                Some(x) if x.len() > 0 => Some(x),
                _ => match home {
                    Some(h) => Some(joined(h, ".config"@)),
                    None => None,
                },
            };
            match root {
                Some(r) => Some(joined(r, "rustypaint"@)),
                None => None,
            }
        },
    }
}

/// The settings directory as `env` and `system` place it (see [`settings_dir`]).
pub open spec fn env_settings_dir(system: System, env: Environment) -> Option<Seq<char>> {
    settings_dir(system, opt_chars(env.appdata), opt_chars(env.xdg_config_home), opt_chars(env.home))
}

/// The settings directory (see [`settings_dir`]).
pub fn config_dir(system: System, env: &Environment) -> (r: Option<String>)
    ensures
        r matches Some(d) ==> env_settings_dir(system, *env) == Some(d@),
        r is None ==> env_settings_dir(system, *env) is None,
{
    match system {
        System::Windows => match &env.appdata {
            Some(a) => Some(win_join(a.as_str(), "RustyPaint")),
            None => None,
        },
        System::MacOs => match &env.home {
            Some(h) => {
                let lib = join(h.as_str(), "Library");
                let support = join(lib.as_str(), "Application Support");
                Some(join(support.as_str(), "RustyPaint"))
            },
            None => None,
        },
        System::Unix => {
            let root = match &env.xdg_config_home {
                Some(x) if !x.as_str().is_empty() => x.clone(),
                _ => match &env.home {
                    Some(h) => join(h.as_str(), ".config"),
                    None => return None,
                },
            };
            Some(join(root.as_str(), "rustypaint"))
        },
    }
}

/// Where the settings file lies: `config.toml` in the settings directory.
pub fn path(system: System, env: &Environment) -> (r: Option<String>)
    ensures
        r matches Some(p) ==> (env_settings_dir(system, *env) matches Some(d)
            && p@ == joined_on(system, d, "config.toml"@)),
        r is None ==> env_settings_dir(system, *env) is None,
{
    let dir = config_dir(system, env)?;
    match system {
        System::Windows => Some(win_join(dir.as_str(), "config.toml")),
        _ => Some(join(dir.as_str(), "config.toml")),
    }
}

} // verus!

verus! {

/// The custom-colour row after a colour is put on it: a colour already there changes
/// nothing; a new one goes on the end, and the oldest fall off the front past six.
pub open spec fn remembered(row: Seq<[u8; 4]>, colour: [u8; 4]) -> Seq<[u8; 4]> {
    if row.contains(colour) {
        row
    } else {
        let grown = row.push(colour);
        if grown.len() > CUSTOM_ROW {
            grown.subrange(grown.len() - CUSTOM_ROW, grown.len() as int)
        } else {
            grown
        }
    }
}

/// A row that a palette can show: no colour twice, and no more than six.
pub open spec fn tidy_row(row: Seq<[u8; 4]>) -> bool {
    &&& row.len() <= CUSTOM_ROW
    &&& row.no_duplicates()
}

/// Whether two colours are the same in every channel.
pub fn same_colour(a: [u8; 4], b: [u8; 4]) -> (r: bool)
    ensures
        r == (a == b),
{
    let r = a[0] == b[0] && a[1] == b[1] && a[2] == b[2] && a[3] == b[3];
    proof {
        if r {
            assert(a =~= b);
        }
        if a == b {
            assert(a[0] == b[0]);
        }
    }
    r
}

impl Config {
    /// Whether the custom row already holds `colour`.
    pub fn has_colour(&self, colour: [u8; 4]) -> (r: bool)
        ensures
            r == self.custom_colours@.contains(colour),
    {
        let mut i: usize = 0;
        while i < self.custom_colours.len()
            invariant
                0 <= i <= self.custom_colours@.len(),
                forall|k: int| 0 <= k < i ==> self.custom_colours@[k] != colour,
            decreases self.custom_colours@.len() - i,
        {
            if same_colour(self.custom_colours[i], colour) {
                return true;
            }
            i = i + 1;
        }
        false
    }

    /// Puts a colour the picker gave back on the custom row (see [`remembered`]), and says
    /// whether the row changed.
    pub fn remember_colour(&mut self, colour: [u8; 4]) -> (changed: bool)
        ensures
            final(self).custom_colours@ == remembered(old(self).custom_colours@, colour),
            changed == !old(self).custom_colours@.contains(colour),
            final(self).theme == old(self).theme,
            final(self).accent == old(self).accent,
            final(self).new_canvas == old(self).new_canvas,
            final(self).acrylic == old(self).acrylic,
            final(self).decorations == old(self).decorations,
            final(self).confirm_discard == old(self).confirm_discard,
            final(self).open_in == old(self).open_in,
    {
        if self.has_colour(colour) {
            return false;
        }
        let ghost grown = self.custom_colours@.push(colour);
        self.custom_colours.push(colour);
        while self.custom_colours.len() > CUSTOM_ROW
            invariant
                grown.len() > CUSTOM_ROW ==> self.custom_colours@.len() >= CUSTOM_ROW,
                grown.len() <= CUSTOM_ROW ==> self.custom_colours@.len() == grown.len(),
                grown.len() >= self.custom_colours@.len(),
                self.theme == old(self).theme,
                self.accent == old(self).accent,
                self.new_canvas == old(self).new_canvas,
                self.acrylic == old(self).acrylic,
                self.decorations == old(self).decorations,
                self.confirm_discard == old(self).confirm_discard,
                self.open_in == old(self).open_in,
                self.custom_colours@ == grown.subrange(grown.len() - self.custom_colours@.len(), grown.len() as int),
            decreases self.custom_colours@.len(),
        {
            self.custom_colours.remove(0);
            assert(self.custom_colours@ =~= grown.subrange(grown.len() - self.custom_colours@.len(), grown.len() as int));
        }
        assert(grown.len() > CUSTOM_ROW ==> self.custom_colours@.len() == CUSTOM_ROW);
        assert(grown.len() <= CUSTOM_ROW ==> self.custom_colours@ =~= grown);
        true
    }

    /// Writes over the custom colour at `index` with the one the picker gave back, and says
    /// whether there was a colour there to write over.
    pub fn replace_colour(&mut self, index: usize, colour: [u8; 4]) -> (done: bool)
        ensures
            done == (index < old(self).custom_colours@.len()),
            done ==> final(self).custom_colours@ == old(self).custom_colours@.update(index as int, colour),
            !done ==> final(self).custom_colours@ == old(self).custom_colours@,
            final(self).theme == old(self).theme,
            final(self).accent == old(self).accent,
            final(self).new_canvas == old(self).new_canvas,
            final(self).acrylic == old(self).acrylic,
            final(self).decorations == old(self).decorations,
            final(self).confirm_discard == old(self).confirm_discard,
            final(self).open_in == old(self).open_in,
    {
        if index < self.custom_colours.len() {
            self.custom_colours.set(index, colour);
            true
        } else {
            false
        }
    }

    /// Takes the custom colour at `index` off the row, and says whether there was one.
    pub fn forget_colour(&mut self, index: usize) -> (done: bool)
        ensures
            done == (index < old(self).custom_colours@.len()),
            done ==> final(self).custom_colours@ == old(self).custom_colours@.remove(index as int),
            !done ==> final(self).custom_colours@ == old(self).custom_colours@,
            final(self).theme == old(self).theme,
            final(self).accent == old(self).accent,
            final(self).new_canvas == old(self).new_canvas,
            final(self).acrylic == old(self).acrylic,
            final(self).decorations == old(self).decorations,
            final(self).confirm_discard == old(self).confirm_discard,
            final(self).open_in == old(self).open_in,
    {
        if index < self.custom_colours.len() {
            self.custom_colours.remove(index);
            true
        } else {
            false
        }
    }

    /// The custom colour at `index`, if the row reaches that far.
    pub fn colour_at(&self, index: usize) -> (r: Option<[u8; 4]>)
        ensures
            index < self.custom_colours@.len() ==> r == Some(self.custom_colours@[index as int]),
            index >= self.custom_colours@.len() ==> r is None,
    {
        if index < self.custom_colours.len() {
            Some(self.custom_colours[index])
        } else {
            None
        }
    }

    /// The swatch whose menu a click at `index` opens: that swatch, if the row has it.
    pub fn colour_menu(&self, index: usize) -> (r: Option<usize>)
        ensures
            r == (if index < self.custom_colours@.len() { Some(index) } else { None::<usize> }),
    {
        if index < self.custom_colours.len() {
            Some(index)
        } else {
            None
        }
    }
}

/// Putting a colour on a tidy custom row leaves it tidy, ends it with that colour, and
/// loses nothing but the oldest colours.
pub proof fn lemma_remembered_is_tidy(row: Seq<[u8; 4]>, colour: [u8; 4])
    requires
        tidy_row(row),
    ensures
        tidy_row(remembered(row, colour)),
        remembered(row, colour).contains(colour),
        row.contains(colour) || remembered(row, colour).last() == colour,
{
    if !row.contains(colour) {
        let grown = row.push(colour);
        assert(grown.no_duplicates()) by {
            assert forall|i: int, j: int| 0 <= i < grown.len() && 0 <= j < grown.len() && i != j
                implies grown[i] != grown[j] by {
                if j == grown.len() - 1 {
                    assert(row.contains(grown[i]) || i == j);
                } else if i == grown.len() - 1 {
                    assert(row.contains(grown[j]));
                }
            }
        }
        let r = remembered(row, colour);
        if grown.len() > CUSTOM_ROW {
            assert(r.last() == colour);
            assert(r[r.len() - 1] == colour);
            assert(r.no_duplicates()) by {
                assert forall|i: int, j: int| 0 <= i < r.len() && 0 <= j < r.len() && i != j
                    implies r[i] != r[j] by {
                    assert(r[i] == grown[i + grown.len() - CUSTOM_ROW]);
                    assert(r[j] == grown[j + grown.len() - CUSTOM_ROW]);
                }
            }
        } else {
            assert(r[r.len() - 1] == colour);
        }
    }
}

/// Taking a colour off a tidy custom row leaves it tidy.
pub proof fn lemma_forgotten_is_tidy(row: Seq<[u8; 4]>, index: int)
    requires
        tidy_row(row),
        0 <= index < row.len(),
    ensures
        tidy_row(row.remove(index)),
{
    let r = row.remove(index);
    assert forall|i: int, j: int| 0 <= i < r.len() && 0 <= j < r.len() && i != j implies r[i] != r[j] by {
        let a = if i < index { i } else { i + 1 };
        let b = if j < index { j } else { j + 1 };
        assert(r[i] == row[a]);
        assert(r[j] == row[b]);
    }
}

} // verus!
