use vstd::prelude::*;

use crate::canvas::{size_for, sized, NewCanvas};
use crate::config::{lemma_remembered_is_tidy, remembered, tidy_row, Config, OpenIn};
use crate::panel::Discard;
use crate::tabs::Sheets;

verus! {

/// What waits on the answer to the question whether to throw unsaved work away.
#[derive(Debug, Clone, Copy, PartialEq, Eq, Structural)]
pub enum Pending {
    /// Closing the window.
    Close,
    /// Closing the active tab.
    Tab,
}

/// An open document with what the session needs to know of it.
#[derive(Debug, PartialEq, Eq)]
pub struct Page<S> {
    /// The document itself, which the session only carries.
    pub doc: S,
    /// Whether it holds work that has not been saved.
    pub unsaved: bool,
    /// Whether it is a blank nobody has touched: unmodified, never saved, nothing to undo.
    pub untouched: bool,
    /// Its size in pixels.
    pub size: (u32, u32),
}

/// What the window keeps besides its documents: the question about unsaved work, the
/// settings, the colours and the colour picker, and the menus.
pub struct Chrome {
    /// What waits on the answer while the question is asked.
    pub asking: Option<Pending>,
    /// What waits on a save that was asked for in answer to the question.
    pub after_save: Option<Pending>,
    /// Whether the window has been measured yet.
    pub measured: bool,
    /// The window's room, in the new-canvas shape and rounded to whole pixels, as last
    /// measured (`None` when it has too little room, or has not been measured).
    pub room: Option<(u32, u32)>,
    /// The size of a blank document when the window gives no room to fit one into.
    pub blank: (u32, u32),
    pub config: Config,
    /// The colour the brush paints with.
    pub brush_colour: [u8; 4],
    /// Whether a picked colour also fills the shapes.
    pub colour_target: bool,
    /// The colour shapes are filled with, if any.
    pub shape_fill: Option<[u8; 4]>,
    /// Whether the colour picker is open.
    pub picker_open: bool,
    /// The custom colour the picker is editing, if it is editing one.
    pub editing: Option<usize>,
    /// Which part of the picker is being dragged: the field (`true`) or the strip.
    pub picking_field: Option<bool>,
    /// The custom colour whose menu is open, if one is.
    pub swatch_menu: Option<usize>,
    /// Whether the main menu is open.
    pub menu_open: bool,
}

/// The documents open in the window, and what the window keeps besides them.
pub struct Session<S> {
    pub sheets: Sheets<Page<S>>,
    pub chrome: Chrome,
}

/// What happened, as the session hears of it.
#[derive(Debug, PartialEq, Eq)]
pub enum Event<S> {
    /// A tab was clicked.
    TabSelected(usize),
    /// The tabs were stepped through that many places, wrapping round.
    TabStepped(i32),
    /// The active tab's close shortcut.
    TabCloseRequested,
    /// A tab's close button.
    TabClosed(usize),
    /// The window's close button.
    WindowClosed,
    /// A new document was asked for; this is the blank that would be added, the size a
    /// new canvas takes in the window's room.
    NewRequested(Page<S>),
    /// Opening a file was asked for.
    OpenRequested,
    /// A document was read from disk.
    Opened(Page<S>),
    /// The active document changed: whether it now holds unsaved work, and whether it is
    /// still an untouched blank.
    Changed { unsaved: bool, untouched: bool },
    /// The answer to the question about unsaved work.
    DiscardAnswered(Discard),
    /// A save of the active document ended, in success or not.
    Saved(bool),
    /// The colour picker was opened on the brush colour.
    PickerOpened,
    /// The colour picker was closed without taking its colour.
    PickerClosed,
    /// A drag started in the picker's field (`true`) or strip.
    PickerPressed(bool),
    /// The drag in the picker ended.
    PickerReleased,
    /// The colour picker's colour was taken.
    PickerConfirmed([u8; 4]),
    /// A custom colour was clicked, to paint with.
    CustomColourPicked(usize),
    /// A custom colour's menu was opened.
    CustomColourMenuOpened(usize),
    /// A custom colour's menu asked to edit it in the picker.
    CustomColourEditRequested(usize),
    /// A custom colour was taken off its row.
    CustomColourRemoved(usize),
    /// Whether picked colours also fill shapes was set.
    ColourTargetPicked(bool),
    /// The main menu was opened or closed.
    MenuToggled(bool),
    /// Where files and new documents open was picked.
    OpenInPicked(OpenIn),
    /// Asking before unsaved work is thrown away was turned on or off.
    ConfirmDiscardToggled(bool),
    /// A preset for new canvases was picked.
    NewCanvasPicked(NewCanvas),
    /// The window reported its size: the room it has, in the new-canvas shape, rounded to
    /// whole pixels (`None` when it has too little room).
    WindowMeasured(Option<(u32, u32)>),
}

/// What the window is to do after an event.
#[derive(Debug, PartialEq, Eq)]
pub enum Action<S> {
    Nothing,
    /// Ask whether to throw the unsaved work away.
    Ask,
    /// Save the active document, and report how it went with `Saved`.
    Save,
    /// Forget the active document's crash snapshot and close the window.
    Quit,
    /// Forget the snapshot of this document, whose tab was closed.
    Closed(S),
    /// Forget the active document's crash snapshot.
    Forget,
    /// Write the settings file.
    SaveConfig,
    /// Fit the view to the document.
    Fit,
    /// Put a blank document of this size in place of the untouched one, then fit the view.
    Reblank(u32, u32),
    /// Ask for a file and read it, reporting it with `Opened`.
    PickAndLoad,
    /// Ask for a file and open it in a window of its own.
    PickElsewhere,
    /// Open a window of its own with a new document.
    NewElsewhere,
}

/// A session as the rules about it read it.
pub struct SessionView<S> {
    pub pages: Seq<Page<S>>,
    pub active: int,
    pub asking: Option<Pending>,
    pub after_save: Option<Pending>,
    pub measured: bool,
    pub room: Option<(u32, u32)>,
    pub blank: (u32, u32),
    pub colours: Seq<[u8; 4]>,
    pub new_canvas: NewCanvas,
    pub confirm_discard: bool,
    pub open_in: OpenIn,
    pub brush_colour: [u8; 4],
    pub colour_target: bool,
    pub shape_fill: Option<[u8; 4]>,
    pub picker_open: bool,
    pub editing: Option<usize>,
    pub picking_field: Option<bool>,
    pub swatch_menu: Option<usize>,
    pub menu_open: bool,
}

impl<S> View for Session<S> {
    type V = SessionView<S>;

    open spec fn view(&self) -> SessionView<S> {
        SessionView {
            pages: self.sheets.order(),
            active: self.sheets.active as int,
            asking: self.chrome.asking,
            after_save: self.chrome.after_save,
            measured: self.chrome.measured,
            room: self.chrome.room,
            blank: self.chrome.blank,
            colours: self.chrome.config.custom_colours@,
            new_canvas: self.chrome.config.new_canvas,
            confirm_discard: self.chrome.config.confirm_discard,
            open_in: self.chrome.config.open_in,
            brush_colour: self.chrome.brush_colour,
            colour_target: self.chrome.colour_target,
            shape_fill: self.chrome.shape_fill,
            picker_open: self.chrome.picker_open,
            editing: self.chrome.editing,
            picking_field: self.chrome.picking_field,
            swatch_menu: self.chrome.swatch_menu,
            menu_open: self.chrome.menu_open,
        }
    }
}

/// The colour taken for painting: the brush's, and the shapes' fill when picked colours
/// fill shapes too.
pub open spec fn took_colour<S>(v: SessionView<S>, c: [u8; 4]) -> SessionView<S> {
    SessionView { brush_colour: c, shape_fill: if v.colour_target { Some(c) } else { v.shape_fill }, ..v }
}

/// The size a new document takes: the new-canvas preset in the window's room.
pub open spec fn new_size<S>(v: SessionView<S>) -> (u32, u32) {
    let s = sized(v.new_canvas, v.room, v.blank);
    (s.0 as u32, s.1 as u32)
}

/// The active document.
pub open spec fn current<S>(v: SessionView<S>) -> Page<S> {
    v.pages[v.active]
}

/// The session with the active document replaced.
pub open spec fn with_current<S>(v: SessionView<S>, p: Page<S>) -> SessionView<S> {
    SessionView { pages: v.pages.update(v.active, p), ..v }
}

/// Tab `tab` made active, unless it is the active one or not there.
pub open spec fn switched<S>(v: SessionView<S>, tab: int) -> SessionView<S> {
    if tab == v.active || tab >= v.pages.len() { v } else { SessionView { active: tab, ..v } }
}

/// A document added as a new tab after the others, and made active.
pub open spec fn added<S>(v: SessionView<S>, p: Page<S>) -> SessionView<S> {
    SessionView { pages: v.pages.push(p), active: v.pages.len() as int, ..v }
}

/// The active tab closed; the one after it (or the new last one) becomes active.
pub open spec fn closed<S>(v: SessionView<S>) -> SessionView<S> {
    SessionView {
        pages: v.pages.remove(v.active),
        active: if v.active < v.pages.len() - 1 { v.active } else { v.pages.len() - 2 },
        ..v
    }
}

/// Whether any open document holds unsaved work.
pub open spec fn any_unsaved<S>(v: SessionView<S>) -> bool {
    exists|i: int| 0 <= i < v.pages.len() && #[trigger] v.pages[i].unsaved
}

/// Going on with what waited: closing the window quits; closing a tab closes the active
/// one, unless it is the only one, whose snapshot is only forgotten.
pub open spec fn carried_on<S>(v: SessionView<S>, p: Pending) -> (SessionView<S>, Action<S>) {
    match p {
        Pending::Close => (v, Action::Quit),
        Pending::Tab => if v.pages.len() < 2 {
            (v, Action::Forget)
        } else {
            (closed(v), Action::Closed(current(v).doc))
        },
    }
}

/// Before work is thrown away: the question is asked when there is unsaved work in what
/// would go (any document, for the window; the active one, for a tab) and asking is on;
/// otherwise it goes.
pub open spec fn discarding<S>(v: SessionView<S>, p: Pending) -> (SessionView<S>, Action<S>) {
    let dirty = match p {
        Pending::Close => any_unsaved(v),
        Pending::Tab => current(v).unsaved,
    };
    if dirty && v.confirm_discard {
        (SessionView { asking: Some(p), ..v }, Action::Ask)
    } else {
        carried_on(v, p)
    }
}

/// Closing tab `tab`: with one tab that is closing the window; otherwise the tab is made
/// active and then closed.
pub open spec fn closing<S>(v: SessionView<S>, tab: int) -> (SessionView<S>, Action<S>) {
    if v.pages.len() == 1 {
        discarding(v, Pending::Close)
    } else {
        discarding(switched(v, tab), Pending::Tab)
    }
}

/// What the session does with an event, and what it asks of the window.
pub open spec fn session_step<S>(v: SessionView<S>, e: Event<S>) -> (SessionView<S>, Action<S>) {
    match e {
        Event::TabSelected(tab) => (switched(v, tab as int), Action::Nothing),
        Event::TabStepped(by) => (SessionView { active: (v.active + by) % (v.pages.len() as int), ..v }, Action::Nothing),
        Event::TabCloseRequested => closing(v, v.active),
        Event::TabClosed(tab) => closing(v, tab as int),
        Event::WindowClosed => discarding(v, Pending::Close),
        Event::NewRequested(p) => {
            let m = SessionView { menu_open: false, ..v };
            if current(v).untouched {
                (m, Action::Nothing)
            } else if v.open_in == OpenIn::Window {
                (m, Action::NewElsewhere)
            } else {
                (added(m, p), Action::Nothing)
            }
        },
        Event::OpenRequested => if v.open_in == OpenIn::Window && !current(v).untouched {
            (v, Action::PickElsewhere)
        } else {
            (v, Action::PickAndLoad)
        },
        Event::Opened(p) => if current(v).untouched { (with_current(v, p), Action::Nothing) } else { (added(v, p), Action::Nothing) },
        Event::Changed { unsaved, untouched } => (
            with_current(v, Page { unsaved, untouched, ..current(v) }),
            Action::Nothing,
        ),
        Event::DiscardAnswered(answer) => match v.asking {
            None => (v, Action::Nothing),
            Some(p) => {
                let asked = SessionView { asking: None, ..v };
                match answer {
                    Discard::Throw => carried_on(asked, p),
                    Discard::Save => (SessionView { after_save: Some(p), ..asked }, Action::Save),
                    _ => (asked, Action::Nothing),
                }
            },
        },
        Event::Saved(ok) => if ok {
            let saved = SessionView { after_save: None, ..with_current(v, Page { unsaved: false, untouched: false, ..current(v) }) };
            match v.after_save {
                Some(p) => carried_on(saved, p),
                None => (saved, Action::Nothing),
            }
        } else {
            (SessionView { after_save: None, ..v }, Action::Nothing)
        },
        Event::PickerOpened => (SessionView { picker_open: true, editing: None, swatch_menu: None, ..v }, Action::Nothing),
        Event::PickerClosed => (SessionView { picker_open: false, editing: None, picking_field: None, ..v }, Action::Nothing),
        Event::PickerPressed(field) => (SessionView { picking_field: Some(field), ..v }, Action::Nothing),
        Event::PickerReleased => (SessionView { picking_field: None, ..v }, Action::Nothing),
        Event::PickerConfirmed(colour) => if !v.picker_open {
            (SessionView { picking_field: None, ..v }, Action::Nothing)
        } else {
            let closed = SessionView { picker_open: false, editing: None, picking_field: None, ..v };
            let (row, act) = match v.editing {
                Some(i) => if i < v.colours.len() {
                    (v.colours.update(i as int, colour), Action::SaveConfig)
                } else {
                    (v.colours, Action::Nothing)
                },
                None => if v.colours.contains(colour) {
                    (v.colours, Action::Nothing)
                } else {
                    (remembered(v.colours, colour), Action::SaveConfig)
                },
            };
            (took_colour(SessionView { colours: row, ..closed }, colour), act)
        },
        Event::CustomColourPicked(i) => {
            let m = SessionView { swatch_menu: None, ..v };
            if i < v.colours.len() { (took_colour(m, v.colours[i as int]), Action::Nothing) } else { (m, Action::Nothing) }
        },
        Event::CustomColourMenuOpened(i) => (
            SessionView { swatch_menu: if i < v.colours.len() { Some(i) } else { None }, ..v },
            Action::Nothing,
        ),
        Event::CustomColourEditRequested(i) => {
            let m = SessionView { swatch_menu: None, ..v };
            if i < v.colours.len() {
                (SessionView { picker_open: true, editing: Some(i), ..m }, Action::Nothing)
            } else {
                (m, Action::Nothing)
            }
        },
        Event::CustomColourRemoved(i) => {
            let m = SessionView { swatch_menu: None, ..v };
            if i < v.colours.len() {
                (SessionView { colours: v.colours.remove(i as int), ..m }, Action::SaveConfig)
            } else {
                (m, Action::Nothing)
            }
        },
        Event::ColourTargetPicked(fill) => (SessionView { colour_target: fill, ..v }, Action::Nothing),
        Event::MenuToggled(open) => (SessionView { menu_open: open, ..v }, Action::Nothing),
        Event::OpenInPicked(o) => (SessionView { open_in: o, ..v }, Action::SaveConfig),
        Event::ConfirmDiscardToggled(on) => (SessionView { confirm_discard: on, ..v }, Action::SaveConfig),
        Event::NewCanvasPicked(preset) => (SessionView { new_canvas: preset, ..v }, Action::SaveConfig),
        Event::WindowMeasured(fitted) => {
            let m = SessionView { room: fitted, measured: true, ..v };
            if v.measured {
                (SessionView { room: fitted, ..v }, Action::Nothing)
            } else {
                let size = sized(v.new_canvas, fitted, v.blank);
                if v.new_canvas is Fit && current(v).untouched
                    && (size.0, size.1) != (current(v).size.0 as int, current(v).size.1 as int) {
                    (
                        with_current(m, Page { size: (size.0 as u32, size.1 as u32), ..current(v) }),
                        Action::Reblank(size.0 as u32, size.1 as u32),
                    )
                } else {
                    (m, Action::Fit)
                }
            }
        },
    }
}

/// Whether the event can be taken: the tab count and the tab arithmetic stay within what
/// the machine integers hold, and a new document is a blank of the size new documents
/// take.
pub open spec fn fits<S>(v: SessionView<S>, e: Event<S>) -> bool {
    match e {
        Event::TabStepped(by) => v.pages.len() <= i32::MAX && i32::MIN <= v.active + by <= i32::MAX,
        Event::NewRequested(p) => v.pages.len() + 1 < usize::MAX && p.size == new_size(v) && p.untouched && !p.unsaved,
        Event::Opened(_) => v.pages.len() + 1 < usize::MAX,
        _ => true,
    }
}

} // verus!

verus! {

impl<S> Session<S> {
    /// The session is sound: its tabs are.
    pub open spec fn wf(&self) -> bool {
        self.sheets.wf()
    }

    /// A session of one document, nothing asked, the window not yet measured, the brush
    /// painting `brush_colour`, and no picker or menu open.
    pub fn new(page: Page<S>, blank: (u32, u32), config: Config, brush_colour: [u8; 4]) -> (s: Self)
        ensures
            s.wf(),
            s@.pages == seq![page],
            s@.active == 0,
            s@.asking is None,
            s@.after_save is None,
            !s@.measured,
            s@.room is None,
            s@.blank == blank,
            s@.colours == config.custom_colours@,
            s@.new_canvas == config.new_canvas,
            s@.confirm_discard == config.confirm_discard,
            s@.open_in == config.open_in,
            s@.brush_colour == brush_colour,
            !s@.colour_target,
            s@.shape_fill is None,
            !s@.picker_open,
            s@.editing is None,
            s@.picking_field is None,
            s@.swatch_menu is None,
            !s@.menu_open,
    {
        Session {
            sheets: Sheets::single(page),
            chrome: Chrome {
                asking: None,
                after_save: None,
                measured: false,
                room: None,
                blank,
                config,
                brush_colour,
                colour_target: false,
                shape_fill: None,
                picker_open: false,
                editing: None,
                picking_field: None,
                swatch_menu: None,
                menu_open: false,
            },
        }
    }

    /// The session with the active document replaced.
    fn set_current(self, p: Page<S>) -> (r: Self)
        requires
            self.wf(),
        ensures
            r.wf(),
            r@ == with_current(self@, p),
            r.chrome == self.chrome,
    {
        proof {
            self.sheets.lemma_replace_open(p);
        }
        let Session { sheets, chrome } = self;
        let Sheets { open, parked, active } = sheets;
        Session { sheets: Sheets { open: p, parked, active }, chrome }
    }

    /// Whether any open document holds unsaved work.
    fn any_unsaved(&self) -> (b: bool)
        requires
            self.wf(),
        ensures
            b == any_unsaved(self@),
    {
        proof {
            self.sheets.lemma_order_shape();
        }
        if self.sheets.open.unsaved {
            assert(self@.pages[self@.active].unsaved);
            return true;
        }
        let mut i: usize = 0;
        while i < self.sheets.parked.len()
            invariant
                self.wf(),
                i <= self.sheets.parked@.len(),
                !self.sheets.open.unsaved,
                forall|k: int| 0 <= k < i ==> !(#[trigger] self.sheets.parked@[k]).unsaved,
            decreases self.sheets.parked@.len() - i,
        {
            if self.sheets.parked[i].unsaved {
                proof {
                    self.sheets.lemma_order_shape();
                    let at = if (i as int) < self.sheets.active { i as int } else { i + 1 };
                    assert(self@.pages[at] == self.sheets.parked@[i as int]);
                }
                return true;
            }
            i = i + 1;
        }
        proof {
            self.sheets.lemma_order_shape();
            assert forall|k: int| 0 <= k < self@.pages.len() implies !(#[trigger] self@.pages[k]).unsaved by {
                if k < self.sheets.active {
                    assert(self@.pages[k] == self.sheets.parked@[k]);
                } else if k > self.sheets.active {
                    assert(self@.pages[k] == self.sheets.parked@[k - 1]);
                }
            }
        }
        false
    }

    /// Goes on with what waited (see `carried_on`).
    fn carry_on(self, p: Pending) -> (r: (Self, Action<S>))
        requires
            self.wf(),
        ensures
            r.0.wf(),
            (r.0@, r.1) == carried_on(self@, p),
            r.0.chrome == self.chrome,
    {
        match p {
            Pending::Close => (self, Action::Quit),
            Pending::Tab => {
                if self.sheets.sheets() < 2 {
                    return (self, Action::Forget);
                }
                proof {
                    self.sheets.lemma_order_shape();
                }
                let Session { sheets, chrome } = self;
                let (sheets, gone) = sheets.close();
                let gone = match gone {
                    Some(g) => g,
                    None => {
                        assert(false);
                        return (Session { sheets, chrome }, Action::Nothing);
                    },
                };
                (Session { sheets, chrome }, Action::Closed(gone.doc))
            },
        }
    }

    /// Asks before work is thrown away, or throws it (see `discarding`).
    fn discard(self, p: Pending) -> (r: (Self, Action<S>))
        requires
            self.wf(),
        ensures
            r.0.wf(),
            (r.0@, r.1) == discarding(self@, p),
            r.0.chrome.config == self.chrome.config,
    {
        proof {
            self.sheets.lemma_order_shape();
        }
        let dirty = match p {
            Pending::Close => self.any_unsaved(),
            Pending::Tab => self.sheets.open.unsaved,
        };
        if dirty && self.chrome.config.confirm_discard {
            let mut s = self;
            s.chrome.asking = Some(p);
            (s, Action::Ask)
        } else {
            self.carry_on(p)
        }
    }

    /// Makes tab `tab` active (see `switched`).
    fn switch(self, tab: usize) -> (r: Self)
        requires
            self.wf(),
        ensures
            r.wf(),
            r@ == switched(self@, tab as int),
            r.chrome == self.chrome,
    {
        let Session { sheets, chrome } = self;
        let sheets = sheets.switch_to(tab);
        let r = Session { sheets, chrome };
        assert(r@ == switched(self@, tab as int));
        r
    }

    /// Closes tab `tab` (see `closing`).
    fn close_tab(self, tab: usize) -> (r: (Self, Action<S>))
        requires
            self.wf(),
        ensures
            r.0.wf(),
            (r.0@, r.1) == closing(self@, tab as int),
            r.0.chrome.config == self.chrome.config,
    {
        if self.sheets.sheets() == 1 {
            self.discard(Pending::Close)
        } else {
            self.switch(tab).discard(Pending::Tab)
        }
    }

    /// Adds a document as a new, active tab (see `added`).
    fn add(self, p: Page<S>) -> (r: Self)
        requires
            self.wf(),
            self@.pages.len() + 1 < usize::MAX,
        ensures
            r.wf(),
            r@ == added(self@, p),
            r.chrome == self.chrome,
    {
        let Session { sheets, chrome } = self;
        let sheets = sheets.add(p);
        Session { sheets, chrome }
    }
}

} // verus!

verus! {

impl<S> Session<S> {
    /// The answer to the question about unsaved work.
    fn answered(self, answer: Discard) -> (r: (Self, Action<S>))
        requires
            self.wf(),
        ensures
            r.0.wf(),
            (r.0@, r.1) == session_step(self@, Event::DiscardAnswered(answer)),
            r.0.chrome.config == self.chrome.config,
    {
        let Some(p) = self.chrome.asking else {
            return (self, Action::Nothing);
        };
        let mut s = self;
        s.chrome.asking = None;
        match answer {
            Discard::Throw => s.carry_on(p),
            Discard::Save => {
                s.chrome.after_save = Some(p);
                (s, Action::Save)
            },
            _ => (s, Action::Nothing),
        }
    }

    /// The end of a save of the active document.
    fn saved(self, ok: bool) -> (r: (Self, Action<S>))
        requires
            self.wf(),
        ensures
            r.0.wf(),
            (r.0@, r.1) == session_step(self@, Event::Saved(ok)),
            r.0.chrome.config == self.chrome.config,
    {
        let waiting = self.chrome.after_save;
        let mut s = self;
        s.chrome.after_save = None;
        if !ok {
            return (s, Action::Nothing);
        }
        let ghost mid = s;
        s.sheets.open.unsaved = false;
        s.sheets.open.untouched = false;
        proof {
            mid.sheets.lemma_order_shape();
            mid.sheets.lemma_replace_open(s.sheets.open);
        }
        match waiting {
            Some(p) => s.carry_on(p),
            None => (s, Action::Nothing),
        }
    }

    /// The active document changed.
    fn changed(self, unsaved: bool, untouched: bool) -> (r: (Self, Action<S>))
        requires
            self.wf(),
        ensures
            r.0.wf(),
            (r.0@, r.1) == session_step(self@, Event::Changed { unsaved, untouched }),
            r.0.chrome == self.chrome,
    {
        let mut s = self;
        s.sheets.open.unsaved = unsaved;
        s.sheets.open.untouched = untouched;
        proof {
            self.sheets.lemma_order_shape();
            self.sheets.lemma_replace_open(s.sheets.open);
        }
        (s, Action::Nothing)
    }

    /// A new blank document was asked for.
    fn new_requested(self, p: Page<S>) -> (r: (Self, Action<S>))
        requires
            self.wf(),
            self@.pages.len() + 1 < usize::MAX,
        ensures
            r.0.wf(),
            (r.0@, r.1) == session_step(self@, Event::NewRequested(p)),
            r.0.chrome.config == self.chrome.config,
    {
        proof {
            self.sheets.lemma_order_shape();
        }
        let mut s = self;
        s.chrome.menu_open = false;
        if s.sheets.open.untouched {
            (s, Action::Nothing)
        } else if s.chrome.config.open_in == OpenIn::Window {
            (s, Action::NewElsewhere)
        } else {
            (s.add(p), Action::Nothing)
        }
    }

    /// A file was read.
    fn opened(self, p: Page<S>) -> (r: (Self, Action<S>))
        requires
            self.wf(),
            self@.pages.len() + 1 < usize::MAX,
        ensures
            r.0.wf(),
            (r.0@, r.1) == session_step(self@, Event::Opened(p)),
            r.0.chrome == self.chrome,
    {
        proof {
            self.sheets.lemma_order_shape();
        }
        if self.sheets.open.untouched {
            (self.set_current(p), Action::Nothing)
        } else {
            (self.add(p), Action::Nothing)
        }
    }

    /// Takes a colour for painting (see `took_colour`).
    fn take_colour(&mut self, c: [u8; 4])
        ensures
            final(self)@ == took_colour(old(self)@, c),
            final(self).chrome.config == old(self).chrome.config,
            final(self).sheets == old(self).sheets,
    {
        self.chrome.brush_colour = c;
        if self.chrome.colour_target {
            self.chrome.shape_fill = Some(c);
        }
    }

    /// The colour picker's colour was taken.
    fn picker_confirmed(self, colour: [u8; 4]) -> (r: (Self, Action<S>))
        requires
            self.wf(),
        ensures
            r.0.wf(),
            (r.0@, r.1) == session_step(self@, Event::PickerConfirmed(colour)),
            r.0.chrome.config.theme == self.chrome.config.theme,
            r.0.chrome.config.accent == self.chrome.config.accent,
            r.0.chrome.config.acrylic == self.chrome.config.acrylic,
            r.0.chrome.config.decorations == self.chrome.config.decorations,
    {
        let mut s = self;
        if !s.chrome.picker_open {
            s.chrome.picking_field = None;
            return (s, Action::Nothing);
        }
        let editing = s.chrome.editing;
        s.chrome.picker_open = false;
        s.chrome.editing = None;
        s.chrome.picking_field = None;
        let changed = match editing {
            Some(i) => s.chrome.config.replace_colour(i, colour),
            None => s.chrome.config.remember_colour(colour),
        };
        s.take_colour(colour);
        (s, if changed { Action::SaveConfig } else { Action::Nothing })
    }

    /// Something done to the custom colours' row or to the picker.
    fn swatches(self, e: Event<S>) -> (r: (Self, Action<S>))
        requires
            self.wf(),
            e is CustomColourPicked || e is CustomColourMenuOpened || e is CustomColourEditRequested
                || e is CustomColourRemoved || e is PickerOpened || e is PickerClosed || e is PickerPressed
                || e is PickerReleased || e is ColourTargetPicked || e is MenuToggled,
        ensures
            r.0.wf(),
            (r.0@, r.1) == session_step(self@, e),
            r.0.chrome.config.theme == self.chrome.config.theme,
            r.0.chrome.config.accent == self.chrome.config.accent,
            r.0.chrome.config.acrylic == self.chrome.config.acrylic,
            r.0.chrome.config.decorations == self.chrome.config.decorations,
    {
        let mut s = self;
        match e {
            Event::CustomColourPicked(i) => {
                s.chrome.swatch_menu = None;
                if let Some(c) = s.chrome.config.colour_at(i) {
                    s.take_colour(c);
                }
                (s, Action::Nothing)
            },
            Event::CustomColourMenuOpened(i) => {
                s.chrome.swatch_menu = s.chrome.config.colour_menu(i);
                (s, Action::Nothing)
            },
            Event::CustomColourEditRequested(i) => {
                s.chrome.swatch_menu = None;
                if i < s.chrome.config.custom_colours.len() {
                    s.chrome.picker_open = true;
                    s.chrome.editing = Some(i);
                }
                (s, Action::Nothing)
            },
            Event::CustomColourRemoved(i) => {
                s.chrome.swatch_menu = None;
                let done = s.chrome.config.forget_colour(i);
                (s, if done { Action::SaveConfig } else { Action::Nothing })
            },
            Event::PickerOpened => {
                s.chrome.picker_open = true;
                s.chrome.editing = None;
                s.chrome.swatch_menu = None;
                (s, Action::Nothing)
            },
            Event::PickerClosed => {
                s.chrome.picker_open = false;
                s.chrome.editing = None;
                s.chrome.picking_field = None;
                (s, Action::Nothing)
            },
            Event::PickerPressed(field) => {
                s.chrome.picking_field = Some(field);
                (s, Action::Nothing)
            },
            Event::PickerReleased => {
                s.chrome.picking_field = None;
                (s, Action::Nothing)
            },
            Event::ColourTargetPicked(fill) => {
                s.chrome.colour_target = fill;
                (s, Action::Nothing)
            },
            Event::MenuToggled(open) => {
                s.chrome.menu_open = open;
                (s, Action::Nothing)
            },
            _ => (s, Action::Nothing),
        }
    }

    /// The window reported its size.
    fn measured_at(self, fitted: Option<(u32, u32)>) -> (r: (Self, Action<S>))
        requires
            self.wf(),
        ensures
            r.0.wf(),
            (r.0@, r.1) == session_step(self@, Event::WindowMeasured(fitted)),
            r.0.chrome.config == self.chrome.config,
    {
        let mut s = self;
        s.chrome.room = fitted;
        if s.chrome.measured {
            return (s, Action::Nothing);
        }
        proof {
            self.sheets.lemma_order_shape();
        }
        s.chrome.measured = true;
        let (w, h) = size_for(s.chrome.config.new_canvas, fitted, s.chrome.blank);
        let fit = match s.chrome.config.new_canvas {
            NewCanvas::Fit(_) => true,
            _ => false,
        };
        if fit && s.sheets.open.untouched && (w != s.sheets.open.size.0 || h != s.sheets.open.size.1) {
            let ghost mid = s;
            s.sheets.open.size = (w, h);
            proof {
                mid.sheets.lemma_replace_open(s.sheets.open);
            }
            (s, Action::Reblank(w, h))
        } else {
            (s, Action::Fit)
        }
    }

    /// The settings that are set directly.
    fn set_setting(self, e: Event<S>) -> (r: (Self, Action<S>))
        requires
            self.wf(),
            e is OpenInPicked || e is ConfirmDiscardToggled || e is NewCanvasPicked,
        ensures
            r.0.wf(),
            (r.0@, r.1) == session_step(self@, e),
            r.0.chrome.config.theme == self.chrome.config.theme,
            r.0.chrome.config.accent == self.chrome.config.accent,
            r.0.chrome.config.acrylic == self.chrome.config.acrylic,
            r.0.chrome.config.decorations == self.chrome.config.decorations,
    {
        let mut s = self;
        match e {
            Event::OpenInPicked(o) => s.chrome.config.open_in = o,
            Event::ConfirmDiscardToggled(on) => s.chrome.config.confirm_discard = on,
            Event::NewCanvasPicked(preset) => s.chrome.config.new_canvas = preset,
            _ => {},
        }
        (s, Action::SaveConfig)
    }

    /// Whether tab `tab` holds unsaved work, for the mark on its label; a tab that is not
    /// there holds none.
    pub fn tab_unsaved(&self, tab: usize) -> (b: bool)
        requires
            self.wf(),
        ensures
            b == (tab < self@.pages.len() && self@.pages[tab as int].unsaved),
    {
        proof {
            self.sheets.lemma_order_shape();
        }
        match self.sheets.parked_at(tab) {
            None => self.sheets.open.unsaved,
            Some(i) => i < self.sheets.parked.len() && self.sheets.parked[i].unsaved,
        }
    }

    /// Takes one event (see `session_step`): the session moves on, and says what the window
    /// is to do.
    pub fn step(self, e: Event<S>) -> (r: (Self, Action<S>))
        requires
            self.wf(),
            fits(self@, e),
        ensures
            r.0.wf(),
            (r.0@, r.1) == session_step(self@, e),
            r.0.chrome.config.theme == self.chrome.config.theme,
            r.0.chrome.config.accent == self.chrome.config.accent,
            r.0.chrome.config.acrylic == self.chrome.config.acrylic,
            r.0.chrome.config.decorations == self.chrome.config.decorations,
    {
        match e {
            Event::TabSelected(tab) => (self.switch(tab), Action::Nothing),
            Event::TabStepped(by) => {
                let Session { sheets, chrome } = self;
                let sheets = sheets.step(by);
                (Session { sheets, chrome }, Action::Nothing)
            },
            Event::TabCloseRequested => {
                let active = self.sheets.active;
                self.close_tab(active)
            },
            Event::TabClosed(tab) => self.close_tab(tab),
            Event::WindowClosed => self.discard(Pending::Close),
            Event::NewRequested(p) => self.new_requested(p),
            Event::OpenRequested => {
                let elsewhere = match self.chrome.config.open_in {
                    OpenIn::Window => !self.sheets.open.untouched,
                    OpenIn::Tab => false,
                };
                proof {
                    self.sheets.lemma_order_shape();
                }
                (self, if elsewhere { Action::PickElsewhere } else { Action::PickAndLoad })
            },
            Event::Opened(p) => self.opened(p),
            Event::Changed { unsaved, untouched } => self.changed(unsaved, untouched),
            Event::DiscardAnswered(answer) => self.answered(answer),
            Event::Saved(ok) => self.saved(ok),
            Event::PickerConfirmed(colour) => self.picker_confirmed(colour),
            Event::PickerOpened => self.swatches(Event::PickerOpened),
            Event::PickerClosed => self.swatches(Event::PickerClosed),
            Event::PickerPressed(field) => self.swatches(Event::PickerPressed(field)),
            Event::PickerReleased => self.swatches(Event::PickerReleased),
            Event::CustomColourPicked(i) => self.swatches(Event::CustomColourPicked(i)),
            Event::CustomColourMenuOpened(i) => self.swatches(Event::CustomColourMenuOpened(i)),
            Event::CustomColourEditRequested(i) => self.swatches(Event::CustomColourEditRequested(i)),
            Event::CustomColourRemoved(i) => self.swatches(Event::CustomColourRemoved(i)),
            Event::ColourTargetPicked(fill) => self.swatches(Event::ColourTargetPicked(fill)),
            Event::MenuToggled(open) => self.swatches(Event::MenuToggled(open)),
            Event::OpenInPicked(o) => self.set_setting(Event::OpenInPicked(o)),
            Event::ConfirmDiscardToggled(on) => self.set_setting(Event::ConfirmDiscardToggled(on)),
            Event::NewCanvasPicked(preset) => self.set_setting(Event::NewCanvasPicked(preset)),
            Event::WindowMeasured(fitted) => self.measured_at(fitted),
        }
    }
}

/// With asking on, the window never quits over unsaved work unasked: closing it quits
/// straight away only when no document holds unsaved work; otherwise only an answer to the
/// question, or the save it asked for, lets it quit.
pub proof fn lemma_no_quit_over_unsaved_work<S>(v: SessionView<S>, e: Event<S>)
    requires
        v.confirm_discard,
        any_unsaved(v),
        0 <= v.active < v.pages.len(),
        session_step(v, e).1 == Action::<S>::Quit,
    ensures
        e is DiscardAnswered || e is Saved,
{
}

/// Answering "save" to the question saves first: if the save works, what waited goes on
/// (the window quits, or the tab closes); if it fails, nothing waits any more and nothing
/// closes.
pub proof fn lemma_save_then_carry_on<S>(v: SessionView<S>, p: Pending)
    requires
        v.asking == Some(p),
        0 <= v.active < v.pages.len(),
    ensures
        ({
            let (a, act) = session_step(v, Event::DiscardAnswered(Discard::Save));
            &&& act == Action::<S>::Save
            &&& a.asking is None
            &&& a.after_save == Some(p)
            &&& a.pages == v.pages
            &&& session_step(a, Event::Saved(false)).0.after_save is None
            &&& session_step(a, Event::Saved(false)).0.pages == v.pages
            &&& session_step(a, Event::Saved(false)).1 == Action::<S>::Nothing
            &&& p == Pending::Close ==> session_step(a, Event::Saved(true)).1 == Action::<S>::Quit
            &&& (p == Pending::Tab && v.pages.len() >= 2) ==> {
                &&& session_step(a, Event::Saved(true)).1 == Action::Closed(current(v).doc)
                &&& session_step(a, Event::Saved(true)).0.pages.len() == v.pages.len() - 1
            }
        }),
{
}

/// A file opened while the active document is an untouched blank takes its place rather
/// than opening a tab; otherwise it opens in a new tab after the others.
pub proof fn lemma_open_fills_an_untouched_slot<S>(v: SessionView<S>, p: Page<S>)
    requires
        0 <= v.active < v.pages.len(),
    ensures
        current(v).untouched ==> session_step(v, Event::Opened(p)).0.pages.len() == v.pages.len()
            && current(session_step(v, Event::Opened(p)).0) == p,
        !current(v).untouched ==> session_step(v, Event::Opened(p)).0.pages == v.pages.push(p)
            && current(session_step(v, Event::Opened(p)).0) == p,
{
}

/// Taking the picker's colour paints with it: the brush takes the colour, the picker and
/// its drag close, and the custom row takes the colour in as `remembered` does (a colour
/// already there changes nothing), so a tidy row stays tidy.
pub proof fn lemma_confirmed_colour_paints<S>(v: SessionView<S>, c: [u8; 4])
    requires
        v.picker_open,
        v.editing is None,
        tidy_row(v.colours),
    ensures
        ({
            let (a, act) = session_step(v, Event::PickerConfirmed(c));
            &&& a.brush_colour == c
            &&& !a.picker_open
            &&& a.picking_field is None
            &&& a.editing is None
            &&& a.colours == remembered(v.colours, c)
            &&& tidy_row(a.colours)
            &&& a.pages == v.pages
            &&& act == (if v.colours.contains(c) { Action::<S>::Nothing } else { Action::<S>::SaveConfig })
        }),
{
    lemma_remembered_is_tidy(v.colours, c);
}

/// Taking a custom colour off its row closes its menu and keeps the rest of the row in
/// order.
pub proof fn lemma_removed_colour_closes_its_menu<S>(v: SessionView<S>, i: usize)
    requires
        i < v.colours.len(),
    ensures
        session_step(v, Event::CustomColourRemoved(i)).0.swatch_menu is None,
        session_step(v, Event::CustomColourRemoved(i)).0.colours == v.colours.remove(i as int),
        session_step(v, Event::CustomColourRemoved(i)).1 == Action::<S>::SaveConfig,
{
}

/// A new document, when the active one holds work and documents open in tabs, opens in
/// a new tab after the others, at the size new documents take, with the documents before
/// it left as they were and nothing asked; the menu closes either way.
pub proof fn lemma_new_document_adds_a_tab<S>(v: SessionView<S>, p: Page<S>)
    requires
        0 <= v.active < v.pages.len(),
        fits(v, Event::NewRequested(p)),
    ensures
        !session_step(v, Event::NewRequested(p)).0.menu_open,
        current(v).untouched ==> session_step(v, Event::NewRequested(p)).0.pages == v.pages,
        (!current(v).untouched && v.open_in == OpenIn::Tab) ==> {
            let a = session_step(v, Event::NewRequested(p)).0;
            &&& a.pages.len() == v.pages.len() + 1
            &&& a.active == a.pages.len() - 1
            &&& current(a).size == new_size(v)
            &&& current(a).untouched
            &&& a.pages.subrange(0, v.pages.len() as int) == v.pages
            &&& a.asking == v.asking
        },
{
    let a = session_step(v, Event::NewRequested(p)).0;
    if !current(v).untouched && v.open_in == OpenIn::Tab {
        assert(a.pages.subrange(0, v.pages.len() as int) =~= v.pages);
    }
}

/// Before work is thrown away the question is asked exactly when there is unsaved work in
/// what would go and asking is on; then nothing closes. Closing the only tab is closing
/// the window.
pub proof fn lemma_asks_before_discarding<S>(v: SessionView<S>, p: Pending, tab: int)
    requires
        0 <= v.active < v.pages.len(),
    ensures
        ({
            let dirty = match p { Pending::Close => any_unsaved(v), Pending::Tab => current(v).unsaved };
            let (a, act) = discarding(v, p);
            &&& (dirty && v.confirm_discard) ==> a.asking == Some(p) && act == Action::<S>::Ask && a.pages == v.pages
            &&& !(dirty && v.confirm_discard) ==> a.asking == v.asking && act != Action::<S>::Ask
        }),
        v.pages.len() == 1 ==> closing(v, tab) == discarding(v, Pending::Close),
{
}


/// Clicking the close button of a tab closes that tab, not the active one: with two tabs
/// or more and nothing asked (no unsaved work in it, or asking off), the document at that
/// place is handed back to be forgotten and the others stay in their order.
pub proof fn lemma_closing_a_tab_closes_that_tab<S>(v: SessionView<S>, tab: usize)
    requires
        0 <= v.active < v.pages.len(),
        v.pages.len() >= 2,
        tab < v.pages.len(),
        !v.pages[tab as int].unsaved || !v.confirm_discard,
    ensures
        session_step(v, Event::TabClosed(tab)).0.pages == v.pages.remove(tab as int),
        session_step(v, Event::TabClosed(tab)).1 == Action::Closed(v.pages[tab as int].doc),
{
}


/// Clicking a tab makes it the active one and leaves every document where it was; a tab
/// that is not there changes nothing.
pub proof fn lemma_selecting_a_tab<S>(v: SessionView<S>, tab: usize)
    ensures
        session_step(v, Event::TabSelected(tab)).0.pages == v.pages,
        session_step(v, Event::TabSelected(tab)).0.active == (if tab < v.pages.len() { tab as int } else { v.active }),
        session_step(v, Event::TabSelected(tab)).1 == Action::<S>::Nothing,
{
}

} // verus!
