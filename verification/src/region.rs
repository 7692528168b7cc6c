use vstd::prelude::*;

use crate::canvas::{field_number, read_field};
use crate::text::{decimal, decimal_string};

verus! {

/// A rectangle of whole pixels, `x0..x1` across and `y0..y1` down.
#[derive(Debug, Clone, Copy, PartialEq, Eq, Structural)]
pub struct Rect {
    pub x0: u32,
    pub y0: u32,
    pub x1: u32,
    pub y1: u32,
}

impl Rect {
    /// Whether the far corner lies at or past the near one.
    pub open spec fn wf(self) -> bool {
        self.x0 <= self.x1 && self.y0 <= self.y1
    }

    /// Whether the rectangle lies on a canvas of the given size.
    pub open spec fn within(self, canvas: (u32, u32)) -> bool {
        self.wf() && self.x1 <= canvas.0 && self.y1 <= canvas.1
    }

    pub open spec fn spec_width(self) -> int {
        self.x1 - self.x0
    }

    pub open spec fn spec_height(self) -> int {
        self.y1 - self.y0
    }

    /// The rectangle between two corners.
    pub fn new(x0: u32, y0: u32, x1: u32, y1: u32) -> (r: Rect)
        requires
            x0 <= x1,
            y0 <= y1,
        ensures
            r == (Rect { x0, y0, x1, y1 }),
            r.wf(),
    {
        Rect { x0, y0, x1, y1 }
    }

    /// How many pixels across.
    pub fn width(&self) -> (w: u32)
        requires
            self.wf(),
        ensures
            w == self.spec_width(),
    {
        self.x1 - self.x0
    }

    /// How many pixels down.
    pub fn height(&self) -> (h: u32)
        requires
            self.wf(),
        ensures
            h == self.spec_height(),
    {
        self.y1 - self.y0
    }

    /// Whether the rectangle holds no pixel.
    pub fn is_empty(&self) -> (b: bool)
        requires
            self.wf(),
        ensures
            b == (self.spec_width() == 0 || self.spec_height() == 0),
    {
        self.x1 == self.x0 || self.y1 == self.y0
    }
}

/// The grips on the edges and corners of a frame.
#[derive(Debug, Clone, Copy, PartialEq, Eq, Structural)]
pub enum Handle {
    Left,
    Right,
    Top,
    Bottom,
    TopLeft,
    TopRight,
    BottomLeft,
    BottomRight,
}

impl Handle {
    /// Whether the grip moves the left edge.
    pub open spec fn west(self) -> bool {
        self is Left || self is TopLeft || self is BottomLeft
    }

    /// Whether the grip moves the right edge.
    pub open spec fn east(self) -> bool {
        self is Right || self is TopRight || self is BottomRight
    }

    /// Whether the grip moves the top edge.
    pub open spec fn north(self) -> bool {
        self is Top || self is TopLeft || self is TopRight
    }

    /// Whether the grip moves the bottom edge.
    pub open spec fn south(self) -> bool {
        self is Bottom || self is BottomLeft || self is BottomRight
    }
}

/// `v` held between `low` and `high`.
pub open spec fn clamped(v: int, low: int, high: int) -> int {
    if v < low { low } else if v > high { high } else { v }
}

/// `v` held between `low` and `high` (`i64::clamp`, which needs `low <= high`).
pub fn clamp_between(v: i64, low: i64, high: i64) -> (r: i64)
    requires
        low <= high,
    ensures
        r == clamped(v as int, low as int, high as int),
{
    if v < low { low } else if v > high { high } else { v }
}

/// Whether dragging `handle` of `from` can be done at all: an edge that moves needs room
/// for at least one pixel between it and the opposite edge or the canvas border.
pub open spec fn can_drag(from: Rect, handle: Handle, canvas: (u32, u32)) -> bool {
    &&& handle.west() ==> from.x1 >= 1
    &&& handle.east() ==> from.x0 + 1 <= canvas.0
    &&& handle.north() ==> from.y1 >= 1
    &&& handle.south() ==> from.y0 + 1 <= canvas.1
}

/// The frame after one of its grips is dragged to `to` (already rounded to whole
/// pixels): each edge the grip carries follows the pointer, kept inside the canvas and at
/// least one pixel from the opposite edge; the other edges stay where they were.
pub open spec fn dragged(from: Rect, handle: Handle, to: (i64, i64), canvas: (u32, u32)) -> Rect {
    Rect {
        x0: if handle.west() { clamped(to.0 as int, 0, from.x1 - 1) as u32 } else { from.x0 },
        x1: if handle.east() { clamped(to.0 as int, from.x0 + 1, canvas.0 as int) as u32 } else { from.x1 },
        y0: if handle.north() { clamped(to.1 as int, 0, from.y1 - 1) as u32 } else { from.y0 },
        y1: if handle.south() { clamped(to.1 as int, from.y0 + 1, canvas.1 as int) as u32 } else { from.y1 },
    }
}

/// Dragging a grip of a frame that covers at least one pixel of the canvas, wherever the
/// pointer goes, leaves a frame on the canvas that still covers at least one pixel.
pub proof fn lemma_dragged_stays_on_canvas(from: Rect, handle: Handle, to: (i64, i64), canvas: (u32, u32))
    requires
        from.within(canvas),
        from.x0 < from.x1,
        from.y0 < from.y1,
    ensures
        can_drag(from, handle, canvas),
        dragged(from, handle, to, canvas).within(canvas),
        dragged(from, handle, to, canvas).x0 < dragged(from, handle, to, canvas).x1,
        dragged(from, handle, to, canvas).y0 < dragged(from, handle, to, canvas).y1,
{
}

/// Moves the edges a grip carries to follow the pointer at `to`.
pub fn dragged_edges(from: Rect, handle: Handle, to: (i64, i64), canvas: (u32, u32)) -> (r: Rect)
    requires
        can_drag(from, handle, canvas),
    ensures
        r == dragged(from, handle, to, canvas),
{
    let (cw, ch) = (canvas.0 as i64, canvas.1 as i64);
    let (mut x0, mut y0, mut x1, mut y1) = (from.x0 as i64, from.y0 as i64, from.x1 as i64, from.y1 as i64);
    let (px, py) = to;
    match handle {
        Handle::Left | Handle::TopLeft | Handle::BottomLeft => x0 = clamp_between(px, 0, x1 - 1),
        Handle::Right | Handle::TopRight | Handle::BottomRight => x1 = clamp_between(px, x0 + 1, cw),
        _ => {},
    }
    match handle {
        Handle::Top | Handle::TopLeft | Handle::TopRight => y0 = clamp_between(py, 0, y1 - 1),
        Handle::Bottom | Handle::BottomLeft | Handle::BottomRight => y1 = clamp_between(py, y0 + 1, ch),
        _ => {},
    }
    Rect { x0: x0 as u32, y0: y0 as u32, x1: x1 as u32, y1: y1 as u32 }
}

} // verus!

verus! {

/// The crop frame while it is being set.
pub struct Cropping {
    /// The part of the canvas the crop keeps.
    pub rect: Rect,
    /// Whether a drag keeps the frame's shape.
    pub lock: bool,
    /// The text of the width and height boxes.
    pub fields: (String, String),
    /// The frame and grip a drag started from, while one is under way.
    pub grabbed: Option<(Rect, Handle)>,
}

impl Cropping {
    /// A crop frame around the whole canvas, with its size in the boxes.
    pub fn new(canvas: (u32, u32)) -> (c: Self)
        ensures
            c.rect == (Rect { x0: 0, y0: 0, x1: canvas.0, y1: canvas.1 }),
            !c.lock,
            c.fields.0@ == decimal(canvas.0 as nat),
            c.fields.1@ == decimal(canvas.1 as nat),
            c.grabbed is None,
    {
        let rect = Rect::new(0, 0, canvas.0, canvas.1);
        Self {
            rect,
            lock: false,
            fields: (decimal_string(rect.width()), decimal_string(rect.height())),
            grabbed: None,
        }
    }

    /// Puts the frame's size back in the boxes.
    pub fn sync(&mut self)
        requires
            old(self).rect.wf(),
        ensures
            final(self).rect == old(self).rect,
            final(self).lock == old(self).lock,
            final(self).grabbed == old(self).grabbed,
            final(self).fields.0@ == decimal(old(self).rect.spec_width() as nat),
            final(self).fields.1@ == decimal(old(self).rect.spec_height() as nat),
    {
        self.fields = (decimal_string(self.rect.width()), decimal_string(self.rect.height()));
    }
}

/// The far edge a typed size puts the frame's edge at: `size` pixels (at least one) on
/// from the near edge, but not past the canvas.
pub open spec fn typed_edge(near: u32, size: u32, limit: u32) -> u32 {
    let wanted = near + if size == 0 { 1 } else { size };
    if wanted > limit { limit } else { wanted as u32 }
}

/// Whether a typed size would carry the far edge past what a `u32` holds, which the
/// arithmetic does not allow.
pub open spec fn typed_overflows(near: u32, typed: Seq<char>) -> bool {
    field_number(typed) matches Some(v) && near + (if v == 0 { 1 } else { v }) > u32::MAX
}

impl Cropping {
    /// Takes what was typed into the width box (`width`) or the height box: the text is
    /// kept, and once it reads as a whole number the frame's far edge moves to make the
    /// frame that size, at least one pixel and no further than the canvas.
    pub fn crop_field(&mut self, typed: String, width: bool, canvas: (u32, u32))
        requires
            old(self).rect.within(canvas),
            !typed_overflows(if width { old(self).rect.x0 } else { old(self).rect.y0 }, typed@),
        ensures
            width ==> final(self).fields.0@ == typed@ && final(self).fields.1 == old(self).fields.1,
            !width ==> final(self).fields.1@ == typed@ && final(self).fields.0 == old(self).fields.0,
            final(self).lock == old(self).lock,
            final(self).grabbed == old(self).grabbed,
            final(self).rect == (match field_number(typed@) {
                None => old(self).rect,
                Some(v) => if width {
                    Rect { x1: typed_edge(old(self).rect.x0, v, canvas.0), ..old(self).rect }
                } else {
                    Rect { y1: typed_edge(old(self).rect.y0, v, canvas.1), ..old(self).rect }
                },
            }),
            final(self).rect.within(canvas),
    {
        let read = read_field(typed.as_str());
        if width {
            self.fields.0 = typed;
        } else {
            self.fields.1 = typed;
        }
        let Some(value) = read else {
            return;
        };
        let value = if value < 1 { 1 } else { value };
        let rect = self.rect;
        if width {
            let far = rect.x0 + value;
            self.rect = Rect::new(rect.x0, rect.y0, if far < canvas.0 { far } else { canvas.0 }, rect.y1);
        } else {
            let far = rect.y0 + value;
            self.rect = Rect::new(rect.x0, rect.y0, rect.x1, if far < canvas.1 { far } else { canvas.1 });
        }
    }
}


/// A grip moves exactly the edges it carries, each to the pointer held inside the canvas
/// and one pixel short of the opposite edge: the top edge for `Top`, `TopLeft` and
/// `TopRight`, the bottom edge for `Bottom`, `BottomLeft` and `BottomRight`, the left edge
/// for `Left`, `TopLeft` and `BottomLeft`, the right edge for `Right`, `TopRight` and
/// `BottomRight`; every other edge stays where it was.
pub proof fn lemma_grips_move_their_edges(from: Rect, handle: Handle, to: (i64, i64), canvas: (u32, u32))
    requires
        can_drag(from, handle, canvas),
    ensures
        ({
            let r = dragged(from, handle, to, canvas);
            let (px, py) = (to.0 as int, to.1 as int);
            let top = handle is Top || handle is TopLeft || handle is TopRight;
            let bottom = handle is Bottom || handle is BottomLeft || handle is BottomRight;
            let left = handle is Left || handle is TopLeft || handle is BottomLeft;
            let right = handle is Right || handle is TopRight || handle is BottomRight;
            &&& top ==> r.y0 == (if py < 0 { 0 } else if py > from.y1 - 1 { from.y1 - 1 } else { py })
            &&& !top ==> r.y0 == from.y0
            &&& bottom ==> r.y1 == (if py < from.y0 + 1 { from.y0 + 1 } else if py > canvas.1 { canvas.1 as int } else { py })
            &&& !bottom ==> r.y1 == from.y1
            &&& left ==> r.x0 == (if px < 0 { 0 } else if px > from.x1 - 1 { from.x1 - 1 } else { px })
            &&& !left ==> r.x0 == from.x0
            &&& right ==> r.x1 == (if px < from.x0 + 1 { from.x0 + 1 } else if px > canvas.0 { canvas.0 as int } else { px })
            &&& !right ==> r.x1 == from.x1
        }),
{
}

} // verus!
