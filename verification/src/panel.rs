use vstd::prelude::*;

use crate::text::{chars_of, decimal, decimal_string, string_of};

verus! {

/// The tabs of the side panel.
#[derive(Debug, Clone, Copy, PartialEq, Eq, Structural)]
pub enum Tab {
    Brushes,
    Symmetry,
    Shapes,
    Stickers,
    Text,
    Canvas,
}

/// Which number of a live object's box a field stands for.
#[derive(Debug, Clone, Copy, PartialEq, Eq, Structural)]
pub enum Side {
    X,
    Y,
    Width,
    Height,
}

/// A number the side panel puts in a box as well as on a slider.
#[derive(Debug, Clone, Copy, PartialEq, Eq, Structural)]
pub enum Field {
    Thickness,
    Hardness,
    Opacity,
    Stabilizer,
    Tolerance,
    ShapeThickness,
    BlurStrength,
    BlurAngle,
    BlurDetail,
    BlurPasses,
    BlurBlades,
    FloatOpacity,
    FloatX,
    FloatY,
    FloatWidth,
    FloatHeight,
    CutoutRadius,
    CutoutFeather,
    CutoutSmooth,
    CutoutShift,
    CutoutBrush,
    CutoutTolerance,
}

/// Whether a field shows a fraction as a percentage.
pub open spec fn percent_field(f: Field) -> bool {
    f is Hardness || f is Opacity || f is CutoutTolerance || f is Stabilizer || f is Tolerance
        || f is BlurDetail || f is FloatOpacity
}

/// The unit a field's box shows after its number.
pub open spec fn field_unit(f: Field) -> Seq<char> {
    if f is BlurAngle {
        "\u{b0}"@
    } else if percent_field(f) {
        "%"@
    } else if f is BlurPasses || f is BlurBlades {
        ""@
    } else {
        "px"@
    }
}

/// `s` with every copy of `unit` at its end taken off (`str::trim_end_matches`); an empty
/// unit takes nothing off.
pub open spec fn without_unit(s: Seq<char>, unit: Seq<char>) -> Seq<char>
    decreases s.len(),
{
    if unit.len() > 0 && s.len() >= unit.len() && s.subrange(s.len() - unit.len(), s.len() as int) == unit {
        without_unit(s.subrange(0, s.len() - unit.len()), unit)
    } else {
        s
    }
}

/// Whether `s[..end]` ends with `unit`.
fn ends_with_at(s: &Vec<char>, end: usize, unit: &Vec<char>) -> (r: bool)
    requires
        end <= s.len(),
    ensures
        r == (end >= unit.len() && s@.subrange(end - unit.len(), end as int) == unit@),
{
    if end < unit.len() {
        return false;
    }
    let start = end - unit.len();
    let mut i: usize = 0;
    while i < unit.len()
        invariant
            start + unit.len() == end <= s.len(),
            i <= unit.len(),
            forall|k: int| 0 <= k < i ==> s@[start + k] == unit@[k],
        decreases unit.len() - i,
    {
        if s[start + i] != unit[i] {
            assert(s@.subrange(start as int, end as int)[i as int] != unit@[i as int]);
            return false;
        }
        i = i + 1;
    }
    assert(s@.subrange(start as int, end as int) =~= unit@);
    true
}

impl Field {
    /// Whether the field shows a fraction as a percentage.
    pub fn in_percent(self) -> (b: bool)
        ensures
            b == percent_field(self),
    {
        matches!(
            self,
            Field::Hardness
                | Field::Opacity
                | Field::CutoutTolerance
                | Field::Stabilizer
                | Field::Tolerance
                | Field::BlurDetail
                | Field::FloatOpacity
        )
    }

    /// The unit the box shows after the number: degrees for the blur angle, a percent sign
    /// for fractions, nothing for counts, and pixels for the rest.
    pub fn unit(self) -> (u: &'static str)
        ensures
            u@ == field_unit(self),
    {
        if self == Field::BlurAngle {
            "\u{b0}"
        } else if self.in_percent() {
            "%"
        } else if matches!(self, Field::BlurPasses | Field::BlurBlades) {
            ""
        } else {
            "px"
        }
    }

    /// The text the box holds while it is edited: what it shows, less the unit at its end.
    pub fn editable(self, text: &str) -> (r: String)
        ensures
            r@ == without_unit(text@, field_unit(self)),
    {
        let unit = chars_of(self.unit());
        let chars = chars_of(text);
        if unit.len() == 0 {
            return String::from_str(text);
        }
        let mut end = chars.len();
        assert(chars@.subrange(0, end as int) =~= text@);
        while ends_with_at(&chars, end, &unit)
            invariant
                end <= chars.len(),
                unit.len() > 0,
                without_unit(chars@.subrange(0, end as int), unit@) == without_unit(text@, unit@),
            decreases end,
        {
            let ghost before = chars@.subrange(0, end as int);
            end = end - unit.len();
            assert(before.subrange(before.len() - unit@.len(), before.len() as int) =~= chars@.subrange(end as int, end + unit@.len()));
            assert(before.subrange(0, before.len() - unit@.len()) =~= chars@.subrange(0, end as int));
        }
        let ghost left = chars@.subrange(0, end as int);
        assert(left.len() >= unit@.len() ==> left.subrange(left.len() - unit@.len(), left.len() as int) =~= chars@.subrange(end - unit@.len(), end as int));
        assert(without_unit(left, unit@) == left);
        string_of(&chars, 0, end)
    }
}

/// What to do with the tab a document sits in.
#[derive(Debug, Clone, Copy, PartialEq, Eq, Structural)]
pub enum TabAction {
    Save,
    Copy,
    Close,
}

/// The answers to the question asked before unsaved work is thrown away.
#[derive(Debug, Clone, Copy, PartialEq, Eq, Structural)]
pub enum Discard {
    Session,
    Save,
    Throw,
    Keep,
}

/// An arrow key that walks a selection along.
#[derive(Debug, Clone, Copy, PartialEq, Eq, Structural)]
pub enum Arrow {
    Left,
    Right,
    Up,
    Down,
}

/// A caret movement inside a text box.
#[derive(Debug, Clone, Copy, PartialEq, Eq, Structural)]
pub enum Motion {
    Left,
    Right,
    Up,
    Down,
    Home,
    End,
    SelectLeft,
    SelectRight,
    SelectUp,
    SelectDown,
    SelectAll,
}

/// What the cut-out is previewed against.
#[derive(Debug, Clone, Copy, PartialEq, Eq, Structural)]
pub enum CutoutPreview {
    Overlay,
    Checkerboard,
    Colour,
}

impl CutoutPreview {
    /// Every preview, in the order the panel offers them.
    pub fn all() -> (v: Vec<CutoutPreview>)
        ensures
            v@ == seq![CutoutPreview::Overlay, CutoutPreview::Checkerboard, CutoutPreview::Colour],
    {
        vec![CutoutPreview::Overlay, CutoutPreview::Checkerboard, CutoutPreview::Colour]
    }
}

/// The canvas panel: the size boxes and the switches beside them.
pub struct CanvasPanel {
    pub width: String,
    pub height: String,
    pub lock_aspect: bool,
    pub resize_image: bool,
    pub percent: bool,
    pub show_canvas: bool,
}

impl CanvasPanel {
    /// The panel for a canvas of the given size: its size in pixels in the boxes, the
    /// aspect locked, resizing the canvas rather than the image, and the canvas shown.
    pub fn new(size: (u32, u32)) -> (p: Self)
        ensures
            p.width@ == decimal(size.0 as nat),
            p.height@ == decimal(size.1 as nat),
            p.lock_aspect,
            !p.resize_image,
            !p.percent,
            p.show_canvas,
    {
        Self {
            width: decimal_string(size.0),
            height: decimal_string(size.1),
            lock_aspect: true,
            resize_image: false,
            percent: false,
            show_canvas: true,
        }
    }

    /// Puts the size back in the boxes: "100" in each when they are in percent, else the
    /// size in pixels.
    pub fn sync(&mut self, size: (u32, u32))
        ensures
            final(self).width@ == (if old(self).percent { "100"@ } else { decimal(size.0 as nat) }),
            final(self).height@ == (if old(self).percent { "100"@ } else { decimal(size.1 as nat) }),
            final(self).lock_aspect == old(self).lock_aspect,
            final(self).resize_image == old(self).resize_image,
            final(self).percent == old(self).percent,
            final(self).show_canvas == old(self).show_canvas,
    {
        if self.percent {
            self.width = String::from_str("100");
            self.height = String::from_str("100");
        } else {
            self.width = decimal_string(size.0);
            self.height = decimal_string(size.1);
        }
    }
}

} // verus!
