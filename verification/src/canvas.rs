use vstd::prelude::*;

use crate::text::{decimal, decimal_string, lemma_decimal_reads_back, parse_u32, parsed_u32, chars_of, trim_bounds, trim, write_decimal};

verus! {

/// The largest side a canvas may have, in pixels.
pub const MAX_CANVAS: u32 = 20_000;

/// The smallest side a canvas may have, in pixels.
pub const MIN_CANVAS: u32 = 16;

/// How a new canvas takes its size.
#[derive(Debug, Clone, Copy, PartialEq, Eq, Structural)]
pub enum NewCanvas {
    /// As large as the window allows, in the given shape.
    Fit(Ratio),
    /// One of the fixed sizes on offer.
    Fixed(u32, u32),
    /// A size typed in by hand.
    Custom(u32, u32),
}

impl Default for NewCanvas {
    fn default() -> (r: Self)
        ensures
            r == NewCanvas::Fit(Ratio::Widescreen),
    {
        NewCanvas::Fit(Ratio::Widescreen)
    }
}

/// The shapes a fitted canvas can take.
#[derive(Debug, Clone, Copy, PartialEq, Eq, Structural)]
pub enum Ratio {
    Widescreen,
    Standard,
    Photo,
    Square,
    Portrait,
}

/// The label of a canvas shape.
pub open spec fn ratio_name(r: Ratio) -> Seq<char> {
    match r {
        Ratio::Widescreen => "16:9"@,
        Ratio::Standard => "4:3"@,
        Ratio::Photo => "3:2"@,
        Ratio::Square => "1:1"@,
        Ratio::Portrait => "9:16"@,
    }
}

impl Ratio {
    /// Every shape, in the order the settings list them.
    pub fn all() -> (v: Vec<Ratio>)
        ensures
            v@ == seq![Ratio::Widescreen, Ratio::Standard, Ratio::Photo, Ratio::Square, Ratio::Portrait],
    {
        vec![Ratio::Widescreen, Ratio::Standard, Ratio::Photo, Ratio::Square, Ratio::Portrait]
    }

    /// The label the settings show for the shape.
    pub fn name(self) -> (s: &'static str)
        ensures
            s@ == ratio_name(self),
    {
        match self {
            Ratio::Widescreen => "16:9",
            Ratio::Standard => "4:3",
            Ratio::Photo => "3:2",
            Ratio::Square => "1:1",
            Ratio::Portrait => "9:16",
        }
    }
}

/// `n` held between the smallest and the largest canvas side.
pub open spec fn clamped_side(n: int) -> int {
    if n < MIN_CANVAS {
        MIN_CANVAS as int
    } else if n > MAX_CANVAS {
        MAX_CANVAS as int
    } else {
        n
    }
}

/// A clamped side, taken down to the even number below it when it is odd.
pub open spec fn even_side(n: int) -> int {
    let c = clamped_side(n);
    if c % 2 == 0 {
        c
    } else if c - 1 < MIN_CANVAS {
        MIN_CANVAS as int
    } else {
        c - 1
    }
}

/// The size a preset gives, where `fitted` is the window's room in the preset's shape,
/// rounded to whole pixels (`None` when the window has too little room to fit into).
pub open spec fn sized(preset: NewCanvas, fitted: Option<(u32, u32)>, fallback: (u32, u32)) -> (int, int) {
    match preset {
        NewCanvas::Fixed(w, h) => (clamped_side(w as int), clamped_side(h as int)),
        NewCanvas::Custom(w, h) => (clamped_side(w as int), clamped_side(h as int)),
        NewCanvas::Fit(_) => match fitted {
            Some((w, h)) => (even_side(w as int), even_side(h as int)),
            None => (fallback.0 as int, fallback.1 as int),
        },
    }
}

/// Holds a side length, already rounded to whole pixels, between the canvas limits.
pub fn clamp(rounded: u32) -> (side: u32)
    ensures
        side == clamped_side(rounded as int),
        MIN_CANVAS <= side <= MAX_CANVAS,
{
    if rounded < MIN_CANVAS {
        MIN_CANVAS
    } else if rounded > MAX_CANVAS {
        MAX_CANVAS
    } else {
        rounded
    }
}

/// Holds a side between the canvas limits and makes it even, rounding an odd side down.
pub fn even(rounded: u32) -> (side: u32)
    ensures
        side == even_side(rounded as int),
        side % 2 == 0,
        MIN_CANVAS <= side <= MAX_CANVAS,
{
    let clamped = clamp(rounded);
    if clamped % 2 == 0 {
        clamped
    } else {
        let down = clamped - 1;
        if down < MIN_CANVAS {
            MIN_CANVAS
        } else {
            down
        }
    }
}

/// The size of a new canvas made from `preset`. A fixed or typed size is held between
/// the limits; a fitted one takes the window's room in its shape, made even, or
/// `fallback` when the window has no room (`fitted` is `None`).
pub fn size_for(preset: NewCanvas, fitted: Option<(u32, u32)>, fallback: (u32, u32)) -> (r: (u32, u32))
    ensures
        (r.0 as int, r.1 as int) == sized(preset, fitted, fallback),
{
    match preset {
        NewCanvas::Fixed(w, h) | NewCanvas::Custom(w, h) => (clamp(w), clamp(h)),
        NewCanvas::Fit(_) => match fitted {
            Some((w, h)) => (even(w), even(h)),
            None => fallback,
        },
    }
}

/// How a size reads: `"W x H"`.
pub open spec fn size_text(w: u32, h: u32) -> Seq<char> {
    decimal(w as nat) + " x "@ + decimal(h as nat)
}

/// Writes a size as `"W x H"`.
pub fn size(w: u32, h: u32) -> (s: String)
    ensures
        s@ == size_text(w, h),
{
    let mut s = decimal_string(w);
    s.append(" x ");
    write_decimal(h, &mut s);
    s
}

} // verus!

verus! {

/// The readout under the new-canvas settings: the size, and for a fitted preset the shape
/// it was fitted in.
pub open spec fn described(preset: NewCanvas, fitted: Option<(u32, u32)>, fallback: (u32, u32)) -> Seq<char> {
    let (w, h) = sized(preset, fitted, fallback);
    match preset {
        NewCanvas::Fit(r) => size_text(w as u32, h as u32) + " px, "@ + ratio_name(r)
            + " fitted to the window"@,
        _ => size_text(w as u32, h as u32) + " px"@,
    }
}

/// Says what size a preset makes and, for a fitted one, which shape it was fitted in.
pub fn describe(preset: NewCanvas, fitted: Option<(u32, u32)>, fallback: (u32, u32)) -> (s: String)
    ensures
        s@ == described(preset, fitted, fallback),
{
    let (w, h) = size_for(preset, fitted, fallback);
    let mut s = size(w, h);
    match preset {
        NewCanvas::Fit(ratio) => {
            s.append(" px, ");
            s.append(ratio.name());
            s.append(" fitted to the window");
        },
        _ => {
            s.append(" px");
        },
    }
    s
}

/// The numbers a preset puts in the custom-size boxes: its own size, or the size of a
/// blank document for a fitted preset.
pub open spec fn custom_sides(preset: NewCanvas, blank: (u32, u32)) -> (u32, u32) {
    match preset {
        NewCanvas::Custom(w, h) => (w, h),
        NewCanvas::Fixed(w, h) => (w, h),
        NewCanvas::Fit(_) => blank,
    }
}

/// The text of the two custom-size boxes when `preset` is picked.
pub fn custom_fields(preset: NewCanvas, blank: (u32, u32)) -> (r: (String, String))
    ensures
        r.0@ == decimal(custom_sides(preset, blank).0 as nat),
        r.1@ == decimal(custom_sides(preset, blank).1 as nat),
{
    let (w, h) = match preset {
        NewCanvas::Custom(w, h) | NewCanvas::Fixed(w, h) => (w, h),
        NewCanvas::Fit(_) => blank,
    };
    (decimal_string(w), decimal_string(h))
}

/// A box's text read as a whole number, white space around it ignored.
pub open spec fn field_number(s: Seq<char>) -> Option<u32> {
    parsed_u32(trim(s))
}

/// The custom preset the two boxes spell, once both hold a positive whole number;
/// sides past the largest canvas are brought down to it.
pub open spec fn typed_canvas(width: Seq<char>, height: Seq<char>) -> Option<NewCanvas> {
    match (field_number(width), field_number(height)) {
        (Some(w), Some(h)) => if w == 0 || h == 0 {
            None
        } else {
            Some(NewCanvas::Custom(
                if w > MAX_CANVAS { MAX_CANVAS } else { w },
                if h > MAX_CANVAS { MAX_CANVAS } else { h },
            ))
        },
        _ => None,
    }
}

/// The custom-size boxes read back as the size they were filled with: picking a preset and
/// leaving its numbers in the boxes as they are gives a custom preset of the same size,
/// for any size from one pixel up to the largest canvas.
pub proof fn lemma_custom_fields_read_back(preset: NewCanvas, blank: (u32, u32))
    requires
        1 <= custom_sides(preset, blank).0 <= MAX_CANVAS,
        1 <= custom_sides(preset, blank).1 <= MAX_CANVAS,
    ensures
        typed_canvas(
            decimal(custom_sides(preset, blank).0 as nat),
            decimal(custom_sides(preset, blank).1 as nat),
        ) == Some(NewCanvas::Custom(custom_sides(preset, blank).0, custom_sides(preset, blank).1)),
{
    lemma_decimal_reads_back(custom_sides(preset, blank).0);
    lemma_decimal_reads_back(custom_sides(preset, blank).1);
}

/// Reads a box's text as a whole number, as `text.trim().parse::<u32>()` does.
pub fn read_field(text: &str) -> (r: Option<u32>)
    ensures
        r == field_number(text@),
{
    let chars = chars_of(text);
    let (a, b) = trim_bounds(&chars, 0, chars.len());
    assert(chars@.subrange(0, chars@.len() as int) =~= chars@);
    parse_u32(&chars, a, b)
}

/// The custom preset typed into the two boxes, or `None` while either is not yet a
/// positive whole number (the preset is then left as it was).
pub fn custom_canvas(fields: &(String, String)) -> (r: Option<NewCanvas>)
    ensures
        r == typed_canvas(fields.0@, fields.1@),
{
    let (Some(w), Some(h)) = (read_field(fields.0.as_str()), read_field(fields.1.as_str())) else {
        return None;
    };
    if w == 0 || h == 0 {
        return None;
    }
    Some(NewCanvas::Custom(
        if w > MAX_CANVAS { MAX_CANVAS } else { w },
        if h > MAX_CANVAS { MAX_CANVAS } else { h },
    ))
}

} // verus!
