use vstd::prelude::*;

use crate::region::Rect;

verus! {

/// The pixel at `(x, y)` of a row-by-row picture `w` pixels wide.
pub open spec fn at<T>(p: Seq<T>, w: int, x: int, y: int) -> T {
    p[y * w + x]
}

/// Whether `(x, y)` lies inside `r`.
pub open spec fn inside(r: Rect, x: int, y: int) -> bool {
    r.x0 <= x < r.x1 && r.y0 <= y < r.y1
}

/// A clear pixel.
pub open spec fn clear() -> [u8; 4] {
    [0u8, 0u8, 0u8, 0u8]
}

/// The picture being painted: its size and its pixels, row by row, four bytes each
/// (red, green, blue, alpha).
pub struct Document {
    pub width: u32,
    pub height: u32,
    pub pixels: Vec<[u8; 4]>,
}

impl Document {
    /// As many pixels as the size says.
    pub open spec fn wf(&self) -> bool {
        self.pixels@.len() == self.width * self.height
    }

    /// A document of the given size and pixels.
    pub fn from_image(width: u32, height: u32, pixels: Vec<[u8; 4]>) -> (d: Self)
        requires
            pixels@.len() == width * height,
        ensures
            d.wf(),
            d.width == width,
            d.height == height,
            d.pixels@ == pixels@,
    {
        Document { width, height, pixels }
    }

    /// A clear document of the given size.
    pub fn blank_sized(width: u32, height: u32) -> (d: Self)
        requires
            width * height <= usize::MAX,
        ensures
            d.wf(),
            d.width == width,
            d.height == height,
            forall|i: int| 0 <= i < d.pixels@.len() ==> d.pixels@[i] == clear(),
    {
        let n = width as usize * height as usize;
        let mut pixels: Vec<[u8; 4]> = Vec::new();
        let mut i: usize = 0;
        while i < n
            invariant
                i <= n,
                pixels@.len() == i,
                forall|k: int| 0 <= k < i ==> pixels@[k] == clear(),
            decreases n - i,
        {
            pixels.push([0, 0, 0, 0]);
            i = i + 1;
        }
        Document { width, height, pixels }
    }

    /// The document's size.
    pub fn size(&self) -> (r: (u32, u32))
        ensures
            r == (self.width, self.height),
    {
        (self.width, self.height)
    }

    /// The pixel at `(x, y)`, or `None` off the canvas.
    pub fn pick(&self, x: i64, y: i64) -> (r: Option<[u8; 4]>)
        requires
            self.wf(),
        ensures
            r == (if 0 <= x < self.width && 0 <= y < self.height {
                Some(at(self.pixels@, self.width as int, x as int, y as int))
            } else {
                None::<[u8; 4]>
            }),
    {
        if x < 0 || y < 0 || x >= self.width as i64 || y >= self.height as i64 {
            return None;
        }
        proof {
            crate::cutout::lemma_row_fits(y as int, self.width as int, self.height as int);
        }
        assert(self.pixels@.len() == self.pixels.len());
        assert((y as int) * (self.width as int) + (x as int) < self.pixels@.len());
        let i = y as usize * self.width as usize + x as usize;
        Some(self.pixels[i])
    }
}

/// The colour the pipette takes at `(x, y)` (the pointer's position rounded down to whole
/// pixels): the pixel there, unless it is off the canvas or wholly clear.
pub open spec fn piped(d: Document, x: i64, y: i64) -> Option<[u8; 4]> {
    if 0 <= x < d.width && 0 <= y < d.height && at(d.pixels@, d.width as int, x as int, y as int)[3] > 0 {
        Some(at(d.pixels@, d.width as int, x as int, y as int))
    } else {
        None
    }
}

impl Document {
    /// The colour the pipette takes at `(x, y)`, if any (see [`piped`]).
    pub fn eyedropper(&self, x: i64, y: i64) -> (r: Option<[u8; 4]>)
        requires
            self.wf(),
        ensures
            r == piped(*self, x, y),
    {
        match self.pick(x, y) {
            Some(colour) => if colour[3] > 0 { Some(colour) } else { None },
            None => None,
        }
    }
}

} // verus!

verus! {

/// Whether `after` is `before` with the pixels inside `r` made clear.
pub open spec fn cleared(before: Seq<[u8; 4]>, after: Seq<[u8; 4]>, w: int, h: int, r: Rect) -> bool {
    &&& after.len() == before.len()
    &&& forall|x: int, y: int| 0 <= x < w && 0 <= y < h ==> #[trigger] at(after, w, x, y) == (if inside(r, x, y) {
        clear()
    } else {
        at(before, w, x, y)
    })
}

/// Whether `piece` holds the pixels of `from` inside `r`, row by row.
pub open spec fn holds_piece(from: Seq<[u8; 4]>, piece: Seq<[u8; 4]>, w: int, r: Rect) -> bool {
    &&& piece.len() == r.spec_width() * r.spec_height()
    &&& forall|x: int, y: int| inside(r, x, y) ==> #[trigger] at(piece, r.spec_width(), x - r.x0, y - r.y0)
        == at(from, w, x, y)
}

/// Whether `after` is `before` with `piece` laid over the pixels inside `r`.
pub open spec fn laid(before: Seq<[u8; 4]>, after: Seq<[u8; 4]>, piece: Seq<[u8; 4]>, w: int, h: int, r: Rect) -> bool {
    &&& after.len() == before.len()
    &&& forall|x: int, y: int| 0 <= x < w && 0 <= y < h ==> #[trigger] at(after, w, x, y) == (if inside(r, x, y) {
        at(piece, r.spec_width(), x - r.x0, y - r.y0)
    } else {
        at(before, w, x, y)
    })
}

/// The index of `(x, y)` in a picture `w` wide lies among its `w * h` pixels.
pub proof fn lemma_index_fits(x: int, y: int, w: int, h: int)
    requires
        0 <= x < w,
        0 <= y < h,
    ensures
        0 <= y * w + x < w * h,
        y * w + x < h * w,
{
    assert(0 <= y * w + x < w * h && y * w + x < h * w) by (nonlinear_arith)
        requires
            0 <= x < w,
            0 <= y < h,
    ;
}

/// Different pixels of a picture `w` wide sit at different indices.
pub proof fn lemma_index_unique(x: int, y: int, a: int, b: int, w: int)
    requires
        0 <= x < w,
        0 <= a < w,
        0 <= y,
        0 <= b,
        y * w + x == b * w + a,
    ensures
        x == a,
        y == b,
{
    assert(x == a && y == b) by (nonlinear_arith)
        requires
            0 <= x < w,
            0 <= a < w,
            0 <= y,
            0 <= b,
            y * w + x == b * w + a,
    ;
}

/// What floats over the canvas once a selection is lifted.
pub struct Floating {
    /// Its pixels, row by row.
    pub pixels: Vec<[u8; 4]>,
    /// Where it sits on the canvas.
    pub rect: Rect,
    /// Where it was lifted from, leaving a clear hole.
    pub lifted_from: Option<Rect>,
}

impl Floating {
    /// Sits on the canvas with as many pixels as its place holds.
    pub open spec fn wf(&self, canvas: (u32, u32)) -> bool {
        &&& self.rect.within(canvas)
        &&& self.pixels@.len() == self.rect.spec_width() * self.rect.spec_height()
    }

    /// Lifts the pixels inside `rect` off the document, leaving them clear.
    pub fn lift(doc: &mut Document, rect: Rect) -> (f: Floating)
        requires
            old(doc).wf(),
            rect.within((old(doc).width, old(doc).height)),
        ensures
            final(doc).wf(),
            final(doc).width == old(doc).width,
            final(doc).height == old(doc).height,
            cleared(old(doc).pixels@, final(doc).pixels@, old(doc).width as int, old(doc).height as int, rect),
            holds_piece(old(doc).pixels@, f.pixels@, old(doc).width as int, rect),
            f.rect == rect,
            f.lifted_from == Some(rect),
            f.wf((old(doc).width, old(doc).height)),
    {
        let ghost before = doc.pixels@;
        let (w, h) = (doc.width, doc.height);
        let ghost (gw, gh) = (w as int, h as int);
        let rw = rect.width();
        let ghost grw = rw as int;
        let mut piece: Vec<[u8; 4]> = Vec::new();
        let mut y = rect.y0;
        while y < rect.y1
            invariant
                doc.wf(),
                doc.width == w,
                doc.height == h,
                gw == w,
                gh == h,
                grw == rect.spec_width(),
                rect.within((w, h)),
                rect.y0 <= y <= rect.y1,
                doc.pixels@.len() == before.len(),
                before.len() == gw * gh,
                piece@.len() == (y - rect.y0) * grw,
                forall|a: int, b: int| 0 <= a < gw && 0 <= b < gh ==> #[trigger] at(doc.pixels@, gw, a, b) == (
                    if inside(rect, a, b) && b < y { clear() } else { at(before, gw, a, b) }),
                forall|a: int, b: int| inside(rect, a, b) && b < y ==> #[trigger] at(piece@, grw, a - rect.x0, b - rect.y0)
                    == at(before, gw, a, b),
            decreases rect.y1 - y,
        {
            let mut x = rect.x0;
            while x < rect.x1
                invariant
                    doc.wf(),
                    doc.width == w,
                    doc.height == h,
                    gw == w,
                    gh == h,
                    grw == rect.spec_width(),
                    rect.within((w, h)),
                    rect.y0 <= y < rect.y1,
                    rect.x0 <= x <= rect.x1,
                    doc.pixels@.len() == before.len(),
                    before.len() == gw * gh,
                    piece@.len() == (y - rect.y0) * grw + (x - rect.x0),
                    forall|a: int, b: int| 0 <= a < gw && 0 <= b < gh ==> #[trigger] at(doc.pixels@, gw, a, b) == (
                        if inside(rect, a, b) && (b < y || (b == y && a < x)) { clear() } else { at(before, gw, a, b) }),
                    forall|a: int, b: int| inside(rect, a, b) && (b < y || (b == y && a < x))
                        ==> #[trigger] at(piece@, grw, a - rect.x0, b - rect.y0) == at(before, gw, a, b),
                decreases rect.x1 - x,
            {
                proof {
                    lemma_index_fits(x as int, y as int, gw, gh);
                }
                assert(doc.pixels@.len() == doc.pixels.len());
                let i = y as usize * w as usize + x as usize;
                let ghost old_pixels = doc.pixels@;
                let ghost old_piece = piece@;
                piece.push(doc.pixels[i]);
                doc.pixels.set(i, [0, 0, 0, 0]);
                proof {
                    assert((y - rect.y0) * grw + (x - rect.x0) == (y - rect.y0) * grw + (x - rect.x0));
                    assert forall|a: int, b: int| 0 <= a < gw && 0 <= b < gh implies #[trigger] at(doc.pixels@, gw, a, b) == (
                        if inside(rect, a, b) && (b < y || (b == y && a < x + 1)) { clear() } else { at(before, gw, a, b) }) by {
                        lemma_index_fits(a, b, gw, gh);
                        assert(at(old_pixels, gw, a, b) == (
                            if inside(rect, a, b) && (b < y || (b == y && a < x)) { clear() } else { at(before, gw, a, b) }));
                        if b * gw + a == i {
                            lemma_index_unique(a, b, x as int, y as int, gw);
                        }
                    }
                    assert forall|a: int, b: int| inside(rect, a, b) && (b < y || (b == y && a < x + 1))
                        implies #[trigger] at(piece@, grw, a - rect.x0, b - rect.y0) == at(before, gw, a, b) by {
                        let k = (b - rect.y0) * grw + (a - rect.x0);
                        if b == y && a == x {
                            assert(k == old_piece.len());
                            assert(at(old_pixels, gw, x as int, y as int) == at(before, gw, x as int, y as int));
                        } else {
                            lemma_piece_index_before(a - rect.x0, b - rect.y0, x - rect.x0, y - rect.y0, grw);
                            assert(k < old_piece.len());
                            assert(at(old_piece, grw, a - rect.x0, b - rect.y0) == at(before, gw, a, b));
                        }
                    }
                }
                x = x + 1;
            }
            proof {
                assert((y - rect.y0) * grw + (rect.x1 - rect.x0) == (y + 1 - rect.y0) * grw) by (nonlinear_arith)
                    requires
                        grw == rect.x1 - rect.x0,
                ;
            }
            y = y + 1;
        }
        proof {
            assert((rect.y1 - rect.y0) * grw == grw * (rect.y1 - rect.y0)) by (nonlinear_arith);
        }
        Floating { pixels: piece, rect, lifted_from: Some(rect) }
    }
}

/// A pixel earlier in row-by-row order sits at an earlier index of a piece `rw` wide.
pub proof fn lemma_piece_index_before(a: int, b: int, x: int, y: int, rw: int)
    requires
        0 <= a < rw,
        0 <= x < rw,
        0 <= b <= y,
        b < y || a < x,
    ensures
        b * rw + a < y * rw + x,
{
    assert(b * rw + a < y * rw + x) by (nonlinear_arith)
        requires
            0 <= a < rw,
            0 <= x < rw,
            0 <= b <= y,
            b < y || a < x,
    ;
}

} // verus!

verus! {

impl Floating {
    /// Lays the floating pixels down on the document where they sit; the pixels under them
    /// are those of the hole they were lifted from, so nothing else is blended in.
    pub fn commit(self, doc: &mut Document)
        requires
            old(doc).wf(),
            self.wf((old(doc).width, old(doc).height)),
        ensures
            final(doc).wf(),
            final(doc).width == old(doc).width,
            final(doc).height == old(doc).height,
            laid(old(doc).pixels@, final(doc).pixels@, self.pixels@, old(doc).width as int, old(doc).height as int, self.rect),
    {
        let ghost before = doc.pixels@;
        let (w, h) = (doc.width, doc.height);
        let ghost (gw, gh) = (w as int, h as int);
        let rect = self.rect;
        let rw = rect.width();
        let ghost grw = rw as int;
        let ghost piece = self.pixels@;
        proof {
            assert((rect.y1 - rect.y0) * grw == grw * (rect.y1 - rect.y0)) by (nonlinear_arith);
        }
        let mut y = rect.y0;
        while y < rect.y1
            invariant
                doc.wf(),
                doc.width == w,
                doc.height == h,
                gw == w,
                gh == h,
                grw == rect.spec_width(),
                rw == grw,
                rect.within((w, h)),
                rect.y0 <= y <= rect.y1,
                piece == self.pixels@,
                piece.len() == (rect.y1 - rect.y0) * grw,
                piece.len() == grw * (rect.y1 - rect.y0),
                doc.pixels@.len() == before.len(),
                before.len() == gw * gh,
                forall|a: int, b: int| 0 <= a < gw && 0 <= b < gh ==> #[trigger] at(doc.pixels@, gw, a, b) == (
                    if inside(rect, a, b) && b < y { at(piece, grw, a - rect.x0, b - rect.y0) } else { at(before, gw, a, b) }),
            decreases rect.y1 - y,
        {
            let mut x = rect.x0;
            while x < rect.x1
                invariant
                    doc.wf(),
                    doc.width == w,
                    doc.height == h,
                    gw == w,
                    gh == h,
                    grw == rect.spec_width(),
                    rw == grw,
                    rect.within((w, h)),
                    rect.y0 <= y < rect.y1,
                    rect.x0 <= x <= rect.x1,
                    piece == self.pixels@,
                    piece.len() == (rect.y1 - rect.y0) * grw,
                    piece.len() == grw * (rect.y1 - rect.y0),
                    doc.pixels@.len() == before.len(),
                    before.len() == gw * gh,
                    forall|a: int, b: int| 0 <= a < gw && 0 <= b < gh ==> #[trigger] at(doc.pixels@, gw, a, b) == (
                        if inside(rect, a, b) && (b < y || (b == y && a < x)) {
                            at(piece, grw, a - rect.x0, b - rect.y0)
                        } else {
                            at(before, gw, a, b)
                        }),
                decreases rect.x1 - x,
            {
                proof {
                    lemma_index_fits(x as int, y as int, gw, gh);
                    lemma_index_fits((x - rect.x0) as int, (y - rect.y0) as int, grw, (rect.y1 - rect.y0) as int);
                }
                assert(doc.pixels@.len() == doc.pixels.len());
                assert(self.pixels@.len() == self.pixels.len());
                let i = y as usize * w as usize + x as usize;
                let (dy, dx) = (y - rect.y0, x - rect.x0);
                assert((dy as int) * grw + (dx as int) < self.pixels@.len());
                assert((dy as int) * grw <= (dy as int) * grw + (dx as int));
                let k = dy as usize * rw as usize + dx as usize;
                let ghost old_pixels = doc.pixels@;
                doc.pixels.set(i, self.pixels[k]);
                proof {
                    assert forall|a: int, b: int| 0 <= a < gw && 0 <= b < gh implies #[trigger] at(doc.pixels@, gw, a, b) == (
                        if inside(rect, a, b) && (b < y || (b == y && a < x + 1)) {
                            at(piece, grw, a - rect.x0, b - rect.y0)
                        } else {
                            at(before, gw, a, b)
                        }) by {
                        lemma_index_fits(a, b, gw, gh);
                        assert(at(old_pixels, gw, a, b) == (
                            if inside(rect, a, b) && (b < y || (b == y && a < x)) {
                                at(piece, grw, a - rect.x0, b - rect.y0)
                            } else {
                                at(before, gw, a, b)
                            }));
                        if b * gw + a == i {
                            lemma_index_unique(a, b, x as int, y as int, gw);
                        }
                    }
                }
                x = x + 1;
            }
            y = y + 1;
        }
    }
}

/// Every index of a picture `w` wide and `h` high is the index of one of its pixels.
pub proof fn lemma_index_of(i: int, w: int, h: int)
    requires
        0 <= i < w * h,
        0 < w,
    ensures
        0 <= i % w < w,
        0 <= i / w < h,
        i == (i / w) * w + i % w,
{
    vstd::arithmetic::div_mod::lemma_fundamental_div_mod(i, w);
    assert(0 <= i % w < w) by {
        vstd::arithmetic::div_mod::lemma_mod_bound(i, w);
    }
    assert(0 <= i / w < h) by (nonlinear_arith)
        requires
            0 <= i < w * h,
            0 < w,
            i == w * (i / w) + i % w,
            0 <= i % w < w,
    ;
    assert((i / w) * w == w * (i / w)) by (nonlinear_arith);
}

/// Lifting a selection and laying it back down where it was gives back the picture as it
/// was.
pub proof fn lemma_lift_then_commit(before: Seq<[u8; 4]>, lifted: Seq<[u8; 4]>, piece: Seq<[u8; 4]>, after: Seq<[u8; 4]>, w: int, h: int, r: Rect)
    requires
        0 <= w,
        0 <= h,
        before.len() == w * h,
        cleared(before, lifted, w, h, r),
        holds_piece(before, piece, w, r),
        laid(lifted, after, piece, w, h, r),
    ensures
        after == before,
{
    assert forall|i: int| 0 <= i < before.len() implies after[i] == before[i] by {
        if w == 0 {
            assert(w * h == 0);
        }
        lemma_index_of(i, w, h);
        let (x, y) = (i % w, i / w);
        assert(at(after, w, x, y) == at(before, w, x, y));
    }
    assert(after =~= before);
}

} // verus!

verus! {

/// `v` held between `low` and `high`.
pub open spec fn held(v: int, low: int, high: int) -> int {
    if v < low { low } else if v > high { high } else { v }
}

/// The rectangle a drag between `a` and `b` (in whole pixels) marks out on the canvas,
/// whichever way round it went and cut down to the canvas; `None` when it holds no pixel.
pub open spec fn marked(a: (i64, i64), b: (i64, i64), canvas: (u32, u32)) -> Option<Rect> {
    let x0 = held(if a.0 < b.0 { a.0 as int } else { b.0 as int }, 0, canvas.0 as int);
    let y0 = held(if a.1 < b.1 { a.1 as int } else { b.1 as int }, 0, canvas.1 as int);
    let x1 = held(if a.0 < b.0 { b.0 as int } else { a.0 as int }, 0, canvas.0 as int);
    let y1 = held(if a.1 < b.1 { b.1 as int } else { a.1 as int }, 0, canvas.1 as int);
    if x1 > x0 && y1 > y0 {
        Some(Rect { x0: x0 as u32, y0: y0 as u32, x1: x1 as u32, y1: y1 as u32 })
    } else {
        None
    }
}

/// A coordinate held between zero and a canvas side.
fn hold(v: i64, high: u32) -> (r: u32)
    ensures
        r == held(v as int, 0, high as int),
{
    if v < 0 {
        0
    } else if v > high as i64 {
        high
    } else {
        v as u32
    }
}

/// The rectangle a drag between `a` and `b` marks out on the canvas (see [`marked`]).
pub fn drag_rect(a: (i64, i64), b: (i64, i64), canvas: (u32, u32)) -> (r: Option<Rect>)
    ensures
        r == marked(a, b, canvas),
        r matches Some(rect) ==> rect.within(canvas),
{
    let x0 = hold(if a.0 < b.0 { a.0 } else { b.0 }, canvas.0);
    let y0 = hold(if a.1 < b.1 { a.1 } else { b.1 }, canvas.1);
    let x1 = hold(if a.0 < b.0 { b.0 } else { a.0 }, canvas.0);
    let y1 = hold(if a.1 < b.1 { b.1 } else { a.1 }, canvas.1);
    if x1 > x0 && y1 > y0 {
        Some(Rect::new(x0, y0, x1, y1))
    } else {
        None
    }
}

/// Whether a drag went less than two pixels either way, too little to be meant.
pub open spec fn tiny(a: (i64, i64), b: (i64, i64)) -> bool {
    -2 < a.0 - b.0 < 2 && -2 < a.1 - b.1 < 2
}

/// One open document: its picture, what floats over it, and the selection being dragged out.
pub struct Sheet {
    pub doc: Document,
    pub floating: Option<Floating>,
    /// Where the drag of a selection started and where it has got to, in whole pixels.
    pub selecting: Option<((i64, i64), (i64, i64))>,
}

/// Whether `after` is the picture `before` once `floating`, if any, has been laid down.
pub open spec fn put_down(before: Seq<[u8; 4]>, after: Seq<[u8; 4]>, floating: Option<Floating>, w: int, h: int) -> bool {
    match floating {
        Some(f) => laid(before, after, f.pixels@, w, h, f.rect),
        None => after == before,
    }
}

impl Sheet {
    /// The picture is whole and whatever floats sits on it.
    pub open spec fn wf(&self) -> bool {
        &&& self.doc.wf()
        &&& self.floating matches Some(f) ==> f.wf((self.doc.width, self.doc.height))
    }

    /// A sheet for a document, with nothing floating or being selected.
    pub fn new(doc: Document) -> (s: Self)
        requires
            doc.wf(),
        ensures
            s.wf(),
            s.doc == doc,
            s.floating is None,
            s.selecting is None,
    {
        Sheet { doc, floating: None, selecting: None }
    }

    /// Lays whatever floats down on the picture.
    pub fn commit_floating(&mut self)
        requires
            old(self).wf(),
        ensures
            final(self).wf(),
            final(self).floating is None,
            final(self).selecting == old(self).selecting,
            final(self).doc.width == old(self).doc.width,
            final(self).doc.height == old(self).doc.height,
            put_down(old(self).doc.pixels@, final(self).doc.pixels@, old(self).floating,
                old(self).doc.width as int, old(self).doc.height as int),
    {
        if let Some(floating) = self.floating.take() {
            floating.commit(&mut self.doc);
        }
    }

    /// Lays whatever floats down, then lifts the pixels inside `rect` to float instead.
    pub fn begin_float_from(&mut self, rect: Rect)
        requires
            old(self).wf(),
            rect.within((old(self).doc.width, old(self).doc.height)),
        ensures
            final(self).wf(),
            final(self).selecting == old(self).selecting,
            final(self).doc.width == old(self).doc.width,
            final(self).doc.height == old(self).doc.height,
            final(self).floating matches Some(f) && f.rect == rect && f.lifted_from == Some(rect)
                && exists|mid: Seq<[u8; 4]>| {
                    &&& put_down(old(self).doc.pixels@, mid, old(self).floating,
                        old(self).doc.width as int, old(self).doc.height as int)
                    &&& #[trigger] cleared(mid, final(self).doc.pixels@, old(self).doc.width as int,
                        old(self).doc.height as int, rect)
                    &&& holds_piece(mid, f.pixels@, old(self).doc.width as int, rect)
                },
    {
        self.commit_floating();
        let ghost mid = self.doc.pixels@;
        let floating = Floating::lift(&mut self.doc, rect);
        self.floating = Some(floating);
        assert(cleared(mid, self.doc.pixels@, self.doc.width as int, self.doc.height as int, rect));
    }

    /// A selection drag starts at `(x, y)`: whatever floats is laid down first.
    pub fn select_began(&mut self, x: i64, y: i64)
        requires
            old(self).wf(),
        ensures
            final(self).wf(),
            final(self).floating is None,
            final(self).selecting == Some(((x, y), (x, y))),
            final(self).doc.width == old(self).doc.width,
            final(self).doc.height == old(self).doc.height,
            put_down(old(self).doc.pixels@, final(self).doc.pixels@, old(self).floating,
                old(self).doc.width as int, old(self).doc.height as int),
    {
        self.commit_floating();
        self.selecting = Some(((x, y), (x, y)));
    }

    /// The selection drag has got to `(x, y)`.
    pub fn select_moved(&mut self, x: i64, y: i64)
        requires
            old(self).wf(),
        ensures
            final(self).wf(),
            final(self).doc == old(self).doc,
            final(self).floating == old(self).floating,
            final(self).selecting == (match old(self).selecting {
                Some((a, _)) => Some((a, (x, y))),
                None => None,
            }),
    {
        if let Some((_, end)) = &mut self.selecting {
            *end = (x, y);
        }
    }

    /// The selection drag ends: unless it went too little to be meant or marks out nothing
    /// on the canvas, what it marks out is lifted to float.
    pub fn select_ended(&mut self)
        requires
            old(self).wf(),
        ensures
            final(self).wf(),
            final(self).selecting is None,
            final(self).doc.width == old(self).doc.width,
            final(self).doc.height == old(self).doc.height,
            match old(self).selecting {
                None => final(self).doc == old(self).doc && final(self).floating == old(self).floating,
                Some((a, b)) => match marked(a, b, (old(self).doc.width, old(self).doc.height)) {
                    Some(rect) if !tiny(a, b) => final(self).floating matches Some(f) && f.rect == rect
                        && f.lifted_from == Some(rect)
                        && exists|mid: Seq<[u8; 4]>| {
                            &&& put_down(old(self).doc.pixels@, mid, old(self).floating,
                                old(self).doc.width as int, old(self).doc.height as int)
                            &&& #[trigger] cleared(mid, final(self).doc.pixels@, old(self).doc.width as int,
                                old(self).doc.height as int, rect)
                            &&& holds_piece(mid, f.pixels@, old(self).doc.width as int, rect)
                        },
                    _ => final(self).doc == old(self).doc && final(self).floating == old(self).floating,
                },
            },
    {
        let Some((a, b)) = self.selecting.take() else {
            return;
        };
        let dx = a.0 as i128 - b.0 as i128;
        let dy = a.1 as i128 - b.1 as i128;
        if -2 < dx && dx < 2 && -2 < dy && dy < 2 {
            return;
        }
        if let Some(rect) = drag_rect(a, b, self.doc.size()) {
            self.begin_float_from(rect);
        }
    }
}


/// The pipette takes the pixel under the pointer: at column `x` and row `y` of a picture
/// kept row by row, `width` pixels to a row, the pixel at `y * width + x`, when it is not
/// wholly clear; off the canvas, or over a clear pixel, it takes nothing.
pub proof fn lemma_pipette_takes_the_pixel_under_it(d: Document, x: i64, y: i64)
    requires
        d.wf(),
    ensures
        (0 <= x < d.width && 0 <= y < d.height && d.pixels@[y * d.width + x][3] > 0)
            ==> piped(d, x, y) == Some(d.pixels@[y * d.width + x]),
        (0 <= x < d.width && 0 <= y < d.height && d.pixels@[y * d.width + x][3] == 0)
            ==> piped(d, x, y) is None,
        !(0 <= x < d.width && 0 <= y < d.height) ==> piped(d, x, y) is None,
{
}

} // verus!
