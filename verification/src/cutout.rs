use vstd::prelude::*;

use crate::panel::Field;
use crate::region::{Handle, Rect};

verus! {

/// One dab of the refining brush. The canvas position and radius are kept as the bit
/// patterns of the floating-point values the canvas reports (`f32::to_bits`); nothing here
/// computes with them, it only keeps them for undo.
#[derive(Debug, Clone, Copy, PartialEq, Eq, Structural)]
pub struct Dab {
    pub x: u32,
    pub y: u32,
    pub radius: u32,
    pub adding: bool,
}

/// The edge settings of a cut-out, as bit patterns of their floating-point values.
#[derive(Debug, Clone, Copy, PartialEq, Eq, Structural)]
pub struct Settings {
    pub radius: u32,
    pub feather: u32,
    pub smooth: u32,
    pub shift: u32,
}

/// What a cut-out aims at, as the bit pattern of its colour tolerance.
#[derive(Debug, Clone, Copy, PartialEq, Eq, Structural)]
pub struct Aim {
    pub tolerance: u32,
}

/// What one undo step of refining a cut-out puts back.
pub struct CutoutEdit {
    pub strokes: Vec<Dab>,
    pub settings: Settings,
    pub aim: Aim,
}

/// The refining brush's radius when a cut-out opens: sixteen pixels, as the bit pattern
/// of that floating-point value.
pub const BRUSH: u32 = 0x4180_0000;

/// The most undo steps refining a cut-out keeps.
pub const CUTOUT_HISTORY: usize = 64;

/// The Smart Cutout while it is open.
pub struct CuttingOut {
    /// Whether the cut has been worked out at least once and is being refined.
    pub refining: bool,
    /// The box drawn round what is to be cut out.
    pub rect: Rect,
    /// How much of each pixel the cut keeps, 0 to 255, row by row.
    pub mask: Option<Vec<u8>>,
    /// The shade laid over what the cut leaves out, four bytes a pixel.
    pub overlay: Option<Vec<u8>>,
    /// Whether the refining brush adds to the cut rather than taking from it.
    pub adding: bool,
    pub autofill: bool,
    /// The box and grip a drag started from, while one is under way.
    pub grabbed: Option<(Rect, Handle)>,
    /// Whether the refining brush is down.
    pub painting: bool,
    /// The dabs of the refining brush so far.
    pub strokes: Vec<Dab>,
    pub settings: Settings,
    pub aim: Aim,
    /// Where the brush last landed, while a stroke goes on.
    pub previous: Option<Dab>,
    /// Undo steps, oldest first.
    pub history: Vec<CutoutEdit>,
    /// Redo steps, the next one last.
    pub redo: Vec<CutoutEdit>,
    /// The field being dragged, so that one drag is one undo step.
    pub edit_field: Option<Field>,
    /// Whether a run of the cut is under way.
    pub busy: bool,
    /// Whether the last run failed.
    pub failed: bool,
    /// How many times the cut has been asked for.
    pub revision: u64,
    /// The revision whose result is on show.
    pub applied_revision: u64,
    /// The refining brush's radius, as the bit pattern of its floating-point value.
    pub brush: u32,
    /// The mask the last run that worked out gave, whether or not it is on show; the next
    /// run starts from it.
    pub result: Option<Vec<u8>>,
}

/// The state an undo step stands for.
pub open spec fn edit_state(e: CutoutEdit) -> (Seq<Dab>, Settings, Aim) {
    (e.strokes@, e.settings, e.aim)
}

/// The states a list of undo steps stands for, in order.
pub open spec fn edit_states(v: Seq<CutoutEdit>) -> Seq<(Seq<Dab>, Settings, Aim)> {
    v.map_values(|e: CutoutEdit| edit_state(e))
}

impl CuttingOut {
    /// The refinement as it stands.
    pub open spec fn state(&self) -> (Seq<Dab>, Settings, Aim) {
        (self.strokes@, self.settings, self.aim)
    }

    /// The Smart Cutout opened on a canvas: the box round all of it, nothing worked out yet,
    /// the brush set to add, and autofill on.
    pub fn new(canvas: (u32, u32), settings: Settings, aim: Aim) -> (c: Self)
        ensures
            !c.refining,
            c.rect == (Rect { x0: 0, y0: 0, x1: canvas.0, y1: canvas.1 }),
            c.mask is None,
            c.overlay is None,
            c.adding,
            c.autofill,
            c.grabbed is None,
            !c.painting,
            c.strokes@.len() == 0,
            c.settings == settings,
            c.aim == aim,
            c.previous is None,
            c.history@.len() == 0,
            c.redo@.len() == 0,
            c.edit_field is None,
            !c.busy,
            !c.failed,
            c.revision == 0,
            c.applied_revision == 0,
            c.brush == BRUSH,
            c.result is None,
    {
        Self {
            refining: false,
            rect: Rect::new(0, 0, canvas.0, canvas.1),
            mask: None,
            overlay: None,
            adding: true,
            autofill: true,
            grabbed: None,
            painting: false,
            strokes: Vec::new(),
            settings,
            aim,
            previous: None,
            history: Vec::new(),
            redo: Vec::new(),
            edit_field: None,
            busy: false,
            failed: false,
            revision: 0,
            applied_revision: 0,
            brush: BRUSH,
            result: None,
        }
    }

    /// An undo step holding the refinement as it stands.
    pub fn edit(&self) -> (e: CutoutEdit)
        ensures
            edit_state(e) == self.state(),
    {
        CutoutEdit { strokes: self.strokes.clone(), settings: self.settings, aim: self.aim }
    }
}

} // verus!

verus! {

/// The undo steps, redo steps and refinement, as states.
pub type Timeline = (Seq<(Seq<Dab>, Settings, Aim)>, Seq<(Seq<Dab>, Settings, Aim)>, (Seq<Dab>, Settings, Aim));

/// What a checkpoint does: the refinement as it stands becomes the newest undo step (the
/// oldest going once there are more than the history keeps) and the redo steps go.
pub open spec fn checkpointed(t: Timeline) -> Timeline {
    let grown = t.0.push(t.2);
    (
        if grown.len() > CUTOUT_HISTORY { grown.drop_first() } else { grown },
        Seq::empty(),
        t.2,
    )
}

/// What one undo (or redo) does: the newest undo (redo) step becomes the refinement, and
/// the refinement it replaces becomes the newest redo (undo) step. With no step to take,
/// nothing changes.
pub open spec fn stepped(t: Timeline, undo: bool) -> Timeline {
    if undo {
        if t.0.len() == 0 { t } else { (t.0.drop_last(), t.1.push(t.2), t.0.last()) }
    } else {
        if t.1.len() == 0 { t } else { (t.0.push(t.2), t.1.drop_last(), t.1.last()) }
    }
}

impl CuttingOut {
    /// The undo steps, redo steps and refinement.
    pub open spec fn timeline(&self) -> Timeline {
        (edit_states(self.history@), edit_states(self.redo@), self.state())
    }

    /// Saves the refinement as an undo step before it changes.
    pub fn checkpoint(&mut self)
        ensures
            final(self).timeline() == checkpointed(old(self).timeline()),
            final(self).edit_field is None,
            final(self).painting == old(self).painting,
            final(self).previous == old(self).previous,
            final(self).mask == old(self).mask,
            final(self).rect == old(self).rect,
            final(self).revision == old(self).revision,
            final(self).busy == old(self).busy,
            final(self).refining == old(self).refining,
            final(self).overlay == old(self).overlay,
            final(self).failed == old(self).failed,
            final(self).applied_revision == old(self).applied_revision,
            final(self).adding == old(self).adding,
            final(self).autofill == old(self).autofill,
            final(self).grabbed == old(self).grabbed,
            final(self).brush == old(self).brush,
            final(self).result == old(self).result,
    {
        self.edit_field = None;
        let e = self.edit();
        let ghost before = edit_states(self.history@);
        self.history.push(e);
        assert(edit_states(self.history@) =~= before.push(self.state()));
        if self.history.len() > CUTOUT_HISTORY {
            self.history.remove(0);
            assert(edit_states(self.history@) =~= before.push(self.state()).drop_first());
        }
        self.redo.clear();
        assert(edit_states(self.redo@) =~= Seq::empty());
    }

    /// Undoes (`undo`) or redoes one step of refining, and says whether there was one. A
    /// step ends any brush stroke and any field drag.
    pub fn step(&mut self, undo: bool) -> (done: bool)
        ensures
            final(self).timeline() == stepped(old(self).timeline(), undo),
            done == (if undo { old(self).history@.len() > 0 } else { old(self).redo@.len() > 0 }),
            done ==> final(self).edit_field is None && !final(self).painting && final(self).previous is None,
            !done ==> final(self).edit_field == old(self).edit_field && final(self).painting == old(self).painting
                && final(self).previous == old(self).previous,
            final(self).mask == old(self).mask,
            final(self).rect == old(self).rect,
            final(self).revision == old(self).revision,
            final(self).busy == old(self).busy,
            final(self).refining == old(self).refining,
            final(self).overlay == old(self).overlay,
            final(self).failed == old(self).failed,
            final(self).applied_revision == old(self).applied_revision,
            final(self).adding == old(self).adding,
            final(self).autofill == old(self).autofill,
            final(self).grabbed == old(self).grabbed,
            final(self).brush == old(self).brush,
            final(self).result == old(self).result,
    {
        let ghost hist = edit_states(self.history@);
        let ghost redo = edit_states(self.redo@);
        let next = if undo { self.history.pop() } else { self.redo.pop() };
        let Some(next) = next else {
            return false;
        };
        let current = self.edit();
        if undo {
            assert(edit_states(self.history@) =~= hist.drop_last());
            self.redo.push(current);
            assert(edit_states(self.redo@) =~= redo.push(old(self).state()));
        } else {
            assert(edit_states(self.redo@) =~= redo.drop_last());
            self.history.push(current);
            assert(edit_states(self.history@) =~= hist.push(old(self).state()));
        }
        self.strokes = next.strokes;
        self.settings = next.settings;
        self.aim = next.aim;
        self.edit_field = None;
        self.painting = false;
        self.previous = None;
        true
    }
}

/// Whether the floating-point value with these bits is not a number.
pub open spec fn nan_bits(b: u32) -> bool {
    (b & 0x7f80_0000u32) == 0x7f80_0000u32 && (b & 0x007f_ffffu32) != 0
}

/// Whether two floating-point values, given by their bits, are equal as `==` on `f32`
/// compares them: the same bits and not a NaN, or both zeros of either sign.
pub open spec fn same_value(a: u32, b: u32) -> bool {
    (a == b && !nan_bits(a)) || ((a & 0x7fff_ffffu32) == 0 && (b & 0x7fff_ffffu32) == 0)
}

/// Whether two sets of edge settings are equal field by field as `f32` values.
pub open spec fn same_settings(a: Settings, b: Settings) -> bool {
    same_value(a.radius, b.radius) && same_value(a.feather, b.feather)
        && same_value(a.smooth, b.smooth) && same_value(a.shift, b.shift)
}

/// Whether setting `field` to `bits` changes the cut, comparing as `f32` values do.
pub open spec fn field_changes(field: Field, settings: Settings, aim: Aim, bits: u32) -> bool {
    match field_set(field, settings, aim, bits) {
        Some(p) => if field is CutoutTolerance {
            !same_value(aim.tolerance, bits)
        } else {
            !same_settings(settings, p.0)
        },
        None => false,
    }
}

/// Compares two floating-point values given by their bits (see `same_value`).
pub fn same_float(a: u32, b: u32) -> (r: bool)
    ensures
        r == same_value(a, b),
{
    (a == b && !((a & 0x7f80_0000u32) == 0x7f80_0000u32 && (a & 0x007f_ffffu32) != 0))
        || ((a & 0x7fff_ffffu32) == 0 && (b & 0x7fff_ffffu32) == 0)
}

/// The edge settings and aim after `field` is set to `bits`, or `None` for a field that
/// is not one of the cut's own.
pub open spec fn field_set(field: Field, settings: Settings, aim: Aim, bits: u32) -> Option<(Settings, Aim)> {
    match field {
        Field::CutoutTolerance => Some((settings, Aim { tolerance: bits })),
        Field::CutoutRadius => Some((Settings { radius: bits, ..settings }, aim)),
        Field::CutoutFeather => Some((Settings { feather: bits, ..settings }, aim)),
        Field::CutoutSmooth => Some((Settings { smooth: bits, ..settings }, aim)),
        Field::CutoutShift => Some((Settings { shift: bits, ..settings }, aim)),
        _ => None,
    }
}

impl CuttingOut {
    /// Sets one of the cut's settings from its slider (`bits` is the bit pattern of the
    /// slider's value) and says whether that changed anything, values compared as `f32`
    /// compares them, in which case the cut is to be worked out again. The first change in
    /// a drag of a field saves an undo step; the rest of the same drag does not. The brush
    /// field sets the refining brush and needs no new run; any other field leaves the cut
    /// as it was.
    pub fn set_field(&mut self, field: Field, bits: u32) -> (changed: bool)
        ensures
            changed == field_changes(field, old(self).settings, old(self).aim, bits),
            field is CutoutBrush ==> *final(self) == (CuttingOut { brush: bits, ..*old(self) }),
            !changed && !(field is CutoutBrush) ==> *final(self) == *old(self),
            changed ==> {
                let p = field_set(field, old(self).settings, old(self).aim, bits)->0;
                let saved = if old(self).edit_field == Some(field) {
                    old(self).timeline()
                } else {
                    checkpointed(old(self).timeline())
                };
                &&& final(self).settings == p.0
                &&& final(self).aim == p.1
                &&& final(self).strokes@ == old(self).strokes@
                &&& final(self).edit_field == Some(field)
                &&& edit_states(final(self).history@) == saved.0
                &&& edit_states(final(self).redo@) == saved.1
                &&& final(self).painting == old(self).painting
                &&& final(self).previous == old(self).previous
                &&& final(self).mask == old(self).mask
                &&& final(self).rect == old(self).rect
                &&& final(self).revision == old(self).revision
                &&& final(self).busy == old(self).busy
                &&& final(self).refining == old(self).refining
                &&& final(self).overlay == old(self).overlay
                &&& final(self).failed == old(self).failed
                &&& final(self).applied_revision == old(self).applied_revision
                &&& final(self).adding == old(self).adding
                &&& final(self).autofill == old(self).autofill
                &&& final(self).grabbed == old(self).grabbed
                &&& final(self).brush == old(self).brush
                &&& final(self).result == old(self).result
            },
    {
        let mut settings = self.settings;
        let mut aim = self.aim;
        match field {
            Field::CutoutTolerance => aim.tolerance = bits,
            Field::CutoutRadius => settings.radius = bits,
            Field::CutoutFeather => settings.feather = bits,
            Field::CutoutSmooth => settings.smooth = bits,
            Field::CutoutShift => settings.shift = bits,
            Field::CutoutBrush => {
                self.brush = bits;
                return false;
            },
            _ => return false,
        }
        let same = match field {
            Field::CutoutTolerance => same_float(self.aim.tolerance, bits),
            _ => same_float(self.settings.radius, settings.radius) && same_float(self.settings.feather, settings.feather)
                && same_float(self.settings.smooth, settings.smooth) && same_float(self.settings.shift, settings.shift),
        };
        if same {
            return false;
        }
        let dragging = match self.edit_field {
            Some(f) => f == field,
            None => false,
        };
        if !dragging {
            self.checkpoint();
            self.edit_field = Some(field);
        }
        self.settings = settings;
        self.aim = aim;
        true
    }
}

/// An undo that had a step to take is taken back whole by a redo.
pub proof fn lemma_redo_takes_back_undo(t: Timeline)
    requires
        t.0.len() > 0,
    ensures
        stepped(stepped(t, true), false) == t,
{
    let u = stepped(t, true);
    assert(u.1.len() > 0);
    assert(u.0.push(u.2) =~= t.0);
    assert(u.1.drop_last() =~= t.1);
}

/// A redo that had a step to take is taken back whole by an undo.
pub proof fn lemma_undo_takes_back_redo(t: Timeline)
    requires
        t.1.len() > 0,
    ensures
        stepped(stepped(t, false), true) == t,
{
    let r = stepped(t, false);
    assert(r.0.drop_last() =~= t.0);
    assert(r.1.push(r.2) =~= t.1);
}

/// A checkpoint keeps the refinement, leaves nothing to redo, and the undo that follows it
/// gives back the refinement it saved.
pub proof fn lemma_checkpoint_then_undo(t: Timeline)
    ensures
        checkpointed(t).2 == t.2,
        checkpointed(t).1.len() == 0,
        t.0.len() <= CUTOUT_HISTORY ==> checkpointed(t).0.len() <= CUTOUT_HISTORY,
        stepped(checkpointed(t), true).2 == t.2,
{
}

} // verus!

verus! {

/// How much of pixel `i` the cut keeps, reading past the end of the mask as nothing.
pub open spec fn kept(mask: Seq<u8>, i: int) -> u8 {
    if 0 <= i < mask.len() { mask[i] } else { 0 }
}

/// The shade over `pixels` pixels: four bytes each, all clear, but for an alpha of 150 on
/// every pixel the cut keeps no more than half of.
pub open spec fn shade(mask: Seq<u8>, pixels: nat) -> Seq<u8> {
    Seq::new(pixels * 4, |k: int| if k % 4 == 3 && kept(mask, k / 4) <= 128 { 150u8 } else { 0u8 })
}

pub proof fn lemma_pixel_byte(i: int, j: int)
    requires
        0 <= i,
        0 <= j < 4,
    ensures
        (4 * i + j) / 4 == i,
        (4 * i + j) % 4 == j,
{
    assert((4 * i + j) / 4 == i && (4 * i + j) % 4 == j) by (nonlinear_arith)
        requires
            0 <= i,
            0 <= j < 4,
    ;
}

impl CuttingOut {
    /// Lays the shade over what the cut leaves out, for a canvas of the given size; with
    /// nothing worked out yet there is nothing to shade and nothing changes.
    pub fn build_overlay(&mut self, canvas: (u32, u32))
        requires
            canvas.0 * canvas.1 * 4 <= usize::MAX,
        ensures
            old(self).mask matches Some(m) ==> final(self).overlay matches Some(o)
                && o@ == shade(m@, (canvas.0 * canvas.1) as nat),
            old(self).mask is None ==> final(self).overlay == old(self).overlay,
            *final(self) == (CuttingOut { overlay: final(self).overlay, ..*old(self) }),
    {
        let Some(mask) = &self.mask else { return };
        let pixels = canvas.0 as usize * canvas.1 as usize;
        let mut out: Vec<u8> = Vec::new();
        let mut i: usize = 0;
        while i < pixels
            invariant
                i <= pixels,
                pixels * 4 <= usize::MAX,
                out@ =~= shade(mask@, pixels as nat).subrange(0, 4 * i),
            decreases pixels - i,
        {
            let alpha: u8 = if i < mask.len() && mask[i] > 128 { 0 } else { 150 };
            let ghost full = shade(mask@, pixels as nat);
            proof {
                lemma_pixel_byte(i as int, 0);
                lemma_pixel_byte(i as int, 1);
                lemma_pixel_byte(i as int, 2);
                lemma_pixel_byte(i as int, 3);
            }
            out.push(0);
            out.push(0);
            out.push(0);
            out.push(alpha);
            assert(out@ =~= full.subrange(0, 4 * i + 4));
            i = i + 1;
        }
        self.overlay = Some(out);
    }
}

} // verus!

verus! {

/// What taking in the end of the run for `revision` does (see `CuttingOut::finish`):
/// `old` becomes `new`, and `again` says whether to run once more.
pub open spec fn finished(old: CuttingOut, new: CuttingOut, revision: u64, result: Option<Vec<u8>>,
    canvas: (u32, u32), again: bool) -> bool {
    &&& (!new.busy)
    &&& (new.revision == old.revision)
    &&& (old.applied_revision <= old.revision ==> new.applied_revision <= new.revision)
    &&& (new.painting == old.painting)
    &&& (new.timeline() == old.timeline())
    &&& new.rect == old.rect
    &&& new.adding == old.adding
    &&& new.autofill == old.autofill
    &&& new.grabbed == old.grabbed
    &&& new.brush == old.brush
    &&& match result {
        Some(m) => new.result matches Some(r) && r@ == m@,
        None => new.result == old.result,
    }
    &&& new.edit_field == old.edit_field
    &&& new.previous == old.previous
    &&& (match result {
                None => {
                    &&& new.failed
                    &&& new.refining == (old.refining && old.mask is Some)
                    &&& new.mask == old.mask
                    &&& new.overlay == old.overlay
                    &&& new.applied_revision == old.applied_revision
                    &&& !again
                },
                Some(m) => {
                    &&& new.failed == old.failed
                    &&& new.refining == old.refining
                    &&& if old.revision == revision && !old.painting {
                        &&& new.mask == Some(m)
                        &&& new.applied_revision == revision
                        &&& new.overlay matches Some(o)
                        &&& o@ == shade(m@, (canvas.0 * canvas.1) as nat)
                    } else {
                        &&& new.mask == old.mask
                        &&& new.overlay == old.overlay
                        &&& new.applied_revision == old.applied_revision
                    }
                    &&& again == (old.revision != revision && !old.painting)
                },
            })
}

impl CuttingOut {
    /// Marks a run of the cut as under way: busy, not failed, and refining from now on.
    pub fn start(&mut self)
        ensures
            final(self).busy,
            !final(self).failed,
            final(self).refining,
            final(self).revision == old(self).revision,
            final(self).applied_revision == old(self).applied_revision,
            final(self).mask == old(self).mask,
            final(self).overlay == old(self).overlay,
            final(self).painting == old(self).painting,
            final(self).timeline() == old(self).timeline(),
    {
        self.busy = true;
        self.failed = false;
        self.refining = true;
    }

    /// Asks for the cut to be worked out again: a new revision, and a run started unless one
    /// is already under way (which picks the new revision up when it ends). Says whether a
    /// run was started.
    pub fn run(&mut self) -> (started: bool)
        requires
            old(self).revision < u64::MAX,
        ensures
            final(self).revision == old(self).revision + 1,
            old(self).applied_revision <= old(self).revision ==> final(self).applied_revision <= final(self).revision,
            started == !old(self).busy,
            started ==> final(self).busy && !final(self).failed && final(self).refining,
            !started ==> final(self).busy == old(self).busy && final(self).failed == old(self).failed
                && final(self).refining == old(self).refining,
            final(self).applied_revision == old(self).applied_revision,
            final(self).mask == old(self).mask,
            final(self).overlay == old(self).overlay,
            final(self).painting == old(self).painting,
            final(self).timeline() == old(self).timeline(),
    {
        self.revision = self.revision + 1;
        if self.busy {
            return false;
        }
        self.start();
        true
    }

    /// Whether a run should start again on its own: while refining, with no run under way,
    /// the last one not failed, and the result on show behind the latest revision.
    pub fn resumes(&self) -> (b: bool)
        ensures
            b == (self.refining && !self.busy && !self.failed && self.revision != self.applied_revision),
    {
        self.refining && !self.busy && !self.failed && self.revision != self.applied_revision
    }

    /// Takes in the end of the run for `revision`, on a canvas that has not changed since it
    /// started: its mask when it worked, `None` when it failed. A mask is shown only if it is
    /// for the latest revision and the brush is not down; a failure before anything was shown
    /// ends refining. Says whether the run was behind and the cut should be run again.
    pub fn finish(&mut self, revision: u64, result: Option<Vec<u8>>, canvas: (u32, u32)) -> (again: bool)
        requires
            canvas.0 * canvas.1 * 4 <= usize::MAX,
        ensures
            finished(*old(self), *final(self), revision, result, canvas, again),
    {
        self.busy = false;
        match result {
            None => {
                self.failed = true;
                if self.mask.is_none() {
                    self.refining = false;
                }
                false
            },
            Some(mask) => {
                self.result = Some(mask.clone());
                if self.revision == revision && !self.painting {
                    self.mask = Some(mask);
                    self.applied_revision = revision;
                    self.build_overlay(canvas);
                }
                self.revision != revision && !self.painting
            },
        }
    }
}

} // verus!

verus! {

/// The part of a row-by-row `mask`, `w` pixels wide, that lies under the first `rows` rows
/// of `rect`, row by row.
pub open spec fn window(mask: Seq<u8>, w: int, rect: Rect, rows: int) -> Seq<u8>
    decreases rows,
{
    if rows <= 0 {
        Seq::empty()
    } else {
        let y = rect.y0 + rows - 1;
        window(mask, w, rect, rows - 1) + mask.subrange(y * w + rect.x0, y * w + rect.x1)
    }
}

/// Where row `y` of a `w`-wide canvas ends stays inside a canvas `h` rows high.
pub proof fn lemma_row_fits(y: int, w: int, h: int)
    requires
        0 <= y < h,
        0 <= w,
    ensures
        y * w + w <= h * w,
        y * w + w <= w * h,
        0 <= y * w,
{
    assert(y * w + w <= h * w && y * w + w <= w * h && 0 <= y * w) by (nonlinear_arith)
        requires
            0 <= y < h,
            0 <= w,
    ;
}

impl CuttingOut {
    /// The cut's mask under `rect`, row by row; `None` when nothing has been worked out.
    pub fn mask_in(&self, rect: Rect, canvas: (u32, u32)) -> (r: Option<Vec<u8>>)
        requires
            rect.within(canvas),
            self.mask matches Some(m) ==> m@.len() >= canvas.0 * canvas.1,
        ensures
            self.mask is None ==> r is None,
            self.mask matches Some(m) ==> r matches Some(out)
                && out@ == window(m@, canvas.0 as int, rect, rect.spec_height()),
    {
        let mask = match &self.mask {
            Some(mask) => mask,
            None => return None,
        };
        let w = canvas.0 as usize;
        let mut out: Vec<u8> = Vec::new();
        let mut y = rect.y0;
        while y < rect.y1
            invariant
                rect.within(canvas),
                rect.y0 <= y <= rect.y1,
                w == canvas.0,
                mask@.len() >= canvas.0 * canvas.1,
                out@ =~= window(mask@, w as int, rect, y - rect.y0),
            decreases rect.y1 - y,
        {
            proof {
                lemma_row_fits(y as int, w as int, canvas.1 as int);
            }
            assert(mask@.len() == mask.len());
            let row = y as usize * w;
            let mut x = rect.x0;
            let ghost before = out@;
            while x < rect.x1
                invariant
                    rect.within(canvas),
                    rect.x0 <= x <= rect.x1,
                    rect.y0 <= y < rect.y1,
                    w == canvas.0,
                    row == y * w,
                    row + w <= mask@.len(),
                    mask@.len() == mask.len(),
                    out@ =~= before + mask@.subrange(row + rect.x0, row + x),
                decreases rect.x1 - x,
            {
                out.push(mask[row + x as usize]);
                x = x + 1;
            }
            y = y + 1;
        }
        Some(out)
    }
}

} // verus!

verus! {

/// Whether the cut keeps more than half of pixel `(x, y)` of a `w`-wide mask.
pub open spec fn lit(m: Seq<u8>, w: int, x: int, y: int) -> bool {
    m[y * w + x] > 128
}

/// Whether `(x, y)` lies on a `w` by `h` canvas.
pub open spec fn on_canvas(w: int, h: int, x: int, y: int) -> bool {
    0 <= x < w && 0 <= y < h
}

/// Whether any pixel of a `w` by `h` canvas is kept by more than half.
pub open spec fn any_lit(m: Seq<u8>, w: int, h: int) -> bool {
    exists|x: int, y: int| on_canvas(w, h, x, y) && #[trigger] lit(m, w, x, y)
}

/// Whether every pixel kept by more than half lies inside `r`.
pub open spec fn holds_all_lit(m: Seq<u8>, w: int, h: int, r: Rect) -> bool {
    forall|x: int, y: int| on_canvas(w, h, x, y) && #[trigger] lit(m, w, x, y)
        ==> r.x0 <= x < r.x1 && r.y0 <= y < r.y1
}

/// Whether each edge of `r` touches a pixel kept by more than half, so that no smaller
/// rectangle holds them all.
pub open spec fn touches_lit(m: Seq<u8>, w: int, h: int, r: Rect) -> bool {
    &&& exists|y: int| on_canvas(w, h, r.x0 as int, y) && #[trigger] lit(m, w, r.x0 as int, y)
    &&& exists|y: int| on_canvas(w, h, r.x1 - 1, y) && #[trigger] lit(m, w, r.x1 - 1, y)
    &&& exists|x: int| on_canvas(w, h, x, r.y0 as int) && #[trigger] lit(m, w, x, r.y0 as int)
    &&& exists|x: int| on_canvas(w, h, x, r.y1 - 1) && #[trigger] lit(m, w, x, r.y1 - 1)
}

/// Whether `(x, y)` comes before `(cx, cy)` in row-by-row order.
pub open spec fn before(x: int, y: int, cx: int, cy: int) -> bool {
    y < cy || (y == cy && x < cx)
}

impl CuttingOut {
    /// The smallest rectangle round every pixel the cut keeps by more than half; `None` when
    /// there is no such pixel or nothing has been worked out.
    pub fn bounds(&self, canvas: (u32, u32)) -> (r: Option<Rect>)
        requires
            self.mask matches Some(m) ==> m@.len() >= canvas.0 * canvas.1,
        ensures
            self.mask is None ==> r is None,
            self.mask matches Some(m) ==> {
                let (w, h) = (canvas.0 as int, canvas.1 as int);
                &&& r is None <==> !any_lit(m@, w, h)
                &&& r matches Some(rect) ==> {
                    &&& rect.within(canvas)
                    &&& holds_all_lit(m@, w, h, rect)
                    &&& touches_lit(m@, w, h, rect)
                }
            },
    {
        let mask = match &self.mask {
            Some(mask) => mask,
            None => return None,
        };
        let ghost m = mask@;
        let ghost (gw, gh) = (canvas.0 as int, canvas.1 as int);
        let w = canvas.0 as usize;
        let (mut x0, mut y0) = (canvas.0, canvas.1);
        let (mut x1, mut y1) = (0u32, 0u32);
        let ghost mut seen = false;
        let ghost mut wx0: (int, int) = (0, 0);
        let ghost mut wx1: (int, int) = (0, 0);
        let ghost mut wy0: (int, int) = (0, 0);
        let ghost mut wy1: (int, int) = (0, 0);
        assert(mask@.len() == mask.len());
        let mut y: u32 = 0;
        while y < canvas.1
            invariant
                m == mask@,
                w == canvas.0,
                gw == canvas.0,
                gh == canvas.1,
                m.len() >= gw * gh,
                m.len() == mask.len(),
                y <= canvas.1,
                !seen ==> x0 == canvas.0 && y0 == canvas.1 && x1 == 0 && y1 == 0,
                !seen ==> forall|a: int, b: int| on_canvas(gw, gh, a, b) && b < y ==> !#[trigger] lit(m, gw, a, b),
                seen ==> {
                    &&& on_canvas(gw, gh, wx0.0, wx0.1) && lit(m, gw, wx0.0, wx0.1) && wx0.0 == x0
                    &&& on_canvas(gw, gh, wx1.0, wx1.1) && lit(m, gw, wx1.0, wx1.1) && wx1.0 == x1 - 1
                    &&& on_canvas(gw, gh, wy0.0, wy0.1) && lit(m, gw, wy0.0, wy0.1) && wy0.1 == y0
                    &&& on_canvas(gw, gh, wy1.0, wy1.1) && lit(m, gw, wy1.0, wy1.1) && wy1.1 == y1 - 1
                },
                forall|a: int, b: int| on_canvas(gw, gh, a, b) && b < y && #[trigger] lit(m, gw, a, b)
                    ==> x0 <= a < x1 && y0 <= b < y1,
            decreases canvas.1 - y,
        {
            proof {
                lemma_row_fits(y as int, w as int, canvas.1 as int);
            }
            let row = y as usize * w;
            let mut x: u32 = 0;
            while x < canvas.0
                invariant
                    m == mask@,
                    w == canvas.0,
                    gw == canvas.0,
                    gh == canvas.1,
                    m.len() >= gw * gh,
                    m.len() == mask.len(),
                    y < canvas.1,
                    x <= canvas.0,
                    row == y * gw,
                    row + gw <= m.len(),
                    !seen ==> x0 == canvas.0 && y0 == canvas.1 && x1 == 0 && y1 == 0,
                    !seen ==> forall|a: int, b: int| on_canvas(gw, gh, a, b) && before(a, b, x as int, y as int)
                        ==> !#[trigger] lit(m, gw, a, b),
                    seen ==> {
                        &&& on_canvas(gw, gh, wx0.0, wx0.1) && lit(m, gw, wx0.0, wx0.1) && wx0.0 == x0
                        &&& on_canvas(gw, gh, wx1.0, wx1.1) && lit(m, gw, wx1.0, wx1.1) && wx1.0 == x1 - 1
                        &&& on_canvas(gw, gh, wy0.0, wy0.1) && lit(m, gw, wy0.0, wy0.1) && wy0.1 == y0
                        &&& on_canvas(gw, gh, wy1.0, wy1.1) && lit(m, gw, wy1.0, wy1.1) && wy1.1 == y1 - 1
                    },
                    forall|a: int, b: int| on_canvas(gw, gh, a, b) && before(a, b, x as int, y as int)
                        && #[trigger] lit(m, gw, a, b) ==> x0 <= a < x1 && y0 <= b < y1,
                decreases canvas.0 - x,
            {
                if mask[row + x as usize] > 128 {
                    assert(lit(m, gw, x as int, y as int));
                    let ghost p = (x as int, y as int);
                    proof {
                        if !seen || x < x0 {
                            wx0 = p;
                        }
                        if !seen || x + 1 > x1 {
                            wx1 = p;
                        }
                        if !seen || y < y0 {
                            wy0 = p;
                        }
                        if !seen || y + 1 > y1 {
                            wy1 = p;
                        }
                    }
                    if x < x0 { x0 = x; }
                    if y < y0 { y0 = y; }
                    if x + 1 > x1 { x1 = x + 1; }
                    if y + 1 > y1 { y1 = y + 1; }
                    proof { seen = true; }
                }
                x = x + 1;
            }
            y = y + 1;
        }
        if x1 > x0 && y1 > y0 {
            let rect = Rect::new(x0, y0, x1, y1);
            assert(touches_lit(m, gw, gh, rect)) by {
                assert(on_canvas(gw, gh, rect.x0 as int, wx0.1) && lit(m, gw, rect.x0 as int, wx0.1));
                assert(on_canvas(gw, gh, rect.x1 - 1, wx1.1) && lit(m, gw, rect.x1 - 1, wx1.1));
                assert(on_canvas(gw, gh, wy0.0, rect.y0 as int) && lit(m, gw, wy0.0, rect.y0 as int));
                assert(on_canvas(gw, gh, wy1.0, rect.y1 - 1) && lit(m, gw, wy1.0, rect.y1 - 1));
            }
            Some(rect)
        } else {
            assert(!seen);
            None
        }
    }
}

} // verus!

verus! {

/// Whose cut-out a finished run belongs to.
#[derive(Debug, Clone, Copy, PartialEq, Eq, Structural)]
pub enum Owner {
    /// The active document's.
    Active,
    /// The parked document's at this place among the parked ones.
    Parked(usize),
    /// Nobody's any more: the cut-out was closed meanwhile.
    Gone,
}

/// Finds whose cut-out a run belongs to from the number it was started under, given the
/// numbers of the cut-outs open on the active document and on each parked one: the active
/// one's if it matches, else the first parked one that matches.
pub fn owner(id: u64, active: Option<u64>, parked: &Vec<Option<u64>>) -> (r: Owner)
    ensures
        (r is Active) == (active == Some(id)),
        r matches Owner::Parked(i) ==> (i < parked@.len() && parked@[i as int] == Some(id)
            && forall|j: int| 0 <= j < i ==> parked@[j] != Some(id)),
        r is Gone ==> forall|j: int| 0 <= j < parked@.len() ==> parked@[j] != Some(id),
{
    if let Some(a) = active {
        if a == id {
            return Owner::Active;
        }
    }
    let mut i: usize = 0;
    while i < parked.len()
        invariant
            i <= parked@.len(),
            active != Some(id),
            forall|j: int| 0 <= j < i ==> parked@[j] != Some(id),
        decreases parked@.len() - i,
    {
        let hit = match parked[i] {
            Some(p) => p == id,
            None => false,
        };
        if hit {
            return Owner::Parked(i);
        }
        i = i + 1;
    }
    Owner::Gone
}

/// Takes in the end of a run on the cut-out it belongs to: when the document has changed
/// since the run started, the result no longer fits it and the cut-out is closed (`None`);
/// otherwise it is taken in as `CuttingOut::finish` takes it, and `again` says whether to
/// run once more.
pub fn finish_run(cut: CuttingOut, same_document: bool, revision: u64, result: Option<Vec<u8>>, canvas: (u32, u32))
    -> (r: (Option<CuttingOut>, bool))
    requires
        canvas.0 * canvas.1 * 4 <= usize::MAX,
    ensures
        !same_document ==> r.0 is None && !r.1,
        same_document ==> (r.0 matches Some(c) && finished(cut, c, revision, result, canvas, r.1)),
{
    if !same_document {
        return (None, false);
    }
    let mut cut = cut;
    let again = cut.finish(revision, result, canvas);
    (Some(cut), again)
}


/// Each of the cut's sliders sets the setting it is named for, and nothing else: the
/// radius slider the radius, the feather slider the feather, the smoothing slider the
/// smoothing, the shift slider the shift, the tolerance slider the aim's tolerance; every
/// other value stays as it was, and no other field touches the settings or the aim.
pub proof fn lemma_each_slider_sets_its_own_setting(field: Field, s: Settings, a: Aim, bits: u32)
    ensures
        field is CutoutRadius ==> field_set(field, s, a, bits)
            == Some((Settings { radius: bits, feather: s.feather, smooth: s.smooth, shift: s.shift }, a)),
        field is CutoutFeather ==> field_set(field, s, a, bits)
            == Some((Settings { radius: s.radius, feather: bits, smooth: s.smooth, shift: s.shift }, a)),
        field is CutoutSmooth ==> field_set(field, s, a, bits)
            == Some((Settings { radius: s.radius, feather: s.feather, smooth: bits, shift: s.shift }, a)),
        field is CutoutShift ==> field_set(field, s, a, bits)
            == Some((Settings { radius: s.radius, feather: s.feather, smooth: s.smooth, shift: bits }, a)),
        field is CutoutTolerance ==> field_set(field, s, a, bits) == Some((s, Aim { tolerance: bits })),
        !(field is CutoutRadius || field is CutoutFeather || field is CutoutSmooth || field is CutoutShift
            || field is CutoutTolerance) ==> field_set(field, s, a, bits) is None,
{
}

} // verus!
