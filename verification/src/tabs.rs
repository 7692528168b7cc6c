use vstd::prelude::*;

verus! {

/// The open documents, one tab each: the one being worked on, and the others parked in
/// tab order around it.
pub struct Sheets<S> {
    /// The document in the active tab.
    pub open: S,
    /// The other documents, in tab order.
    pub parked: Vec<S>,
    /// Which tab is active.
    pub active: usize,
}

impl<S> Sheets<S> {
    /// The active tab is one of the tabs, and there are not so many that their count
    /// overflows.
    pub open spec fn wf(&self) -> bool {
        &&& self.active <= self.parked@.len()
        &&& self.parked@.len() < usize::MAX
    }

    /// Every document in tab order.
    pub open spec fn order(&self) -> Seq<S> {
        self.parked@.insert(self.active as int, self.open)
    }

    /// One tab, holding `open`.
    pub fn single(open: S) -> (r: Self)
        ensures
            r.wf(),
            r.order() == seq![open],
            r.active == 0,
    {
        let r = Sheets { open, parked: Vec::new(), active: 0 };
        assert(r.order() =~= seq![open]);
        r
    }

    /// How many tabs there are.
    pub fn sheets(&self) -> (n: usize)
        requires
            self.wf(),
        ensures
            n == self.order().len(),
    {
        self.parked.len() + 1
    }

    /// Where tab `tab` is parked, or `None` when it is the active one.
    pub fn parked_at(&self, tab: usize) -> (r: Option<usize>)
        ensures
            tab == self.active ==> r is None,
            tab < self.active ==> r == Some(tab),
            tab > self.active ==> r == Some((tab - 1) as usize),
    {
        if tab == self.active {
            None
        } else if tab < self.active {
            Some(tab)
        } else {
            Some(tab - 1)
        }
    }

    /// Every document in tab order, the active one parked back in its place.
    pub fn collapse(self) -> (v: Vec<S>)
        requires
            self.wf(),
        ensures
            v@ == self.order(),
    {
        let Sheets { open, mut parked, active } = self;
        parked.insert(active, open);
        parked
    }

    /// Opens tab `active` (or the last tab, if there are fewer) out of documents in tab order.
    pub fn expand(sheets: Vec<S>, active: usize) -> (r: Self)
        requires
            sheets@.len() > 0,
        ensures
            r.wf(),
            r.order() == sheets@,
            r.active == (if active < sheets@.len() { active as int } else { sheets@.len() - 1 }),
    {
        let mut sheets = sheets;
        let last = sheets.len() - 1;
        let active = if active < last { active } else { last };
        let ghost all = sheets@;
        let open = sheets.remove(active);
        let r = Sheets { open, parked: sheets, active };
        assert(r.order() =~= all);
        r
    }

    /// Makes tab `tab` the active one; the tabs keep their order. Asking for the active tab,
    /// or one that is not there, changes nothing.
    pub fn switch_to(self, tab: usize) -> (r: Self)
        requires
            self.wf(),
        ensures
            r.wf(),
            r.order() == self.order(),
            r.active == (if tab == self.active || tab >= self.order().len() { self.active } else { tab }),
    {
        if tab == self.active || tab >= self.sheets() {
            return self;
        }
        let sheets = self.collapse();
        Self::expand(sheets, tab)
    }

    /// Closes the active tab and hands its document back; the tabs after it move up one, and
    /// the tab that took its place (or the new last one) becomes active. The only tab is
    /// never closed.
    pub fn close(self) -> (r: (Self, Option<S>))
        requires
            self.wf(),
        ensures
            r.0.wf(),
            self.order().len() < 2 ==> r.0.order() == self.order() && r.0.active == self.active && r.1 is None,
            self.order().len() >= 2 ==> {
                &&& r.1 == Some(self.open)
                &&& r.0.order() == self.order().remove(self.active as int)
                &&& r.0.active == (if self.active < self.order().len() - 1 { self.active as int } else { self.order().len() - 2 })
            },
    {
        let active = self.active;
        let ghost before = self.order();
        let mut sheets = self.collapse();
        if sheets.len() < 2 {
            return (Self::expand(sheets, active), None);
        }
        let gone = sheets.remove(active);
        let next = if active < sheets.len() - 1 { active } else { sheets.len() - 1 };
        (Self::expand(sheets, next), Some(gone))
    }

    /// Adds a tab for `sheet` after the others and makes it the active one.
    pub fn add(self, sheet: S) -> (r: Self)
        requires
            self.wf(),
            self.parked@.len() + 2 < usize::MAX,
        ensures
            r.wf(),
            r.order() == self.order().push(sheet),
            r.active == self.order().len(),
    {
        let mut sheets = self.collapse();
        let at = sheets.len();
        sheets.push(sheet);
        Self::expand(sheets, at)
    }

    /// Steps `by` tabs along, wrapping round past either end.
    pub fn step(self, by: i32) -> (r: Self)
        requires
            self.wf(),
            self.order().len() <= i32::MAX,
            i32::MIN <= self.active + by <= i32::MAX,
        ensures
            r.wf(),
            r.order() == self.order(),
            r.active == (self.active + by) % (self.order().len() as int),
    {
        let count = self.sheets() as i32;
        let here = self.active as i32 + by;
        let next = match here.checked_rem_euclid(count) {
            Some(next) => next,
            None => {
                assert(false);
                0
            },
        };
        self.switch_to(next as usize)
    }
}


impl<S> Sheets<S> {
    /// The tab order holds the parked documents with the open one at its place.
    pub proof fn lemma_order_shape(&self)
        requires
            self.wf(),
        ensures
            self.order().len() == self.parked@.len() + 1,
            self.order()[self.active as int] == self.open,
            forall|k: int| 0 <= k < self.active ==> self.order()[k] == self.parked@[k],
            forall|k: int| self.active < k < self.order().len() ==> self.order()[k] == self.parked@[k - 1],
    {
    }

    /// Putting another document in the active tab changes the tab order only there.
    pub proof fn lemma_replace_open(&self, p: S)
        requires
            self.wf(),
        ensures
            (Sheets { open: p, parked: self.parked, active: self.active }).order()
                == self.order().update(self.active as int, p),
    {
        let r = Sheets { open: p, parked: self.parked, active: self.active };
        assert(r.order() =~= self.order().update(self.active as int, p));
    }
}

} // verus!
