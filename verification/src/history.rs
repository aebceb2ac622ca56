use std::collections::VecDeque;

use vstd::prelude::*;

use crate::canvas::{copy_strokes, same_strokes, strokes_eq, strokes_view, StrokeData, StrokeView};

verus! {

/// How many snapshots the undo stack keeps; older ones fold into the baseline.
pub const MAX_UNDO_STEPS: usize = 10;

/// An undo/redo history of stroke lists.
///
/// `undo` holds the states before each recorded change, oldest first; `redo` the states
/// that undo stepped away from, the most recent last; `baseline` is the state that
/// undo falls back to once the undo stack is empty.
#[derive(Debug)]
pub struct History {
    undo: VecDeque<Vec<StrokeData>>,
    redo: Vec<Vec<StrokeData>>,
    baseline: Vec<StrokeData>,
}

/// A history as a value.
#[verifier::ext_equal]
pub struct HistoryView {
    pub undo: Seq<Seq<StrokeView>>,
    pub redo: Seq<Seq<StrokeView>>,
    pub baseline: Seq<StrokeView>,
}

/// The values of a list of stroke lists.
pub open spec fn snapshots_view(snaps: Seq<Vec<StrokeData>>) -> Seq<Seq<StrokeView>> {
    snaps.map_values(|v: Vec<StrokeData>| strokes_view(v@))
}

impl View for History {
    type V = HistoryView;

    closed spec fn view(&self) -> HistoryView {
        HistoryView {
            undo: snapshots_view(self.undo@),
            redo: snapshots_view(self.redo@),
            baseline: strokes_view(self.baseline@),
        }
    }
}

/// A history with nothing recorded and an empty baseline.
pub open spec fn empty_history() -> HistoryView {
    HistoryView { undo: Seq::empty(), redo: Seq::empty(), baseline: Seq::empty() }
}

/// The history after `strokes` becomes the baseline: both stacks are emptied.
pub open spec fn after_set_baseline(strokes: Seq<StrokeView>) -> HistoryView {
    HistoryView { undo: Seq::empty(), redo: Seq::empty(), baseline: strokes }
}

/// The undo stack and baseline after `snap` is pushed onto the undo stack: when the
/// stack then holds more than `MAX_UNDO_STEPS` snapshots its oldest becomes the baseline.
pub open spec fn push_undo(h: HistoryView, snap: Seq<StrokeView>) -> (Seq<Seq<StrokeView>>, Seq<StrokeView>) {
    let u = h.undo.push(snap);
    if u.len() > MAX_UNDO_STEPS {
        (u.drop_first(), u[0])
    } else {
        (u, h.baseline)
    }
}

/// The history after the state `strokes` is recorded before a change: it goes onto the
/// undo stack and the redo stack is emptied.
pub open spec fn after_snapshot(h: HistoryView, strokes: Seq<StrokeView>) -> HistoryView {
    let (undo, baseline) = push_undo(h, strokes);
    HistoryView { undo, redo: Seq::empty(), baseline }
}

/// The history and strokes after one undo from `strokes`: the last snapshot is restored,
/// or, with no snapshot left, the baseline, unless the strokes already compare equal to
/// it (`strokes_eq`); the
/// state left behind goes onto the redo stack.
pub open spec fn after_undo(h: HistoryView, strokes: Seq<StrokeView>) -> (HistoryView, Seq<StrokeView>) {
    if h.undo.len() > 0 {
        (
            HistoryView { undo: h.undo.drop_last(), redo: h.redo.push(strokes), baseline: h.baseline },
            h.undo.last(),
        )
    } else if !strokes_eq(strokes, h.baseline) {
        (HistoryView { undo: h.undo, redo: h.redo.push(strokes), baseline: h.baseline }, h.baseline)
    } else {
        (h, strokes)
    }
}

/// The history and strokes after one redo from `strokes`: the last state on the redo
/// stack is restored and the state left behind is pushed onto the undo stack.
pub open spec fn after_redo(h: HistoryView, strokes: Seq<StrokeView>) -> (HistoryView, Seq<StrokeView>) {
    if h.redo.len() > 0 {
        let (undo, baseline) = push_undo(h, strokes);
        (HistoryView { undo, redo: h.redo.drop_last(), baseline }, h.redo.last())
    } else {
        (h, strokes)
    }
}

/// Whether an undo from `strokes` would change anything.
pub open spec fn undo_possible(h: HistoryView, strokes: Seq<StrokeView>) -> bool {
    h.undo.len() > 0 || !strokes_eq(strokes, h.baseline)
}

/// Whether a redo would change anything.
pub open spec fn redo_possible(h: HistoryView) -> bool {
    h.redo.len() > 0
}

/// The bound on the undo stack that every operation keeps.
pub open spec fn bounded(h: HistoryView) -> bool {
    h.undo.len() <= MAX_UNDO_STEPS
}

impl History {
    /// The undo stack never holds more than `MAX_UNDO_STEPS` snapshots.
    #[verifier::type_invariant]
    pub(crate) closed spec fn undo_within_bound(&self) -> bool {
        self.undo@.len() <= MAX_UNDO_STEPS
    }

    /// The type invariant says exactly that the history's value is bounded.
    pub(crate) proof fn lemma_invariant_is_bound(&self)
        ensures
            self.undo_within_bound() == bounded(self@),
    {
    }

    /// A history with nothing recorded and an empty baseline.
    pub fn new() -> (h: Self)
        ensures
            h@ == empty_history(),
    {
        let h = History { undo: VecDeque::new(), redo: Vec::new(), baseline: Vec::new() };
        assert(h@.undo =~= Seq::<Seq<StrokeView>>::empty());
        assert(h@.redo =~= Seq::<Seq<StrokeView>>::empty());
        assert(h@.baseline =~= Seq::<StrokeView>::empty());
        h
    }

    /// Makes `strokes` the state that undo falls back to, and forgets both stacks.
    pub fn set_baseline(&mut self, strokes: &[StrokeData])
        ensures
            final(self)@ == after_set_baseline(strokes_view(strokes@)),
            bounded(final(self)@),
    {
        proof {
            use_type_invariant(&*self);
        }
        self.baseline = copy_strokes(strokes);
        self.undo = VecDeque::new();
        self.redo = Vec::new();
        assert(self@.undo =~= Seq::<Seq<StrokeView>>::empty());
        assert(self@.redo =~= Seq::<Seq<StrokeView>>::empty());
    }

    /// Pushes `snap` onto the undo stack `undo`; past the bound, the oldest snapshot
    /// becomes the new baseline, which is returned.
    fn push_undo_bounded(
        undo: &mut VecDeque<Vec<StrokeData>>,
        baseline: Vec<StrokeData>,
        snap: Vec<StrokeData>,
    ) -> (new_baseline: Vec<StrokeData>)
        requires
            old(undo)@.len() <= MAX_UNDO_STEPS,
        ensures
            final(undo)@.len() <= MAX_UNDO_STEPS,
            (snapshots_view(final(undo)@), strokes_view(new_baseline@)) == push_undo(
                HistoryView {
                    undo: snapshots_view(old(undo)@),
                    redo: Seq::empty(),
                    baseline: strokes_view(baseline@),
                },
                strokes_view(snap@),
            ),
    {
        let ghost old_undo = undo@;
        let ghost s = strokes_view(snap@);
        undo.push_back(snap);
        assert(snapshots_view(undo@) =~= snapshots_view(old_undo).push(s));
        if undo.len() > MAX_UNDO_STEPS {
            let ghost pushed = undo@;
            if let Some(evicted) = undo.pop_front() {
                assert(snapshots_view(undo@) =~= snapshots_view(pushed).drop_first());
                return evicted;
            }
        }
        baseline
    }

    /// Records `strokes` as the state before a change, and forgets the redo stack.
    pub fn snapshot(&mut self, strokes: &[StrokeData])
        ensures
            final(self)@ == after_snapshot(old(self)@, strokes_view(strokes@)),
            bounded(final(self)@),
    {
        proof {
            use_type_invariant(&*self);
        }
        let snap = copy_strokes(strokes);
        let mut undo = VecDeque::new();
        std::mem::swap(&mut undo, &mut self.undo);
        let mut baseline = Vec::new();
        std::mem::swap(&mut baseline, &mut self.baseline);
        let new_baseline = History::push_undo_bounded(&mut undo, baseline, snap);
        self.undo = undo;
        self.baseline = new_baseline;
        self.redo = Vec::new();
        assert(self@.redo =~= Seq::<Seq<StrokeView>>::empty());
    }

    /// Steps `strokes` back by one recorded change (see `after_undo`).
    pub fn undo(&mut self, strokes: &mut Vec<StrokeData>)
        ensures
            (final(self)@, strokes_view(final(strokes)@)) == after_undo(
                old(self)@,
                strokes_view(old(strokes)@),
            ),
            bounded(final(self)@),
    {
        proof {
            use_type_invariant(&*self);
        }
        let mut undo = VecDeque::new();
        std::mem::swap(&mut undo, &mut self.undo);
        let mut redo = Vec::new();
        std::mem::swap(&mut redo, &mut self.redo);
        let ghost old_undo = undo@;
        let ghost old_redo = redo@;
        if let Some(previous) = undo.pop_back() {
            let current = copy_strokes(strokes.as_slice());
            redo.push(current);
            *strokes = previous;
            assert(snapshots_view(undo@) =~= snapshots_view(old_undo).drop_last());
            assert(snapshots_view(redo@) =~= snapshots_view(old_redo).push(
                strokes_view(old(strokes)@),
            ));
        } else if !same_strokes(strokes.as_slice(), self.baseline.as_slice()) {
            let current = copy_strokes(strokes.as_slice());
            redo.push(current);
            *strokes = copy_strokes(self.baseline.as_slice());
            assert(snapshots_view(redo@) =~= snapshots_view(old_redo).push(
                strokes_view(old(strokes)@),
            ));
        }
        self.undo = undo;
        self.redo = redo;
    }

    /// Steps `strokes` forward again by one undone change (see `after_redo`).
    pub fn redo(&mut self, strokes: &mut Vec<StrokeData>)
        ensures
            (final(self)@, strokes_view(final(strokes)@)) == after_redo(
                old(self)@,
                strokes_view(old(strokes)@),
            ),
            bounded(final(self)@),
    {
        proof {
            use_type_invariant(&*self);
        }
        let mut redo = Vec::new();
        std::mem::swap(&mut redo, &mut self.redo);
        let ghost old_redo = redo@;
        if let Some(next) = redo.pop() {
            assert(snapshots_view(redo@) =~= snapshots_view(old_redo).drop_last());
            let current = copy_strokes(strokes.as_slice());
            let mut undo = VecDeque::new();
            std::mem::swap(&mut undo, &mut self.undo);
            let mut baseline = Vec::new();
            std::mem::swap(&mut baseline, &mut self.baseline);
            let new_baseline = History::push_undo_bounded(&mut undo, baseline, current);
            self.undo = undo;
            self.baseline = new_baseline;
            *strokes = next;
        }
        self.redo = redo;
    }

    /// Whether an undo from `strokes` would change anything.
    pub fn can_undo(&self, strokes: &[StrokeData]) -> (r: bool)
        ensures
            r == undo_possible(self@, strokes_view(strokes@)),
    {
        self.undo.len() != 0 || !same_strokes(strokes, self.baseline.as_slice())
    }

    /// Whether there is an undone change to redo.
    pub fn can_redo(&self) -> (r: bool)
        ensures
            r == redo_possible(self@),
            bounded(self@),
    {
        proof {
            use_type_invariant(self);
        }
        self.redo.len() != 0
    }
}

impl Default for History {
    fn default() -> (h: Self)
        ensures
            h@ == empty_history(),
    {
        History::new()
    }
}

/// Undo followed by redo gives back the strokes that undo started from, and the redo
/// stack it started with; when undo restored a snapshot, the whole history is back too.
pub proof fn lemma_undo_then_redo(h: HistoryView, strokes: Seq<StrokeView>)
    requires
        bounded(h),
        undo_possible(h, strokes),
    ensures
        ({
            let (h1, s1) = after_undo(h, strokes);
            let (h2, s2) = after_redo(h1, s1);
            &&& redo_possible(h1)
            &&& s2 == strokes
            &&& h2.redo == h.redo
            &&& h.undo.len() > 0 ==> h2 == h
        }),
{
    let (h1, s1) = after_undo(h, strokes);
    if h.undo.len() > 0 {
        assert(h1.undo.push(s1) =~= h.undo);
        assert(h1.redo.drop_last() =~= h.redo);
    } else {
        assert(h1.redo.drop_last() =~= h.redo);
    }
}

/// Redo followed by undo gives back the strokes that redo started from, and the redo
/// stack it started with; unless the redo pushed the oldest snapshot out of the undo
/// stack, the whole history is back too.
pub proof fn lemma_redo_then_undo(h: HistoryView, strokes: Seq<StrokeView>)
    requires
        bounded(h),
        redo_possible(h),
    ensures
        ({
            let (h1, s1) = after_redo(h, strokes);
            let (h2, s2) = after_undo(h1, s1);
            &&& undo_possible(h1, s1)
            &&& s2 == strokes
            &&& h2.redo == h.redo
            &&& h.undo.len() < MAX_UNDO_STEPS ==> h2 == h
        }),
{
    let (h1, s1) = after_redo(h, strokes);
    assert(h1.redo.push(s1) =~= h.redo);
    if h.undo.len() < MAX_UNDO_STEPS {
        assert(h1.undo.drop_last() =~= h.undo);
    }
}

/// Undo after a snapshot of `before` gives back `before`, whatever the strokes have become
/// since, and keeps those strokes for redo.
pub proof fn lemma_snapshot_then_undo(h: HistoryView, before: Seq<StrokeView>, after: Seq<StrokeView>)
    requires
        bounded(h),
    ensures
        ({
            let (h2, s2) = after_undo(after_snapshot(h, before), after);
            &&& s2 == before
            &&& h2.redo == seq![after]
        }),
{
    let h1 = after_snapshot(h, before);
    assert(h1.redo.push(after) =~= seq![after]);
}

/// A snapshot forgets every undone change.
pub proof fn lemma_snapshot_clears_redo(h: HistoryView, strokes: Seq<StrokeView>)
    ensures
        !redo_possible(after_snapshot(h, strokes)),
{
}

/// Right after the baseline is set to some strokes, there is nothing to undo from them
/// and nothing to redo, as long as they compare equal to themselves (no NaN among their
/// coordinates and widths).
pub proof fn lemma_baseline_has_nothing_to_undo(strokes: Seq<StrokeView>)
    requires
        strokes_eq(strokes, strokes),
    ensures
        !undo_possible(after_set_baseline(strokes), strokes),
        !redo_possible(after_set_baseline(strokes)),
{
}

/// Undo and redo change nothing where they are not possible.
pub proof fn lemma_impossible_steps_change_nothing(h: HistoryView, strokes: Seq<StrokeView>)
    ensures
        !undo_possible(h, strokes) ==> after_undo(h, strokes) == (h, strokes),
        !redo_possible(h) ==> after_redo(h, strokes) == (h, strokes),
{
}

/// Every operation keeps the undo stack within `MAX_UNDO_STEPS` snapshots.
pub proof fn lemma_operations_keep_bound(h: HistoryView, strokes: Seq<StrokeView>)
    requires
        bounded(h),
    ensures
        bounded(after_set_baseline(strokes)),
        bounded(after_snapshot(h, strokes)),
        bounded(after_undo(h, strokes).0),
        bounded(after_redo(h, strokes).0),
{
}

/// With the undo stack full, a further snapshot moves the oldest snapshot into the
/// baseline, so an undo can still reach it.
pub proof fn lemma_full_stack_folds_into_baseline(h: HistoryView, strokes: Seq<StrokeView>)
    requires
        h.undo.len() == MAX_UNDO_STEPS,
    ensures
        after_snapshot(h, strokes).baseline == h.undo[0],
        after_snapshot(h, strokes).undo == h.undo.drop_first().push(strokes),
        after_snapshot(h, strokes).undo.len() == MAX_UNDO_STEPS,
{
    assert(h.undo.push(strokes).drop_first() =~= h.undo.drop_first().push(strokes));
}

} // verus!
