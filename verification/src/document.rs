use vstd::prelude::*;

use crate::brush::{BrushStyle, Tool};
use crate::canvas::{brush_for, points_after, strokes_view, Point, StrokeData, StrokeView};
use crate::history::{
    bounded, after_redo, after_set_baseline, after_snapshot, after_undo, empty_history, lemma_snapshot_then_undo,
    redo_possible, undo_possible, History, HistoryView,
};

verus! {

/// The drawing being edited: the committed strokes, the stroke in progress, if any,
/// and the undo/redo history of the committed strokes.
#[derive(Debug)]
pub struct Document {
    strokes: Vec<StrokeData>,
    current_stroke: Option<StrokeData>,
    history: History,
}

/// A document as a value.
#[verifier::ext_equal]
pub struct DocumentView {
    pub strokes: Seq<StrokeView>,
    pub current: Option<StrokeView>,
    pub history: HistoryView,
}

impl View for Document {
    type V = DocumentView;

    closed spec fn view(&self) -> DocumentView {
        DocumentView {
            strokes: strokes_view(self.strokes@),
            current: match self.current_stroke {
                Some(s) => Some(s@),
                None => None,
            },
            history: self.history@,
        }
    }
}

/// Whether `d` has a stroke in progress with at least one point.
pub open spec fn has_pending_points(d: DocumentView) -> bool {
    d.current is Some && d.current->0.points.len() > 0
}

/// The document after the stroke in progress is finished: a stroke with points is
/// recorded in the history and appended; a stroke without points is dropped.
pub open spec fn after_finish(d: DocumentView) -> DocumentView {
    if has_pending_points(d) {
        DocumentView {
            strokes: d.strokes.push(d.current->0),
            current: None,
            history: after_snapshot(d.history, d.strokes),
        }
    } else {
        DocumentView { strokes: d.strokes, current: None, history: d.history }
    }
}

/// The document after an undo: the stroke in progress is finished first.
pub open spec fn after_document_undo(d: DocumentView) -> DocumentView {
    let f = after_finish(d);
    let (h, s) = after_undo(f.history, f.strokes);
    DocumentView { strokes: s, current: None, history: h }
}

/// The document after a redo: the stroke in progress is finished first.
pub open spec fn after_document_redo(d: DocumentView) -> DocumentView {
    let f = after_finish(d);
    let (h, s) = after_redo(f.history, f.strokes);
    DocumentView { strokes: s, current: None, history: h }
}

/// The document with a stroke in progress: the current one, or a fresh one with the
/// brush of the given tool.
pub open spec fn after_begin(d: DocumentView, color: [u8; 4], width_bits: u32, tool: Tool, style: BrushStyle) -> DocumentView {
    if d.current is Some {
        d
    } else {
        DocumentView {
            current: Some(StrokeView { points: Seq::empty(), brush: brush_for(color, width_bits, tool, style) }),
            ..d
        }
    }
}

/// The document after the pointer reports `point` while drawing.
pub open spec fn after_append(d: DocumentView, point: Point, color: [u8; 4], width_bits: u32, tool: Tool, style: BrushStyle) -> DocumentView {
    let b = after_begin(d, color, width_bits, tool, style);
    let s = b.current->0;
    DocumentView { current: Some(StrokeView { points: points_after(s.points, point), brush: s.brush }), ..b }
}

/// A blank document whose history starts from nothing.
pub open spec fn blank_document() -> DocumentView {
    DocumentView { strokes: Seq::empty(), current: None, history: after_set_baseline(Seq::empty()) }
}

impl Document {
    /// An empty document.
    pub fn new() -> (d: Self)
        ensures
            d@.strokes == Seq::<StrokeView>::empty(),
            d@.current == None::<StrokeView>,
            d@.history == empty_history(),
    {
        let d = Document { strokes: Vec::new(), current_stroke: None, history: History::new() };
        assert(d@.strokes =~= Seq::<StrokeView>::empty());
        d
    }

    /// The committed strokes.
    pub fn strokes(&self) -> (s: &[StrokeData])
        ensures
            strokes_view(s@) == self@.strokes,
    {
        self.strokes.as_slice()
    }

    /// The stroke in progress.
    pub fn current_stroke(&self) -> (s: Option<&StrokeData>)
        ensures
            match s {
                Some(st) => self@.current == Some(st@),
                None => self@.current == None::<StrokeView>,
            },
    {
        match &self.current_stroke {
            Some(st) => Some(st),
            None => None,
        }
    }

    /// Whether there are no committed strokes.
    pub fn has_no_strokes(&self) -> (r: bool)
        ensures
            r == (self@.strokes.len() == 0),
    {
        self.strokes.len() == 0
    }

    /// Whether there is nothing on the canvas: no committed stroke and, as
    /// `has_background` says, no background image.
    pub fn is_blank(&self, has_background: bool) -> (r: bool)
        ensures
            r == (self@.strokes.len() == 0 && !has_background),
    {
        self.strokes.len() == 0 && !has_background
    }

    /// Starts a stroke with the brush of `tool` and `style`, unless one is in progress.
    pub fn begin_stroke_if_needed(&mut self, color: [u8; 4], width_bits: u32, tool: Tool, style: BrushStyle)
        ensures
            bounded(final(self)@.history),
            final(self)@ == after_begin(old(self)@, color, width_bits, tool, style),
    {
        proof {
            use_type_invariant(&self.history);
            self.history.lemma_invariant_is_bound();
        }
        if self.current_stroke.is_none() {
            self.current_stroke = Some(StrokeData::new(color, width_bits, tool, style));
        }
    }

    /// Adds `point` to the stroke in progress, starting one first where needed.
    pub fn append_point_to_stroke(&mut self, point: Point, color: [u8; 4], width_bits: u32, tool: Tool, style: BrushStyle)
        ensures
            bounded(final(self)@.history),
            final(self)@ == after_append(old(self)@, point, color, width_bits, tool, style),
    {
        proof {
            use_type_invariant(&self.history);
            self.history.lemma_invariant_is_bound();
        }
        self.begin_stroke_if_needed(color, width_bits, tool, style);
        match self.current_stroke.take() {
            Some(mut stroke) => {
                stroke.push_point(point);
                self.current_stroke = Some(stroke);
            },
            None => {},
        }
    }

    /// One frame of pointer input on the canvas. While a confirmation blocks the canvas
    /// nothing happens; while the pointer is pressed on it, its position, where known,
    /// is added to the stroke in progress; otherwise the stroke in progress is finished.
    /// Returns whether a stroke was committed.
    pub fn canvas_input(
        &mut self,
        blocked: bool,
        pressed: bool,
        position: Option<Point>,
        color: [u8; 4],
        width_bits: u32,
        tool: Tool,
        style: BrushStyle,
    ) -> (committed: bool)
        ensures
            bounded(final(self)@.history),
            blocked ==> !committed && final(self)@ == old(self)@,
            !blocked && pressed ==> !committed && final(self)@ == match position {
                Some(p) => after_append(old(self)@, p, color, width_bits, tool, style),
                None => old(self)@,
            },
            !blocked && !pressed ==> committed == has_pending_points(old(self)@) && final(self)@
                == after_finish(old(self)@),
    {
        proof {
            use_type_invariant(&self.history);
            self.history.lemma_invariant_is_bound();
        }
        if blocked {
            return false;
        }
        if pressed {
            if let Some(p) = position {
                self.append_point_to_stroke(p, color, width_bits, tool, style);
            }
            false
        } else {
            self.finish_current_stroke()
        }
    }

    /// Ends the stroke in progress; returns whether a stroke was committed, which is
    /// when it had at least one point.
    pub fn finish_current_stroke(&mut self) -> (committed: bool)
        ensures
            bounded(final(self)@.history),
            committed == has_pending_points(old(self)@),
            final(self)@ == after_finish(old(self)@),
            committed ==> final(self)@.strokes.len() == old(self)@.strokes.len() + 1
                && final(self)@.strokes.subrange(0, old(self)@.strokes.len() as int) == old(self)@.strokes
                && final(self)@.strokes.last() == old(self)@.current->0,
            !committed ==> final(self)@.strokes == old(self)@.strokes,
            final(self)@.current == None::<StrokeView>,
    {
        proof {
            use_type_invariant(&self.history);
            self.history.lemma_invariant_is_bound();
        }
        match self.current_stroke.take() {
            Some(stroke) => {
                if stroke.point_count() > 0 {
                    let ghost before = strokes_view(self.strokes@);
                    self.history.snapshot(self.strokes.as_slice());
                    self.strokes.push(stroke);
                    assert(strokes_view(self.strokes@) =~= before.push(stroke@));
                    true
                } else {
                    false
                }
            },
            None => false,
        }
    }

    /// Finishes the stroke in progress, then undoes one step.
    pub fn undo(&mut self)
        ensures
            bounded(final(self)@.history),
            final(self)@ == after_document_undo(old(self)@),
    {
        proof {
            use_type_invariant(&self.history);
            self.history.lemma_invariant_is_bound();
        }
        self.finish_current_stroke();
        self.history.undo(&mut self.strokes);
    }

    /// Finishes the stroke in progress, then redoes one step.
    pub fn redo(&mut self)
        ensures
            bounded(final(self)@.history),
            final(self)@ == after_document_redo(old(self)@),
    {
        proof {
            use_type_invariant(&self.history);
            self.history.lemma_invariant_is_bound();
        }
        self.finish_current_stroke();
        self.history.redo(&mut self.strokes);
    }

    /// Whether an undo would change the committed strokes.
    pub fn can_undo(&self) -> (r: bool)
        ensures
            r == undo_possible(self@.history, self@.strokes),
    {
        self.history.can_undo(self.strokes.as_slice())
    }

    /// Whether there is an undone step to redo.
    pub fn can_redo(&self) -> (r: bool)
        ensures
            r == redo_possible(self@.history),
    {
        self.history.can_redo()
    }

    /// Drops every stroke and starts the history afresh from the blank canvas.
    pub fn discard_all(&mut self)
        ensures
            bounded(final(self)@.history),
            final(self)@ == blank_document(),
    {
        proof {
            use_type_invariant(&self.history);
            self.history.lemma_invariant_is_bound();
        }
        self.history.set_baseline(&[]);
        self.strokes.clear();
        self.current_stroke = None;
        assert(strokes_view(self.strokes@) =~= Seq::<StrokeView>::empty());
        assert(self@.history.baseline =~= Seq::<StrokeView>::empty());
    }

    /// Finishes the stroke in progress and, where there is anything to clear (strokes,
    /// or a background image as `has_background` says), discards it all; returns whether
    /// it did.
    pub fn clear_drawing(&mut self, has_background: bool) -> (cleared: bool)
        ensures
            bounded(final(self)@.history),
            cleared == (after_finish(old(self)@).strokes.len() > 0 || has_background),
            final(self)@ == (if cleared { blank_document() } else { after_finish(old(self)@) }),
    {
        proof {
            use_type_invariant(&self.history);
            self.history.lemma_invariant_is_bound();
        }
        self.finish_current_stroke();
        if self.is_blank(has_background) {
            return false;
        }
        self.discard_all();
        true
    }
}

impl Default for Document {
    fn default() -> (d: Self)
        ensures
            d@.strokes == Seq::<StrokeView>::empty(),
            d@.current == None::<StrokeView>,
            d@.history == empty_history(),
    {
        Document::new()
    }
}

/// Drawing a stroke and then undoing gives back the strokes from before the stroke.
pub proof fn lemma_draw_then_undo(d: DocumentView)
    requires
        bounded(d.history),
        has_pending_points(d),
    ensures
        after_document_undo(after_finish(d)).strokes == d.strokes,
        after_document_undo(d).strokes == d.strokes,
{
    let f = after_finish(d);
    lemma_snapshot_then_undo(d.history, d.strokes, f.strokes);
}

/// Finishing a stroke with points puts it on top of the committed strokes: they keep
/// their order and the finished stroke comes last, so it is painted over them. Without
/// points nothing is committed. Either way nothing is left in progress.
pub proof fn lemma_finish_appends_on_top(d: DocumentView)
    ensures
        has_pending_points(d) ==> {
            let f = after_finish(d);
            &&& f.strokes.len() == d.strokes.len() + 1
            &&& forall|i: int| 0 <= i < d.strokes.len() ==> f.strokes[i] == d.strokes[i]
            &&& f.strokes[d.strokes.len() as int] == d.current->0
        },
        !has_pending_points(d) ==> after_finish(d).strokes == d.strokes,
        after_finish(d).current == None::<StrokeView>,
{
}

/// A fresh stroke started on a document with none in progress gets exactly the colour
/// and width it is given, and holds just the reported point.
pub proof fn lemma_append_starts_with_given_brush(
    d: DocumentView,
    point: Point,
    color: [u8; 4],
    width_bits: u32,
    tool: Tool,
    style: BrushStyle,
)
    requires
        d.current is None,
    ensures
        after_append(d, point, color, width_bits, tool, style).current->0.brush.color == color,
        after_append(d, point, color, width_bits, tool, style).current->0.brush.width_bits == width_bits,
        after_append(d, point, color, width_bits, tool, style).current->0.points == seq![point],
        after_append(d, point, color, width_bits, tool, style).strokes == d.strokes,
{
    assert(Seq::<Point>::empty().push(point) =~= seq![point]);
}

/// Finishing twice is the same as finishing once: after the first, nothing is in
/// progress.
pub proof fn lemma_finish_is_idempotent(d: DocumentView)
    ensures
        after_finish(after_finish(d)) == after_finish(d),
{
}

} // verus!
