use alidraw::{
    same_strokes, BrushStyle, Document, History, StrokeData, Tool, MAX_UNDO_STEPS,
};

fn stroke(x: u32) -> StrokeData {
    let mut s = StrokeData::new([10, 20, 30, 255], 4.0f32.to_bits(), Tool::Brush, BrushStyle::Pencil);
    s.push_point((x, x));
    s
}

fn strokes(xs: &[u32]) -> Vec<StrokeData> {
    xs.iter().map(|&x| stroke(x)).collect()
}

#[test]
fn new_history_has_nothing_to_undo_or_redo() {
    let h = History::new();
    assert!(!h.can_undo(&[]));
    assert!(!h.can_redo());
    assert!(h.can_undo(&strokes(&[1])));
}

#[test]
fn snapshot_then_undo_restores_previous_strokes() {
    let mut h = History::new();
    let before = strokes(&[1]);
    h.snapshot(&before);
    let mut current = strokes(&[1, 2]);
    h.undo(&mut current);
    assert!(same_strokes(&current, &before));
    assert!(h.can_redo());
    h.redo(&mut current);
    assert!(same_strokes(&current, &strokes(&[1, 2])));
    assert!(!h.can_redo());
}

#[test]
fn undo_without_snapshot_falls_back_to_baseline() {
    let mut h = History::new();
    h.set_baseline(&strokes(&[7]));
    let mut current = strokes(&[7, 8]);
    assert!(h.can_undo(&current));
    h.undo(&mut current);
    assert!(same_strokes(&current, &strokes(&[7])));
    assert!(!h.can_undo(&current));
    // A further undo at the baseline changes nothing.
    h.undo(&mut current);
    assert!(same_strokes(&current, &strokes(&[7])));
    h.redo(&mut current);
    assert!(same_strokes(&current, &strokes(&[7, 8])));
}

#[test]
fn snapshot_clears_redo() {
    let mut h = History::new();
    h.snapshot(&[]);
    let mut current = strokes(&[1]);
    h.undo(&mut current);
    assert!(h.can_redo());
    h.snapshot(&current);
    assert!(!h.can_redo());
}

#[test]
fn set_baseline_clears_both_stacks() {
    let mut h = History::new();
    h.snapshot(&[]);
    let mut current = strokes(&[1]);
    h.undo(&mut current);
    h.set_baseline(&current);
    assert!(!h.can_undo(&current));
    assert!(!h.can_redo());
}

#[test]
fn undo_stack_is_bounded_and_oldest_folds_into_baseline() {
    let mut h = History::new();
    let mut current: Vec<StrokeData> = Vec::new();
    for i in 0..(MAX_UNDO_STEPS as u32 + 3) {
        h.snapshot(&current);
        current.push(stroke(i));
    }
    // Thirteen changes: the last ten snapshots stay undoable, then the baseline, the
    // state with two strokes that was folded in last.
    let mut undos = 0;
    while h.can_undo(&current) {
        h.undo(&mut current);
        undos += 1;
    }
    assert_eq!(undos, MAX_UNDO_STEPS + 1);
    assert_eq!(current.len(), 2);
    assert!(same_strokes(&current, &strokes(&[0, 1])));
}

#[test]
fn redo_then_undo_round_trip() {
    let mut h = History::new();
    h.snapshot(&strokes(&[1]));
    let mut current = strokes(&[1, 2]);
    h.undo(&mut current);
    let at = strokes(&[1]);
    h.redo(&mut current);
    h.undo(&mut current);
    assert!(same_strokes(&current, &at));
    assert!(h.can_redo());
}

#[test]
fn document_draw_then_undo() {
    let mut d = Document::new();
    let color = [1, 2, 3, 255];
    let width = 8.0f32.to_bits();
    d.append_point_to_stroke((1, 1), color, width, Tool::Brush, BrushStyle::Marker);
    d.append_point_to_stroke((1, 1), color, width, Tool::Brush, BrushStyle::Marker);
    d.append_point_to_stroke((2, 3), color, width, Tool::Brush, BrushStyle::Marker);
    assert_eq!(d.current_stroke().unwrap().point_count(), 2);
    assert!(d.finish_current_stroke());
    assert_eq!(d.strokes().len(), 1);
    assert!(d.current_stroke().is_none());
    assert!(d.can_undo());
    d.undo();
    assert_eq!(d.strokes().len(), 0);
    assert!(d.can_redo());
    d.redo();
    assert_eq!(d.strokes().len(), 1);
    assert_eq!(d.strokes()[0].point_count(), 2);
}

#[test]
fn document_undo_finishes_stroke_in_progress() {
    let mut d = Document::new();
    d.append_point_to_stroke((5, 5), [0, 0, 0, 255], 2.0f32.to_bits(), Tool::Eraser, BrushStyle::Watercolor);
    d.undo();
    assert_eq!(d.strokes().len(), 0);
    assert!(d.current_stroke().is_none());
    d.redo();
    assert_eq!(d.strokes().len(), 1);
}

#[test]
fn empty_stroke_is_dropped_on_finish() {
    let mut d = Document::new();
    d.begin_stroke_if_needed([0, 0, 0, 255], 2.0f32.to_bits(), Tool::Brush, BrushStyle::Pencil);
    assert!(d.current_stroke().is_some());
    assert!(!d.finish_current_stroke());
    assert!(d.current_stroke().is_none());
    assert!(d.has_no_strokes());
    assert!(!d.can_undo());
}

#[test]
fn clear_drawing_only_when_something_to_clear() {
    let mut d = Document::new();
    assert!(!d.clear_drawing(false));
    assert!(d.clear_drawing(true));
    d.append_point_to_stroke((1, 2), [9, 9, 9, 255], 2.0f32.to_bits(), Tool::Brush, BrushStyle::Pencil);
    // The stroke in progress is not committed yet, but clearing finishes it first.
    assert!(d.is_blank(false));
    assert!(d.clear_drawing(false));
    assert!(d.is_blank(false));
    assert!(!d.can_undo());
    assert!(!d.can_redo());
}

#[test]
fn finishing_twice_is_finishing_once() {
    let mut d = Document::new();
    d.append_point_to_stroke((1, 1), [0, 0, 0, 255], 2.0f32.to_bits(), Tool::Brush, BrushStyle::Pencil);
    assert!(d.finish_current_stroke());
    assert!(!d.finish_current_stroke());
    assert_eq!(d.strokes().len(), 1);
    d.undo();
    assert_eq!(d.strokes().len(), 0);
}

#[test]
fn canvas_input_per_frame() {
    let mut d = Document::new();
    let color = [5, 6, 7, 255];
    let width = 4.0f32.to_bits();
    // blocked: nothing happens
    assert!(!d.canvas_input(true, true, Some((1, 1)), color, width, Tool::Brush, BrushStyle::Pencil));
    assert!(d.current_stroke().is_none());
    // pressed without a position: nothing drawn yet
    assert!(!d.canvas_input(false, true, None, color, width, Tool::Brush, BrushStyle::Pencil));
    assert!(d.current_stroke().is_none());
    // pressed: points go into the stroke in progress
    assert!(!d.canvas_input(false, true, Some((1, 1)), color, width, Tool::Brush, BrushStyle::Pencil));
    assert!(!d.canvas_input(false, true, Some((2, 2)), color, width, Tool::Brush, BrushStyle::Pencil));
    assert_eq!(d.current_stroke().unwrap().point_count(), 2);
    // released: the stroke is committed
    assert!(d.canvas_input(false, false, None, color, width, Tool::Brush, BrushStyle::Pencil));
    assert_eq!(d.strokes().len(), 1);
    assert!(!d.canvas_input(false, false, None, color, width, Tool::Brush, BrushStyle::Pencil));
}

#[test]
fn baseline_with_nan_can_still_be_undone_to() {
    let mut h = History::new();
    let mut s = StrokeData::new([0, 0, 0, 255], f32::NAN.to_bits(), Tool::Brush, BrushStyle::Pencil);
    s.push_point((1, 1));
    let strokes = vec![s];
    h.set_baseline(&strokes);
    // a NaN width never compares equal, so the strokes differ from the baseline
    assert!(h.can_undo(&strokes));
}
