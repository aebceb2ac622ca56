use alidraw::{color_for_style, BrushSpec, BrushStyle, StrokeData, StrokeKind, Tool};

#[test]
fn eraser_strokes_erase_in_pencil_style() {
    let s = StrokeData::new([1, 2, 3, 4], 10.0f32.to_bits(), Tool::Eraser, BrushStyle::Marker);
    let b = s.brush_spec();
    assert_eq!(b.kind, StrokeKind::Erase);
    assert_eq!(b.style, BrushStyle::Pencil);
    assert_eq!(b.stored_color(), [1, 2, 3, 4]);
    assert_eq!(f32::from_bits(b.width_bits), 10.0);
}

#[test]
fn brush_strokes_keep_style() {
    let s = StrokeData::new([1, 2, 3, 4], 10.0f32.to_bits(), Tool::Brush, BrushStyle::Watercolor);
    assert_eq!(s.brush_spec().kind, StrokeKind::Draw);
    assert_eq!(s.brush_spec().style, BrushStyle::Watercolor);
    assert_eq!(s.point_count(), 0);
    assert_eq!(s.first_point(), None);
}

#[test]
fn repeated_points_are_dropped() {
    let mut s = StrokeData::new([0, 0, 0, 255], 1.0f32.to_bits(), Tool::Brush, BrushStyle::Pencil);
    s.push_point((1, 2));
    s.push_point((1, 2));
    s.push_point((3, 4));
    s.push_point((1, 2));
    assert_eq!(s.points(), vec![(1, 2), (3, 4), (1, 2)]);
    assert_eq!(s.first_point(), Some((1, 2)));
    assert_eq!(s.point_at(1), Some((3, 4)));
    assert_eq!(s.point_at(3), None);
}

#[test]
fn duplicate_and_compare() {
    let mut s = StrokeData::new([0, 0, 0, 255], 1.0f32.to_bits(), Tool::Brush, BrushStyle::Pencil);
    s.push_point((1, 2));
    let t = s.duplicate();
    assert!(s.same_as(&t));
    let mut u = t.duplicate();
    u.push_point((5, 5));
    assert!(!s.same_as(&u));
}

#[test]
fn brush_spec_equality() {
    let a = BrushSpec { color: [1, 2, 3, 4], width_bits: 7, style: BrushStyle::Pencil, kind: StrokeKind::Draw };
    let mut b = a;
    assert!(a.same_as(&b));
    b.color[3] = 5;
    assert!(!a.same_as(&b));
}

#[test]
fn colors_by_style() {
    let c = [10, 20, 30, 40];
    assert_eq!(color_for_style(BrushStyle::Pencil, StrokeKind::Draw, c), (10, 20, 30, 255));
    assert_eq!(color_for_style(BrushStyle::Marker, StrokeKind::Draw, c), (10, 20, 30, 170));
    assert_eq!(color_for_style(BrushStyle::Watercolor, StrokeKind::Draw, c), (10, 20, 30, 105));
    assert_eq!(color_for_style(BrushStyle::Marker, StrokeKind::Erase, c), (255, 255, 255, 255));
}

#[test]
fn tool_is_eraser() {
    assert!(Tool::Eraser.is_eraser());
    assert!(!Tool::Brush.is_eraser());
    assert_eq!(Tool::default(), Tool::Brush);
    assert_eq!(BrushStyle::default(), BrushStyle::Pencil);
}

#[test]
fn points_compare_as_floats() {
    let mut s = StrokeData::new([0, 0, 0, 255], 1.0f32.to_bits(), Tool::Brush, BrushStyle::Pencil);
    let zero = 0.0f32.to_bits();
    let neg_zero = (-0.0f32).to_bits();
    let nan = f32::NAN.to_bits();
    s.push_point((zero, zero));
    // -0.0 == 0.0, so this repeats the last point and is dropped
    s.push_point((neg_zero, zero));
    assert_eq!(s.point_count(), 1);
    // NaN equals nothing, so a repeated NaN point is kept
    s.push_point((nan, zero));
    s.push_point((nan, zero));
    assert_eq!(s.point_count(), 3);
    // and a stroke holding NaN does not compare equal to its copy
    assert!(!s.same_as(&s.duplicate()));
}

#[test]
fn brush_widths_compare_as_floats() {
    let a = BrushSpec { color: [1, 2, 3, 4], width_bits: 0.0f32.to_bits(), style: BrushStyle::Pencil, kind: StrokeKind::Draw };
    let mut b = a;
    b.width_bits = (-0.0f32).to_bits();
    assert!(a.same_as(&b));
    b.width_bits = f32::NAN.to_bits();
    assert!(!b.same_as(&b));
}
