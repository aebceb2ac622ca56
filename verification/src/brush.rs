use vstd::prelude::*;

verus! {

/// The tool that new strokes are drawn with.
#[derive(Debug, Clone, Copy, PartialEq, Eq, Structural)]
pub enum Tool {
    Brush,
    Eraser,
}

impl Default for Tool {
    fn default() -> (tool: Self)
        ensures
            tool == Tool::Brush,
    {
        Tool::Brush
    }
}

impl Tool {
    /// Whether this is the eraser.
    pub fn is_eraser(self) -> (r: bool)
        ensures
            r == (self == Tool::Eraser),
    {
        match self {
            Tool::Eraser => true,
            Tool::Brush => false,
        }
    }
}

/// Whether a stroke paints colour or erases back to the canvas colour.
#[derive(Debug, Clone, Copy, PartialEq, Eq, Structural)]
pub enum StrokeKind {
    Draw,
    Erase,
}

/// The look of a brush stroke.
#[derive(Debug, Clone, Copy, PartialEq, Eq, Structural)]
pub enum BrushStyle {
    Pencil,
    Marker,
    Watercolor,
}

impl Default for BrushStyle {
    fn default() -> (style: Self)
        ensures
            style == BrushStyle::Pencil,
    {
        BrushStyle::Pencil
    }
}

/// Everything a stroke needs to be painted, besides its points.
///
/// `color` holds the red, green, blue and alpha components as stored (premultiplied),
/// and `width_bits` the bit pattern of the base width in pixels, an `f32`.
#[derive(Debug, Clone, Copy)]
pub struct BrushSpec {
    pub color: [u8; 4],
    pub width_bits: u32,
    pub style: BrushStyle,
    pub kind: StrokeKind,
}

/// Whether the bit pattern `b` of an `f32` is a NaN: all exponent bits set and a
/// mantissa that is not zero.
pub open spec fn is_nan_bits(b: u32) -> bool {
    (b & 0x7fff_ffffu32) > 0x7f80_0000u32
}

/// Whether the `f32` values with bit patterns `a` and `b` compare equal with `==`: a NaN
/// equals nothing, positive and negative zero are equal, and any other two values are
/// equal exactly when their bit patterns are.
pub open spec fn f32_bits_eq(a: u32, b: u32) -> bool {
    &&& !is_nan_bits(a)
    &&& !is_nan_bits(b)
    &&& (a == b || ((a & 0x7fff_ffffu32) == 0 && (b & 0x7fff_ffffu32) == 0))
}

/// Whether the `f32` values with bit patterns `a` and `b` compare equal with `==`.
pub fn f32_bits_equal(a: u32, b: u32) -> (r: bool)
    ensures
        r == f32_bits_eq(a, b),
{
    let ma = a & 0x7fff_ffffu32;
    let mb = b & 0x7fff_ffffu32;
    ma <= 0x7f80_0000u32 && mb <= 0x7f80_0000u32 && (a == b || (ma == 0 && mb == 0))
}

/// Whether two brushes are equal as values: the same colour, style and kind, and widths
/// equal as single-precision numbers.
pub open spec fn brush_eq(a: BrushSpec, b: BrushSpec) -> bool {
    &&& a.color == b.color
    &&& f32_bits_eq(a.width_bits, b.width_bits)
    &&& a.style == b.style
    &&& a.kind == b.kind
}

/// The opacity with which a drawing stroke of the given style is painted.
pub open spec fn style_alpha(style: BrushStyle) -> u8 {
    match style {
        BrushStyle::Pencil => 255,
        BrushStyle::Marker => 170,
        BrushStyle::Watercolor => 105,
    }
}

/// The colour with which a stroke is painted: opaque white for the eraser, else the
/// stored red, green and blue with the style's opacity.
pub open spec fn painted_color(style: BrushStyle, kind: StrokeKind, color: [u8; 4]) -> (
    u8,
    u8,
    u8,
    u8,
) {
    if kind == StrokeKind::Erase {
        (255, 255, 255, 255)
    } else {
        (color[0], color[1], color[2], style_alpha(style))
    }
}

impl BrushSpec {
    /// The colour exactly as stored, with no mapping for the eraser.
    pub fn stored_color(self) -> (c: [u8; 4])
        ensures
            c == self.color,
    {
        self.color
    }

    /// Whether two brush specifications are equal as values: the same colour, style and
    /// kind, and widths equal as single-precision numbers.
    pub fn same_as(&self, other: &BrushSpec) -> (r: bool)
        ensures
            r == brush_eq(*self, *other),
    {
        let eq = self.color[0] == other.color[0] && self.color[1] == other.color[1]
            && self.color[2] == other.color[2] && self.color[3] == other.color[3];
        proof {
            if eq {
                assert(self.color@ =~= other.color@);
                vstd::array::axiom_array_ext_equal(self.color, other.color);
            }
        }
        eq && f32_bits_equal(self.width_bits, other.width_bits) && self.style == other.style
            && self.kind == other.kind
    }
}

/// The RGBA colour with which a stroke of this style, kind and stored colour is painted.
pub fn color_for_style(style: BrushStyle, kind: StrokeKind, color: [u8; 4]) -> (rgba: (
    u8,
    u8,
    u8,
    u8,
))
    ensures
        rgba == painted_color(style, kind, color),
        kind == StrokeKind::Erase ==> rgba == (255u8, 255u8, 255u8, 255u8),
        kind == StrokeKind::Draw ==> rgba.0 == color[0] && rgba.1 == color[1] && rgba.2 == color[2],
        kind == StrokeKind::Draw && style == BrushStyle::Pencil ==> rgba.3 == 255,
        kind == StrokeKind::Draw && style == BrushStyle::Marker ==> rgba.3 == 170,
        kind == StrokeKind::Draw && style == BrushStyle::Watercolor ==> rgba.3 == 105,
{
    if kind == StrokeKind::Erase {
        return (255, 255, 255, 255);
    }
    match style {
        BrushStyle::Pencil => (color[0], color[1], color[2], 255),
        BrushStyle::Marker => (color[0], color[1], color[2], 170),
        BrushStyle::Watercolor => (color[0], color[1], color[2], 105),
    }
}

/// An erasing stroke is painted opaque white, whatever its style and stored colour; a
/// drawing stroke keeps the stored red, green and blue, with an opacity that only the
/// style decides and that only the pencil leaves fully opaque.
pub proof fn lemma_painted_colors(style: BrushStyle, color: [u8; 4], other: [u8; 4])
    ensures
        painted_color(style, StrokeKind::Erase, color) == (255u8, 255u8, 255u8, 255u8),
        painted_color(style, StrokeKind::Draw, color).0 == color[0],
        painted_color(style, StrokeKind::Draw, color).1 == color[1],
        painted_color(style, StrokeKind::Draw, color).2 == color[2],
        painted_color(style, StrokeKind::Draw, color).3 == painted_color(style, StrokeKind::Draw, other).3,
        (painted_color(style, StrokeKind::Draw, color).3 == 255) == (style == BrushStyle::Pencil),
{
}

} // verus!
