//! The drawing model of a small paint program: brushes and strokes, a bounded
//! undo/redo history, the document that ties them together, the confirmation flow of
//! the window, and the pixel conversions used when images are loaded and saved.

pub mod app_icon;
pub mod brush;
pub mod canvas;
pub mod document;
pub mod export;
pub mod history;
pub mod icons;
pub mod palette;
pub mod pixels;
pub mod session;

pub use app_icon::{corner_alpha, generate_rainbow_icon, ICON_CORNER_RADIUS, ICON_SIZE};
pub use brush::{color_for_style, BrushSpec, BrushStyle, StrokeKind, Tool};
pub use canvas::{copy_strokes, same_strokes, Point, StrokeData, StrokeView};
pub use document::{Document, DocumentView};
pub use export::{pixels_for_format, ExportFormat};
pub use history::{History, HistoryView, MAX_UNDO_STEPS};
pub use icons::{icon_glyph, lucide_icon, ToolbarIcon};
pub use palette::rainbow;
pub use pixels::{premultiply_rgba, rgba_to_rgb_over_white, unpremultiply_rgba};
pub use session::{ConfirmResponse, PendingDialog, Session};
