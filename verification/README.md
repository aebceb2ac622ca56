# alidraw

A small finger-painting program for the desktop, built on egui.

- `src/` is the verified library: brushes and strokes, the bounded undo/redo
  history, the document being drawn (committed strokes, the stroke in progress and
  their history), the confirmation flow for quitting, starting over and opening an
  image, the toolbar icon glyphs, the window icon, and the byte-level pixel
  conversions used when images are opened and saved. Every function there carries a
  contract that Verus proves, except the one call into lucide-icons (looking a glyph
  up by icon name), whose contract is assumed; the laws of the history, the document,
  the confirmation flow and the pixel conversions are proof functions beside them.
- `app/` is the program around it: the egui window and toolbar, rasterising strokes
  with tiny-skia, file dialogs, and reading and writing image files.
- `tests/` exercises the library on concrete values.
