use vstd::prelude::*;

verus! {

/// The icons shown on the toolbar buttons.
#[derive(Debug, Clone, Copy, PartialEq, Eq, Structural)]
pub enum ToolbarIcon {
    Brush,
    Eraser,
    Pencil,
    Marker,
    Watercolor,
    Undo,
    Redo,
    Save,
    Open,
    New,
    Quit,
}

/// The name of the lucide icon drawn for each toolbar icon.
pub open spec fn lucide_name(icon: ToolbarIcon) -> Seq<char> {
    match icon {
        ToolbarIcon::Brush => "paintbrush"@,
        ToolbarIcon::Eraser => "eraser"@,
        ToolbarIcon::Pencil => "pencil"@,
        ToolbarIcon::Marker => "highlighter"@,
        ToolbarIcon::Watercolor => "droplets"@,
        ToolbarIcon::Undo => "undo-2"@,
        ToolbarIcon::Redo => "redo-2"@,
        ToolbarIcon::Save => "save"@,
        ToolbarIcon::Open => "folder-open"@,
        ToolbarIcon::New => "file-plus"@,
        ToolbarIcon::Quit => "power"@,
    }
}

/// The code point that the lucide font uses for the icon of each toolbar icon.
pub open spec fn toolbar_glyph(icon: ToolbarIcon) -> char {
    match icon {
        ToolbarIcon::Brush => '\u{e2e7}',
        ToolbarIcon::Eraser => '\u{e28f}',
        ToolbarIcon::Pencil => '\u{e1f9}',
        ToolbarIcon::Marker => '\u{e0f4}',
        ToolbarIcon::Watercolor => '\u{e0b5}',
        ToolbarIcon::Undo => '\u{e2a1}',
        ToolbarIcon::Redo => '\u{e2a0}',
        ToolbarIcon::Save => '\u{e14d}',
        ToolbarIcon::Open => '\u{e247}',
        ToolbarIcon::New => '\u{e0c9}',
        ToolbarIcon::Quit => '\u{e140}',
    }
}

/// The glyph of the lucide icon with the given name, if there is one by that name.
pub uninterp spec fn lucide_glyph(name: Seq<char>) -> Option<char>;

/// Looks the icon up by name with `lucide_icons::Icon::try_from(&str)` and takes its
/// glyph with `char::from(lucide_icons::Icon)`.
///
/// Claimed of the crate: the result depends on the name alone (`lucide_glyph`), and for
/// the lucide names of the toolbar icons it is the glyph that the crate's table lists
/// for them (`toolbar_glyph`). What it gives for other names is left unsaid.
#[verifier::external_body]
fn lucide_glyph_by_name(name: &str) -> (glyph: Option<char>)
    ensures
        glyph == lucide_glyph(name@),
        forall|icon: ToolbarIcon| name@ == #[trigger] lucide_name(icon) ==> glyph == Some(toolbar_glyph(icon)),
{
    lucide_icons::Icon::try_from(name).ok().map(char::from)
}

/// The lucide icon drawn for a toolbar icon, by its lucide name.
pub fn lucide_icon(icon: ToolbarIcon) -> (name: &'static str)
    ensures
        name@ == lucide_name(icon),
{
    match icon {
        ToolbarIcon::Brush => "paintbrush",
        ToolbarIcon::Eraser => "eraser",
        ToolbarIcon::Pencil => "pencil",
        ToolbarIcon::Marker => "highlighter",
        ToolbarIcon::Watercolor => "droplets",
        ToolbarIcon::Undo => "undo-2",
        ToolbarIcon::Redo => "redo-2",
        ToolbarIcon::Save => "save",
        ToolbarIcon::Open => "folder-open",
        ToolbarIcon::New => "file-plus",
        ToolbarIcon::Quit => "power",
    }
}

/// The glyph character of a toolbar icon in the lucide font.
pub fn icon_glyph(icon: ToolbarIcon) -> (glyph: char)
    ensures
        Some(glyph) == lucide_glyph(lucide_name(icon)),
        glyph == toolbar_glyph(icon),
{
    let name = lucide_icon(icon);
    let found = lucide_glyph_by_name(name);
    assert(name@ == lucide_name(icon));
    found.unwrap()
}

} // verus!
