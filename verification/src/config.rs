//! The settings that the composition reads, as plain values, and their
//! defaults.

use vstd::prelude::*;

verus! {

/// Blank space on the four sides of a block, in lines and columns.
#[derive(Clone, Copy, Debug, PartialEq, Eq, Structural)]
pub struct Padding {
    pub top: u8,
    pub bottom: u8,
    pub left: u8,
    pub right: u8,
}

/// The space between the art and the text, and the padding inside and
/// outside the border.
#[derive(Clone, Copy, Debug, PartialEq, Eq, Structural)]
pub struct Spacing {
    pub middle_padding: u8,
    pub inner_padding: Padding,
    pub outer_padding: Padding,
}

/// The six glyphs that a border is drawn with.
#[derive(Clone, Copy, Debug, PartialEq, Eq, Structural)]
pub struct BorderChars {
    pub top_left: char,
    pub top_right: char,
    pub bottom_left: char,
    pub bottom_right: char,
    pub horizontal: char,
    pub vertical: char,
}

/// The border: whether there is one, its colour as tag text, its glyphs.
#[derive(Clone, Debug)]
pub struct Border {
    pub enabled: bool,
    pub ansi_color: String,
    pub border_chars: BorderChars,
}

/// What draws the art.
#[derive(Clone, Copy, Debug, PartialEq, Eq, Structural)]
pub enum Engine {
    /// Text art.
    Ascii,
    /// An image, sent with the terminal-graphics protocol.
    Kitty,
    /// No art at all.
    Disabled,
}

/// Where a block goes in the room that is left across the placement.
#[derive(Clone, Copy, Debug, PartialEq, Eq, Structural)]
pub enum Alignment {
    Left,
    Center,
    Right,
    Top,
    Bottom,
}

/// The side of the text on which the art stands.
#[derive(Clone, Copy, Debug, PartialEq, Eq, Structural)]
pub enum ArtPlacement {
    Top,
    Bottom,
    Left,
    Right,
}

/// The size of the text art.
#[derive(Clone, Copy, Debug, PartialEq, Eq, Structural)]
pub enum AsciiSize {
    Small,
    Big,
}

/// The engine, and the image that the image engine shows, with its width
/// in columns.
#[derive(Clone, Debug)]
pub struct AsciiArtBackend {
    pub engine: Engine,
    pub image_path: String,
    pub image_width: u16,
}

/// The art: its size, its place, its alignment, what draws it, and a file
/// to take it from in place of the built-in art.
#[derive(Clone, Debug)]
pub struct AsciiArt {
    pub size: AsciiSize,
    pub placement: ArtPlacement,
    pub alignment: Alignment,
    pub backend: AsciiArtBackend,
    pub ascii_art_file: String,
}

/// All settings.
#[derive(Clone, Debug)]
pub struct TomlConfig {
    pub spacing: Spacing,
    pub border: Border,
    pub ascii_art: AsciiArt,
}

/// The padding with the same amount on opposite sides.
pub open spec fn even_padding(vertical: u8, horizontal: u8) -> Padding {
    Padding { top: vertical, bottom: vertical, left: horizontal, right: horizontal }
}

/// The rounded border glyphs.
pub open spec fn rounded_border() -> BorderChars {
    BorderChars {
        top_left: '╭',
        top_right: '╮',
        bottom_left: '╰',
        bottom_right: '╯',
        horizontal: '─',
        vertical: '│',
    }
}

/// The default settings: big text art on the left of the text, centred,
/// four columns away from it; one line and two columns of padding inside a
/// rounded border in colour 11; no padding outside.
pub fn build_default_toml() -> (config: TomlConfig)
    ensures
        config.spacing.middle_padding == 4,
        config.spacing.inner_padding == even_padding(1, 2),
        config.spacing.outer_padding == even_padding(0, 0),
        config.border.enabled,
        config.border.ansi_color@ == "{{color11}}"@,
        config.border.border_chars == rounded_border(),
        config.ascii_art.size == AsciiSize::Big,
        config.ascii_art.placement == ArtPlacement::Left,
        config.ascii_art.alignment == Alignment::Center,
        config.ascii_art.backend.engine == Engine::Ascii,
        config.ascii_art.backend.image_path@ == ""@,
        config.ascii_art.backend.image_width == 50,
        config.ascii_art.ascii_art_file@ == ""@,
{
    TomlConfig {
        spacing: Spacing {
            middle_padding: 4,
            inner_padding: Padding { top: 1, bottom: 1, left: 2, right: 2 },
            outer_padding: Padding { top: 0, bottom: 0, left: 0, right: 0 },
        },
        border: Border {
            enabled: true,
            ansi_color: "{{color11}}".to_owned(),
            border_chars: BorderChars {
                top_left: '╭',
                top_right: '╮',
                bottom_left: '╰',
                bottom_right: '╯',
                horizontal: '─',
                vertical: '│',
            },
        },
        ascii_art: AsciiArt {
            size: AsciiSize::Big,
            placement: ArtPlacement::Left,
            alignment: Alignment::Center,
            backend: AsciiArtBackend {
                engine: Engine::Ascii,
                image_path: "".to_owned(),
                image_width: 50,
            },
            ascii_art_file: "".to_owned(),
        },
    }
}

} // verus!
