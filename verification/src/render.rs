//! The whole composition: the art is chosen, art and text are styled,
//! aligned and put together, and the result is padded, bordered, padded
//! again and made safe for carriage returns.

use vstd::prelude::*;
use vstd::string::*;
use crate::art::{chosen_art, get_ascii_art, AllArt};
use crate::block::{normalize, normalized_text, terminate_styling, terminated_text};
use crate::compose::{
    add_ascii_art, align, aligned, art_added_text, strings_view, texts_lines,
};
use crate::config::{Engine, Padding, TomlConfig};
use crate::frame::{
    add_border, add_padding, bordered_text, padded_text, reset_after_returns,
    reset_formatting_on_cr,
};
use crate::geometry::Probe;
use crate::kitty::{get_kitty_image, kitty_image};
use crate::tags::{parse_internal_ansi_codes, resolved};
use crate::text::joined;

verus! {

/// The art that goes beside the text. The text engine shows the text
/// art. The image engine shows the image of the file, as text for the
/// terminal, and the text art where there is no file or no such text. With
/// the engine switched off there is no art.
pub open spec fn shown_art(
    config: TomlConfig,
    distro: Seq<char>,
    all: AllArt,
    art_file: Option<Seq<char>>,
    image: Option<Seq<u8>>,
    probe: Probe,
) -> Seq<char> {
    match config.ascii_art.backend.engine {
        Engine::Ascii => chosen_art(distro, config.ascii_art.size, all, art_file),
        Engine::Kitty => match image {
            Some(file) => match kitty_image(file, config.ascii_art.backend.image_width, probe) {
                Ok(text) => text,
                Err(_) => chosen_art(distro, config.ascii_art.size, all, art_file),
            },
            None => chosen_art(distro, config.ascii_art.size, all, art_file),
        },
        Engine::Disabled => Seq::empty(),
    }
}

/// A block ready to be aligned: every line closed with a reset, the tags
/// resolved, the lines normalized.
pub open spec fn styled(t: Seq<char>) -> Seq<char> {
    normalized_text(resolved(terminated_text(t)))
}

/// Art and text, styled, aligned with each other, put together and
/// normalized.
pub open spec fn composited(config: TomlConfig, art: Seq<char>, fetch: Seq<char>) -> Seq<char> {
    let both = aligned(
        texts_lines(seq![styled(art), styled(fetch)]),
        config.ascii_art.placement,
        config.ascii_art.alignment,
    );
    normalized_text(
        art_added_text(
            joined(both[0]),
            joined(both[1]),
            config.ascii_art.placement,
            config.spacing.middle_padding as nat,
        ),
    )
}

/// A block finished for the terminal: the inner padding, the border, the
/// outer padding, and a reset behind every carriage return.
pub open spec fn finished(config: TomlConfig, block: Seq<char>) -> Seq<char> {
    reset_after_returns(
        padded_text(
            bordered_text(padded_text(block, config.spacing.inner_padding), config.border),
            config.spacing.outer_padding,
        ),
    )
}

/// What is printed for an art and a text.
pub open spec fn polished(config: TomlConfig, art: Seq<char>, fetch: Seq<char>) -> Seq<char> {
    finished(config, composited(config, art, fetch))
}

/// No padding at all.
pub open spec fn no_padding() -> Padding {
    Padding { top: 0, bottom: 0, left: 0, right: 0 }
}

/// Without border and without padding, finishing a block changes nothing
/// in it but to put a reset behind every carriage return.
pub proof fn bare_finish_only_resets(config: TomlConfig, block: Seq<char>)
    requires
        !config.border.enabled,
        config.spacing.inner_padding == no_padding(),
        config.spacing.outer_padding == no_padding(),
    ensures
        finished(config, block) == reset_after_returns(block),
{
}

/// Chooses the art that goes beside the text: the text art of the
/// distribution, or of the art file; the image, where the image engine is
/// chosen and the image can be shown, and the text art where it cannot; or
/// nothing.
pub fn select_art(
    config: &TomlConfig,
    distro: &str,
    all_art: &AllArt,
    art_file: Option<&str>,
    image: Option<&Vec<u8>>,
    probe: Probe,
) -> (out: String)
    ensures
        out@ == shown_art(
            *config,
            distro@,
            *all_art,
            match art_file {
                Some(text) => Some(text@),
                None => None,
            },
            match image {
                Some(file) => Some(file@),
                None => None,
            },
            probe,
        ),
{
    match config.ascii_art.backend.engine {
        Engine::Ascii => get_ascii_art(distro, config.ascii_art.size, all_art, art_file),
        Engine::Kitty => {
            if let Some(file) = image {
                if let Ok(text) = get_kitty_image(
                    file,
                    config.ascii_art.backend.image_width,
                    probe,
                ) {
                    return text;
                }
            }
            get_ascii_art(distro, config.ascii_art.size, all_art, art_file)
        },
        Engine::Disabled => String::new(),
    }
}

/// Composes what is printed from the art and the text. Both get a reset
/// behind every line, their tags resolved and their lines normalized. They
/// are aligned with each other and put together as the placement says, and
/// the result is normalized. Then come the inner padding, the border, the
/// outer padding, and a reset behind every carriage return.
pub fn polish(config: &TomlConfig, ascii_art: String, fetch: String) -> (out: String)
    ensures
        out@ == polished(*config, ascii_art@, fetch@),
{
    let mut art = ascii_art;
    let mut text = fetch;
    terminate_styling(&mut art);
    terminate_styling(&mut text);
    parse_internal_ansi_codes(&mut art);
    parse_internal_ansi_codes(&mut text);
    normalize(&mut art);
    normalize(&mut text);
    let mut blocks: Vec<String> = Vec::new();
    blocks.push(art);
    blocks.push(text);
    assert(strings_view(blocks) == seq![styled(ascii_art@), styled(fetch@)]);
    let mut both = align(&blocks, config.ascii_art.placement, config.ascii_art.alignment);
    let right = both.pop().unwrap();
    let left = both.pop().unwrap();
    let mut full = add_ascii_art(
        left.as_str(),
        right,
        config.ascii_art.placement,
        config.spacing.middle_padding,
    );
    normalize(&mut full);
    add_padding(&mut full, &config.spacing.inner_padding);
    let mut framed = add_border(full.as_str(), &config.border);
    add_padding(&mut framed, &config.spacing.outer_padding);
    reset_formatting_on_cr(framed.as_str())
}

/// Composes what is printed for a distribution: chooses the art and
/// polishes it together with the text.
pub fn polish_fetch(
    config: &TomlConfig,
    distro: &str,
    all_art: &AllArt,
    art_file: Option<&str>,
    image: Option<&Vec<u8>>,
    probe: Probe,
    fetch: String,
) -> (out: String)
    ensures
        out@ == polished(
            *config,
            shown_art(
                *config,
                distro@,
                *all_art,
                match art_file {
                    Some(text) => Some(text@),
                    None => None,
                },
                match image {
                    Some(file) => Some(file@),
                    None => None,
                },
                probe,
            ),
            fetch@,
        ),
{
    let art = select_art(config, distro, all_art, art_file, image, probe);
    polish(config, art, fetch)
}

} // verus!
