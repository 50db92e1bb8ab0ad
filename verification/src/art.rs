//! The catalogue of text art, and the choice of the art for a
//! distribution.

use vstd::prelude::*;
use vstd::string::*;
use crate::config::AsciiSize;
use crate::text::to_chars;

verus! {

/// The art of one distribution, big and small.
#[derive(Clone, Debug)]
pub struct Art {
    pub big: String,
    pub small: String,
}

/// The art of every distribution that has its own, and the art for the
/// others.
#[derive(Clone, Debug)]
pub struct AllArt {
    pub arch: Art,
    pub windows: Art,
    pub ubuntu: Art,
    pub fallback: Art,
    pub gentoo: Art,
    pub nixos: Art,
}

/// The art of the distribution of that name: Arch Linux, Windows, Ubuntu
/// and Gentoo have their own, every other name gets the fallback.
pub open spec fn art_of(distro: Seq<char>, all: AllArt) -> Art {
    if distro == "Arch Linux"@ {
        all.arch
    } else if distro == "Windows"@ {
        all.windows
    } else if distro == "Ubuntu"@ {
        all.ubuntu
    } else if distro == "Gentoo"@ {
        all.gentoo
    } else {
        all.fallback
    }
}

/// The art in the size asked for.
pub open spec fn sized(art: Art, size: AsciiSize) -> Seq<char> {
    match size {
        AsciiSize::Big => art.big@,
        AsciiSize::Small => art.small@,
    }
}

/// The art that is shown: the text of the art file where one is set, else
/// the art of the distribution in the size asked for.
pub open spec fn chosen_art(
    distro: Seq<char>,
    size: AsciiSize,
    all: AllArt,
    art_file: Option<Seq<char>>,
) -> Seq<char> {
    match art_file {
        Some(text) => text,
        None => sized(art_of(distro, all), size),
    }
}

/// Whether two texts are the same.
pub fn same_text(a: &str, b: &str) -> (same: bool)
    ensures
        same == (a@ == b@),
{
    let x = to_chars(a);
    let y = to_chars(b);
    if x.len() != y.len() {
        return false;
    }
    let mut i: usize = 0;
    while i < x.len()
        invariant
            i <= x.len(),
            x.len() == y.len(),
            x@ == a@,
            y@ == b@,
            x@.take(i as int) == y@.take(i as int),
        decreases x.len() - i,
    {
        if x[i] != y[i] {
            assert(a@[i as int] != b@[i as int]);
            return false;
        }
        assert(x@.take(i + 1) == x@.take(i as int).push(x@[i as int]));
        assert(y@.take(i + 1) == y@.take(i as int).push(y@[i as int]));
        i = i + 1;
    }
    assert(x@.take(x.len() as int) == x@);
    assert(y@.take(y.len() as int) == y@);
    true
}

/// Takes the catalogue apart and puts it together again, field by field:
/// a catalogue that gains a distribution no longer fits here until the new
/// art is named.
pub fn this_does_nothing(all: AllArt) -> (out: AllArt)
    ensures
        out == all,
{
    let AllArt { arch, windows, ubuntu, fallback, gentoo, nixos } = all;
    AllArt { arch, windows, ubuntu, fallback, gentoo, nixos }
}

/// The art to show for a distribution. Where an art file is set, its text
/// is the art. Else the art is that of the distribution, in the size asked
/// for: Arch Linux, Windows, Ubuntu and Gentoo have their own, every other
/// name gets the fallback.
pub fn get_ascii_art(distro: &str, size: AsciiSize, all_art: &AllArt, art_file: Option<&str>) -> (out:
    String)
    ensures
        out@ == chosen_art(
            distro@,
            size,
            *all_art,
            match art_file {
                Some(text) => Some(text@),
                None => None,
            },
        ),
{
    if let Some(text) = art_file {
        return text.to_owned();
    }
    let art = if same_text(distro, "Arch Linux") {
        &all_art.arch
    } else if same_text(distro, "Windows") {
        &all_art.windows
    } else if same_text(distro, "Ubuntu") {
        &all_art.ubuntu
    } else if same_text(distro, "Gentoo") {
        &all_art.gentoo
    } else {
        &all_art.fallback
    };
    match size {
        AsciiSize::Big => art.big.clone(),
        AsciiSize::Small => art.small.clone(),
    }
}

} // verus!
