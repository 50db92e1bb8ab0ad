use hayabusa::art::{get_ascii_art, same_text, this_does_nothing, AllArt, Art};
use hayabusa::config::{
    build_default_toml, Alignment, ArtPlacement, AsciiSize, BorderChars, Engine, Padding,
    TomlConfig,
};
use hayabusa::geometry::{Probe, WindowSize};
use hayabusa::render::{polish, polish_fetch, select_art};
use hayabusa::width::width;
use image::{DynamicImage, ImageOutputFormat, Rgba, RgbaImage};
use std::io::Cursor;

fn art(name: &str) -> Art {
    Art { big: format!("{name} big\n{name}"), small: format!("{name} small") }
}

fn catalogue() -> AllArt {
    AllArt {
        arch: art("arch"),
        windows: art("windows"),
        ubuntu: art("ubuntu"),
        fallback: art("fallback"),
        gentoo: art("gentoo"),
        nixos: art("nixos"),
    }
}

fn bare() -> TomlConfig {
    let mut config = build_default_toml();
    config.border.enabled = false;
    config.spacing.middle_padding = 1;
    config.spacing.inner_padding = Padding { top: 0, bottom: 0, left: 0, right: 0 };
    config.spacing.outer_padding = Padding { top: 0, bottom: 0, left: 0, right: 0 };
    config
}

fn png(width: u32, height: u32) -> Vec<u8> {
    let picture = RgbaImage::from_pixel(width, height, Rgba([1, 2, 3, 255]));
    let mut file = Cursor::new(Vec::new());
    DynamicImage::ImageRgba8(picture).write_to(&mut file, ImageOutputFormat::Png).unwrap();
    file.into_inner()
}

fn window() -> Probe {
    Probe::Reported(WindowSize { rows: 24, columns: 80, pixel_width: 240, pixel_height: 96 })
}

#[test]
fn the_defaults_are_the_documented_ones() {
    let config = build_default_toml();
    assert_eq!(config.spacing.middle_padding, 4);
    assert_eq!(config.spacing.inner_padding, Padding { top: 1, bottom: 1, left: 2, right: 2 });
    assert_eq!(config.spacing.outer_padding, Padding { top: 0, bottom: 0, left: 0, right: 0 });
    assert!(config.border.enabled);
    assert_eq!(config.border.ansi_color, "{{color11}}");
    assert_eq!(
        config.border.border_chars,
        BorderChars {
            top_left: '╭',
            top_right: '╮',
            bottom_left: '╰',
            bottom_right: '╯',
            horizontal: '─',
            vertical: '│',
        }
    );
    assert_eq!(config.ascii_art.size, AsciiSize::Big);
    assert_eq!(config.ascii_art.placement, ArtPlacement::Left);
    assert_eq!(config.ascii_art.alignment, Alignment::Center);
    assert_eq!(config.ascii_art.backend.engine, Engine::Ascii);
    assert_eq!(config.ascii_art.backend.image_path, "");
    assert_eq!(config.ascii_art.backend.image_width, 50);
    assert_eq!(config.ascii_art.ascii_art_file, "");
}

#[test]
fn texts_are_compared_by_their_characters() {
    assert!(same_text("Arch Linux", "Arch Linux"));
    assert!(same_text("", ""));
    assert!(!same_text("Arch Linux", "Arch linux"));
    assert!(!same_text("Arch", "Arch Linux"));
    assert!(!same_text("Arch Linux", "Arch"));
}

#[test]
fn each_distribution_has_its_art() {
    let all = catalogue();
    assert_eq!(get_ascii_art("Arch Linux", AsciiSize::Big, &all, None), "arch big\narch");
    assert_eq!(get_ascii_art("Windows", AsciiSize::Big, &all, None), "windows big\nwindows");
    assert_eq!(get_ascii_art("Ubuntu", AsciiSize::Small, &all, None), "ubuntu small");
    assert_eq!(get_ascii_art("Gentoo", AsciiSize::Small, &all, None), "gentoo small");
}

#[test]
fn other_distributions_get_the_fallback() {
    let all = catalogue();
    assert_eq!(get_ascii_art("Debian", AsciiSize::Small, &all, None), "fallback small");
    assert_eq!(get_ascii_art("NixOS", AsciiSize::Small, &all, None), "fallback small");
    assert_eq!(get_ascii_art("arch linux", AsciiSize::Small, &all, None), "fallback small");
    assert_eq!(get_ascii_art("", AsciiSize::Big, &all, None), "fallback big\nfallback");
}

#[test]
fn an_art_file_goes_before_the_catalogue() {
    let all = catalogue();
    assert_eq!(get_ascii_art("Arch Linux", AsciiSize::Big, &all, Some("my art\n")), "my art\n");
    assert_eq!(get_ascii_art("Debian", AsciiSize::Small, &all, Some("")), "");
}

#[test]
fn the_catalogue_comes_back_as_it_went() {
    let all = this_does_nothing(catalogue());
    assert_eq!(all.arch.big, "arch big\narch");
    assert_eq!(all.windows.small, "windows small");
    assert_eq!(all.ubuntu.big, "ubuntu big\nubuntu");
    assert_eq!(all.fallback.small, "fallback small");
    assert_eq!(all.gentoo.big, "gentoo big\ngentoo");
    assert_eq!(all.nixos.small, "nixos small");
}

#[test]
fn the_engine_chooses_the_art() {
    let all = catalogue();
    let mut config = build_default_toml();
    assert_eq!(
        select_art(&config, "Ubuntu", &all, None, None, Probe::Failed),
        "ubuntu big\nubuntu"
    );
    config.ascii_art.size = AsciiSize::Small;
    assert_eq!(select_art(&config, "Ubuntu", &all, None, None, Probe::Failed), "ubuntu small");
    config.ascii_art.backend.engine = Engine::Disabled;
    assert_eq!(select_art(&config, "Ubuntu", &all, Some("file"), None, Probe::Failed), "");
}

#[test]
fn the_image_engine_shows_the_image() {
    let all = catalogue();
    let mut config = build_default_toml();
    config.ascii_art.backend.engine = Engine::Kitty;
    config.ascii_art.backend.image_width = 2;
    let file = png(4, 2);
    let shown = select_art(&config, "Ubuntu", &all, None, Some(&file), window());
    assert!(shown.starts_with("\x1b_Gf=100,a=T,z=1,c=2,r=2,C=1,m=0;"));
    assert!(shown.ends_with("\x1b\\  \n  "));
    assert_eq!(shown, hayabusa::kitty::get_kitty_image(&file, 2, window()).unwrap());
}

#[test]
fn the_image_engine_falls_back_to_text_art() {
    let all = catalogue();
    let mut config = build_default_toml();
    config.ascii_art.backend.engine = Engine::Kitty;
    let file = png(4, 2);
    let text_art = "gentoo big\ngentoo";
    assert_eq!(select_art(&config, "Gentoo", &all, None, None, window()), text_art);
    assert_eq!(select_art(&config, "Gentoo", &all, None, Some(&file), Probe::Failed), text_art);
    assert_eq!(select_art(&config, "Gentoo", &all, None, Some(&file), Probe::Unsupported), text_art);
    assert_eq!(select_art(&config, "Gentoo", &all, None, Some(&Vec::new()), window()), text_art);
    assert_eq!(select_art(&config, "Gentoo", &all, Some("file art"), Some(&Vec::new()), window()), "file art");
}

#[test]
fn art_on_the_left_of_a_shorter_text() {
    let out = polish(&bare(), "AA\nBB\nCC".to_string(), "CPU: X\nRAM: Y".to_string());
    let r = "\x1b[0m";
    assert_eq!(out, format!("AA{r} CPU: X{r}\nBB{r} RAM: Y{r}\nCC{r}       "));
    let lines: Vec<&str> = out.lines().collect();
    assert_eq!(lines.len(), 3);
    for line in lines {
        assert_eq!(width(line), 2 + 1 + 6);
    }
}

#[test]
fn art_on_the_left_of_a_ragged_text() {
    let out = polish(&bare(), "AA\nBB\nCC".to_string(), "CPU: X\nRAM".to_string());
    let r = "\x1b[0m";
    assert_eq!(out, format!("AA{r} CPU: X{r}\nBB{r} RAM{r}   \nCC{r}       "));
}

#[test]
fn without_border_and_padding_only_carriage_returns_change() {
    let config = bare();
    let out = polish(&config, "A\rA\nBB".to_string(), "x\ny".to_string());
    let r = "\x1b[0m";
    assert_eq!(out, format!("A\r{r}A{r} x{r}\nBB{r} y{r}"));
    let plain = polish(&config, "AA\nBB".to_string(), "x\ny".to_string());
    assert_eq!(plain, format!("AA{r} x{r}\nBB{r} y{r}"));
}

#[test]
fn tags_are_resolved_and_do_not_count() {
    let out = polish(&bare(), "{{color4}}AA\nB".to_string(), "{{color2}}x{{reset}}".to_string());
    let r = "\x1b[0m";
    assert_eq!(out, format!("\x1b[38;5;4mAA{r} \x1b[38;5;2mx{r}{r}\nB{r}   "));
}

#[test]
fn the_defaults_frame_the_fetch() {
    let config = build_default_toml();
    let out = polish(&config, "AA\nBB".to_string(), "x\ny".to_string());
    let c = "\x1b[38;5;11m";
    let r = "\x1b[0m";
    let expected = [
        format!("{c}╭───────────╮{r}"),
        format!("{c}│{r}           {c}│{r}"),
        format!("{c}│{r}  AA{r}    x{r}  {c}│{r}"),
        format!("{c}│{r}  BB{r}    y{r}  {c}│{r}"),
        format!("{c}│{r}           {c}│{r}"),
        format!("{c}╰───────────╯{r}"),
    ];
    assert_eq!(out, expected.join("\n"));
    for line in out.lines() {
        assert_eq!(width(line), 13);
    }
}

#[test]
fn art_above_and_below() {
    let mut config = bare();
    config.ascii_art.placement = ArtPlacement::Top;
    let r = "\x1b[0m";
    assert_eq!(
        polish(&config, "A".to_string(), "xyz".to_string()),
        format!(" A{r} \n   \nxyz{r}")
    );
    config.ascii_art.placement = ArtPlacement::Bottom;
    config.ascii_art.alignment = Alignment::Right;
    assert_eq!(
        polish(&config, "A".to_string(), "xyz".to_string()),
        format!("xyz{r}\n   \n  A{r}")
    );
}

#[test]
fn no_art_leaves_the_text_behind_the_gap() {
    let out = polish(&bare(), String::new(), "x\nyz".to_string());
    let r = "\x1b[0m";
    assert_eq!(out, format!(" x{r} \n yz{r}"));
}

#[test]
fn nothing_at_all_gives_nothing_but_the_gap() {
    let mut config = bare();
    assert_eq!(polish(&config, String::new(), String::new()), " ");
    config.spacing.middle_padding = 0;
    assert_eq!(polish(&config, String::new(), String::new()), "");
    assert_eq!(polish(&build_default_toml(), String::new(), String::new()).lines().count(), 5);
}

#[test]
fn the_whole_composition_chooses_and_polishes() {
    let config = bare();
    let all = catalogue();
    let out = polish_fetch(&config, "Windows", &all, None, None, Probe::Failed, "x".to_string());
    assert_eq!(out, polish(&config, "windows big\nwindows".to_string(), "x".to_string()));
    let r = "\x1b[0m";
    assert_eq!(out, format!("windows big{r} x{r}\nwindows{r}      "));
}
