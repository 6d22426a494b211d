//! Tests for `render::theme` — color/glyph selection.

use blocktxt::game::piece::PieceKind;
use blocktxt::render::theme::{rgb, Color, Palette, Theme, CM_I, CM_O, CM_T, TN_I, TN_O, TN_Z};

#[test]
fn theme_monochrome_when_no_color_flag() {
    let theme = Theme::detect(true, "", "", Palette::default());
    assert!(theme.monochrome, "no_color flag should yield monochrome theme");
}

#[test]
fn theme_monochrome_when_no_color_env() {
    let theme = Theme::detect(false, "1", "", Palette::default());
    assert!(theme.monochrome, "NO_COLOR env should yield monochrome theme");
}

#[test]
fn theme_uses_256_color_when_colorterm_truecolor() {
    let theme = Theme::detect(false, "", "truecolor", Palette::default());
    assert!(!theme.monochrome, "truecolor COLORTERM should yield color theme");
}

#[test]
fn theme_glyphs_are_all_distinct_monochrome() {
    let theme = Theme::monochrome();
    let glyphs = &theme.glyphs;
    let unique: std::collections::HashSet<char> = glyphs.iter().copied().collect();
    assert_eq!(unique.len(), 7, "monochrome glyphs must all be distinct: {:?}", glyphs);
}

#[test]
fn theme_detect_no_color_env_empty_string_is_not_set() {
    let theme = Theme::detect(false, "", "truecolor", Palette::default());
    assert!(!theme.monochrome, "empty NO_COLOR should not activate monochrome");
}

#[test]
fn palette_default_is_tokyo_night() {
    assert_eq!(Palette::default(), Palette::TokyoNight, "default palette must be TokyoNight");
}

#[test]
fn theme_tokyo_night_colors_match_spec() {
    let theme = Theme::detect(false, "", "truecolor", Palette::TokyoNight);
    assert_eq!(theme.color(PieceKind::I), rgb(TN_I), "I piece should be TN cyan");
    assert_eq!(theme.color(PieceKind::O), rgb(TN_O), "O piece should be TN gold");
    assert_eq!(theme.color(PieceKind::Z), rgb(TN_Z), "Z piece should be TN red");
    assert_eq!(theme.base, Color::Rgb(26, 27, 38), "base should be #1a1b26");
}

#[test]
fn theme_catppuccin_still_works() {
    let theme = Theme::detect(false, "", "truecolor", Palette::CatppuccinMocha);
    assert_eq!(theme.color(PieceKind::I), rgb(CM_I), "I piece should be CM sky");
    assert_eq!(theme.color(PieceKind::O), rgb(CM_O), "O piece should be CM yellow");
    assert_eq!(theme.color(PieceKind::T), rgb(CM_T), "T piece should be CM mauve");
}

#[test]
fn cli_theme_flag_parses_valid() {
    for input in &["tokyo-night", "tn", "catppuccin-mocha", "gruvbox-dark", "nord", "dracula"] {
        let result: Result<Palette, _> = input.parse();
        assert!(result.is_ok(), "expected Ok for theme '{input}'");
    }
}

#[test]
fn cli_theme_flag_rejects_invalid() {
    let result: Result<Palette, String> = "purple".parse();
    assert!(result.is_err(), "expected Err for unknown theme 'purple'");
    let msg = result.unwrap_err();
    assert!(
        msg.contains("tokyo-night") && msg.contains("catppuccin-mocha"),
        "error message should list valid themes, got: {msg}"
    );
}

#[test]
fn no_color_overrides_palette() {
    let tn = Theme::detect(false, "1", "truecolor", Palette::TokyoNight);
    let cm = Theme::detect(false, "1", "truecolor", Palette::CatppuccinMocha);
    assert!(tn.monochrome, "TokyoNight: NO_COLOR must yield monochrome");
    assert!(cm.monochrome, "CatppuccinMocha: NO_COLOR must yield monochrome");
}

#[test]
fn theme_parse_ignores_case_and_reports_lowercased_name() {
    assert_eq!(Palette::parse("Tokyo_Night"), Ok(Palette::TokyoNight));
    assert_eq!(Palette::parse("CM"), Ok(Palette::CatppuccinMocha));
    assert_eq!(Palette::parse("Nord"), Ok(Palette::Nord));
    assert_eq!(
        Palette::parse("Solarized"),
        Err(
            "unknown theme 'solarized'. valid: tokyo-night, catppuccin-mocha, gruvbox-dark, nord, dracula"
                .to_string()
        )
    );
}

#[test]
fn every_palette_name_and_alias_parses() {
    let cases = [
        ("tokyo-night", Palette::TokyoNight),
        ("tokyo_night", Palette::TokyoNight),
        ("tn", Palette::TokyoNight),
        ("catppuccin-mocha", Palette::CatppuccinMocha),
        ("catppuccin", Palette::CatppuccinMocha),
        ("cm", Palette::CatppuccinMocha),
        ("gruvbox-dark", Palette::GruvboxDark),
        ("gruvbox", Palette::GruvboxDark),
        ("gv", Palette::GruvboxDark),
        ("nord", Palette::Nord),
        ("nord-dark", Palette::Nord),
        ("dracula", Palette::Dracula),
        ("dr", Palette::Dracula),
        ("GRUVBOX-DARK", Palette::GruvboxDark),
    ];
    for (name, palette) in cases {
        let parsed: Result<Palette, String> = name.parse();
        assert_eq!(parsed, Ok(palette), "theme '{name}'");
    }
}

#[test]
fn new_palettes_use_their_canonical_colors() {
    let gv = Theme::truecolor(Palette::GruvboxDark);
    assert_eq!(gv.color(PieceKind::I), Color::Rgb(0x8e, 0xc0, 0x7c));
    assert_eq!(gv.color(PieceKind::Z), Color::Rgb(0xfb, 0x49, 0x34));
    assert_eq!(gv.base, Color::Rgb(0x28, 0x28, 0x28));
    let nord = Theme::truecolor(Palette::Nord);
    assert_eq!(nord.color(PieceKind::I), Color::Rgb(0x88, 0xc0, 0xd0));
    assert_eq!(nord.color(PieceKind::J), Color::Rgb(0x5e, 0x81, 0xac));
    assert_eq!(nord.base, Color::Rgb(0x2e, 0x34, 0x40));
    let dr = Theme::truecolor(Palette::Dracula);
    assert_eq!(dr.color(PieceKind::T), Color::Rgb(0xbd, 0x93, 0xf9));
    assert_eq!(dr.color(PieceKind::S), Color::Rgb(0x50, 0xfa, 0x7b));
    assert_eq!(dr.text, Color::Rgb(0xf8, 0xf8, 0xf2));
    for p in [Palette::GruvboxDark, Palette::Nord, Palette::Dracula] {
        let t = Theme::truecolor(p);
        assert!(!t.monochrome);
        assert_eq!(t.glyph(PieceKind::L), '\u{2588}');
    }
}

#[test]
fn theme_16_color_fallback() {
    let theme = Theme::detect(false, "", "", Palette::CatppuccinMocha);
    assert!(!theme.monochrome);
    assert_eq!(theme.color(PieceKind::I), Color::Cyan);
    assert_eq!(theme.glyph(PieceKind::L), '▬');
    let t24 = Theme::detect(false, "", "24bit", Palette::TokyoNight);
    assert_eq!(t24.glyph(PieceKind::T), '█');
}

#[test]
fn rgb_splits_hex_code() {
    assert_eq!(rgb(0x1a1b26), Color::Rgb(0x1a, 0x1b, 0x26));
}
