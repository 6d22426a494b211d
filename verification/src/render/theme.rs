//! Color and glyph theme for the renderer.
//!
//! The output mode is chosen from the terminal's settings:
//!
//!   1. If `NO_COLOR` is set (non-empty) OR `--no-color` was passed, use
//!      monochrome ASCII glyphs — one distinct letter per piece kind.
//!   2. Else if `COLORTERM` is `truecolor` or `24bit`, use full RGB colors
//!      and the block glyph.
//!   3. Else use the 16-color set with distinctive glyphs.
//!
//! Tables are indexed by piece kind: I=0, O=1, T=2, S=3, Z=4, J=5, L=6.

use vstd::prelude::*;
use vstd::string::*;

use crate::game::piece::PieceKind;
use crate::persistence::lowercase_text;
use crate::text::{push_str, same_text};

verus! {

/// A terminal color.
#[derive(Debug, Clone, Copy, PartialEq, Eq, Structural)]
pub enum Color {
    /// The terminal's default color.
    Reset,
    Rgb(u8, u8, u8),
    Cyan,
    Yellow,
    Magenta,
    Green,
    Red,
    Blue,
    White,
}

/// The color with hex code `hex` (`0xRRGGBB`).
pub open spec fn hex_color(hex: u32) -> Color {
    Color::Rgb((hex / 65536 % 256) as u8, (hex / 256 % 256) as u8, (hex % 256) as u8)
}

/// The color with hex code `hex` (`0xRRGGBB`).
pub fn rgb(hex: u32) -> (c: Color)
    ensures
        c == hex_color(hex),
{
    Color::Rgb((hex / 65536 % 256) as u8, (hex / 256 % 256) as u8, (hex % 256) as u8)
}

// ── Catppuccin Mocha palette ──────────────────────────────────────────────────

/// Background — 1e1e2e
pub const CM_BASE: u32 = 0x1e1e2e;
/// Secondary background — 181825
pub const CM_MANTLE: u32 = 0x181825;
/// Darkest background — 11111b
pub const CM_CRUST: u32 = 0x11111b;
/// Primary text — cdd6f4
pub const CM_TEXT: u32 = 0xcdd6f4;
/// Secondary text — a6adc8
pub const CM_SUBTEXT: u32 = 0xa6adc8;
/// Dim / border color — 6c7086
pub const CM_OVERLAY: u32 = 0x6c7086;
/// I piece — sky
pub const CM_I: u32 = 0x89dceb;
/// O piece — yellow
pub const CM_O: u32 = 0xf9e2af;
/// T piece — mauve
pub const CM_T: u32 = 0xcba6f7;
/// S piece — green
pub const CM_S: u32 = 0xa6e3a1;
/// Z piece — pink
pub const CM_Z: u32 = 0xf38ba8;
/// J piece — blue
pub const CM_J: u32 = 0x89b4fa;
/// L piece — peach
pub const CM_L: u32 = 0xfab387;
/// Ghost piece fill — surface1
pub const CM_GHOST: u32 = 0x45475a;
/// "NEW BEST!" highlight — yellow accent
pub const CM_NEW_BEST: u32 = 0xf9e2af;

// ── Tokyo Night palette ───────────────────────────────────────────────────────

/// Background — #1a1b26
pub const TN_BASE: u32 = 0x1a1b26;
/// Secondary background — #16161e
pub const TN_MANTLE: u32 = 0x16161e;
/// Darkest background — #0f0f14
pub const TN_CRUST: u32 = 0x0f0f14;
/// Primary text — #c0caf5
pub const TN_TEXT: u32 = 0xc0caf5;
/// Secondary text — #a9b1d6
pub const TN_SUBTEXT: u32 = 0xa9b1d6;
/// Dim / border color — #565f89
pub const TN_OVERLAY: u32 = 0x565f89;
/// I piece — cyan #7dcfff
pub const TN_I: u32 = 0x7dcfff;
/// O piece — gold #e0af68
pub const TN_O: u32 = 0xe0af68;
/// T piece — purple #bb9af7
pub const TN_T: u32 = 0xbb9af7;
/// S piece — lime #9ece6a
pub const TN_S: u32 = 0x9ece6a;
/// Z piece — red #f7768e
pub const TN_Z: u32 = 0xf7768e;
/// J piece — blue #7aa2f7
pub const TN_J: u32 = 0x7aa2f7;
/// L piece — orange #ff9e64
pub const TN_L: u32 = 0xff9e64;
/// Ghost piece fill — #414868
pub const TN_GHOST: u32 = 0x414868;
/// "NEW BEST!" highlight — gold accent
pub const TN_NEW_BEST: u32 = 0xe0af68;

// ── Gruvbox Dark palette ──────────────────────────────────────────────────────

/// Background — bg0 #282828
pub const GV_BASE: u32 = 0x282828;
/// Secondary background — bg0_h #1d2021
pub const GV_MANTLE: u32 = 0x1d2021;
/// Dim / border — bg3 #665c54
pub const GV_OVERLAY: u32 = 0x665c54;
/// Primary text — fg #ebdbb2
pub const GV_TEXT: u32 = 0xebdbb2;
/// Secondary text — fg3 #bdae93
pub const GV_SUBTEXT: u32 = 0xbdae93;
/// I piece — aqua #8ec07c
pub const GV_I: u32 = 0x8ec07c;
/// O piece — yellow #fabd2f
pub const GV_O: u32 = 0xfabd2f;
/// T piece — purple #d3869b
pub const GV_T: u32 = 0xd3869b;
/// S piece — green #b8bb26
pub const GV_S: u32 = 0xb8bb26;
/// Z piece — red #fb4934
pub const GV_Z: u32 = 0xfb4934;
/// J piece — blue #83a598
pub const GV_J: u32 = 0x83a598;
/// L piece — orange #fe8019
pub const GV_L: u32 = 0xfe8019;
/// Ghost piece fill — bg2 #504945
pub const GV_GHOST: u32 = 0x504945;
/// "NEW BEST!" highlight — yellow #fabd2f
pub const GV_NEW_BEST: u32 = 0xfabd2f;

// ── Nord palette ──────────────────────────────────────────────────────────────

/// Background — nord0 #2e3440
pub const ND_BASE: u32 = 0x2e3440;
/// Secondary background — nord1 #3b4252
pub const ND_MANTLE: u32 = 0x3b4252;
/// Dim / border — nord3 #4c566a
pub const ND_OVERLAY: u32 = 0x4c566a;
/// Primary text — nord6 #eceff4
pub const ND_TEXT: u32 = 0xeceff4;
/// Secondary text — nord4 #d8dee9
pub const ND_SUBTEXT: u32 = 0xd8dee9;
/// I piece — frost nord8 #88c0d0
pub const ND_I: u32 = 0x88c0d0;
/// O piece — yellow nord13 #ebcb8b
pub const ND_O: u32 = 0xebcb8b;
/// T piece — purple nord15 #b48ead
pub const ND_T: u32 = 0xb48ead;
/// S piece — green nord14 #a3be8c
pub const ND_S: u32 = 0xa3be8c;
/// Z piece — red nord11 #bf616a
pub const ND_Z: u32 = 0xbf616a;
/// J piece — blue nord10 #5e81ac
pub const ND_J: u32 = 0x5e81ac;
/// L piece — orange nord12 #d08770
pub const ND_L: u32 = 0xd08770;
/// Ghost piece fill — nord2 #434c5e
pub const ND_GHOST: u32 = 0x434c5e;
/// "NEW BEST!" highlight — yellow nord13 #ebcb8b
pub const ND_NEW_BEST: u32 = 0xebcb8b;

// ── Dracula palette ───────────────────────────────────────────────────────────

/// Background — #282a36
pub const DR_BASE: u32 = 0x282a36;
/// Secondary background — #21222c
pub const DR_MANTLE: u32 = 0x21222c;
/// Dim / border — current line #44475a
pub const DR_OVERLAY: u32 = 0x44475a;
/// Primary text — foreground #f8f8f2
pub const DR_TEXT: u32 = 0xf8f8f2;
/// Secondary text — comment #6272a4
pub const DR_SUBTEXT: u32 = 0x6272a4;
/// I piece — cyan #8be9fd
pub const DR_I: u32 = 0x8be9fd;
/// O piece — yellow #f1fa8c
pub const DR_O: u32 = 0xf1fa8c;
/// T piece — purple #bd93f9
pub const DR_T: u32 = 0xbd93f9;
/// S piece — green #50fa7b
pub const DR_S: u32 = 0x50fa7b;
/// Z piece — red #ff5555
pub const DR_Z: u32 = 0xff5555;
/// J piece — comment blue #6272a4
pub const DR_J: u32 = 0x6272a4;
/// L piece — orange #ffb86c
pub const DR_L: u32 = 0xffb86c;
/// Ghost piece fill — #44475a
pub const DR_GHOST: u32 = 0x44475a;
/// "NEW BEST!" highlight — yellow #f1fa8c
pub const DR_NEW_BEST: u32 = 0xf1fa8c;

// ── Palette ───────────────────────────────────────────────────────────────────

/// Named color palettes available via `--theme`.
#[derive(Clone, Copy, Debug, PartialEq, Eq, Structural)]
pub enum Palette {
    /// Tokyo Night — higher saturation + brighter text (default).
    TokyoNight,
    /// Catppuccin Mocha — softer, muted tones.
    CatppuccinMocha,
    /// Gruvbox Dark — warm retro tones.
    GruvboxDark,
    /// Nord — cool arctic blues.
    Nord,
    /// Dracula — high-contrast purples and pinks.
    Dracula,
}

impl Default for Palette {
    fn default() -> (p: Self)
        ensures
            p == Palette::TokyoNight,
    {
        Palette::TokyoNight
    }
}

/// The palette a lowercased theme name selects, if any.
pub open spec fn palette_named(name: Seq<char>) -> Option<Palette> {
    if name == "tokyo-night"@ || name == "tokyo_night"@ || name == "tn"@ {
        Some(Palette::TokyoNight)
    } else if name == "catppuccin-mocha"@ || name == "catppuccin"@ || name == "cm"@ {
        Some(Palette::CatppuccinMocha)
    } else if name == "gruvbox-dark"@ || name == "gruvbox"@ || name == "gv"@ {
        Some(Palette::GruvboxDark)
    } else if name == "nord"@ || name == "nord-dark"@ {
        Some(Palette::Nord)
    } else if name == "dracula"@ || name == "dr"@ {
        Some(Palette::Dracula)
    } else {
        None
    }
}

/// The message for an unknown (lowercased) theme name.
pub open spec fn unknown_theme_message(name: Seq<char>) -> Seq<char> {
    "unknown theme '"@ + name + "'. valid: tokyo-night, catppuccin-mocha, gruvbox-dark, nord, dracula"@
}

impl Palette {
    /// Parse a theme name, ignoring case.
    pub fn parse(s: &str) -> (r: Result<Palette, String>)
        ensures
            match palette_named(crate::persistence::lowercased(s@)) {
                Some(p) => r == Ok::<Palette, String>(p),
                None => r matches Err(msg) && msg@ == unknown_theme_message(
                    crate::persistence::lowercased(s@),
                ),
            },
    {
        let lower = lowercase_text(s);
        let name = lower.as_str();
        if same_text(name, "tokyo-night") || same_text(name, "tokyo_night") || same_text(name, "tn") {
            Ok(Palette::TokyoNight)
        } else if same_text(name, "catppuccin-mocha") || same_text(name, "catppuccin") || same_text(
            name,
            "cm",
        ) {
            Ok(Palette::CatppuccinMocha)
        } else if same_text(name, "gruvbox-dark") || same_text(name, "gruvbox") || same_text(
            name,
            "gv",
        ) {
            Ok(Palette::GruvboxDark)
        } else if same_text(name, "nord") || same_text(name, "nord-dark") {
            Ok(Palette::Nord)
        } else if same_text(name, "dracula") || same_text(name, "dr") {
            Ok(Palette::Dracula)
        } else {
            let mut msg = String::new();
            push_str(&mut msg, "unknown theme '");
            push_str(&mut msg, name);
            push_str(&mut msg, "'. valid: tokyo-night, catppuccin-mocha, gruvbox-dark, nord, dracula");
            assert(msg@ =~= unknown_theme_message(lower@));
            Err(msg)
        }
    }
}

impl std::str::FromStr for Palette {
    type Err = String;

    /// Parse a theme name, ignoring case, as `Palette::parse` does.
    fn from_str(s: &str) -> (r: Result<Self, Self::Err>)
        ensures
            match palette_named(crate::persistence::lowercased(s@)) {
                Some(p) => r == Ok::<Palette, String>(p),
                None => r matches Err(msg) && msg@ == unknown_theme_message(
                    crate::persistence::lowercased(s@),
                ),
            },
    {
        Self::parse(s)
    }
}

// ── Theme ─────────────────────────────────────────────────────────────────────

/// Rendering theme: one color and one glyph per piece kind.
#[derive(Debug, Clone, Copy, PartialEq, Eq)]
pub struct Theme {
    /// Colors indexed by piece kind.
    pub colors: [Color; 7],
    /// Glyphs indexed by piece kind.
    pub glyphs: [char; 7],
    /// True when no color should be applied (monochrome mode).
    pub monochrome: bool,
    /// Background fill color.
    pub base: Color,
    /// Secondary / inner background color.
    pub mantle: Color,
    /// Dim / border color.
    pub overlay: Color,
    /// Primary text color.
    pub text: Color,
    /// Secondary / label text color.
    pub subtext: Color,
    /// Ghost piece color.
    pub ghost_fill: Color,
    /// "NEW BEST!" highlight color.
    pub new_best: Color,
}

/// The table index of a piece kind: I, O, T, S, Z, J, L.
pub open spec fn kind_index(kind: PieceKind) -> int {
    match kind {
        PieceKind::I => 0,
        PieceKind::O => 1,
        PieceKind::T => 2,
        PieceKind::S => 3,
        PieceKind::Z => 4,
        PieceKind::J => 5,
        PieceKind::L => 6,
    }
}

/// The table index of a piece kind.
fn index_of(kind: PieceKind) -> (i: usize)
    ensures
        i == kind_index(kind),
{
    match kind {
        PieceKind::I => 0,
        PieceKind::O => 1,
        PieceKind::T => 2,
        PieceKind::S => 3,
        PieceKind::Z => 4,
        PieceKind::J => 5,
        PieceKind::L => 6,
    }
}

/// The Tokyo Night user-interface colors shared by several themes.
pub open spec fn with_tokyo_night_ui(t: Theme) -> bool {
    &&& t.base == hex_color(TN_BASE)
    &&& t.mantle == hex_color(TN_MANTLE)
    &&& t.overlay == hex_color(TN_OVERLAY)
    &&& t.text == hex_color(TN_TEXT)
    &&& t.subtext == hex_color(TN_SUBTEXT)
    &&& t.ghost_fill == hex_color(TN_GHOST)
    &&& t.new_best == hex_color(TN_NEW_BEST)
}

/// `t` selects no color and shows the piece letters I, O, T, S, Z, J, L.
pub open spec fn is_monochrome_theme(t: Theme) -> bool {
    &&& t.monochrome
    &&& t.colors@ == seq![Color::Reset; 7]
    &&& t.glyphs@ == seq!['I', 'O', 'T', 'S', 'Z', 'J', 'L']
    &&& with_tokyo_night_ui(t)
}

/// `t` shows the piece colors `pieces` (I, O, T, S, Z, J, L) and the
/// user-interface colors `ui` (base, mantle, overlay, text, subtext, ghost
/// fill, new-best highlight), all given as hex codes.
pub open spec fn has_colors(t: Theme, pieces: Seq<u32>, ui: Seq<u32>) -> bool {
    &&& t.colors@.len() == 7
    &&& forall|k: int| 0 <= k < 7 ==> #[trigger] t.colors@[k] == hex_color(pieces[k])
    &&& t.base == hex_color(ui[0])
    &&& t.mantle == hex_color(ui[1])
    &&& t.overlay == hex_color(ui[2])
    &&& t.text == hex_color(ui[3])
    &&& t.subtext == hex_color(ui[4])
    &&& t.ghost_fill == hex_color(ui[5])
    &&& t.new_best == hex_color(ui[6])
}

/// The piece colors of `palette` as hex codes: I, O, T, S, Z, J, L.
pub open spec fn palette_pieces(palette: Palette) -> Seq<u32> {
    match palette {
        Palette::TokyoNight => seq![TN_I, TN_O, TN_T, TN_S, TN_Z, TN_J, TN_L],
        Palette::CatppuccinMocha => seq![CM_I, CM_O, CM_T, CM_S, CM_Z, CM_J, CM_L],
        Palette::GruvboxDark => seq![GV_I, GV_O, GV_T, GV_S, GV_Z, GV_J, GV_L],
        Palette::Nord => seq![ND_I, ND_O, ND_T, ND_S, ND_Z, ND_J, ND_L],
        Palette::Dracula => seq![DR_I, DR_O, DR_T, DR_S, DR_Z, DR_J, DR_L],
    }
}

/// The user-interface colors of `palette` as hex codes: base, mantle,
/// overlay, text, subtext, ghost fill, new-best highlight.
pub open spec fn palette_ui(palette: Palette) -> Seq<u32> {
    match palette {
        Palette::TokyoNight => seq![TN_BASE, TN_MANTLE, TN_OVERLAY, TN_TEXT, TN_SUBTEXT, TN_GHOST, TN_NEW_BEST],
        Palette::CatppuccinMocha => seq![CM_BASE, CM_MANTLE, CM_OVERLAY, CM_TEXT, CM_SUBTEXT, CM_GHOST, CM_NEW_BEST],
        Palette::GruvboxDark => seq![GV_BASE, GV_MANTLE, GV_OVERLAY, GV_TEXT, GV_SUBTEXT, GV_GHOST, GV_NEW_BEST],
        Palette::Nord => seq![ND_BASE, ND_MANTLE, ND_OVERLAY, ND_TEXT, ND_SUBTEXT, ND_GHOST, ND_NEW_BEST],
        Palette::Dracula => seq![DR_BASE, DR_MANTLE, DR_OVERLAY, DR_TEXT, DR_SUBTEXT, DR_GHOST, DR_NEW_BEST],
    }
}

/// `t` is the full-color theme of `palette`, with block glyphs.
pub open spec fn is_truecolor_theme(t: Theme, palette: Palette) -> bool {
    &&& !t.monochrome
    &&& t.glyphs@ == seq!['█'; 7]
    &&& has_colors(t, palette_pieces(palette), palette_ui(palette))
}

/// `t` is the 16-color theme with distinctive glyphs.
pub open spec fn is_color16_theme(t: Theme) -> bool {
    &&& !t.monochrome
    &&& t.colors@ == seq![
        Color::Cyan,
        Color::Yellow,
        Color::Magenta,
        Color::Green,
        Color::Red,
        Color::Blue,
        Color::White,
    ]
    &&& t.glyphs@ == seq!['▓', '▒', '░', '■', '▪', '▫', '▬']
    &&& with_tokyo_night_ui(t)
}

impl Theme {
    /// Choose the theme for the terminal: `no_color_flag` is `--no-color`,
    /// `no_color_env` the value of `NO_COLOR` (empty when unset) and
    /// `colorterm` that of `COLORTERM` (empty when unset).
    pub fn detect(no_color_flag: bool, no_color_env: &str, colorterm: &str, palette: Palette) -> (t: Self)
        ensures
            (no_color_flag || no_color_env@.len() > 0) ==> is_monochrome_theme(t),
            !(no_color_flag || no_color_env@.len() > 0) && (colorterm@ == "truecolor"@
                || colorterm@ == "24bit"@) ==> is_truecolor_theme(t, palette),
            !(no_color_flag || no_color_env@.len() > 0) && !(colorterm@ == "truecolor"@
                || colorterm@ == "24bit"@) ==> is_color16_theme(t),
    {
        if no_color_flag || no_color_env.unicode_len() > 0 {
            return Self::monochrome();
        }
        // Check for truecolor support.
        if same_text(colorterm, "truecolor") || same_text(colorterm, "24bit") {
            return Self::truecolor(palette);
        }
        // Default: the 16-color set with distinctive glyphs.
        Self::color256(palette)
    }

    /// Monochrome theme: distinct ASCII letters, no color attributes.
    pub fn monochrome() -> (t: Self)
        ensures
            is_monochrome_theme(t),
    {
        let t = Theme {
            colors: [Color::Reset; 7],
            glyphs: ['I', 'O', 'T', 'S', 'Z', 'J', 'L'],
            monochrome: true,
            base: rgb(TN_BASE),
            mantle: rgb(TN_MANTLE),
            overlay: rgb(TN_OVERLAY),
            text: rgb(TN_TEXT),
            subtext: rgb(TN_SUBTEXT),
            ghost_fill: rgb(TN_GHOST),
            new_best: rgb(TN_NEW_BEST),
        };
        assert(t.colors@ =~= seq![Color::Reset; 7]);
        assert(t.glyphs@ =~= seq!['I', 'O', 'T', 'S', 'Z', 'J', 'L']);
        t
    }

    /// Full RGB theme using the given palette.
    pub fn truecolor(palette: Palette) -> (t: Self)
        ensures
            is_truecolor_theme(t, palette),
    {
        match palette {
            Palette::TokyoNight => Self::full_color(
                [TN_I, TN_O, TN_T, TN_S, TN_Z, TN_J, TN_L],
                [TN_BASE, TN_MANTLE, TN_OVERLAY, TN_TEXT, TN_SUBTEXT, TN_GHOST, TN_NEW_BEST],
            ),
            Palette::CatppuccinMocha => Self::full_color(
                [CM_I, CM_O, CM_T, CM_S, CM_Z, CM_J, CM_L],
                [CM_BASE, CM_MANTLE, CM_OVERLAY, CM_TEXT, CM_SUBTEXT, CM_GHOST, CM_NEW_BEST],
            ),
            Palette::GruvboxDark => Self::full_color(
                [GV_I, GV_O, GV_T, GV_S, GV_Z, GV_J, GV_L],
                [GV_BASE, GV_MANTLE, GV_OVERLAY, GV_TEXT, GV_SUBTEXT, GV_GHOST, GV_NEW_BEST],
            ),
            Palette::Nord => Self::full_color(
                [ND_I, ND_O, ND_T, ND_S, ND_Z, ND_J, ND_L],
                [ND_BASE, ND_MANTLE, ND_OVERLAY, ND_TEXT, ND_SUBTEXT, ND_GHOST, ND_NEW_BEST],
            ),
            Palette::Dracula => Self::full_color(
                [DR_I, DR_O, DR_T, DR_S, DR_Z, DR_J, DR_L],
                [DR_BASE, DR_MANTLE, DR_OVERLAY, DR_TEXT, DR_SUBTEXT, DR_GHOST, DR_NEW_BEST],
            ),
        }
    }

    /// The block-glyph theme with the piece colors `pieces` and the
    /// user-interface colors `ui`, given as hex codes.
    fn full_color(pieces: [u32; 7], ui: [u32; 7]) -> (t: Self)
        ensures
            !t.monochrome,
            t.glyphs@ == seq!['█'; 7],
            has_colors(t, pieces@, ui@),
    {
        let t = Theme {
            colors: [
                rgb(pieces[0]),
                rgb(pieces[1]),
                rgb(pieces[2]),
                rgb(pieces[3]),
                rgb(pieces[4]),
                rgb(pieces[5]),
                rgb(pieces[6]),
            ],
            glyphs: ['█'; 7],
            monochrome: false,
            base: rgb(ui[0]),
            mantle: rgb(ui[1]),
            overlay: rgb(ui[2]),
            text: rgb(ui[3]),
            subtext: rgb(ui[4]),
            ghost_fill: rgb(ui[5]),
            new_best: rgb(ui[6]),
        };
        assert(t.glyphs@ =~= seq!['█'; 7]);
        t
    }

    /// The 16-color theme with distinctive single-character glyphs.  The
    /// palette is accepted for a uniform interface; the 16-color set does
    /// not depend on it.
    pub fn color256(_palette: Palette) -> (t: Self)
        ensures
            is_color16_theme(t),
    {
        let t = Theme {
            colors: [
                Color::Cyan,
                Color::Yellow,
                Color::Magenta,
                Color::Green,
                Color::Red,
                Color::Blue,
                Color::White,
            ],
            glyphs: ['▓', '▒', '░', '■', '▪', '▫', '▬'],
            monochrome: false,
            base: rgb(TN_BASE),
            mantle: rgb(TN_MANTLE),
            overlay: rgb(TN_OVERLAY),
            text: rgb(TN_TEXT),
            subtext: rgb(TN_SUBTEXT),
            ghost_fill: rgb(TN_GHOST),
            new_best: rgb(TN_NEW_BEST),
        };
        assert(t.colors@ =~= seq![
            Color::Cyan,
            Color::Yellow,
            Color::Magenta,
            Color::Green,
            Color::Red,
            Color::Blue,
            Color::White,
        ]);
        assert(t.glyphs@ =~= seq!['▓', '▒', '░', '■', '▪', '▫', '▬']);
        t
    }

    /// Return the color for a given piece kind.
    pub fn color(&self, kind: PieceKind) -> (c: Color)
        ensures
            c == self.colors@[kind_index(kind)],
    {
        self.colors[index_of(kind)]
    }

    /// Return the glyph for a given piece kind.
    pub fn glyph(&self, kind: PieceKind) -> (g: char)
        ensures
            g == self.glyphs@[kind_index(kind)],
    {
        self.glyphs[index_of(kind)]
    }
}

} // verus!
