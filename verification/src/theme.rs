//! Colour themes: the theme choices and their index in the settings list,
//! the window and terminal palettes of each, the colours the custom
//! renderer derives from the active palette, and terminal profiles.
use vstd::prelude::*;

use crate::text::{
    append_chars, append_str, chars_of, has_prefix, has_suffix, push_decimal, decimal_digits,
    string_of, ascii_upper_of, to_ascii_upper,
};

verus! {

broadcast use vstd::string::group_string_axioms;

// ─── Theme choices ───────────────────────────────────────────────────

#[derive(Clone, Copy, Debug, PartialEq, Eq, Structural)]
pub enum ThemeMode {
    Dark,
    Light,
    AtomMaterial,
    Nord,
    Dracula,
    SolarizedDark,
    Monokai,
    GruvboxDark,
}

/// The position of a theme in the settings list.
pub open spec fn index_of_mode(mode: ThemeMode) -> u32 {
    match mode {
        ThemeMode::Dark => 0,
        ThemeMode::Light => 1,
        ThemeMode::AtomMaterial => 2,
        ThemeMode::Nord => 3,
        ThemeMode::Dracula => 4,
        ThemeMode::SolarizedDark => 5,
        ThemeMode::Monokai => 6,
        ThemeMode::GruvboxDark => 7,
    }
}

/// The theme at a position of the settings list; `Dark` past its end.
pub open spec fn mode_of_index(index: u32) -> ThemeMode {
    if index == 1 {
        ThemeMode::Light
    } else if index == 2 {
        ThemeMode::AtomMaterial
    } else if index == 3 {
        ThemeMode::Nord
    } else if index == 4 {
        ThemeMode::Dracula
    } else if index == 5 {
        ThemeMode::SolarizedDark
    } else if index == 6 {
        ThemeMode::Monokai
    } else if index == 7 {
        ThemeMode::GruvboxDark
    } else {
        ThemeMode::Dark
    }
}

impl ThemeMode {
    /// The theme chosen when nothing was saved.
    pub fn default_mode() -> (m: ThemeMode)
        ensures
            m == ThemeMode::Dark,
    {
        ThemeMode::Dark
    }

    /// The position of this theme in the settings list.
    pub fn selected_index(self) -> (i: u32)
        ensures
            i == index_of_mode(self),
    {
        match self {
            ThemeMode::Dark => 0,
            ThemeMode::Light => 1,
            ThemeMode::AtomMaterial => 2,
            ThemeMode::Nord => 3,
            ThemeMode::Dracula => 4,
            ThemeMode::SolarizedDark => 5,
            ThemeMode::Monokai => 6,
            ThemeMode::GruvboxDark => 7,
        }
    }

    /// The theme at a position of the settings list; `Dark` past its end.
    pub fn from_index(index: u32) -> (m: ThemeMode)
        ensures
            m == mode_of_index(index),
    {
        match index {
            1 => ThemeMode::Light,
            2 => ThemeMode::AtomMaterial,
            3 => ThemeMode::Nord,
            4 => ThemeMode::Dracula,
            5 => ThemeMode::SolarizedDark,
            6 => ThemeMode::Monokai,
            7 => ThemeMode::GruvboxDark,
            _ => ThemeMode::Dark,
        }
    }

    /// Whether GTK should use its dark variant: every theme but `Light`.
    pub fn prefers_dark_gtk(self) -> (r: bool)
        ensures
            r == (self != ThemeMode::Light),
    {
        !matches!(self, ThemeMode::Light)
    }
}

/// Choosing a theme from the list and reading its position back gives
/// that theme again.
pub proof fn law_index_round_trip(mode: ThemeMode)
    ensures
        mode_of_index(index_of_mode(mode)) == mode,
{
}

/// Every position of the list names a theme whose position it is; any
/// other position falls back to the first theme.
pub proof fn law_index_in_range(index: u32)
    ensures
        index < 8 ==> index_of_mode(mode_of_index(index)) == index,
        index >= 8 ==> mode_of_index(index) == ThemeMode::Dark,
{
}

// ─── Palettes ────────────────────────────────────────────────────────

#[derive(Clone, Copy, Debug, PartialEq, Eq, Structural)]
pub struct Palette {
    pub bg_primary: u32,
    pub bg_titlebar: u32,
    pub surface_base: u32,
    pub accent: u32,
    pub text_primary: u32,
    pub text_secondary: u32,
    pub text_dim: u32,
    pub window_edge: u32,
    pub border_strong: u32,
    pub sem_yellow: u32,
    pub sem_green: u32,
    pub sem_orange: u32,
    pub sem_blue: u32,
    pub sem_magenta: u32,
    pub sem_brown: u32,
    pub sem_gray: u32,
}

/// The window palette of each theme.
pub open spec fn palette_of(mode: ThemeMode) -> Palette {
    match mode {
        ThemeMode::Dark => Palette {
            bg_primary: 0x00000000,
            bg_titlebar: 0x00000000,
            surface_base: 0x000B0B0B,
            accent: 0x00FF4D4D,
            text_primary: 0x00F3F3EF,
            text_secondary: 0x00BABAB3,
            text_dim: 0x006B6B66,
            window_edge: 0x00E8E8E8,
            border_strong: 0x00242424,
            sem_yellow: 0x00E8C87A,
            sem_green: 0x007FB685,
            sem_orange: 0x00E87050,
            sem_blue: 0x005B9BD5,
            sem_magenta: 0x00C79DD6,
            sem_brown: 0x00B0896E,
            sem_gray: 0x006B6B66,
        },
        ThemeMode::Light => Palette {
            bg_primary: 0x00F6F2EB,
            bg_titlebar: 0x00F6F2EB,
            surface_base: 0x00FFFDF9,
            accent: 0x00C54242,
            text_primary: 0x001F1D1A,
            text_secondary: 0x005F584F,
            text_dim: 0x00878074,
            window_edge: 0x00C8BFB3,
            border_strong: 0x00C9C0B4,
            sem_yellow: 0x00B57C12,
            sem_green: 0x004E7757,
            sem_orange: 0x00B35E3F,
            sem_blue: 0x003E74AF,
            sem_magenta: 0x007D648C,
            sem_brown: 0x007B5E49,
            sem_gray: 0x00878074,
        },
        ThemeMode::AtomMaterial => Palette {
            bg_primary: 0x00151515,
            bg_titlebar: 0x00151515,
            surface_base: 0x001E1E1E,
            accent: 0x0089DDFF,
            text_primary: 0x00EEFFFF,
            text_secondary: 0x00B0BEC5,
            text_dim: 0x00546E7A,
            window_edge: 0x00546E7A,
            border_strong: 0x002C2C2C,
            sem_yellow: 0x00FFCB6B,
            sem_green: 0x00C3E88D,
            sem_orange: 0x00FF5370,
            sem_blue: 0x0082AAFF,
            sem_magenta: 0x00C792EA,
            sem_brown: 0x00F78C6C,
            sem_gray: 0x00546E7A,
        },
        ThemeMode::Nord => Palette {
            bg_primary: 0x001E222A,
            bg_titlebar: 0x001E222A,
            surface_base: 0x002B303C,
            accent: 0x0088C0D0,
            text_primary: 0x00ECEFF4,
            text_secondary: 0x00D8DEE9,
            text_dim: 0x004C566A,
            window_edge: 0x004C566A,
            border_strong: 0x00333A4A,
            sem_yellow: 0x00EBCB8B,
            sem_green: 0x00A3BE8C,
            sem_orange: 0x00BF616A,
            sem_blue: 0x0081A1C1,
            sem_magenta: 0x00B48EAD,
            sem_brown: 0x00D08770,
            sem_gray: 0x004C566A,
        },
        ThemeMode::Dracula => Palette {
            bg_primary: 0x00160F25,
            bg_titlebar: 0x00160F25,
            surface_base: 0x001D1432,
            accent: 0x00BD93F9,
            text_primary: 0x00F8F8F2,
            text_secondary: 0x00BFBFB6,
            text_dim: 0x006272A4,
            window_edge: 0x006272A4,
            border_strong: 0x002C1E4E,
            sem_yellow: 0x00F1FA8C,
            sem_green: 0x0050FA7B,
            sem_orange: 0x00FF5555,
            sem_blue: 0x00BD93F9,
            sem_magenta: 0x00FF79C6,
            sem_brown: 0x00FFB86C,
            sem_gray: 0x006272A4,
        },
        ThemeMode::SolarizedDark => Palette {
            bg_primary: 0x00001A21,
            bg_titlebar: 0x00001A21,
            surface_base: 0x0004242C,
            accent: 0x00268BD2,
            text_primary: 0x00FDF6E3,
            text_secondary: 0x0093A1A1,
            text_dim: 0x00586E75,
            window_edge: 0x00586E75,
            border_strong: 0x0006323D,
            sem_yellow: 0x00B58900,
            sem_green: 0x00859900,
            sem_orange: 0x00DC322F,
            sem_blue: 0x00268BD2,
            sem_magenta: 0x00D33682,
            sem_brown: 0x00CB4B16,
            sem_gray: 0x00586E75,
        },
        ThemeMode::Monokai => Palette {
            bg_primary: 0x00191A16,
            bg_titlebar: 0x00191A16,
            surface_base: 0x001E1E19,
            accent: 0x00F92672,
            text_primary: 0x00F8F8F2,
            text_secondary: 0x00CFCFC2,
            text_dim: 0x0075715E,
            window_edge: 0x0075715E,
            border_strong: 0x00292821,
            sem_yellow: 0x00E6DB74,
            sem_green: 0x00A6E22E,
            sem_orange: 0x00F92672,
            sem_blue: 0x0066D9EF,
            sem_magenta: 0x00AE81FF,
            sem_brown: 0x00FD971F,
            sem_gray: 0x0075715E,
        },
        ThemeMode::GruvboxDark => Palette {
            bg_primary: 0x001A1A1A,
            bg_titlebar: 0x001A1A1A,
            surface_base: 0x00272523,
            accent: 0x00FE8019,
            text_primary: 0x00EBDBB2,
            text_secondary: 0x00BDAE93,
            text_dim: 0x00665C54,
            window_edge: 0x00665C54,
            border_strong: 0x00383330,
            sem_yellow: 0x00D79921,
            sem_green: 0x00B8BB26,
            sem_orange: 0x00CC241D,
            sem_blue: 0x00458588,
            sem_magenta: 0x00B16286,
            sem_brown: 0x00D65D0E,
            sem_gray: 0x00665C54,
        },
    }
}

/// The window palette of a theme.
pub fn palette(mode: ThemeMode) -> (p: Palette)
    ensures
        p == palette_of(mode),
{
    match mode {
        ThemeMode::Dark => Palette {
            bg_primary: 0x00000000,
            bg_titlebar: 0x00000000,
            surface_base: 0x000B0B0B,
            accent: 0x00FF4D4D,
            text_primary: 0x00F3F3EF,
            text_secondary: 0x00BABAB3,
            text_dim: 0x006B6B66,
            window_edge: 0x00E8E8E8,
            border_strong: 0x00242424,
            sem_yellow: 0x00E8C87A,
            sem_green: 0x007FB685,
            sem_orange: 0x00E87050,
            sem_blue: 0x005B9BD5,
            sem_magenta: 0x00C79DD6,
            sem_brown: 0x00B0896E,
            sem_gray: 0x006B6B66,
        },
        ThemeMode::Light => Palette {
            bg_primary: 0x00F6F2EB,
            bg_titlebar: 0x00F6F2EB,
            surface_base: 0x00FFFDF9,
            accent: 0x00C54242,
            text_primary: 0x001F1D1A,
            text_secondary: 0x005F584F,
            text_dim: 0x00878074,
            window_edge: 0x00C8BFB3,
            border_strong: 0x00C9C0B4,
            sem_yellow: 0x00B57C12,
            sem_green: 0x004E7757,
            sem_orange: 0x00B35E3F,
            sem_blue: 0x003E74AF,
            sem_magenta: 0x007D648C,
            sem_brown: 0x007B5E49,
            sem_gray: 0x00878074,
        },
        ThemeMode::AtomMaterial => Palette {
            bg_primary: 0x00151515,
            bg_titlebar: 0x00151515,
            surface_base: 0x001E1E1E,
            accent: 0x0089DDFF,
            text_primary: 0x00EEFFFF,
            text_secondary: 0x00B0BEC5,
            text_dim: 0x00546E7A,
            window_edge: 0x00546E7A,
            border_strong: 0x002C2C2C,
            sem_yellow: 0x00FFCB6B,
            sem_green: 0x00C3E88D,
            sem_orange: 0x00FF5370,
            sem_blue: 0x0082AAFF,
            sem_magenta: 0x00C792EA,
            sem_brown: 0x00F78C6C,
            sem_gray: 0x00546E7A,
        },
        ThemeMode::Nord => Palette {
            bg_primary: 0x001E222A,
            bg_titlebar: 0x001E222A,
            surface_base: 0x002B303C,
            accent: 0x0088C0D0,
            text_primary: 0x00ECEFF4,
            text_secondary: 0x00D8DEE9,
            text_dim: 0x004C566A,
            window_edge: 0x004C566A,
            border_strong: 0x00333A4A,
            sem_yellow: 0x00EBCB8B,
            sem_green: 0x00A3BE8C,
            sem_orange: 0x00BF616A,
            sem_blue: 0x0081A1C1,
            sem_magenta: 0x00B48EAD,
            sem_brown: 0x00D08770,
            sem_gray: 0x004C566A,
        },
        ThemeMode::Dracula => Palette {
            bg_primary: 0x00160F25,
            bg_titlebar: 0x00160F25,
            surface_base: 0x001D1432,
            accent: 0x00BD93F9,
            text_primary: 0x00F8F8F2,
            text_secondary: 0x00BFBFB6,
            text_dim: 0x006272A4,
            window_edge: 0x006272A4,
            border_strong: 0x002C1E4E,
            sem_yellow: 0x00F1FA8C,
            sem_green: 0x0050FA7B,
            sem_orange: 0x00FF5555,
            sem_blue: 0x00BD93F9,
            sem_magenta: 0x00FF79C6,
            sem_brown: 0x00FFB86C,
            sem_gray: 0x006272A4,
        },
        ThemeMode::SolarizedDark => Palette {
            bg_primary: 0x00001A21,
            bg_titlebar: 0x00001A21,
            surface_base: 0x0004242C,
            accent: 0x00268BD2,
            text_primary: 0x00FDF6E3,
            text_secondary: 0x0093A1A1,
            text_dim: 0x00586E75,
            window_edge: 0x00586E75,
            border_strong: 0x0006323D,
            sem_yellow: 0x00B58900,
            sem_green: 0x00859900,
            sem_orange: 0x00DC322F,
            sem_blue: 0x00268BD2,
            sem_magenta: 0x00D33682,
            sem_brown: 0x00CB4B16,
            sem_gray: 0x00586E75,
        },
        ThemeMode::Monokai => Palette {
            bg_primary: 0x00191A16,
            bg_titlebar: 0x00191A16,
            surface_base: 0x001E1E19,
            accent: 0x00F92672,
            text_primary: 0x00F8F8F2,
            text_secondary: 0x00CFCFC2,
            text_dim: 0x0075715E,
            window_edge: 0x0075715E,
            border_strong: 0x00292821,
            sem_yellow: 0x00E6DB74,
            sem_green: 0x00A6E22E,
            sem_orange: 0x00F92672,
            sem_blue: 0x0066D9EF,
            sem_magenta: 0x00AE81FF,
            sem_brown: 0x00FD971F,
            sem_gray: 0x0075715E,
        },
        ThemeMode::GruvboxDark => Palette {
            bg_primary: 0x001A1A1A,
            bg_titlebar: 0x001A1A1A,
            surface_base: 0x00272523,
            accent: 0x00FE8019,
            text_primary: 0x00EBDBB2,
            text_secondary: 0x00BDAE93,
            text_dim: 0x00665C54,
            window_edge: 0x00665C54,
            border_strong: 0x00383330,
            sem_yellow: 0x00D79921,
            sem_green: 0x00B8BB26,
            sem_orange: 0x00CC241D,
            sem_blue: 0x00458588,
            sem_magenta: 0x00B16286,
            sem_brown: 0x00D65D0E,
            sem_gray: 0x00665C54,
        },
    }
}

pub struct TerminalPalette {
    pub foreground: u32,
    pub background: u32,
    pub ansi: [u32; 8],
}

#[verifier::ext_equal]
pub struct TerminalPaletteView {
    pub foreground: u32,
    pub background: u32,
    pub ansi: Seq<u32>,
}

impl View for TerminalPalette {
    type V = TerminalPaletteView;

    open spec fn view(&self) -> TerminalPaletteView {
        TerminalPaletteView { foreground: self.foreground, background: self.background, ansi: self.ansi@ }
    }
}

/// The terminal colours of each theme: foreground, background and the
/// eight ANSI colours from black to white.
pub open spec fn terminal_palette_of(mode: ThemeMode) -> TerminalPaletteView {
    match mode {
        ThemeMode::Dark => TerminalPaletteView {
            foreground: 0x00F3F3EF,
            background: 0x00000000,
            ansi: seq![0x00000000, 0x00FF4D4D, 0x0047A95A, 0x00F0C94A, 0x00D0D0D0, 0x00B3A4BA, 0x0099B8C2, 0x00F3F3EF],
        },
        ThemeMode::Light => TerminalPaletteView {
            foreground: 0x001F1D1A,
            background: 0x00FFFDF9,
            ansi: seq![0x00C9C0B4, 0x00C54242, 0x003A7A4F, 0x00B57C12, 0x004F77C5, 0x007D648C, 0x004E8193, 0x001F1D1A],
        },
        ThemeMode::AtomMaterial => TerminalPaletteView {
            foreground: 0x00EEFFFF,
            background: 0x00151515,
            ansi: seq![0x00546E7A, 0x00FF5370, 0x00C3E88D, 0x00FFCB6B, 0x0082AAFF, 0x00C792EA, 0x0089DDFF, 0x00EEFFFF],
        },
        ThemeMode::Nord => TerminalPaletteView {
            foreground: 0x00ECEFF4,
            background: 0x001E222A,
            ansi: seq![0x003B4252, 0x00BF616A, 0x00A3BE8C, 0x00EBCB8B, 0x0081A1C1, 0x00B48EAD, 0x0088C0D0, 0x00ECEFF4],
        },
        ThemeMode::Dracula => TerminalPaletteView {
            foreground: 0x00F8F8F2,
            background: 0x00160F25,
            ansi: seq![0x0044475A, 0x00FF5555, 0x0050FA7B, 0x00F1FA8C, 0x00BD93F9, 0x00FF79C6, 0x008BE9FD, 0x00F8F8F2],
        },
        ThemeMode::SolarizedDark => TerminalPaletteView {
            foreground: 0x00FDF6E3,
            background: 0x00001A21,
            ansi: seq![0x00073642, 0x00DC322F, 0x00859900, 0x00B58900, 0x00268BD2, 0x00D33682, 0x002AA198, 0x00EEE8D5],
        },
        ThemeMode::Monokai => TerminalPaletteView {
            foreground: 0x00F8F8F2,
            background: 0x00191A16,
            ansi: seq![0x00272822, 0x00F92672, 0x00A6E22E, 0x00E6DB74, 0x0066D9EF, 0x00AE81FF, 0x00A1EFE4, 0x00F8F8F2],
        },
        ThemeMode::GruvboxDark => TerminalPaletteView {
            foreground: 0x00EBDBB2,
            background: 0x001A1A1A,
            ansi: seq![0x00282828, 0x00CC241D, 0x0098971A, 0x00D79921, 0x00458588, 0x00B16286, 0x00689D6A, 0x00EBDBB2],
        },
    }
}

/// The terminal colours of a theme.
pub fn terminal_palette(mode: ThemeMode) -> (p: TerminalPalette)
    ensures
        p@ == terminal_palette_of(mode),
{
    let p = match mode {
        ThemeMode::Dark => TerminalPalette {
            foreground: 0x00F3F3EF,
            background: 0x00000000,
            ansi: [0x00000000, 0x00FF4D4D, 0x0047A95A, 0x00F0C94A, 0x00D0D0D0, 0x00B3A4BA, 0x0099B8C2, 0x00F3F3EF],
        },
        ThemeMode::Light => TerminalPalette {
            foreground: 0x001F1D1A,
            background: 0x00FFFDF9,
            ansi: [0x00C9C0B4, 0x00C54242, 0x003A7A4F, 0x00B57C12, 0x004F77C5, 0x007D648C, 0x004E8193, 0x001F1D1A],
        },
        ThemeMode::AtomMaterial => TerminalPalette {
            foreground: 0x00EEFFFF,
            background: 0x00151515,
            ansi: [0x00546E7A, 0x00FF5370, 0x00C3E88D, 0x00FFCB6B, 0x0082AAFF, 0x00C792EA, 0x0089DDFF, 0x00EEFFFF],
        },
        ThemeMode::Nord => TerminalPalette {
            foreground: 0x00ECEFF4,
            background: 0x001E222A,
            ansi: [0x003B4252, 0x00BF616A, 0x00A3BE8C, 0x00EBCB8B, 0x0081A1C1, 0x00B48EAD, 0x0088C0D0, 0x00ECEFF4],
        },
        ThemeMode::Dracula => TerminalPalette {
            foreground: 0x00F8F8F2,
            background: 0x00160F25,
            ansi: [0x0044475A, 0x00FF5555, 0x0050FA7B, 0x00F1FA8C, 0x00BD93F9, 0x00FF79C6, 0x008BE9FD, 0x00F8F8F2],
        },
        ThemeMode::SolarizedDark => TerminalPalette {
            foreground: 0x00FDF6E3,
            background: 0x00001A21,
            ansi: [0x00073642, 0x00DC322F, 0x00859900, 0x00B58900, 0x00268BD2, 0x00D33682, 0x002AA198, 0x00EEE8D5],
        },
        ThemeMode::Monokai => TerminalPalette {
            foreground: 0x00F8F8F2,
            background: 0x00191A16,
            ansi: [0x00272822, 0x00F92672, 0x00A6E22E, 0x00E6DB74, 0x0066D9EF, 0x00AE81FF, 0x00A1EFE4, 0x00F8F8F2],
        },
        ThemeMode::GruvboxDark => TerminalPalette {
            foreground: 0x00EBDBB2,
            background: 0x001A1A1A,
            ansi: [0x00282828, 0x00CC241D, 0x0098971A, 0x00D79921, 0x00458588, 0x00B16286, 0x00689D6A, 0x00EBDBB2],
        },
    };
    assert(p@ =~= terminal_palette_of(mode));
    p
}

// ─── Colours of the custom renderer ──────────────────────────────────

/// The palette the renderer draws with: the one set last, or the dark
/// theme's before any was set.
pub fn effective_palette(active: Option<Palette>) -> (p: Palette)
    ensures
        p == match active {
            Some(a) => a,
            None => palette_of(ThemeMode::Dark),
        },
{
    match active {
        Some(a) => a,
        None => palette(ThemeMode::Dark),
    }
}

pub fn bg_primary(p: &Palette) -> (c: u32)
    ensures
        c == p.bg_primary,
{
    p.bg_primary
}

/// The secondary background is the surface colour.
pub fn bg_secondary(p: &Palette) -> (c: u32)
    ensures
        c == p.surface_base,
{
    p.surface_base
}

/// The sidebar uses the title bar colour.
pub fn bg_sidebar(p: &Palette) -> (c: u32)
    ensures
        c == p.bg_titlebar,
{
    p.bg_titlebar
}

pub fn bg_titlebar(p: &Palette) -> (c: u32)
    ensures
        c == p.bg_titlebar,
{
    p.bg_titlebar
}

pub fn surface_base(p: &Palette) -> (c: u32)
    ensures
        c == p.surface_base,
{
    p.surface_base
}

/// Raised surfaces share the base surface colour.
pub fn surface_raised(p: &Palette) -> (c: u32)
    ensures
        c == p.surface_base,
{
    p.surface_base
}

/// Elevated surfaces share the base surface colour.
pub fn surface_elevated(p: &Palette) -> (c: u32)
    ensures
        c == p.surface_base,
{
    p.surface_base
}

pub fn accent(p: &Palette) -> (c: u32)
    ensures
        c == p.accent,
{
    p.accent
}

/// The accent's RGB with alpha `0x33` in the top byte.
pub fn accent_muted(p: &Palette) -> (c: u32)
    ensures
        c == (p.accent & 0xFF_FFFF) | 0x3300_0000,
{
    (p.accent & 0xFF_FFFF) | 0x3300_0000
}

/// The fixed green of success marks.
pub fn success() -> (c: u32)
    ensures
        c == 0x0038_8C50,
{
    0x0038_8C50
}

/// The fixed amber of warnings.
pub fn warning() -> (c: u32)
    ensures
        c == 0x00C8_9A1E,
{
    0x00C8_9A1E
}

pub fn text_primary(p: &Palette) -> (c: u32)
    ensures
        c == p.text_primary,
{
    p.text_primary
}

pub fn text_secondary(p: &Palette) -> (c: u32)
    ensures
        c == p.text_secondary,
{
    p.text_secondary
}

pub fn text_dim(p: &Palette) -> (c: u32)
    ensures
        c == p.text_dim,
{
    p.text_dim
}

pub fn window_edge(p: &Palette) -> (c: u32)
    ensures
        c == p.window_edge,
{
    p.window_edge
}

/// Borders use the strong border colour.
pub fn border(p: &Palette) -> (c: u32)
    ensures
        c == p.border_strong,
{
    p.border_strong
}

pub fn border_strong(p: &Palette) -> (c: u32)
    ensures
        c == p.border_strong,
{
    p.border_strong
}

/// The eight terminal colours of the custom renderer, derived from the
/// palette: black, red, green, yellow, blue, magenta, cyan, white, then
/// gray and dark gray.
pub open spec fn renderer_ansi_of(p: Palette) -> Seq<u32> {
    seq![
        p.bg_primary,
        p.accent,
        0x0038_8C50u32,
        0x00C8_9A1Eu32,
        p.text_primary,
        p.text_secondary,
        p.text_secondary,
        p.text_primary,
        p.text_secondary,
        p.text_dim,
    ]
}

pub fn term_black(p: &Palette) -> (c: u32)
    ensures
        c == renderer_ansi_of(*p)[0],
{
    bg_primary(p)
}

pub fn term_red(p: &Palette) -> (c: u32)
    ensures
        c == renderer_ansi_of(*p)[1],
{
    accent(p)
}

pub fn term_green() -> (c: u32)
    ensures
        forall|p: Palette| c == #[trigger] renderer_ansi_of(p)[2],
{
    success()
}

pub fn term_yellow() -> (c: u32)
    ensures
        forall|p: Palette| c == #[trigger] renderer_ansi_of(p)[3],
{
    warning()
}

pub fn term_blue(p: &Palette) -> (c: u32)
    ensures
        c == renderer_ansi_of(*p)[4],
{
    text_primary(p)
}

pub fn term_magenta(p: &Palette) -> (c: u32)
    ensures
        c == renderer_ansi_of(*p)[5],
{
    text_secondary(p)
}

pub fn term_cyan(p: &Palette) -> (c: u32)
    ensures
        c == renderer_ansi_of(*p)[6],
{
    text_secondary(p)
}

pub fn term_white(p: &Palette) -> (c: u32)
    ensures
        c == renderer_ansi_of(*p)[7],
{
    text_primary(p)
}

pub fn term_gray(p: &Palette) -> (c: u32)
    ensures
        c == renderer_ansi_of(*p)[8],
{
    text_secondary(p)
}

pub fn term_dark_gray(p: &Palette) -> (c: u32)
    ensures
        c == renderer_ansi_of(*p)[9],
{
    text_dim(p)
}

// ─── CSS colours ─────────────────────────────────────────────────────

/// An upper-case hexadecimal digit.
pub open spec fn hex_digit(d: nat) -> char {
    if d < 10 {
        ((d + 48) as u32) as char
    } else {
        ((d + 55) as u32) as char
    }
}

/// Six upper-case hexadecimal digits of `v`, most significant first.
pub open spec fn hex6_of(v: nat) -> Seq<char> {
    seq![
        hex_digit((v / 0x10_0000) % 16),
        hex_digit((v / 0x1_0000) % 16),
        hex_digit((v / 0x1000) % 16),
        hex_digit((v / 0x100) % 16),
        hex_digit((v / 0x10) % 16),
        hex_digit(v % 16),
    ]
}

fn hex_char(d: u32) -> (c: char)
    requires
        d < 16,
    ensures
        c == hex_digit(d as nat),
{
    if d < 10 {
        ((d + 48) as u8) as char
    } else {
        ((d + 55) as u8) as char
    }
}

/// `#RRGGBB` for the low 24 bits of a colour, as CSS reads it.
pub fn css_color(color: u32) -> (s: String)
    ensures
        s@ == "#"@ + hex6_of((color % 0x100_0000) as nat),
{
    let v = color & 0x00FF_FFFF;
    assert(color & 0x00FF_FFFF == color % 0x100_0000) by (bit_vector);
    let mut out = chars_of("#");
    out.push(hex_char((v / 0x10_0000) % 16));
    out.push(hex_char((v / 0x1_0000) % 16));
    out.push(hex_char((v / 0x1000) % 16));
    out.push(hex_char((v / 0x100) % 16));
    out.push(hex_char((v / 0x10) % 16));
    out.push(hex_char(v % 16));
    assert(out@ =~= "#"@ + hex6_of(v as nat));
    string_of(&out)
}

// ─── Terminal profiles ───────────────────────────────────────────────

#[derive(Clone, Copy, Debug, PartialEq, Eq, Structural)]
pub enum ProfileId {
    Default,
    Focus,
    Compact,
}

/// The name a profile is shown by.
pub open spec fn profile_label_of(id: ProfileId) -> Seq<char> {
    match id {
        ProfileId::Default => "Default"@,
        ProfileId::Focus => "Focus"@,
        ProfileId::Compact => "Compact"@,
    }
}

/// The profile that comes after `id` when cycling.
pub open spec fn next_profile_of(id: ProfileId) -> ProfileId {
    match id {
        ProfileId::Default => ProfileId::Focus,
        ProfileId::Focus => ProfileId::Compact,
        ProfileId::Compact => ProfileId::Default,
    }
}

/// The name a profile is shown by.
pub fn profile_label(id: ProfileId) -> (s: &'static str)
    ensures
        s@ == profile_label_of(id),
{
    match id {
        ProfileId::Default => "Default",
        ProfileId::Focus => "Focus",
        ProfileId::Compact => "Compact",
    }
}

/// The profile that comes after `id` when cycling.
pub fn next_profile(id: ProfileId) -> (n: ProfileId)
    ensures
        n == next_profile_of(id),
{
    match id {
        ProfileId::Default => ProfileId::Focus,
        ProfileId::Focus => ProfileId::Compact,
        ProfileId::Compact => ProfileId::Default,
    }
}

/// Cycling through the profiles three times comes back to the start.
pub proof fn law_profile_cycle(id: ProfileId)
    ensures
        next_profile_of(next_profile_of(next_profile_of(id))) == id,
        next_profile_of(id) != id,
{
}

/// The ` (Label)` a tab title carries for a profile other than the
/// default.
pub open spec fn profile_suffix(id: ProfileId) -> Seq<char> {
    " ("@ + profile_label_of(id) + ")"@
}

/// The title shown for a tab: the base title, with the profile's label
/// in brackets unless it is the default profile.
pub open spec fn display_title_of(base: Seq<char>, id: ProfileId) -> Seq<char> {
    if id == ProfileId::Default {
        base
    } else {
        base + profile_suffix(id)
    }
}

/// The base title under a shown title: the profile's suffix removed where
/// the title ends with it.
pub open spec fn stored_base_title_of(title: Seq<char>, id: ProfileId) -> Seq<char> {
    if id == ProfileId::Default {
        title
    } else if has_suffix(title, profile_suffix(id)) {
        title.take(title.len() - profile_suffix(id).len())
    } else {
        title
    }
}

fn profile_suffix_chars(id: ProfileId) -> (out: Vec<char>)
    ensures
        out@ == profile_suffix(id),
{
    let mut out = chars_of(" (");
    append_str(&mut out, profile_label(id));
    append_str(&mut out, ")");
    out
}

/// The title shown for a tab with the given profile.
pub fn display_title(base_title: &str, profile_id: ProfileId) -> (s: String)
    ensures
        s@ == display_title_of(base_title@, profile_id),
{
    if profile_id == ProfileId::Default {
        return base_title.to_string();
    }
    let mut out = chars_of(base_title);
    let suffix = profile_suffix_chars(profile_id);
    append_chars(&mut out, &suffix);
    string_of(&out)
}

/// The base title under a shown title.
pub fn stored_base_title(title: &str, profile_id: ProfileId) -> (s: String)
    ensures
        s@ == stored_base_title_of(title@, profile_id),
{
    if profile_id == ProfileId::Default {
        return title.to_string();
    }
    let t = chars_of(title);
    let suffix = profile_suffix_chars(profile_id);
    if crate::text::ends_with_chars(&t, &suffix) {
        let keep = t.len() - suffix.len();
        let base = crate::text::slice_chars(&t, 0, keep);
        assert(base@ =~= t@.take(keep as int));
        string_of(&base)
    } else {
        title.to_string()
    }
}

/// Renaming a tab and reading its title back: the base title under the
/// shown title is the base title itself.
pub proof fn law_title_round_trip(base: Seq<char>, id: ProfileId)
    ensures
        stored_base_title_of(display_title_of(base, id), id) == base,
{
    if id != ProfileId::Default {
        let t = base + profile_suffix(id);
        assert(t.skip(t.len() - profile_suffix(id).len()) =~= profile_suffix(id));
        assert(t.take(t.len() - profile_suffix(id).len()) =~= base);
    }
}

// ─── Small labels ────────────────────────────────────────────────────

/// `↑a ↓b` for commits ahead of and behind the upstream, each part only
/// when it is not zero.
pub open spec fn ahead_behind_of(ahead: nat, behind: nat) -> Seq<char> {
    if ahead == 0 && behind == 0 {
        Seq::empty()
    } else if behind == 0 {
        seq!['\u{2191}'] + decimal_digits(ahead)
    } else if ahead == 0 {
        seq!['\u{2193}'] + decimal_digits(behind)
    } else {
        seq!['\u{2191}'] + decimal_digits(ahead) + seq![' ', '\u{2193}'] + decimal_digits(behind)
    }
}

/// `↑a ↓b` for commits ahead of and behind the upstream.
pub fn format_ahead_behind(ahead: u32, behind: u32) -> (s: String)
    ensures
        s@ == ahead_behind_of(ahead as nat, behind as nat),
{
    let mut out: Vec<char> = Vec::new();
    if ahead == 0 && behind == 0 {
        return string_of(&out);
    }
    if ahead > 0 {
        out.push('\u{2191}');
        push_decimal(&mut out, ahead as u64);
    }
    if ahead > 0 && behind > 0 {
        out.push(' ');
    }
    if behind > 0 {
        out.push('\u{2193}');
        push_decimal(&mut out, behind as u64);
    }
    assert(out@ =~= ahead_behind_of(ahead as nat, behind as nat));
    string_of(&out)
}

/// A path with the home directory written as `~`, where the path starts
/// with it and it is not empty.
pub open spec fn tilde_path_of(path: Seq<char>, home: Seq<char>) -> Seq<char> {
    if home.len() > 0 && has_prefix(path, home) {
        seq!['~'] + path.skip(home.len() as int)
    } else {
        path
    }
}

/// Shows a working directory with the home directory written as `~`.
pub fn tilde_path(path: &str, home: &str) -> (s: String)
    ensures
        s@ == tilde_path_of(path@, home@),
{
    let p = chars_of(path);
    let h = chars_of(home);
    if h.len() > 0 && crate::text::starts_with_chars(&p, &h) {
        let mut out: Vec<char> = Vec::new();
        out.push('~');
        let rest = crate::text::slice_chars(&p, h.len(), p.len());
        append_chars(&mut out, &rest);
        assert(out@ =~= seq!['~'] + p@.skip(h@.len() as int));
        string_of(&out)
    } else {
        path.to_string()
    }
}

/// ` NAME ` with the feature name in upper case, as a panel title.
pub fn feature_title(feature_name: &str) -> (s: String)
    ensures
        s@ == " "@ + ascii_upper_of(feature_name@) + " "@,
{
    let mut out = chars_of(" ");
    let upper = to_ascii_upper(&chars_of(feature_name));
    append_chars(&mut out, &upper);
    append_str(&mut out, " ");
    string_of(&out)
}

/// The last action's status line, or `status: ready`.
pub fn status_line(last_action: Option<&str>) -> (s: String)
    ensures
        s@ == match last_action {
            Some(a) => a@,
            None => "status: ready"@,
        },
{
    match last_action {
        Some(a) => a.to_string(),
        None => "status: ready".to_string(),
    }
}

} // verus!
