//! The colour themes the application offers.
use vstd::prelude::*;

verus! {

/// A colour theme.
#[derive(Debug, PartialEq, Eq, Structural, Copy, Clone)]
pub enum Themes {
    Dark,
    Dracula,
    Catppuccin,
    Nord,
    LMMS,
    OneShot,
}

impl Default for Themes {
    fn default() -> (r: Self)
        ensures
            r == Themes::Dark,
    {
        Themes::Dark
    }
}

/// The name a theme is shown by.
pub open spec fn theme_name(t: Themes) -> Seq<char> {
    match t {
        Themes::Dark => "Dark"@,
        Themes::Dracula => "Dracula"@,
        Themes::Nord => "Nord"@,
        Themes::LMMS => "LMMS"@,
        Themes::OneShot => "OneShot"@,
        Themes::Catppuccin => "Catppuccin"@,
    }
}

impl Themes {
    /// Every theme, in the order they are offered.
    pub fn all() -> (r: [Themes; 6])
        ensures
            r@ == seq![Themes::Dark, Themes::Dracula, Themes::Catppuccin, Themes::Nord, Themes::LMMS, Themes::OneShot],
    {
        let r = [Themes::Dark, Themes::Dracula, Themes::Catppuccin, Themes::Nord, Themes::LMMS, Themes::OneShot];
        assert(r@ =~= seq![Themes::Dark, Themes::Dracula, Themes::Catppuccin, Themes::Nord, Themes::LMMS, Themes::OneShot]);
        r
    }

    /// The name the theme is shown by.
    pub fn name(&self) -> (r: &'static str)
        ensures
            r@ == theme_name(*self),
    {
        match self {
            Themes::Dark => "Dark",
            Themes::Dracula => "Dracula",
            Themes::Nord => "Nord",
            Themes::LMMS => "LMMS",
            Themes::OneShot => "OneShot",
            Themes::Catppuccin => "Catppuccin",
        }
    }
}

} // verus!

verus! {

/// The colours of the window's background, panels, darkest parts and
/// borders, as 24-bit RGB values.
#[derive(Debug, Clone, Copy, PartialEq, Eq, Structural)]
pub struct BaseColors {
    pub background: u32,
    pub foreground: u32,
    pub dark: u32,
    pub border: u32,
}

/// The normal colours of a theme, as 24-bit RGB values.
#[derive(Debug, Clone, Copy, PartialEq, Eq, Structural)]
pub struct NormalColors {
    pub primary: u32,
    pub secondary: u32,
    pub surface: u32,
    pub error: u32,
}

/// The bright colours of a theme, as 24-bit RGB values.
#[derive(Debug, Clone, Copy, PartialEq, Eq, Structural)]
pub struct BrightColors {
    pub primary: u32,
    pub secondary: u32,
    pub surface: u32,
    pub error: u32,
}

/// The colours of a theme.
#[derive(Debug, Clone, Copy, PartialEq, Eq, Structural)]
pub struct Palette {
    pub base: BaseColors,
    pub normal: NormalColors,
    pub bright: BrightColors,
}

/// The colours of each theme.
pub open spec fn theme_palette(t: Themes) -> Palette {
    match t {
        Themes::Dark => Palette {
            base: BaseColors { background: 0x272727, foreground: 0x353535, dark: 0x151515, border: 0x474747 },
            normal: NormalColors { primary: 0x5E4266, secondary: 0x386E50, surface: 0x828282, error: 0xFF5555 },
            bright: BrightColors { primary: 0xBA84FC, secondary: 0x49EB7A, surface: 0xE0E0E0, error: 0xFF5555 },
        },
        Themes::Dracula => Palette {
            base: BaseColors { background: 0x282A36, foreground: 0x44475A, dark: 0x1D1E26, border: 0x4F5263 },
            normal: NormalColors { primary: 0xFF79C6, secondary: 0x50FA7B, surface: 0xF8F8F2, error: 0xFF5555 },
            bright: BrightColors { primary: 0xFF79C6, secondary: 0x50FA7B, surface: 0xF8F8F2, error: 0xFF5555 },
        },
        Themes::Catppuccin => Palette {
            base: BaseColors { background: 0x1E1E28, foreground: 0x332E41, dark: 0x1B1923, border: 0x6E6C7E },
            normal: NormalColors { primary: 0xC6AAE8, secondary: 0xB1E3AD, surface: 0xD7DAE0, error: 0xE38C8F },
            bright: BrightColors { primary: 0xC6AAE8, secondary: 0xB1E3AD, surface: 0xFEFECD, error: 0xE38C8F },
        },
        Themes::Nord => Palette {
            base: BaseColors { background: 0x2E3440, foreground: 0x3B4252, dark: 0x21252D, border: 0x50586D },
            normal: NormalColors { primary: 0x88C0D0, secondary: 0xA3BE8C, surface: 0xE5E9F0, error: 0xBF616A },
            bright: BrightColors { primary: 0x88C0D0, secondary: 0xA3BE8C, surface: 0xE5E9F0, error: 0xBF616A },
        },
        Themes::LMMS => Palette {
            base: BaseColors { background: 0x262B30, foreground: 0x3B424A, dark: 0x111314, border: 0x4C5864 },
            normal: NormalColors { primary: 0x309655, secondary: 0x309655, surface: 0xE5E9F0, error: 0xFF5555 },
            bright: BrightColors { primary: 0x0BD556, secondary: 0x0BD556, surface: 0xE5E9F0, error: 0xFF5555 },
        },
        Themes::OneShot => Palette {
            base: BaseColors { background: 0x1A0B1D, foreground: 0x2B0D1A, dark: 0x100213, border: 0xFBCD5D },
            normal: NormalColors { primary: 0xF48550, secondary: 0x80FF80, surface: 0xFEFECD, error: 0xFF5555 },
            bright: BrightColors { primary: 0xFBCD5D, secondary: 0x80FF80, surface: 0xFEFECD, error: 0xFF5555 },
        },
    }
}

impl Themes {
    /// The colours of the theme.
    pub fn palette(&self) -> (r: Palette)
        ensures
            r == theme_palette(*self),
    {
        match self {
            Themes::Dark => Palette {
                base: BaseColors { background: 0x272727, foreground: 0x353535, dark: 0x151515, border: 0x474747 },
                normal: NormalColors { primary: 0x5E4266, secondary: 0x386E50, surface: 0x828282, error: 0xFF5555 },
                bright: BrightColors { primary: 0xBA84FC, secondary: 0x49EB7A, surface: 0xE0E0E0, error: 0xFF5555 },
            },
            Themes::Dracula => Palette {
                base: BaseColors { background: 0x282A36, foreground: 0x44475A, dark: 0x1D1E26, border: 0x4F5263 },
                normal: NormalColors { primary: 0xFF79C6, secondary: 0x50FA7B, surface: 0xF8F8F2, error: 0xFF5555 },
                bright: BrightColors { primary: 0xFF79C6, secondary: 0x50FA7B, surface: 0xF8F8F2, error: 0xFF5555 },
            },
            Themes::Catppuccin => Palette {
                base: BaseColors { background: 0x1E1E28, foreground: 0x332E41, dark: 0x1B1923, border: 0x6E6C7E },
                normal: NormalColors { primary: 0xC6AAE8, secondary: 0xB1E3AD, surface: 0xD7DAE0, error: 0xE38C8F },
                bright: BrightColors { primary: 0xC6AAE8, secondary: 0xB1E3AD, surface: 0xFEFECD, error: 0xE38C8F },
            },
            Themes::Nord => Palette {
                base: BaseColors { background: 0x2E3440, foreground: 0x3B4252, dark: 0x21252D, border: 0x50586D },
                normal: NormalColors { primary: 0x88C0D0, secondary: 0xA3BE8C, surface: 0xE5E9F0, error: 0xBF616A },
                bright: BrightColors { primary: 0x88C0D0, secondary: 0xA3BE8C, surface: 0xE5E9F0, error: 0xBF616A },
            },
            Themes::LMMS => Palette {
                base: BaseColors { background: 0x262B30, foreground: 0x3B424A, dark: 0x111314, border: 0x4C5864 },
                normal: NormalColors { primary: 0x309655, secondary: 0x309655, surface: 0xE5E9F0, error: 0xFF5555 },
                bright: BrightColors { primary: 0x0BD556, secondary: 0x0BD556, surface: 0xE5E9F0, error: 0xFF5555 },
            },
            Themes::OneShot => Palette {
                base: BaseColors { background: 0x1A0B1D, foreground: 0x2B0D1A, dark: 0x100213, border: 0xFBCD5D },
                normal: NormalColors { primary: 0xF48550, secondary: 0x80FF80, surface: 0xFEFECD, error: 0xFF5555 },
                bright: BrightColors { primary: 0xFBCD5D, secondary: 0x80FF80, surface: 0xFEFECD, error: 0xFF5555 },
            },
        }
    }
}

} // verus!
