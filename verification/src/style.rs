//! Colors and per-cell text styles, with the two composition operators the
//! rendering pipeline needs: filling unset fields from a fallback, and
//! overwriting with the set fields of an overlay.

use vstd::prelude::*;
use crate::chars;

verus! {

/// A color in the terminal.
#[derive(Debug, Clone, Copy, PartialEq, Eq, Structural)]
pub enum Color {
    Reset,
    Black,
    DarkGrey,
    Red,
    DarkRed,
    Green,
    DarkGreen,
    Yellow,
    DarkYellow,
    Blue,
    DarkBlue,
    Magenta,
    DarkMagenta,
    Cyan,
    DarkCyan,
    White,
    Grey,
    Rgb { r: u8, g: u8, b: u8 },
    AnsiValue(u8),
}

impl Default for Color {
    fn default() -> (c: Color)
        ensures
            c == Color::Reset,
    {
        Color::Reset
    }
}

/// The value of one hexadecimal digit; meaningful only for hex digits.
pub open spec fn hex_val(c: char) -> nat {
    if c == '0' {
        0
    } else if c == '1' {
        1
    } else if c == '2' {
        2
    } else if c == '3' {
        3
    } else if c == '4' {
        4
    } else if c == '5' {
        5
    } else if c == '6' {
        6
    } else if c == '7' {
        7
    } else if c == '8' {
        8
    } else if c == '9' {
        9
    } else if c == 'a' || c == 'A' {
        10
    } else if c == 'b' || c == 'B' {
        11
    } else if c == 'c' || c == 'C' {
        12
    } else if c == 'd' || c == 'D' {
        13
    } else if c == 'e' || c == 'E' {
        14
    } else if c == 'f' || c == 'F' {
        15
    } else {
        16
    }
}

/// True when the character is a hexadecimal digit.
pub open spec fn is_hex_digit(c: char) -> bool {
    hex_val(c) < 16
}

/// `s` stripped of every leading `#`.
pub open spec fn strip_hash(s: Seq<char>) -> Seq<char>
    decreases s.len(),
{
    if s.len() > 0 && s[0] == '#' {
        strip_hash(s.drop_first())
    } else {
        s
    }
}

fn exec_hex_val(c: char) -> (v: u8)
    requires
        is_hex_digit(c),
    ensures
        v == hex_val(c),
{
    if c == '0' {
        0
    } else if c == '1' {
        1
    } else if c == '2' {
        2
    } else if c == '3' {
        3
    } else if c == '4' {
        4
    } else if c == '5' {
        5
    } else if c == '6' {
        6
    } else if c == '7' {
        7
    } else if c == '8' {
        8
    } else if c == '9' {
        9
    } else if c == 'a' || c == 'A' {
        10
    } else if c == 'b' || c == 'B' {
        11
    } else if c == 'c' || c == 'C' {
        12
    } else if c == 'd' || c == 'D' {
        13
    } else if c == 'e' || c == 'E' {
        14
    } else {
        15
    }
}

impl Color {
    /// Returns a color from an rgb value.
    pub fn rgb(r: u8, g: u8, b: u8) -> (c: Color)
        ensures
            c == (Color::Rgb { r, g, b }),
    {
        Color::Rgb { r, g, b }
    }

    /// Returns a color from a hex string such as `#rrggbb`; digits past the
    /// sixth are ignored.
    pub fn hex(s: &str) -> (c: Color)
        requires
            strip_hash(s@).len() >= 6,
            forall|i: int| 0 <= i < 6 ==> is_hex_digit(#[trigger] strip_hash(s@)[i]),
        ensures
            c == (Color::Rgb {
                r: (hex_val(strip_hash(s@)[0]) * 16 + hex_val(strip_hash(s@)[1])) as u8,
                g: (hex_val(strip_hash(s@)[2]) * 16 + hex_val(strip_hash(s@)[3])) as u8,
                b: (hex_val(strip_hash(s@)[4]) * 16 + hex_val(strip_hash(s@)[5])) as u8,
            }),
    {
        let v = chars::chars_of(s);
        proof {
            assert(v@.subrange(0, v@.len() as int) =~= v@);
        }
        let mut start: usize = 0;
        while start < v.len() && v[start] == '#'
            invariant
                start <= v@.len(),
                v@ == s@,
                strip_hash(s@) == strip_hash(v@.subrange(start as int, v@.len() as int)),
            decreases v@.len() - start,
        {
            proof {
                let tail = v@.subrange(start as int, v@.len() as int);
                assert(tail.drop_first() =~= v@.subrange(start + 1, v@.len() as int));
            }
            start = start + 1;
        }
        proof {
            let tail = v@.subrange(start as int, v@.len() as int);
            assert(strip_hash(tail) == tail);
            assert(tail.len() >= 6);
            assert(forall|k: int| 0 <= k < 6 ==> v@[start + k] == #[trigger] tail[k]);
            assert(tail == strip_hash(s@));
            assert(is_hex_digit(strip_hash(s@)[0]) && v@[start as int] == strip_hash(s@)[0]);
            assert(is_hex_digit(strip_hash(s@)[1]) && v@[start + 1] == strip_hash(s@)[1]);
            assert(is_hex_digit(strip_hash(s@)[2]) && v@[start + 2] == strip_hash(s@)[2]);
            assert(is_hex_digit(strip_hash(s@)[3]) && v@[start + 3] == strip_hash(s@)[3]);
            assert(is_hex_digit(strip_hash(s@)[4]) && v@[start + 4] == strip_hash(s@)[4]);
            assert(is_hex_digit(strip_hash(s@)[5]) && v@[start + 5] == strip_hash(s@)[5]);
        }
        let r = exec_hex_val(v[start]) * 16 + exec_hex_val(v[start + 1]);
        let g = exec_hex_val(v[start + 2]) * 16 + exec_hex_val(v[start + 3]);
        let b = exec_hex_val(v[start + 4]) * 16 + exec_hex_val(v[start + 5]);
        Color::Rgb { r, g, b }
    }
}

/// The font intensity.
#[derive(Debug, Clone, Copy, PartialEq, Eq, Structural)]
pub enum FontIntensity {
    Normal,
    Bold,
    Dim,
}

impl Default for FontIntensity {
    fn default() -> (f: FontIntensity)
        ensures
            f == FontIntensity::Normal,
    {
        FontIntensity::Normal
    }
}

/// The style of a single cell; unset fields inherit from the surroundings.
#[derive(Debug, Clone, Copy, PartialEq, Eq, Structural)]
pub struct Style {
    pub fg: Option<Color>,
    pub bg: Option<Color>,
    pub intensity: Option<FontIntensity>,
    pub underline: Option<bool>,
}

/// `a` with every unset field filled from `b`.
pub open spec fn merged(a: Style, b: Style) -> Style {
    Style {
        fg: if a.fg is Some {
            a.fg
        } else {
            b.fg
        },
        bg: if a.bg is Some {
            a.bg
        } else {
            b.bg
        },
        intensity: if a.intensity is Some {
            a.intensity
        } else {
            b.intensity
        },
        underline: if a.underline is Some {
            a.underline
        } else {
            b.underline
        },
    }
}

impl Default for Style {
    fn default() -> (s: Style)
        ensures
            s == Style::unset(),
    {
        Style { fg: None, bg: None, intensity: None, underline: None }
    }
}

impl Style {
    /// The style with no field set.
    pub open spec fn unset() -> Style {
        Style { fg: None, bg: None, intensity: None, underline: None }
    }

    pub fn new() -> (s: Style)
        ensures
            s == Style::unset(),
    {
        Style { fg: None, bg: None, intensity: None, underline: None }
    }

    /// Sets the foreground color.
    pub fn fg(self, color: Color) -> (s: Style)
        ensures
            s == (Style { fg: Some(color), ..self }),
    {
        Style { fg: Some(color), ..self }
    }

    /// Sets the background color.
    pub fn bg(self, color: Color) -> (s: Style)
        ensures
            s == (Style { bg: Some(color), ..self }),
    {
        Style { bg: Some(color), ..self }
    }

    /// Sets the normal intensity.
    pub fn normal(self) -> (s: Style)
        ensures
            s == (Style { intensity: Some(FontIntensity::Normal), ..self }),
    {
        Style { intensity: Some(FontIntensity::Normal), ..self }
    }

    /// Sets the bold intensity.
    pub fn bold(self) -> (s: Style)
        ensures
            s == (Style { intensity: Some(FontIntensity::Bold), ..self }),
    {
        Style { intensity: Some(FontIntensity::Bold), ..self }
    }

    /// Sets the dim intensity.
    pub fn dim(self) -> (s: Style)
        ensures
            s == (Style { intensity: Some(FontIntensity::Dim), ..self }),
    {
        Style { intensity: Some(FontIntensity::Dim), ..self }
    }

    /// Sets the underline flag.
    pub fn underline(self) -> (s: Style)
        ensures
            s == (Style { underline: Some(true), ..self }),
    {
        Style { underline: Some(true), ..self }
    }

    /// Fills every unset field of this style from the given one.
    pub fn apply(&mut self, other: Style)
        ensures
            *final(self) == merged(*old(self), other),
    {
        if self.fg.is_none() {
            self.fg = other.fg;
        }
        if self.bg.is_none() {
            self.bg = other.bg;
        }
        if self.intensity.is_none() {
            self.intensity = other.intensity;
        }
        if self.underline.is_none() {
            self.underline = other.underline;
        }
    }

    /// Overwrites every field that is set in the given style; the rest keep
    /// their value.
    pub fn force_apply(&mut self, other: Style)
        ensures
            *final(self) == merged(other, *old(self)),
    {
        if other.fg.is_some() {
            self.fg = other.fg;
        }
        if other.bg.is_some() {
            self.bg = other.bg;
        }
        if other.intensity.is_some() {
            self.intensity = other.intensity;
        }
        if other.underline.is_some() {
            self.underline = other.underline;
        }
    }

    /// Returns the given style layered over this one: its set fields win.
    pub fn force_applied(self, other: Style) -> (s: Style)
        ensures
            s == merged(other, self),
    {
        let mut out = self;
        out.force_apply(other);
        out
    }

    /// Returns this style with every unset field filled from the given one.
    pub fn merge(self, other: Style) -> (s: Style)
        ensures
            s == merged(self, other),
    {
        let mut out = self;
        out.apply(other);
        out
    }

    /// Resolves the style, replacing every unset field with its default.
    pub fn resolve(self) -> (r: ResolvedStyle)
        ensures
            r == (ResolvedStyle {
                fg: if self.fg is Some {
                    self.fg->0
                } else {
                    Color::Reset
                },
                bg: if self.bg is Some {
                    self.bg->0
                } else {
                    Color::Reset
                },
                intensity: if self.intensity is Some {
                    self.intensity->0
                } else {
                    FontIntensity::Normal
                },
                underline: if self.underline is Some {
                    self.underline->0
                } else {
                    false
                },
            }),
    {
        ResolvedStyle {
            fg: match self.fg {
                Some(c) => c,
                None => Color::Reset,
            },
            bg: match self.bg {
                Some(c) => c,
                None => Color::Reset,
            },
            intensity: match self.intensity {
                Some(f) => f,
                None => FontIntensity::Normal,
            },
            underline: match self.underline {
                Some(u) => u,
                None => false,
            },
        }
    }
}

/// A fully determined style, ready to hand to a terminal.
#[derive(Debug, Clone, Copy, PartialEq, Eq, Structural)]
pub struct ResolvedStyle {
    pub fg: Color,
    pub bg: Color,
    pub intensity: FontIntensity,
    pub underline: bool,
}

} // verus!
