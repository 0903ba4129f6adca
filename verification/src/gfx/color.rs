//! Colors with a blend mode that is resolved when a channel is read.

use vstd::prelude::*;

verus! {

/// How a color's stored channels are turned into the values that are drawn.
#[derive(Debug, Clone, Copy, PartialEq, Eq, PartialOrd, Ord, Structural)]
pub enum BlendMode {
    /// The stored channels are used as they are.
    Normal,
    /// Every channel reads as its complement.
    Invert,
    /// Nothing is drawn.
    Transparent,
}

/// An RGB color with a separate monochrome channel and a blend mode.
///
/// The blend mode is never baked into the stored channels: the accessors
/// apply it on every read, so changing `blend_mode` later changes what the
/// accessors return while the stored channels stay as they were.
#[derive(Debug, Clone, Copy, PartialEq, Eq, PartialOrd, Ord, Structural)]
pub struct Color {
    /// Stored red channel.
    pub r: u8,
    /// Stored green channel.
    pub g: u8,
    /// Stored blue channel.
    pub b: u8,
    /// Stored monochrome channel.
    pub m: u8,
    /// How the stored channels are read.
    pub blend_mode: BlendMode,
}

/// The value a channel reads as when it holds `stored` under `mode`.
pub open spec fn blend(mode: BlendMode, stored: u8) -> u8 {
    if mode == BlendMode::Invert {
        (255 - stored) as u8
    } else {
        stored
    }
}

/// The largest of three channel values.
pub open spec fn max3(r: u8, g: u8, b: u8) -> u8 {
    if r >= g && r >= b {
        r
    } else if g >= b {
        g
    } else {
        b
    }
}

proof fn lemma_complement(x: u8)
    by (bit_vector)
    ensures
        !x == 255 - x,
{
}

impl Color {
    /// White: every channel fully lit.
    pub open spec fn spec_white() -> Color {
        Color::spec_from_mono(0xFF)
    }

    /// Black: every channel dark.
    pub open spec fn spec_black() -> Color {
        Color::spec_from_mono(0x00)
    }

    /// The gray whose four channels all hold `mono`, with blend mode `Normal`.
    pub open spec fn spec_from_mono(mono: u8) -> Color {
        Color { r: mono, g: mono, b: mono, m: mono, blend_mode: BlendMode::Normal }
    }

    /// White: every channel fully lit.
    #[verifier::when_used_as_spec(spec_white)]
    pub fn white() -> (c: Self)
        ensures
            c == Color::spec_white(),
    {
        Color::from_mono(0xFF)
    }

    /// Black: every channel dark.
    #[verifier::when_used_as_spec(spec_black)]
    pub fn black() -> (c: Self)
        ensures
            c == Color::spec_black(),
    {
        Color::from_mono(0x00)
    }

    pub open spec fn spec_red(&self) -> u8 {
        blend(self.blend_mode, self.r)
    }

    pub open spec fn spec_green(&self) -> u8 {
        blend(self.blend_mode, self.g)
    }

    pub open spec fn spec_blue(&self) -> u8 {
        blend(self.blend_mode, self.b)
    }

    pub open spec fn spec_mono(&self) -> u8 {
        blend(self.blend_mode, self.m)
    }

    /// A color counts as lit when its mono channel reads above 127.
    pub open spec fn spec_is_active(&self) -> bool {
        self.spec_mono() > 127
    }

    /// A gray of the given brightness: all four channels hold `mono`.
    #[verifier::when_used_as_spec(spec_from_mono)]
    pub fn from_mono(mono: u8) -> (c: Self)
        ensures
            c == Color::spec_from_mono(mono),
    {
        Color { r: mono, g: mono, b: mono, m: mono, blend_mode: BlendMode::Normal }
    }

    /// An RGB color whose mono channel is the brightest of the three.
    pub fn from_rgb(r: u8, g: u8, b: u8) -> (c: Self)
        ensures
            c == (Color { r, g, b, m: max3(r, g, b), blend_mode: BlendMode::Normal }),
    {
        let rg: u8 = if r >= g { r } else { g };
        let m: u8 = if rg >= b { rg } else { b };
        Color { r, g, b, m, blend_mode: BlendMode::Normal }
    }

    /// A color with all four channels given.
    pub fn from_rgbm(r: u8, g: u8, b: u8, m: u8) -> (c: Self)
        ensures
            c == (Color { r, g, b, m, blend_mode: BlendMode::Normal }),
    {
        Color { r, g, b, m, blend_mode: BlendMode::Normal }
    }

    /// A color with all channels zero and the given blend mode.
    pub fn from_blend_mode(blend_mode: BlendMode) -> (c: Self)
        ensures
            c == (Color { r: 0, g: 0, b: 0, m: 0, blend_mode }),
    {
        Color { r: 0, g: 0, b: 0, m: 0, blend_mode }
    }

    /// The red channel as it is drawn.
    #[verifier::when_used_as_spec(spec_red)]
    pub fn red(&self) -> (v: u8)
        ensures
            v == self.spec_red(),
    {
        if self.blend_mode == BlendMode::Invert {
            proof {
                lemma_complement(self.r);
            }
            !self.r
        } else {
            self.r
        }
    }

    /// The green channel as it is drawn.
    #[verifier::when_used_as_spec(spec_green)]
    pub fn green(&self) -> (v: u8)
        ensures
            v == self.spec_green(),
    {
        if self.blend_mode == BlendMode::Invert {
            proof {
                lemma_complement(self.g);
            }
            !self.g
        } else {
            self.g
        }
    }

    /// The blue channel as it is drawn.
    #[verifier::when_used_as_spec(spec_blue)]
    pub fn blue(&self) -> (v: u8)
        ensures
            v == self.spec_blue(),
    {
        if self.blend_mode == BlendMode::Invert {
            proof {
                lemma_complement(self.b);
            }
            !self.b
        } else {
            self.b
        }
    }

    /// The mono channel as it is drawn.
    #[verifier::when_used_as_spec(spec_mono)]
    pub fn mono(&self) -> (v: u8)
        ensures
            v == self.spec_mono(),
    {
        if self.blend_mode == BlendMode::Invert {
            proof {
                lemma_complement(self.m);
            }
            !self.m
        } else {
            self.m
        }
    }

    /// Whether the color lights a monochrome pixel or LED.
    #[verifier::when_used_as_spec(spec_is_active)]
    pub fn is_active(&self) -> (on: bool)
        ensures
            on == self.spec_is_active(),
    {
        self.mono() > 127
    }

    /// The drawn channels in the order red, green, blue.
    pub fn as_array_rgb(&self) -> (a: [u8; 3])
        ensures
            a@ == seq![self.spec_red(), self.spec_green(), self.spec_blue()],
    {
        let a: [u8; 3] = [self.red(), self.green(), self.blue()];
        assert(a@ =~= seq![self.spec_red(), self.spec_green(), self.spec_blue()]);
        a
    }

    /// The drawn channels in the order red, green, blue, mono.
    pub fn as_array_rgbm(&self) -> (a: [u8; 4])
        ensures
            a@ == seq![self.spec_red(), self.spec_green(), self.spec_blue(), self.spec_mono()],
    {
        let a: [u8; 4] = [self.red(), self.green(), self.blue(), self.mono()];
        assert(a@ =~= seq![self.spec_red(), self.spec_green(), self.spec_blue(), self.spec_mono()]);
        a
    }
}

impl Default for Color {
    /// The default color draws nothing.
    fn default() -> (c: Self)
        ensures
            c == (Color { r: 0, g: 0, b: 0, m: 0, blend_mode: BlendMode::Transparent }),
    {
        Color { r: 0, g: 0, b: 0, m: 0, blend_mode: BlendMode::Transparent }
    }
}

impl From<[u8; 3]> for Color {
    /// The color with the given red, green and blue, as `from_rgb` makes it.
    fn from(value: [u8; 3]) -> (c: Self) {
        Color::from_rgb(value[0], value[1], value[2])
    }
}

impl vstd::std_specs::convert::FromSpecImpl<[u8; 3]> for Color {
    open spec fn obeys_from_spec() -> bool {
        true
    }

    open spec fn from_spec(value: [u8; 3]) -> Color {
        Color {
            r: value[0],
            g: value[1],
            b: value[2],
            m: max3(value[0], value[1], value[2]),
            blend_mode: BlendMode::Normal,
        }
    }
}

impl From<[u8; 4]> for Color {
    /// The color with the given red, green, blue and mono, as `from_rgbm` makes it.
    fn from(value: [u8; 4]) -> (c: Self) {
        Color::from_rgbm(value[0], value[1], value[2], value[3])
    }
}

impl vstd::std_specs::convert::FromSpecImpl<[u8; 4]> for Color {
    open spec fn obeys_from_spec() -> bool {
        true
    }

    open spec fn from_spec(value: [u8; 4]) -> Color {
        Color { r: value[0], g: value[1], b: value[2], m: value[3], blend_mode: BlendMode::Normal }
    }
}

} // verus!
