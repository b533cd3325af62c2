//! The colour palette of the light and dark themes.

use vstd::prelude::*;

verus! {

/// A colour as red, green, blue and alpha bytes.
#[derive(Debug, Clone, Copy, PartialEq, Eq, Structural)]
pub struct Rgba {
    pub r: u8,
    pub g: u8,
    pub b: u8,
    pub a: u8,
}

/// The fully opaque colour with these red, green and blue bytes.
pub open spec fn opaque(r: u8, g: u8, b: u8) -> Rgba {
    Rgba { r, g, b, a: 255 }
}

/// Makes the fully opaque colour with these red, green and blue bytes.
pub fn rgb(r: u8, g: u8, b: u8) -> (c: Rgba)
    ensures
        c == opaque(r, g, b),
{
    Rgba { r, g, b, a: 255 }
}

/// Which of the two palettes is in use.
#[derive(Clone, Copy)]
pub struct Theme {
    pub dark: bool,
}

impl Theme {
    /// The dark theme when `dark` holds, else the light one.
    pub fn new(dark: bool) -> (t: Theme)
        ensures
            t.dark == dark,
    {
        Theme { dark }
    }

    /// The bg colour.
    pub fn bg(&self) -> (c: Rgba)
        ensures
            c == (if self.dark { opaque(0x21, 0x21, 0x21) } else { opaque(0xfa, 0xf9, 0xff) }),
    {
        if self.dark {
            rgb(0x21, 0x21, 0x21)
        } else {
            rgb(0xfa, 0xf9, 0xff)
        }
    }

    /// The bg secondary colour.
    pub fn bg_secondary(&self) -> (c: Rgba)
        ensures
            c == (if self.dark { opaque(0x2f, 0x2f, 0x2f) } else { opaque(0xf2, 0xe8, 0xf7) }),
    {
        if self.dark {
            rgb(0x2f, 0x2f, 0x2f)
        } else {
            rgb(0xf2, 0xe8, 0xf7)
        }
    }

    /// The sidebar bg colour.
    pub fn sidebar_bg(&self) -> (c: Rgba)
        ensures
            c == (if self.dark { opaque(0x17, 0x17, 0x17) } else { opaque(0xed, 0xe0, 0xf5) }),
    {
        if self.dark {
            rgb(0x17, 0x17, 0x17)
        } else {
            rgb(0xed, 0xe0, 0xf5)
        }
    }

    /// The surface colour.
    pub fn surface(&self) -> (c: Rgba)
        ensures
            c == (if self.dark { opaque(0x2f, 0x2f, 0x2f) } else { opaque(0xff, 0xff, 0xff) }),
    {
        if self.dark {
            rgb(0x2f, 0x2f, 0x2f)
        } else {
            rgb(0xff, 0xff, 0xff)
        }
    }

    /// The surface2 colour.
    pub fn surface2(&self) -> (c: Rgba)
        ensures
            c == (if self.dark { opaque(0x3a, 0x3a, 0x3a) } else { opaque(0xf2, 0xe8, 0xf7) }),
    {
        if self.dark {
            rgb(0x3a, 0x3a, 0x3a)
        } else {
            rgb(0xf2, 0xe8, 0xf7)
        }
    }

    /// The border colour.
    pub fn border(&self) -> (c: Rgba)
        ensures
            c == (if self.dark { opaque(0x3f, 0x3f, 0x3f) } else { opaque(0xdd, 0xc8, 0xeb) }),
    {
        if self.dark {
            rgb(0x3f, 0x3f, 0x3f)
        } else {
            rgb(0xdd, 0xc8, 0xeb)
        }
    }

    /// The text colour.
    pub fn text(&self) -> (c: Rgba)
        ensures
            c == (if self.dark { opaque(0xf0, 0xee, 0xff) } else { opaque(0x1a, 0x15, 0x23) }),
    {
        if self.dark {
            rgb(0xf0, 0xee, 0xff)
        } else {
            rgb(0x1a, 0x15, 0x23)
        }
    }

    /// The text secondary colour.
    pub fn text_secondary(&self) -> (c: Rgba)
        ensures
            c == (if self.dark { opaque(0x9d, 0x94, 0xc4) } else { opaque(0x6b, 0x65, 0x80) }),
    {
        if self.dark {
            rgb(0x9d, 0x94, 0xc4)
        } else {
            rgb(0x6b, 0x65, 0x80)
        }
    }

    /// The text muted colour.
    pub fn text_muted(&self) -> (c: Rgba)
        ensures
            c == (if self.dark { opaque(0x5c, 0x54, 0x80) } else { opaque(0xa0, 0x9b, 0xb8) }),
    {
        if self.dark {
            rgb(0x5c, 0x54, 0x80)
        } else {
            rgb(0xa0, 0x9b, 0xb8)
        }
    }

    /// The accent colour.
    pub fn accent(&self) -> (c: Rgba)
        ensures
            c == (if self.dark { opaque(0xa0, 0x20, 0xf0) } else { opaque(0x8b, 0x00, 0xff) }),
    {
        if self.dark {
            rgb(0xa0, 0x20, 0xf0)
        } else {
            rgb(0x8b, 0x00, 0xff)
        }
    }

    /// The accent light colour.
    pub fn accent_light(&self) -> (c: Rgba)
        ensures
            c == (if self.dark { opaque(0x3d, 0x2b, 0x45) } else { opaque(0xf0, 0xe0, 0xff) }),
    {
        if self.dark {
            rgb(0x3d, 0x2b, 0x45)
        } else {
            rgb(0xf0, 0xe0, 0xff)
        }
    }

    /// The accent hover colour.
    pub fn accent_hover(&self) -> (c: Rgba)
        ensures
            c == (if self.dark { opaque(0xe8, 0xd5, 0xf0) } else { opaque(0x74, 0x00, 0xcc) }),
    {
        if self.dark {
            rgb(0xe8, 0xd5, 0xf0)
        } else {
            rgb(0x74, 0x00, 0xcc)
        }
    }

    /// The user bubble colour.
    pub fn user_bubble(&self) -> (c: Rgba)
        ensures
            c == (if self.dark { opaque(0x3a, 0x3a, 0x3a) } else { opaque(0xf2, 0xe8, 0xf7) }),
    {
        if self.dark {
            rgb(0x3a, 0x3a, 0x3a)
        } else {
            rgb(0xf2, 0xe8, 0xf7)
        }
    }

    /// The user text colour.
    pub fn user_text(&self) -> (c: Rgba)
        ensures
            c == (if self.dark { opaque(0xf0, 0xee, 0xff) } else { opaque(0x1a, 0x15, 0x23) }),
    {
        if self.dark {
            rgb(0xf0, 0xee, 0xff)
        } else {
            rgb(0x1a, 0x15, 0x23)
        }
    }

    /// The ai text colour.
    pub fn ai_text(&self) -> (c: Rgba)
        ensures
            c == (if self.dark { opaque(0xf0, 0xee, 0xff) } else { opaque(0x1a, 0x15, 0x23) }),
    {
        if self.dark {
            rgb(0xf0, 0xee, 0xff)
        } else {
            rgb(0x1a, 0x15, 0x23)
        }
    }

    /// The code bg colour.
    pub fn code_bg(&self) -> (c: Rgba)
        ensures
            c == (if self.dark { opaque(0x1a, 0x17, 0x2a) } else { opaque(0xf5, 0xf3, 0xff) }),
    {
        if self.dark {
            rgb(0x1a, 0x17, 0x2a)
        } else {
            rgb(0xf5, 0xf3, 0xff)
        }
    }

    /// The success colour.
    pub fn success(&self) -> (c: Rgba)
        ensures
            c == (if self.dark { opaque(0x4c, 0xaf, 0x50) } else { opaque(0x1a, 0x7a, 0x1a) }),
    {
        if self.dark {
            rgb(0x4c, 0xaf, 0x50)
        } else {
            rgb(0x1a, 0x7a, 0x1a)
        }
    }

    /// The success bg colour.
    pub fn success_bg(&self) -> (c: Rgba)
        ensures
            c == (if self.dark { opaque(0x1a, 0x2e, 0x1a) } else { opaque(0xe6, 0xff, 0xe6) }),
    {
        if self.dark {
            rgb(0x1a, 0x2e, 0x1a)
        } else {
            rgb(0xe6, 0xff, 0xe6)
        }
    }

    /// The success border colour.
    pub fn success_border(&self) -> (c: Rgba)
        ensures
            c == (if self.dark { opaque(0x2e, 0x5e, 0x2e) } else { opaque(0x4c, 0xaf, 0x50) }),
    {
        if self.dark {
            rgb(0x2e, 0x5e, 0x2e)
        } else {
            rgb(0x4c, 0xaf, 0x50)
        }
    }
}

} // verus!
