//! Font selection and text colours of the antialiased X11 text renderer.

use vstd::prelude::*;
use crate::text::{append_decimal, decimal, string_of};

verus! {

/// The three text colours the overlays draw with.
#[derive(Copy, Clone, Debug, PartialEq, Eq, Structural)]
pub enum TextColor {
    Primary,
    Accent,
    Muted,
}

/// RGB of each text colour (0xRRGGBB).
pub open spec fn text_color_rgb(c: TextColor) -> u32 {
    match c {
        TextColor::Primary => 0xe8e8ea,
        TextColor::Accent => 0x9b59b6,
        TextColor::Muted => 0x6b6b70,
    }
}

/// RGB of a text colour, as the renderer allocates it.
pub fn text_color_rgb_exec(c: TextColor) -> (r: u32)
    ensures
        r == text_color_rgb(c),
{
    match c {
        TextColor::Primary => 0xe8e8ea,
        TextColor::Accent => 0x9b59b6,
        TextColor::Muted => 0x6b6b70,
    }
}

/// A 16-bit colour channel from an 8-bit one, as Xft colours are
/// allocated (`v << 8 | v`).
pub fn xft_channel(v: u8) -> (r: u16)
    ensures
        r == v as int * 257,
{
    v as u16 * 257
}

/// The fontconfig pattern of the system UI font at `size`.
pub open spec fn default_font_pattern(size: u32) -> Seq<char> {
    "system-ui,Inter,Cantarell,DejaVu Sans:size="@ + decimal(size as nat) + ":antialias=true"@
}

/// Default fontconfig pattern matching the system's UI font.
pub fn default_font(size: u32) -> (r: String)
    ensures
        r@ == default_font_pattern(size),
{
    let mut s = string_of("system-ui,Inter,Cantarell,DejaVu Sans:size=");
    append_decimal(&mut s, size as u64);
    s.append(":antialias=true");
    assert(s@ =~= default_font_pattern(size));
    s
}

} // verus!
