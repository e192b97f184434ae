use vstd::prelude::*;
use crate::escape::Escape;

verus! {

/// An RGB colour with one byte per channel.
#[derive(Clone, Copy, Debug, PartialEq, Eq, Structural)]
pub struct Color(pub u8, pub u8, pub u8);

/// The colour given to points whose orbit stays bounded.
pub open spec fn black() -> Color {
    Color(0, 0, 0)
}

/// One channel scaled in byte arithmetic: the divisor is the largest count
/// truncated to a byte, the quotient is taken first, and the product wraps.
pub open spec fn scaled_channel(base: u8, max_iter: u32, n: u32) -> u8 {
    (((base as int / (max_iter as int % 256)) * (n as int % 256)) % 256) as u8
}

/// Whether scaling by `max_iter` avoids a division by zero.
pub open spec fn usable_max(max_iter: u32) -> bool {
    max_iter as int % 256 != 0
}

/// The colour of a point with outcome `e`, when the largest escape count of the
/// grid is `max_iter`.
pub open spec fn color_of(e: Escape, max_iter: u32, base: Color) -> Color {
    match e {
        Escape::Escaped(n) => Color(
            scaled_channel(base.0, max_iter, n),
            scaled_channel(base.1, max_iter, n),
            scaled_channel(base.2, max_iter, n),
        ),
        Escape::Bounded => black(),
    }
}

/// Scales one channel of the base colour by the escape count `n`.
pub fn scale_channel(base: u8, max_iter: u32, n: u32) -> (r: u8)
    requires
        usable_max(max_iter),
    ensures
        r == scaled_channel(base, max_iter, n),
{
    let divisor: u8 = (max_iter % 256) as u8;
    let factor: u8 = (n % 256) as u8;
    let quotient: u8 = base / divisor;
    assert(quotient as u32 * factor as u32 <= 255 * 255) by (nonlinear_arith)
        requires
            quotient <= 255,
            factor <= 255,
    ;
    ((quotient as u32 * factor as u32) % 256) as u8
}

/// The colour of one pixel: black for a bounded orbit, else the base colour
/// scaled channel by channel.
pub fn pixel_color(e: Escape, max_iter: u32, base: Color) -> (r: Color)
    requires
        e is Escaped ==> usable_max(max_iter),
    ensures
        r == color_of(e, max_iter, base),
{
    match e {
        Escape::Escaped(n) => Color(
            scale_channel(base.0, max_iter, n),
            scale_channel(base.1, max_iter, n),
            scale_channel(base.2, max_iter, n),
        ),
        Escape::Bounded => Color(0, 0, 0),
    }
}

} // verus!
