use vstd::prelude::*;
use crate::canvas::{Canvas, height_of, new_canvas, pixels_of, put_pixel, width_of};
use crate::color::{color_of, pixel_color, usable_max, Color};
use crate::escape::Escape;

verus! {

/// The count that an outcome contributes to the maximum: a bounded orbit
/// contributes nothing, as the scan starts at zero.
pub open spec fn count_of(e: Escape) -> u32 {
    match e {
        Escape::Escaped(n) => n,
        Escape::Bounded => 0,
    }
}

/// The largest escape count over a grid of outcomes, or zero when there is none.
pub open spec fn max_escape_of(s: Seq<Escape>) -> u32
    decreases s.len(),
{
    if s.len() == 0 {
        0
    } else {
        let m = max_escape_of(s.drop_last());
        if count_of(s.last()) > m {
            count_of(s.last())
        } else {
            m
        }
    }
}

/// Whether some point of the grid escaped.
pub open spec fn any_escaped(s: Seq<Escape>) -> bool {
    exists|i: int| 0 <= i < s.len() && s[i] is Escaped
}

/// Whether the grid can be coloured: the division by the largest count,
/// truncated to a byte, happens only when some point escaped.
pub open spec fn colorable(s: Seq<Escape>) -> bool {
    any_escaped(s) ==> usable_max(max_escape_of(s))
}

/// The bytes of a colour, red first.
pub open spec fn rgb_of(c: Color) -> (u8, u8, u8) {
    (c.0, c.1, c.2)
}

/// The pixels that the grid `s` renders to with base colour `base`.
pub open spec fn rendered_pixels(s: Seq<Escape>, base: Color) -> Seq<(u8, u8, u8)> {
    Seq::new(s.len(), |i: int| rgb_of(color_of(s[i], max_escape_of(s), base)))
}

/// `c` is the image of a `width` by `height` grid `s` rendered with `base`.
pub open spec fn is_rendering(c: Canvas, s: Seq<Escape>, width: nat, height: nat, base: Color) -> bool {
    &&& width_of(c) == width
    &&& height_of(c) == height
    &&& pixels_of(c) == rendered_pixels(s, base)
}

/// The maximum scan is an upper bound of every escape count and is reached by
/// one of them, unless it is zero.
pub proof fn max_escape_is_maximum(s: Seq<Escape>)
    ensures
        forall|i: int| 0 <= i < s.len() && s[i] is Escaped ==> (s[i]->Escaped_0 <= max_escape_of(s)),
        max_escape_of(s) == 0 || exists|i: int| 0 <= i < s.len() && s[i] == Escape::Escaped(max_escape_of(s)),
    decreases s.len(),
{
    if s.len() > 0 {
        let t = s.drop_last();
        max_escape_is_maximum(t);
        assert(forall|i: int| 0 <= i < t.len() ==> t[i] == s[i]);
        if max_escape_of(t) != 0 && count_of(s.last()) <= max_escape_of(t) {
            let j = choose|j: int| 0 <= j < t.len() && t[j] == Escape::Escaped(max_escape_of(t));
            assert(s[j] == Escape::Escaped(max_escape_of(s)));
        }
    }
}

/// First pass: the largest escape count of the grid, zero when no point
/// escaped after at least one update.
pub fn max_escape(escapes: &Vec<Escape>) -> (r: u32)
    ensures
        r == max_escape_of(escapes@),
        forall|i: int| 0 <= i < escapes@.len() && escapes@[i] is Escaped ==> (escapes@[i]->Escaped_0 <= r),
        r == 0 || exists|i: int| 0 <= i < escapes@.len() && escapes@[i] == Escape::Escaped(r),
{
    let mut max: u32 = 0;
    let mut i: usize = 0;
    while i < escapes.len()
        invariant
            i <= escapes@.len(),
            max == max_escape_of(escapes@.subrange(0, i as int)),
        decreases escapes@.len() - i,
    {
        assert(escapes@.subrange(0, i + 1).drop_last() == escapes@.subrange(0, i as int));
        if let Escape::Escaped(m) = escapes[i] {
            if m > max {
                max = m;
            }
        }
        i = i + 1;
    }
    assert(escapes@.subrange(0, i as int) == escapes@);
    proof {
        max_escape_is_maximum(escapes@);
    }
    max
}

/// Renders a `width` by `height` grid of outcomes, given row by row: a first
/// pass finds the largest escape count, a second colours every pixel by it.
pub fn render(escapes: &Vec<Escape>, width: u32, height: u32, base: Color) -> (r: Canvas)
    requires
        escapes@.len() == width * height,
        3 * width <= usize::MAX,
        3 * width * height <= usize::MAX,
        colorable(escapes@),
    ensures
        is_rendering(r, escapes@, width as nat, height as nat, base),
{
    let max_iter = max_escape(escapes);
    let mut canvas = new_canvas(width, height);
    let ghost expected = rendered_pixels(escapes@, base);
    let mut y: u32 = 0;
    while y < height
        invariant
            y <= height,
            escapes@.len() == width * height,
            3 * width <= usize::MAX,
            3 * width * height <= usize::MAX,
            expected == rendered_pixels(escapes@, base),
            max_iter == max_escape_of(escapes@),
            colorable(escapes@),
            width_of(canvas) == width,
            height_of(canvas) == height,
            pixels_of(canvas).len() == width * height,
            forall|k: int| 0 <= k < y * width ==> pixels_of(canvas)[k] == expected[k],
        decreases height - y,
    {
        let mut x: u32 = 0;
        while x < width
            invariant
                y < height,
                x <= width,
                escapes@.len() == width * height,
                3 * width <= usize::MAX,
                3 * width * height <= usize::MAX,
                expected == rendered_pixels(escapes@, base),
                max_iter == max_escape_of(escapes@),
                colorable(escapes@),
                width_of(canvas) == width,
                height_of(canvas) == height,
                pixels_of(canvas).len() == width * height,
                forall|k: int| 0 <= k < y * width + x ==> pixels_of(canvas)[k] == expected[k],
            decreases width - x,
        {
            assert(y * width + x < width * height <= usize::MAX) by (nonlinear_arith)
                requires
                    y < height,
                    x < width,
                    3 * width * height <= usize::MAX,
            ;
            assert(y * width <= y * width + x < usize::MAX);
            let row: usize = y as usize * width as usize;
            let idx: usize = row + x as usize;
            let e = escapes[idx];
            let c = pixel_color(e, max_iter, base);
            put_pixel(&mut canvas, x, y, (c.0, c.1, c.2));
            assert(pixels_of(canvas)[idx as int] == expected[idx as int]);
            x = x + 1;
        }
        assert((y + 1) * width == y * width + width) by (nonlinear_arith);
        y = y + 1;
    }
    assert(y * width == width * height) by (nonlinear_arith)
        requires
            y == height,
    ;
    assert(pixels_of(canvas) == expected);
    canvas
}

/// Rendering is a function of its arguments: two renderings of the same grid
/// with the same size and base colour hold the same pixels, and so the same
/// bytes.
pub proof fn rendering_is_deterministic(
    s: Seq<Escape>,
    width: nat,
    height: nat,
    base: Color,
    a: Canvas,
    b: Canvas,
)
    requires
        is_rendering(a, s, width, height, base),
        is_rendering(b, s, width, height, base),
    ensures
        pixels_of(a) == pixels_of(b),
        width_of(a) == width_of(b),
        height_of(a) == height_of(b),
{
}

} // verus!
