use mandelbrot::color::{pixel_color, scale_channel, Color};
use mandelbrot::escape::Escape;
use mandelbrot::render::{max_escape, render};

#[test]
fn channel_divides_before_multiplying() {
    // 255 / 10 = 25, then 25 * 5.
    assert_eq!(scale_channel(255, 10, 5), 125);
    // The quotient truncates to zero once the maximum exceeds the base.
    assert_eq!(scale_channel(99, 100, 50), 0);
    assert_eq!(scale_channel(0, 3, 2), 0);
}

#[test]
fn channel_uses_byte_arithmetic() {
    // 300 truncates to 44; 255 / 44 = 5; 100 * 5 = 500 wraps to 244.
    assert_eq!(scale_channel(255, 300, 100), 244);
    // 260 truncates to 4 as a count.
    assert_eq!(scale_channel(200, 10, 260), 80);
}

#[test]
fn bounded_pixel_is_black() {
    assert_eq!(pixel_color(Escape::Bounded, 0, Color(9, 9, 9)), Color(0, 0, 0));
}

#[test]
fn escaped_pixel_scales_each_channel() {
    assert_eq!(pixel_color(Escape::Escaped(2), 4, Color(0, 255, 100)), Color(0, 126, 50));
}

#[test]
fn max_scan_of_empty_grid_is_zero() {
    assert_eq!(max_escape(&Vec::new()), 0);
}

#[test]
fn max_scan_ignores_bounded_points() {
    assert_eq!(max_escape(&vec![Escape::Bounded, Escape::Bounded]), 0);
    assert_eq!(max_escape(&vec![Escape::Bounded, Escape::Escaped(0)]), 0);
}

#[test]
fn max_scan_finds_largest_count() {
    let grid = vec![Escape::Escaped(3), Escape::Bounded, Escape::Escaped(7), Escape::Escaped(2)];
    assert_eq!(max_escape(&grid), 7);
}

#[test]
fn render_colours_row_by_row() {
    let grid = vec![Escape::Escaped(1), Escape::Bounded, Escape::Escaped(2), Escape::Escaped(0)];
    let bytes = render(&grid, 2, 2, Color(10, 255, 4)).into_bytes();
    // max 2: 10/2 = 5, 255/2 = 127, 4/2 = 2.
    assert_eq!(bytes, vec![5, 127, 2, 0, 0, 0, 10, 254, 4, 0, 0, 0]);
}

#[test]
fn render_of_bounded_grid_is_black() {
    let grid = vec![Escape::Bounded; 6];
    let bytes = render(&grid, 3, 2, Color(0, 255, 255)).into_bytes();
    assert_eq!(bytes, vec![0; 18]);
}

#[test]
fn render_twice_gives_same_bytes() {
    let grid: Vec<Escape> = (0..12u32)
        .map(|i| if i % 5 == 0 { Escape::Bounded } else { Escape::Escaped(i % 7) })
        .collect();
    let a = render(&grid, 4, 3, Color(0, 255, 255)).into_bytes();
    let b = render(&grid, 4, 3, Color(0, 255, 255)).into_bytes();
    assert_eq!(a, b);
    assert_eq!(a.len(), 36);
}

#[test]
fn render_of_empty_image() {
    assert!(render(&Vec::new(), 0, 5, Color(1, 2, 3)).into_bytes().is_empty());
}
