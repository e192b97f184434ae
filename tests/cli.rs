use mandelbrot::cli::{parse_arguments, Notice, DEFAULT_ITERATIONS, DEFAULT_SIZE};
use mandelbrot::color::Color;

fn args(list: &[&str]) -> Vec<String> {
    list.iter().map(|s| s.to_string()).collect()
}

fn floats(list: &[String]) -> Vec<bool> {
    list.iter().map(|s| s.parse::<f32>().is_ok()).collect()
}

#[test]
fn no_arguments_give_defaults() {
    let a = args(&["mandelbrot"]);
    let s = parse_arguments(&a, &floats(&a));
    assert_eq!(s.size_arg, None);
    assert_eq!(DEFAULT_SIZE, 2000);
    assert_eq!(s.iterations, 100);
    assert_eq!(DEFAULT_ITERATIONS, 100);
    assert_eq!(s.color, Color(0, 255, 255));
    assert!(s.notices.is_empty());
}

#[test]
fn unreadable_iterations_keep_default() {
    let a = args(&["mandelbrot", "-i", "abc"]);
    let s = parse_arguments(&a, &floats(&a));
    assert_eq!(s.iterations, 100);
    assert_eq!(s.notices, vec![Notice::InvalidIterations]);
}

#[test]
fn flags_set_every_value() {
    let a = args(&["mandelbrot", "-s", "512.5", "-i", "-7", "-r", "12", "-g", "+3", "-b", "200"]);
    let s = parse_arguments(&a, &floats(&a));
    assert_eq!(s.size_arg, Some(2));
    assert_eq!(s.iterations, -7);
    assert_eq!(s.color, Color(12, 3, 200));
    assert!(s.notices.is_empty());
}

#[test]
fn missing_values_give_notices() {
    let a = args(&["mandelbrot", "-s", "12", "-s"]);
    let s = parse_arguments(&a, &floats(&a));
    assert_eq!(s.size_arg, Some(2));
    assert_eq!(s.notices, vec![Notice::InvalidSize(Some(2))]);
    for (flag, notice) in [
        ("-i", Notice::InvalidIterations),
        ("-r", Notice::InvalidRed),
        ("-g", Notice::InvalidGreen),
        ("-b", Notice::InvalidBlue),
    ] {
        let a = args(&["mandelbrot", flag]);
        let s = parse_arguments(&a, &floats(&a));
        assert_eq!(s.notices, vec![notice]);
        assert_eq!(s.iterations, 100);
        assert_eq!(s.color, Color(0, 255, 255));
    }
}

#[test]
fn out_of_range_values_are_rejected() {
    let a = args(&["mandelbrot", "-r", "256", "-g", "-1", "-i", "2147483648", "-b", " 5"]);
    let s = parse_arguments(&a, &floats(&a));
    assert_eq!(s.color, Color(0, 255, 255));
    assert_eq!(s.iterations, 100);
    assert_eq!(
        s.notices,
        vec![Notice::InvalidRed, Notice::InvalidGreen, Notice::InvalidIterations, Notice::InvalidBlue]
    );
}

#[test]
fn unreadable_size_keeps_default() {
    let a = args(&["mandelbrot", "-s", "big"]);
    let s = parse_arguments(&a, &floats(&a));
    assert_eq!(s.size_arg, None);
    assert_eq!(s.notices, vec![Notice::InvalidSize(None)]);
}

#[test]
fn unknown_flags_are_ignored() {
    let a = args(&["mandelbrot", "-x", "3", "--i", "7", "i", "-i", "42"]);
    let s = parse_arguments(&a, &floats(&a));
    assert_eq!(s.iterations, 42);
    assert!(s.notices.is_empty());
}

#[test]
fn flag_as_value_is_read_as_flag_too() {
    let a = args(&["mandelbrot", "-i", "-r", "9"]);
    let s = parse_arguments(&a, &floats(&a));
    assert_eq!(s.notices, vec![Notice::InvalidIterations]);
    assert_eq!(s.color, Color(9, 255, 255));
}
