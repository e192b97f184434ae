use vstd::prelude::*;
use crate::color::Color;

verus! {

/// Image size, in pixels a side, when `-s` gives none.
pub const DEFAULT_SIZE: u32 = 2000;

/// Iteration cap when `-i` gives none.
pub const DEFAULT_ITERATIONS: i32 = 100;

/// A flag whose value was missing or did not parse; its setting was kept.
#[derive(Clone, Copy, Debug, PartialEq, Eq, Structural)]
pub enum Notice {
    /// `-s`; holds where the size in force came from (see `Settings::size_arg`).
    InvalidSize(Option<usize>),
    /// `-i`.
    InvalidIterations,
    /// `-r`.
    InvalidRed,
    /// `-g`.
    InvalidGreen,
    /// `-b`.
    InvalidBlue,
}

/// The configuration of a run, read from the command line.
pub struct Settings {
    /// Index of the argument that holds the size, or `None` for `DEFAULT_SIZE`.
    pub size_arg: Option<usize>,
    /// The iteration cap.
    pub iterations: i32,
    /// The base colour, the brightest a pixel can get.
    pub color: Color,
    /// One notice per rejected flag, in the order of the arguments.
    pub notices: Vec<Notice>,
}

/// The abstract form of `Settings`.
pub struct SettingsView {
    pub size_arg: Option<usize>,
    pub iterations: i32,
    pub color: Color,
    pub notices: Seq<Notice>,
}

impl View for Settings {
    type V = SettingsView;

    open spec fn view(&self) -> SettingsView {
        SettingsView {
            size_arg: self.size_arg,
            iterations: self.iterations,
            color: self.color,
            notices: self.notices@,
        }
    }
}

/// The base colour when no channel flag is given: cyan.
pub open spec fn default_color() -> Color {
    Color(0, 255, 255)
}

/// The configuration when no flag is given.
pub open spec fn default_settings() -> SettingsView {
    SettingsView {
        size_arg: None,
        iterations: DEFAULT_ITERATIONS,
        color: default_color(),
        notices: Seq::empty(),
    }
}

/// An ASCII decimal digit.
pub open spec fn is_digit(c: char) -> bool {
    '0' <= c <= '9'
}

/// A non-empty run of ASCII decimal digits.
pub open spec fn all_digits(d: Seq<char>) -> bool {
    d.len() > 0 && forall|i: int| 0 <= i < d.len() ==> is_digit(d[i])
}

/// The number that a run of decimal digits writes.
pub open spec fn digits_value(d: Seq<char>) -> int
    decreases d.len(),
{
    if d.len() == 0 {
        0
    } else {
        digits_value(d.drop_last()) * 10 + (d.last() as int - '0' as int)
    }
}

/// The integer that `s` writes in decimal: an optional sign (`-` only where
/// `signed`) and then digits, nothing else.
pub open spec fn decimal_value(s: Seq<char>, signed: bool) -> Option<int> {
    if s.len() > 0 && s[0] == '+' && all_digits(s.drop_first()) {
        Some(digits_value(s.drop_first()))
    } else if signed && s.len() > 0 && s[0] == '-' && all_digits(s.drop_first()) {
        Some(-digits_value(s.drop_first()))
    } else if all_digits(s) {
        Some(digits_value(s))
    } else {
        None
    }
}

/// The `i32` that `s` writes, if it writes one in range.
pub open spec fn i32_from(s: Seq<char>) -> Option<i32> {
    match decimal_value(s, true) {
        Some(v) => if i32::MIN <= v <= i32::MAX {
            Some(v as i32)
        } else {
            None
        },
        None => None,
    }
}

/// The `u8` that `s` writes, if it writes one in range.
pub open spec fn u8_from(s: Seq<char>) -> Option<u8> {
    match decimal_value(s, false) {
        Some(v) => if 0 <= v <= u8::MAX {
            Some(v as u8)
        } else {
            None
        },
        None => None,
    }
}

/// Relies on `str::parse::<i32>` (`i32::from_str`): an optional `+` or `-`
/// followed by decimal digits only, in range; anything else is an error.
#[verifier::external_body]
fn parse_i32(s: &str) -> (r: Option<i32>)
    ensures
        r == i32_from(s@),
{
    s.parse::<i32>().ok()
}

/// Relies on `str::parse::<u8>` (`u8::from_str`): an optional `+` followed by
/// decimal digits only, at most 255; anything else is an error.
#[verifier::external_body]
fn parse_u8(s: &str) -> (r: Option<u8>)
    ensures
        r == u8_from(s@),
{
    s.parse::<u8>().ok()
}

/// Whether `a` is the flag `-c`.
pub open spec fn is_flag(a: Seq<char>, c: char) -> bool {
    a == seq!['-', c]
}

/// The `i32` written by the argument after position `i`, if there is one.
pub open spec fn i32_after(args: Seq<Seq<char>>, i: int) -> Option<i32> {
    if i + 1 < args.len() {
        i32_from(args[i + 1])
    } else {
        None
    }
}

/// The `u8` written by the argument after position `i`, if there is one.
pub open spec fn u8_after(args: Seq<Seq<char>>, i: int) -> Option<u8> {
    if i + 1 < args.len() {
        u8_from(args[i + 1])
    } else {
        None
    }
}

/// The configuration after argument `i` is read: a flag takes the argument
/// after it as its value; a missing or unreadable value keeps the setting and
/// adds a notice; any other argument is ignored.
pub open spec fn apply_arg(
    st: SettingsView,
    args: Seq<Seq<char>>,
    size_ok: Seq<bool>,
    i: int,
) -> SettingsView {
    let a = args[i];
    if is_flag(a, 's') {
        if i + 1 < args.len() && size_ok[i + 1] {
            SettingsView { size_arg: Some((i + 1) as usize), ..st }
        } else {
            SettingsView { notices: st.notices.push(Notice::InvalidSize(st.size_arg)), ..st }
        }
    } else if is_flag(a, 'i') {
        match i32_after(args, i) {
            Some(v) => SettingsView { iterations: v, ..st },
            None => SettingsView { notices: st.notices.push(Notice::InvalidIterations), ..st },
        }
    } else if is_flag(a, 'r') {
        match u8_after(args, i) {
            Some(v) => SettingsView { color: Color(v, st.color.1, st.color.2), ..st },
            None => SettingsView { notices: st.notices.push(Notice::InvalidRed), ..st },
        }
    } else if is_flag(a, 'g') {
        match u8_after(args, i) {
            Some(v) => SettingsView { color: Color(st.color.0, v, st.color.2), ..st },
            None => SettingsView { notices: st.notices.push(Notice::InvalidGreen), ..st },
        }
    } else if is_flag(a, 'b') {
        match u8_after(args, i) {
            Some(v) => SettingsView { color: Color(st.color.0, st.color.1, v), ..st },
            None => SettingsView { notices: st.notices.push(Notice::InvalidBlue), ..st },
        }
    } else {
        st
    }
}

/// The configuration after the first `n` arguments are read; the first
/// argument names the program and is skipped.
pub open spec fn settings_after(args: Seq<Seq<char>>, size_ok: Seq<bool>, n: int) -> SettingsView
    decreases n,
{
    if n <= 1 {
        default_settings()
    } else {
        apply_arg(settings_after(args, size_ok, n - 1), args, size_ok, n - 1)
    }
}

/// The configuration that a whole command line gives.
pub open spec fn settings_of(args: Seq<Seq<char>>, size_ok: Seq<bool>) -> SettingsView {
    settings_after(args, size_ok, args.len() as int)
}

/// Whether `a` is the flag `-c`.
fn is_flag_arg(a: &String, c: char) -> (r: bool)
    ensures
        r == is_flag(a@, c),
{
    let s = a.as_str();
    if s.unicode_len() != 2 {
        return false;
    }
    let r = s.get_char(0) == '-' && s.get_char(1) == c;
    assert(r ==> a@ =~= seq!['-', c]);
    r
}

/// Reads the command line `args`, the program's name first.
///
/// The size is a floating-point number, which the caller reads: `size_ok[i]`
/// tells whether `args[i]` holds one, and the result keeps the index of the
/// accepted text. The other flags are read here.
pub fn parse_arguments(args: &Vec<String>, size_ok: &Vec<bool>) -> (r: Settings)
    requires
        size_ok@.len() == args@.len(),
    ensures
        r@ == settings_of(args.deep_view(), size_ok@),
{
    let ghost dv = args.deep_view();
    let mut st = Settings {
        size_arg: None,
        iterations: DEFAULT_ITERATIONS,
        color: Color(0, 255, 255),
        notices: Vec::new(),
    };
    assert(st@.notices =~= Seq::<Notice>::empty());
    let len = args.len();
    let mut i: usize = 1;
    while i < len
        invariant
            1 <= i,
            i <= len || i == 1,
            len == args@.len(),
            len == dv.len(),
            dv == args.deep_view(),
            size_ok@.len() == len,
            st@ == settings_after(dv, size_ok@, i as int),
        decreases len - i,
    {
        let a = &args[i];
        assert(dv[i as int] == a@);
        let has_next = i + 1 < len;
        if has_next {
            assert(dv[i + 1] == args@[i + 1]@);
        }
        if is_flag_arg(a, 's') {
            if has_next && size_ok[i + 1] {
                st.size_arg = Some(i + 1);
            } else {
                st.notices.push(Notice::InvalidSize(st.size_arg));
            }
        } else if is_flag_arg(a, 'i') {
            let v = if has_next { parse_i32(args[i + 1].as_str()) } else { None };
            match v {
                Some(n) => st.iterations = n,
                None => st.notices.push(Notice::InvalidIterations),
            }
        } else if is_flag_arg(a, 'r') {
            let v = if has_next { parse_u8(args[i + 1].as_str()) } else { None };
            match v {
                Some(n) => st.color = Color(n, st.color.1, st.color.2),
                None => st.notices.push(Notice::InvalidRed),
            }
        } else if is_flag_arg(a, 'g') {
            let v = if has_next { parse_u8(args[i + 1].as_str()) } else { None };
            match v {
                Some(n) => st.color = Color(st.color.0, n, st.color.2),
                None => st.notices.push(Notice::InvalidGreen),
            }
        } else if is_flag_arg(a, 'b') {
            let v = if has_next { parse_u8(args[i + 1].as_str()) } else { None };
            match v {
                Some(n) => st.color = Color(st.color.0, st.color.1, n),
                None => st.notices.push(Notice::InvalidBlue),
            }
        }
        i = i + 1;
    }
    assert(settings_after(dv, size_ok@, 1) == settings_after(dv, size_ok@, 0));
    st
}

/// A command line with no flag, the program's name alone, gives the default
/// configuration and no notice.
pub proof fn no_flags_give_defaults(args: Seq<Seq<char>>, size_ok: Seq<bool>)
    requires
        args.len() <= 1,
    ensures
        settings_of(args, size_ok) == default_settings(),
{
}

/// Whether `a` is one of the flags that take a value.
pub open spec fn is_known_flag(a: Seq<char>) -> bool {
    is_flag(a, 's') || is_flag(a, 'i') || is_flag(a, 'r') || is_flag(a, 'g') || is_flag(a, 'b')
}

/// `-i` followed by text that is no `i32` (nor itself a flag) keeps the
/// default cap and adds one notice, instead of failing.
pub proof fn unreadable_cap_keeps_default(prog: Seq<char>, value: Seq<char>, size_ok: Seq<bool>)
    requires
        i32_from(value) is None,
        !is_known_flag(value),
        size_ok.len() == 3,
    ensures
        settings_of(seq![prog, seq!['-', 'i'], value], size_ok)
            == (SettingsView { notices: seq![Notice::InvalidIterations], ..default_settings() }),
{
    let args = seq![prog, seq!['-', 'i'], value];
    assert(args[1] == seq!['-', 'i']);
    assert(args[2] == value);
    assert(!is_flag(args[1], 's')) by {
        assert(args[1][1] != seq!['-', 's'][1]);
    }
    let s1 = settings_after(args, size_ok, 1);
    assert(s1 == default_settings());
    let s2 = settings_after(args, size_ok, 2);
    assert(s2 == apply_arg(s1, args, size_ok, 1));
    assert(i32_after(args, 1) is None);
    assert(s2.notices =~= seq![Notice::InvalidIterations]);
    assert(settings_after(args, size_ok, 3) == apply_arg(s2, args, size_ok, 2));
}

} // verus!
