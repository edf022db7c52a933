//! The colors of the interface.

use vstd::prelude::*;

use crate::text;

verus! {

pub const SECONDARY_LIGHT_RGB: &'static str = "#7B5BB6";

pub const SECONDARY_DARK_RGB: &'static str = "#F694FF";

pub const ORANGE_LIGHT_RGB: &'static str = "#D68C27";

pub const ORANGE_DARK_RGB: &'static str = "#F5A742";

/// The value of a hexadecimal digit.
pub open spec fn hex_value(c: char) -> Option<int> {
    if '0' <= c <= '9' {
        Some(c as int - '0' as int)
    } else if 'a' <= c <= 'f' {
        Some(c as int - 'a' as int + 10)
    } else if 'A' <= c <= 'F' {
        Some(c as int - 'A' as int + 10)
    } else {
        None
    }
}

/// The value of two hexadecimal digits.
pub open spec fn hex_pair(first: char, second: char) -> Option<int> {
    match (hex_value(first), hex_value(second)) {
        (Some(high), Some(low)) => Some(16 * high + low),
        _ => None,
    }
}

/// `s` without a number sign in front.
pub open spec fn without_number_sign(s: Seq<char>) -> Seq<char> {
    if s.len() > 0 && s[0] == '#' {
        s.drop_first()
    } else {
        s
    }
}

/// The color that six hexadecimal digits name.
pub open spec fn rgb_named(s: Seq<char>) -> Option<(int, int, int)> {
    if s.len() != 6 {
        None
    } else {
        match (hex_pair(s[0], s[1]), hex_pair(s[2], s[3]), hex_pair(s[4], s[5])) {
            (Some(r), Some(g), Some(b)) => Some((r, g, b)),
            _ => None,
        }
    }
}

fn hex_digit_value(c: char) -> (r: Option<u8>)
    ensures
        match r {
            Some(v) => hex_value(c) == Some(v as int) && v < 16,
            None => hex_value(c) is None,
        },
{
    let n: u32 = c as u32;
    if '0' <= c && c <= '9' {
        Some((n - 0x30) as u8)
    } else if 'a' <= c && c <= 'f' {
        Some((n - 0x61 + 10) as u8)
    } else if 'A' <= c && c <= 'F' {
        Some((n - 0x41 + 10) as u8)
    } else {
        None
    }
}

fn hex_pair_value(first: char, second: char) -> (r: Option<u8>)
    ensures
        match r {
            Some(v) => hex_pair(first, second) == Some(v as int),
            None => hex_pair(first, second) is None,
        },
{
    match (hex_digit_value(first), hex_digit_value(second)) {
        (Some(high), Some(low)) => Some(16 * high + low),
        _ => None,
    }
}

/// A color as three integers.
pub open spec fn rgb_view(c: (u8, u8, u8)) -> (int, int, int) {
    (c.0 as int, c.1 as int, c.2 as int)
}

/// The color that `value` names, with or without a number sign in front.
pub fn parse_hex_rgb(value: &str) -> (r: Option<(u8, u8, u8)>)
    ensures
        match r {
            Some(c) => rgb_named(without_number_sign(value@)) == Some(rgb_view(c)),
            None => rgb_named(without_number_sign(value@)) is None,
        },
{
    let chars = text::chars_of(value);
    let from: usize = if chars.len() > 0 && chars[0] == '#' { 1 } else { 0 };
    let ghost digits = without_number_sign(value@);
    assert(chars@.skip(from as int) =~= digits);
    if chars.len() - from != 6 {
        return None;
    }
    assert(forall|i: int| 0 <= i < 6 ==> digits[i] == chars@[from + i]);
    let r = hex_pair_value(chars[from], chars[from + 1]);
    let g = hex_pair_value(chars[from + 2], chars[from + 3]);
    let b = hex_pair_value(chars[from + 4], chars[from + 5]);
    match (r, g, b) {
        (Some(r), Some(g), Some(b)) => Some((r, g, b)),
        _ => None,
    }
}

/// The color of two for a terminal: the first where its background is light. A
/// light foreground speaks for a dark background; without either the background
/// counts as dark. Whether each of them is light is given where it is known.
pub open spec fn themed(
    light: (u8, u8, u8),
    dark: (u8, u8, u8),
    light_bg: Option<bool>,
    light_fg: Option<bool>,
) -> (u8, u8, u8) {
    let on_light = match (light_bg, light_fg) {
        (Some(is_light), _) => is_light,
        (None, Some(is_light)) => !is_light,
        (None, None) => false,
    };
    if on_light {
        light
    } else {
        dark
    }
}

/// The color of two for a terminal, given whether its background and its
/// foreground are light.
pub fn choose_rgb_for_theme(
    light: (u8, u8, u8),
    dark: (u8, u8, u8),
    light_bg: Option<bool>,
    light_fg: Option<bool>,
) -> (r: (u8, u8, u8))
    ensures
        r == themed(light, dark, light_bg, light_fg),
{
    if let Some(is_light) = light_bg {
        if is_light {
            return light;
        }
        return dark;
    }
    if let Some(is_light) = light_fg {
        // If the foreground is light, assume a dark background.
        if is_light {
            return dark;
        }
        return light;
    }
    dark
}

/// The secondary color for a terminal.
pub fn secondary_color(light_bg: Option<bool>, light_fg: Option<bool>) -> (r: (u8, u8, u8))
    ensures
        r == themed((0x7B, 0x5B, 0xB6), (0xF6, 0x94, 0xFF), light_bg, light_fg),
{
    choose_rgb_for_theme((0x7B, 0x5B, 0xB6), (0xF6, 0x94, 0xFF), light_bg, light_fg)
}

/// The orange color for a terminal.
pub fn orange_color(light_bg: Option<bool>, light_fg: Option<bool>) -> (r: (u8, u8, u8))
    ensures
        r == themed((0xD6, 0x8C, 0x27), (0xF5, 0xA7, 0x42), light_bg, light_fg),
{
    choose_rgb_for_theme((0xD6, 0x8C, 0x27), (0xF5, 0xA7, 0x42), light_bg, light_fg)
}

/// The colors that are used are those that their names spell.
pub proof fn law_named_colors_are_used()
    ensures
        rgb_named(without_number_sign(SECONDARY_LIGHT_RGB@)) == Some((0x7Bint, 0x5Bint, 0xB6int)),
        rgb_named(without_number_sign(SECONDARY_DARK_RGB@)) == Some((0xF6int, 0x94int, 0xFFint)),
        rgb_named(without_number_sign(ORANGE_LIGHT_RGB@)) == Some((0xD6int, 0x8Cint, 0x27int)),
        rgb_named(without_number_sign(ORANGE_DARK_RGB@)) == Some((0xF5int, 0xA7int, 0x42int)),
{
    reveal_strlit("#7B5BB6");
    reveal_strlit("#F694FF");
    reveal_strlit("#D68C27");
    reveal_strlit("#F5A742");
}

/// Hexadecimal digits count from zero to fifteen, in capitals as in small letters; two of
/// them name a number below 256, the first counting sixteenfold. Anything else is no
/// digit.
pub proof fn law_hexadecimal_digits(c: char, high: char, low: char)
    ensures
        hex_value(c) is Some <==> ('0' <= c <= '9' || 'a' <= c <= 'f' || 'A' <= c <= 'F'),
        hex_value(c) matches Some(v) ==> 0 <= v < 16,
        hex_value('0') == Some(0int),
        hex_value('9') == Some(9int),
        hex_value('a') == Some(10int) && hex_value('A') == Some(10int),
        hex_value('f') == Some(15int) && hex_value('F') == Some(15int),
        hex_value(high) is Some && hex_value(low) is Some <==> hex_pair(high, low) is Some,
        hex_pair(high, low) matches Some(n) ==> 0 <= n < 256 && n / 16 == hex_value(high)->0 && n
            % 16 == hex_value(low)->0,
{
}

/// Digits of the same kind that follow each other count up by one.
pub proof fn law_hexadecimal_digits_count_up(c: char, d: char)
    requires
        d as u32 == c as u32 + 1,
        ('0' <= c && d <= '9') || ('a' <= c && d <= 'f') || ('A' <= c && d <= 'F'),
    ensures
        hex_value(d)->0 == hex_value(c)->0 + 1,
{
}

/// A color is named by six digits: two for red, then two for green, then two for blue. A
/// number sign in front does not count.
pub proof fn law_color_is_named_by_six_digits(s: Seq<char>)
    ensures
        rgb_named(s) is Some ==> s.len() == 6,
        rgb_named(s) matches Some((red, green, blue)) ==> hex_pair(s[0], s[1]) == Some(red)
            && hex_pair(s[2], s[3]) == Some(green) && hex_pair(s[4], s[5]) == Some(blue),
        s.len() == 6 && (forall|i: int| 0 <= i < 6 ==> hex_value(#[trigger] s[i]) is Some)
            ==> rgb_named(s) is Some,
        s.len() == 0 || s[0] != '#' ==> without_number_sign(seq!['#'] + s) == s
            && without_number_sign(s) == s,
{
    assert((seq!['#'] + s).drop_first() =~= s);
    if s.len() == 6 && (forall|i: int| 0 <= i < 6 ==> hex_value(#[trigger] s[i]) is Some) {
        assert(hex_value(s[0]) is Some && hex_value(s[1]) is Some && hex_value(s[2]) is Some);
        assert(hex_value(s[3]) is Some && hex_value(s[4]) is Some && hex_value(s[5]) is Some);
    }
}

/// A light background asks for the color for light terminals and a dark one for the other;
/// where the background is not known a dark foreground speaks for a light background.
/// Where nothing is known the terminal counts as dark.
pub proof fn law_color_suits_the_terminal(
    light: (u8, u8, u8),
    dark: (u8, u8, u8),
    fg: Option<bool>,
)
    ensures
        themed(light, dark, Some(true), fg) == light,
        themed(light, dark, Some(false), fg) == dark,
        themed(light, dark, None, Some(true)) == dark,
        themed(light, dark, None, Some(false)) == light,
        themed(light, dark, None, None) == dark,
{
}

} // verus!
