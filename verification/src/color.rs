//! Theme colors: named terminal colors and CSS-like `#` hex strings
//! (`#rgb`, `#rgba`, `#rrggbb`, `#rrggbbaa`; the alpha digits are checked and dropped).

use vstd::prelude::*;
use vstd::utf8::*;
use crate::text::{is_white_space, leading_ws, trailing_ws, trim, trim_str};
use ratatui::style::Color as Tc;

verus! {

broadcast use vstd::string::group_string_axioms;

/// A terminal color, as the renderer knows them.
#[derive(Debug, Clone, Copy, PartialEq, Eq)]
pub enum Color {
    Reset,
    Black,
    Red,
    Green,
    Yellow,
    Blue,
    Magenta,
    Cyan,
    Gray,
    DarkGray,
    LightRed,
    LightGreen,
    LightYellow,
    LightBlue,
    LightMagenta,
    LightCyan,
    White,
    Rgb(u8, u8, u8),
    Indexed(u8),
}

/// The string is not a color.
#[derive(Debug, Clone, Copy, PartialEq, Eq)]
pub struct ParseColorError;

/// What ratatui's `Color::from_str` makes of a string (color names in their
/// usual spellings, `0`..`255` as an indexed color), `None` where it fails.
pub uninterp spec fn named_color(s: Seq<char>) -> Option<Color>;

/// Calls ratatui's `Color::from_str` and converts the color it returns, variant for
/// variant; claims only that the result is [`named_color`] of the argument.
#[verifier::external_body]
fn color_from_name(s: &str) -> (r: Option<Color>)
    ensures
        r == named_color(s@),
{
    Some(match <Tc as std::str::FromStr>::from_str(s).ok()? {
        Tc::Reset => Color::Reset, Tc::Black => Color::Black, Tc::Red => Color::Red,
        Tc::Green => Color::Green, Tc::Yellow => Color::Yellow, Tc::Blue => Color::Blue,
        Tc::Magenta => Color::Magenta, Tc::Cyan => Color::Cyan, Tc::Gray => Color::Gray,
        Tc::DarkGray => Color::DarkGray, Tc::LightRed => Color::LightRed,
        Tc::LightGreen => Color::LightGreen, Tc::LightYellow => Color::LightYellow,
        Tc::LightBlue => Color::LightBlue, Tc::LightMagenta => Color::LightMagenta,
        Tc::LightCyan => Color::LightCyan, Tc::White => Color::White,
        Tc::Rgb(r, g, b) => Color::Rgb(r, g, b), Tc::Indexed(i) => Color::Indexed(i),
    })
}

/// Value of an ASCII hex digit.
pub open spec fn nibble(b: u8) -> Option<u8> {
    if 0x30 <= b <= 0x39 {
        Some((b - 0x30) as u8)
    } else if 0x61 <= b <= 0x66 {
        Some((b - 0x61 + 10) as u8)
    } else if 0x41 <= b <= 0x46 {
        Some((b - 0x41 + 10) as u8)
    } else {
        None
    }
}

/// Value of two hex digits, high digit first.
pub open spec fn hex_pair(hi: u8, lo: u8) -> Option<u8> {
    match (nibble(hi), nibble(lo)) {
        (Some(h), Some(l)) => Some((h * 16 + l) as u8),
        _ => None,
    }
}

/// `#rgb`: each of the first three digits stands for a doubled digit.
pub open spec fn short_triplet(h: Seq<u8>) -> Option<(u8, u8, u8)> {
    match (nibble(h[0]), nibble(h[1]), nibble(h[2])) {
        (Some(r), Some(g), Some(b)) => Some(((r * 17) as u8, (g * 17) as u8, (b * 17) as u8)),
        _ => None,
    }
}

/// `#rrggbb`: the first six digits, two per channel.
pub open spec fn long_triplet(h: Seq<u8>) -> Option<(u8, u8, u8)> {
    match (hex_pair(h[0], h[1]), hex_pair(h[2], h[3]), hex_pair(h[4], h[5])) {
        (Some(r), Some(g), Some(b)) => Some((r, g, b)),
        _ => None,
    }
}

/// The channels that the bytes after `#` stand for, `None` where they are no color.
pub open spec fn hex_rgb(h: Seq<u8>) -> Option<(u8, u8, u8)> {
    if h.len() == 3 {
        short_triplet(h)
    } else if h.len() == 4 {
        if nibble(h[3]) is Some { short_triplet(h) } else { None }
    } else if h.len() == 6 {
        long_triplet(h)
    } else if h.len() == 8 {
        if hex_pair(h[6], h[7]) is Some { long_triplet(h) } else { None }
    } else {
        None
    }
}

/// Whether splitting the digits after `#` into channels would cut a multi-byte
/// character: the parser splits the UTF-8 bytes by position and panics there.
pub open spec fn hex_split_panics(h: Seq<u8>) -> bool {
    if h.len() == 4 {
        is_continuation_byte(h[3])
    } else if h.len() == 6 {
        is_continuation_byte(h[2]) || (hex_pair(h[0], h[1]) is Some && is_continuation_byte(h[4]))
    } else if h.len() == 8 {
        is_continuation_byte(h[6]) || is_continuation_byte(h[2]) || (hex_pair(h[0], h[1]) is Some
            && is_continuation_byte(h[4]))
    } else {
        false
    }
}

/// Whether `t` (already trimmed) is written in the `#` hex form.
pub open spec fn is_hex_form(t: Seq<char>) -> bool {
    t.len() > 0 && t[0] == '#'
}

/// The color a theme string stands for.
pub open spec fn css_color(s: Seq<char>) -> Option<Color> {
    let t = trim(s);
    if is_hex_form(t) {
        match hex_rgb(encode_utf8(t.drop_first())) {
            Some((r, g, b)) => Some(Color::Rgb(r, g, b)),
            None => None,
        }
    } else {
        named_color(t)
    }
}

/// Whether parsing `s` as a color panics (see [`hex_split_panics`]).
pub open spec fn css_color_panics(s: Seq<char>) -> bool {
    let t = trim(s);
    is_hex_form(t) && hex_split_panics(encode_utf8(t.drop_first()))
}

/// [`css_color`] as the parser's result.
pub open spec fn css_result(s: Seq<char>) -> Result<Color, ParseColorError> {
    match css_color(s) {
        Some(c) => Ok(c),
        None => Err(ParseColorError),
    }
}

/// Value of a hex digit byte.
pub fn hex_nibble(byte: u8) -> (r: Result<u8, ParseColorError>)
    ensures
        r == (match nibble(byte) {
            Some(v) => Ok(v),
            None => Err(ParseColorError),
        }),
{
    if 0x30 <= byte && byte <= 0x39 {
        Ok(byte - 0x30)
    } else if 0x61 <= byte && byte <= 0x66 {
        Ok(byte - 0x61 + 10)
    } else if 0x41 <= byte && byte <= 0x46 {
        Ok(byte - 0x41 + 10)
    } else {
        Err(ParseColorError)
    }
}

/// Value of exactly two hex digit bytes.
pub fn hex_byte(hex: &[u8]) -> (r: Result<u8, ParseColorError>)
    ensures
        r == (if hex@.len() == 2 {
            match hex_pair(hex@[0], hex@[1]) {
                Some(v) => Ok(v),
                None => Err(ParseColorError),
            }
        } else {
            Err(ParseColorError)
        }),
{
    if hex.len() != 2 {
        return Err(ParseColorError);
    }
    let hi = hex_nibble(hex[0])?;
    let lo = hex_nibble(hex[1])?;
    Ok(hi * 16 + lo)
}

/// Channels of exactly three hex digit bytes, each digit doubled.
pub fn expand_nibble_triplet(hex: &[u8]) -> (r: Result<(u8, u8, u8), ParseColorError>)
    ensures
        r == (if hex@.len() == 3 {
            match short_triplet(hex@) {
                Some(t) => Ok(t),
                None => Err(ParseColorError),
            }
        } else {
            Err(ParseColorError)
        }),
{
    if hex.len() != 3 {
        return Err(ParseColorError);
    }
    let r = hex_nibble(hex[0])?;
    let g = hex_nibble(hex[1])?;
    let b = hex_nibble(hex[2])?;
    Ok((r * 17, g * 17, b * 17))
}

/// Channels of exactly six hex digit bytes, two per channel.
pub fn parse_byte_triplet(hex: &[u8]) -> (r: Result<(u8, u8, u8), ParseColorError>)
    ensures
        r == (if hex@.len() == 6 {
            match long_triplet(hex@) {
                Some(t) => Ok(t),
                None => Err(ParseColorError),
            }
        } else {
            Err(ParseColorError)
        }),
{
    if hex.len() != 6 {
        return Err(ParseColorError);
    }
    let r = hex_byte(slice_range(hex, 0, 2))?;
    let g = hex_byte(slice_range(hex, 2, 4))?;
    let b = hex_byte(slice_range(hex, 4, 6))?;
    Ok((r, g, b))
}

/// `s[from..to]` of a byte slice.
fn slice_range(s: &[u8], from: usize, to: usize) -> (r: &[u8])
    requires
        from <= to <= s@.len(),
    ensures
        r@ == s@.subrange(from as int, to as int),
{
    vstd::slice::slice_subrange(s, from, to)
}

proof fn lemma_hash_prefix(t: Seq<char>)
    requires
        is_hex_form(t),
    ensures
        encode_utf8(t) == seq![0x23u8] + encode_utf8(t.drop_first()),
{
    assert(('#' as u32) == 0x23);
    assert(has_width_1_encoding(0x23));
    assert(leading_byte_width_1(0x23) == 0x23u8) by (bit_vector);
}

/// Parses a `#`-prefixed hex color.
fn parse_hex_color(s: &str) -> (r: Result<Color, ParseColorError>)
    requires
        is_hex_form(s@),
        !hex_split_panics(encode_utf8(s@.drop_first())),
    ensures
        r == (match hex_rgb(encode_utf8(s@.drop_first())) {
            Some((r, g, b)) => Ok(Color::Rgb(r, g, b)),
            None => Err(ParseColorError),
        }),
{
    let bytes = s.as_bytes();
    proof {
        lemma_hash_prefix(s@);
    }
    let ghost h = encode_utf8(s@.drop_first());
    assert(bytes@ == seq![0x23u8] + h);
    let hex = slice_range(bytes, 1, bytes.len());
    assert(hex@ =~= h);
    let n = hex.len();
    let (r, g, b) = if n == 3 {
        expand_nibble_triplet(hex)?
    } else if n == 4 {
        let t = expand_nibble_triplet(slice_range(hex, 0, 3))?;
        let _a = hex_nibble(hex[3])?;
        assert(slice_range_spec(h, 0, 3) =~= h.take(3));
        t
    } else if n == 6 {
        parse_byte_triplet(hex)?
    } else if n == 8 {
        let t = parse_byte_triplet(slice_range(hex, 0, 6))?;
        let _a = hex_byte(slice_range(hex, 6, 8))?;
        t
    } else {
        return Err(ParseColorError);
    };
    Ok(Color::Rgb(r, g, b))
}

spec fn slice_range_spec(h: Seq<u8>, from: int, to: int) -> Seq<u8> {
    h.subrange(from, to)
}

/// Parses a theme color: a named terminal color, or `#` hex like CSS.
/// White space around the value is ignored.
pub fn parse_css_color(s: &str) -> (r: Result<Color, ParseColorError>)
    requires
        !css_color_panics(s@),
    ensures
        r == css_result(s@),
{
    let t = trim_str(s);
    let t = t.as_str();
    if t.unicode_len() > 0 && t.get_char(0) == '#' {
        parse_hex_color(t)
    } else {
        match color_from_name(t) {
            Some(c) => Ok(c),
            None => Err(ParseColorError),
        }
    }
}

/// Whether a character is an ASCII hex digit.
pub open spec fn hex_char(c: char) -> bool {
    let v = c as u32;
    ||| 0x30 <= v <= 0x39
    ||| 0x41 <= v <= 0x46
    ||| 0x61 <= v <= 0x66
}

/// The byte of an ASCII character.
pub open spec fn byte_of(c: char) -> u8 {
    (c as u32) as u8
}

/// The value of a hex digit.
pub open spec fn hex_value(c: char) -> u8 {
    match nibble(byte_of(c)) {
        Some(v) => v,
        None => 0,
    }
}

/// The short hex forms of [`parse_css_color`]: for hex digits `r`, `g`, `b` and `a`,
/// `#rgb`, `#rgba` and `#rrggbb` are parsed without panicking, all three to the same
/// color, whose every channel is its digit's value times 17; the alpha digit is
/// checked and ignored.
pub proof fn lemma_parse_css_short_forms(r: char, g: char, b: char, a: char)
    requires
        hex_char(r),
        hex_char(g),
        hex_char(b),
        hex_char(a),
    ensures
        !css_color_panics(seq!['#', r, g, b]),
        !css_color_panics(seq!['#', r, g, b, a]),
        !css_color_panics(seq!['#', r, r, g, g, b, b]),
        css_result(seq!['#', r, g, b]) == Ok::<Color, ParseColorError>(
            Color::Rgb(
                (17 * hex_value(r)) as u8,
                (17 * hex_value(g)) as u8,
                (17 * hex_value(b)) as u8,
            ),
        ),
        css_result(seq!['#', r, g, b, a]) == css_result(seq!['#', r, g, b]),
        css_result(seq!['#', r, r, g, g, b, b]) == css_result(seq!['#', r, g, b]),
{
    lemma_css_bytes3(r, g, b);
    lemma_css_bytes4(r, g, b, a);
    lemma_css_bytes6(r, g, b);
    lemma_short_form_doubles_digits(byte_of(r), byte_of(g), byte_of(b));
    lemma_alpha_ignored(seq![byte_of(r), byte_of(g), byte_of(b)], byte_of(a), byte_of(a));
}

/// The alpha pair of [`parse_css_color`]: for hex digits `h` (six of them), `a1` and
/// `a2`, `#h` and `#h` followed by `a1 a2` are parsed without panicking to the same
/// color, whose channels are the digit pairs of `h` read as hex numbers.
pub proof fn lemma_parse_css_alpha_dropped(h: Seq<char>, a1: char, a2: char)
    requires
        h.len() == 6,
        forall|i: int| 0 <= i < h.len() ==> hex_char(#[trigger] h[i]),
        hex_char(a1),
        hex_char(a2),
    ensures
        !css_color_panics(seq!['#'] + h),
        !css_color_panics(seq!['#'] + h + seq![a1, a2]),
        css_result(seq!['#'] + h) == Ok::<Color, ParseColorError>(
            Color::Rgb(
                (16 * hex_value(h[0]) + hex_value(h[1])) as u8,
                (16 * hex_value(h[2]) + hex_value(h[3])) as u8,
                (16 * hex_value(h[4]) + hex_value(h[5])) as u8,
            ),
        ),
        css_result(seq!['#'] + h + seq![a1, a2]) == css_result(seq!['#'] + h),
{
    let s6 = seq!['#'] + h;
    let s8 = seq!['#'] + h + seq![a1, a2];
    assert forall|i: int| 1 <= i < s6.len() implies hex_char(#[trigger] s6[i]) by {
        assert(s6[i] == h[i - 1]);
    }
    assert forall|i: int| 1 <= i < s8.len() implies hex_char(#[trigger] s8[i]) by {
        if i < 7 {
            assert(s8[i] == h[i - 1]);
        }
    }
    lemma_hex_color(s6);
    lemma_hex_color(s8);
    let hb = h.map_values(|c: char| byte_of(c));
    assert(s6.drop_first().map_values(|c: char| byte_of(c)) =~= hb);
    assert(s8.drop_first().map_values(|c: char| byte_of(c)) =~= hb.push(byte_of(a1)).push(byte_of(a2)));
    assert(hex_char(h[0]) && hex_char(h[1]) && hex_char(h[2]));
    assert(hex_char(h[3]) && hex_char(h[4]) && hex_char(h[5]));
    lemma_alpha_ignored(hb, byte_of(a1), byte_of(a2));
}

/// Whether [`parse_css_color`] would panic on `s`.
pub fn css_color_would_panic(s: &str) -> (r: bool)
    ensures
        r == css_color_panics(s@),
{
    let t = trim_str(s);
    let t = t.as_str();
    if !(t.unicode_len() > 0 && t.get_char(0) == '#') {
        return false;
    }
    let bytes = t.as_bytes();
    proof {
        lemma_hash_prefix(t@);
    }
    let ghost h = encode_utf8(t@.drop_first());
    assert(bytes@ == seq![0x23u8] + h);
    let hex = slice_range(bytes, 1, bytes.len());
    assert(hex@ =~= h);
    let n = hex.len();
    if n == 4 {
        continuation(hex[3])
    } else if n == 6 {
        continuation(hex[2]) || (hex_byte(slice_range(hex, 0, 2)).is_ok() && continuation(hex[4]))
    } else if n == 8 {
        continuation(hex[6]) || continuation(hex[2]) || (hex_byte(slice_range(hex, 0, 2)).is_ok()
            && continuation(hex[4]))
    } else {
        false
    }
}

fn continuation(b: u8) -> (r: bool)
    ensures
        r == is_continuation_byte(b),
{
    0x80 <= b && b <= 0xbf
}


// ---------------------------------------------------------------- laws

/// `#rgb` is shorthand for `#rrggbb` with each digit doubled.
pub proof fn lemma_short_form_doubles_digits(r: u8, g: u8, b: u8)
    ensures
        hex_rgb(seq![r, g, b]) == hex_rgb(seq![r, r, g, g, b, b]),
{
}

/// An alpha channel is checked and then dropped: `#rgba` is `#rgb` and `#rrggbbaa`
/// is `#rrggbb` where the alpha digits are hex digits.
pub proof fn lemma_alpha_ignored(h: Seq<u8>, a1: u8, a2: u8)
    ensures
        h.len() == 3 && nibble(a1) is Some ==> hex_rgb(h.push(a1)) == hex_rgb(h),
        h.len() == 6 && hex_pair(a1, a2) is Some ==> hex_rgb(h.push(a1).push(a2)) == hex_rgb(h),
{
    if h.len() == 3 {
        assert(h.push(a1)[0] == h[0] && h.push(a1)[1] == h[1] && h.push(a1)[2] == h[2]);
    }
    if h.len() == 6 {
        let t = h.push(a1).push(a2);
        assert(t[0] == h[0] && t[1] == h[1] && t[2] == h[2] && t[3] == h[3] && t[4] == h[4] && t[5] == h[5]);
    }
}


proof fn lemma_ascii_bytes(s: Seq<char>)
    requires
        forall|i: int| 0 <= i < s.len() ==> hex_char(#[trigger] s[i]),
    ensures
        encode_utf8(s) == s.map_values(|c: char| byte_of(c)),
    decreases s.len(),
{
    if s.len() > 0 {
        let x = s[0] as u32;
        assert(hex_char(s[0]));
        assert(has_width_1_encoding(x));
        assert((x & 0x7F) as u8 == x as u8) by (bit_vector)
            requires
                x <= 0x7F,
        ;
        assert forall|i: int| 0 <= i < s.drop_first().len() implies hex_char(#[trigger] s.drop_first()[i]) by {
            assert(s.drop_first()[i] == s[i + 1]);
        }
        lemma_ascii_bytes(s.drop_first());
        assert(encode_utf8(s) =~= s.map_values(|c: char| byte_of(c)));
    }
}

proof fn lemma_hex_form_untrimmed(s: Seq<char>)
    requires
        s.len() > 1,
        s[0] == '#',
        hex_char(s.last()),
    ensures
        trim(s) == s,
{
    assert(('#' as u32) == 0x23);
    assert(!is_white_space(s[0]));
    assert(leading_ws(s) == 0);
    assert(s.skip(0) =~= s);
    assert(!is_white_space(s.last()));
    assert(trailing_ws(s) == 0);
    assert(s.take(s.len() as int) =~= s);
}

/// The color of `#` followed by hex digits.
proof fn lemma_hex_color(s: Seq<char>)
    requires
        s.len() > 1,
        s[0] == '#',
        forall|i: int| 1 <= i < s.len() ==> hex_char(#[trigger] s[i]),
    ensures
        css_color(s) == match hex_rgb(s.drop_first().map_values(|c: char| byte_of(c))) {
            Some((r, g, b)) => Some(Color::Rgb(r, g, b)),
            None => None,
        },
        !css_color_panics(s),
{
    assert(hex_char(s[s.len() - 1]));
    lemma_hex_form_untrimmed(s);
    assert forall|i: int| 0 <= i < s.drop_first().len() implies hex_char(#[trigger] s.drop_first()[i]) by {
        assert(s.drop_first()[i] == s[i + 1]);
    }
    lemma_ascii_bytes(s.drop_first());
    let hb = s.drop_first().map_values(|c: char| byte_of(c));
    assert forall|i: int| 0 <= i < hb.len() implies !is_continuation_byte(#[trigger] hb[i]) by {
        assert(hex_char(s.drop_first()[i]));
    }
}

/// The color of `#` and three hex digits, by their bytes.
proof fn lemma_css_bytes3(r: char, g: char, b: char)
    requires
        hex_char(r),
        hex_char(g),
        hex_char(b),
    ensures
        css_color(seq!['#', r, g, b]) == match hex_rgb(seq![byte_of(r), byte_of(g), byte_of(b)]) {
            Some((x, y, z)) => Some(Color::Rgb(x, y, z)),
            None => None,
        },
{
    let s = seq!['#', r, g, b];
    lemma_hex_color(s);
    assert(s.drop_first().map_values(|c: char| byte_of(c)) =~= seq![byte_of(r), byte_of(g), byte_of(b)]);
}

/// The color of `#` and four hex digits, by their bytes.
proof fn lemma_css_bytes4(r: char, g: char, b: char, a: char)
    requires
        hex_char(r),
        hex_char(g),
        hex_char(b),
        hex_char(a),
    ensures
        css_color(seq!['#', r, g, b, a]) == match hex_rgb(
            seq![byte_of(r), byte_of(g), byte_of(b)].push(byte_of(a)),
        ) {
            Some((x, y, z)) => Some(Color::Rgb(x, y, z)),
            None => None,
        },
{
    let s = seq!['#', r, g, b, a];
    lemma_hex_color(s);
    assert(s.drop_first().map_values(|c: char| byte_of(c)) =~= seq![byte_of(r), byte_of(g), byte_of(b)].push(
        byte_of(a),
    ));
}

/// The color of `#` and six hex digits (each given one twice), by their bytes.
proof fn lemma_css_bytes6(r: char, g: char, b: char)
    requires
        hex_char(r),
        hex_char(g),
        hex_char(b),
    ensures
        css_color(seq!['#', r, r, g, g, b, b]) == match hex_rgb(
            seq![byte_of(r), byte_of(r), byte_of(g), byte_of(g), byte_of(b), byte_of(b)],
        ) {
            Some((x, y, z)) => Some(Color::Rgb(x, y, z)),
            None => None,
        },
{
    let s = seq!['#', r, r, g, g, b, b];
    lemma_hex_color(s);
    assert(s.drop_first().map_values(|c: char| byte_of(c)) =~= seq![
        byte_of(r),
        byte_of(r),
        byte_of(g),
        byte_of(g),
        byte_of(b),
        byte_of(b),
    ]);
}

} // verus!
