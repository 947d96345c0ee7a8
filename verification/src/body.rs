//! Colours written in `span` attributes of a notification body: a name, hex notation,
//! `rgb(r, g, b)` or `rgba(r, g, b, a)`.
use crate::color::{hex_component, hex_digit, hex_val, parse_component};
use crate::markup::{Attributes, Position, SpecTag, Tag};
use crate::text::{
    all_ascii, byte_len, chars_of, is_ascii_seq, lowercase, split_chars, split_on, str_byte_len,
    str_eq, string_of, to_lowercase, trim, trim_chars,
};
use vstd::prelude::*;

verus! {

/// A colour with red, green, blue and alpha channels.
#[derive(PartialEq, Eq, Structural, Debug, Clone, Copy)]
pub struct Rgba {
    pub r: u8,
    pub g: u8,
    pub b: u8,
    pub a: u8,
}

/// A colour as read: complete, or from `rgba(..)` with its alpha still as written (a
/// fraction, which the caller converts).
#[derive(Debug, Clone, PartialEq)]
pub enum ParsedColor {
    Color(Rgba),
    WithAlpha { r: u8, g: u8, b: u8, alpha: String },
}

/// The colour of a name, for the names the daemon knows.
pub open spec fn named_color(lower: Seq<char>) -> Option<Rgba> {
    if lower == "black"@ {
        Some(Rgba { r: 0, g: 0, b: 0, a: 255 })
    } else if lower == "white"@ {
        Some(Rgba { r: 255, g: 255, b: 255, a: 255 })
    } else if lower == "red"@ {
        Some(Rgba { r: 255, g: 0, b: 0, a: 255 })
    } else if lower == "green"@ {
        Some(Rgba { r: 0, g: 128, b: 0, a: 255 })
    } else if lower == "blue"@ {
        Some(Rgba { r: 0, g: 0, b: 255, a: 255 })
    } else if lower == "yellow"@ {
        Some(Rgba { r: 255, g: 255, b: 0, a: 255 })
    } else if lower == "purple"@ {
        Some(Rgba { r: 128, g: 0, b: 128, a: 255 })
    } else if lower == "cyan"@ {
        Some(Rgba { r: 0, g: 255, b: 255, a: 255 })
    } else if lower == "magenta"@ {
        Some(Rgba { r: 255, g: 0, b: 255, a: 255 })
    } else {
        None
    }
}

/// A single hex digit `d` as a channel (`d * 17`).
pub open spec fn short_channel(c: char) -> Option<u8> {
    match hex_val(c) {
        Some(v) => Some((v * 17) as u8),
        None => None,
    }
}

/// The colour of hex digits `h` (after `#`): 3 or 4 single digits, or 6 or 8 pairs.
pub open spec fn hex_color(h: Seq<char>) -> Option<Rgba> {
    if !is_ascii_seq(h) {
        None
    } else if h.len() == 3 {
        match (short_channel(h[0]), short_channel(h[1]), short_channel(h[2])) {
            (Some(r), Some(g), Some(b)) => Some(Rgba { r, g, b, a: 255 }),
            _ => None,
        }
    } else if h.len() == 4 {
        match (short_channel(h[0]), short_channel(h[1]), short_channel(h[2]), short_channel(h[3])) {
            (Some(r), Some(g), Some(b), Some(a)) => Some(Rgba { r, g, b, a }),
            _ => None,
        }
    } else if h.len() == 6 {
        match (hex_component(h[0], h[1]), hex_component(h[2], h[3]), hex_component(h[4], h[5])) {
            (Some(r), Some(g), Some(b)) => Some(Rgba { r, g, b, a: 255 }),
            _ => None,
        }
    } else if h.len() == 8 {
        match (
            hex_component(h[0], h[1]),
            hex_component(h[2], h[3]),
            hex_component(h[4], h[5]),
            hex_component(h[6], h[7]),
        ) {
            (Some(r), Some(g), Some(b), Some(a)) => Some(Rgba { r, g, b, a }),
            _ => None,
        }
    } else {
        None
    }
}

/// A decimal digit.
pub open spec fn is_dec_digit(c: char) -> bool {
    '0' <= c && c <= '9'
}

/// The value of a string of decimal digits.
pub open spec fn dec_value(s: Seq<char>) -> nat
    decreases s.len(),
{
    if s.len() == 0 {
        0
    } else {
        dec_value(s.drop_last()) * 10 + (s.last() as nat - '0' as nat) as nat
    }
}

/// An unsigned number written in decimal (`str::parse` of an unsigned type whose
/// largest value is `max`): an optional `+`, then at least one digit, with a value of at
/// most `max`.
pub open spec fn parse_dec_spec(s: Seq<char>, max: nat) -> Option<nat> {
    let d = unsigned_part(s);
    if all_digits(d) && dec_value(d) <= max {
        Some(dec_value(d))
    } else {
        None
    }
}

/// A `u8` written in decimal (`str::parse::<u8>`).
pub open spec fn parse_u8_spec(s: Seq<char>) -> Option<u8> {
    match parse_dec_spec(s, 255) {
        Some(n) => Some(n as u8),
        None => None,
    }
}

/// A `u16` written in decimal (`str::parse::<u16>`).
pub open spec fn parse_u16_spec(s: Seq<char>) -> Option<u16> {
    match parse_dec_spec(s, 65535) {
        Some(n) => Some(n as u16),
        None => None,
    }
}

/// `s` without a leading `+`.
pub open spec fn unsigned_part(s: Seq<char>) -> Seq<char> {
    if s.len() > 0 && s[0] == '+' {
        s.skip(1)
    } else {
        s
    }
}

/// At least one character, all decimal digits.
pub open spec fn all_digits(d: Seq<char>) -> bool {
    d.len() > 0 && forall|i: int| 0 <= i < d.len() ==> is_dec_digit(#[trigger] d[i])
}

/// The trimmed pieces of `inner` between commas.
pub open spec fn trimmed_parts(inner: Seq<char>) -> Seq<Seq<char>> {
    split_on(inner, ',').map_values(|p: Seq<char>| trim(p))
}

/// What `parse_color` reads from a value `v` (already trimmed) whose lowercase form is
/// `lower`.
pub enum ColorReading {
    Color(Rgba),
    WithAlpha(u8, u8, u8, Seq<char>),
}

/// A colour as `parse_color` reads it (see the module documentation).
pub open spec fn color_spec(v: Seq<char>, lower: Seq<char>) -> Option<ColorReading> {
    if named_color(lower) is Some {
        Some(ColorReading::Color(named_color(lower)->0))
    } else if v.len() > 0 && v[0] == '#' {
        match hex_color(v.skip(1)) {
            Some(c) => Some(ColorReading::Color(c)),
            None => None,
        }
    } else if v.len() >= 5 && v.take(4) == "rgb("@ && v.last() == ')' {
        let parts = trimmed_parts(v.subrange(4, v.len() - 1));
        if parts.len() == 3 {
            match (parse_u8_spec(parts[0]), parse_u8_spec(parts[1]), parse_u8_spec(parts[2])) {
                (Some(r), Some(g), Some(b)) => Some(ColorReading::Color(Rgba { r, g, b, a: 255 })),
                _ => None,
            }
        } else {
            None
        }
    } else if v.len() >= 6 && v.take(5) == "rgba("@ && v.last() == ')' {
        let parts = trimmed_parts(v.subrange(5, v.len() - 1));
        if parts.len() == 4 {
            match (parse_u8_spec(parts[0]), parse_u8_spec(parts[1]), parse_u8_spec(parts[2])) {
                (Some(r), Some(g), Some(b)) => Some(ColorReading::WithAlpha(r, g, b, parts[3])),
                _ => None,
            }
        } else {
            None
        }
    } else {
        None
    }
}


proof fn lemma_dec_mono(d: Seq<char>, k: int)
    requires
        0 <= k <= d.len(),
    ensures
        dec_value(d.take(k)) <= dec_value(d),
    decreases d.len(),
{
    if k < d.len() {
        assert(d.drop_last().take(k) =~= d.take(k));
        lemma_dec_mono(d.drop_last(), k);
    } else {
        assert(d.take(k) =~= d);
    }
}

/// An unsigned number of at most `max` written in decimal (see `parse_dec_spec`).
fn parse_dec(s: &Vec<char>, max: u32) -> (r: Option<u32>)
    requires
        max <= 65535,
    ensures
        match r {
            Some(n) => parse_dec_spec(s@, max as nat) == Some(n as nat),
            None => parse_dec_spec(s@, max as nat) is None,
        },
{
    let start: usize = if s.len() > 0 && s[0] == '+' {
        1
    } else {
        0
    };
    let ghost d = unsigned_part(s@);
    assert(d =~= s@.skip(start as int));
    if start >= s.len() {
        return None;
    }
    let mut acc: u32 = 0;
    let mut i: usize = start;
    assert(d.take(0) =~= Seq::<char>::empty());
    while i < s.len()
        invariant
            start <= i <= s.len(),
            max <= 65535,
            d == s@.skip(start as int),
            d == unsigned_part(s@),
            acc == dec_value(d.take(i - start)),
            acc <= max,
            forall|k: int| 0 <= k < i - start ==> is_dec_digit(#[trigger] d[k]),
        decreases s.len() - i,
    {
        let c = s[i];
        if !('0' <= c && c <= '9') {
            assert(!is_dec_digit(d[i - start]));
            return None;
        }
        assert(d.take(i + 1 - start).drop_last() =~= d.take(i - start));
        acc = acc * 10 + ((c as u32) - ('0' as u32));
        if acc > max {
            proof {
                if all_digits(d) {
                    lemma_dec_mono(d, i + 1 - start);
                }
            }
            return None;
        }
        i = i + 1;
    }
    assert(d.take(s.len() - start) =~= d);
    Some(acc)
}

/// A `u8` written in decimal (see `parse_u8_spec`).
pub fn parse_u8(s: &Vec<char>) -> (r: Option<u8>)
    ensures
        r == parse_u8_spec(s@),
{
    match parse_dec(s, 255) {
        Some(n) => Some(n as u8),
        None => None,
    }
}

/// A `u16` written in decimal (see `parse_u16_spec`).
pub fn parse_u16(s: &Vec<char>) -> (r: Option<u16>)
    ensures
        r == parse_u16_spec(s@),
{
    match parse_dec(s, 65535) {
        Some(n) => Some(n as u16),
        None => None,
    }
}

fn short_digit(c: char) -> (r: Option<u8>)
    ensures
        r == short_channel(c),
{
    match hex_digit(c) {
        Some(v) => Some(v * 17),
        None => None,
    }
}

/// The colour of hex digits (see `hex_color`).
pub fn parse_hex_digits(h: &Vec<char>) -> (r: Option<Rgba>)
    ensures
        r == hex_color(h@),
{
    if !all_ascii(h) {
        return None;
    }
    if h.len() == 3 {
        match (short_digit(h[0]), short_digit(h[1]), short_digit(h[2])) {
            (Some(r), Some(g), Some(b)) => Some(Rgba { r, g, b, a: 255 }),
            _ => None,
        }
    } else if h.len() == 4 {
        match (short_digit(h[0]), short_digit(h[1]), short_digit(h[2]), short_digit(h[3])) {
            (Some(r), Some(g), Some(b), Some(a)) => Some(Rgba { r, g, b, a }),
            _ => None,
        }
    } else if h.len() == 6 {
        match (
            parse_component(h[0], h[1]),
            parse_component(h[2], h[3]),
            parse_component(h[4], h[5]),
        ) {
            (Some(r), Some(g), Some(b)) => Some(Rgba { r, g, b, a: 255 }),
            _ => None,
        }
    } else if h.len() == 8 {
        match (
            parse_component(h[0], h[1]),
            parse_component(h[2], h[3]),
            parse_component(h[4], h[5]),
            parse_component(h[6], h[7]),
        ) {
            (Some(r), Some(g), Some(b), Some(a)) => Some(Rgba { r, g, b, a }),
            _ => None,
        }
    } else {
        None
    }
}

fn named(lower: &str) -> (r: Option<Rgba>)
    ensures
        r == named_color(lower@),
{
    if str_eq(lower, "black") {
        Some(Rgba { r: 0, g: 0, b: 0, a: 255 })
    } else if str_eq(lower, "white") {
        Some(Rgba { r: 255, g: 255, b: 255, a: 255 })
    } else if str_eq(lower, "red") {
        Some(Rgba { r: 255, g: 0, b: 0, a: 255 })
    } else if str_eq(lower, "green") {
        Some(Rgba { r: 0, g: 128, b: 0, a: 255 })
    } else if str_eq(lower, "blue") {
        Some(Rgba { r: 0, g: 0, b: 255, a: 255 })
    } else if str_eq(lower, "yellow") {
        Some(Rgba { r: 255, g: 255, b: 0, a: 255 })
    } else if str_eq(lower, "purple") {
        Some(Rgba { r: 128, g: 0, b: 128, a: 255 })
    } else if str_eq(lower, "cyan") {
        Some(Rgba { r: 0, g: 255, b: 255, a: 255 })
    } else if str_eq(lower, "magenta") {
        Some(Rgba { r: 255, g: 0, b: 255, a: 255 })
    } else {
        None
    }
}

/// The characters of `v` from `a` to `b`.
fn slice_chars(v: &Vec<char>, a: usize, b: usize) -> (r: Vec<char>)
    requires
        a <= b <= v.len(),
    ensures
        r@ == v@.subrange(a as int, b as int),
{
    let mut r: Vec<char> = Vec::new();
    let mut i: usize = a;
    while i < b
        invariant
            a <= i <= b <= v.len(),
            r@ == v@.subrange(a as int, i as int),
        decreases b - i,
    {
        r.push(v[i]);
        i = i + 1;
        assert(r@ =~= v@.subrange(a as int, i as int));
    }
    r
}

/// The pieces of `inner` between commas, trimmed.
fn trimmed_pieces(inner: &Vec<char>) -> (r: Vec<Vec<char>>)
    ensures
        r@.map_values(|p: Vec<char>| p@) == trimmed_parts(inner@),
{
    let parts = split_chars(inner, ',');
    let mut r: Vec<Vec<char>> = Vec::new();
    let mut i: usize = 0;
    while i < parts.len()
        invariant
            i <= parts.len(),
            parts@.map_values(|p: Vec<char>| p@) == split_on(inner@, ','),
            r@.map_values(|p: Vec<char>| p@) == split_on(inner@, ',').take(i as int).map_values(
                |p: Seq<char>| trim(p),
            ),
        decreases parts.len() - i,
    {
        let t = trim_chars(&parts[i]);
        r.push(t);
        proof {
            assert(parts@.map_values(|p: Vec<char>| p@)[i as int] == parts@[i as int]@);
            assert(split_on(inner@, ',').take(i + 1).map_values(|p: Seq<char>| trim(p))
                =~= split_on(inner@, ',').take(i as int).map_values(|p: Seq<char>| trim(p)).push(
                trim(parts@[i as int]@),
            ));
            assert(r@.map_values(|p: Vec<char>| p@) =~= split_on(inner@, ',').take(
                i + 1,
            ).map_values(|p: Seq<char>| trim(p)));
        }
        i = i + 1;
    }
    assert(split_on(inner@, ',').take(parts.len() as int) =~= split_on(inner@, ','));
    r
}

/// Reads a colour of a `span` attribute (see `color_spec`): the value is trimmed; a
/// name counts in any case.
pub fn parse_color(value: &str) -> (r: Option<ParsedColor>)
    ensures
        ({
            let v = trim(value@);
            let spec = color_spec(v, lowercase(v));
            match r {
                Some(ParsedColor::Color(c)) => spec == Some(ColorReading::Color(c)),
                Some(ParsedColor::WithAlpha { r, g, b, alpha }) => spec == Some(
                    ColorReading::WithAlpha(r, g, b, alpha@),
                ),
                None => spec is None,
            }
        }),
        is_ascii_seq(trim(value@)) ==> lowercase(trim(value@)) == crate::text::ascii_lower(trim(value@)),
{
    let raw = chars_of(value);
    let v = trim_chars(&raw);
    let vs = string_of(&v);
    let lower = to_lowercase(vs.as_str());
    color_from_lowercase(&v, lower.as_str())
}

/// The colour of a trimmed value `v` whose lowercase form is `lower` (see `color_spec`).
pub fn color_from_lowercase(v: &Vec<char>, lower: &str) -> (r: Option<ParsedColor>)
    ensures
        ({
            let spec = color_spec(v@, lower@);
            match r {
                Some(ParsedColor::Color(c)) => spec == Some(ColorReading::Color(c)),
                Some(ParsedColor::WithAlpha { r, g, b, alpha }) => spec == Some(
                    ColorReading::WithAlpha(r, g, b, alpha@),
                ),
                None => spec is None,
            }
        }),
{
    match named(lower) {
        Some(c) => {
            return Some(ParsedColor::Color(c));
        },
        None => {},
    }
    let n = v.len();
    if n > 0 && v[0] == '#' {
        let h = slice_chars(&v, 1, n);
        assert(h@ =~= v@.skip(1));
        return match parse_hex_digits(&h) {
            Some(c) => Some(ParsedColor::Color(c)),
            None => None,
        };
    }
    let rgb = chars_of("rgb(");
    let rgba = chars_of("rgba(");
    if n >= 5 && v[n - 1] == ')' {
        let head = slice_chars(&v, 0, 4);
        assert(head@ =~= v@.take(4));
        if crate::text::chars_eq(&head, &rgb) {
            let inner = slice_chars(&v, 4, n - 1);
            let parts = trimmed_pieces(&inner);
            proof {
                assert(parts@.len() == trimmed_parts(inner@).len());
            }
            if parts.len() == 3 {
                proof {
                    assert(parts@.map_values(|p: Vec<char>| p@)[0] == parts@[0]@);
                    assert(parts@.map_values(|p: Vec<char>| p@)[1] == parts@[1]@);
                    assert(parts@.map_values(|p: Vec<char>| p@)[2] == parts@[2]@);
                }
                return match (parse_u8(&parts[0]), parse_u8(&parts[1]), parse_u8(&parts[2])) {
                    (Some(r), Some(g), Some(b)) => Some(ParsedColor::Color(Rgba { r, g, b, a: 255 })),
                    _ => None,
                };
            } else {
                return None;
            }
        }
    }
    if n >= 6 && v[n - 1] == ')' {
        let head = slice_chars(&v, 0, 5);
        assert(head@ =~= v@.take(5));
        if crate::text::chars_eq(&head, &rgba) {
            let inner = slice_chars(&v, 5, n - 1);
            let parts = trimmed_pieces(&inner);
            proof {
                assert(parts@.len() == trimmed_parts(inner@).len());
            }
            if parts.len() == 4 {
                proof {
                    assert(parts@.map_values(|p: Vec<char>| p@)[0] == parts@[0]@);
                    assert(parts@.map_values(|p: Vec<char>| p@)[1] == parts@[1]@);
                    assert(parts@.map_values(|p: Vec<char>| p@)[2] == parts@[2]@);
                    assert(parts@.map_values(|p: Vec<char>| p@)[3] == parts@[3]@);
                }
                return match (parse_u8(&parts[0]), parse_u8(&parts[1]), parse_u8(&parts[2])) {
                    (Some(r), Some(g), Some(b)) => Some(
                        ParsedColor::WithAlpha { r, g, b, alpha: string_of(&parts[3]) },
                    ),
                    _ => None,
                };
            } else {
                return None;
            }
        }
    }
    None
}


// ----- styled text -------------------------------------------------------------------------
/// Slant of a font.
#[derive(PartialEq, Eq, Structural, Debug, Clone, Copy)]
pub enum FontStyle {
    Normal,
    Italic,
    Oblique,
}

/// Width of a font.
#[derive(PartialEq, Eq, Structural, Debug, Clone, Copy)]
pub enum Stretch {
    UltraCondensed,
    ExtraCondensed,
    Condensed,
    SemiCondensed,
    Normal,
    SemiExpanded,
    Expanded,
    ExtraExpanded,
    UltraExpanded,
}

/// A change to the text style of a piece of the body. Sizes and spacings stay as
/// written: the renderer reads them as fractions and ignores those that do not read.
#[derive(Debug, Clone, PartialEq)]
pub enum StyleChange {
    Family(String),
    FontSize(String),
    LetterSpacing(String),
    LineHeight(String),
    Style(FontStyle),
    Weight(u16),
    Stretch(Stretch),
    Color(ParsedColor),
}

/// A style change as the contracts see it.
pub enum SpecChange {
    Family(Seq<char>),
    FontSize(Seq<char>),
    LetterSpacing(Seq<char>),
    LineHeight(Seq<char>),
    Style(FontStyle),
    Weight(u16),
    Stretch(Stretch),
    Color(ColorReading),
}

/// The view of a parsed colour.
pub open spec fn color_view(c: ParsedColor) -> ColorReading {
    match c {
        ParsedColor::Color(x) => ColorReading::Color(x),
        ParsedColor::WithAlpha { r, g, b, alpha } => ColorReading::WithAlpha(r, g, b, alpha@),
    }
}

impl View for StyleChange {
    type V = SpecChange;

    open spec fn view(&self) -> SpecChange {
        match self {
            StyleChange::Family(s) => SpecChange::Family(s@),
            StyleChange::FontSize(s) => SpecChange::FontSize(s@),
            StyleChange::LetterSpacing(s) => SpecChange::LetterSpacing(s@),
            StyleChange::LineHeight(s) => SpecChange::LineHeight(s@),
            StyleChange::Style(f) => SpecChange::Style(*f),
            StyleChange::Weight(w) => SpecChange::Weight(*w),
            StyleChange::Stretch(x) => SpecChange::Stretch(*x),
            StyleChange::Color(c) => SpecChange::Color(color_view(*c)),
        }
    }
}

/// The weight that a numeric `weight` names: a multiple of 100 up to 900, else normal.
pub open spec fn weight_of(n: u16) -> u16 {
    if n == 100 || n == 200 || n == 300 || n == 400 || n == 500 || n == 600 || n == 700 || n
        == 800 || n == 900 {
        n
    } else {
        400
    }
}

/// The stretch a name gives.
pub open spec fn stretch_of(v: Seq<char>) -> Option<Stretch> {
    if v == "ultra-condensed"@ {
        Some(Stretch::UltraCondensed)
    } else if v == "extra-condensed"@ {
        Some(Stretch::ExtraCondensed)
    } else if v == "condensed"@ {
        Some(Stretch::Condensed)
    } else if v == "semi-condensed"@ {
        Some(Stretch::SemiCondensed)
    } else if v == "normal"@ {
        Some(Stretch::Normal)
    } else if v == "semi-expanded"@ {
        Some(Stretch::SemiExpanded)
    } else if v == "expanded"@ {
        Some(Stretch::Expanded)
    } else if v == "extra-expanded"@ {
        Some(Stretch::ExtraExpanded)
    } else if v == "ultra-expanded"@ {
        Some(Stretch::UltraExpanded)
    } else {
        None
    }
}

/// The style change of a `span` attribute `k="v"`, for the attributes that change the
/// text; `None` for the others and for values that say nothing.
pub open spec fn attr_change_spec(k: Seq<char>, v: Seq<char>) -> Option<SpecChange> {
    if k == "font_family"@ || k == "face"@ {
        Some(SpecChange::Family(v))
    } else if k == "font_size"@ || k == "size"@ {
        Some(SpecChange::FontSize(v))
    } else if k == "letter_spacing"@ {
        Some(SpecChange::LetterSpacing(v))
    } else if k == "line_height"@ {
        Some(SpecChange::LineHeight(v))
    } else if k == "font_style"@ || k == "style"@ {
        if v == "normal"@ {
            Some(SpecChange::Style(FontStyle::Normal))
        } else if v == "oblique"@ {
            Some(SpecChange::Style(FontStyle::Oblique))
        } else if v == "italic"@ {
            Some(SpecChange::Style(FontStyle::Italic))
        } else {
            None
        }
    } else if k == "font_weight"@ || k == "weight"@ {
        if v == "bold"@ {
            Some(SpecChange::Weight(700))
        } else if v == "normal"@ {
            Some(SpecChange::Weight(400))
        } else {
            match parse_u16_spec(v) {
                Some(n) => Some(SpecChange::Weight(weight_of(n))),
                None => None,
            }
        }
    } else if k == "font_stretch"@ || k == "stretch"@ {
        match stretch_of(v) {
            Some(x) => Some(SpecChange::Stretch(x)),
            None => None,
        }
    } else if k == "foreground"@ || k == "fgcolor"@ || k == "color"@ {
        match color_spec(trim(v), lowercase(trim(v))) {
            Some(c) => Some(SpecChange::Color(c)),
            None => None,
        }
    } else {
        None
    }
}

/// `foreground`, `fgcolor` and `color` are names of one attribute: each sets the
/// colour that its (trimmed) value reads as, and a value that reads as no colour
/// changes nothing.
pub proof fn law_colour_attribute_names(v: Seq<char>)
    ensures
        attr_change_spec("foreground"@, v) == attr_change_spec("color"@, v),
        attr_change_spec("fgcolor"@, v) == attr_change_spec("color"@, v),
        attr_change_spec("color"@, v) == match color_spec(trim(v), lowercase(trim(v))) {
            Some(c) => Some(SpecChange::Color(c)),
            None => None::<SpecChange>,
        },
{
    reveal_strlit("foreground");
    reveal_strlit("fgcolor");
    reveal_strlit("color");
    reveal_strlit("font_family");
    reveal_strlit("face");
    reveal_strlit("font_size");
    reveal_strlit("size");
    reveal_strlit("letter_spacing");
    reveal_strlit("line_height");
    reveal_strlit("font_style");
    reveal_strlit("style");
    reveal_strlit("font_weight");
    reveal_strlit("weight");
    reveal_strlit("font_stretch");
    reveal_strlit("stretch");
    assert("foreground"@.len() != "font_family"@.len());
    assert("foreground"@.len() != "face"@.len());
    assert("foreground"@.len() != "font_size"@.len());
    assert("foreground"@.len() != "size"@.len());
    assert("foreground"@.len() != "letter_spacing"@.len());
    assert("foreground"@.len() != "line_height"@.len());
    assert("foreground"@[2] != "font_style"@[2]);
    assert("foreground"@.len() != "style"@.len());
    assert("foreground"@.len() != "font_weight"@.len());
    assert("foreground"@.len() != "weight"@.len());
    assert("foreground"@.len() != "font_stretch"@.len());
    assert("foreground"@.len() != "stretch"@.len());
    assert("fgcolor"@.len() != "font_family"@.len());
    assert("fgcolor"@.len() != "face"@.len());
    assert("fgcolor"@.len() != "font_size"@.len());
    assert("fgcolor"@.len() != "size"@.len());
    assert("fgcolor"@.len() != "letter_spacing"@.len());
    assert("fgcolor"@.len() != "line_height"@.len());
    assert("fgcolor"@.len() != "font_style"@.len());
    assert("fgcolor"@.len() != "style"@.len());
    assert("fgcolor"@.len() != "font_weight"@.len());
    assert("fgcolor"@.len() != "weight"@.len());
    assert("fgcolor"@.len() != "font_stretch"@.len());
    assert("fgcolor"@[0] != "stretch"@[0]);
    assert("color"@.len() != "font_family"@.len());
    assert("color"@.len() != "face"@.len());
    assert("color"@.len() != "font_size"@.len());
    assert("color"@.len() != "size"@.len());
    assert("color"@.len() != "letter_spacing"@.len());
    assert("color"@.len() != "line_height"@.len());
    assert("color"@.len() != "font_style"@.len());
    assert("color"@[0] != "style"@[0]);
    assert("color"@.len() != "font_weight"@.len());
    assert("color"@.len() != "weight"@.len());
    assert("color"@.len() != "font_stretch"@.len());
    assert("color"@.len() != "stretch"@.len());
}

/// The style changes of a list of attributes, in order.
pub open spec fn attr_changes(attrs: Seq<(Seq<char>, Seq<char>)>) -> Seq<SpecChange>
    decreases attrs.len(),
{
    if attrs.len() == 0 {
        Seq::empty()
    } else {
        attr_changes(attrs.drop_last()) + match attr_change_spec(
            attrs.last().0,
            attrs.last().1,
        ) {
            Some(c) => seq![c],
            None => Seq::empty(),
        }
    }
}

/// The text of a tag and the style changes it makes: bold, italic, links in blue, the
/// attributes of a `span`; an image shows its alternative text.
pub open spec fn tag_style(t: SpecTag) -> (Seq<char>, Seq<SpecChange>) {
    match t {
        SpecTag::Bold(x) => (x, seq![SpecChange::Weight(700)]),
        SpecTag::Italic(x) => (x, seq![SpecChange::Style(FontStyle::Italic)]),
        SpecTag::Underline(x) => (x, Seq::empty()),
        SpecTag::Image { alt, src } => (alt, Seq::empty()),
        SpecTag::Anchor { href, text, position } => (
            text,
            seq![SpecChange::Color(ColorReading::Color(Rgba { r: 0, g: 0, b: 255, a: 255 }))],
        ),
        SpecTag::Span { text, attributes } => (text, attr_changes(attributes)),
        SpecTag::Text(x) => (x, Seq::empty()),
    }
}

/// A piece of the body with its style changes.
#[derive(Debug, Clone, PartialEq)]
pub struct StyledSpan {
    pub text: String,
    pub changes: Vec<StyleChange>,
}

/// A link of the body: its target, line, and first and last column (the last computed
/// as the first plus the byte length of its text, minus one, wrapping).
#[derive(Debug, Clone, PartialEq)]
pub struct Anchor {
    pub href: String,
    pub line: usize,
    pub start: usize,
    pub end: usize,
}

/// The link of a tag, as (target, line, first column, last column).
pub open spec fn tag_anchor(t: SpecTag) -> Option<(Seq<char>, usize, usize, usize)> {
    match t {
        SpecTag::Anchor { href, text, position } => Some(
            (
                href,
                position.line,
                position.column,
                position.column.wrapping_add(byte_len(text) as usize).wrapping_sub(1),
            ),
        ),
        _ => None,
    }
}

/// The view of a styled span.
pub open spec fn span_view(s: StyledSpan) -> (Seq<char>, Seq<SpecChange>) {
    (s.text@, s.changes@.map_values(|c: StyleChange| c@))
}

/// The view of a link.
pub open spec fn anchor_view(a: Anchor) -> (Seq<char>, usize, usize, usize) {
    (a.href@, a.line, a.start, a.end)
}

fn str_is(a: &String, b: &str) -> (r: bool)
    ensures
        r == (a@ == b@),
{
    str_eq(a.as_str(), b)
}

/// The style change of a `span` attribute (see `attr_change_spec`).
pub fn attribute_change(k: &String, v: &String) -> (r: Option<StyleChange>)
    ensures
        match r {
            Some(c) => attr_change_spec(k@, v@) == Some(c@),
            None => attr_change_spec(k@, v@) is None,
        },
{
    if str_is(k, "font_family") || str_is(k, "face") {
        Some(StyleChange::Family(v.clone()))
    } else if str_is(k, "font_size") || str_is(k, "size") {
        Some(StyleChange::FontSize(v.clone()))
    } else if str_is(k, "letter_spacing") {
        Some(StyleChange::LetterSpacing(v.clone()))
    } else if str_is(k, "line_height") {
        Some(StyleChange::LineHeight(v.clone()))
    } else if str_is(k, "font_style") || str_is(k, "style") {
        if str_is(v, "normal") {
            Some(StyleChange::Style(FontStyle::Normal))
        } else if str_is(v, "oblique") {
            Some(StyleChange::Style(FontStyle::Oblique))
        } else if str_is(v, "italic") {
            Some(StyleChange::Style(FontStyle::Italic))
        } else {
            None
        }
    } else if str_is(k, "font_weight") || str_is(k, "weight") {
        if str_is(v, "bold") {
            Some(StyleChange::Weight(700))
        } else if str_is(v, "normal") {
            Some(StyleChange::Weight(400))
        } else {
            let cs = chars_of(v.as_str());
            match parse_u16(&cs) {
                Some(n) => {
                    let w: u16 = if n == 100 || n == 200 || n == 300 || n == 400 || n == 500 || n
                        == 600 || n == 700 || n == 800 || n == 900 {
                        n
                    } else {
                        400
                    };
                    Some(StyleChange::Weight(w))
                },
                None => None,
            }
        }
    } else if str_is(k, "font_stretch") || str_is(k, "stretch") {
        let x = if str_is(v, "ultra-condensed") {
            Some(Stretch::UltraCondensed)
        } else if str_is(v, "extra-condensed") {
            Some(Stretch::ExtraCondensed)
        } else if str_is(v, "condensed") {
            Some(Stretch::Condensed)
        } else if str_is(v, "semi-condensed") {
            Some(Stretch::SemiCondensed)
        } else if str_is(v, "normal") {
            Some(Stretch::Normal)
        } else if str_is(v, "semi-expanded") {
            Some(Stretch::SemiExpanded)
        } else if str_is(v, "expanded") {
            Some(Stretch::Expanded)
        } else if str_is(v, "extra-expanded") {
            Some(Stretch::ExtraExpanded)
        } else if str_is(v, "ultra-expanded") {
            Some(Stretch::UltraExpanded)
        } else {
            None
        };
        match x {
            Some(x) => Some(StyleChange::Stretch(x)),
            None => None,
        }
    } else if str_is(k, "foreground") || str_is(k, "fgcolor") || str_is(k, "color") {
        match parse_color(v.as_str()) {
            Some(c) => Some(StyleChange::Color(c)),
            None => None,
        }
    } else {
        None
    }
}

/// The style changes of a list of attributes (see `attr_changes`).
pub fn attributes_changes(attrs: &Attributes) -> (r: Vec<StyleChange>)
    ensures
        r@.map_values(|c: StyleChange| c@) == attr_changes(attrs@),
{
    let mut r: Vec<StyleChange> = Vec::new();
    let mut i: usize = 0;
    assert(attrs@.take(0) =~= Seq::<(Seq<char>, Seq<char>)>::empty());
    while i < attrs.len()
        invariant
            i <= attrs@.len(),
            r@.map_values(|c: StyleChange| c@) == attr_changes(attrs@.take(i as int)),
        decreases attrs@.len() - i,
    {
        let (k, v) = attrs.entry(i);
        let ghost before = r@;
        match attribute_change(k, v) {
            Some(c) => {
                r.push(c);
            },
            None => {},
        }
        proof {
            assert(attrs@.take(i + 1).drop_last() =~= attrs@.take(i as int));
            assert(r@.map_values(|c: StyleChange| c@) =~= attr_changes(attrs@.take(i + 1)));
        }
        i = i + 1;
    }
    assert(attrs@.take(attrs@.len() as int) =~= attrs@);
    r
}

/// The tags of a whole body, read from its start.
pub open spec fn body_tags(text: Seq<char>) -> Seq<SpecTag> {
    crate::markup::parse_acc(
        text,
        crate::markup::ParseState { i: 0, pos: 0, line: 0, column: 0, text_column: 0 },
        Seq::empty(),
    ).0
}

/// The styled pieces and the links of a body given as markup (`Body::set_text`);
/// `None` only for a body so long that its byte positions could not be counted.
pub fn body_layout(text: String) -> (r: Option<(Vec<StyledSpan>, Vec<Anchor>)>)
    ensures
        r is None <==> byte_len(text@) + 8 > usize::MAX,
        r matches Some(x) ==> x.0@.map_values(|s: StyledSpan| span_view(s)) == body_tags(
            text@,
        ).map_values(|t: SpecTag| tag_style(t)) && x.1@.map_values(|a: Anchor| anchor_view(a))
            == crate::links::links_of(body_tags(text@), (0usize, 0usize)),
{
    let n = str_byte_len(text.as_str());
    if n > usize::MAX - 8 {
        return None;
    }
    let mut parser = crate::markup::Parser::new(text);
    let tags = parser.parse();
    Some(body_spans(&tags))
}

/// The styled pieces and the links of a parsed body (see `tag_style`, and
/// `links_of` in the links module).
pub fn body_spans(tags: &Vec<Tag>) -> (r: (Vec<StyledSpan>, Vec<Anchor>))
    ensures
        r.0@.map_values(|s: StyledSpan| span_view(s)) == crate::markup::tags_view(tags@).map_values(
            |t: SpecTag| tag_style(t),
        ),
        r.1@.map_values(|a: Anchor| anchor_view(a)) == crate::links::links_of(
            crate::markup::tags_view(tags@),
            (0usize, 0usize),
        ),
{
    let ghost tv = crate::markup::tags_view(tags@);
    let mut spans: Vec<StyledSpan> = Vec::new();
    let mut i: usize = 0;
    assert(tv.take(0) =~= Seq::<SpecTag>::empty());
    while i < tags.len()
        invariant
            i <= tags.len(),
            tv == crate::markup::tags_view(tags@),
            spans@.map_values(|s: StyledSpan| span_view(s)) == tv.take(i as int).map_values(
                |t: SpecTag| tag_style(t),
            ),
        decreases tags.len() - i,
    {
        let ghost sb = spans@;
        assert(tv[i as int] == tags@[i as int]@);
        let span = match &tags[i] {
            Tag::Bold(x) => StyledSpan { text: x.clone(), changes: vec![StyleChange::Weight(700)] },
            Tag::Italic(x) => StyledSpan {
                text: x.clone(),
                changes: vec![StyleChange::Style(FontStyle::Italic)],
            },
            Tag::Underline(x) => StyledSpan { text: x.clone(), changes: Vec::new() },
            Tag::Image { alt, src: _ } => StyledSpan { text: alt.clone(), changes: Vec::new() },
            Tag::Anchor { href: _, text, position: _ } => StyledSpan {
                text: text.clone(),
                changes: vec![
                    StyleChange::Color(ParsedColor::Color(Rgba { r: 0, g: 0, b: 255, a: 255 })),
                ],
            },
            Tag::Span { text, attributes } => StyledSpan {
                text: text.clone(),
                changes: attributes_changes(attributes),
            },
            Tag::Text(x) => StyledSpan { text: x.clone(), changes: Vec::new() },
        };
        let ghost sp = span;
        proof {
            let t = tv[i as int];
            assert(span.changes@.map_values(|c: StyleChange| c@) =~= tag_style(t).1);
            assert(span_view(span) == tag_style(t));
            assert(tv.take(i + 1).map_values(|t: SpecTag| tag_style(t)) =~= tv.take(
                i as int,
            ).map_values(|t: SpecTag| tag_style(t)).push(tag_style(t)));
        }
        spans.push(span);
        proof {
            assert(spans@.map_values(|s: StyledSpan| span_view(s)) =~= sb.map_values(
                |s: StyledSpan| span_view(s),
            ).push(span_view(sp)));
        }
        i = i + 1;
    }
    assert(tv.take(tags.len() as int) =~= tv);
    (spans, crate::links::body_links(tags))
}

} // verus!
