//! Colours of the configuration: hex notation, and one colour per urgency.
use crate::notification::Urgency;
use crate::text::{
    all_ascii, byte_len, chars_of, dec, dec_chars, is_ascii_seq, lemma_ascii_byte_len,
    push_chars, push_str, split_chars, split_on, str_byte_len, string_of, trim, trim_chars,
};
use vstd::prelude::*;

verus! {

/// One RGBA colour per urgency level.
#[derive(Debug, Clone, Copy, PartialEq)]
pub struct Color {
    pub urgency_low: [u8; 4],
    pub urgency_normal: [u8; 4],
    pub urgency_critical: [u8; 4],
}

/// Colours that a style sets, per urgency level; `None` leaves a colour as it is.
#[derive(Debug, Clone, Copy, Default)]
pub struct PartialColor {
    pub urgency_low: Option<[u8; 4]>,
    pub urgency_normal: Option<[u8; 4]>,
    pub urgency_critical: Option<[u8; 4]>,
}

// ----- hex notation ---------------------------------------------------------------------
/// Value of a hexadecimal digit.
pub open spec fn hex_val(c: char) -> Option<nat> {
    if '0' <= c && c <= '9' {
        Some((c as u32 - '0' as u32) as nat)
    } else if 'a' <= c && c <= 'f' {
        Some((c as u32 - 'a' as u32 + 10) as nat)
    } else if 'A' <= c && c <= 'F' {
        Some((c as u32 - 'A' as u32 + 10) as nat)
    } else {
        None
    }
}

/// A two-character component read as a base-16 `u8`; as `u8::from_str_radix`
/// does, a leading `+` is accepted before a single digit.
pub open spec fn hex_component(a: char, b: char) -> Option<u8> {
    if a == '+' {
        match hex_val(b) {
            Some(y) => Some(y as u8),
            None => None,
        }
    } else {
        match (hex_val(a), hex_val(b)) {
            (Some(x), Some(y)) => Some((x * 16 + y) as u8),
            _ => None,
        }
    }
}

/// Each character written twice.
pub open spec fn doubled(h: Seq<char>) -> Seq<char> {
    Seq::new(2 * h.len(), |k: int| h[k / 2])
}

/// The eight digits that a 3, 4, 6 or 8 digit notation stands for.
pub open spec fn expand_hex(h: Seq<char>) -> Seq<char> {
    if h.len() == 3 {
        doubled(h) + seq!['f', 'f']
    } else if h.len() == 4 {
        doubled(h)
    } else if h.len() == 6 {
        h + seq!['f', 'f']
    } else {
        h
    }
}

/// The four components of an expanded notation, where all are valid.
pub open spec fn hex_rgba(h: Seq<char>) -> Option<Seq<u8>> {
    let e = expand_hex(h);
    match (
        hex_component(e[0], e[1]),
        hex_component(e[2], e[3]),
        hex_component(e[4], e[5]),
        hex_component(e[6], e[7]),
    ) {
        (Some(r), Some(g), Some(b), Some(a)) => Some(seq![r, g, b, a]),
        _ => None,
    }
}

pub open spec fn msg_no_hash() -> Seq<char> {
    "Hex string must start with '#'"@
}

pub open spec fn msg_bad_length(len: nat) -> Seq<char> {
    "Invalid hex length: "@ + dec(len) + " (expected 3, 4, 6, or 8 characters)"@
}

pub open spec fn msg_bad_component() -> Seq<char> {
    "Invalid hex component: invalid digit found in string"@
}

/// What `#rgb`, `#rgba`, `#rrggbb` or `#rrggbbaa` notation means: the colour, or the
/// error message. The length is counted in bytes; a digit that is not ASCII makes
/// a component invalid.
pub open spec fn parse_hex_spec(s: Seq<char>) -> Result<Seq<u8>, Seq<char>> {
    if s.len() == 0 || s[0] != '#' {
        Err(msg_no_hash())
    } else {
        let h = s.drop_first();
        let l = byte_len(h);
        if !(l == 3 || l == 4 || l == 6 || l == 8) {
            Err(msg_bad_length(l))
        } else if !is_ascii_seq(h) {
            Err(msg_bad_component())
        } else {
            match hex_rgba(h) {
                Some(v) => Ok(v),
                None => Err(msg_bad_component()),
            }
        }
    }
}

/// The value of a hexadecimal digit.
pub fn hex_digit(c: char) -> (r: Option<u8>)
    ensures
        match hex_val(c) {
            Some(v) => r == Some(v as u8) && v < 16,
            None => r is None,
        },
{
    if '0' <= c && c <= '9' {
        Some(((c as u32) - ('0' as u32)) as u8)
    } else if 'a' <= c && c <= 'f' {
        Some(((c as u32) - ('a' as u32) + 10) as u8)
    } else if 'A' <= c && c <= 'F' {
        Some(((c as u32) - ('A' as u32) + 10) as u8)
    } else {
        None
    }
}

/// A two-character component read as a base-16 `u8` (see `hex_component`).
pub fn parse_component(a: char, b: char) -> (r: Option<u8>)
    ensures
        r == hex_component(a, b),
{
    if a == '+' {
        hex_digit(b)
    } else {
        match (hex_digit(a), hex_digit(b)) {
            (Some(x), Some(y)) => Some(x * 16 + y),
            _ => None,
        }
    }
}

fn expand(h: &Vec<char>) -> (e: Vec<char>)
    requires
        h.len() == 3 || h.len() == 4 || h.len() == 6 || h.len() == 8,
    ensures
        e@ == expand_hex(h@),
        e.len() == 8,
{
    let mut e: Vec<char> = Vec::new();
    if h.len() == 3 || h.len() == 4 {
        let mut i: usize = 0;
        while i < h.len()
            invariant
                i <= h.len(),
                h.len() == 3 || h.len() == 4,
                e@ == doubled(h@.take(i as int)),
            decreases h.len() - i,
        {
            e.push(h[i]);
            e.push(h[i]);
            i = i + 1;
            assert(e@ =~= doubled(h@.take(i as int)));
        }
        assert(h@.take(h.len() as int) =~= h@);
        if h.len() == 3 {
            e.push('f');
            e.push('f');
        }
    } else {
        let mut i: usize = 0;
        while i < h.len()
            invariant
                i <= h.len(),
                e@ == h@.take(i as int),
            decreases h.len() - i,
        {
            e.push(h[i]);
            i = i + 1;
            assert(e@ =~= h@.take(i as int));
        }
        assert(h@.take(h.len() as int) =~= h@);
        if h.len() == 6 {
            e.push('f');
            e.push('f');
        }
    }
    assert(e@ =~= expand_hex(h@));
    e
}

/// Reads a colour in `#rgb`, `#rgba`, `#rrggbb` or `#rrggbbaa` notation.
pub fn parse_hex(hex: &str) -> (r: Result<[u8; 4], String>)
    ensures
        match r {
            Ok(a) => parse_hex_spec(hex@) == Ok::<Seq<u8>, Seq<char>>(a@),
            Err(e) => parse_hex_spec(hex@) == Err::<Seq<u8>, Seq<char>>(e@),
        },
{
    let cs = chars_of(hex);
    if cs.len() == 0 || cs[0] != '#' {
        return Err("Hex string must start with '#'".to_owned());
    }
    let total = str_byte_len(hex);
    let mut h: Vec<char> = Vec::new();
    let mut i: usize = 1;
    while i < cs.len()
        invariant
            1 <= i <= cs.len(),
            h@ == cs@.subrange(1, i as int),
        decreases cs.len() - i,
    {
        h.push(cs[i]);
        i = i + 1;
        assert(h@ =~= cs@.subrange(1, i as int));
    }
    assert(h@ =~= hex@.drop_first());
    proof {
        assert(hex@ =~= seq![hex@[0]] + h@);
        crate::text::lemma_byte_len_cons('#', h@);
    }
    let len = total - 1;
    if !(len == 3 || len == 4 || len == 6 || len == 8) {
        let mut e = "Invalid hex length: ".to_owned();
        let d = dec_chars(len);
        push_chars(&mut e, &d);
        push_str(&mut e, " (expected 3, 4, 6, or 8 characters)");
        return Err(e);
    }
    if !all_ascii(&h) {
        return Err("Invalid hex component: invalid digit found in string".to_owned());
    }
    proof {
        lemma_ascii_byte_len(h@);
    }
    let e = expand(&h);
    let r = parse_component(e[0], e[1]);
    let g = parse_component(e[2], e[3]);
    let b = parse_component(e[4], e[5]);
    let a = parse_component(e[6], e[7]);
    match (r, g, b, a) {
        (Some(r), Some(g), Some(b), Some(a)) => {
            let arr = [r, g, b, a];
            assert(arr@ =~= seq![r, g, b, a]);
            Ok(arr)
        },
        _ => Err("Invalid hex component: invalid digit found in string".to_owned()),
    }
}

// ----- colours per urgency ---------------------------------------------------------------
/// The comma-separated pieces of a colour list, trimmed.
pub open spec fn color_parts(s: Seq<char>) -> Seq<Seq<char>> {
    split_on(s, ',').map_values(|p: Seq<char>| trim(p))
}

pub open spec fn msg_color_count(n: nat) -> Seq<char> {
    "Invalid number of colors: expected 1 or 3, got "@ + dec(n)
}

/// What a colour list means: one colour for all urgencies, or three for low,
/// normal and critical; the first error otherwise.
pub open spec fn color_parse_spec(s: Seq<char>) -> Result<(Seq<u8>, Seq<u8>, Seq<u8>), Seq<char>> {
    let parts = color_parts(s);
    if parts.len() == 1 {
        match parse_hex_spec(parts[0]) {
            Ok(v) => Ok((v, v, v)),
            Err(e) => Err(e),
        }
    } else if parts.len() == 3 {
        match parse_hex_spec(parts[0]) {
            Err(e) => Err(e),
            Ok(low) => match parse_hex_spec(parts[1]) {
                Err(e) => Err(e),
                Ok(normal) => match parse_hex_spec(parts[2]) {
                    Err(e) => Err(e),
                    Ok(critical) => Ok((low, normal, critical)),
                },
            },
        }
    } else {
        Err(msg_color_count(parts.len()))
    }
}

/// The colour for an urgency level.
pub open spec fn color_get(c: Color, urgency: Urgency) -> [u8; 4] {
    match urgency {
        Urgency::Low => c.urgency_low,
        Urgency::Normal => c.urgency_normal,
        Urgency::Critical => c.urgency_critical,
    }
}

/// A colour with the levels that `p` sets replaced.
pub open spec fn color_applied(c: Color, p: PartialColor) -> Color {
    Color {
        urgency_low: match p.urgency_low {
            Some(v) => v,
            None => c.urgency_low,
        },
        urgency_normal: match p.urgency_normal {
            Some(v) => v,
            None => c.urgency_normal,
        },
        urgency_critical: match p.urgency_critical {
            Some(v) => v,
            None => c.urgency_critical,
        },
    }
}

fn parse_hex_chars(v: &Vec<char>) -> (r: Result<[u8; 4], String>)
    ensures
        match r {
            Ok(a) => parse_hex_spec(v@) == Ok::<Seq<u8>, Seq<char>>(a@),
            Err(e) => parse_hex_spec(v@) == Err::<Seq<u8>, Seq<char>>(e@),
        },
{
    let s = string_of(v);
    parse_hex(s.as_str())
}

impl Color {
    /// Sets the levels that `partial` gives.
    pub fn apply(&mut self, partial: &PartialColor)
        ensures
            *final(self) == color_applied(*old(self), *partial),
    {
        if let Some(urgency_low) = partial.urgency_low {
            self.urgency_low = urgency_low;
        }
        if let Some(urgency_normal) = partial.urgency_normal {
            self.urgency_normal = urgency_normal;
        }
        if let Some(urgency_critical) = partial.urgency_critical {
            self.urgency_critical = urgency_critical;
        }
    }

    /// The same colour for every urgency level.
    pub fn rgba(rgba: [u8; 4]) -> (c: Self)
        ensures
            c == (Color { urgency_low: rgba, urgency_normal: rgba, urgency_critical: rgba }),
    {
        Color { urgency_low: rgba, urgency_normal: rgba, urgency_critical: rgba }
    }

    /// The colour for an urgency level.
    pub fn get(&self, urgency: &Urgency) -> (c: [u8; 4])
        ensures
            c == color_get(*self, *urgency),
    {
        match urgency {
            Urgency::Low => self.urgency_low,
            Urgency::Normal => self.urgency_normal,
            Urgency::Critical => self.urgency_critical,
        }
    }

    /// Reads one colour, or three comma-separated colours for low, normal and
    /// critical urgency.
    pub fn parse(s: &str) -> (r: Result<Color, String>)
        ensures
            match r {
                Ok(c) => color_parse_spec(s@) == Ok::<(Seq<u8>, Seq<u8>, Seq<u8>), Seq<char>>(
                    (c.urgency_low@, c.urgency_normal@, c.urgency_critical@),
                ),
                Err(e) => color_parse_spec(s@) == Err::<(Seq<u8>, Seq<u8>, Seq<u8>), Seq<char>>(
                    e@,
                ),
            },
    {
        let cs = chars_of(s);
        let raw = split_chars(&cs, ',');
        assert(raw@.map_values(|p: Vec<char>| p@).len() == raw@.len());
        let mut parts: Vec<Vec<char>> = Vec::new();
        let mut i: usize = 0;
        while i < raw.len()
            invariant
                i <= raw.len(),
                raw.len() == color_parts(s@).len(),
                raw@.map_values(|p: Vec<char>| p@) == split_on(s@, ','),
                parts@.map_values(|p: Vec<char>| p@) == color_parts(s@).take(i as int),
            decreases raw.len() - i,
        {
            assert(raw@.map_values(|p: Vec<char>| p@)[i as int] == raw@[i as int]@);
            let t = trim_chars(&raw[i]);
            assert(t@ == color_parts(s@)[i as int]);
            let ghost before = parts@.map_values(|p: Vec<char>| p@);
            parts.push(t);
            assert(parts@.map_values(|p: Vec<char>| p@) =~= before.push(t@));
            assert(color_parts(s@).take(i + 1) =~= color_parts(s@).take(i as int).push(
                color_parts(s@)[i as int],
            ));
            i = i + 1;
        }
        let ghost ps = color_parts(s@);
        assert(parts@.map_values(|p: Vec<char>| p@) =~= ps);
        assert(parts.len() == ps.len());
        if parts.len() == 1 {
            assert(parts@[0]@ == ps[0]);
            let v = parse_hex_chars(&parts[0])?;
            Ok(Color::rgba(v))
        } else if parts.len() == 3 {
            assert(parts@[0]@ == ps[0]);
            assert(parts@[1]@ == ps[1]);
            assert(parts@[2]@ == ps[2]);
            let low = parse_hex_chars(&parts[0])?;
            let normal = parse_hex_chars(&parts[1])?;
            let critical = parse_hex_chars(&parts[2])?;
            Ok(Color { urgency_low: low, urgency_normal: normal, urgency_critical: critical })
        } else {
            let mut e = "Invalid number of colors: expected 1 or 3, got ".to_owned();
            let d = dec_chars(parts.len());
            push_chars(&mut e, &d);
            Err(e)
        }
    }
}

impl Default for Color {
    fn default() -> (c: Self)
        ensures
            c == (Color {
                urgency_low: [0u8, 0u8, 0u8, 0u8],
                urgency_normal: [0u8, 0u8, 0u8, 0u8],
                urgency_critical: [0u8, 0u8, 0u8, 0u8],
            }),
    {
        Color {
            urgency_low: [0, 0, 0, 0],
            urgency_normal: [0, 0, 0, 0],
            urgency_critical: [0, 0, 0, 0],
        }
    }
}

impl std::str::FromStr for Color {
    type Err = String;

    /// Reads a colour as `Color::parse` does.
    fn from_str(s: &str) -> (r: Result<Self, Self::Err>)
        ensures
            match r {
                Ok(c) => color_parse_spec(s@) == Ok::<(Seq<u8>, Seq<u8>, Seq<u8>), Seq<char>>(
                    (c.urgency_low@, c.urgency_normal@, c.urgency_critical@),
                ),
                Err(e) => color_parse_spec(s@) == Err::<(Seq<u8>, Seq<u8>, Seq<u8>), Seq<char>>(
                    e@,
                ),
            },
    {
        Color::parse(s)
    }
}


// ----- partial colours ------------------------------------------------------------------
/// Why a map of colours per urgency does not read: a key that names no urgency, or a
/// colour that does not read (with its message).
#[derive(Debug, Clone, PartialEq)]
pub enum MapError {
    UnknownField(String),
    Invalid(String),
}

/// The levels that a map of urgency keys and hex colours sets, read in order (a later
/// key overrides an earlier one); or the first error: `(true, key)` for an unknown key,
/// `(false, message)` for a colour that does not read.
pub open spec fn partial_map_spec(entries: Seq<(String, String)>) -> Result<
    (Option<Seq<u8>>, Option<Seq<u8>>, Option<Seq<u8>>),
    (bool, Seq<char>),
>
    decreases entries.len(),
{
    if entries.len() == 0 {
        Ok((None, None, None))
    } else {
        match partial_map_spec(entries.drop_last()) {
            Err(e) => Err(e),
            Ok((l, n, c)) => {
                let (k, v) = entries.last();
                if k@ == "urgency_low"@ || k@ == "urgency_normal"@ || k@ == "urgency_critical"@ {
                    match parse_hex_spec(v@) {
                        Err(m) => Err((false, m)),
                        Ok(x) => if k@ == "urgency_low"@ {
                            Ok((Some(x), n, c))
                        } else if k@ == "urgency_normal"@ {
                            Ok((l, Some(x), c))
                        } else {
                            Ok((l, n, Some(x)))
                        },
                    }
                } else {
                    Err((true, k@))
                }
            },
        }
    }
}

/// The views of the levels of a partial colour.
pub open spec fn partial_view(p: PartialColor) -> (Option<Seq<u8>>, Option<Seq<u8>>, Option<Seq<u8>>) {
    (
        match p.urgency_low {
            Some(a) => Some(a@),
            None => None,
        },
        match p.urgency_normal {
            Some(a) => Some(a@),
            None => None,
        },
        match p.urgency_critical {
            Some(a) => Some(a@),
            None => None,
        },
    )
}

proof fn lemma_partial_map_err(entries: Seq<(String, String)>, i: int)
    requires
        0 <= i <= entries.len(),
        partial_map_spec(entries.take(i)) is Err,
    ensures
        partial_map_spec(entries) == partial_map_spec(entries.take(i)),
    decreases entries.len() - i,
{
    if i < entries.len() {
        assert(entries.take(i + 1).drop_last() =~= entries.take(i));
        lemma_partial_map_err(entries, i + 1);
    } else {
        assert(entries.take(i) =~= entries);
    }
}

impl PartialColor {
    /// A colour written as one string (see `Color::parse`): it sets every level.
    pub fn parse(s: &str) -> (r: Result<PartialColor, String>)
        ensures
            match r {
                Ok(p) => color_parse_spec(s@) == Ok::<(Seq<u8>, Seq<u8>, Seq<u8>), Seq<char>>(
                    (p.urgency_low->0@, p.urgency_normal->0@, p.urgency_critical->0@),
                ) && p.urgency_low is Some && p.urgency_normal is Some && p.urgency_critical is Some,
                Err(e) => color_parse_spec(s@) == Err::<(Seq<u8>, Seq<u8>, Seq<u8>), Seq<char>>(
                    e@,
                ),
            },
    {
        let c = Color::parse(s)?;
        Ok(
            PartialColor {
                urgency_low: Some(c.urgency_low),
                urgency_normal: Some(c.urgency_normal),
                urgency_critical: Some(c.urgency_critical),
            },
        )
    }

    /// A colour written as a map of urgency keys and hex colours (see
    /// `partial_map_spec`).
    pub fn from_map(entries: &Vec<(String, String)>) -> (r: Result<PartialColor, MapError>)
        ensures
            match r {
                Ok(p) => partial_map_spec(entries@) == Ok::<
                    (Option<Seq<u8>>, Option<Seq<u8>>, Option<Seq<u8>>),
                    (bool, Seq<char>),
                >(partial_view(p)),
                Err(MapError::UnknownField(k)) => partial_map_spec(entries@) == Err::<
                    (Option<Seq<u8>>, Option<Seq<u8>>, Option<Seq<u8>>),
                    (bool, Seq<char>),
                >((true, k@)),
                Err(MapError::Invalid(m)) => partial_map_spec(entries@) == Err::<
                    (Option<Seq<u8>>, Option<Seq<u8>>, Option<Seq<u8>>),
                    (bool, Seq<char>),
                >((false, m@)),
            },
    {
        let mut p = PartialColor { urgency_low: None, urgency_normal: None, urgency_critical: None };
        let mut i: usize = 0;
        while i < entries.len()
            invariant
                i <= entries.len(),
                partial_map_spec(entries@.take(i as int)) == Ok::<
                    (Option<Seq<u8>>, Option<Seq<u8>>, Option<Seq<u8>>),
                    (bool, Seq<char>),
                >(partial_view(p)),
            decreases entries.len() - i,
        {
            assert(entries@.take(i + 1).drop_last() =~= entries@.take(i as int));
            let k = entries[i].0.as_str();
            let low = crate::text::str_eq(k, "urgency_low");
            let normal = crate::text::str_eq(k, "urgency_normal");
            let critical = crate::text::str_eq(k, "urgency_critical");
            if !(low || normal || critical) {
                proof {
                    lemma_partial_map_err(entries@, i + 1);
                }
                return Err(MapError::UnknownField(entries[i].0.clone()));
            }
            match parse_hex(entries[i].1.as_str()) {
                Err(m) => {
                    proof {
                        lemma_partial_map_err(entries@, i + 1);
                    }
                    return Err(MapError::Invalid(m));
                },
                Ok(x) => {
                    if low {
                        p.urgency_low = Some(x);
                    } else if normal {
                        p.urgency_normal = Some(x);
                    } else {
                        p.urgency_critical = Some(x);
                    }
                },
            }
            i = i + 1;
        }
        assert(entries@.take(entries.len() as int) =~= entries@);
        Ok(p)
    }
}

} // verus!
