//! Key bindings: keys with modifiers in vi-like notation (`<C-x>`, `<Esc>`, `gg`),
//! the default bindings, user overrides, and matching typed keys against them.
use crate::text::{chars_eq, chars_of, lowercase, push_chars, push_str, str_eq, string_of, to_lowercase};
use std::sync::atomic::{AtomicU8, Ordering};
use vstd::prelude::*;

verus! {

/// Whether keys act on notifications (`Normal`) or pick a button by its hint (`Hint`).
#[derive(PartialEq, Eq, Structural, Debug, Clone, Copy, Hash)]
pub enum Mode {
    Normal,
    Hint,
}

impl Default for Mode {
    fn default() -> (m: Self)
        ensures
            m == Mode::Normal,
    {
        Mode::Normal
    }
}

/// The mode named by `lower`, the lowercase form of the name `written`; an unknown
/// name is refused with a message that repeats it as written.
pub open spec fn mode_spec(written: Seq<char>, lower: Seq<char>) -> Result<Mode, Seq<char>> {
    if lower == "normal"@ {
        Ok(Mode::Normal)
    } else if lower == "hint"@ {
        Ok(Mode::Hint)
    } else {
        Err("Invalid mode: "@ + written)
    }
}

impl Mode {
    /// The mode named by `lower`, the lowercase form of `written` (see `mode_spec`).
    pub fn from_lowercase(written: &str, lower: &str) -> (r: Result<Mode, String>)
        ensures
            match r {
                Ok(m) => mode_spec(written@, lower@) == Ok::<Mode, Seq<char>>(m),
                Err(e) => mode_spec(written@, lower@) == Err::<Mode, Seq<char>>(e@),
            },
    {
        if str_eq(lower, "normal") {
            Ok(Mode::Normal)
        } else if str_eq(lower, "hint") {
            Ok(Mode::Hint)
        } else {
            let mut e = "Invalid mode: ".to_owned();
            push_str(&mut e, written);
            Err(e)
        }
    }

    /// The mode named by `s`, in any case (`normal`, `Hint`, ...).
    pub fn parse(s: &str) -> (r: Result<Mode, String>)
        ensures
            match r {
                Ok(m) => mode_spec(s@, lowercase(s@)) == Ok::<Mode, Seq<char>>(m),
                Err(e) => mode_spec(s@, lowercase(s@)) == Err::<Mode, Seq<char>>(e@),
            },
            crate::text::is_ascii_seq(s@) ==> lowercase(s@) == crate::text::ascii_lower(s@),
    {
        let lower = to_lowercase(s);
        Mode::from_lowercase(s, lower.as_str())
    }
}

impl std::str::FromStr for Mode {
    type Err = String;

    /// Reads a mode as `Mode::parse` does.
    fn from_str(s: &str) -> (r: Result<Mode, String>)
        ensures
            match r {
                Ok(m) => mode_spec(s@, lowercase(s@)) == Ok::<Mode, Seq<char>>(m),
                Err(e) => mode_spec(s@, lowercase(s@)) == Err::<Mode, Seq<char>>(e@),
            },
            crate::text::is_ascii_seq(s@) ==> lowercase(s@) == crate::text::ascii_lower(s@),
    {
        Mode::parse(s)
    }
}

/// Modifier keys held with a key.
#[derive(PartialEq, Eq, Structural, Debug, Clone, Copy, Hash, Default)]
pub struct Modifiers {
    pub control: bool,
    pub alt: bool,
    pub meta: bool,
}

/// Keys that have a name rather than a character.
#[derive(PartialEq, Eq, Structural, Debug, Clone, Copy, Hash)]
pub enum SpecialKeyCode {
    Enter,
    Backspace,
    Tab,
    Space,
    Escape,
    Up,
    Down,
    Left,
    Right,
    Home,
    End,
    PageUp,
    PageDown,
    Insert,
    Delete,
    F1,
    F2,
    F3,
    F4,
    F5,
    F6,
    F7,
    F8,
    F9,
    F10,
    F11,
    F12,
}

/// A key: a character or a named key.
#[derive(PartialEq, Eq, Structural, Debug, Clone, Copy, Hash)]
pub enum Key {
    Character(char),
    SpecialKey(SpecialKeyCode),
}

impl Default for Key {
    fn default() -> (k: Self)
        ensures
            k == Key::Character('\0'),
    {
        Key::Character('\0')
    }
}

/// A key with the modifiers held.
#[derive(PartialEq, Eq, Structural, Debug, Clone, Copy, Hash)]
pub struct KeyWithModifiers {
    pub key: Key,
    pub modifiers: Modifiers,
}

impl Default for KeyWithModifiers {
    fn default() -> (k: Self)
        ensures
            k == (KeyWithModifiers {
                key: Key::Character('\0'),
                modifiers: Modifiers { control: false, alt: false, meta: false },
            }),
    {
        KeyWithModifiers {
            key: Key::Character('\0'),
            modifiers: Modifiers { control: false, alt: false, meta: false },
        }
    }
}

/// A sequence of keys.
#[derive(PartialEq, Debug)]
pub struct Keys(pub Vec<KeyWithModifiers>);

impl View for Keys {
    type V = Seq<KeyWithModifiers>;

    open spec fn view(&self) -> Seq<KeyWithModifiers> {
        self.0@
    }
}

/// What a key binding does.
#[derive(PartialEq, Eq, Structural, Debug, Clone, Copy)]
pub enum KeyAction {
    NextNotification,
    PreviousNotification,
    DismissNotification,
    FirstNotification,
    LastNotification,
    Unfocus,
    Noop,
    HintMode,
    NormalMode,
    Mute,
    Unmute,
    ToggleMute,
    Ihibit,
    Uninhibit,
    ToggleInhibit,
    ShowHistory,
    HideHistory,
    ToggleHistory,
}

/// A binding: in `mode`, typing `keys` does `action`.
#[derive(PartialEq, Debug)]
pub struct KeyCombination {
    pub mode: Mode,
    pub keys: Keys,
    pub action: KeyAction,
}

/// Mathematical form of a [`KeyCombination`].
pub struct SpecBinding {
    pub mode: Mode,
    pub keys: Seq<KeyWithModifiers>,
    pub action: KeyAction,
}

impl View for KeyCombination {
    type V = SpecBinding;

    open spec fn view(&self) -> SpecBinding {
        SpecBinding { mode: self.mode, keys: self.keys@, action: self.action }
    }
}

/// The key bindings in force, in order of precedence.
#[derive(Debug)]
pub struct Keymaps(pub Vec<KeyCombination>);

impl View for Keymaps {
    type V = Seq<SpecBinding>;

    open spec fn view(&self) -> Seq<SpecBinding> {
        self.0@.map_values(|k: KeyCombination| k@)
    }
}

// ----- names -------------------------------------------------------------------------------
/// The name of a special key, as written between `<` and `>`.
pub open spec fn special_name(k: SpecialKeyCode) -> Seq<char> {
    match k {
        SpecialKeyCode::Enter => seq!['C', 'R'],
        SpecialKeyCode::Backspace => seq!['B', 'S'],
        SpecialKeyCode::Tab => seq!['T', 'a', 'b'],
        SpecialKeyCode::Space => seq!['S', 'p', 'a', 'c', 'e'],
        SpecialKeyCode::Escape => seq!['E', 's', 'c'],
        SpecialKeyCode::Up => seq!['U', 'p'],
        SpecialKeyCode::Down => seq!['D', 'o', 'w', 'n'],
        SpecialKeyCode::Left => seq!['L', 'e', 'f', 't'],
        SpecialKeyCode::Right => seq!['R', 'i', 'g', 'h', 't'],
        SpecialKeyCode::Home => seq!['H', 'o', 'm', 'e'],
        SpecialKeyCode::End => seq!['E', 'n', 'd'],
        SpecialKeyCode::PageUp => seq!['P', 'a', 'g', 'e', 'U', 'p'],
        SpecialKeyCode::PageDown => seq!['P', 'a', 'g', 'e', 'D', 'o', 'w', 'n'],
        SpecialKeyCode::Insert => seq!['I', 'n', 's', 'e', 'r', 't'],
        SpecialKeyCode::Delete => seq!['D', 'e', 'l', 'e', 't', 'e'],
        SpecialKeyCode::F1 => seq!['F', '1'],
        SpecialKeyCode::F2 => seq!['F', '2'],
        SpecialKeyCode::F3 => seq!['F', '3'],
        SpecialKeyCode::F4 => seq!['F', '4'],
        SpecialKeyCode::F5 => seq!['F', '5'],
        SpecialKeyCode::F6 => seq!['F', '6'],
        SpecialKeyCode::F7 => seq!['F', '7'],
        SpecialKeyCode::F8 => seq!['F', '8'],
        SpecialKeyCode::F9 => seq!['F', '9'],
        SpecialKeyCode::F10 => seq!['F', '1', '0'],
        SpecialKeyCode::F11 => seq!['F', '1', '1'],
        SpecialKeyCode::F12 => seq!['F', '1', '2'],
    }
}

/// All special keys, in declaration order.
pub open spec fn all_special() -> Seq<SpecialKeyCode> {
    seq![
        SpecialKeyCode::Enter,
        SpecialKeyCode::Backspace,
        SpecialKeyCode::Tab,
        SpecialKeyCode::Space,
        SpecialKeyCode::Escape,
        SpecialKeyCode::Up,
        SpecialKeyCode::Down,
        SpecialKeyCode::Left,
        SpecialKeyCode::Right,
        SpecialKeyCode::Home,
        SpecialKeyCode::End,
        SpecialKeyCode::PageUp,
        SpecialKeyCode::PageDown,
        SpecialKeyCode::Insert,
        SpecialKeyCode::Delete,
        SpecialKeyCode::F1,
        SpecialKeyCode::F2,
        SpecialKeyCode::F3,
        SpecialKeyCode::F4,
        SpecialKeyCode::F5,
        SpecialKeyCode::F6,
        SpecialKeyCode::F7,
        SpecialKeyCode::F8,
        SpecialKeyCode::F9,
        SpecialKeyCode::F10,
        SpecialKeyCode::F11,
        SpecialKeyCode::F12,
    ]
}

/// The special key with the given name, searching from index `j` of [`all_special`].
pub open spec fn special_from_name_from(n: Seq<char>, j: int) -> Option<SpecialKeyCode>
    decreases 27 - j,
{
    if j < 0 || j >= 27 {
        None
    } else if special_name(all_special()[j]) == n {
        Some(all_special()[j])
    } else {
        special_from_name_from(n, j + 1)
    }
}

/// The special key with the given name.
pub open spec fn special_from_name(n: Seq<char>) -> Option<SpecialKeyCode> {
    special_from_name_from(n, 0)
}

fn special_at(j: usize) -> (k: SpecialKeyCode)
    requires
        j < 27,
    ensures
        k == all_special()[j as int],
{
    match j {
        0 => SpecialKeyCode::Enter,
        1 => SpecialKeyCode::Backspace,
        2 => SpecialKeyCode::Tab,
        3 => SpecialKeyCode::Space,
        4 => SpecialKeyCode::Escape,
        5 => SpecialKeyCode::Up,
        6 => SpecialKeyCode::Down,
        7 => SpecialKeyCode::Left,
        8 => SpecialKeyCode::Right,
        9 => SpecialKeyCode::Home,
        10 => SpecialKeyCode::End,
        11 => SpecialKeyCode::PageUp,
        12 => SpecialKeyCode::PageDown,
        13 => SpecialKeyCode::Insert,
        14 => SpecialKeyCode::Delete,
        15 => SpecialKeyCode::F1,
        16 => SpecialKeyCode::F2,
        17 => SpecialKeyCode::F3,
        18 => SpecialKeyCode::F4,
        19 => SpecialKeyCode::F5,
        20 => SpecialKeyCode::F6,
        21 => SpecialKeyCode::F7,
        22 => SpecialKeyCode::F8,
        23 => SpecialKeyCode::F9,
        24 => SpecialKeyCode::F10,
        25 => SpecialKeyCode::F11,
        _ => SpecialKeyCode::F12,
    }
}

fn name_of(k: SpecialKeyCode) -> (v: Vec<char>)
    ensures
        v@ == special_name(k),
{
    let v = match k {
        SpecialKeyCode::Enter => vec!['C', 'R'],
        SpecialKeyCode::Backspace => vec!['B', 'S'],
        SpecialKeyCode::Tab => vec!['T', 'a', 'b'],
        SpecialKeyCode::Space => vec!['S', 'p', 'a', 'c', 'e'],
        SpecialKeyCode::Escape => vec!['E', 's', 'c'],
        SpecialKeyCode::Up => vec!['U', 'p'],
        SpecialKeyCode::Down => vec!['D', 'o', 'w', 'n'],
        SpecialKeyCode::Left => vec!['L', 'e', 'f', 't'],
        SpecialKeyCode::Right => vec!['R', 'i', 'g', 'h', 't'],
        SpecialKeyCode::Home => vec!['H', 'o', 'm', 'e'],
        SpecialKeyCode::End => vec!['E', 'n', 'd'],
        SpecialKeyCode::PageUp => vec!['P', 'a', 'g', 'e', 'U', 'p'],
        SpecialKeyCode::PageDown => vec!['P', 'a', 'g', 'e', 'D', 'o', 'w', 'n'],
        SpecialKeyCode::Insert => vec!['I', 'n', 's', 'e', 'r', 't'],
        SpecialKeyCode::Delete => vec!['D', 'e', 'l', 'e', 't', 'e'],
        SpecialKeyCode::F1 => vec!['F', '1'],
        SpecialKeyCode::F2 => vec!['F', '2'],
        SpecialKeyCode::F3 => vec!['F', '3'],
        SpecialKeyCode::F4 => vec!['F', '4'],
        SpecialKeyCode::F5 => vec!['F', '5'],
        SpecialKeyCode::F6 => vec!['F', '6'],
        SpecialKeyCode::F7 => vec!['F', '7'],
        SpecialKeyCode::F8 => vec!['F', '8'],
        SpecialKeyCode::F9 => vec!['F', '9'],
        SpecialKeyCode::F10 => vec!['F', '1', '0'],
        SpecialKeyCode::F11 => vec!['F', '1', '1'],
        SpecialKeyCode::F12 => vec!['F', '1', '2'],
    };
    assert(v@ =~= special_name(k));
    v
}

fn special_from(n: &Vec<char>) -> (r: Option<SpecialKeyCode>)
    ensures
        r == special_from_name(n@),
{
    let mut j: usize = 0;
    while j < 27
        invariant
            j <= 27,
            special_from_name(n@) == special_from_name_from(n@, j as int),
        decreases 27 - j,
    {
        let k = special_at(j);
        let name = name_of(k);
        if chars_eq(&name, n) {
            return Some(k);
        }
        j = j + 1;
    }
    None
}

// ----- reading one key ---------------------------------------------------------------------
pub open spec fn prefix_control() -> Seq<char> {
    seq!['<', 'C', '-']
}

pub open spec fn prefix_alt() -> Seq<char> {
    seq!['<', 'M', '-']
}

pub open spec fn prefix_meta() -> Seq<char> {
    seq!['<', 'D', '-']
}

/// Whether `r` starts with `p`.
pub open spec fn has_prefix(r: Seq<char>, p: Seq<char>) -> bool {
    p.len() <= r.len() && r.take(p.len() as int) == p
}

/// Removes `p` as often as it leads, each time with one trailing `>` if there is one.
pub open spec fn strip_mods(r: Seq<char>, p: Seq<char>) -> Seq<char>
    decreases r.len(),
{
    if p.len() > 0 && has_prefix(r, p) {
        let rest = r.skip(p.len() as int);
        strip_mods(
            if rest.len() > 0 && rest.last() == '>' {
                rest.drop_last()
            } else {
                rest
            },
            p,
        )
    } else {
        r
    }
}

pub open spec fn msg_unknown_special(name: Seq<char>) -> Seq<char> {
    "Unknown special key: "@ + name
}

pub open spec fn msg_invalid_key(rest: Seq<char>) -> Seq<char> {
    "Invalid key format: "@ + rest
}

/// What one key in vi-like notation means: `<C-`, `<M-` and `<D-` prefixes (in this
/// order) for control, alt and meta, then `<Name>` for a special key or one ASCII
/// character.
pub open spec fn key_parse_spec(s: Seq<char>) -> Result<KeyWithModifiers, Seq<char>> {
    let r1 = strip_mods(s, prefix_control());
    let r2 = strip_mods(r1, prefix_alt());
    let r3 = strip_mods(r2, prefix_meta());
    let modifiers = Modifiers {
        control: has_prefix(s, prefix_control()),
        alt: has_prefix(r1, prefix_alt()),
        meta: has_prefix(r2, prefix_meta()),
    };
    if r3.len() > 0 && r3[0] == '<' && r3.last() == '>' {
        let name = r3.subrange(1, r3.len() - 1);
        match special_from_name(name) {
            Some(k) => Ok(KeyWithModifiers { key: Key::SpecialKey(k), modifiers }),
            None => Err(msg_unknown_special(name)),
        }
    } else if r3.len() == 1 && (r3[0] as u32) < 0x80 {
        Ok(KeyWithModifiers { key: Key::Character(r3[0]), modifiers })
    } else {
        Err(msg_invalid_key(r3))
    }
}

fn slice_of(v: &Vec<char>, a: usize, b: usize) -> (r: Vec<char>)
    requires
        a <= b <= v.len(),
    ensures
        r@ == v@.subrange(a as int, b as int),
{
    let mut r: Vec<char> = Vec::new();
    let mut k = a;
    while k < b
        invariant
            a <= k <= b <= v.len(),
            r@ == v@.subrange(a as int, k as int),
        decreases b - k,
    {
        r.push(v[k]);
        k = k + 1;
        assert(r@ =~= v@.subrange(a as int, k as int));
    }
    r
}

fn has_prefix_exec(r: &Vec<char>, p: &Vec<char>) -> (b: bool)
    ensures
        b == has_prefix(r@, p@),
{
    if p.len() > r.len() {
        return false;
    }
    let head = slice_of(r, 0, p.len());
    assert(head@ =~= r@.take(p.len() as int));
    chars_eq(&head, p)
}

fn strip_mods_exec(r: Vec<char>, p: &Vec<char>) -> (out: Vec<char>)
    requires
        p.len() > 0,
    ensures
        out@ == strip_mods(r@, p@),
{
    let mut cur = r;
    while has_prefix_exec(&cur, p)
        invariant
            p.len() > 0,
            strip_mods(cur@, p@) == strip_mods(r@, p@),
        decreases cur.len(),
    {
        let mut rest = slice_of(&cur, p.len(), cur.len());
        assert(rest@ =~= cur@.skip(p.len() as int));
        if rest.len() > 0 && rest[rest.len() - 1] == '>' {
            rest.pop();
        }
        cur = rest;
    }
    cur
}

fn key_parse_chars(s: &Vec<char>) -> (r: Result<KeyWithModifiers, String>)
    ensures
        match r {
            Ok(k) => key_parse_spec(s@) == Ok::<KeyWithModifiers, Seq<char>>(k),
            Err(e) => key_parse_spec(s@) == Err::<KeyWithModifiers, Seq<char>>(e@),
        },
{
    let pc = vec!['<', 'C', '-'];
    let pa = vec!['<', 'M', '-'];
    let pm = vec!['<', 'D', '-'];
    assert(pc@ =~= prefix_control() && pa@ =~= prefix_alt() && pm@ =~= prefix_meta());
    let control = has_prefix_exec(s, &pc);
    let r1 = strip_mods_exec(s.clone(), &pc);
    let alt = has_prefix_exec(&r1, &pa);
    let r2 = strip_mods_exec(r1, &pa);
    let meta = has_prefix_exec(&r2, &pm);
    let r3 = strip_mods_exec(r2, &pm);
    let modifiers = Modifiers { control, alt, meta };
    if r3.len() > 0 && r3[0] == '<' && r3[r3.len() - 1] == '>' {
        let name = slice_of(&r3, 1, r3.len() - 1);
        match special_from(&name) {
            Some(k) => Ok(KeyWithModifiers { key: Key::SpecialKey(k), modifiers }),
            None => {
                let mut e = "Unknown special key: ".to_owned();
                push_chars(&mut e, &name);
                Err(e)
            },
        }
    } else if r3.len() == 1 && (r3[0] as u32) < 0x80 {
        Ok(KeyWithModifiers { key: Key::Character(r3[0]), modifiers })
    } else {
        let mut e = "Invalid key format: ".to_owned();
        push_chars(&mut e, &r3);
        Err(e)
    }
}

// ----- writing keys ------------------------------------------------------------------------
/// A key in the notation that bindings are displayed in: `C-`, `M-`, `S-` for the
/// modifiers, `<Space>` for a space, `<Name>` for a special key.
pub open spec fn key_text(k: KeyWithModifiers) -> Seq<char> {
    (if k.modifiers.control {
        seq!['C', '-']
    } else {
        Seq::empty()
    }) + (if k.modifiers.alt {
        seq!['M', '-']
    } else {
        Seq::empty()
    }) + (if k.modifiers.meta {
        seq!['S', '-']
    } else {
        Seq::empty()
    }) + match k.key {
        Key::Character(c) => if c == ' ' {
            seq!['<', 'S', 'p', 'a', 'c', 'e', '>']
        } else {
            seq![c]
        },
        Key::SpecialKey(sk) => seq!['<'] + special_name(sk) + seq!['>'],
    }
}

/// Keys written one after the other.
pub open spec fn keys_text(ks: Seq<KeyWithModifiers>) -> Seq<char>
    decreases ks.len(),
{
    if ks.len() == 0 {
        Seq::empty()
    } else {
        keys_text(ks.drop_last()) + key_text(ks.last())
    }
}

fn key_chars(k: &KeyWithModifiers) -> (v: Vec<char>)
    ensures
        v@ == key_text(*k),
{
    let mut v: Vec<char> = Vec::new();
    let ghost g0 = v@;
    if k.modifiers.control {
        v.push('C');
        v.push('-');
    }
    let ghost g1 = v@;
    if k.modifiers.alt {
        v.push('M');
        v.push('-');
    }
    let ghost g2 = v@;
    if k.modifiers.meta {
        v.push('S');
        v.push('-');
    }
    let ghost g3 = v@;
    match k.key {
        Key::Character(c) => {
            if c == ' ' {
                v.push('<');
                v.push('S');
                v.push('p');
                v.push('a');
                v.push('c');
                v.push('e');
                v.push('>');
            } else {
                v.push(c);
            }
        },
        Key::SpecialKey(sk) => {
            v.push('<');
            let name = name_of(sk);
            let mut i: usize = 0;
            let ghost g4 = v@;
            while i < name.len()
                invariant
                    i <= name.len(),
                    v@ == g4 + name@.take(i as int),
                decreases name.len() - i,
            {
                v.push(name[i]);
                assert(name@.take(i + 1) =~= name@.take(i as int).push(name@[i as int]));
                i = i + 1;
            }
            assert(name@.take(name.len() as int) =~= name@);
            v.push('>');
        },
    }
    assert(v@ =~= key_text(*k));
    v
}

impl KeyWithModifiers {
    /// Reads one key in vi-like notation (`x`, `<Esc>`, `<C-x>`, `<C-<M-x>>`).
    pub fn parse(s: &str) -> (r: Result<KeyWithModifiers, String>)
        ensures
            match r {
                Ok(k) => key_parse_spec(s@) == Ok::<KeyWithModifiers, Seq<char>>(k),
                Err(e) => key_parse_spec(s@) == Err::<KeyWithModifiers, Seq<char>>(e@),
            },
    {
        let cs = chars_of(s);
        key_parse_chars(&cs)
    }

    /// The key as bindings are displayed.
    pub fn to_string(&self) -> (s: String)
        ensures
            s@ == key_text(*self),
    {
        let v = key_chars(self);
        string_of(&v)
    }
}

impl std::str::FromStr for KeyWithModifiers {
    type Err = String;

    /// Reads one key as `KeyWithModifiers::parse` does.
    fn from_str(s: &str) -> (r: Result<Self, Self::Err>)
        ensures
            match r {
                Ok(k) => key_parse_spec(s@) == Ok::<KeyWithModifiers, Seq<char>>(k),
                Err(e) => key_parse_spec(s@) == Err::<KeyWithModifiers, Seq<char>>(e@),
            },
    {
        KeyWithModifiers::parse(s)
    }
}

fn keys_chars(ks: &Vec<KeyWithModifiers>) -> (v: Vec<char>)
    ensures
        v@ == keys_text(ks@),
{
    let mut v: Vec<char> = Vec::new();
    let mut i: usize = 0;
    assert(ks@.take(0) =~= Seq::<KeyWithModifiers>::empty());
    while i < ks.len()
        invariant
            i <= ks.len(),
            v@ == keys_text(ks@.take(i as int)),
        decreases ks.len() - i,
    {
        let t = key_chars(&ks[i]);
        let mut j: usize = 0;
        let ghost v0 = v@;
        while j < t.len()
            invariant
                j <= t.len(),
                v@ == v0 + t@.take(j as int),
            decreases t.len() - j,
        {
            v.push(t[j]);
            assert(t@.take(j + 1) =~= t@.take(j as int).push(t@[j as int]));
            j = j + 1;
        }
        assert(t@.take(t.len() as int) =~= t@);
        assert(ks@.take(i + 1).drop_last() =~= ks@.take(i as int));
        i = i + 1;
    }
    assert(ks@.take(ks.len() as int) =~= ks@);
    v
}

// ----- reading key sequences ---------------------------------------------------------------
/// The longest prefix of `r`, of at most `l` characters, that reads as one key (0 if none).
pub open spec fn longest_key(r: Seq<char>, l: int) -> int
    decreases l,
{
    if l <= 0 {
        0
    } else if key_parse_spec(r.take(l)) is Ok {
        l
    } else {
        longest_key(r, l - 1)
    }
}

pub proof fn lemma_longest_key(r: Seq<char>, l: int)
    requires
        0 <= l <= r.len(),
    ensures
        0 <= longest_key(r, l) <= l,
        longest_key(r, l) > 0 ==> key_parse_spec(r.take(longest_key(r, l))) is Ok,
    decreases l,
{
    if l > 0 && !(key_parse_spec(r.take(l)) is Ok) {
        lemma_longest_key(r, l - 1);
    }
}

pub open spec fn msg_bad_sequence(s: Seq<char>, rest: Seq<char>) -> Seq<char> {
    "Failed to parse key sequence '"@ + s + "' at '"@ + rest + "'"@
}

/// What the rest `r` of a key sequence `s` means: repeatedly the longest prefix that
/// reads as one key.
pub open spec fn keys_parse_from(s: Seq<char>, r: Seq<char>) -> Result<Seq<KeyWithModifiers>, Seq<char>>
    decreases r.len(),
{
    if r.len() == 0 {
        Ok(Seq::empty())
    } else {
        let l = longest_key(r, r.len() as int);
        if l <= 0 || l > r.len() {
            Err(msg_bad_sequence(s, r))
        } else {
            match key_parse_spec(r.take(l)) {
                Ok(k) => match keys_parse_from(s, r.skip(l)) {
                    Ok(rest) => Ok(seq![k] + rest),
                    Err(e) => Err(e),
                },
                Err(e) => Err(e),
            }
        }
    }
}

/// `prefix` put before the keys of a successful result.
pub open spec fn prepend_keys(
    prefix: Seq<KeyWithModifiers>,
    r: Result<Seq<KeyWithModifiers>, Seq<char>>,
) -> Result<Seq<KeyWithModifiers>, Seq<char>> {
    match r {
        Ok(rest) => Ok(prefix + rest),
        Err(e) => Err(e),
    }
}

/// What a key sequence written as one string means.
pub open spec fn keys_parse_spec(s: Seq<char>) -> Result<Seq<KeyWithModifiers>, Seq<char>> {
    keys_parse_from(s, s)
}

/// All characters are ASCII.
pub open spec fn ascii_text(s: Seq<char>) -> bool {
    forall|k: int| 0 <= k < s.len() ==> (s[k] as u32) < 0x80
}

fn longest_prefix_key(r: &Vec<char>) -> (res: Option<(usize, KeyWithModifiers)>)
    ensures
        match res {
            Some((l, k)) => l as int == longest_key(r@, r@.len() as int) && 0 < l <= r@.len()
                && key_parse_spec(r@.take(l as int)) == Ok::<KeyWithModifiers, Seq<char>>(k),
            None => longest_key(r@, r@.len() as int) == 0,
        },
{
    let mut len = r.len();
    while len > 0
        invariant
            len <= r.len(),
            longest_key(r@, r@.len() as int) == longest_key(r@, len as int),
        decreases len,
    {
        let cand = slice_of(r, 0, len);
        assert(cand@ =~= r@.take(len as int));
        match key_parse_chars(&cand) {
            Ok(k) => {
                return Some((len, k));
            },
            Err(_) => {},
        }
        len = len - 1;
    }
    None
}

impl Keys {
    /// Reads a key sequence such as `gg` or `<C-x>d`, taking at each point the longest
    /// prefix that reads as one key. Bytes and characters coincide here: a character
    /// outside ASCII would be cut through.
    pub fn parse(s: &str) -> (r: Result<Keys, String>)
        requires
            ascii_text(s@),
        ensures
            match r {
                Ok(k) => keys_parse_spec(s@) == Ok::<Seq<KeyWithModifiers>, Seq<char>>(k@),
                Err(e) => keys_parse_spec(s@) == Err::<Seq<KeyWithModifiers>, Seq<char>>(e@),
            },
    {
        let cs = chars_of(s);
        let mut keys: Vec<KeyWithModifiers> = Vec::new();
        let mut p: usize = 0;
        assert(cs@.skip(0) =~= cs@);
        proof {
            match keys_parse_from(s@, s@) {
                Ok(rest) => {
                    assert(keys@ + rest =~= rest);
                },
                Err(e) => {},
            }
        }
        while p < cs.len()
            invariant
                p <= cs.len(),
                cs@ == s@,
                keys_parse_spec(s@) == prepend_keys(keys@, keys_parse_from(s@, cs@.skip(p as int))),
            decreases cs.len() - p,
        {
            let rem = slice_of(&cs, p, cs.len());
            assert(rem@ =~= cs@.skip(p as int));
            let ghost r = rem@;
            let found = longest_prefix_key(&rem);
            match found {
                Some((len, k)) => {
                    assert(r.skip(len as int) =~= cs@.skip(p + len));
                    let ghost keys0 = keys@;
                    keys.push(k);
                    p = p + len;
                    assert(keys@ =~= keys0.push(k));
                    proof {
                        match keys_parse_from(s@, cs@.skip(p as int)) {
                            Ok(rest) => {
                                assert(keys@ + rest =~= keys0 + (seq![k] + rest));
                            },
                            Err(e) => {},
                        }
                    }
                },
                None => {
                    assert(longest_key(r, r.len() as int) == 0);
                    let mut e = "Failed to parse key sequence '".to_owned();
                    push_chars(&mut e, &cs);
                    push_str(&mut e, "' at '");
                    push_chars(&mut e, &rem);
                    push_str(&mut e, "'");
                    return Err(e);
                },
            }
        }
        assert(cs@.skip(p as int) =~= Seq::<char>::empty());
        assert(keys@ + Seq::<KeyWithModifiers>::empty() =~= keys@);
        Ok(Keys(keys))
    }

    /// Reads a key sequence given as a list, one key per item.
    pub fn from_list(items: &Vec<String>) -> (r: Result<Keys, String>)
        ensures
            match r {
                Ok(k) => k@.len() == items.len() && forall|i: int|
                    0 <= i < items.len() ==> key_parse_spec(#[trigger] items@[i]@) == Ok::<
                        KeyWithModifiers,
                        Seq<char>,
                    >(k@[i]),
                Err(e) => exists|i: int|
                    0 <= i < items.len() && key_parse_spec(#[trigger] items@[i]@) == Err::<
                        KeyWithModifiers,
                        Seq<char>,
                    >(e@) && forall|j: int|
                        0 <= j < i ==> key_parse_spec(#[trigger] items@[j]@) is Ok,
            },
    {
        let mut keys: Vec<KeyWithModifiers> = Vec::new();
        let mut i: usize = 0;
        while i < items.len()
            invariant
                i <= items.len(),
                keys@.len() == i,
                forall|j: int|
                    0 <= j < i ==> key_parse_spec(#[trigger] items@[j]@) == Ok::<
                        KeyWithModifiers,
                        Seq<char>,
                    >(keys@[j]),
            decreases items.len() - i,
        {
            match KeyWithModifiers::parse(items[i].as_str()) {
                Ok(k) => keys.push(k),
                Err(e) => {
                    return Err(e);
                },
            }
            i = i + 1;
        }
        Ok(Keys(keys))
    }

    /// The keys as bindings are displayed.
    pub fn to_string(&self) -> (s: String)
        ensures
            s@ == keys_text(self@),
    {
        let v = keys_chars(&self.0);
        string_of(&v)
    }

    /// Number of keys.
    pub fn len(&self) -> (n: usize)
        ensures
            n == self@.len(),
    {
        self.0.len()
    }
}

impl KeyCombination {
    /// Forgets the keys, keeping mode and action.
    pub fn clear(&mut self)
        ensures
            final(self)@ == (SpecBinding { keys: Seq::empty(), ..old(self)@ }),
    {
        self.keys.0.clear();
        assert(self@.keys =~= Seq::<KeyWithModifiers>::empty());
    }

    /// The keys as bindings are displayed.
    pub fn to_string(&self) -> (s: String)
        ensures
            s@ == keys_text(self.keys@),
    {
        self.keys.to_string()
    }
}

// ----- bindings ----------------------------------------------------------------------------
/// Whether `a` is a prefix of `b`.
pub open spec fn is_prefix(a: Seq<KeyWithModifiers>, b: Seq<KeyWithModifiers>) -> bool {
    a.len() <= b.len() && b.take(a.len() as int) == a
}

/// Whether some binding for `mode` begins with `typed` and goes on after it: more keys
/// may complete it.
pub open spec fn awaits_more(m: Seq<SpecBinding>, mode: Mode, typed: Seq<KeyWithModifiers>) -> bool {
    exists|i: int|
        0 <= i < m.len() && #[trigger] m[i].mode == mode && is_prefix(typed, m[i].keys)
            && typed.len() < m[i].keys.len()
}

/// The entries of a key table as (keys as written, mode, action).
pub open spec fn table_view(entries: Seq<(String, Mode, KeyAction)>) -> Seq<(Seq<char>, Mode, KeyAction)> {
    entries.map_values(|e: (String, Mode, KeyAction)| (e.0@, e.1, e.2))
}

/// The bindings of a key table, in order, or the error of the first key sequence that
/// does not read.
pub open spec fn table_bindings(t: Seq<(Seq<char>, Mode, KeyAction)>) -> Result<Seq<SpecBinding>, Seq<char>>
    decreases t.len(),
{
    if t.len() == 0 {
        Ok(Seq::empty())
    } else {
        match table_bindings(t.drop_last()) {
            Err(e) => Err(e),
            Ok(bs) => match keys_parse_spec(t.last().0) {
                Ok(ks) => Ok(bs.push(SpecBinding { mode: t.last().1, keys: ks, action: t.last().2 })),
                Err(e) => Err(e),
            },
        }
    }
}

/// Once a prefix of a table fails to read, the whole table fails with the same error.
pub proof fn lemma_table_error_stays(t: Seq<(Seq<char>, Mode, KeyAction)>, i: int)
    requires
        0 <= i <= t.len(),
        table_bindings(t.take(i)) is Err,
    ensures
        table_bindings(t) == table_bindings(t.take(i)),
    decreases t.len() - i,
{
    if i < t.len() {
        assert(t.take(i + 1).drop_last() =~= t.take(i));
        lemma_table_error_stays(t, i + 1);
    } else {
        assert(t.take(i) =~= t);
    }
}

/// Whether some binding's keys begin with `typed`.
pub open spec fn matches_spec(m: Seq<SpecBinding>, typed: Seq<KeyWithModifiers>) -> bool {
    exists|i: int| 0 <= i < m.len() && is_prefix(typed, #[trigger] m[i].keys)
}

/// Index of the first binding from `j` on for `mode` and exactly `keys`, or -1.
pub open spec fn find_from(m: Seq<SpecBinding>, mode: Mode, keys: Seq<KeyWithModifiers>, j: int) -> int
    decreases m.len() - j,
{
    if j < 0 || j >= m.len() {
        -1
    } else if m[j].mode == mode && m[j].keys == keys {
        j
    } else {
        find_from(m, mode, keys, j + 1)
    }
}

pub proof fn lemma_find_from_range(
    m: Seq<SpecBinding>,
    mode: Mode,
    keys: Seq<KeyWithModifiers>,
    j: int,
)
    requires
        0 <= j,
    ensures
        find_from(m, mode, keys, j) == -1 || (j <= find_from(m, mode, keys, j) < m.len()
            && m[find_from(m, mode, keys, j)].mode == mode && m[find_from(m, mode, keys, j)].keys
            == keys),
    decreases m.len() - j,
{
    if j < m.len() && !(m[j].mode == mode && m[j].keys == keys) {
        lemma_find_from_range(m, mode, keys, j + 1);
    }
}

/// Where no binding from `j` up to `f` matches and `f` does (or is the end), the search
/// from `j` finds `f` (or nothing).
pub proof fn lemma_find_from_at(m: Seq<SpecBinding>, mode: Mode, keys: Seq<KeyWithModifiers>, j: int, f: int)
    requires
        0 <= j <= f <= m.len(),
        forall|i: int| j <= i < f ==> !(#[trigger] m[i].mode == mode && m[i].keys == keys),
        f < m.len() ==> m[f].mode == mode && m[f].keys == keys,
    ensures
        find_from(m, mode, keys, j) == (if f < m.len() {
            f
        } else {
            -1
        }),
    decreases f - j,
{
    if j < f {
        lemma_find_from_at(m, mode, keys, j + 1, f);
    }
}

/// Index of the first binding for `mode` and exactly `keys`, or -1.
pub open spec fn find_binding(m: Seq<SpecBinding>, mode: Mode, keys: Seq<KeyWithModifiers>) -> int {
    find_from(m, mode, keys, 0)
}

/// The bindings with `b` added: it takes the place of a binding for the same mode and
/// keys, or goes last.
pub open spec fn merge_one(m: Seq<SpecBinding>, b: SpecBinding) -> Seq<SpecBinding> {
    let f = find_binding(m, b.mode, b.keys);
    if f >= 0 {
        m.update(f, b)
    } else {
        m.push(b)
    }
}

/// The bindings with each of `users` added in order.
pub open spec fn merge_all(m: Seq<SpecBinding>, users: Seq<SpecBinding>) -> Seq<SpecBinding>
    decreases users.len(),
{
    if users.len() == 0 {
        m
    } else {
        merge_all(merge_one(m, users[0]), users.drop_first())
    }
}

/// The action bound to `keys` in `mode`: that of the first such binding, if any.
pub open spec fn bound_to(m: Seq<SpecBinding>, mode: Mode, keys: Seq<KeyWithModifiers>) -> Option<KeyAction> {
    let f = find_binding(m, mode, keys);
    if 0 <= f < m.len() {
        Some(m[f].action)
    } else {
        None
    }
}

/// Whether binding `b` is for `mode` and `keys`.
pub open spec fn binds(b: SpecBinding, mode: Mode, keys: Seq<KeyWithModifiers>) -> bool {
    b.mode == mode && b.keys == keys
}

/// The search from `j` finds nothing before the index it returns.
proof fn lemma_find_from_first(m: Seq<SpecBinding>, mode: Mode, keys: Seq<KeyWithModifiers>, j: int)
    requires
        0 <= j,
    ensures
        forall|i: int|
            j <= i < m.len() && (find_from(m, mode, keys, j) == -1 || i < find_from(m, mode, keys, j))
                ==> !binds(#[trigger] m[i], mode, keys),
    decreases m.len() - j,
{
    if j < m.len() && !binds(m[j], mode, keys) {
        lemma_find_from_first(m, mode, keys, j + 1);
    }
}

/// Two lists that match `mode` and `keys` at the same places, with equal bindings
/// there, and where the longer has no match past the shorter, find the same binding.
proof fn lemma_find_from_same(
    x: Seq<SpecBinding>,
    y: Seq<SpecBinding>,
    mode: Mode,
    keys: Seq<KeyWithModifiers>,
    j: int,
)
    requires
        0 <= j,
        x.len() <= y.len(),
        forall|i: int| 0 <= i < x.len() ==> (binds(#[trigger] x[i], mode, keys) <==> binds(y[i], mode, keys)),
        forall|i: int| x.len() <= i < y.len() ==> !binds(#[trigger] y[i], mode, keys),
    ensures
        find_from(x, mode, keys, j) == find_from(y, mode, keys, j),
    decreases y.len() - j,
{
    if j < y.len() {
        if j < x.len() {
            assert(binds(x[j], mode, keys) <==> binds(y[j], mode, keys));
        } else {
            assert(!binds(y[j], mode, keys));
        }
        lemma_find_from_same(x, y, mode, keys, j + 1);
    }
}

/// Adding one binding: it is what its mode and keys are bound to afterwards, and every
/// other mode and keys stay bound as before.
proof fn lemma_merge_one(m: Seq<SpecBinding>, b: SpecBinding)
    ensures
        bound_to(merge_one(m, b), b.mode, b.keys) == Some(b.action),
        forall|mode: Mode, keys: Seq<KeyWithModifiers>|
            !(mode == b.mode && keys == b.keys) ==> #[trigger] bound_to(merge_one(m, b), mode, keys)
                == bound_to(m, mode, keys),
{
    let r = merge_one(m, b);
    let f = find_binding(m, b.mode, b.keys);
    lemma_find_from_range(m, b.mode, b.keys, 0);
    lemma_find_from_first(m, b.mode, b.keys, 0);
    if f >= 0 {
        assert forall|i: int| 0 <= i < f implies !(#[trigger] r[i].mode == b.mode && r[i].keys == b.keys) by {
            assert(r[i] == m[i]);
            assert(!binds(m[i], b.mode, b.keys));
        }
        lemma_find_from_at(r, b.mode, b.keys, 0, f);
    } else {
        assert forall|i: int| 0 <= i < m.len() implies !(#[trigger] r[i].mode == b.mode && r[i].keys == b.keys) by {
            assert(r[i] == m[i]);
            assert(!binds(m[i], b.mode, b.keys));
        }
        lemma_find_from_at(r, b.mode, b.keys, 0, m.len() as int);
    }
    assert forall|mode: Mode, keys: Seq<KeyWithModifiers>|
        !(mode == b.mode && keys == b.keys) implies #[trigger] bound_to(merge_one(m, b), mode, keys)
            == bound_to(m, mode, keys) by {
        assert(!binds(b, mode, keys));
        if f >= 0 {
            assert(binds(m[f], b.mode, b.keys));
            assert forall|i: int| 0 <= i < m.len() implies (binds(#[trigger] m[i], mode, keys) <==> binds(
                r[i],
                mode,
                keys,
            )) by {
                if i != f {
                    assert(r[i] == m[i]);
                }
            }
            lemma_find_from_same(m, r, mode, keys, 0);
            let g = find_binding(m, mode, keys);
            lemma_find_from_range(m, mode, keys, 0);
            if g >= 0 {
                assert(g != f);
                assert(r[g] == m[g]);
            }
        } else {
            assert forall|i: int| 0 <= i < m.len() implies (binds(#[trigger] m[i], mode, keys) <==> binds(
                r[i],
                mode,
                keys,
            )) by {
                assert(r[i] == m[i]);
            }
            assert forall|i: int| m.len() <= i < r.len() implies !binds(#[trigger] r[i], mode, keys) by {
                assert(r[i] == b);
            }
            lemma_find_from_same(m, r, mode, keys, 0);
            let g = find_binding(m, mode, keys);
            lemma_find_from_range(m, mode, keys, 0);
            if g >= 0 {
                assert(r[g] == m[g]);
            }
        }
    }
}

proof fn lemma_merge_all_push(m: Seq<SpecBinding>, users: Seq<SpecBinding>, b: SpecBinding)
    ensures
        merge_all(m, users.push(b)) == merge_one(merge_all(m, users), b),
    decreases users.len(),
{
    if users.len() == 0 {
        let one = users.push(b);
        assert(one.drop_first() =~= Seq::<SpecBinding>::empty());
        assert(one[0] == b);
        assert(merge_all(merge_one(m, b), one.drop_first()) == merge_one(m, b));
        assert(users =~= Seq::<SpecBinding>::empty());
        assert(merge_all(m, users) == m);
    } else {
        assert(users.push(b).drop_first() =~= users.drop_first().push(b));
        assert(users.push(b)[0] == users[0]);
        lemma_merge_all_push(merge_one(m, users[0]), users.drop_first(), b);
    }
}

/// A user's binding wins: after the bindings `m` with the user's bindings `users` and
/// then `b` added (as `Keymaps::with_overrides` adds them), the mode and keys of `b`
/// are bound to `b`'s action, even where `m` or an earlier user binding bound them
/// otherwise; every other mode and keys stay bound as without `b`.
pub proof fn law_user_binding_wins(m: Seq<SpecBinding>, users: Seq<SpecBinding>, b: SpecBinding)
    ensures
        bound_to(merge_all(m, users.push(b)), b.mode, b.keys) == Some(b.action),
        forall|mode: Mode, keys: Seq<KeyWithModifiers>|
            !(mode == b.mode && keys == b.keys) ==> #[trigger] bound_to(merge_all(m, users.push(b)), mode, keys)
                == bound_to(merge_all(m, users), mode, keys),
{
    lemma_merge_all_push(m, users, b);
    lemma_merge_one(merge_all(m, users), b);
}

pub open spec fn one_key(c: char) -> Seq<KeyWithModifiers> {
    seq![
        KeyWithModifiers {
            key: Key::Character(c),
            modifiers: Modifiers { control: false, alt: false, meta: false },
        },
    ]
}

pub open spec fn escape_key() -> Seq<KeyWithModifiers> {
    seq![
        KeyWithModifiers {
            key: Key::SpecialKey(SpecialKeyCode::Escape),
            modifiers: Modifiers { control: false, alt: false, meta: false },
        },
    ]
}

/// The built-in bindings.
pub open spec fn default_bindings() -> Seq<SpecBinding> {
    seq![
        SpecBinding { mode: Mode::Normal, keys: one_key('j'), action: KeyAction::NextNotification },
        SpecBinding {
            mode: Mode::Normal,
            keys: one_key('k'),
            action: KeyAction::PreviousNotification,
        },
        SpecBinding {
            mode: Mode::Normal,
            keys: one_key('x'),
            action: KeyAction::DismissNotification,
        },
        SpecBinding {
            mode: Mode::Normal,
            keys: one_key('d') + one_key('d'),
            action: KeyAction::DismissNotification,
        },
        SpecBinding { mode: Mode::Normal, keys: one_key('G'), action: KeyAction::LastNotification },
        SpecBinding {
            mode: Mode::Normal,
            keys: one_key('g') + one_key('g'),
            action: KeyAction::FirstNotification,
        },
        SpecBinding { mode: Mode::Hint, keys: escape_key(), action: KeyAction::NormalMode },
        SpecBinding { mode: Mode::Normal, keys: escape_key(), action: KeyAction::Unfocus },
        SpecBinding { mode: Mode::Normal, keys: one_key('f'), action: KeyAction::HintMode },
        SpecBinding { mode: Mode::Normal, keys: one_key('h'), action: KeyAction::ToggleHistory },
        SpecBinding { mode: Mode::Normal, keys: one_key('m'), action: KeyAction::ToggleMute },
        SpecBinding { mode: Mode::Normal, keys: one_key('i'), action: KeyAction::ToggleInhibit },
    ]
}

fn plain(key: Key) -> (k: KeyWithModifiers)
    ensures
        k == (KeyWithModifiers {
            key,
            modifiers: Modifiers { control: false, alt: false, meta: false },
        }),
{
    KeyWithModifiers { key, modifiers: Modifiers { control: false, alt: false, meta: false } }
}

fn one(c: char) -> (v: Vec<KeyWithModifiers>)
    ensures
        v@ == one_key(c),
{
    let v = vec![plain(Key::Character(c))];
    assert(v@ =~= one_key(c));
    v
}

fn two(c: char) -> (v: Vec<KeyWithModifiers>)
    ensures
        v@ == one_key(c) + one_key(c),
{
    let v = vec![plain(Key::Character(c)), plain(Key::Character(c))];
    assert(v@ =~= one_key(c) + one_key(c));
    v
}

fn esc() -> (v: Vec<KeyWithModifiers>)
    ensures
        v@ == escape_key(),
{
    let v = vec![plain(Key::SpecialKey(SpecialKeyCode::Escape))];
    assert(v@ =~= escape_key());
    v
}

fn binding(mode: Mode, keys: Vec<KeyWithModifiers>, action: KeyAction) -> (b: KeyCombination)
    ensures
        b@ == (SpecBinding { mode, keys: keys@, action }),
{
    KeyCombination { mode, keys: Keys(keys), action }
}

fn keys_equal(a: &Keys, b: &Keys) -> (r: bool)
    ensures
        r == (a@ == b@),
{
    if a.0.len() != b.0.len() {
        return false;
    }
    let mut i: usize = 0;
    while i < a.0.len()
        invariant
            a@.len() == b@.len(),
            i <= a@.len(),
            a@.take(i as int) == b@.take(i as int),
        decreases a@.len() - i,
    {
        if a.0[i] != b.0[i] {
            assert(a@[i as int] != b@[i as int]);
            return false;
        }
        assert(a@.take(i + 1) =~= a@.take(i as int).push(a@[i as int]));
        assert(b@.take(i + 1) =~= b@.take(i as int).push(b@[i as int]));
        i = i + 1;
    }
    assert(a@ =~= a@.take(a@.len() as int));
    assert(b@ =~= b@.take(b@.len() as int));
    true
}

fn keys_prefix(a: &[KeyWithModifiers], b: &Keys) -> (r: bool)
    ensures
        r == is_prefix(a@, b@),
{
    if a.len() > b.0.len() {
        return false;
    }
    let mut i: usize = 0;
    while i < a.len()
        invariant
            a@.len() <= b@.len(),
            i <= a@.len(),
            a@.take(i as int) == b@.take(i as int),
        decreases a@.len() - i,
    {
        if a[i] != b.0[i] {
            assert(b@.take(a@.len() as int)[i as int] != a@[i as int]);
            return false;
        }
        assert(a@.take(i + 1) =~= a@.take(i as int).push(a@[i as int]));
        assert(b@.take(i + 1) =~= b@.take(i as int).push(b@[i as int]));
        i = i + 1;
    }
    assert(a@ =~= a@.take(a@.len() as int));
    true
}

impl Keymaps {
    /// The built-in bindings.
    pub fn default_keymaps() -> (k: Keymaps)
        ensures
            k@ == default_bindings(),
    {
        let v = vec![
            binding(Mode::Normal, one('j'), KeyAction::NextNotification),
            binding(Mode::Normal, one('k'), KeyAction::PreviousNotification),
            binding(Mode::Normal, one('x'), KeyAction::DismissNotification),
            binding(Mode::Normal, two('d'), KeyAction::DismissNotification),
            binding(Mode::Normal, one('G'), KeyAction::LastNotification),
            binding(Mode::Normal, two('g'), KeyAction::FirstNotification),
            binding(Mode::Hint, esc(), KeyAction::NormalMode),
            binding(Mode::Normal, esc(), KeyAction::Unfocus),
            binding(Mode::Normal, one('f'), KeyAction::HintMode),
            binding(Mode::Normal, one('h'), KeyAction::ToggleHistory),
            binding(Mode::Normal, one('m'), KeyAction::ToggleMute),
            binding(Mode::Normal, one('i'), KeyAction::ToggleInhibit),
        ];
        let k = Keymaps(v);
        assert(k@ =~= default_bindings());
        k
    }

    /// Index of the first binding for `mode` and exactly `keys`.
    fn position(&self, mode: Mode, keys: &Keys) -> (r: Option<usize>)
        ensures
            match r {
                Some(j) => find_binding(self@, mode, keys@) == j as int && j < self@.len(),
                None => find_binding(self@, mode, keys@) == -1,
            },
    {
        let mut j: usize = 0;
        while j < self.0.len()
            invariant
                j <= self.0.len(),
                find_binding(self@, mode, keys@) == find_from(self@, mode, keys@, j as int),
            decreases self.0.len() - j,
        {
            assert(self@[j as int] == self.0@[j as int]@);
            if self.0[j].mode == mode && keys_equal(&self.0[j].keys, keys) {
                return Some(j);
            }
            j = j + 1;
        }
        None
    }

    /// The built-in bindings with those of a table keyed by key sequences (the
    /// configuration's `{ d = { action = ... }, ge = { ... } }`): each entry gives the
    /// keys as written, the mode and the action; the first sequence that does not read
    /// gives the error.
    pub fn from_table(entries: &Vec<(String, Mode, KeyAction)>) -> (r: Result<Keymaps, String>)
        requires
            forall|i: int| 0 <= i < entries.len() ==> ascii_text(#[trigger] entries@[i].0@),
        ensures
            match (r, table_bindings(table_view(entries@))) {
                (Ok(k), Ok(bs)) => k@ == merge_all(default_bindings(), bs),
                (Err(e), Err(msg)) => e@ == msg,
                _ => false,
            },
    {
        let mut user: Vec<KeyCombination> = Vec::new();
        let ghost tv = table_view(entries@);
        let mut i: usize = 0;
        assert(tv.take(0) =~= Seq::<(Seq<char>, Mode, KeyAction)>::empty());
        assert(user@.map_values(|b: KeyCombination| b@) =~= Seq::<SpecBinding>::empty());
        while i < entries.len()
            invariant
                i <= entries.len(),
                user.len() == i,
                tv == table_view(entries@),
                forall|k: int| 0 <= k < entries.len() ==> ascii_text(#[trigger] entries@[k].0@),
                table_bindings(tv.take(i as int)) == Ok::<Seq<SpecBinding>, Seq<char>>(
                    user@.map_values(|b: KeyCombination| b@),
                ),
            decreases entries.len() - i,
        {
            assert(tv.take(i + 1).drop_last() =~= tv.take(i as int));
            assert(tv[i as int] == (entries@[i as int].0@, entries@[i as int].1, entries@[i as int].2));
            let ghost before = user@.map_values(|b: KeyCombination| b@);
            match Keys::parse(entries[i].0.as_str()) {
                Ok(keys) => {
                    user.push(KeyCombination { mode: entries[i].1, keys, action: entries[i].2 });
                    assert(user@.map_values(|b: KeyCombination| b@) =~= before.push(
                        user@[i as int]@,
                    ));
                },
                Err(e) => {
                    proof {
                        lemma_table_error_stays(tv, i as int + 1);
                    }
                    return Err(e);
                },
            }
            i = i + 1;
        }
        assert(tv.take(entries.len() as int) =~= tv);
        Ok(Keymaps::with_overrides(user))
    }

    /// The built-in bindings with the user's bindings added in order: a user binding
    /// replaces the binding for the same mode and keys, or goes last.
    pub fn with_overrides(user: Vec<KeyCombination>) -> (k: Keymaps)
        ensures
            k@ == merge_all(default_bindings(), user@.map_values(|b: KeyCombination| b@)),
    {
        let mut merged = Keymaps::default_keymaps();
        let ghost users = user@.map_values(|b: KeyCombination| b@);
        let mut rest = user;
        while rest.len() > 0
            invariant
                merge_all(merged@, rest@.map_values(|b: KeyCombination| b@)) == merge_all(
                    default_bindings(),
                    users,
                ),
            decreases rest.len(),
        {
            let ghost before = rest@.map_values(|b: KeyCombination| b@);
            let kc = rest.remove(0);
            assert(before[0] == kc@);
            assert(rest@.map_values(|b: KeyCombination| b@) =~= before.drop_first());
            let ghost m0 = merged@;
            match merged.position(kc.mode, &kc.keys) {
                Some(pos) => {
                    merged.0.set(pos, kc);
                },
                None => {
                    merged.0.push(kc);
                },
            }
            assert(merged@ =~= merge_one(m0, before[0]));
        }
        assert(rest@.map_values(|b: KeyCombination| b@) =~= Seq::<SpecBinding>::empty());
        merged
    }

    /// Whether the keys typed so far begin some binding.
    pub fn matches(&self, sequence: &[KeyWithModifiers]) -> (b: bool)
        ensures
            b == matches_spec(self@, sequence@),
    {
        let mut j: usize = 0;
        while j < self.0.len()
            invariant
                j <= self.0.len(),
                forall|i: int| 0 <= i < j ==> !is_prefix(sequence@, #[trigger] self@[i].keys),
            decreases self.0.len() - j,
        {
            assert(self@[j as int] == self.0@[j as int]@);
            if keys_prefix(sequence, &self.0[j].keys) {
                assert(is_prefix(sequence@, self@[j as int].keys));
                return true;
            }
            j = j + 1;
        }
        false
    }

    /// Whether some binding for `mode` begins with the keys typed and is longer.
    pub fn awaits_more(&self, typed: &Keys, mode: Mode) -> (b: bool)
        ensures
            b == awaits_more(self@, mode, typed@),
    {
        let mut j: usize = 0;
        while j < self.0.len()
            invariant
                j <= self.0.len(),
                forall|i: int|
                    0 <= i < j ==> !(#[trigger] self@[i].mode == mode && is_prefix(typed@, self@[i].keys)
                        && typed@.len() < self@[i].keys.len()),
            decreases self.0.len() - j,
        {
            assert(self@[j as int] == self.0@[j as int]@);
            if self.0[j].mode == mode && typed.0.len() < self.0[j].keys.0.len() && keys_prefix(
                typed.0.as_slice(),
                &self.0[j].keys,
            ) {
                assert(self@[j as int].mode == mode && is_prefix(typed@, self@[j as int].keys)
                    && typed@.len() < self@[j as int].keys.len());
                return true;
            }
            j = j + 1;
        }
        false
    }

    /// The first binding for `mode` and exactly the keys typed.
    pub fn find(&self, keys: &Keys, mode: Mode) -> (r: Option<&KeyCombination>)
        ensures
            match r {
                Some(b) => find_binding(self@, mode, keys@) >= 0 && b@ == self@[find_binding(
                    self@,
                    mode,
                    keys@,
                )],
                None => find_binding(self@, mode, keys@) == -1,
            },
    {
        match self.position(mode, keys) {
            Some(j) => Some(&self.0[j]),
            None => None,
        }
    }

    /// Keeps the keys typed so far while they begin some binding; otherwise only the
    /// last key typed is kept.
    pub fn trim_pending(&self, pending: &mut Keys)
        ensures
            matches_spec(self@, old(pending)@) ==> final(pending)@ == old(pending)@,
            !matches_spec(self@, old(pending)@) ==> final(pending)@ == (if old(pending)@.len() == 0 {
                old(pending)@
            } else {
                seq![old(pending)@.last()]
            }),
    {
        if !self.matches(pending.0.as_slice()) {
            let n = pending.0.len();
            if n > 1 {
                let last = pending.0[n - 1];
                pending.0.clear();
                pending.0.push(last);
                assert(pending@ =~= seq![old(pending)@.last()]);
            }
            assert(n == 1 ==> pending@ =~= seq![old(pending)@.last()]);
        }
    }
}

impl Default for Keymaps {
    fn default() -> (k: Self)
        ensures
            k@ == default_bindings(),
    {
        Keymaps::default_keymaps()
    }
}

// ----- the current mode --------------------------------------------------------------------
/// The number that stands for a mode.
pub open spec fn mode_code(m: Mode) -> u8 {
    match m {
        Mode::Normal => 0,
        Mode::Hint => 1,
    }
}

impl Mode {
    /// The number that stands for the mode.
    pub fn code(self) -> (c: u8)
        ensures
            c == mode_code(self),
    {
        match self {
            Mode::Normal => 0,
            Mode::Hint => 1,
        }
    }

    /// The mode a number stands for.
    pub fn from_code(c: u8) -> (m: Option<Mode>)
        ensures
            c == 0 ==> m == Some(Mode::Normal),
            c == 1 ==> m == Some(Mode::Hint),
            c > 1 ==> m is None,
    {
        if c == 0 {
            Some(Mode::Normal)
        } else if c == 1 {
            Some(Mode::Hint)
        } else {
            None
        }
    }

    fn decode(c: u8) -> (m: Mode)
        ensures
            c == 0 ==> m == Mode::Normal,
            c == 1 ==> m == Mode::Hint,
    {
        match Mode::from_code(c) {
            Some(m) => m,
            None => Mode::Hint,
        }
    }
}

/// The current mode, shared between threads.
pub struct AtomicMode {
    inner: AtomicU8,
}

impl AtomicMode {
    /// A shared mode holding `mode`.
    pub fn new(mode: Mode) -> Self {
        AtomicMode { inner: AtomicU8::new(mode.code()) }
    }

    /// The mode held. Only the numbers of modes are ever stored.
    pub fn load(&self, ordering: Ordering) -> Mode {
        Mode::decode(self.inner.load(ordering))
    }

    /// Stores `mode`.
    pub fn store(&self, mode: Mode, ordering: Ordering) {
        self.inner.store(mode.code(), ordering);
    }

    /// Stores `mode` and returns the mode held before.
    pub fn swap(&self, mode: Mode, ordering: Ordering) -> Mode {
        Mode::decode(self.inner.swap(mode.code(), ordering))
    }

    /// Stores `new` if `current` is held; `Ok` with the mode held before (which is
    /// `current`) if it was, `Err` with the mode held otherwise.
    pub fn compare_exchange(
        &self,
        current: Mode,
        new: Mode,
        success: Ordering,
        failure: Ordering,
    ) -> (r: Result<Mode, Mode>)
        ensures
            r matches Ok(m) ==> m == current,
    {
        match self.inner.compare_exchange(current.code(), new.code(), success, failure) {
            Ok(_) => Ok(current),
            Err(old) => Err(Mode::decode(old)),
        }
    }
}

impl Default for AtomicMode {
    fn default() -> Self {
        AtomicMode::new(Mode::Normal)
    }
}

} // verus!
