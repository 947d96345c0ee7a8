//! Settings of the alert client: colours, keys written as `ctrl+shift+x`, and its key
//! bindings with their defaults.
use crate::color::{parse_hex, parse_hex_spec};
use crate::text::{
    ascii_lower, byte_len, chars_eq, chars_of, is_ascii_seq, lemma_split_on_nonempty, lowercase,
    push_chars, push_str,
    split_chars, split_on, str_byte_len, str_eq, string_of, to_lowercase,
};
use vstd::prelude::*;

pub use crate::config::{Anchor, Layer};

verus! {

/// One RGBA colour.
#[derive(Debug, Clone, Copy, PartialEq, Default)]
pub struct Color {
    pub rgba: [u8; 4],
}

impl Color {
    /// Reads a colour in `#rgb`, `#rgba`, `#rrggbb` or `#rrggbbaa` notation.
    pub fn parse(hex: &str) -> (r: Result<Color, String>)
        ensures
            match r {
                Ok(c) => parse_hex_spec(hex@) == Ok::<Seq<u8>, Seq<char>>(c.rgba@),
                Err(e) => parse_hex_spec(hex@) == Err::<Seq<u8>, Seq<char>>(e@),
            },
    {
        match parse_hex(hex) {
            Ok(rgba) => Ok(Color { rgba }),
            Err(e) => Err(e),
        }
    }
}

impl std::str::FromStr for Color {
    type Err = String;

    /// Reads a colour as `Color::parse` does.
    fn from_str(s: &str) -> (r: Result<Color, String>)
        ensures
            match r {
                Ok(c) => parse_hex_spec(s@) == Ok::<Seq<u8>, Seq<char>>(c.rgba@),
                Err(e) => parse_hex_spec(s@) == Err::<Seq<u8>, Seq<char>>(e@),
            },
    {
        Color::parse(s)
    }
}

/// Whether notifications leave in the order they came.
#[derive(PartialEq, Eq, Structural, Debug, Clone, Copy)]
pub enum Queue {
    Ordered,
    Unordered,
}

impl Default for Queue {
    fn default() -> (q: Self)
        ensures
            q == Queue::Ordered,
    {
        Queue::Ordered
    }
}

/// The colours of one urgency level.
#[derive(Debug, Clone, Copy, PartialEq, Default)]
pub struct Urgency {
    pub background: Color,
    pub foreground: Color,
    pub border: Color,
}

/// Modifier keys held with a key.
#[derive(PartialEq, Eq, Structural, Debug, Clone, Copy, Hash, Default)]
pub struct Modifiers {
    pub control: bool,
    pub shift: bool,
    pub alt: bool,
    pub meta: bool,
}

/// Keys with a name.
#[derive(PartialEq, Eq, Structural, Debug, Clone, Copy, Hash)]
pub enum SpecialKeyCode {
    Enter,
    Backspace,
    Tab,
    Space,
    Escape,
}

/// A key: a character or a named key.
#[derive(PartialEq, Eq, Structural, Debug, Clone, Copy, Hash)]
pub enum Key {
    Character(char),
    SpecialKey(SpecialKeyCode),
}

impl Default for Key {
    fn default() -> (k: Self)
        ensures
            k == Key::Character('\0'),
    {
        Key::Character('\0')
    }
}

/// What a key binding does.
#[derive(PartialEq, Eq, Structural, Debug, Clone, Copy)]
pub enum KeyAction {
    NextNotification,
    PreviousNotification,
    DismissNotification,
    InvokeAction,
}

/// A key with modifiers.
#[derive(PartialEq, Eq, Structural, Debug, Clone, Copy, Hash, Default)]
pub struct KeyCombination {
    pub modifiers: Modifiers,
    pub key: Key,
}

/// How many notifications are shown at most, by default.
pub fn default_max_visible() -> (n: u32)
    ensures
        n == 5,
{
    5
}

/// The largest icon size, by default.
pub fn default_max_icon_size() -> (n: u32)
    ensures
        n == 64,
{
    64
}

/// The modifiers after one more modifier name, or the error for an unknown name.
pub open spec fn modifier_step(m: Modifiers, part: Seq<char>) -> Result<Modifiers, Seq<char>> {
    if part == "ctrl"@ {
        Ok(Modifiers { control: true, ..m })
    } else if part == "shift"@ {
        Ok(Modifiers { shift: true, ..m })
    } else if part == "alt"@ {
        Ok(Modifiers { alt: true, ..m })
    } else if part == "meta"@ {
        Ok(Modifiers { meta: true, ..m })
    } else {
        Err("Invalid modifier: "@ + part)
    }
}

/// The modifiers named by `parts`, read in order; the error for the first unknown name.
pub open spec fn modifiers_spec(parts: Seq<Seq<char>>) -> Result<Modifiers, Seq<char>>
    decreases parts.len(),
{
    if parts.len() == 0 {
        Ok(Modifiers { control: false, shift: false, alt: false, meta: false })
    } else {
        match modifiers_spec(parts.drop_last()) {
            Err(e) => Err(e),
            Ok(m) => modifier_step(m, parts.last()),
        }
    }
}

/// The key named by an already lowercased name: a named key, a name of a single byte
/// (an ASCII character), or the error.
pub open spec fn key_spec(lower: Seq<char>) -> Result<Key, Seq<char>> {
    if lower == "enter"@ {
        Ok(Key::SpecialKey(SpecialKeyCode::Enter))
    } else if lower == "backspace"@ {
        Ok(Key::SpecialKey(SpecialKeyCode::Backspace))
    } else if lower == "tab"@ {
        Ok(Key::SpecialKey(SpecialKeyCode::Tab))
    } else if lower == "space"@ {
        Ok(Key::SpecialKey(SpecialKeyCode::Space))
    } else if lower == "escape"@ {
        Ok(Key::SpecialKey(SpecialKeyCode::Escape))
    } else if byte_len(lower) == 1 {
        Ok(Key::Character(lower[0]))
    } else {
        Err("Invalid key: "@ + lower)
    }
}

/// A key combination `mod+...+key` whose key name lowercases to `lower`: the modifiers
/// before the last `+`, then the key.
pub open spec fn combination_spec(s: Seq<char>, lower: Seq<char>) -> Result<KeyCombination, Seq<char>> {
    let parts = split_on(s, '+');
    match modifiers_spec(parts.drop_last()) {
        Err(e) => Err(e),
        Ok(m) => match key_spec(lower) {
            Err(e) => Err(e),
            Ok(k) => Ok(KeyCombination { modifiers: m, key: k }),
        },
    }
}

/// The key of a lowercased key name (see `key_spec`).
pub fn key_from_lowercase(lower: &str) -> (r: Result<Key, String>)
    ensures
        match r {
            Ok(k) => key_spec(lower@) == Ok::<Key, Seq<char>>(k),
            Err(e) => key_spec(lower@) == Err::<Key, Seq<char>>(e@),
        },
{
    if str_eq(lower, "enter") {
        Ok(Key::SpecialKey(SpecialKeyCode::Enter))
    } else if str_eq(lower, "backspace") {
        Ok(Key::SpecialKey(SpecialKeyCode::Backspace))
    } else if str_eq(lower, "tab") {
        Ok(Key::SpecialKey(SpecialKeyCode::Tab))
    } else if str_eq(lower, "space") {
        Ok(Key::SpecialKey(SpecialKeyCode::Space))
    } else if str_eq(lower, "escape") {
        Ok(Key::SpecialKey(SpecialKeyCode::Escape))
    } else if str_byte_len(lower) == 1 {
        let cs = chars_of(lower);
        proof {
            if cs@.len() == 0 {
                assert(byte_len(cs@) == 0);
            }
        }
        Ok(Key::Character(cs[0]))
    } else {
        let mut e = "Invalid key: ".to_owned();
        push_str(&mut e, lower);
        Err(e)
    }
}

/// The modifiers named by `parts` (see `modifiers_spec`).
fn modifiers_of(parts: &Vec<Vec<char>>, n: usize) -> (r: Result<Modifiers, String>)
    requires
        n <= parts.len(),
    ensures
        match r {
            Ok(m) => modifiers_spec(parts@.take(n as int).map_values(|p: Vec<char>| p@)) == Ok::<
                Modifiers,
                Seq<char>,
            >(m),
            Err(e) => modifiers_spec(parts@.take(n as int).map_values(|p: Vec<char>| p@)) == Err::<
                Modifiers,
                Seq<char>,
            >(e@),
        },
{
    let ctrl = chars_of("ctrl");
    let shift = chars_of("shift");
    let alt = chars_of("alt");
    let meta = chars_of("meta");
    let mut m = Modifiers { control: false, shift: false, alt: false, meta: false };
    let mut i: usize = 0;
    assert(parts@.take(0).map_values(|p: Vec<char>| p@) =~= Seq::<Seq<char>>::empty());
    while i < n
        invariant
            i <= n <= parts.len(),
            ctrl@ == "ctrl"@,
            shift@ == "shift"@,
            alt@ == "alt"@,
            meta@ == "meta"@,
            modifiers_spec(parts@.take(i as int).map_values(|p: Vec<char>| p@)) == Ok::<
                Modifiers,
                Seq<char>,
            >(m),
        decreases n - i,
    {
        let part = &parts[i];
        assert(parts@.take(i + 1).map_values(|p: Vec<char>| p@).drop_last() =~= parts@.take(
            i as int,
        ).map_values(|p: Vec<char>| p@));
        assert(parts@.take(i + 1).map_values(|p: Vec<char>| p@).last() == part@);
        if chars_eq(part, &ctrl) {
            m = Modifiers { control: true, ..m };
        } else if chars_eq(part, &shift) {
            m = Modifiers { shift: true, ..m };
        } else if chars_eq(part, &alt) {
            m = Modifiers { alt: true, ..m };
        } else if chars_eq(part, &meta) {
            m = Modifiers { meta: true, ..m };
        } else {
            let mut e = "Invalid modifier: ".to_owned();
            push_chars(&mut e, part);
            proof {
                let all = parts@.take(n as int).map_values(|p: Vec<char>| p@);
                assert(all.take(i + 1) =~= parts@.take(i + 1).map_values(|p: Vec<char>| p@));
                lemma_modifiers_err(all, i + 1);
            }
            return Err(e);
        }
        i = i + 1;
    }
    Ok(m)
}

/// Once a prefix of the names is refused, every longer prefix is refused alike.
proof fn lemma_modifiers_err(parts: Seq<Seq<char>>, i: int)
    requires
        0 <= i <= parts.len(),
        modifiers_spec(parts.take(i)) is Err,
    ensures
        modifiers_spec(parts) == modifiers_spec(parts.take(i)),
    decreases parts.len() - i,
{
    if i < parts.len() {
        assert(parts.take(i + 1).drop_last() =~= parts.take(i));
        lemma_modifiers_err(parts, i + 1);
    } else {
        assert(parts.take(i) =~= parts);
    }
}

impl KeyCombination {
    /// Reads `mod+...+key`: the modifiers `ctrl`, `shift`, `alt`, `meta`, then a key
    /// named (in any case) `enter`, `backspace`, `tab`, `space`, `escape`, or a single
    /// ASCII character (lowercased).
    pub fn parse(s: &str) -> (r: Result<KeyCombination, String>)
        ensures
            ({
                let key_name = split_on(s@, '+').last();
                match r {
                    Ok(k) => combination_spec(s@, lowercase(key_name)) == Ok::<
                        KeyCombination,
                        Seq<char>,
                    >(k),
                    Err(e) => combination_spec(s@, lowercase(key_name)) == Err::<
                        KeyCombination,
                        Seq<char>,
                    >(e@),
                }
            }),
            is_ascii_seq(split_on(s@, '+').last()) ==> lowercase(split_on(s@, '+').last())
                == ascii_lower(split_on(s@, '+').last()),
    {
        let cs = chars_of(s);
        let parts = split_chars(&cs, '+');
        proof {
            lemma_split_on_nonempty(s@, '+');
            assert(parts@.len() == split_on(s@, '+').len());
        }
        let n = parts.len() - 1;
        let key_name = string_of(&parts[n]);
        proof {
            assert(parts@.map_values(|p: Vec<char>| p@)[n as int] == parts@[n as int]@);
            assert(parts@.take(n as int).map_values(|p: Vec<char>| p@) =~= split_on(s@, '+').drop_last());
        }
        let lower = to_lowercase(key_name.as_str());
        let m = match modifiers_of(&parts, n) {
            Ok(m) => m,
            Err(e) => return Err(e),
        };
        match key_from_lowercase(lower.as_str()) {
            Ok(k) => Ok(KeyCombination { modifiers: m, key: k }),
            Err(e) => Err(e),
        }
    }
}

impl std::str::FromStr for KeyCombination {
    type Err = String;

    /// Reads a key combination as `KeyCombination::parse` does.
    fn from_str(s: &str) -> (r: Result<KeyCombination, String>)
        ensures
            ({
                let key_name = split_on(s@, '+').last();
                match r {
                    Ok(k) => combination_spec(s@, lowercase(key_name)) == Ok::<
                        KeyCombination,
                        Seq<char>,
                    >(k),
                    Err(e) => combination_spec(s@, lowercase(key_name)) == Err::<
                        KeyCombination,
                        Seq<char>,
                    >(e@),
                }
            }),
            is_ascii_seq(split_on(s@, '+').last()) ==> lowercase(split_on(s@, '+').last())
                == ascii_lower(split_on(s@, '+').last()),
    {
        KeyCombination::parse(s)
    }
}

/// The key combination a binding is written as (see `KeyCombination::parse`).
pub fn deserialize_keycombination_inner(value: &str) -> (r: Result<KeyCombination, String>)
    ensures
        ({
            let key_name = split_on(value@, '+').last();
            match r {
                Ok(k) => combination_spec(value@, lowercase(key_name)) == Ok::<
                    KeyCombination,
                    Seq<char>,
                >(k),
                Err(e) => combination_spec(value@, lowercase(key_name)) == Err::<
                    KeyCombination,
                    Seq<char>,
                >(e@),
            }
        }),
        is_ascii_seq(split_on(value@, '+').last()) ==> lowercase(split_on(value@, '+').last())
            == ascii_lower(split_on(value@, '+').last()),
{
    KeyCombination::parse(value)
}


/// Index of the binding of `k`, or the number of bindings.
pub open spec fn binding_index(m: Seq<(KeyCombination, KeyAction)>, k: KeyCombination, j: int) -> int
    decreases m.len() - j,
{
    if j < 0 || j >= m.len() {
        m.len() as int
    } else if m[j].0 == k {
        j
    } else {
        binding_index(m, k, j + 1)
    }
}

/// The bindings after binding `k` to `a`, in place of an earlier binding of `k`.
pub open spec fn bind_spec(m: Seq<(KeyCombination, KeyAction)>, k: KeyCombination, a: KeyAction) -> Seq<(KeyCombination, KeyAction)> {
    let i = binding_index(m, k, 0);
    if i < m.len() {
        m.update(i, (k, a))
    } else {
        m.push((k, a))
    }
}

/// Whether some key is bound to `a`.
pub open spec fn has_action(m: Seq<(KeyCombination, KeyAction)>, a: KeyAction) -> bool {
    exists|i: int| 0 <= i < m.len() && #[trigger] m[i].1 == a
}

/// The bindings after binding the plain key `key` to `a`, unless some key already is.
pub open spec fn default_spec(m: Seq<(KeyCombination, KeyAction)>, key: Key, a: KeyAction) -> Seq<(KeyCombination, KeyAction)> {
    if has_action(m, a) {
        m
    } else {
        bind_spec(
            m,
            KeyCombination {
                modifiers: Modifiers { control: false, shift: false, alt: false, meta: false },
                key,
            },
            a,
        )
    }
}

/// The default bindings where their actions are unbound: `j` next, `k` previous, `x`
/// dismiss, Enter invoke.
pub open spec fn with_defaults(m: Seq<(KeyCombination, KeyAction)>) -> Seq<(KeyCombination, KeyAction)> {
    let m1 = default_spec(m, Key::Character('j'), KeyAction::NextNotification);
    let m2 = default_spec(m1, Key::Character('k'), KeyAction::PreviousNotification);
    let m3 = default_spec(m2, Key::Character('x'), KeyAction::DismissNotification);
    default_spec(m3, Key::SpecialKey(SpecialKeyCode::Enter), KeyAction::InvokeAction)
}

/// The key combination of a written binding.
pub open spec fn written_combination(s: Seq<char>) -> Result<KeyCombination, Seq<char>> {
    combination_spec(s, lowercase(split_on(s, '+').last()))
}

/// The bindings written in `entries`, in order (a later binding of the same keys
/// replaces an earlier one); or the error of the first that does not read.
pub open spec fn bindings_spec(entries: Seq<(String, KeyAction)>) -> Result<Seq<(KeyCombination, KeyAction)>, Seq<char>>
    decreases entries.len(),
{
    if entries.len() == 0 {
        Ok(Seq::empty())
    } else {
        match bindings_spec(entries.drop_last()) {
            Err(e) => Err(e),
            Ok(m) => match written_combination(entries.last().0@) {
                Err(e) => Err(e),
                Ok(k) => Ok(bind_spec(m, k, entries.last().1)),
            },
        }
    }
}

proof fn lemma_bindings_err(entries: Seq<(String, KeyAction)>, i: int)
    requires
        0 <= i <= entries.len(),
        bindings_spec(entries.take(i)) is Err,
    ensures
        bindings_spec(entries) == bindings_spec(entries.take(i)),
    decreases entries.len() - i,
{
    if i < entries.len() {
        assert(entries.take(i + 1).drop_last() =~= entries.take(i));
        lemma_bindings_err(entries, i + 1);
    } else {
        assert(entries.take(i) =~= entries);
    }
}

/// Binds `k` to `a` (see `bind_spec`).
fn bind(m: &mut Vec<(KeyCombination, KeyAction)>, k: KeyCombination, a: KeyAction)
    ensures
        final(m)@ == bind_spec(old(m)@, k, a),
{
    let mut j: usize = 0;
    while j < m.len()
        invariant
            j <= m.len(),
            m@ == old(m)@,
            binding_index(m@, k, 0) == binding_index(m@, k, j as int),
        decreases m.len() - j,
    {
        if m[j].0 == k {
            m[j] = (k, a);
            return;
        }
        j = j + 1;
    }
    m.push((k, a));
}

/// Binds the plain key `key` to `a` unless some key already is (see `default_spec`).
fn bind_default(m: &mut Vec<(KeyCombination, KeyAction)>, key: Key, a: KeyAction)
    ensures
        final(m)@ == default_spec(old(m)@, key, a),
{
    let mut j: usize = 0;
    while j < m.len()
        invariant
            j <= m.len(),
            m@ == old(m)@,
            forall|i: int| 0 <= i < j ==> m@[i].1 != a,
        decreases m.len() - j,
    {
        if m[j].1 == a {
            assert(has_action(m@, a));
            return;
        }
        j = j + 1;
    }
    bind(
        m,
        KeyCombination {
            modifiers: Modifiers { control: false, shift: false, alt: false, meta: false },
            key,
        },
        a,
    );
}

/// The key bindings of the configuration: each written binding read in order, then the
/// default bindings for actions still unbound (see `bindings_spec`, `with_defaults`);
/// the error of the first binding that does not read.
pub fn deserialize_keycombination_map(entries: &Vec<(String, KeyAction)>) -> (r: Result<Vec<(KeyCombination, KeyAction)>, String>)
    ensures
        match r {
            Ok(m) => bindings_spec(entries@) matches Ok(b) && m@ == with_defaults(b),
            Err(e) => bindings_spec(entries@) == Err::<Seq<(KeyCombination, KeyAction)>, Seq<char>>(
                e@,
            ),
        },
{
    let mut m: Vec<(KeyCombination, KeyAction)> = Vec::new();
    let mut i: usize = 0;
    while i < entries.len()
        invariant
            i <= entries.len(),
            bindings_spec(entries@.take(i as int)) == Ok::<
                Seq<(KeyCombination, KeyAction)>,
                Seq<char>,
            >(m@),
        decreases entries.len() - i,
    {
        assert(entries@.take(i + 1).drop_last() =~= entries@.take(i as int));
        let k = match deserialize_keycombination_inner(entries[i].0.as_str()) {
            Ok(k) => k,
            Err(e) => {
                proof {
                    lemma_bindings_err(entries@, i + 1);
                }
                return Err(e);
            },
        };
        bind(&mut m, k, entries[i].1);
        i = i + 1;
    }
    assert(entries@.take(entries.len() as int) =~= entries@);
    bind_default(&mut m, Key::Character('j'), KeyAction::NextNotification);
    bind_default(&mut m, Key::Character('k'), KeyAction::PreviousNotification);
    bind_default(&mut m, Key::Character('x'), KeyAction::DismissNotification);
    bind_default(&mut m, Key::SpecialKey(SpecialKeyCode::Enter), KeyAction::InvokeAction);
    Ok(m)
}

} // verus!
