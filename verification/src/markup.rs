//! The markup subset that notification bodies may carry: `<b>`, `<i>`, `<u>`,
//! `<img ...>`, `<span ...>` and `<a href=...>`, with the line and text column at
//! which each link's text starts.
use crate::text::{byte_len, chars_of, chars_eq, is_ws, is_whitespace, string_of, utf8_width, char_width, lemma_byte_len_take, lemma_byte_len_prefix, lemma_subrange_push};
use vstd::prelude::*;

verus! {

/// Where a link's text starts: its line, its column counted in displayed text
/// characters, and its byte offset in the input.
#[derive(Debug, Clone, Copy, PartialEq)]
pub struct Position {
    pub line: usize,
    pub column: usize,
    pub offset: usize,
}

/// The attributes of a tag, in the order in which their names first appeared.
/// A name given twice keeps its place and takes the later value.
#[derive(Debug, PartialEq)]
pub struct Attributes {
    entries: Vec<(String, String)>,
}

/// One piece of parsed markup.
#[derive(Debug, PartialEq)]
pub enum Tag {
    Bold(String),
    Italic(String),
    Underline(String),
    Image { alt: String, src: String },
    Anchor { href: String, text: String, position: Position },
    Span { text: String, attributes: Attributes },
    Text(String),
}

/// Mathematical form of a [`Tag`].
pub enum SpecTag {
    Bold(Seq<char>),
    Italic(Seq<char>),
    Underline(Seq<char>),
    Image { alt: Seq<char>, src: Seq<char> },
    Anchor { href: Seq<char>, text: Seq<char>, position: Position },
    Span { text: Seq<char>, attributes: Seq<(Seq<char>, Seq<char>)> },
    Text(Seq<char>),
}

impl View for Attributes {
    type V = Seq<(Seq<char>, Seq<char>)>;

    closed spec fn view(&self) -> Seq<(Seq<char>, Seq<char>)> {
        self.entries@.map_values(|e: (String, String)| (e.0@, e.1@))
    }
}

impl View for Tag {
    type V = SpecTag;

    open spec fn view(&self) -> SpecTag {
        match self {
            Tag::Bold(t) => SpecTag::Bold(t@),
            Tag::Italic(t) => SpecTag::Italic(t@),
            Tag::Underline(t) => SpecTag::Underline(t@),
            Tag::Image { alt, src } => SpecTag::Image { alt: alt@, src: src@ },
            Tag::Anchor { href, text, position } => SpecTag::Anchor {
                href: href@,
                text: text@,
                position: *position,
            },
            Tag::Span { text, attributes } => SpecTag::Span {
                text: text@,
                attributes: attributes@,
            },
            Tag::Text(t) => SpecTag::Text(t@),
        }
    }
}

/// The views of a sequence of tags.
pub open spec fn tags_view(v: Seq<Tag>) -> Seq<SpecTag> {
    v.map_values(|t: Tag| t@)
}

// ----- attribute lists -----------------------------------------------------------
/// Index of the first entry named `k` at or after `j`, or -1.
pub open spec fn assoc_find_from(l: Seq<(Seq<char>, Seq<char>)>, k: Seq<char>, j: int) -> int
    decreases l.len() - j,
{
    if j < 0 || j >= l.len() {
        -1
    } else if l[j].0 == k {
        j
    } else {
        assoc_find_from(l, k, j + 1)
    }
}

/// Index of the entry named `k`, or -1.
pub open spec fn assoc_find(l: Seq<(Seq<char>, Seq<char>)>, k: Seq<char>) -> int {
    assoc_find_from(l, k, 0)
}

/// Sets `k` to `v`: in place where `k` is present, at the end otherwise.
pub open spec fn assoc_insert(l: Seq<(Seq<char>, Seq<char>)>, k: Seq<char>, v: Seq<char>) -> Seq<
    (Seq<char>, Seq<char>),
> {
    let f = assoc_find(l, k);
    if f >= 0 {
        l.update(f, (k, v))
    } else {
        l.push((k, v))
    }
}

/// The value of `k`, where present.
pub open spec fn assoc_get(l: Seq<(Seq<char>, Seq<char>)>, k: Seq<char>) -> Option<Seq<char>> {
    let f = assoc_find(l, k);
    if f >= 0 {
        Some(l[f].1)
    } else {
        None
    }
}

/// The value of `k`, or the empty text.
pub open spec fn assoc_get_or_empty(l: Seq<(Seq<char>, Seq<char>)>, k: Seq<char>) -> Seq<char> {
    match assoc_get(l, k) {
        Some(v) => v,
        None => Seq::empty(),
    }
}

pub proof fn lemma_assoc_find_from_range(l: Seq<(Seq<char>, Seq<char>)>, k: Seq<char>, j: int)
    requires
        0 <= j,
    ensures
        assoc_find_from(l, k, j) == -1 || (j <= assoc_find_from(l, k, j) < l.len() && l[assoc_find_from(l, k, j)].0 == k),
    decreases l.len() - j,
{
    if j < l.len() && l[j].0 != k {
        lemma_assoc_find_from_range(l, k, j + 1);
    }
}

impl Attributes {
    /// No attributes.
    pub fn new() -> (a: Attributes)
        ensures
            a@ == Seq::<(Seq<char>, Seq<char>)>::empty(),
    {
        let a = Attributes { entries: Vec::new() };
        assert(a@ =~= Seq::<(Seq<char>, Seq<char>)>::empty());
        a
    }

    /// Number of distinct attribute names.
    pub fn len(&self) -> (n: usize)
        ensures
            n == self@.len(),
    {
        self.entries.len()
    }

    /// Whether there is no attribute.
    pub fn is_empty(&self) -> (b: bool)
        ensures
            b == (self@.len() == 0),
    {
        self.entries.len() == 0
    }

    /// Index of the entry named `k`, or `None`.
    fn find(&self, k: &Vec<char>) -> (r: Option<usize>)
        ensures
            match r {
                Some(j) => assoc_find(self@, k@) == j as int,
                None => assoc_find(self@, k@) == -1,
            },
    {
        let mut j: usize = 0;
        while j < self.entries.len()
            invariant
                j <= self.entries.len(),
                assoc_find(self@, k@) == assoc_find_from(self@, k@, j as int),
            decreases self.entries.len() - j,
        {
            let name = chars_of(self.entries[j].0.as_str());
            assert(self@[j as int].0 == self.entries@[j as int].0@);
            if chars_eq(&name, k) {
                return Some(j);
            }
            j = j + 1;
        }
        None
    }

    /// Sets attribute `k` to `v`.
    fn insert(&mut self, k: &Vec<char>, v: &Vec<char>)
        ensures
            final(self)@ == assoc_insert(old(self)@, k@, v@),
    {
        let name = string_of(k);
        let value = string_of(v);
        match self.find(k) {
            Some(j) => {
                proof {
                    lemma_assoc_find_from_range(self@, k@, 0);
                }
                self.entries.set(j, (name, value));
                assert(self@ =~= assoc_insert(old(self)@, k@, v@));
            },
            None => {
                self.entries.push((name, value));
                assert(self@ =~= assoc_insert(old(self)@, k@, v@));
            },
        }
    }

    /// The `i`-th attribute, as a name and a value.
    pub fn entry(&self, i: usize) -> (r: (&String, &String))
        requires
            i < self@.len(),
        ensures
            r.0@ == self@[i as int].0,
            r.1@ == self@[i as int].1,
    {
        (&self.entries[i].0, &self.entries[i].1)
    }

    /// The value of attribute `key`, where present.
    pub fn get(&self, key: &str) -> (r: Option<&String>)
        ensures
            match r {
                Some(v) => assoc_get(self@, key@) == Some(v@),
                None => assoc_get(self@, key@) is None,
            },
    {
        let k = chars_of(key);
        match self.find(&k) {
            Some(j) => {
                proof {
                    lemma_assoc_find_from_range(self@, k@, 0);
                }
                Some(&self.entries[j].1)
            },
            None => None,
        }
    }

    /// The value of attribute `key`, or the empty string.
    fn get_or_empty(&self, key: &Vec<char>) -> (r: String)
        ensures
            r@ == assoc_get_or_empty(self@, key@),
    {
        match self.find(key) {
            Some(j) => {
                proof {
                    lemma_assoc_find_from_range(self@, key@, 0);
                }
                self.entries[j].1.clone()
            },
            None => String::new(),
        }
    }
}

// ----- the parser's state and its steps -----------------------------------------
/// The parser's counters: character index `i`, byte offset `pos`, line, column,
/// and column counted in displayed text.
pub struct ParseState {
    pub i: int,
    pub pos: int,
    pub line: int,
    pub column: int,
    pub text_column: int,
}

/// The counters after reading character `c`; `count` says whether it is displayed text.
pub open spec fn step(st: ParseState, c: char, count: bool) -> ParseState {
    ParseState {
        i: st.i + 1,
        pos: st.pos + utf8_width(c),
        line: if c == '\n' {
            st.line + 1
        } else {
            st.line
        },
        column: if c == '\n' {
            0
        } else {
            st.column + 1
        },
        text_column: if count {
            if c == '\n' {
                0
            } else {
                st.text_column + 1
            }
        } else {
            st.text_column
        },
    }
}

/// Reads the current character.
pub open spec fn consume(s: Seq<char>, st: ParseState, count: bool) -> ParseState {
    step(st, s[st.i], count)
}

/// Reads characters until index `j` or the end.
pub open spec fn advance(s: Seq<char>, st: ParseState, j: int, count: bool) -> ParseState
    decreases j - st.i,
{
    if st.i < 0 || st.i >= j || st.i >= s.len() {
        st
    } else {
        advance(s, consume(s, st, count), j, count)
    }
}

/// Steps over the characters `m[k..]` of a literal, whatever the input holds there.
pub open spec fn consume_lit(st: ParseState, m: Seq<char>, k: int, count: bool) -> ParseState
    decreases m.len() - k,
{
    if k < 0 || k >= m.len() {
        st
    } else {
        consume_lit(step(st, m[k], count), m, k + 1, count)
    }
}

/// Whether `m` occurs in `s` at index `i`.
pub open spec fn starts_at(s: Seq<char>, i: int, m: Seq<char>) -> bool {
    0 <= i && i + m.len() <= s.len() && s.subrange(i, i + m.len()) == m
}

/// Whether character index `k` of `s` holds `c` (the parser looks the byte offset up
/// as a character index here).
pub open spec fn char_at_is(s: Seq<char>, k: int, c: char) -> bool {
    0 <= k < s.len() && s[k] == c
}

/// First index at or after `i` where `m` occurs, or the end.
pub open spec fn until(s: Seq<char>, i: int, m: Seq<char>) -> int
    decreases s.len() - i,
{
    if i < 0 || i >= s.len() || starts_at(s, i, m) {
        i
    } else {
        until(s, i + 1, m)
    }
}

/// First index at or after `i` holding `<`, or the end.
pub open spec fn text_end(s: Seq<char>, i: int) -> int
    decreases s.len() - i,
{
    if i < 0 || i >= s.len() || s[i] == '<' {
        i
    } else {
        text_end(s, i + 1)
    }
}

/// Number of line breaks in `t`.
pub open spec fn nl_count(t: Seq<char>) -> int
    decreases t.len(),
{
    if t.len() == 0 {
        0
    } else {
        nl_count(t.drop_last()) + if t.last() == '\n' {
            1int
        } else {
            0int
        }
    }
}

/// Number of characters after the last line break of `t` (all of them if none).
pub open spec fn col_after(t: Seq<char>) -> int
    decreases t.len(),
{
    if t.len() == 0 {
        0
    } else if t.last() == '\n' {
        0
    } else {
        col_after(t.drop_last()) + 1
    }
}

/// Skips a tag's name: up to a space, or to where the lookup by byte offset finds `>`.
pub open spec fn skip_name(s: Seq<char>, st: ParseState) -> ParseState
    decreases s.len() - st.i,
{
    if 0 <= st.i < s.len() && s[st.i] != ' ' && !char_at_is(s, st.pos, '>') {
        skip_name(s, consume(s, st, false))
    } else {
        st
    }
}

/// State of the attribute reader.
pub struct AttrState {
    pub in_name: bool,
    pub in_value: bool,
    pub name: Seq<char>,
    pub value: Seq<char>,
    pub quote: char,
    pub attrs: Seq<(Seq<char>, Seq<char>)>,
}

/// The attribute reader before any character.
pub open spec fn attr_init() -> AttrState {
    AttrState {
        in_name: false,
        in_value: false,
        name: Seq::empty(),
        value: Seq::empty(),
        quote: ' ',
        attrs: Seq::empty(),
    }
}

/// The attribute reader after character `c`. Inside a quoted value every character
/// but the closing quote belongs to the value; elsewhere white space ends a name and
/// is skipped.
pub open spec fn attr_step(a: AttrState, c: char) -> AttrState {
    if a.in_value {
        if c == a.quote {
            AttrState {
                in_value: false,
                attrs: assoc_insert(a.attrs, a.name, a.value),
                name: Seq::empty(),
                value: Seq::empty(),
                ..a
            }
        } else {
            AttrState { value: a.value.push(c), ..a }
        }
    } else if is_ws(c) {
        if a.in_name && a.name.len() > 0 {
            AttrState { in_name: false, ..a }
        } else {
            a
        }
    } else if c == '=' {
        AttrState { in_name: false, ..a }
    } else if c == '"' || c == '\'' {
        AttrState { in_value: true, quote: c, ..a }
    } else {
        let in_name = if !a.in_name && a.name.len() == 0 {
            true
        } else {
            a.in_name
        };
        AttrState {
            in_name: in_name,
            name: if in_name {
                a.name.push(c)
            } else {
                a.name
            },
            ..a
        }
    }
}

/// Reads attributes up to where the lookup by byte offset finds `>`.
pub open spec fn attr_loop(s: Seq<char>, st: ParseState, a: AttrState) -> (ParseState, AttrState)
    decreases s.len() - st.i,
{
    if 0 <= st.i < s.len() && !char_at_is(s, st.pos, '>') {
        attr_loop(s, consume(s, st, false), attr_step(a, s[st.i]))
    } else {
        (st, a)
    }
}

/// Reads a whole opening tag: its name, its attributes and the closing `>`.
pub open spec fn tag_attrs(s: Seq<char>, st: ParseState) -> (ParseState, Seq<(Seq<char>, Seq<char>)>) {
    let st1 = skip_name(s, st);
    let (st2, a) = attr_loop(s, st1, attr_init());
    let st3 = if 0 <= st2.i < s.len() && char_at_is(s, st2.pos, '>') {
        consume(s, st2, false)
    } else {
        st2
    };
    (st3, a.attrs)
}

/// Recomputes line and column from the text before the current index.
pub open spec fn tag_end(s: Seq<char>, st: ParseState) -> ParseState {
    let t = s.take(st.i);
    ParseState {
        line: if nl_count(t) > 0 {
            nl_count(t)
        } else {
            st.line
        },
        column: col_after(t),
        ..st
    }
}

pub open spec fn lit_b_open() -> Seq<char> {
    seq!['<', 'b', '>']
}

pub open spec fn lit_b_close() -> Seq<char> {
    seq!['<', '/', 'b', '>']
}

pub open spec fn lit_i_open() -> Seq<char> {
    seq!['<', 'i', '>']
}

pub open spec fn lit_i_close() -> Seq<char> {
    seq!['<', '/', 'i', '>']
}

pub open spec fn lit_u_open() -> Seq<char> {
    seq!['<', 'u', '>']
}

pub open spec fn lit_u_close() -> Seq<char> {
    seq!['<', '/', 'u', '>']
}

pub open spec fn lit_img() -> Seq<char> {
    seq!['<', 'i', 'm', 'g']
}

pub open spec fn lit_span() -> Seq<char> {
    seq!['<', 's', 'p', 'a', 'n']
}

pub open spec fn lit_span_close() -> Seq<char> {
    seq!['<', '/', 's', 'p', 'a', 'n', '>']
}

pub open spec fn lit_a() -> Seq<char> {
    seq!['<', 'a']
}

pub open spec fn lit_a_close() -> Seq<char> {
    seq!['<', '/', 'a', '>']
}

pub open spec fn key_alt() -> Seq<char> {
    seq!['a', 'l', 't']
}

pub open spec fn key_src() -> Seq<char> {
    seq!['s', 'r', 'c']
}

pub open spec fn key_href() -> Seq<char> {
    seq!['h', 'r', 'e', 'f']
}

/// Result of a simple tag `open text close`: the text and the state after the closer.
pub open spec fn simple_tag(s: Seq<char>, st: ParseState, open: Seq<char>, close: Seq<char>) -> (
    Seq<char>,
    ParseState,
) {
    let st1 = consume_lit(st, open, 0, false);
    let j = until(s, st1.i, close);
    let st2 = advance(s, st1, j, true);
    (s.subrange(st1.i, j), consume_lit(st2, close, 0, false))
}

/// The tags read from state `st` on, appended to `acc`, and the final state.
pub open spec fn parse_acc(s: Seq<char>, st: ParseState, acc: Seq<SpecTag>) -> (
    Seq<SpecTag>,
    ParseState,
)
    decreases s.len() + 8 - st.i,
{
    if st.i < 0 || st.i >= s.len() {
        (acc, st)
    } else if s[st.i] == '<' {
        if starts_at(s, st.i, lit_b_open()) {
            let (t, st2) = simple_tag(s, st, lit_b_open(), lit_b_close());
            proof {
                lemma_simple_tag_progress(s, st, lit_b_open(), lit_b_close());
            }
            parse_acc(s, st2, acc.push(SpecTag::Bold(t)))
        } else if starts_at(s, st.i, lit_i_open()) {
            let (t, st2) = simple_tag(s, st, lit_i_open(), lit_i_close());
            proof {
                lemma_simple_tag_progress(s, st, lit_i_open(), lit_i_close());
            }
            parse_acc(s, st2, acc.push(SpecTag::Italic(t)))
        } else if starts_at(s, st.i, lit_u_open()) {
            let (t, st2) = simple_tag(s, st, lit_u_open(), lit_u_close());
            proof {
                lemma_simple_tag_progress(s, st, lit_u_open(), lit_u_close());
            }
            parse_acc(s, st2, acc.push(SpecTag::Underline(t)))
        } else if starts_at(s, st.i, lit_img()) {
            let (st1, attrs) = tag_attrs(s, st);
            proof {
                lemma_tag_attrs_progress(s, st);
            }
            parse_acc(
                s,
                tag_end(s, st1),
                acc.push(
                    SpecTag::Image {
                        alt: assoc_get_or_empty(attrs, key_alt()),
                        src: assoc_get_or_empty(attrs, key_src()),
                    },
                ),
            )
        } else if starts_at(s, st.i, lit_span()) || starts_at(s, st.i, lit_a()) {
            let (st1, attrs) = tag_attrs(s, st);
            let st2 = tag_end(s, st1);
            let j = until(
                s,
                st2.i,
                if starts_at(s, st.i, lit_span()) {
                    lit_span_close()
                } else {
                    lit_a_close()
                },
            );
            let st3 = advance(s, st2, j, true);
            proof {
                lemma_tag_attrs_progress(s, st);
                lemma_until_bounds(
                    s,
                    st2.i,
                    if starts_at(s, st.i, lit_span()) {
                        lit_span_close()
                    } else {
                        lit_a_close()
                    },
                );
                lemma_advance(s, st2, j, true);
                lemma_consume_lit_i(st3, lit_span_close(), 0, false);
                lemma_consume_lit_i(st3, lit_a_close(), 0, false);
            }
            if starts_at(s, st.i, lit_span()) {
                parse_acc(
                    s,
                    consume_lit(st3, lit_span_close(), 0, false),
                    acc.push(SpecTag::Span { text: s.subrange(st2.i, j), attributes: attrs }),
                )
            } else {
                parse_acc(
                    s,
                    consume_lit(st3, lit_a_close(), 0, false),
                    acc.push(
                        SpecTag::Anchor {
                            href: assoc_get_or_empty(attrs, key_href()),
                            text: s.subrange(st2.i, j),
                            position: Position {
                                line: st2.line as usize,
                                column: st2.text_column as usize,
                                offset: st2.pos as usize,
                            },
                        },
                    ),
                )
            }
        } else {
            parse_acc(s, consume(s, st, true), acc.push(SpecTag::Text(seq![s[st.i]])))
        }
    } else {
        let j = text_end(s, st.i);
        proof {
            lemma_text_end_bounds(s, st.i);
            lemma_advance(s, st, j, true);
        }
        parse_acc(s, advance(s, st, j, true), acc.push(SpecTag::Text(s.subrange(st.i, j))))
    }
}

// ----- laws of the markup -------------------------------------------------------------
/// The state the parser starts in.
pub open spec fn start_state() -> ParseState {
    ParseState { i: 0, pos: 0, line: 0, column: 0, text_column: 0 }
}

/// Whether, in `t` followed by `close`, `close` first occurs right after `t` (so the
/// text holds no closing tag of its own).
pub open spec fn closes_first(t: Seq<char>, close: Seq<char>) -> bool {
    forall|x: int| 0 <= x < t.len() ==> !starts_at(t + close, x, close)
}

/// Searching for `m` from `i`, where it first occurs at `k`, finds `k`.
proof fn lemma_until_first(s: Seq<char>, i: int, k: int, m: Seq<char>)
    requires
        0 <= i <= k <= s.len(),
        forall|t: int| i <= t < k ==> !starts_at(s, t, m),
        starts_at(s, k, m),
    ensures
        until(s, i, m) == k,
    decreases k - i,
{
    if i < k {
        lemma_until_first(s, i + 1, k, m);
    }
}

/// `close` first occurs in `p + t + close` right after `t`, from `p`'s end on.
proof fn lemma_close_after_text(p: Seq<char>, t: Seq<char>, close: Seq<char>)
    requires
        closes_first(t, close),
    ensures
        ({
            let s = p + t + close;
            &&& forall|x: int| p.len() <= x < p.len() + t.len() ==> !starts_at(s, x, close)
            &&& starts_at(s, (p.len() + t.len()) as int, close)
            &&& until(s, p.len() as int, close) == p.len() + t.len()
        }),
{
    let s = p + t + close;
    let o = p.len() as int;
    let tc = t + close;
    assert forall|x: int| o <= x < o + t.len() implies !starts_at(s, x, close) by {
        assert(!starts_at(tc, x - o, close));
        if x + close.len() <= s.len() {
            assert(s.subrange(x, x + close.len()) =~= tc.subrange(x - o, x - o + close.len()));
        }
    }
    assert(s.subrange(o + t.len(), o + t.len() + close.len()) =~= close);
    lemma_until_first(s, o, o + t.len(), close);
}

/// A simple tag `open c close`, `c` holding no `close`, reads as its text, the whole
/// input.
proof fn lemma_simple_alone(c: Seq<char>, open: Seq<char>, close: Seq<char>)
    requires
        closes_first(c, close),
        open.len() == 3,
        close.len() == 4,
    ensures
        ({
            let s = open + c + close;
            &&& simple_tag(s, start_state(), open, close).0 == c
            &&& simple_tag(s, start_state(), open, close).1.i == s.len()
        }),
{
    let s = open + c + close;
    let st1 = consume_lit(start_state(), open, 0, false);
    lemma_consume_lit_i(start_state(), open, 0, false);
    let k: int = 3 + c.len() as int;
    lemma_close_after_text(open, c, close);
    let st2 = advance(s, st1, k, true);
    lemma_advance(s, st1, k, true);
    lemma_consume_lit_i(st2, close, 0, false);
    assert(s.subrange(3, k) =~= c);
}

/// `<b>`, `<i>` or `<u>` around text that holds no closing tag of its kind reads as
/// exactly one bold, italic or underlined tag holding that text.
pub proof fn law_simple_tag_alone(c: Seq<char>)
    requires
        closes_first(c, lit_b_close()),
        closes_first(c, lit_i_close()),
        closes_first(c, lit_u_close()),
    ensures
        parse_acc(lit_b_open() + c + lit_b_close(), start_state(), Seq::empty()).0 == seq![
            SpecTag::Bold(c),
        ],
        parse_acc(lit_i_open() + c + lit_i_close(), start_state(), Seq::empty()).0 == seq![
            SpecTag::Italic(c),
        ],
        parse_acc(lit_u_open() + c + lit_u_close(), start_state(), Seq::empty()).0 == seq![
            SpecTag::Underline(c),
        ],
{
    let sb = lit_b_open() + c + lit_b_close();
    let si = lit_i_open() + c + lit_i_close();
    let su = lit_u_open() + c + lit_u_close();
    lemma_simple_alone(c, lit_b_open(), lit_b_close());
    lemma_simple_alone(c, lit_i_open(), lit_i_close());
    lemma_simple_alone(c, lit_u_open(), lit_u_close());
    assert(sb.subrange(0, 3) =~= lit_b_open());
    assert(si.subrange(0, 3) =~= lit_i_open());
    assert(su.subrange(0, 3) =~= lit_u_open());
    assert(si[1] == 'i' && su[1] == 'u');
    assert(!starts_at(si, 0, lit_b_open()));
    assert(!starts_at(su, 0, lit_b_open()));
    assert(!starts_at(su, 0, lit_i_open()));
    let (tb, stb) = simple_tag(sb, start_state(), lit_b_open(), lit_b_close());
    assert(parse_acc(sb, stb, seq![SpecTag::Bold(c)]).0 == seq![SpecTag::Bold(c)]);
    let (ti, sti) = simple_tag(si, start_state(), lit_i_open(), lit_i_close());
    assert(parse_acc(si, sti, seq![SpecTag::Italic(c)]).0 == seq![SpecTag::Italic(c)]);
    let (tu, stu) = simple_tag(su, start_state(), lit_u_open(), lit_u_close());
    assert(parse_acc(su, stu, seq![SpecTag::Underline(c)]).0 == seq![SpecTag::Underline(c)]);
    assert(Seq::<SpecTag>::empty().push(SpecTag::Bold(c)) =~= seq![SpecTag::Bold(c)]);
    assert(Seq::<SpecTag>::empty().push(SpecTag::Italic(c)) =~= seq![SpecTag::Italic(c)]);
    assert(Seq::<SpecTag>::empty().push(SpecTag::Underline(c)) =~= seq![SpecTag::Underline(c)]);
}

/// The attribute reader after the characters of `t`, one after the other.
pub open spec fn attr_fold(a: AttrState, t: Seq<char>) -> AttrState
    decreases t.len(),
{
    if t.len() == 0 {
        a
    } else {
        attr_fold(attr_step(a, t[0]), t.drop_first())
    }
}

proof fn lemma_attr_fold_concat(a: AttrState, x: Seq<char>, y: Seq<char>)
    ensures
        attr_fold(a, x + y) == attr_fold(attr_fold(a, x), y),
    decreases x.len(),
{
    if x.len() == 0 {
        assert(x + y =~= y);
    } else {
        assert((x + y).drop_first() =~= x.drop_first() + y);
        assert((x + y)[0] == x[0]);
        lemma_attr_fold_concat(attr_step(a, x[0]), x.drop_first(), y);
    }
}

/// A character that may stand in an attribute's name as the laws write it.
pub open spec fn name_char(c: char) -> bool {
    (c as u32) < 0x80 && !is_ws(c) && c != '=' && c != '"' && c != '\'' && c != '>'
}

/// A character that may stand in a double-quoted attribute value as the laws write it.
pub open spec fn value_char(c: char) -> bool {
    (c as u32) < 0x80 && c != '"' && c != '>'
}

/// The reader between attributes: in no name and no value, with nothing pending.
pub open spec fn attr_clean(a: AttrState) -> bool {
    !a.in_name && !a.in_value && a.name.len() == 0 && a.value.len() == 0
}

proof fn lemma_fold_name(b: AttrState, k: Seq<char>)
    requires
        b.in_name,
        !b.in_value,
        forall|t: int| 0 <= t < k.len() ==> name_char(#[trigger] k[t]),
    ensures
        attr_fold(b, k) == (AttrState { name: b.name + k, ..b }),
    decreases k.len(),
{
    if k.len() == 0 {
        assert(b.name + k =~= b.name);
    } else {
        assert(name_char(k[0]));
        let b1 = attr_step(b, k[0]);
        assert(b1 == (AttrState { name: b.name.push(k[0]), ..b }));
        assert forall|t: int| 0 <= t < k.drop_first().len() implies name_char(#[trigger] k.drop_first()[t]) by {
            assert(k.drop_first()[t] == k[t + 1]);
        }
        lemma_fold_name(b1, k.drop_first());
        assert(b.name.push(k[0]) + k.drop_first() =~= b.name + k);
    }
}

proof fn lemma_fold_value(b: AttrState, v: Seq<char>)
    requires
        b.in_value,
        b.quote == '"',
        forall|t: int| 0 <= t < v.len() ==> value_char(#[trigger] v[t]),
    ensures
        attr_fold(b, v) == (AttrState { value: b.value + v, ..b }),
    decreases v.len(),
{
    if v.len() == 0 {
        assert(b.value + v =~= b.value);
    } else {
        assert(value_char(v[0]));
        let b1 = attr_step(b, v[0]);
        assert(b1 == (AttrState { value: b.value.push(v[0]), ..b }));
        assert forall|t: int| 0 <= t < v.drop_first().len() implies value_char(#[trigger] v.drop_first()[t]) by {
            assert(v.drop_first()[t] == v[t + 1]);
        }
        lemma_fold_value(b1, v.drop_first());
        assert(b.value.push(v[0]) + v.drop_first() =~= b.value + v);
    }
}

/// One attribute ` k="v"` as the laws write it.
pub open spec fn attr_text(k: Seq<char>, v: Seq<char>) -> Seq<char> {
    seq![' '] + k + seq!['=', '"'] + v + seq!['"']
}

/// Whether `k="v"` is written with characters the laws allow: ASCII throughout (the
/// parser looks `>` up by byte offset), no `>`, no `"` in the value, and no white
/// space, `=` or quote in the name.
pub open spec fn attr_ok(k: Seq<char>, v: Seq<char>) -> bool {
    &&& forall|t: int| 0 <= t < k.len() ==> name_char(#[trigger] k[t])
    &&& forall|t: int| 0 <= t < v.len() ==> value_char(#[trigger] v[t])
}

proof fn lemma_attr_one(a: AttrState, k: Seq<char>, v: Seq<char>)
    requires
        attr_clean(a),
        attr_ok(k, v),
    ensures
        attr_clean(attr_fold(a, attr_text(k, v))),
        attr_fold(a, attr_text(k, v)).attrs == assoc_insert(a.attrs, k, v),
{
    let sp = seq![' '];
    let eq = seq!['=', '"'];
    let q = seq!['"'];
    assert(attr_text(k, v) =~= sp + (k + (eq + (v + q))));
    lemma_attr_fold_concat(a, sp, k + (eq + (v + q)));
    assert(attr_fold(a, sp) == a) by {
        assert(is_ws(' '));
        assert(sp[0] == ' ');
        assert(sp.drop_first() =~= Seq::<char>::empty());
        assert(attr_step(a, ' ') == a);
        assert(attr_fold(attr_step(a, ' '), Seq::<char>::empty()) == attr_step(a, ' '));
    }
    lemma_attr_fold_concat(a, k, eq + (v + q));
    let a2 = if k.len() == 0 {
        a
    } else {
        AttrState { in_name: true, name: k, ..a }
    };
    if k.len() == 0 {
        assert(attr_fold(a, k) == a);
        assert(a.name =~= k);
    } else {
        assert(name_char(k[0]));
        assert(k =~= seq![k[0]] + k.drop_first());
        lemma_attr_fold_concat(a, seq![k[0]], k.drop_first());
        let a1 = attr_step(a, k[0]);
        assert(a1 == (AttrState { in_name: true, name: seq![k[0]], ..a })) by {
            assert(a.name.push(k[0]) =~= seq![k[0]]);
        }
        assert(attr_fold(a, seq![k[0]]) == a1) by {
            assert(seq![k[0]][0] == k[0]);
            assert(seq![k[0]].drop_first() =~= Seq::<char>::empty());
            assert(attr_fold(a1, Seq::<char>::empty()) == a1);
        }
        assert forall|t: int| 0 <= t < k.drop_first().len() implies name_char(#[trigger] k.drop_first()[t]) by {
            assert(k.drop_first()[t] == k[t + 1]);
        }
        lemma_fold_name(a1, k.drop_first());
        assert(seq![k[0]] + k.drop_first() =~= k);
        assert(attr_fold(a, k) == a2);
    }
    lemma_attr_fold_concat(a2, eq, v + q);
    let a3 = AttrState { in_name: false, in_value: true, quote: '"', name: k, ..a };
    assert(attr_fold(a2, eq) == a3) by {
        assert(eq[0] == '=');
        assert(eq.drop_first() =~= seq!['"']);
        let m = attr_step(a2, '=');
        assert(m == (AttrState { in_name: false, name: k, ..a }));
        assert(seq!['"'][0] == '"');
        assert(seq!['"'].drop_first() =~= Seq::<char>::empty());
        assert(attr_step(m, '"') == a3);
        assert(attr_fold(a3, Seq::<char>::empty()) == a3);
        assert(attr_fold(m, seq!['"']) == a3);
    }
    lemma_attr_fold_concat(a3, v, q);
    lemma_fold_value(a3, v);
    assert(a.value + v =~= v);
    let a4 = AttrState { value: v, ..a3 };
    assert(attr_fold(a3, v) == a4);
    assert(attr_fold(a4, q) == attr_step(a4, '"')) by {
        assert(q[0] == '"');
        assert(q.drop_first() =~= Seq::<char>::empty());
        assert(attr_fold(attr_step(a4, '"'), Seq::<char>::empty()) == attr_step(a4, '"'));
    }
}

/// Attributes ` k1="v1" k2="v2" ...` as the laws write them.
pub open spec fn attrs_text(l: Seq<(Seq<char>, Seq<char>)>) -> Seq<char>
    decreases l.len(),
{
    if l.len() == 0 {
        Seq::empty()
    } else {
        attrs_text(l.drop_last()) + attr_text(l.last().0, l.last().1)
    }
}

/// Whether each attribute is written as the laws allow, and no name comes twice.
pub open spec fn attrs_ok(l: Seq<(Seq<char>, Seq<char>)>) -> bool {
    &&& forall|i: int| 0 <= i < l.len() ==> attr_ok(#[trigger] l[i].0, l[i].1)
    &&& forall|i: int, j: int| 0 <= i < j < l.len() ==> #[trigger] l[i].0 != #[trigger] l[j].0
}

proof fn lemma_attrs_ok_prefix(l: Seq<(Seq<char>, Seq<char>)>)
    requires
        attrs_ok(l),
        l.len() > 0,
    ensures
        attrs_ok(l.drop_last()),
        attr_ok(l.last().0, l.last().1),
        forall|i: int| 0 <= i < l.drop_last().len() ==> #[trigger] l.drop_last()[i].0 != l.last().0,
{
    let p = l.drop_last();
    assert(attr_ok(l[l.len() - 1].0, l[l.len() - 1].1));
    assert forall|i: int| 0 <= i < p.len() implies attr_ok(#[trigger] p[i].0, p[i].1) by {
        assert(p[i] == l[i]);
        assert(attr_ok(l[i].0, l[i].1));
    }
    assert forall|i: int, j: int| 0 <= i < j < p.len() implies #[trigger] p[i].0 != #[trigger] p[j].0 by {
        assert(p[i] == l[i] && p[j] == l[j]);
        assert(l[i].0 != l[j].0);
    }
    assert forall|i: int| 0 <= i < p.len() implies #[trigger] p[i].0 != l.last().0 by {
        assert(p[i] == l[i]);
        assert(l[i].0 != l[l.len() - 1].0);
    }
}

proof fn lemma_attrs_fold(a: AttrState, l: Seq<(Seq<char>, Seq<char>)>)
    requires
        attr_clean(a),
        a.attrs.len() == 0,
        attrs_ok(l),
    ensures
        attr_clean(attr_fold(a, attrs_text(l))),
        attr_fold(a, attrs_text(l)).attrs == l,
    decreases l.len(),
{
    if l.len() == 0 {
        assert(a.attrs =~= l);
    } else {
        let p = l.drop_last();
        lemma_attrs_ok_prefix(l);
        lemma_attrs_fold(a, p);
        lemma_attr_fold_concat(a, attrs_text(p), attr_text(l.last().0, l.last().1));
        lemma_attr_one(attr_fold(a, attrs_text(p)), l.last().0, l.last().1);
        lemma_assoc_find_from_range(p, l.last().0, 0);
        assert(p.push(l.last()) =~= l);
    }
}

/// The characters of well-written attributes are ASCII and none is `>`; the first is
/// a space.
proof fn lemma_attrs_chars(l: Seq<(Seq<char>, Seq<char>)>)
    requires
        attrs_ok(l),
    ensures
        forall|t: int| 0 <= t < attrs_text(l).len() ==> (#[trigger] attrs_text(l)[t] as u32) < 0x80
            && attrs_text(l)[t] != '>',
        l.len() > 0 ==> attrs_text(l).len() > 0 && attrs_text(l)[0] == ' ',
    decreases l.len(),
{
    if l.len() > 0 {
        let p = l.drop_last();
        lemma_attrs_ok_prefix(l);
        lemma_attrs_chars(p);
        let k = l.last().0;
        let v = l.last().1;
        let x = attr_text(k, v);
        let pre = attrs_text(p);
        assert(attrs_text(l) == pre + x);
        assert forall|t: int| 0 <= t < x.len() implies (#[trigger] x[t] as u32) < 0x80 && x[t] != '>' by {
            if 1 <= t < 1 + k.len() {
                assert(x[t] == k[t - 1]);
                assert(name_char(k[t - 1]));
            } else if 3 + k.len() <= t < 3 + k.len() + v.len() {
                assert(x[t] == v[t - 3 - k.len()]);
                assert(value_char(v[t - 3 - k.len()]));
            }
        }
        assert forall|t: int| 0 <= t < attrs_text(l).len() implies (#[trigger] attrs_text(l)[t] as u32)
            < 0x80 && attrs_text(l)[t] != '>' by {
            if t < pre.len() {
                assert(attrs_text(l)[t] == pre[t]);
            } else {
                assert(attrs_text(l)[t] == x[t - pre.len()]);
            }
        }
        if p.len() == 0 {
            assert(pre.len() == 0);
            assert(attrs_text(l)[0] == x[0]);
        } else {
            assert(attrs_text(l)[0] == pre[0]);
        }
    }
}

proof fn lemma_consume_ascii(s: Seq<char>, st: ParseState, count: bool)
    requires
        0 <= st.i < s.len(),
        (s[st.i] as u32) < 0x80,
    ensures
        consume(s, st, count).i == st.i + 1,
        consume(s, st, count).pos == st.pos + 1,
{
}

proof fn lemma_skip_run(s: Seq<char>, st: ParseState, k: int)
    requires
        0 <= st.i <= k < s.len(),
        st.pos == st.i,
        forall|t: int| st.i <= t < k ==> s[t] != ' ' && s[t] != '>' && (s[t] as u32) < 0x80,
        s[k] == ' ' || s[k] == '>',
    ensures
        skip_name(s, st).i == k,
        skip_name(s, st).pos == k,
    decreases k - st.i,
{
    if st.i < k {
        lemma_consume_ascii(s, st, false);
        lemma_skip_run(s, consume(s, st, false), k);
    }
}

proof fn lemma_attr_loop_run(s: Seq<char>, st: ParseState, a: AttrState, k: int)
    requires
        0 <= st.i <= k < s.len(),
        st.pos == st.i,
        s[k] == '>',
        forall|t: int| st.i <= t < k ==> s[t] != '>' && (s[t] as u32) < 0x80,
    ensures
        attr_loop(s, st, a).0.i == k,
        attr_loop(s, st, a).0.pos == k,
        attr_loop(s, st, a).1 == attr_fold(a, s.subrange(st.i, k)),
    decreases k - st.i,
{
    if st.i < k {
        lemma_consume_ascii(s, st, false);
        lemma_attr_loop_run(s, consume(s, st, false), attr_step(a, s[st.i]), k);
        assert(s.subrange(st.i, k)[0] == s[st.i]);
        assert(s.subrange(st.i, k).drop_first() =~= s.subrange(st.i + 1, k));
    } else {
        assert(s.subrange(st.i, k) =~= Seq::<char>::empty());
    }
}

/// A `span` with attributes written ` k="v"` around text, as the laws write it.
pub open spec fn span_markup(l: Seq<(Seq<char>, Seq<char>)>, t: Seq<char>) -> Seq<char> {
    lit_span() + attrs_text(l) + seq!['>'] + t + lit_span_close()
}

/// A `span` whose attributes are well written (see `attrs_ok`; distinct names) around
/// text that holds no `</span>` reads as exactly one span tag with that text and those
/// attributes, in the order written.
pub proof fn law_span_alone(l: Seq<(Seq<char>, Seq<char>)>, t: Seq<char>)
    requires
        attrs_ok(l),
        closes_first(t, lit_span_close()),
    ensures
        parse_acc(span_markup(l, t), start_state(), Seq::empty()).0 == seq![
            SpecTag::Span { text: t, attributes: l },
        ],
{
    let a_t = attrs_text(l);
    let n = a_t.len() as int;
    let s = span_markup(l, t);
    let e = 6 + n + t.len();
    lemma_attrs_chars(l);
    assert(s.len() == e + 7);
    assert forall|x: int| 5 <= x < 5 + n implies s[x] == a_t[x - 5] by {}
    assert(s[5 + n] == '>');
    assert forall|x: int| 6 + n <= x < e implies s[x] == t[x - 6 - n] by {}
    assert(s.subrange(0, 5) =~= lit_span());
    assert(s[1] == 's');
    assert(s.subrange(0, 3)[1] == 's');
    assert(s.subrange(0, 4)[1] == 's');
    assert(!starts_at(s, 0, lit_b_open()));
    assert(!starts_at(s, 0, lit_i_open()));
    assert(!starts_at(s, 0, lit_u_open()));
    assert(!starts_at(s, 0, lit_img()));
    assert(starts_at(s, 0, lit_span()));
    // the tag's name
    assert forall|x: int| 0 <= x < 5 implies s[x] != ' ' && s[x] != '>' && (s[x] as u32) < 0x80 by {
        assert(s[x] == lit_span()[x]);
    }
    if n > 0 {
        assert(s[5] == a_t[0]);
    }
    lemma_skip_run(s, start_state(), 5);
    let st1 = skip_name(s, start_state());
    // the attributes
    assert forall|x: int| 5 <= x < 5 + n implies s[x] != '>' && (s[x] as u32) < 0x80 by {
        assert(s[x] == a_t[x - 5]);
    }
    lemma_attr_loop_run(s, st1, attr_init(), 5 + n);
    assert(s.subrange(5, 5 + n) =~= a_t);
    lemma_attrs_fold(attr_init(), l);
    let (st2, a) = attr_loop(s, st1, attr_init());
    assert(a.attrs == l);
    assert(char_at_is(s, st2.pos, '>'));
    let (st3, attrs) = tag_attrs(s, start_state());
    assert(st3.i == 6 + n);
    assert(attrs == l);
    let st4 = tag_end(s, st3);
    // the text and the closing tag
    assert(s.subrange(e, e + 7) =~= lit_span_close());
    let p = lit_span() + attrs_text(l) + seq!['>'];
    assert(s =~= p + t + lit_span_close());
    lemma_close_after_text(p, t, lit_span_close());
    let st5 = advance(s, st4, e, true);
    lemma_advance(s, st4, e, true);
    lemma_consume_lit_i(st5, lit_span_close(), 0, false);
    let fin = consume_lit(st5, lit_span_close(), 0, false);
    assert(fin.i == s.len());
    assert(s.subrange(6 + n, e) =~= t);
    let tag = SpecTag::Span { text: t, attributes: l };
    assert(parse_acc(s, fin, seq![tag]).0 == seq![tag]);
    assert(Seq::<SpecTag>::empty().push(tag) =~= seq![tag]);
}

// ----- lemmas on the steps -----------------------------------------------------------
pub proof fn lemma_advance(s: Seq<char>, st: ParseState, j: int, count: bool)
    requires
        0 <= st.i <= j <= s.len(),
    ensures
        advance(s, st, j, count).i == j,
    decreases j - st.i,
{
    if st.i < j {
        lemma_advance(s, consume(s, st, count), j, count);
    }
}

pub proof fn lemma_consume_lit_i(st: ParseState, m: Seq<char>, k: int, count: bool)
    requires
        0 <= k <= m.len(),
    ensures
        consume_lit(st, m, k, count).i == st.i + m.len() - k,
    decreases m.len() - k,
{
    if k < m.len() {
        lemma_consume_lit_i(step(st, m[k], count), m, k + 1, count);
    }
}

pub proof fn lemma_until_bounds(s: Seq<char>, i: int, m: Seq<char>)
    requires
        0 <= i <= s.len(),
    ensures
        i <= until(s, i, m) <= s.len(),
        until(s, i, m) == s.len() || starts_at(s, until(s, i, m), m),
    decreases s.len() - i,
{
    if i < s.len() && !starts_at(s, i, m) {
        lemma_until_bounds(s, i + 1, m);
    }
}

pub proof fn lemma_text_end_bounds(s: Seq<char>, i: int)
    requires
        0 <= i < s.len(),
        s[i] != '<',
    ensures
        i < text_end(s, i) <= s.len(),
        forall|k: int| i <= k < text_end(s, i) ==> s[k] != '<',
{
    lemma_text_end_rec(s, i + 1);
}

pub proof fn lemma_text_end_rec(s: Seq<char>, i: int)
    requires
        0 <= i <= s.len(),
    ensures
        i <= text_end(s, i) <= s.len(),
        forall|k: int| i <= k < text_end(s, i) ==> s[k] != '<',
        text_end(s, i) == s.len() || s[text_end(s, i)] == '<',
    decreases s.len() - i,
{
    if i < s.len() && s[i] != '<' {
        lemma_text_end_rec(s, i + 1);
    }
}

pub proof fn lemma_simple_tag_progress(s: Seq<char>, st: ParseState, open: Seq<char>, close: Seq<char>)
    requires
        0 <= st.i < s.len(),
        starts_at(s, st.i, open),
        open.len() == 3,
        close.len() <= 7,
    ensures
        st.i < simple_tag(s, st, open, close).1.i <= s.len() + 7,
        st.i + 3 <= until(s, st.i + 3, close) <= s.len(),
{
    let st1 = consume_lit(st, open, 0, false);
    lemma_consume_lit_i(st, open, 0, false);
    lemma_until_bounds(s, st1.i, close);
    let j = until(s, st1.i, close);
    lemma_advance(s, st1, j, true);
    let st2 = advance(s, st1, j, true);
    lemma_consume_lit_i(st2, close, 0, false);
}

pub proof fn lemma_skip_name(s: Seq<char>, st: ParseState)
    requires
        0 <= st.i <= s.len(),
    ensures
        st.i <= skip_name(s, st).i <= s.len(),
    decreases s.len() - st.i,
{
    if 0 <= st.i < s.len() && s[st.i] != ' ' && !char_at_is(s, st.pos, '>') {
        lemma_skip_name(s, consume(s, st, false));
    }
}

pub proof fn lemma_attr_loop(s: Seq<char>, st: ParseState, a: AttrState)
    requires
        0 <= st.i <= s.len(),
    ensures
        st.i <= attr_loop(s, st, a).0.i <= s.len(),
    decreases s.len() - st.i,
{
    if 0 <= st.i < s.len() && !char_at_is(s, st.pos, '>') {
        lemma_attr_loop(s, consume(s, st, false), attr_step(a, s[st.i]));
    }
}

pub proof fn lemma_tag_attrs_progress(s: Seq<char>, st: ParseState)
    requires
        0 <= st.i < s.len(),
        s[st.i] == '<',
    ensures
        st.i < tag_attrs(s, st).0.i <= s.len(),
{
    let st1 = skip_name(s, st);
    lemma_skip_name(s, st);
    lemma_attr_loop(s, st1, attr_init());
    if s[st.i] != ' ' && !char_at_is(s, st.pos, '>') {
        lemma_skip_name(s, consume(s, st, false));
    }
}

// ----- the parser ------------------------------------------------------------------------
/// A markup parser over one input string.
pub struct Parser {
    pos: usize,
    line: usize,
    column: usize,
    text_column: usize,
    input: String,
    chars: Vec<char>,
    idx: usize,
}

fn lit(v: Vec<char>) -> (r: Vec<char>)
    ensures
        r@ == v@,
{
    v
}

impl Parser {
    /// The input being parsed.
    pub closed spec fn source(&self) -> Seq<char> {
        self.input@
    }

    /// The parser's counters.
    pub closed spec fn state(&self) -> ParseState {
        ParseState {
            i: self.idx as int,
            pos: self.pos as int,
            line: self.line as int,
            column: self.column as int,
            text_column: self.text_column as int,
        }
    }

    /// The counters agree with the input read so far.
    pub closed spec fn wf(&self) -> bool {
        let s = self.chars@;
        let n = s.len() as int;
        &&& s == self.input@
        &&& self.idx <= n + 7
        &&& self.idx <= n ==> self.pos == byte_len(s.take(self.idx as int))
        &&& self.idx > n ==> self.pos == byte_len(s) + (self.idx - n)
        &&& self.line <= self.idx
        &&& self.column <= self.idx
        &&& self.text_column <= self.idx
    }

    /// The input is small enough for the byte offsets to fit in `usize`.
    pub open spec fn fits(&self) -> bool {
        byte_len(self.source()) + 8 <= usize::MAX
    }

    /// A parser at the start of `input`.
    pub fn new(input: String) -> (p: Self)
        ensures
            p.wf(),
            p.source() == input@,
            p.state() == (ParseState { i: 0, pos: 0, line: 0, column: 0, text_column: 0 }),
    {
        let chars = chars_of(input.as_str());
        let p = Parser { pos: 0, line: 0, column: 0, text_column: 0, input, chars, idx: 0 };
        assert(p.chars@.take(0) =~= Seq::<char>::empty());
        p
    }

    proof fn lemma_fits(&self)
        requires
            self.wf(),
            self.fits(),
        ensures
            self.chars@.len() + 8 <= usize::MAX,
            self.idx <= self.chars@.len() ==> self.pos <= byte_len(self.chars@),
    {
        lemma_byte_len_prefix(self.chars@, self.chars@.len() as int);
        assert(self.chars@.take(self.chars@.len() as int) =~= self.chars@);
        if self.idx <= self.chars@.len() {
            lemma_byte_len_prefix(self.chars@, self.idx as int);
        }
    }

    fn consume_char(&mut self, count: bool) -> (c: char)
        requires
            old(self).wf(),
            old(self).fits(),
            old(self).idx < old(self).chars@.len(),
        ensures
            final(self).wf(),
            final(self).source() == old(self).source(),
            final(self).state() == consume(old(self).source(), old(self).state(), count),
            c == old(self).source()[old(self).idx as int],
    {
        proof {
            self.lemma_fits();
            lemma_byte_len_take(self.chars@, self.idx as int);
            lemma_byte_len_prefix(self.chars@, self.idx + 1);
        }
        let c = self.chars[self.idx];
        let w = char_width(c);
        self.pos = self.pos + w;
        self.idx = self.idx + 1;
        if c == '\n' {
            self.line = self.line + 1;
            self.column = 0;
            if count {
                self.text_column = 0;
            }
        } else {
            self.column = self.column + 1;
            if count {
                self.text_column = self.text_column + 1;
            }
        }
        c
    }

    fn consume_str(&mut self, m: &Vec<char>, count: bool)
        requires
            old(self).wf(),
            old(self).fits(),
            m.len() <= 7,
            forall|k: int| 0 <= k < m@.len() ==> (m@[k] as u32) < 0x80,
            old(self).idx <= old(self).chars@.len(),
            starts_at(old(self).source(), old(self).idx as int, m@) || old(self).idx
                == old(self).chars@.len(),
        ensures
            final(self).wf(),
            final(self).source() == old(self).source(),
            final(self).state() == consume_lit(old(self).state(), m@, 0, count),
            final(self).idx == old(self).idx + m.len(),
    {
        let ghost s = self.chars@;
        let ghost n = s.len() as int;
        let ghost i0 = self.idx as int;
        let ghost st0 = self.state();
        proof {
            self.lemma_fits();
        }
        let mut k: usize = 0;
        while k < m.len()
            invariant
                self.wf(),
                self.fits(),
                self.chars@ == s,
                self.input@ == s,
                n == s.len(),
                k <= m.len(),
                m.len() <= 7,
                forall|j: int| 0 <= j < m@.len() ==> (m@[j] as u32) < 0x80,
                self.idx == i0 + k,
                0 <= i0 <= n,
                starts_at(s, i0, m@) || i0 == n,
                consume_lit(self.state(), m@, k as int, count) == consume_lit(st0, m@, 0, count),
                byte_len(s) + 8 <= usize::MAX,
                n + 8 <= usize::MAX,
            decreases m.len() - k,
        {
            let c = m[k];
            proof {
                if self.idx < n {
                    assert(s.subrange(i0, i0 + m@.len())[k as int] == s[i0 + k]);
                    lemma_byte_len_take(s, self.idx as int);
                    lemma_byte_len_prefix(s, self.idx + 1);
                } else {
                    assert(s.take(n) =~= s);
                }
            }
            self.pos = self.pos + 1;
            self.idx = self.idx + 1;
            if c == '\n' {
                self.line = self.line + 1;
                self.column = 0;
                if count {
                    self.text_column = 0;
                }
            } else {
                self.column = self.column + 1;
                if count {
                    self.text_column = self.text_column + 1;
                }
            }
            k = k + 1;
        }
    }

    fn starts_with_at(&self, m: &Vec<char>) -> (b: bool)
        requires
            self.wf(),
            self.idx <= self.chars@.len(),
        ensures
            b == starts_at(self.source(), self.idx as int, m@),
    {
        let n = self.chars.len();
        if m.len() > n - self.idx {
            return false;
        }
        let mut k: usize = 0;
        while k < m.len()
            invariant
                self.wf(),
                self.idx + m.len() <= n,
                n == self.chars@.len(),
                k <= m.len(),
                self.chars@.subrange(self.idx as int, self.idx + k) == m@.take(k as int),
            decreases m.len() - k,
        {
            if self.chars[self.idx + k] != m[k] {
                assert(self.chars@.subrange(self.idx as int, self.idx + m.len())[k as int]
                    != m@[k as int]);
                return false;
            }
            assert(self.chars@.subrange(self.idx as int, self.idx + k + 1) =~= self.chars@.subrange(
                self.idx as int,
                self.idx + k,
            ).push(m@[k as int]));
            assert(m@.take(k + 1) =~= m@.take(k as int).push(m@[k as int]));
            k = k + 1;
        }
        assert(m@.take(m.len() as int) =~= m@);
        true
    }

    fn char_at_pos_is(&self, c: char) -> (b: bool)
        requires
            self.wf(),
        ensures
            b == char_at_is(self.source(), self.pos as int, c),
    {
        self.pos < self.chars.len() && self.chars[self.pos] == c
    }

    fn parse_until(&mut self, m: &Vec<char>) -> (content: Vec<char>)
        requires
            old(self).wf(),
            old(self).fits(),
            old(self).idx <= old(self).chars@.len(),
        ensures
            final(self).wf(),
            final(self).source() == old(self).source(),
            final(self).idx == until(old(self).source(), old(self).idx as int, m@),
            final(self).state() == advance(
                old(self).source(),
                old(self).state(),
                until(old(self).source(), old(self).idx as int, m@),
                true,
            ),
            content@ == old(self).source().subrange(
                old(self).idx as int,
                until(old(self).source(), old(self).idx as int, m@),
            ),
    {
        let ghost s = self.chars@;
        let ghost i0 = self.idx as int;
        let ghost st0 = self.state();
        let ghost j = until(s, i0, m@);
        proof {
            lemma_until_bounds(s, i0, m@);
        }
        let mut content: Vec<char> = Vec::new();
        while self.idx < self.chars.len() && !self.starts_with_at(m)
            invariant
                self.wf(),
                self.fits(),
                self.chars@ == s,
                self.input@ == s,
                0 <= i0 <= self.idx <= j <= s.len(),
                until(s, self.idx as int, m@) == j,
                advance(s, self.state(), j, true) == advance(s, st0, j, true),
                content@ == s.subrange(i0, self.idx as int),
            decreases s.len() - self.idx,
        {
            let ghost k = self.idx as int;
            proof {
                lemma_until_bounds(s, self.idx + 1, m@);
            }
            proof {
                lemma_subrange_push(s, i0, k);
            }
            let c = self.consume_char(true);
            content.push(c);
        }
        content
    }

    fn update_position_for_tag_end(&mut self)
        requires
            old(self).wf(),
            old(self).fits(),
            old(self).idx <= old(self).chars@.len(),
        ensures
            final(self).wf(),
            final(self).source() == old(self).source(),
            final(self).state() == tag_end(old(self).source(), old(self).state()),
    {
        let ghost s = self.chars@;
        let mut nl: usize = 0;
        let mut col: usize = 0;
        let mut k: usize = 0;
        while k < self.idx
            invariant
                self.wf(),
                self.chars@ == s,
                self.idx <= s.len(),
                k <= self.idx,
                nl <= k,
                col <= k,
                nl == nl_count(s.take(k as int)),
                col == col_after(s.take(k as int)),
            decreases self.idx - k,
        {
            assert(s.take(k + 1).drop_last() =~= s.take(k as int));
            if self.chars[k] == '\n' {
                nl = nl + 1;
                col = 0;
            } else {
                col = col + 1;
            }
            k = k + 1;
        }
        if nl > 0 {
            self.line = nl;
        }
        self.column = col;
    }

    fn parse_tag_and_attributes(&mut self) -> (attrs: Attributes)
        requires
            old(self).wf(),
            old(self).fits(),
            old(self).idx < old(self).chars@.len(),
        ensures
            final(self).wf(),
            final(self).source() == old(self).source(),
            (final(self).state(), attrs@) == tag_attrs(old(self).source(), old(self).state()),
    {
        let ghost s = self.chars@;
        let ghost st0 = self.state();
        while self.idx < self.chars.len() && self.chars[self.idx] != ' ' && !self.char_at_pos_is(
            '>',
        )
            invariant
                self.wf(),
                self.fits(),
                self.chars@ == s,
                self.input@ == s,
                self.idx <= s.len(),
                skip_name(s, self.state()) == skip_name(s, st0),
            decreases s.len() - self.idx,
        {
            self.consume_char(false);
        }
        let ghost st1 = self.state();
        let mut in_name = false;
        let mut in_value = false;
        let mut name: Vec<char> = Vec::new();
        let mut value: Vec<char> = Vec::new();
        let mut quote = ' ';
        let mut attrs = Attributes::new();
        assert(name@ =~= Seq::<char>::empty());
        assert(value@ =~= Seq::<char>::empty());
        while self.idx < self.chars.len() && !self.char_at_pos_is('>')
            invariant
                self.wf(),
                self.fits(),
                self.chars@ == s,
                self.input@ == s,
                self.idx <= s.len(),
                attr_loop(
                    s,
                    self.state(),
                    AttrState {
                        in_name,
                        in_value,
                        name: name@,
                        value: value@,
                        quote,
                        attrs: attrs@,
                    },
                ) == attr_loop(s, st1, attr_init()),
            decreases s.len() - self.idx,
        {
            let ghost a0 = AttrState {
                in_name,
                in_value,
                name: name@,
                value: value@,
                quote,
                attrs: attrs@,
            };
            let c = self.consume_char(false);
            if in_value {
                if c == quote {
                    in_value = false;
                    attrs.insert(&name, &value);
                    name = Vec::new();
                    value = Vec::new();
                    assert(name@ =~= Seq::<char>::empty());
                    assert(value@ =~= Seq::<char>::empty());
                } else {
                    value.push(c);
                }
            } else if is_whitespace(c) {
                if in_name && name.len() > 0 {
                    in_name = false;
                }
            } else if c == '=' {
                in_name = false;
            } else if c == '"' || c == '\'' {
                in_value = true;
                quote = c;
            } else {
                if !in_name && name.len() == 0 {
                    in_name = true;
                }
                if in_name {
                    name.push(c);
                }
            }
            assert(AttrState {
                in_name,
                in_value,
                name: name@,
                value: value@,
                quote,
                attrs: attrs@,
            } == attr_step(a0, c));
        }
        if self.idx < self.chars.len() && self.char_at_pos_is('>') {
            self.consume_char(false);
        }
        attrs
    }

    /// Parses the rest of the input into tags.
    pub fn parse(&mut self) -> (result: Vec<Tag>)
        requires
            old(self).wf(),
            old(self).fits(),
        ensures
            final(self).wf(),
            final(self).source() == old(self).source(),
            (tags_view(result@), final(self).state()) == parse_acc(
                old(self).source(),
                old(self).state(),
                Seq::empty(),
            ),
    {
        let ghost s = self.chars@;
        let ghost st0 = self.state();
        let b_open = lit(vec!['<', 'b', '>']);
        let b_close = lit(vec!['<', '/', 'b', '>']);
        let i_open = lit(vec!['<', 'i', '>']);
        let i_close = lit(vec!['<', '/', 'i', '>']);
        let u_open = lit(vec!['<', 'u', '>']);
        let u_close = lit(vec!['<', '/', 'u', '>']);
        let img = lit(vec!['<', 'i', 'm', 'g']);
        let span = lit(vec!['<', 's', 'p', 'a', 'n']);
        let span_close = lit(vec!['<', '/', 's', 'p', 'a', 'n', '>']);
        let a = lit(vec!['<', 'a']);
        let a_close = lit(vec!['<', '/', 'a', '>']);
        let alt = lit(vec!['a', 'l', 't']);
        let src = lit(vec!['s', 'r', 'c']);
        let href = lit(vec!['h', 'r', 'e', 'f']);
        assert(b_open@ == lit_b_open() && b_close@ == lit_b_close() && i_open@ == lit_i_open()
            && i_close@ == lit_i_close() && u_open@ == lit_u_open() && u_close@ == lit_u_close()
            && img@ == lit_img() && span@ == lit_span() && span_close@ == lit_span_close() && a@
            == lit_a() && a_close@ == lit_a_close() && alt@ == key_alt() && src@ == key_src()
            && href@ == key_href());
        let mut result: Vec<Tag> = Vec::new();
        assert(tags_view(result@) =~= Seq::<SpecTag>::empty());
        while self.idx < self.chars.len()
            invariant
                self.wf(),
                self.fits(),
                self.chars@ == s,
                self.input@ == s,
                b_open@ == lit_b_open(),
                b_close@ == lit_b_close(),
                i_open@ == lit_i_open(),
                i_close@ == lit_i_close(),
                u_open@ == lit_u_open(),
                u_close@ == lit_u_close(),
                img@ == lit_img(),
                span@ == lit_span(),
                span_close@ == lit_span_close(),
                a@ == lit_a(),
                a_close@ == lit_a_close(),
                alt@ == key_alt(),
                src@ == key_src(),
                href@ == key_href(),
                parse_acc(s, self.state(), tags_view(result@)) == parse_acc(
                    s,
                    st0,
                    Seq::empty(),
                ),
            decreases s.len() + 8 - self.idx,
        {
            let ghost acc = tags_view(result@);
            let ghost st = self.state();
            let tag;
            if self.chars[self.idx] == '<' {
                if self.starts_with_at(&b_open) {
                    self.consume_str(&b_open, false);
                    let ghost i1 = self.idx as int;
                    proof {
                        lemma_consume_lit_i(st, b_open@, 0, false);
                        lemma_until_bounds(s, i1, b_close@);
                    }
                    let content = self.parse_until(&b_close);
                    self.consume_str(&b_close, false);
                    tag = Tag::Bold(string_of(&content));
                } else if self.starts_with_at(&i_open) {
                    self.consume_str(&i_open, false);
                    let ghost i1 = self.idx as int;
                    proof {
                        lemma_consume_lit_i(st, i_open@, 0, false);
                        lemma_until_bounds(s, i1, i_close@);
                    }
                    let content = self.parse_until(&i_close);
                    self.consume_str(&i_close, false);
                    tag = Tag::Italic(string_of(&content));
                } else if self.starts_with_at(&u_open) {
                    self.consume_str(&u_open, false);
                    let ghost i1 = self.idx as int;
                    proof {
                        lemma_consume_lit_i(st, u_open@, 0, false);
                        lemma_until_bounds(s, i1, u_close@);
                    }
                    let content = self.parse_until(&u_close);
                    self.consume_str(&u_close, false);
                    tag = Tag::Underline(string_of(&content));
                } else if self.starts_with_at(&img) {
                    let attrs = self.parse_tag_and_attributes();
                    proof {
                        lemma_tag_attrs_progress(s, st);
                    }
                    self.update_position_for_tag_end();
                    tag = Tag::Image { alt: attrs.get_or_empty(&alt), src: attrs.get_or_empty(&src) };
                } else if self.starts_with_at(&span) {
                    let attributes = self.parse_tag_and_attributes();
                    proof {
                        lemma_tag_attrs_progress(s, st);
                    }
                    self.update_position_for_tag_end();
                    let ghost i2 = self.idx as int;
                    proof {
                        lemma_until_bounds(s, i2, span_close@);
                    }
                    let content = self.parse_until(&span_close);
                    self.consume_str(&span_close, false);
                    tag = Tag::Span { text: string_of(&content), attributes };
                } else if self.starts_with_at(&a) {
                    let attrs = self.parse_tag_and_attributes();
                    proof {
                        lemma_tag_attrs_progress(s, st);
                    }
                    self.update_position_for_tag_end();
                    let position = Position {
                        line: self.line,
                        column: self.text_column,
                        offset: self.pos,
                    };
                    let ghost i2 = self.idx as int;
                    proof {
                        lemma_until_bounds(s, i2, a_close@);
                    }
                    let content = self.parse_until(&a_close);
                    self.consume_str(&a_close, false);
                    tag = Tag::Anchor { href: attrs.get_or_empty(&href), text: string_of(&content), position };
                } else {
                    let c = self.consume_char(true);
                    let one = vec![c];
                    assert(one@ =~= seq![s[st.i]]);
                    tag = Tag::Text(string_of(&one));
                }
            } else {
                let ghost i0 = self.idx as int;
                proof {
                    lemma_text_end_bounds(s, i0);
                    lemma_text_end_rec(s, i0);
                }
                let mut text: Vec<char> = Vec::new();
                while self.idx < self.chars.len() && self.chars[self.idx] != '<'
                    invariant
                        self.wf(),
                        self.fits(),
                        self.chars@ == s,
                        self.input@ == s,
                        0 <= i0 <= self.idx <= text_end(s, i0),
                        text_end(s, i0) <= s.len(),
                        forall|k: int| i0 <= k < text_end(s, i0) ==> s[k] != '<',
                        text_end(s, i0) == s.len() || s[text_end(s, i0)] == '<',
                        advance(s, self.state(), text_end(s, i0), true) == advance(
                            s,
                            st,
                            text_end(s, i0),
                            true,
                        ),
                        text@ == s.subrange(i0, self.idx as int),
                    decreases s.len() - self.idx,
                {
                    let c = self.consume_char(true);
                    text.push(c);
                    assert(text@ =~= s.subrange(i0, self.idx as int));
                }
                tag = Tag::Text(string_of(&text));
            }
            result.push(tag);
            assert(tags_view(result@) =~= acc.push(tag@));
        }
        result
    }
}

} // verus!
