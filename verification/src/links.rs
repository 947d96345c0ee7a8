//! The links of a notification body: those written as `<a>` tags, and web addresses
//! written as plain text, which a regular expression finds.
use crate::body::{anchor_view, tag_anchor, tag_style, Anchor};
use crate::markup::{tags_view, SpecTag, Tag};
use crate::text::{byte_len, chars_of, str_byte_len};
use vstd::prelude::*;

verus! {

/// The regular expression for web addresses in plain text: `http://`, `https://`,
/// `ftp://` or `www.` at the start of a word, in any case, then everything up to the
/// last end of a word before white space.
pub open spec fn url_pattern() -> Seq<char> {
    "(?i)\\b(https?://|ftp://|www\\.)\\S+\\b"@
}

/// The texts of the successive matches of `pattern` in `text`, as
/// `regex::Regex::find_iter` reports them; `None` where `pattern` does not compile.
pub uninterp spec fn regex_finds(pattern: Seq<char>, text: Seq<char>) -> Option<Seq<Seq<char>>>;

/// The pieces of `text` around the matches of `pattern`, as `regex::Regex::split`
/// yields them; `None` where `pattern` does not compile.
pub uninterp spec fn regex_splits(pattern: Seq<char>, text: Seq<char>) -> Option<Seq<Seq<char>>>;

/// The view of an optional list of strings.
pub open spec fn strings_view(r: Option<Vec<String>>) -> Option<Seq<Seq<char>>> {
    match r {
        Some(v) => Some(v@.map_values(|s: String| s@)),
        None => None,
    }
}

/// `regex::Regex::new` on `pattern`, then `Regex::find_iter` on `text`. The contract
/// claims only that the matched texts are `regex_finds(pattern, text)`, and `None`
/// exactly where the pattern does not compile.
#[verifier::external_body]
fn find_all(pattern: &str, text: &str) -> (r: Option<Vec<String>>)
    ensures
        strings_view(r) == regex_finds(pattern@, text@),
{
    match regex::Regex::new(pattern) {
        Ok(re) => Some(re.find_iter(text).map(|m| m.as_str().to_owned()).collect()),
        Err(_) => None,
    }
}

/// `regex::Regex::new` on `pattern`, then `Regex::split` on `text`. The contract
/// claims only that the pieces are `regex_splits(pattern, text)`, and `None` exactly
/// where the pattern does not compile.
#[verifier::external_body]
fn split_all(pattern: &str, text: &str) -> (r: Option<Vec<String>>)
    ensures
        strings_view(r) == regex_splits(pattern@, text@),
{
    match regex::Regex::new(pattern) {
        Ok(re) => Some(re.split(text).map(|piece| piece.to_owned()).collect()),
        Err(_) => None,
    }
}

/// The line and column reached from `p` once `t` is shown: a line break moves to
/// column 0 of the next line, any other character one column on (both wrapping).
pub open spec fn advance_pos(p: (usize, usize), t: Seq<char>) -> (usize, usize)
    decreases t.len(),
{
    if t.len() == 0 {
        p
    } else {
        let q = advance_pos(p, t.drop_last());
        if t.last() == '\n' {
            (q.0.wrapping_add(1), 0usize)
        } else {
            (q.0, q.1.wrapping_add(1))
        }
    }
}

/// The position after `t`, from `p`.
fn advance_over(p: (usize, usize), t: &str) -> (q: (usize, usize))
    ensures
        q == advance_pos(p, t@),
{
    let cs = chars_of(t);
    let mut q = p;
    let mut j: usize = 0;
    assert(cs@.take(0) =~= Seq::<char>::empty());
    while j < cs.len()
        invariant
            j <= cs.len(),
            cs@ == t@,
            q == advance_pos(p, cs@.take(j as int)),
        decreases cs.len() - j,
    {
        assert(cs@.take(j + 1).drop_last() =~= cs@.take(j as int));
        if cs[j] == '\n' {
            q = (q.0.wrapping_add(1), 0);
        } else {
            q = (q.0, q.1.wrapping_add(1));
        }
        j = j + 1;
    }
    assert(cs@.take(cs.len() as int) =~= cs@);
    q
}

/// A link as (target, line, first column, last column).
pub type LinkView = (Seq<char>, usize, usize, usize);

/// The links of the web addresses `u` of a plain text whose other pieces are `g`
/// (`g[k]` comes before `u[k]`), the text starting at `p`: each address is its own
/// target, and its last column is its first plus its byte length, minus one.
pub open spec fn url_links(g: Seq<Seq<char>>, u: Seq<Seq<char>>, p: (usize, usize)) -> Seq<LinkView>
    decreases u.len(),
{
    if u.len() == 0 || g.len() == 0 {
        Seq::empty()
    } else {
        let q = advance_pos(p, g[0]);
        seq![(u[0], q.0, q.1, q.1.wrapping_add(byte_len(u[0]) as usize).wrapping_sub(1))]
            + url_links(g.drop_first(), u.drop_first(), advance_pos(q, u[0]))
    }
}

/// The links of the web addresses in plain text `x` that starts at `p`.
pub open spec fn text_links(x: Seq<char>, p: (usize, usize)) -> Seq<LinkView> {
    match (regex_splits(url_pattern(), x), regex_finds(url_pattern(), x)) {
        (Some(g), Some(u)) => url_links(g, u, p),
        _ => Seq::empty(),
    }
}

/// The links of one tag shown from `p`: the web addresses of plain text, the target
/// of an `<a>` tag at the place the markup gives.
pub open spec fn tag_links(t: SpecTag, p: (usize, usize)) -> Seq<LinkView> {
    match t {
        SpecTag::Text(x) => text_links(x, p),
        _ => match tag_anchor(t) {
            Some(a) => seq![a],
            None => Seq::empty(),
        },
    }
}

/// The links of a body's tags in order, its shown text starting at `p`.
pub open spec fn links_of(tags: Seq<SpecTag>, p: (usize, usize)) -> Seq<LinkView>
    decreases tags.len(),
{
    if tags.len() == 0 {
        Seq::empty()
    } else {
        tag_links(tags[0], p) + links_of(tags.drop_first(), advance_pos(p, tag_style(tags[0]).0))
    }
}

/// The links of the web addresses `urls` of a plain text that starts at `p`, whose other
/// pieces are `pieces` (see `url_links`): what follows the regular expression's answer.
pub fn url_anchors(pieces: &Vec<String>, urls: &Vec<String>, p: (usize, usize)) -> (r: Vec<Anchor>)
    ensures
        r@.map_values(|a: Anchor| anchor_view(a)) == url_links(
            pieces@.map_values(|s: String| s@),
            urls@.map_values(|s: String| s@),
            p,
        ),
{
    let g = pieces;
    let u = urls;
    let mut out: Vec<Anchor> = Vec::new();
    let ghost gv = g@.map_values(|s: String| s@);
    let ghost uv = u@.map_values(|s: String| s@);
    let ghost goal = url_links(gv, uv, p);
    assert(gv.skip(0) =~= gv);
    assert(uv.skip(0) =~= uv);
    assert(out@.map_values(|a: Anchor| anchor_view(a)) =~= Seq::<LinkView>::empty());
    let mut pos = p;
    let mut k: usize = 0;
    while k < u.len() && k < g.len()
        invariant
            k <= u.len(),
            k <= g.len(),
            gv == g@.map_values(|s: String| s@),
            uv == u@.map_values(|s: String| s@),
            out@.map_values(|a: Anchor| anchor_view(a)) + url_links(gv.skip(k as int), uv.skip(k as int), pos)
                == goal,
        decreases u.len() - k,
    {
        let ghost before = out@.map_values(|a: Anchor| anchor_view(a));
        let ghost p0 = pos;
        let q = advance_over(pos, g[k].as_str());
        let len = str_byte_len(u[k].as_str());
        let a = Anchor {
            href: u[k].clone(),
            line: q.0,
            start: q.1,
            end: q.1.wrapping_add(len).wrapping_sub(1),
        };
        out.push(a);
        pos = advance_over(q, u[k].as_str());
        proof {
            assert(gv.skip(k as int)[0] == gv[k as int]);
            assert(uv.skip(k as int)[0] == uv[k as int]);
            assert(gv.skip(k as int).drop_first() =~= gv.skip(k + 1));
            assert(uv.skip(k as int).drop_first() =~= uv.skip(k + 1));
            assert(out@.map_values(|a: Anchor| anchor_view(a)) =~= before.push(anchor_view(a)));
            let rest = url_links(gv.skip(k + 1), uv.skip(k + 1), pos);
            assert(url_links(gv.skip(k as int), uv.skip(k as int), p0) == seq![anchor_view(a)] + rest);
            assert(before.push(anchor_view(a)) + rest =~= before + (seq![anchor_view(a)] + rest));
        }
        k = k + 1;
    }
    assert(url_links(gv.skip(k as int), uv.skip(k as int), pos) =~= Seq::<LinkView>::empty());
    assert(out@.map_values(|a: Anchor| anchor_view(a)) =~= goal);
    out
}

/// Appends the links of the web addresses in plain text `x` that starts at `p`.
fn push_text_links(out: &mut Vec<Anchor>, x: &String, p: (usize, usize))
    ensures
        final(out)@.map_values(|a: Anchor| anchor_view(a)) == old(out)@.map_values(
            |a: Anchor| anchor_view(a),
        ) + text_links(x@, p),
{
    let ghost start = old(out)@;
    let g = split_all("(?i)\\b(https?://|ftp://|www\\.)\\S+\\b", x.as_str());
    let u = find_all("(?i)\\b(https?://|ftp://|www\\.)\\S+\\b", x.as_str());
    match (g, u) {
        (Some(g), Some(u)) => {
            let mut more = url_anchors(&g, &u, p);
            let ghost m = more@;
            out.append(&mut more);
            assert(out@ =~= start + m);
            assert(out@.map_values(|a: Anchor| anchor_view(a)) =~= start.map_values(
                |a: Anchor| anchor_view(a),
            ) + m.map_values(|a: Anchor| anchor_view(a)));
        },
        _ => {
            assert(out@.map_values(|a: Anchor| anchor_view(a)) =~= start.map_values(
                |a: Anchor| anchor_view(a),
            ) + text_links(x@, p));
        },
    }
}

/// The text that a tag shows.
fn shown_text(t: &Tag) -> (x: &String)
    ensures
        x@ == tag_style(t@).0,
{
    match t {
        Tag::Bold(x) => x,
        Tag::Italic(x) => x,
        Tag::Underline(x) => x,
        Tag::Image { alt, src: _ } => alt,
        Tag::Anchor { href: _, text, position: _ } => text,
        Tag::Span { text, attributes: _ } => text,
        Tag::Text(x) => x,
    }
}

/// The links of a parsed body in order (see `links_of`): each `<a>` tag where the
/// markup puts it, and each web address in plain text at the line and column where it
/// is shown.
pub fn body_links(tags: &Vec<Tag>) -> (r: Vec<Anchor>)
    ensures
        r@.map_values(|a: Anchor| anchor_view(a)) == links_of(tags_view(tags@), (0usize, 0usize)),
{
    let ghost tv = tags_view(tags@);
    let ghost goal = links_of(tv, (0usize, 0usize));
    let mut r: Vec<Anchor> = Vec::new();
    let mut pos: (usize, usize) = (0, 0);
    let mut i: usize = 0;
    assert(tv.skip(0) =~= tv);
    assert(r@.map_values(|a: Anchor| anchor_view(a)) =~= Seq::<LinkView>::empty());
    while i < tags.len()
        invariant
            i <= tags.len(),
            tv == tags_view(tags@),
            goal == links_of(tv, (0usize, 0usize)),
            r@.map_values(|a: Anchor| anchor_view(a)) + links_of(tv.skip(i as int), pos) == goal,
        decreases tags.len() - i,
    {
        let ghost before = r@.map_values(|a: Anchor| anchor_view(a));
        let ghost t = tv[i as int];
        assert(t == tags@[i as int]@);
        match &tags[i] {
            Tag::Text(x) => {
                push_text_links(&mut r, x, pos);
            },
            Tag::Anchor { href, text, position } => {
                let len = str_byte_len(text.as_str());
                r.push(
                    Anchor {
                        href: href.clone(),
                        line: position.line,
                        start: position.column,
                        end: position.column.wrapping_add(len).wrapping_sub(1),
                    },
                );
                assert(r@.map_values(|a: Anchor| anchor_view(a)) =~= before + tag_links(t, pos));
            },
            _ => {
                assert(r@.map_values(|a: Anchor| anchor_view(a)) =~= before + tag_links(t, pos));
            },
        }
        let ghost p0 = pos;
        pos = advance_over(pos, shown_text(&tags[i]).as_str());
        proof {
            assert(tv.skip(i as int)[0] == t);
            assert(tv.skip(i as int).drop_first() =~= tv.skip(i + 1));
            let rest = links_of(tv.skip(i + 1), pos);
            assert(links_of(tv.skip(i as int), p0) == tag_links(t, p0) + rest);
            assert(before + tag_links(t, p0) + rest =~= before + (tag_links(t, p0) + rest));
        }
        i = i + 1;
    }
    assert(links_of(tv.skip(i as int), pos) =~= Seq::<LinkView>::empty());
    assert(r@.map_values(|a: Anchor| anchor_view(a)) =~= goal);
    r
}

} // verus!
