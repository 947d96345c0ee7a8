//! Caches of decoded icons (per icon theme and file) and of decoded sounds (per file):
//! what was stored under a key is what a later read of that key gives back.
use crate::notification::{same_pixels, ImageData};
use crate::text::str_eq;
use vstd::prelude::*;

verus! {

/// Index of the first entry stored under `(theme, path)` from `j` on; the length if none.
pub open spec fn icon_index(e: Seq<(String, String, ImageData)>, theme: Seq<char>, path: Seq<char>, j: int) -> int
    decreases e.len() - j,
{
    if j < 0 || j >= e.len() {
        e.len() as int
    } else if e[j].0@ == theme && e[j].1@ == path {
        j
    } else {
        icon_index(e, theme, path, j + 1)
    }
}

/// The icon stored under `(theme, path)`.
pub open spec fn icon_lookup(e: Seq<(String, String, ImageData)>, theme: Seq<char>, path: Seq<char>) -> Option<ImageData> {
    let i = icon_index(e, theme, path, 0);
    if 0 <= i < e.len() {
        Some(e[i].2)
    } else {
        None
    }
}

/// Decoded icons, per icon theme and file.
#[derive(Debug, Default)]
pub struct Cache {
    entries: Vec<(String, String, ImageData)>,
}

impl Cache {
    /// The stored entries.
    pub closed spec fn contents(&self) -> Seq<(String, String, ImageData)> {
        self.entries@
    }

    /// An empty cache.
    pub fn new() -> (c: Cache)
        ensures
            forall|t: Seq<char>, p: Seq<char>| icon_lookup(c.contents(), t, p) is None,
    {
        Cache { entries: Vec::new() }
    }

    fn index(&self, theme: &str, icon_path: &str) -> (i: usize)
        ensures
            i == icon_index(self.contents(), theme@, icon_path@, 0),
    {
        let mut j: usize = 0;
        while j < self.entries.len()
            invariant
                j <= self.entries.len(),
                icon_index(self.contents(), theme@, icon_path@, 0) == icon_index(
                    self.contents(),
                    theme@,
                    icon_path@,
                    j as int,
                ),
            decreases self.entries.len() - j,
        {
            if str_eq(self.entries[j].0.as_str(), theme) && str_eq(
                self.entries[j].1.as_str(),
                icon_path,
            ) {
                return j;
            }
            j = j + 1;
        }
        j
    }

    /// Stores `data` under `(theme, icon_path)`, in place of what was stored there.
    pub fn insert(&mut self, theme: &str, icon_path: &str, data: ImageData)
        ensures
            icon_lookup(final(self).contents(), theme@, icon_path@) == Some(data),
            forall|t: Seq<char>, p: Seq<char>|
                !(t == theme@ && p == icon_path@) ==> #[trigger] icon_lookup(
                    final(self).contents(),
                    t,
                    p,
                ) == icon_lookup(old(self).contents(), t, p),
    {
        let i = self.index(theme, icon_path);
        proof {
            lemma_icon_index_range(self.contents(), theme@, icon_path@, 0);
        }
        let ghost old_e = self.entries@;
        proof {
            lemma_icon_index_before(old_e, theme@, icon_path@, 0);
        }
        if i < self.entries.len() {
            self.entries[i] = (theme.to_owned(), icon_path.to_owned(), data);
        } else {
            self.entries.push((theme.to_owned(), icon_path.to_owned(), data));
        }
        proof {
            let e = self.entries@;
            lemma_icon_index_at(e, theme@, icon_path@, i as int);
            assert forall|t: Seq<char>, p: Seq<char>|
                !(t == theme@ && p == icon_path@) implies #[trigger] icon_lookup(e, t, p)
                == icon_lookup(old_e, t, p) by {
                lemma_same_matches(old_e, e, t, p, 0);
                lemma_icon_index_range(old_e, t, p, 0);
                lemma_icon_index_range(e, t, p, 0);
            }
        }
    }

    /// The icon stored under `(theme, icon_path)`, copied.
    pub fn get(&self, theme: &str, icon_path: &str) -> (r: Option<ImageData>)
        ensures
            match (r, icon_lookup(self.contents(), theme@, icon_path@)) {
                (Some(a), Some(b)) => same_pixels(a, b),
                (None, None) => true,
                _ => false,
            },
    {
        let i = self.index(theme, icon_path);
        proof {
            lemma_icon_index_range(self.contents(), theme@, icon_path@, 0);
        }
        if i < self.entries.len() {
            Some(self.entries[i].2.copy())
        } else {
            None
        }
    }
}

proof fn lemma_icon_index_range(e: Seq<(String, String, ImageData)>, t: Seq<char>, p: Seq<char>, j: int)
    requires
        0 <= j,
    ensures
        icon_index(e, t, p, j) <= e.len(),
        j <= e.len() ==> j <= icon_index(e, t, p, j),
        icon_index(e, t, p, j) < e.len() ==> e[icon_index(e, t, p, j)].0@ == t && e[icon_index(
            e,
            t,
            p,
            j,
        )].1@ == p,
    decreases e.len() - j,
{
    if j < e.len() && !(e[j].0@ == t && e[j].1@ == p) {
        lemma_icon_index_range(e, t, p, j + 1);
    }
}

proof fn lemma_icon_index_before(e: Seq<(String, String, ImageData)>, t: Seq<char>, p: Seq<char>, j: int)
    requires
        0 <= j,
    ensures
        forall|k: int| j <= k < icon_index(e, t, p, j) && k < e.len() ==> !(e[k].0@ == t && e[k].1@ == p),
    decreases e.len() - j,
{
    if j < e.len() && !(e[j].0@ == t && e[j].1@ == p) {
        lemma_icon_index_before(e, t, p, j + 1);
    }
}

/// After storing at `i` (the first entry of its key, or a new last entry), that key is
/// found at `i`.
proof fn lemma_icon_index_at(e: Seq<(String, String, ImageData)>, t: Seq<char>, p: Seq<char>, i: int)
    requires
        0 <= i < e.len(),
        e[i].0@ == t && e[i].1@ == p,
        forall|k: int| 0 <= k < i ==> !(e[k].0@ == t && e[k].1@ == p),
    ensures
        icon_index(e, t, p, 0) == i,
{
    lemma_icon_index_at_from(e, t, p, i, 0);
}

proof fn lemma_icon_index_at_from(e: Seq<(String, String, ImageData)>, t: Seq<char>, p: Seq<char>, i: int, j: int)
    requires
        0 <= j <= i < e.len(),
        e[i].0@ == t && e[i].1@ == p,
        forall|k: int| 0 <= k < i ==> !(e[k].0@ == t && e[k].1@ == p),
    ensures
        icon_index(e, t, p, j) == i,
    decreases i - j,
{
    if j < i {
        lemma_icon_index_at_from(e, t, p, i, j + 1);
    }
}

/// Where `b` extends `a` with entries that match `(t, p)` exactly where `a`'s do, and
/// none beyond, `(t, p)` is found at the same place.
proof fn lemma_same_matches(
    a: Seq<(String, String, ImageData)>,
    b: Seq<(String, String, ImageData)>,
    t: Seq<char>,
    p: Seq<char>,
    j: int,
)
    requires
        0 <= j,
        a.len() <= b.len(),
        forall|k: int|
            0 <= k < a.len() ==> ((b[k].0@ == t && b[k].1@ == p) == (a[k].0@ == t && a[k].1@ == p)),
        forall|k: int| a.len() <= k < b.len() ==> !(b[k].0@ == t && b[k].1@ == p),
    ensures
        icon_index(a, t, p, j) < a.len() ==> icon_index(b, t, p, j) == icon_index(a, t, p, j),
        icon_index(a, t, p, j) >= a.len() ==> icon_index(b, t, p, j) >= b.len(),
    decreases b.len() - j,
{
    if j < b.len() {
        lemma_same_matches(a, b, t, p, j + 1);
    }
}

/// Index of the first sound stored under `path`; the length if none.
pub open spec fn sound_index<V>(e: Seq<(String, V)>, path: Seq<char>, j: int) -> int
    decreases e.len() - j,
{
    if j < 0 || j >= e.len() {
        e.len() as int
    } else if e[j].0@ == path {
        j
    } else {
        sound_index(e, path, j + 1)
    }
}

/// The sound stored under `path`.
pub open spec fn sound_lookup<V>(e: Seq<(String, V)>, path: Seq<char>) -> Option<V> {
    let i = sound_index(e, path, 0);
    if 0 <= i < e.len() {
        Some(e[i].1)
    } else {
        None
    }
}


/// Decoded sounds, per file.
#[derive(Debug)]
pub struct SoundCache<V> {
    entries: Vec<(String, V)>,
}

proof fn lemma_sound_index_range<V>(e: Seq<(String, V)>, p: Seq<char>, j: int)
    requires
        0 <= j,
    ensures
        sound_index(e, p, j) <= e.len(),
        j <= e.len() ==> j <= sound_index(e, p, j),
        sound_index(e, p, j) < e.len() ==> e[sound_index(e, p, j)].0@ == p,
        forall|k: int| j <= k < sound_index(e, p, j) && k < e.len() ==> e[k].0@ != p,
    decreases e.len() - j,
{
    if j < e.len() && e[j].0@ != p {
        lemma_sound_index_range(e, p, j + 1);
    }
}

proof fn lemma_sound_index_at<V>(e: Seq<(String, V)>, p: Seq<char>, i: int, j: int)
    requires
        0 <= j <= i < e.len(),
        e[i].0@ == p,
        forall|k: int| 0 <= k < i ==> e[k].0@ != p,
    ensures
        sound_index(e, p, j) == i,
    decreases i - j,
{
    if j < i {
        lemma_sound_index_at(e, p, i, j + 1);
    }
}

proof fn lemma_sound_same_matches<V>(a: Seq<(String, V)>, b: Seq<(String, V)>, p: Seq<char>, j: int)
    requires
        0 <= j,
        a.len() <= b.len(),
        forall|k: int| 0 <= k < a.len() ==> ((b[k].0@ == p) == (a[k].0@ == p)),
        forall|k: int| a.len() <= k < b.len() ==> b[k].0@ != p,
    ensures
        sound_index(a, p, j) < a.len() ==> sound_index(b, p, j) == sound_index(a, p, j),
        sound_index(a, p, j) >= a.len() ==> sound_index(b, p, j) >= b.len(),
    decreases b.len() - j,
{
    if j < b.len() {
        lemma_sound_same_matches(a, b, p, j + 1);
    }
}

impl<V> SoundCache<V> {
    /// The stored entries.
    pub closed spec fn contents(&self) -> Seq<(String, V)> {
        self.entries@
    }

    /// An empty cache.
    pub fn new() -> (c: SoundCache<V>)
        ensures
            forall|p: Seq<char>| sound_lookup(c.contents(), p) is None,
    {
        SoundCache { entries: Vec::new() }
    }

    fn index(&self, path: &str) -> (i: usize)
        ensures
            i == sound_index(self.contents(), path@, 0),
    {
        let mut j: usize = 0;
        while j < self.entries.len()
            invariant
                j <= self.entries.len(),
                sound_index(self.contents(), path@, 0) == sound_index(self.contents(), path@, j as int),
            decreases self.entries.len() - j,
        {
            if str_eq(self.entries[j].0.as_str(), path) {
                return j;
            }
            j = j + 1;
        }
        j
    }

    /// Stores `data` under `path`, in place of what was stored there.
    pub fn insert(&mut self, path: &str, data: V)
        ensures
            sound_lookup(final(self).contents(), path@) == Some(data),
            forall|p: Seq<char>|
                p != path@ ==> #[trigger] sound_lookup(final(self).contents(), p) == sound_lookup(
                    old(self).contents(),
                    p,
                ),
    {
        let i = self.index(path);
        let ghost old_e = self.entries@;
        proof {
            lemma_sound_index_range(old_e, path@, 0);
        }
        if i < self.entries.len() {
            self.entries[i] = (path.to_owned(), data);
        } else {
            self.entries.push((path.to_owned(), data));
        }
        proof {
            let e = self.entries@;
            lemma_sound_index_at(e, path@, i as int, 0);
            assert forall|p: Seq<char>| p != path@ implies #[trigger] sound_lookup(e, p)
                == sound_lookup(old_e, p) by {
                lemma_sound_same_matches(old_e, e, p, 0);
                lemma_sound_index_range(old_e, p, 0);
                lemma_sound_index_range(e, p, 0);
            }
        }
    }

    /// The sound stored under `path`.
    pub fn get(&self, path: &str) -> (r: Option<&V>)
        ensures
            match (r, sound_lookup(self.contents(), path@)) {
                (Some(a), Some(b)) => *a == b,
                (None, None) => true,
                _ => false,
            },
    {
        let i = self.index(path);
        proof {
            lemma_sound_index_range(self.contents(), path@, 0);
        }
        if i < self.entries.len() {
            Some(&self.entries[i].1)
        } else {
            None
        }
    }
}

} // verus!
