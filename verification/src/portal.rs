//! What a link or path opened from a notification is: a URI for the portal, or a file
//! or directory (which only the file system can tell apart).
use crate::text::{starts_with, strip_prefix};
use vstd::prelude::*;

verus! {

/// What the portal is asked to open.
#[derive(PartialEq, Eq, Structural, Debug, Clone, Copy)]
pub enum TargetType {
    Uri,
    File,
    Directory,
}

/// `s` with every leading copy of `p` removed (`str::trim_start_matches`).
pub open spec fn trim_prefixes(s: Seq<char>, p: Seq<char>) -> Seq<char>
    decreases s.len(),
{
    if p.len() > 0 && starts_with(s, p) {
        trim_prefixes(s.skip(p.len() as int), p)
    } else {
        s
    }
}

/// Whether a target is a web or FTP address.
pub open spec fn is_remote(t: Seq<char>) -> bool {
    starts_with(t, "http://"@) || starts_with(t, "https://"@) || starts_with(t, "ftp://"@)
}

/// The local path that a target names: `None` for a web or FTP address, else the
/// target without its leading `file://` prefixes.
pub fn target_path(target: &str) -> (p: Option<String>)
    ensures
        is_remote(target@) ==> p is None,
        !is_remote(target@) ==> (p matches Some(path) && path@ == trim_prefixes(
            target@,
            "file://"@,
        )),
{
    if strip_prefix(target, "http://").is_some() || strip_prefix(target, "https://").is_some()
        || strip_prefix(target, "ftp://").is_some() {
        return None;
    }
    let mut cur: String = target.to_owned();
    loop
        invariant
            !is_remote(target@),
            trim_prefixes(cur@, "file://"@) == trim_prefixes(target@, "file://"@),
        decreases cur@.len(),
    {
        match strip_prefix(cur.as_str(), "file://") {
            Some(rest) => {
                proof {
                    reveal_strlit("file://");
                }
                cur = rest;
            },
            None => {
                return Some(cur);
            },
        }
    }
}

/// What to open for `target`; `local` is what the file system says of
/// `target_path(target)` where it is local: `None` where nothing is there, else
/// whether it is a directory.
pub fn detect_target_type(target: &str, local: Option<bool>) -> (t: Option<TargetType>)
    ensures
        is_remote(target@) ==> t == Some(TargetType::Uri),
        !is_remote(target@) ==> t == (match local {
            None => None,
            Some(true) => Some(TargetType::Directory),
            Some(false) => Some(TargetType::File),
        }),
{
    match target_path(target) {
        None => Some(TargetType::Uri),
        Some(_) => match local {
            None => None,
            Some(true) => Some(TargetType::Directory),
            Some(false) => Some(TargetType::File),
        },
    }
}

} // verus!
