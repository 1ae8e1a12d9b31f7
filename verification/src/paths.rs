use vstd::prelude::*;
use crate::text::{chars_of, push_all, string_from_chars, string_from_range};

verus! {

/// `base` joined with `rel` as `Path::join` does on Unix: an absolute `rel`
/// replaces `base`; otherwise `rel` follows `base`, with a `/` between them
/// unless `base` is empty or already ends in one.
pub open spec fn path_join(base: Seq<char>, rel: Seq<char>) -> Seq<char> {
    if rel.len() > 0 && rel[0] == '/' {
        rel
    } else if base.len() == 0 || base.last() == '/' {
        base + rel
    } else {
        base + seq!['/'] + rel
    }
}

/// Joins the path `rel` onto the path `base`.
pub fn join_path(base: &str, rel: &str) -> (r: String)
    ensures
        r@ == path_join(base@, rel@),
{
    let b = chars_of(base);
    let tail = chars_of(rel);
    if tail.len() > 0 && tail[0] == '/' {
        return string_from_chars(&tail);
    }
    let mut out = string_from_chars(&b);
    if b.len() > 0 && b[b.len() - 1] != '/' {
        out.push('/');
    }
    push_all(&mut out, &tail);
    out
}

/// Whether `path` starts with the two characters `~/`.
pub open spec fn starts_with_home(path: Seq<char>) -> bool {
    path.len() >= 2 && path[0] == '~' && path[1] == '/'
}

/// `path` with a leading `~/` replaced by the home directory `home`, when
/// there is one; any other path stays as it is.
pub open spec fn expanded_path(path: Seq<char>, home: Option<Seq<char>>) -> Seq<char> {
    if starts_with_home(path) && home is Some {
        path_join(home->0, path.skip(2))
    } else {
        path
    }
}

/// Whether `r` is what expanding a leading `~/` of `path` can give: `path`
/// itself, or, when `path` starts with `~/`, the rest of it joined onto some
/// home directory that is not empty.
pub open spec fn expands_to(path: Seq<char>, r: Seq<char>) -> bool {
    if starts_with_home(path) {
        r == path || exists|h: Seq<char>| h.len() > 0 && r == #[trigger] path_join(h, path.skip(2))
    } else {
        r == path
    }
}

/// The view of an optional string.
pub open spec fn opt_view(o: Option<String>) -> Option<Seq<char>> {
    match o {
        Some(s) => Some(s@),
        None => None,
    }
}

/// Replaces a leading `~/` of `path` by the home directory `home`.
pub fn expand_path_with(path: &str, home: Option<String>) -> (r: String)
    ensures
        r@ == expanded_path(path@, opt_view(home)),
{
    let v = chars_of(path);
    if v.len() >= 2 && v[0] == '~' && v[1] == '/' {
        match home {
            Some(h) => {
                let rest = string_from_range(&v, 2, v.len());
                assert(rest@ =~= path@.skip(2));
                return join_path(h.as_str(), rest.as_str());
            },
            None => {},
        }
    }
    string_from_chars(&v)
}

/// The current user's home directory, from `dirs::home_dir`.
///
/// On Linux and macOS it is `$HOME` when that is set and not empty, and
/// otherwise the home directory that `getpwuid_r` reports, or `None` when
/// that is missing or empty: so a directory that comes back is never empty.
/// Which directory it is depends on the environment and is not stated.
#[verifier::external_body]
pub(crate) fn home_dir() -> (r: Option<String>)
    ensures
        r matches Some(h) ==> h@.len() > 0,
{
    match dirs::home_dir() {
        Some(p) => Some(p.to_string_lossy().into_owned()),
        None => None,
    }
}

/// Whether a file or directory exists at `path`, from `Path::exists`.
/// It depends on what is on disk: nothing is stated of it.
#[verifier::external_body]
pub(crate) fn path_exists(path: &str) -> (r: bool) {
    std::path::Path::new(path).exists()
}

} // verus!
