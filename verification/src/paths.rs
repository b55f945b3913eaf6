//! File system paths, as text, joined the way Unix paths are.
use vstd::prelude::*;

verus! {

/// Adjoins `p` to `base`: an absolute `p` (one that starts with `/`) replaces `base`; otherwise
/// `p` follows `base`, after a `/` unless `base` is empty or already ends with one.
pub open spec fn path_join(base: Seq<char>, p: Seq<char>) -> Seq<char> {
    if p.len() > 0 && p[0] == '/' {
        p
    } else if base.len() == 0 || base.last() == '/' {
        base + p
    } else {
        base + seq!['/'] + p
    }
}

/// The path `p` adjoined to `base`.
pub fn join(base: &str, p: &str) -> (r: String)
    ensures
        r@ == path_join(base@, p@),
{
    let plen = p.unicode_len();
    if plen > 0 && p.get_char(0) == '/' {
        return String::from_str(p);
    }
    let blen = base.unicode_len();
    let mut r = String::from_str(base);
    if blen == 0 || base.get_char(blen - 1) == '/' {
        r.append(p);
        r
    } else {
        let sep = "/";
        proof {
            reveal_strlit("/");
        }
        r.append(sep);
        r.append(p);
        proof {
            assert(r@ =~= base@ + seq!['/'] + p@);
        }
        r
    }
}

/// The last component of the path `p`, as `std::path::Path::file_name` finds it, where it has
/// one.
pub uninterp spec fn file_name_of(p: Seq<char>) -> Option<Seq<char>>;

/// Calls `std::path::Path::new(p).file_name()` and takes the name as text. Trusted: the outcome
/// is `file_name_of(p)`, a function of the text alone.
#[verifier::external_body]
pub(crate) fn path_file_name(p: &str) -> (r: Option<String>)
    ensures
        crate::configs::opt_view(r) == file_name_of(p@),
{
    match std::path::Path::new(p).file_name() {
        Some(n) => match n.to_str() {
            Some(t) => Some(t.to_owned()),
            None => None,
        },
        None => None,
    }
}

/// Whether `p` is among `paths`.
pub fn contains_path(paths: &Vec<String>, p: &String) -> (r: bool)
    ensures
        r == exists|i: int| 0 <= i < paths@.len() && #[trigger] paths@[i]@ == p@,
{
    let mut i: usize = 0;
    while i < paths.len()
        invariant
            i <= paths@.len(),
            forall|j: int| 0 <= j < i ==> #[trigger] paths@[j]@ != p@,
        decreases paths.len() - i,
    {
        if string_eq(&paths[i], p) {
            return true;
        }
        i = i + 1;
    }
    false
}

/// Whether two strings are equal.
pub fn string_eq(a: &String, b: &String) -> (r: bool)
    ensures
        r == (a@ == b@),
{
    a.eq(b)
}

/// The paths that exist: `p` is one of them.
pub open spec fn listed(paths: Seq<String>, p: Seq<char>) -> bool {
    exists|i: int| 0 <= i < paths.len() && #[trigger] paths[i]@ == p
}

} // verus!
