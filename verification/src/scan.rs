//! Which directory entries count as articles: hidden entries (name starting
//! with a dot) are skipped outright, directories are descended into, and
//! files qualify only with a markdown extension.

use crate::numfmt::{dec_str, i32_to_string};
use vstd::prelude::*;

verus! {

/// Position `j` holds the path's last separator.
pub open spec fn is_last_slash(s: Seq<char>, j: int) -> bool {
    0 <= j < s.len() && s[j] == '/' && (forall|k: int| j < k < s.len() ==> s[k] != '/')
}

/// Position `b` begins the path segment that ends at `j`.
pub open spec fn is_seg_start(s: Seq<char>, j: int, b: int) -> bool {
    0 <= b <= j && (b == 0 || s[b - 1] == '/') && (forall|k: int| b <= k < j ==> s[k] != '/')
}

/// The name of the directory that directly holds a relative slash-separated
/// path: the segment before the last separator. A path without separators
/// lies directly under the article root, whose own name is the fallback.
pub fn category_of(path: &str, root_name: &str) -> (r: String)
    ensures
        (forall|k: int| 0 <= k < path@.len() ==> path@[k] != '/') ==> r@ == root_name@,
        forall|j: int|
            #[trigger] is_last_slash(path@, j) ==> exists|b: int|
                is_seg_start(path@, j, b) && r@ == path@.subrange(b, j),
{
    let n = path.unicode_len();
    let mut last: usize = n;
    let mut i: usize = 0;
    while i < n
        invariant
            n == path@.len(),
            i <= n,
            last <= n,
            last == n ==> forall|k: int| 0 <= k < i ==> path@[k] != '/',
            last < n ==> last < i && path@[last as int] == '/' && (forall|k: int|
                last < k < i ==> path@[k] != '/'),
        decreases n - i,
    {
        if path.get_char(i) == '/' {
            last = i;
        }
        i += 1;
    }
    if last == n {
        proof {
            assert forall|j: int| !is_last_slash(path@, j) by {
                if 0 <= j < path@.len() {
                    assert(path@[j] != '/');
                }
            }
        }
        return root_name.to_owned();
    }
    let mut start: usize = 0;
    let mut k: usize = 0;
    while k < last
        invariant
            n == path@.len(),
            last < n,
            path@[last as int] == '/',
            forall|q: int| last < q < n ==> path@[q] != '/',
            k <= last,
            start == 0 || (start <= k && path@[start - 1] == '/'),
            forall|q: int| start <= q < k ==> path@[q] != '/',
        decreases last - k,
    {
        if path.get_char(k) == '/' {
            start = k + 1;
        }
        k += 1;
    }
    let seg = path.substring_char(start, last);
    proof {
        assert(is_last_slash(path@, last as int));
        assert(is_seg_start(path@, last as int, start as int));
        assert forall|j: int| #[trigger] is_last_slash(path@, j) implies exists|b: int|
            is_seg_start(path@, j, b) && seg@ == path@.subrange(b, j) by {
            assert(j == last as int);
        }
    }
    seg.to_owned()
}

/// The last segment of a relative slash-separated path: the file's own
/// name, which becomes the post title.
pub fn file_name_of(path: &str) -> (r: String)
    ensures
        (forall|k: int| 0 <= k < path@.len() ==> path@[k] != '/') ==> r@ == path@,
        forall|j: int|
            #[trigger] is_last_slash(path@, j) ==> r@ == path@.subrange(j + 1, path@.len() as int),
{
    let n = path.unicode_len();
    let mut last: usize = n;
    let mut i: usize = 0;
    while i < n
        invariant
            n == path@.len(),
            i <= n,
            last <= n,
            last == n ==> forall|k: int| 0 <= k < i ==> path@[k] != '/',
            last < n ==> last < i && path@[last as int] == '/' && (forall|k: int|
                last < k < i ==> path@[k] != '/'),
        decreases n - i,
    {
        if path.get_char(i) == '/' {
            last = i;
        }
        i += 1;
    }
    if last == n {
        proof {
            assert forall|j: int| !is_last_slash(path@, j) by {
                if 0 <= j < path@.len() {
                    assert(path@[j] != '/');
                }
            }
        }
        return path.to_owned();
    }
    let tail = path.substring_char(last + 1, n);
    proof {
        assert(is_last_slash(path@, last as int));
        assert forall|j: int| #[trigger] is_last_slash(path@, j) implies tail@ == path@.subrange(
            j + 1,
            path@.len() as int,
        ) by {
            assert(j == last as int);
        }
    }
    tail.to_owned()
}

/// The name a quarantined file takes in the deletion directory: the retired
/// post's identifier in decimal, then the original file name, so distinct
/// posts never collide.
pub fn quarantine_file_name(postid: i32, file_name: &str) -> (r: String)
    ensures
        r@ == dec_str(postid as int) + file_name@,
{
    let mut out = i32_to_string(postid);
    out.append(file_name);
    out
}

/// The quarantine directory's fixed name, a hidden sibling under the
/// article root's parent.
pub fn quarantine_dir_name() -> (r: String)
    ensures
        r@ == ".cnblog_deleted"@,
{
    String::from_str(".cnblog_deleted")
}

/// An entry name is hidden when it starts with the hidden-file marker.
pub open spec fn spec_hidden(name: Seq<char>) -> bool {
    name.len() > 0 && name[0] == '.'
}

/// A name carries one of the recognized article extensions exactly when it
/// ends in ".md" or ".markdown": the dot of that suffix is then the last dot
/// of the name, so the suffix is the extension.
pub open spec fn spec_markdown_ext(name: Seq<char>) -> bool {
    ends_with_spec(name, ".md"@) || ends_with_spec(name, ".markdown"@)
}

/// The last characters of `s` are exactly `suffix`.
pub open spec fn ends_with_spec(s: Seq<char>, suffix: Seq<char>) -> bool {
    s.len() >= suffix.len() && s.subrange(s.len() - suffix.len(), s.len() as int) == suffix
}

/// Whether `s` ends with `suffix`.
pub fn str_ends_with(s: &str, suffix: &str) -> (r: bool)
    ensures
        r == ends_with_spec(s@, suffix@),
{
    let n = s.unicode_len();
    let m = suffix.unicode_len();
    if n < m {
        return false;
    }
    let mut i: usize = 0;
    while i < m
        invariant
            m <= n,
            n == s@.len(),
            m == suffix@.len(),
            i <= m,
            forall|k: int| 0 <= k < i ==> s@[n - m + k] == suffix@[k],
        decreases m - i,
    {
        if s.get_char(n - m + i) != suffix.get_char(i) {
            assert(s@[n - m + i] != suffix@[i as int]);
            assert(!ends_with_spec(s@, suffix@)) by {
                if ends_with_spec(s@, suffix@) {
                    assert(s@.subrange(s@.len() - suffix@.len(), s@.len() as int)[i as int]
                        == suffix@[i as int]);
                }
            }
            return false;
        }
        i += 1;
    }
    proof {
        assert(s@.subrange(s@.len() - suffix@.len(), s@.len() as int) =~= suffix@);
    }
    true
}

/// The scanner's filter: an entry passes when its name is not hidden and it
/// is either a directory (to descend into) or a markdown article file.
pub fn is_not_hidden_and_is_markdown(name: &str, is_dir: bool) -> (r: bool)
    ensures
        r == (!spec_hidden(name@) && (is_dir || spec_markdown_ext(name@))),
{
    if name.unicode_len() > 0 && name.get_char(0) == '.' {
        return false;
    }
    if is_dir {
        return true;
    }
    str_ends_with(name, ".md") || str_ends_with(name, ".markdown")
}

} // verus!
