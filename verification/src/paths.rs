//! Unix path rules used by the naming and configuration checks, over the
//! character view of a path.
use vstd::prelude::*;
use crate::text::{append, chars_of, has_prefix, owned, push_char, starts_with, str_eq};

verus! {

/// The path starts at the root directory (`Path::has_root`, and on Unix
/// also `Path::is_absolute`).
pub open spec fn has_root(s: Seq<char>) -> bool {
    s.len() > 0 && s[0] == '/'
}

/// A `..` component starts at position `i` of `s`.
pub open spec fn parent_segment_at(s: Seq<char>, i: int) -> bool {
    &&& 0 <= i
    &&& i + 1 < s.len()
    &&& s[i] == '.'
    &&& s[i + 1] == '.'
    &&& (i == 0 || s[i - 1] == '/')
    &&& (i + 2 == s.len() || s[i + 2] == '/')
}

/// Some component of `s` is `..` (a `Component::ParentDir`).
pub open spec fn has_parent_segment(s: Seq<char>) -> bool {
    exists|i: int| parent_segment_at(s, i)
}

/// `PathBuf::join` on Unix: an absolute `b` replaces `a`; otherwise `b` is
/// appended after a separator unless `a` is empty or already ends in one.
pub open spec fn join(a: Seq<char>, b: Seq<char>) -> Seq<char> {
    if has_root(b) {
        b
    } else if a.len() == 0 || a.last() == '/' {
        a + b
    } else {
        a + seq!['/'] + b
    }
}

/// `child` lies inside `base`, both being canonical paths (absolute, no `.`,
/// `..`, repeated or trailing separators): the components of `base` are a
/// prefix of those of `child`.
pub open spec fn inside(child: Seq<char>, base: Seq<char>) -> bool {
    ||| child == base
    ||| (base == seq!['/'] && has_root(child))
    ||| starts_with(child, base.push('/'))
}

/// The final component of a path without its extension (`Path::file_stem`).
pub uninterp spec fn file_stem(s: Seq<char>) -> Option<Seq<char>>;

/// The extension of a path (`Path::extension`).
pub uninterp spec fn extension(s: Seq<char>) -> Option<Seq<char>>;

/// The final component of a path (`Path::file_name`).
pub uninterp spec fn file_name(s: Seq<char>) -> Option<Seq<char>>;

/// A path without its final component (`Path::parent`).
pub uninterp spec fn parent(s: Seq<char>) -> Option<Seq<char>>;

/// `Path::with_extension`: the path with the extension of its file name
/// replaced by `ext` (removed when `ext` is empty).
pub uninterp spec fn with_extension(s: Seq<char>, ext: Seq<char>) -> Seq<char>;

/// Calls `Path::with_extension` and converts the result with
/// `to_string_lossy`. The result is named `with_extension`. The call panics
/// when `ext` holds a path separator, so such an `ext` is not admitted.
#[verifier::external_body]
pub(crate) fn path_with_extension(s: &str, ext: &str) -> (r: String)
    requires
        !ext@.contains('/'),
    ensures
        r@ == with_extension(s@, ext@),
{
    std::path::Path::new(s).with_extension(ext).to_string_lossy().to_string()
}

/// Calls `Path::file_stem`, converting the result with `to_string_lossy`.
/// The result is named `file_stem`; that it is free of lossy replacement
/// characters for non-UTF-8 names is not stated (a `&str` is always UTF-8).
#[verifier::external_body]
pub(crate) fn path_file_stem(s: &str) -> (r: Option<String>)
    ensures
        r matches Some(t) ==> file_stem(s@) == Some(t@),
        r is None ==> file_stem(s@) is None,
{
    std::path::Path::new(s).file_stem().map(|x| x.to_string_lossy().to_string())
}

/// Calls `Path::extension`, converting the result with `to_string_lossy`.
/// The result is named `extension`.
#[verifier::external_body]
pub(crate) fn path_extension(s: &str) -> (r: Option<String>)
    ensures
        r matches Some(t) ==> extension(s@) == Some(t@),
        r is None ==> extension(s@) is None,
{
    std::path::Path::new(s).extension().map(|x| x.to_string_lossy().to_string())
}

/// Calls `Path::file_name`, converting the result with `to_string_lossy`.
/// The result is named `file_name`.
#[verifier::external_body]
pub(crate) fn path_file_name(s: &str) -> (r: Option<String>)
    ensures
        r matches Some(t) ==> file_name(s@) == Some(t@),
        r is None ==> file_name(s@) is None,
{
    std::path::Path::new(s).file_name().map(|x| x.to_string_lossy().to_string())
}

/// Calls `Path::parent`, converting the result with `to_string_lossy`.
/// The result is named `parent`.
#[verifier::external_body]
pub(crate) fn path_parent(s: &str) -> (r: Option<String>)
    ensures
        r matches Some(t) ==> parent(s@) == Some(t@),
        r is None ==> parent(s@) is None,
{
    std::path::Path::new(s).parent().map(|x| x.to_string_lossy().to_string())
}

/// Whether `s` starts at the root directory.
pub fn is_rooted(s: &str) -> (r: bool)
    ensures
        r == has_root(s@),
{
    s.unicode_len() > 0 && s.get_char(0) == '/'
}

/// Whether some component of `s` is `..`.
pub fn contains_parent_segment(s: &str) -> (r: bool)
    ensures
        r == has_parent_segment(s@),
{
    let v = chars_of(s);
    let n = v.len();
    let mut i: usize = 0;
    while i < n
        invariant
            v@ == s@,
            n == v@.len(),
            i <= n,
            forall|k: int| 0 <= k < i ==> !parent_segment_at(s@, k),
        decreases n - i,
    {
        if i + 1 < n && v[i] == '.' && v[i + 1] == '.' && (i == 0 || v[i - 1] == '/') && (i + 2
            == n || v[i + 2] == '/') {
            assert(parent_segment_at(s@, i as int));
            return true;
        }
        i = i + 1;
    }
    assert forall|k: int| !parent_segment_at(s@, k) by {
        if 0 <= k < n {
        }
    }
    false
}

/// `a` joined with `b` (`Path::join` on Unix).
pub fn join_path(a: &str, b: &str) -> (r: String)
    ensures
        r@ == join(a@, b@),
{
    if is_rooted(b) {
        owned(b)
    } else {
        let n = a.unicode_len();
        let mut r = owned(a);
        if n > 0 && a.get_char(n - 1) != '/' {
            push_char(&mut r, '/');
            append(&mut r, b);
            assert(r@ =~= a@ + seq!['/'] + b@);
        } else {
            append(&mut r, b);
            assert(a@.len() == 0 || a@.last() == '/');
        }
        r
    }
}

/// Whether the canonical path `child` lies inside the canonical path `base`.
pub fn is_inside(child: &str, base: &str) -> (r: bool)
    ensures
        r == inside(child@, base@),
{
    if str_eq(child, base) {
        return true;
    }
    if str_eq(base, "/") {
        proof {
            reveal_strlit("/");
            assert("/"@.len() == 1);
            assert("/"@[0] == '/');
            assert("/"@ =~= seq!['/']);
        }
        let rooted = is_rooted(child);
        proof {
            if !rooted && base@.push('/').len() <= child@.len() {
                assert(child@.take(2)[0] != base@.push('/')[0]);
            }
        }
        return rooted;
    }
    proof {
        reveal_strlit("/");
        assert("/"@.len() == 1);
        assert("/"@[0] == '/');
        assert("/"@ =~= seq!['/']);
    }
    let mut with_sep = owned(base);
    push_char(&mut with_sep, '/');
    has_prefix(child, with_sep.as_str())
}

} // verus!
