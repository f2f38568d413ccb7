//! Paths as texts.
use crate::text::{chars_of, is_lower, is_upper};
use vstd::prelude::*;

verus! {

/// How the system of this program writes paths.
#[derive(Debug, Clone, Copy, PartialEq, Eq, Structural)]
pub enum PathStyle {
    /// With slashes.
    Unix,
    /// With backslashes. A slash separates as well.
    Windows,
}

/// Whether a path names no more than a drive.
pub open spec fn is_drive(s: Seq<char>) -> bool {
    s.len() == 2 && (is_lower(s[0]) || is_upper(s[0])) && s[1] == ':'
}

/// A path with slashes and a name below it: a slash goes between them unless the path is empty or
/// ends in one.
pub open spec fn path_join(base: Seq<char>, name: Seq<char>) -> Seq<char> {
    if base.len() == 0 || base.last() == '/' {
        base + name
    } else {
        base + seq!['/'] + name
    }
}

/// Puts a relative name below a path with slashes.
pub fn join_path(base: &str, name: &str) -> (r: String)
    ensures
        r@ == path_join(base@, name@),
{
    let chars = chars_of(base);
    let mut out = base.to_owned();
    if chars.len() > 0 && chars[chars.len() - 1] != '/' {
        out.push('/');
        assert(out@ =~= base@ + seq!['/']);
    }
    out.push_str(name);
    out
}

/// A path of this program's system and a relative name below it. On Windows a backslash goes
/// between them, unless the path is empty, ends in a separator or names no more than a drive.
pub open spec fn local_join(style: PathStyle, base: Seq<char>, name: Seq<char>) -> Seq<char> {
    match style {
        PathStyle::Unix => path_join(base, name),
        PathStyle::Windows => if base.len() == 0 || base.last() == '\\' || base.last() == '/'
            || is_drive(base) {
            base + name
        } else {
            base + seq!['\\'] + name
        },
    }
}

/// Puts a relative name below a path of this program's system.
pub fn join_local(style: PathStyle, base: &str, name: &str) -> (r: String)
    ensures
        r@ == local_join(style, base@, name@),
{
    match style {
        PathStyle::Unix => join_path(base, name),
        PathStyle::Windows => {
            let chars = chars_of(base);
            let n = chars.len();
            let drive = n == 2 && (('a' <= chars[0] && chars[0] <= 'z') || ('A' <= chars[0]
                && chars[0] <= 'Z')) && chars[1] == ':';
            let mut out = base.to_owned();
            if n > 0 && chars[n - 1] != '\\' && chars[n - 1] != '/' && !drive {
                out.push('\\');
                assert(out@ =~= base@ + seq!['\\']);
            }
            out.push_str(name);
            out
        },
    }
}

/// A name below a path stands behind it with one separator between them: none is put in where the
/// path is empty, ends in one or, on Windows, names no more than a drive. On Unix it is a slash, on
/// Windows a backslash.
pub proof fn names_stand_below_their_path(style: PathStyle, base: &str, name: &str, r: String)
    requires
        call_ensures(join_local, (style, base, name), r),
    ensures
        base@.len() == 0 ==> r@ == name@,
        base@.len() > 0 && base@.last() == '/' ==> r@ == base@ + name@,
        style == PathStyle::Windows && base@.len() > 0 && base@.last() == '\\' ==> r@ == base@
            + name@,
        style == PathStyle::Windows && is_drive(base@) ==> r@ == base@ + name@,
        style == PathStyle::Unix && base@.len() > 0 && base@.last() != '/' ==> r@ == base@.push('/')
            + name@,
        style == PathStyle::Windows && base@.len() > 0 && base@.last() != '/' && base@.last()
            != '\\' && !is_drive(base@) ==> r@ == base@.push('\\') + name@,
{
    assert(base@.len() == 0 ==> base@ + name@ =~= name@);
    assert(base@.push('/') =~= base@ + seq!['/']);
    assert(base@.push('\\') =~= base@ + seq!['\\']);
}

/// On a path with slashes, a name below a path stands behind it with one slash between them.
pub proof fn names_stand_below_slash_paths(base: &str, name: &str, r: String)
    requires
        call_ensures(join_path, (base, name), r),
    ensures
        base@.len() == 0 ==> r@ == name@,
        base@.len() > 0 && base@.last() == '/' ==> r@ == base@ + name@,
        base@.len() > 0 && base@.last() != '/' ==> r@ == base@.push('/') + name@,
{
    assert(base@.len() == 0 ==> base@ + name@ =~= name@);
    assert(base@.push('/') =~= base@ + seq!['/']);
}

} // verus!
