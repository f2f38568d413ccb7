//! The files that the crate keeps on disk: where they are, and what a read of one comes to.
use crate::error::{outcome, ErrorView, RustmoteError};
use crate::path::{join_local, local_join, PathStyle};
use crate::text::{concat, opt_view};
use vstd::prelude::*;

verus! {

/// What a read of a file came to.
#[derive(Debug, PartialEq, Eq)]
pub enum StoredFile<V> {
    /// There is no such file.
    Missing,
    /// The system could not read it.
    Unreadable(String),
    /// It was read, and does not parse.
    Malformed(String),
    /// It holds this.
    Holds(V),
}

/// What a stored file gives: what it holds, or the given default where it is missing.
pub fn stored_or<V>(path: &str, file: StoredFile<V>, default: V) -> (r: Result<V, RustmoteError>)
    ensures
        match file {
            StoredFile::Missing => r == Ok::<V, RustmoteError>(default),
            StoredFile::Holds(v) => r == Ok::<V, RustmoteError>(v),
            StoredFile::Unreadable(e) => r matches Err(x) && x@ == RustmoteError::Io(e@),
            StoredFile::Malformed(e) => r matches Err(x) && x@ == (RustmoteError::ConfigParse {
                path: path@,
                source: e@,
            }),
        },
{
    match file {
        StoredFile::Missing => Ok(default),
        StoredFile::Holds(v) => Ok(v),
        StoredFile::Unreadable(e) => Err(RustmoteError::Io(e)),
        StoredFile::Malformed(e) => Err(
            RustmoteError::ConfigParse { path: path.to_owned(), source: e },
        ),
    }
}

/// The file that is written in place of another before it takes its name.
pub fn tmp_path(path: &str) -> (r: String)
    ensures
        r@ == path@ + ".tmp"@,
{
    concat(path, ".tmp")
}

/// The directory of the program below the one in which a user's programs keep such files, if there
/// is that one.
pub fn program_dir(style: PathStyle, base: Option<String>) -> (r: Option<String>)
    ensures
        opt_view(r) == match opt_view(base) {
            Some(dir) => Some(local_join(style, dir, "rustmote"@)),
            None => None,
        },
{
    match base {
        Some(dir) => Some(join_local(style, dir.as_str(), "rustmote")),
        None => None,
    }
}

/// The directory of the crate's files: the one that the environment names, or else the
/// platform's; none where neither is there.
pub open spec fn dir_of(named: Option<Seq<char>>, platform: Option<Seq<char>>) -> Option<
    Seq<char>,
> {
    if named is Some {
        named
    } else {
        platform
    }
}

/// The directory of the crate's files.
pub fn resolve_dir(named: Option<String>, platform: Option<String>) -> (r: Result<
    String,
    RustmoteError,
>)
    ensures
        match dir_of(opt_view(named), opt_view(platform)) {
            Some(dir) => r matches Ok(d) && d@ == dir,
            None => r matches Err(e) && e@ == RustmoteError::<Seq<char>>::NoConfigDir,
        },
{
    match named {
        Some(dir) => Ok(dir),
        None => match platform {
            Some(dir) => Ok(dir),
            None => Err(RustmoteError::NoConfigDir),
        },
    }
}

/// A file below a directory that may not be there.
pub open spec fn file_in(
    style: PathStyle,
    dir: Result<Seq<char>, ErrorView>,
    name: Seq<char>,
) -> Result<Seq<char>, ErrorView> {
    match dir {
        Ok(d) => Ok(local_join(style, d, name)),
        Err(e) => Err(e),
    }
}

/// A file below a directory, unless there is none.
pub fn file_below(
    style: PathStyle,
    dir: Result<String, RustmoteError>,
    name: &str,
) -> (r: Result<String, RustmoteError>)
    ensures
        outcome(r) == file_in(style, outcome(dir), name@),
{
    match dir {
        Ok(d) => Ok(join_local(style, d.as_str(), name)),
        Err(e) => Err(e),
    }
}

/// The directory that the environment names comes before the platform's; without either there is
/// none.
pub proof fn named_directories_come_first(
    named: Option<String>,
    platform: Option<String>,
    r: Result<String, RustmoteError>,
)
    requires
        call_ensures(resolve_dir, (named, platform), r),
    ensures
        named matches Some(dir) ==> (r matches Ok(d) && d@ == dir@),
        named is None && platform is Some ==> (r matches Ok(d) && d@ == platform->0@),
        named is None && platform is None ==> (r matches Err(e) && e is NoConfigDir),
{
}

/// What a file holds is taken, and the default only where the file is missing. A file that cannot
/// be read or does not parse is a failure, never the default.
pub proof fn defaults_are_for_missing_files<V>(
    path: &str,
    file: StoredFile<V>,
    default: V,
    r: Result<V, RustmoteError>,
)
    requires
        call_ensures(stored_or::<V>, (path, file, default), r),
    ensures
        file matches StoredFile::Holds(v) ==> r == Ok::<V, RustmoteError>(v),
        file is Missing ==> r == Ok::<V, RustmoteError>(default),
        file is Unreadable ==> (r matches Err(e) && e is Io),
        file is Malformed ==> (r matches Err(RustmoteError::ConfigParse { path: p, .. }) && p@
            == path@),
{
}

} // verus!
