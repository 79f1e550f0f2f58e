use vstd::prelude::*;
use vstd::string::StrSliceExecFns;
use vstd::string::StringExecFns;

verus! {

/// The path of the repository marker directly under `dir`: `dir` and `.git`,
/// with a separator between them unless `dir` is empty or already ends in one.
pub open spec fn marker_path_of(dir: Seq<char>) -> Seq<char> {
    if dir.len() == 0 || dir.last() == '/' {
        dir + ".git"@
    } else {
        dir + "/.git"@
    }
}

/// The path at which the repository marker of `dir` would stand.
pub fn marker_path(dir: &str) -> (r: String)
    ensures
        r@ == marker_path_of(dir@),
{
    let n = dir.unicode_len();
    let mut r = String::from_str(dir);
    if n == 0 || dir.get_char(n - 1) == '/' {
        r.append(".git");
    } else {
        r.append("/.git");
    }
    r
}

/// Relies on `std::path::Path::is_dir`: whether `p` names a directory on disk,
/// following symbolic links, with any error read as `false`. What is on disk is
/// not known here, so nothing is stated of the answer.
#[verifier::external_body]
fn dir_exists(p: &str) -> (r: bool) {
    std::path::Path::new(p).is_dir()
}

/// Whether `path` is a repository root: whether its marker exists as a
/// directory. An unreadable marker reads as no repository.
pub fn is_git_repo(path: &str) -> (r: bool) {
    let marker = marker_path(path);
    dir_exists(marker.as_str())
}

/// Applies `processor` to `path` when `is_repo` says it is a repository;
/// anything else succeeds untouched.
pub fn process_detected(
    is_repo: bool,
    path: &str,
    processor: &impl Fn(&str) -> Result<(), String>,
) -> (r: Result<(), String>)
    requires
        is_repo ==> processor.requires((path,)),
    ensures
        is_repo ==> processor.ensures((path,), r),
        !is_repo ==> r is Ok,
{
    if is_repo {
        processor(path)
    } else {
        Ok(())
    }
}

/// Applies `processor` to `path` if `path` is a repository. The result is
/// `Ok` for a directory that is none, else what `processor` returned.
pub fn process_git_dir(path: &str, processor: &impl Fn(&str) -> Result<(), String>) -> (r: Result<
    (),
    String,
>)
    requires
        processor.requires((path,)),
    ensures
        r is Ok || processor.ensures((path,), r),
{
    let is_repo = is_git_repo(path);
    process_detected(is_repo, path, processor)
}

} // verus!
