//! File paths, as texts with `/` between their parts.

use crate::text::basic::{ends_with, starts_with};
use vstd::prelude::*;

verus! {

/// `part` put behind `base`: an absolute part stands alone, and one separator
/// is put between them unless `base` is empty or ends with one.
pub open spec fn joined_path(base: Seq<char>, part: Seq<char>) -> Seq<char> {
    if "/"@.is_prefix_of(part) {
        part
    } else if base.len() == 0 || "/"@.is_suffix_of(base) {
        base + part
    } else {
        base + "/"@ + part
    }
}

/// `part` put behind `base`.
pub fn join(base: &str, part: &str) -> (r: String)
    ensures
        r@ == joined_path(base@, part@),
{
    if starts_with(part, "/") {
        part.to_string()
    } else if base.is_empty() || ends_with(base, "/") {
        let mut r = base.to_string();
        r.append(part);
        r
    } else {
        let mut r = base.to_string();
        r.append("/");
        r.append(part);
        r
    }
}

/// What `std::path::Path::parent` gives: the path without its last component.
pub uninterp spec fn parent_of(path: Seq<char>) -> Option<Seq<char>>;

/// What `std::path::Path::file_name` gives: the last component of a path.
pub uninterp spec fn file_name_of(path: Seq<char>) -> Option<Seq<char>>;

/// What `std::path::Path::strip_prefix` gives: the part of a path below a base.
pub uninterp spec fn below(path: Seq<char>, base: Seq<char>) -> Option<Seq<char>>;

/// `std::path::Path::parent` leaves out the last component of a path; a root
/// and the empty path have no parent. It is claimed that the parent depends on
/// the path alone, and that it is shorter than the path. How a path is cut
/// into components is left unsaid.
#[verifier::external_body]
pub(crate) fn parent(path: &str) -> (r: Option<String>)
    ensures
        r.deep_view() == parent_of(path@),
        r matches Some(p) ==> p@.len() < path@.len(),
{
    std::path::Path::new(path).parent().and_then(|p| p.to_str()).map(|s| s.to_string())
}

/// `std::path::Path::file_name` gives the last component of a path, unless it
/// is a root or `..`. It is claimed that the name depends on the path alone.
/// How a path is cut into components is left unsaid.
#[verifier::external_body]
pub(crate) fn file_name(path: &str) -> (r: Option<String>)
    ensures
        r.deep_view() == file_name_of(path@),
{
    std::path::Path::new(path).file_name().and_then(|n| n.to_str()).map(|s| s.to_string())
}

/// `std::path::Path::strip_prefix` gives what joined onto the base yields the
/// path, where the components of the base begin those of the path. It is
/// claimed that the result depends on the two paths alone. How a path is cut
/// into components is left unsaid.
#[verifier::external_body]
pub(crate) fn strip_base(path: &str, base: &str) -> (r: Option<String>)
    ensures
        r.deep_view() == below(path@, base@),
{
    std::path::Path::new(path).strip_prefix(base).ok().and_then(|p| p.to_str()).map(|s| s.to_string())
}

/// The name of a repository, from the directory it stands in.
pub open spec fn repo_name_of(root: Seq<char>) -> Seq<char> {
    match file_name_of(root) {
        Some(n) => n,
        None => "unknown"@,
    }
}

/// The name of the repository in the directory `root`.
pub fn repo_name(root: &str) -> (r: String)
    ensures
        r@ == repo_name_of(root@),
{
    match file_name(root) {
        Some(n) => n,
        None => "unknown".to_string(),
    }
}

/// A part that is not absolute is put behind the base with one separator: the
/// path begins with the base and ends with the part. An absolute part is a path
/// by itself.
pub proof fn law_joined(base: Seq<char>, part: Seq<char>)
    ensures
        "/"@.is_prefix_of(part) ==> joined_path(base, part) == part,
        !"/"@.is_prefix_of(part) ==> base.is_prefix_of(joined_path(base, part))
            && part.is_suffix_of(joined_path(base, part)),
        !"/"@.is_prefix_of(part) && base.len() > 0 && base.last() != '/' ==> joined_path(base, part)
            == base + seq!['/'] + part,
        !"/"@.is_prefix_of(part) && base.len() > 0 && base.last() == '/' ==> joined_path(base, part)
            == base + part,
        !"/"@.is_prefix_of(part) && base.len() == 0 ==> joined_path(base, part) == part,
{
    reveal_strlit("/");
    let all = joined_path(base, part);
    if !"/"@.is_prefix_of(part) {
        assert(all.subrange(0, base.len() as int) =~= base);
        assert(all.subrange(all.len() - part.len(), all.len() as int) =~= part);
        if base.len() > 0 {
            assert(base.subrange(base.len() - 1, base.len() as int) =~= seq![base.last()]);
            if base.last() == '/' {
                assert("/"@.is_suffix_of(base));
            } else {
                assert(!"/"@.is_suffix_of(base)) by {
                    assert(seq![base.last()][0] != "/"@[0]);
                }
                assert(all =~= base + seq!['/'] + part);
            }
        } else {
            assert(all =~= part);
        }
    }
}

/// A repository is called as the directory that it stands in.
pub proof fn law_repo_named_by_directory(root: Seq<char>, name: Seq<char>)
    ensures
        file_name_of(root) == Some(name) ==> repo_name_of(root) == name,
        file_name_of(root) is None ==> repo_name_of(root) == "unknown"@,
{
}

} // verus!
