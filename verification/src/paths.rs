//! Filesystem paths are held as strings; what `std::path` computes on them is
//! reached through the functions below.
use vstd::prelude::*;

verus! {

/// The characters of an optional string.
pub open spec fn opt_text(o: Option<String>) -> Option<Seq<char>> {
    match o {
        Some(s) => Some(s@),
        None => None,
    }
}

/// What `Path::parent` returns for a path.
pub uninterp spec fn parent_of(p: Seq<char>) -> Option<Seq<char>>;

/// What `Path::strip_prefix` returns for a path and a base, when it succeeds.
pub uninterp spec fn stripped_prefix(p: Seq<char>, base: Seq<char>) -> Option<Seq<char>>;

/// What `Path::file_name` returns for a path.
pub uninterp spec fn file_name_of(p: Seq<char>) -> Option<Seq<char>>;

/// What `Path::join` returns for a path and a tail.
pub uninterp spec fn joined_path(base: Seq<char>, tail: Seq<char>) -> Seq<char>;

/// What `Path::starts_with` says of a path and a base.
pub uninterp spec fn path_starts_with(p: Seq<char>, base: Seq<char>) -> bool;

/// What `==` on `Path` says of two paths.
pub uninterp spec fn same_path(a: Seq<char>, b: Seq<char>) -> bool;

/// What `Path::cmp` says of two paths: -1, 0 or 1.
pub uninterp spec fn path_order(a: Seq<char>, b: Seq<char>) -> i8;

/// What `Path::extension` returns for a path.
pub uninterp spec fn extension_of(p: Seq<char>) -> Option<Seq<char>>;

/// What `Path::is_absolute` says of a path.
pub uninterp spec fn is_absolute_path(p: Seq<char>) -> bool;

/// What `Path::with_file_name` returns for a path and a new file name.
pub uninterp spec fn with_file_name_of(p: Seq<char>, name: Seq<char>) -> Seq<char>;

/// `Path::parent`, its result read back as a string. The contract names the
/// result and says nothing more of it.
#[verifier::external_body]
pub(crate) fn path_parent(p: &str) -> (res: Option<String>)
    ensures
        opt_text(res) == parent_of(p@),
{
    match std::path::Path::new(p).parent() {
        Some(q) => Some(q.to_string_lossy().into_owned()),
        None => None,
    }
}

/// `Path::strip_prefix`, the error dropped; the contract names the result.
#[verifier::external_body]
pub(crate) fn path_strip_prefix(p: &str, base: &str) -> (res: Option<String>)
    ensures
        opt_text(res) == stripped_prefix(p@, base@),
{
    match std::path::Path::new(p).strip_prefix(base) {
        Ok(q) => Some(q.to_string_lossy().into_owned()),
        Err(_) => None,
    }
}

/// `Path::file_name`, read back as a string; the contract names the result.
#[verifier::external_body]
pub(crate) fn path_file_name(p: &str) -> (res: Option<String>)
    ensures
        opt_text(res) == file_name_of(p@),
{
    match std::path::Path::new(p).file_name() {
        Some(q) => Some(q.to_string_lossy().into_owned()),
        None => None,
    }
}

/// `Path::join`; the contract names the result.
#[verifier::external_body]
pub(crate) fn path_join(base: &str, tail: &str) -> (res: String)
    ensures
        res@ == joined_path(base@, tail@),
{
    std::path::Path::new(base).join(tail).to_string_lossy().into_owned()
}

/// `Path::starts_with` (whole components); the contract names the result.
#[verifier::external_body]
pub(crate) fn path_has_prefix(p: &str, base: &str) -> (res: bool)
    ensures
        res == path_starts_with(p@, base@),
{
    std::path::Path::new(p).starts_with(base)
}

/// `==` on `Path` (component-wise); the contract names the result and states
/// that a path equals itself, as `Eq` promises.
#[verifier::external_body]
pub(crate) fn path_eq(a: &str, b: &str) -> (res: bool)
    ensures
        res == same_path(a@, b@),
        a@ == b@ ==> res,
{
    std::path::Path::new(a) == std::path::Path::new(b)
}

/// `Path::cmp` as -1, 0 or 1; the contract names the result and states that
/// swapping the arguments negates it, as `Ord` promises.
#[verifier::external_body]
pub(crate) fn path_compare(a: &str, b: &str) -> (res: i8)
    ensures
        res == path_order(a@, b@),
        -1 <= res <= 1,
        path_order(b@, a@) == -res,
{
    match std::path::Path::new(a).cmp(std::path::Path::new(b)) {
        std::cmp::Ordering::Less => -1,
        std::cmp::Ordering::Equal => 0,
        std::cmp::Ordering::Greater => 1,
    }
}

/// `Path::extension`, read back as a string; the contract names the result.
#[verifier::external_body]
pub(crate) fn path_extension(p: &str) -> (res: Option<String>)
    ensures
        opt_text(res) == extension_of(p@),
{
    match std::path::Path::new(p).extension() {
        Some(q) => Some(q.to_string_lossy().into_owned()),
        None => None,
    }
}

/// `Path::is_absolute`; the contract names the result.
#[verifier::external_body]
pub(crate) fn path_is_absolute(p: &str) -> (res: bool)
    ensures
        res == is_absolute_path(p@),
{
    std::path::Path::new(p).is_absolute()
}

/// `Path::with_file_name`; the contract names the result.
#[verifier::external_body]
pub(crate) fn path_with_file_name(p: &str, name: &str) -> (res: String)
    ensures
        res@ == with_file_name_of(p@, name@),
{
    std::path::Path::new(p).with_file_name(name).to_string_lossy().into_owned()
}

/// A component of a path, by kind.
#[derive(Clone, Copy, Debug, PartialEq, Eq, Structural)]
pub enum PathPart {
    Prefix,
    Root,
    Current,
    Parent,
    Normal,
}

/// What `Path::components` yields for a path, by kind.
pub uninterp spec fn parts_of(p: Seq<char>) -> Seq<PathPart>;

/// `Path::components`, each component read as its kind; the contract names
/// the result.
#[verifier::external_body]
pub(crate) fn path_parts(p: &str) -> (res: Vec<PathPart>)
    ensures
        res@ == parts_of(p@),
{
    std::path::Path::new(p).components().map(|c| match c {
        std::path::Component::Prefix(_) => PathPart::Prefix,
        std::path::Component::RootDir => PathPart::Root,
        std::path::Component::CurDir => PathPart::Current,
        std::path::Component::ParentDir => PathPart::Parent,
        std::path::Component::Normal(_) => PathPart::Normal,
    }).collect()
}

} // verus!
