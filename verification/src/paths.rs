//! File system paths, seen as the sequence of their components and by their
//! text.
//!
//! `std::path` is called as it is. What is claimed of it without proof stands
//! in this module. Its types belong to the platform that the program is built
//! for, and so do their values: two paths are the same where they are so
//! letter for letter.
use std::path::{Path, PathBuf};
use vstd::prelude::*;

verus! {

/// The owned path type of the standard library.
#[verifier::external_type_specification]
#[verifier::external_body]
pub struct ExPathBuf(PathBuf);

/// The borrowed path type of the standard library.
#[verifier::external_type_specification]
#[verifier::external_body]
pub struct ExPath(Path);

/// One component of a path, as `std::path::Component` tells them apart.
pub enum PathPart {
    /// A Windows prefix, such as a drive or a network share.
    Prefix(Seq<char>),
    /// The root directory.
    RootDir,
    /// The current directory, at the beginning of a path.
    CurDir,
    /// A step to the parent directory.
    ParentDir,
    /// A file or directory name; what is not Unicode stands as the
    /// replacement character.
    Normal(Seq<char>),
}

/// The components of a path, in the order of `Path::components`.
pub uninterp spec fn path_parts(buf: PathBuf) -> Seq<PathPart>;

/// The text of a path, as `Path::to_string_lossy` gives it.
pub uninterp spec fn path_text(buf: PathBuf) -> Seq<char>;

/// The text of a path if it is Unicode, as `Path::to_str` gives it.
pub uninterp spec fn unicode_text(buf: PathBuf) -> Option<Seq<char>>;

/// The owned copy of a path that `Path::to_path_buf` makes.
pub uninterp spec fn owned_path(path: &Path) -> PathBuf;

/// The path that `Path::join` makes when it appends `name` to `base`.
pub uninterp spec fn joined_path(base: PathBuf, name: Seq<char>) -> PathBuf;

/// Whether some platform parts the components of a path by `c`.
pub open spec fn is_separator(c: char) -> bool {
    c == '/' || c == '\\'
}

/// Whether a text begins with two separators, as network paths do.
pub open spec fn leads_with_two_separators(text: Seq<char>) -> bool {
    text.len() >= 2 && is_separator(text[0]) && is_separator(text[1])
}

/// Whether a text is one backslash: a root on Windows, and elsewhere a name
/// behind which a separator is put.
pub open spec fn is_lone_backslash(text: Seq<char>) -> bool {
    text.len() == 1 && text[0] == '\\'
}

/// Whether a Windows prefix is that of a network share, such as
/// `\\server\share`, and neither a verbatim nor a device prefix.
pub open spec fn is_network_share(prefix: Seq<char>) -> bool {
    leads_with_two_separators(prefix) && prefix.len() > 2 && prefix[2] != '?' && prefix[2] != '.'
}

/// Whether an appended name cannot change how the beginning of a path is
/// read. Left out are paths that begin with two separators, unless these
/// belong to the prefix of a network share: the text `\\server` is no prefix
/// on Windows, and with one name more it is. A lone backslash is left out
/// too, since it can become the first of two separators.
pub open spec fn is_settled(buf: PathBuf) -> bool {
    ||| !leads_with_two_separators(path_text(buf)) && !is_lone_backslash(path_text(buf))
    ||| {
        &&& path_parts(buf).len() > 0
        &&& path_parts(buf)[0] matches PathPart::Prefix(prefix)
        &&& is_network_share(prefix)
    }
}

/// A character that no platform gives a meaning of its own in a path.
pub open spec fn is_plain_char(c: char) -> bool {
    'a' <= c <= 'z' || '0' <= c <= '9' || c == '-'
}

/// A directory name of plain characters: one component wherever it stands,
/// neither absolute nor a step to another directory.
pub open spec fn is_plain_name(name: Seq<char>) -> bool {
    name.len() > 0 && forall|i: int| 0 <= i < name.len() ==> is_plain_char(#[trigger] name[i])
}

/// Whether `text` ends with `tail`.
pub open spec fn ends_with(text: Seq<char>, tail: Seq<char>) -> bool {
    tail.len() <= text.len() && text.subrange(text.len() - tail.len(), text.len() as int) == tail
}

/// Whether `text` ends with `directory`, a separator and `leaf`.
pub open spec fn ends_with_both(text: Seq<char>, directory: Seq<char>, leaf: Seq<char>) -> bool {
    exists|separator: char| #[trigger]
        is_separator(separator) && ends_with(text, directory.push(separator) + leaf)
}

/// `Path::join` with a relative name of one component. The result depends on
/// the path and the name alone. Its text ends with the name, behind a
/// separator where the text of the path ended with a plain name. A settled
/// path keeps its components and gets the name as one more. How the beginning
/// of another path is read afterwards is left to [`joined_path`].
#[verifier::external_body]
pub(crate) fn join(base: &PathBuf, name: &str) -> (joined: PathBuf)
    requires
        is_plain_name(name@),
    ensures
        joined == joined_path(*base, name@),
        is_settled(*base) ==> path_parts(joined) == path_parts(*base).push(
            PathPart::Normal(name@),
        ),
        !leads_with_two_separators(path_text(*base)) && !is_lone_backslash(path_text(*base))
            ==> !leads_with_two_separators(path_text(joined)),
        ends_with(path_text(joined), name@),
        forall|directory: Seq<char>|
            is_plain_name(directory) && #[trigger] ends_with(path_text(*base), directory)
                ==> ends_with_both(path_text(joined), directory, name@),
{
    base.join(name)
}

/// `Path::to_str`: the text of a path, or nothing where that is not Unicode.
/// Nothing is replaced in a text that is.
#[verifier::external_body]
pub(crate) fn to_text(buf: &PathBuf) -> (text: Option<String>)
    ensures
        match text {
            Some(text) => unicode_text(*buf) == Some(text@) && text@ == path_text(*buf),
            None => unicode_text(*buf) is None,
        },
{
    buf.to_str().map(str::to_owned)
}

/// `Path::to_path_buf` copies the path.
pub assume_specification[ std::path::Path::to_path_buf ](borrowed: &std::path::Path) -> (buf: PathBuf)
    ensures
        buf == owned_path(borrowed),
;

/// A cloned `PathBuf` is the same path.
pub assume_specification[ <PathBuf as Clone>::clone ](buf: &PathBuf) -> (copy: PathBuf)
    ensures
        copy == *buf,
;

} // verus!
