//! The parts of a path that name a node: its last component and that
//! component's extension.

use crate::error::Error;
use vstd::prelude::*;

verus! {

/// The last component of a path in the path syntax of the target that the
/// library is built for, as the standard library reads it; `None` where the
/// path has none.
pub uninterp spec fn file_name_of(path: Seq<char>) -> Option<Seq<char>>;

/// The extension of a path's last component, as the standard library reads
/// it in the path syntax of the target; `None` where the component has
/// none.
pub uninterp spec fn extension_of(path: Seq<char>) -> Option<Seq<char>>;

/// The characters of a text that may be absent.
pub open spec fn text_of(text: Option<String>) -> Option<Seq<char>> {
    match text {
        Some(t) => Some(t@),
        None => None,
    }
}

/// `std::path::Path::file_name` on a path given as text. The component comes
/// back as text unchanged, since a component of valid text is valid text.
#[verifier::external_body]
fn path_file_name(path: &str) -> (name: Option<String>)
    ensures
        text_of(name) == file_name_of(path@),
{
    std::path::Path::new(path).file_name().map(|name| name.to_string_lossy().into_owned())
}

/// `std::path::Path::extension` on a path given as text. Beside the name of
/// the result the contract keeps one rule of the documentation: without a
/// dot there is no extension.
#[verifier::external_body]
pub(crate) fn path_extension(path: &str) -> (extension: Option<String>)
    ensures
        text_of(extension) == extension_of(path@),
        !path@.contains('.') ==> extension is None,
{
    std::path::Path::new(path).extension().map(|ext| ext.to_string_lossy().into_owned())
}

/// The name of the node that a path leads to: the path's last component, or
/// the refusal of a path that has none.
pub open spec fn leaf_name(path: Seq<char>) -> Result<Seq<char>, Error> {
    required(file_name_of(path))
}

/// A name that has to be there: the name, or `BadPath` in its absence.
pub open spec fn required(name: Option<Seq<char>>) -> Result<Seq<char>, Error> {
    match name {
        Some(n) => Ok(n),
        None => Err(Error::BadPath),
    }
}

/// Turns the absence of a name into `BadPath`.
pub fn require_name(name: Option<String>) -> (required_name: Result<String, Error>)
    ensures
        match required_name {
            Ok(n) => name == Some(n),
            Err(e) => name is None && e == Error::BadPath,
        },
{
    match name {
        Some(n) => Ok(n),
        None => Err(Error::BadPath),
    }
}

/// The name of the node that `path` leads to.
pub fn name_of(path: &str) -> (name: Result<String, Error>)
    ensures
        match name {
            Ok(n) => leaf_name(path@) == Ok::<Seq<char>, Error>(n@),
            Err(e) => leaf_name(path@) == Err::<Seq<char>, Error>(e),
        },
{
    require_name(path_file_name(path))
}

} // verus!
