//! What the filesystem tells about an object without reading its content.

use crate::error::Error;
use vstd::prelude::*;

verus! {

/// The kind of object that a path names, the path's last component not
/// followed where it is a link.
#[derive(Clone, Copy, Debug, PartialEq, Eq, Structural)]
pub enum FileType {
    /// A regular file.
    File,
    /// A directory.
    Dir,
    /// A symbolic link.
    Symlink,
    /// A device, socket, pipe or anything else.
    Other,
}

/// Metadata of a file as it was when the file was found.
#[derive(Clone, Copy, Debug, PartialEq, Eq, Structural)]
pub struct Metadata {
    /// The kind of the object.
    pub file_type: FileType,
    /// Its length in bytes.
    pub len: u64,
    /// When it was last modified, in seconds since the Unix epoch, if known.
    pub modified: Option<u64>,
}

impl Metadata {
    /// Metadata with the given values.
    pub fn new(file_type: FileType, len: u64, modified: Option<u64>) -> (meta: Metadata)
        ensures
            meta == (Metadata { file_type, len, modified }),
    {
        Metadata { file_type, len, modified }
    }

    /// Whether the object is a directory.
    pub fn is_dir(&self) -> (dir: bool)
        ensures
            dir == (self.file_type == FileType::Dir),
    {
        self.file_type == FileType::Dir
    }

    /// Whether the object is a regular file.
    pub fn is_file(&self) -> (file: bool)
        ensures
            file == (self.file_type == FileType::File),
    {
        self.file_type == FileType::File
    }

    /// Whether the object is a symbolic link.
    pub fn is_symlink(&self) -> (link: bool)
        ensures
            link == (self.file_type == FileType::Symlink),
    {
        self.file_type == FileType::Symlink
    }

    /// Refuses the metadata of a symbolic link: a link in the last component
    /// of a path is never followed.
    pub fn expect_no_link(&self) -> (checked: Result<(), Error>)
        ensures
            checked == (if self.file_type == FileType::Symlink {
                Err::<(), Error>(Error::BadFile)
            } else {
                Ok::<(), Error>(())
            }),
    {
        if self.is_symlink() {
            Err(Error::BadFile)
        } else {
            Ok(())
        }
    }

    /// Refuses the metadata of a directory where a file is required.
    pub fn expect_file(&self) -> (checked: Result<(), Error>)
        ensures
            checked == (if self.file_type == FileType::Dir {
                Err::<(), Error>(Error::DirectoryNotExpected)
            } else {
                Ok::<(), Error>(())
            }),
    {
        if self.is_dir() {
            Err(Error::DirectoryNotExpected)
        } else {
            Ok(())
        }
    }

    /// The object's length in bytes.
    pub fn len(&self) -> (len: u64)
        ensures
            len == self.len,
    {
        self.len
    }
}

} // verus!
