//! The summary of an outgoing file that is reported for statistics.

use crate::path::text_of;
use crate::sniff::{label, label_is_not_empty, label_of};
use vstd::prelude::*;

verus! {

/// Content type, extension and size of a file. Every field holds a value:
/// what is not known reads "unknown", and no text is empty.
#[derive(Clone, Debug)]
pub struct FileInfo {
    /// The content-type label.
    pub mime_type: String,
    /// The extension of the file's name.
    pub extension: String,
    /// The file's size in kilobytes, rounded up.
    pub size_kb: i32,
}

/// What a `FileInfo` holds, as plain values.
pub struct Summary {
    pub mime_type: Seq<char>,
    pub extension: Seq<char>,
    pub size_kb: int,
}

impl View for FileInfo {
    type V = Summary;

    open spec fn view(&self) -> Summary {
        Summary {
            mime_type: self.mime_type@,
            extension: self.extension@,
            size_kb: self.size_kb as int,
        }
    }
}

/// The summary of a file with the given content type (`None` if it was
/// never sniffed), extension (`None` if the name has none) and size. A
/// content type or an extension that is missing or empty reads "unknown".
pub open spec fn summary(
    mime_type: Option<Seq<char>>,
    extension: Option<Seq<char>>,
    size: u64,
) -> Summary {
    Summary { mime_type: label(mime_type), extension: label(extension), size_kb: kilobytes(size) }
}

/// A size in whole kilobytes: the bytes divided by 1024 and rounded up, and
/// `i32::MAX` where that is more than an `i32` holds.
pub open spec fn kilobytes(size: u64) -> int {
    let rounded_up = (size + 1023) / 1024;
    if rounded_up > i32::MAX {
        i32::MAX as int
    } else {
        rounded_up
    }
}

/// The size in whole kilobytes of `size` bytes.
pub fn size_kb(size: u64) -> (kb: i32)
    ensures
        kb == kilobytes(size),
        kb >= 0,
{
    let whole: u64 = size / 1024;
    let rounded_up: u64 = if size % 1024 == 0 {
        whole
    } else {
        whole + 1
    };
    if rounded_up > 0x7fff_ffff {
        i32::MAX
    } else {
        rounded_up as i32
    }
}

impl FileInfo {
    /// The summary of a file whose content type was sniffed as `mime_type`
    /// (`None` if it never was), whose name has the extension `extension`
    /// (`None` if it has none) and which is `size` bytes long.
    pub fn new(mime_type: Option<String>, extension: Option<String>, size: u64) -> (info: FileInfo)
        ensures
            info@ == summary(text_of(mime_type), text_of(extension), size),
            info@.mime_type.len() > 0,
            info@.extension.len() > 0,
            info@.size_kb >= 0,
    {
        FileInfo {
            mime_type: label_of(mime_type),
            extension: label_of(extension),
            size_kb: size_kb(size),
        }
    }
}

/// Every field of a summary holds a value: no text is empty, and the size
/// is not negative.
pub proof fn summary_is_filled(
    mime_type: Option<Seq<char>>,
    extension: Option<Seq<char>>,
    size: u64,
)
    ensures
        summary(mime_type, extension, size).mime_type.len() > 0,
        summary(mime_type, extension, size).extension.len() > 0,
        summary(mime_type, extension, size).size_kb >= 0,
{
    label_is_not_empty(mime_type);
    label_is_not_empty(extension);
}

/// Rounding up to whole kilobytes: the kilobytes hold the bytes, and one
/// kilobyte less would not. This holds of every size whose kilobytes an
/// `i32` can hold; of a larger one the result is `i32::MAX`.
pub proof fn kilobytes_round_up(size: u64)
    ensures
        0 <= kilobytes(size) <= i32::MAX,
        size <= 1024 * (i32::MAX as int) ==> (kilobytes(size) - 1) * 1024 < size <= kilobytes(size)
            * 1024,
        size > 1024 * (i32::MAX as int) ==> kilobytes(size) == i32::MAX,
{
}

} // verus!
