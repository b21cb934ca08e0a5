//! Classification of a file by the signature at the start of its content.

use crate::path::text_of;
use vstd::prelude::*;
use vstd::slice::slice_subrange;

verus! {

/// How many bytes from the start of a file are looked at.
pub const HEADER_SIZE: usize = 1024;

/// The MIME type that the `infer` crate finds for a buffer, `None` where no
/// signature that it knows matches.
pub uninterp spec fn detected_type(bytes: Seq<u8>) -> Option<Seq<char>>;

/// The label of content that no signature matches, and of everything else
/// that is not known.
pub open spec fn unknown() -> Seq<char> {
    "unknown"@
}

/// The label for a value that may be missing: the value, or "unknown"
/// where there is none or it is empty. A label is never empty.
pub open spec fn label(value: Option<Seq<char>>) -> Seq<char> {
    match value {
        Some(text) => if text.len() == 0 {
            unknown()
        } else {
            text
        },
        None => unknown(),
    }
}

/// A label is never empty.
pub proof fn label_is_not_empty(value: Option<Seq<char>>)
    ensures
        label(value).len() > 0,
{
    reveal_strlit("unknown");
}

/// Whether signatures can be looked for on this target. The `infer` crate
/// adds lengths of 32 bits that it reads from the buffer to a `usize`
/// without a check, which is safe only where a `usize` has 64 bits.
pub open spec fn can_detect() -> bool {
    usize::BITS == 64
}

/// The content-type label of a buffer: what is detected in it, or
/// "unknown" where it is empty, nothing is detected, or signatures cannot
/// be looked for.
pub open spec fn sniffed(bytes: Seq<u8>) -> Seq<char> {
    if bytes.len() == 0 || !can_detect() {
        unknown()
    } else {
        label(detected_type(bytes))
    }
}

/// The part of a file's start that is looked at: its first `HEADER_SIZE`
/// bytes, or all of what was read where that is less.
pub open spec fn header(read: Seq<u8>) -> Seq<u8> {
    if read.len() <= HEADER_SIZE {
        read
    } else {
        read.take(HEADER_SIZE as int)
    }
}

/// `infer::get` followed by `infer::Type::mime_type`: the MIME type of the
/// first signature in the crate's table that matches the buffer. Every
/// matcher tests the buffer's length before it reads from it. Some of them
/// add a 32-bit length from the buffer to a `usize`, hence the demand. One
/// hands the buffer to the parser of the `cfb` crate, which answers what it
/// cannot read with an error.
#[verifier::external_body]
fn detect(bytes: &[u8]) -> (kind: Option<String>)
    requires
        can_detect(),
    ensures
        text_of(kind) == detected_type(bytes@),
{
    infer::get(bytes).map(|kind| kind.mime_type().to_string())
}

/// The label for a value that may be missing: the value, or "unknown"
/// where there is none or it is empty.
pub fn label_of(value: Option<String>) -> (text: String)
    ensures
        text@ == label(text_of(value)),
        text@.len() > 0,
{
    proof {
        label_is_not_empty(text_of(value));
    }
    match value {
        Some(text) => if text.as_str().is_empty() {
            "unknown".to_owned()
        } else {
            text
        },
        None => "unknown".to_owned(),
    }
}

/// Classifies a buffer. Never fails: content that is empty or matches no
/// signature is labelled "unknown", and so is all content on a target on
/// which signatures cannot be looked for.
pub fn sniff(bytes: &[u8]) -> (text: String)
    ensures
        text@ == sniffed(bytes@),
        text@.len() > 0,
{
    proof {
        label_is_not_empty(None);
    }
    if bytes.len() == 0 || usize::BITS != 64 {
        "unknown".to_owned()
    } else {
        label_of(detect(bytes))
    }
}

/// Classifies a file by what was read from its start, looking at no more
/// than `HEADER_SIZE` bytes of it.
pub fn sniff_header(read: &[u8]) -> (text: String)
    ensures
        text@ == sniffed(header(read@)),
        text@.len() > 0,
{
    if read.len() <= HEADER_SIZE {
        sniff(read)
    } else {
        sniff(slice_subrange(read, 0, HEADER_SIZE))
    }
}

} // verus!
