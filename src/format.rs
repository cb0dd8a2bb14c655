//! Judging a file by its first bytes.
use vstd::prelude::*;

verus! {

/// Number of leading bytes of a file that its format is judged by.
pub const HEADER_LEN: usize = 512;

/// A recognised content format, numbered by its place in the list of
/// formats that the image crate knows (`ImageFormat::all`).
#[derive(Clone, Copy, Debug, PartialEq, Eq, Hash, Structural)]
pub struct FormatTag {
    pub code: u8,
}

/// The format code that the image crate's magic-byte sniffing gives for a
/// block of bytes, if it recognises one.
pub uninterp spec fn sniffed_code(header: Seq<u8>) -> Option<u8>;

/// Relies on `image::guess_format` to recognise a format by its magic
/// bytes, and on `image::ImageFormat::all` to number the format found.
#[verifier::external_body]
fn sniff(header: &[u8]) -> (r: Option<u8>)
    ensures
        r == sniffed_code(header@),
{
    let found = image::guess_format(header).ok()?;
    image::ImageFormat::all().position(|f| f == found).map(|i| i as u8)
}

/// The block a file is judged by: its first `HEADER_LEN` bytes, padded
/// with zeros where the file is shorter.
pub open spec fn header_block(prefix: Seq<u8>) -> Seq<u8> {
    if prefix.len() >= HEADER_LEN {
        prefix.subrange(0, HEADER_LEN as int)
    } else {
        prefix + Seq::new((HEADER_LEN - prefix.len()) as nat, |i: int| 0u8)
    }
}

/// The tag a file is given, from the block it is judged by.
pub open spec fn tag_of_block(block: Seq<u8>) -> Option<FormatTag> {
    match sniffed_code(block) {
        Some(c) => Some(FormatTag { code: c }),
        None => None,
    }
}

/// Builds the zero-padded header block from the bytes that could be read
/// from the start of a file (possibly fewer than `HEADER_LEN`, possibly more).
pub fn header_from_prefix(prefix: &[u8]) -> (r: Vec<u8>)
    ensures
        r@ == header_block(prefix@),
{
    let mut r: Vec<u8> = Vec::with_capacity(HEADER_LEN);
    let mut i: usize = 0;
    while i < HEADER_LEN
        invariant
            i <= HEADER_LEN,
            r@.len() == i,
            forall|j: int| 0 <= j < i ==> #[trigger] r@[j] == header_block(prefix@)[j],
        decreases HEADER_LEN - i,
    {
        if i < prefix.len() {
            r.push(prefix[i]);
        } else {
            r.push(0u8);
        }
        i = i + 1;
    }
    assert(r@ =~= header_block(prefix@));
    r
}

/// Classifies a header block that was already read: the tag of its
/// sniffed format, or `None` where no format is recognised.
pub fn classify_block(block: &[u8]) -> (r: Option<FormatTag>)
    ensures
        r == tag_of_block(block@),
{
    match sniff(block) {
        Some(c) => Some(FormatTag { code: c }),
        None => None,
    }
}

/// Classifies a file by the bytes that could be read from its start: they
/// are cut or zero-padded to `HEADER_LEN` bytes and sniffed.
pub fn classify_prefix(prefix: &[u8]) -> (r: Option<FormatTag>)
    ensures
        r == tag_of_block(header_block(prefix@)),
{
    let block = header_from_prefix(prefix);
    classify_block(block.as_slice())
}

} // verus!
