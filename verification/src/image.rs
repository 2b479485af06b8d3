//! The executable image format, as far as the loader consumes it: a header
//! page holding a magic number and the program entry address, followed by
//! the loadable payload.

use vstd::prelude::*;

verus! {

/// One allocator header unit: the size of the image header page, which is
/// never mapped into the new process.
pub const HEADER_UNIT: usize = 4096;

/// First magic byte of a recognized image header.
pub const MAGIC_0: u8 = 0x7f;

/// Second magic byte of a recognized image header.
pub const MAGIC_1: u8 = 0x58;

/// Third magic byte of a recognized image header.
pub const MAGIC_2: u8 = 0x45;

/// Fourth magic byte of a recognized image header.
pub const MAGIC_3: u8 = 0x43;

/// Byte offset within the header at which the entry address is stored,
/// little-endian.
pub const ENTRY_OFFSET: usize = 8;

/// A structurally well-formed image: it holds at least a whole header page,
/// its length is a whole number of header units — the granularity the
/// allocator works in, so the usable size of the buffer's backing
/// allocation equals the buffer length and the payload bounds are exact
/// before any copy — and the magic number matches.
pub open spec fn spec_valid_image(data: Seq<u8>) -> bool {
    &&& data.len() >= HEADER_UNIT
    &&& (data.len() as int) % (HEADER_UNIT as int) == 0
    &&& data[0] == MAGIC_0
    &&& data[1] == MAGIC_1
    &&& data[2] == MAGIC_2
    &&& data[3] == MAGIC_3
}

/// The value of four little-endian bytes.
pub open spec fn spec_le32(b0: u8, b1: u8, b2: u8, b3: u8) -> int {
    b0 + 0x100 * b1 + 0x10000 * b2 + 0x1000000 * b3
}

/// The program entry address a well-formed image advertises.
pub open spec fn spec_entry(data: Seq<u8>) -> int
    recommends
        data.len() >= ENTRY_OFFSET + 4,
{
    spec_le32(
        data[ENTRY_OFFSET as int],
        data[ENTRY_OFFSET + 1],
        data[ENTRY_OFFSET + 2],
        data[ENTRY_OFFSET + 3],
    )
}

/// The byte length of the loadable payload: everything past the header page.
pub open spec fn spec_virtual_size(data: Seq<u8>) -> int {
    data.len() - HEADER_UNIT
}

/// The loadable payload itself.
pub open spec fn spec_payload(data: Seq<u8>) -> Seq<u8>
    recommends
        data.len() >= HEADER_UNIT,
{
    data.subrange(HEADER_UNIT as int, data.len() as int)
}

/// The parser's validated output: the descriptor the loader consumes.
pub struct ImageInfo {
    /// The virtual entry address the image advertises.
    pub entry: usize,
}

/// Validates a memory-resident byte buffer as an executable image.
///
/// `None` signals "not a recognized or valid image"; this is a normal
/// outcome the loader checks before using any field, not an error.
pub fn parse_image(data: &Vec<u8>) -> (r: Option<ImageInfo>)
    ensures
        r is Some <==> spec_valid_image(data@),
        r is Some ==> r.unwrap().entry == spec_entry(data@),
{
    if data.len() < HEADER_UNIT || data.len() % HEADER_UNIT != 0 {
        return None;
    }
    if data[0] != MAGIC_0 || data[1] != MAGIC_1 || data[2] != MAGIC_2 || data[3] != MAGIC_3 {
        return None;
    }
    let b0 = data[ENTRY_OFFSET];
    let b1 = data[ENTRY_OFFSET + 1];
    let b2 = data[ENTRY_OFFSET + 2];
    let b3 = data[ENTRY_OFFSET + 3];
    let entry: u32 = (b0 as u32) + 0x100 * (b1 as u32) + 0x10000 * (b2 as u32) + 0x1000000 * (
    b3 as u32);
    Some(ImageInfo { entry: entry as usize })
}

} // verus!
