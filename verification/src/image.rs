//! Process image format.
//!
//! A loadable process lives in flash as a fixed header followed by its code
//! and data. The header declares a magic value, a format version, the total
//! image length, how much RAM the process needs, the entry-point offset, and
//! the length of the writable-data template that seeds the process's RAM.
//! The kernel never runs an image whose header it has not validated; every
//! check and the exact error it reports are stated here.

use vstd::prelude::*;

verus! {

/// Length of the image header in bytes: six 32-bit little-endian words.
pub const HEADER_BYTES: usize = 24;

/// Value the first header word must hold.
pub const IMAGE_MAGIC: u32 = 0x50494D47;

/// The one header format version this kernel accepts.
pub const IMAGE_VERSION: u32 = 2;

/// Words of RAM kept free above the initial stack pointer, so that a fresh
/// process cannot clobber the top of its own memory on its first frames.
pub const STACK_GUARD_BYTES: u32 = 16;

/// The 32-bit little-endian word stored at byte offset `off`.
pub open spec fn le32(s: Seq<u8>, off: int) -> u32 {
    (s[off] + s[off + 1] * 0x100 + s[off + 2] * 0x10000 + s[off + 3] * 0x1000000) as u32
}

/// Byte offsets of the header words.
pub open spec fn spec_magic(img: Seq<u8>) -> u32 {
    le32(img, 0)
}

pub open spec fn spec_version(img: Seq<u8>) -> u32 {
    le32(img, 4)
}

/// Declared length of the whole image, header included.
pub open spec fn spec_total_size(img: Seq<u8>) -> u32 {
    le32(img, 8)
}

/// RAM the process declares it needs for its data, heap and stack.
pub open spec fn spec_ram_size(img: Seq<u8>) -> u32 {
    le32(img, 12)
}

/// Offset of the first instruction, relative to the image start.
pub open spec fn spec_entry_offset(img: Seq<u8>) -> u32 {
    le32(img, 16)
}

/// Length of the writable-data template that follows the header.
pub open spec fn spec_data_size(img: Seq<u8>) -> u32 {
    le32(img, 20)
}

/// The bytes are long enough to hold a header at all.
pub open spec fn header_readable(img: Seq<u8>) -> bool {
    img.len() >= HEADER_BYTES
}

pub open spec fn magic_ok(img: Seq<u8>) -> bool {
    spec_magic(img) == IMAGE_MAGIC
}

pub open spec fn version_ok(img: Seq<u8>) -> bool {
    spec_version(img) == IMAGE_VERSION
}

/// The declared sizes are mutually consistent and fit the RAM available:
/// the image holds what its header declares, the entry point lies inside
/// it, the data template fits below the stack guard, and the declared RAM
/// need does not exceed the region offered to the process.
pub open spec fn sizes_ok(img: Seq<u8>, avail_ram: int) -> bool {
    &&& spec_total_size(img) <= img.len()
    &&& HEADER_BYTES + spec_data_size(img) <= spec_total_size(img)
    &&& spec_entry_offset(img) < spec_total_size(img)
    &&& spec_data_size(img) + STACK_GUARD_BYTES <= spec_ram_size(img)
    &&& spec_ram_size(img) <= avail_ram
}

/// An image may be loaded into `avail_ram` bytes of RAM exactly when all
/// header checks pass.
pub open spec fn image_valid(img: Seq<u8>, avail_ram: int) -> bool {
    &&& header_readable(img)
    &&& magic_ok(img)
    &&& version_ok(img)
    &&& sizes_ok(img, avail_ram)
}

/// Why a process image is refused. `OutOfSlots` is reported by the process
/// table when no slot is free; the other three come from the header checks.
#[derive(Clone, Copy, PartialEq, Eq, Structural, Debug)]
pub enum LoadError {
    BadMagic,
    VersionMismatch,
    SizeMismatch,
    OutOfSlots,
}

/// The error an invalid image is refused with: a short image is a size
/// mismatch, then the magic is checked, then the version, then the sizes.
pub open spec fn spec_load_error(img: Seq<u8>, avail_ram: int) -> LoadError {
    if !header_readable(img) {
        LoadError::SizeMismatch
    } else if !magic_ok(img) {
        LoadError::BadMagic
    } else if !version_ok(img) {
        LoadError::VersionMismatch
    } else {
        LoadError::SizeMismatch
    }
}

/// The validated header words of an accepted image.
#[derive(Clone, Copy, PartialEq, Eq, Structural, Debug)]
pub struct ImageHeader {
    pub total_size: u32,
    pub ram_size: u32,
    pub entry_offset: u32,
    pub data_size: u32,
}

impl ImageHeader {
    /// The header holds exactly the words of `img`.
    pub open spec fn matches(self, img: Seq<u8>) -> bool {
        &&& self.total_size == spec_total_size(img)
        &&& self.ram_size == spec_ram_size(img)
        &&& self.entry_offset == spec_entry_offset(img)
        &&& self.data_size == spec_data_size(img)
    }
}

/// Reads the 32-bit little-endian word at byte offset `off`.
pub fn read_le32(img: &Vec<u8>, off: usize) -> (r: u32)
    requires
        off + 4 <= img.len(),
    ensures
        r == le32(img@, off as int),
{
    let b0 = img[off] as u32;
    let b1 = img[off + 1] as u32;
    let b2 = img[off + 2] as u32;
    let b3 = img[off + 3] as u32;
    b0 + b1 * 0x100 + b2 * 0x10000 + b3 * 0x1000000
}

/// Validates an image header against `avail_ram` bytes of RAM. Succeeds
/// exactly on valid images and reports the first failed check otherwise;
/// nothing is mutated either way.
pub fn parse_header(img: &Vec<u8>, avail_ram: usize) -> (r: Result<ImageHeader, LoadError>)
    ensures
        r is Ok <==> image_valid(img@, avail_ram as int),
        r matches Ok(h) ==> h.matches(img@),
        r matches Err(e) ==> e == spec_load_error(img@, avail_ram as int),
{
    if img.len() < HEADER_BYTES {
        return Err(LoadError::SizeMismatch);
    }
    let magic = read_le32(img, 0);
    if magic != IMAGE_MAGIC {
        return Err(LoadError::BadMagic);
    }
    let version = read_le32(img, 4);
    if version != IMAGE_VERSION {
        return Err(LoadError::VersionMismatch);
    }
    let total_size = read_le32(img, 8);
    let ram_size = read_le32(img, 12);
    let entry_offset = read_le32(img, 16);
    let data_size = read_le32(img, 20);
    let sizes_fit = (total_size as u64) <= (img.len() as u64)
        && (HEADER_BYTES as u64) + (data_size as u64) <= (total_size as u64)
        && (entry_offset as u64) < (total_size as u64)
        && (data_size as u64) + (STACK_GUARD_BYTES as u64) <= (ram_size as u64)
        && (ram_size as u64) <= (avail_ram as u64);
    if !sizes_fit {
        return Err(LoadError::SizeMismatch);
    }
    Ok(ImageHeader { total_size, ram_size, entry_offset, data_size })
}

/// RAM contents of a freshly loaded or freshly restarted process: the
/// writable-data template copied from the image, zero bytes everywhere
/// else.
pub open spec fn fresh_ram(img: Seq<u8>, ram_len: nat) -> Seq<u8> {
    Seq::new(
        ram_len,
        |i: int|
            if i < spec_data_size(img) {
                img[HEADER_BYTES + i]
            } else {
                0u8
            },
    )
}

/// Builds the initial RAM contents for a process of `ram_len` bytes loaded
/// from `img`.
pub fn initialize_ram(img: &Vec<u8>, ram_len: usize) -> (r: Vec<u8>)
    requires
        HEADER_BYTES + spec_data_size(img@) <= img.len(),
        spec_data_size(img@) <= ram_len,
    ensures
        r@ == fresh_ram(img@, ram_len as nat),
{
    let data_size = read_le32(img, 20) as usize;
    let mut ram: Vec<u8> = Vec::new();
    let mut i: usize = 0;
    while i < ram_len
        invariant
            i <= ram_len,
            ram@.len() == i,
            data_size == spec_data_size(img@),
            HEADER_BYTES + data_size <= img.len(),
            forall|j: int|
                0 <= j < i ==> ram@[j] == (if j < data_size as int {
                    img@[HEADER_BYTES + j]
                } else {
                    0u8
                }),
        decreases ram_len - i,
    {
        if i < data_size {
            ram.push(img[HEADER_BYTES + i]);
        } else {
            ram.push(0);
        }
        i = i + 1;
    }
    proof {
        assert(ram@ =~= fresh_ram(img@, ram_len as nat));
    }
    ram
}

} // verus!
