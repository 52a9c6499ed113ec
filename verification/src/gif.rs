//! What a GIF file says of its screen and of its first frame, read from the
//! bytes of the file as the decoder walks them. A first frame that starts at
//! the origin and holds more pixels than the screen is one that the decoder
//! cannot take: it reads the frame into a buffer of the size of the screen.

use vstd::prelude::*;

verus! {

/// The bytes start as a GIF file does: `GIF87a` or `GIF89a`.
pub open spec fn is_gif(bytes: Seq<u8>) -> bool {
    &&& bytes.len() >= 6
    &&& bytes[0] == 0x47
    &&& bytes[1] == 0x49
    &&& bytes[2] == 0x46
    &&& bytes[3] == 0x38
    &&& (bytes[4] == 0x37 || bytes[4] == 0x39)
    &&& bytes[5] == 0x61
}

/// The number that the two bytes at `at` hold, the low byte first.
pub open spec fn le16(bytes: Seq<u8>, at: int) -> int {
    bytes[at] + 256 * bytes[at + 1]
}

/// The length in bytes of the colour table that the flags announce: none
/// without the top bit, else three bytes for each of two to the power of one
/// more than the low three bits.
pub open spec fn table_len(flags: u8) -> int {
    if flags < 128 {
        0
    } else if flags % 8 == 0 {
        6
    } else if flags % 8 == 1 {
        12
    } else if flags % 8 == 2 {
        24
    } else if flags % 8 == 3 {
        48
    } else if flags % 8 == 4 {
        96
    } else if flags % 8 == 5 {
        192
    } else if flags % 8 == 6 {
        384
    } else {
        768
    }
}

/// The label is of an extension that the decoder walks over: plain text,
/// graphic control, comment or application.
pub open spec fn known_label(label: u8) -> bool {
    label == 0x01 || label == 0xF9 || label == 0xFE || label == 0xFF
}

/// Where the first image descriptor stands, for a walk that is at the start
/// of a block at `at`: just behind the next image separator, walking over
/// the extensions before it. There is none where the walk meets the trailer,
/// a block of another kind, an extension with an unknown label, a graphic
/// control extension whose first sub-block has another length than four, or
/// the end of the bytes.
pub open spec fn descriptor_from(bytes: Seq<u8>, at: int) -> Option<int>
    decreases bytes.len() - at, 1int,
{
    if at < 0 || at >= bytes.len() {
        None
    } else if bytes[at] == 0x2C {
        Some(at + 1)
    } else if bytes[at] == 0x21 && at + 2 < bytes.len() && known_label(bytes[at + 1]) && (bytes[at
        + 1] == 0xF9 ==> bytes[at + 2] == 4) && at + 3 + bytes[at + 2] < bytes.len() {
        descriptor_behind(bytes, at + 3 + bytes[at + 2])
    } else {
        None
    }
}

/// The same, for a walk that is within an extension, behind its first
/// sub-block, at the length of a sub-block at `at`: a length of zero ends the
/// extension, and any other is followed by that many bytes and by the next
/// length.
pub open spec fn descriptor_behind(bytes: Seq<u8>, at: int) -> Option<int>
    decreases bytes.len() - at, 0int,
{
    if at < 0 || at >= bytes.len() {
        None
    } else if bytes[at] == 0 {
        descriptor_from(bytes, at + 1)
    } else if at + 1 + bytes[at] < bytes.len() {
        descriptor_behind(bytes, at + 1 + bytes[at])
    } else {
        None
    }
}

/// Where the first image descriptor of a GIF file stands: the blocks start
/// behind the header of thirteen bytes and the global colour table.
pub open spec fn first_descriptor(bytes: Seq<u8>) -> Option<int> {
    if is_gif(bytes) && bytes.len() >= 13 {
        descriptor_from(bytes, 13 + table_len(bytes[10]))
    } else {
        None
    }
}

/// The first frame of the GIF file starts at the origin and holds more
/// pixels than the screen.
pub open spec fn first_frame_overflows(bytes: Seq<u8>) -> bool {
    first_descriptor(bytes) matches Some(at) && at + 8 <= bytes.len() && le16(bytes, at) == 0
        && le16(bytes, at + 2) == 0 && le16(bytes, at + 4) * le16(bytes, at + 6) > le16(bytes, 6)
        * le16(bytes, 8)
}

/// The number that the two bytes at `at` hold, the low byte first.
fn read_le16(bytes: &Vec<u8>, at: usize) -> (value: u32)
    requires
        at + 1 < bytes@.len(),
    ensures
        value == le16(bytes@, at as int),
        value <= 65_535,
{
    let len = bytes.len();
    bytes[at] as u32 + 256 * (bytes[at + 1] as u32)
}

/// Whether the bytes start as a GIF file does.
pub fn starts_as_gif(bytes: &Vec<u8>) -> (gif: bool)
    ensures
        gif == is_gif(bytes@),
{
    bytes.len() >= 6 && bytes[0] == 0x47 && bytes[1] == 0x49 && bytes[2] == 0x46 && bytes[3]
        == 0x38 && (bytes[4] == 0x37 || bytes[4] == 0x39) && bytes[5] == 0x61
}

/// The length in bytes of the colour table that the flags announce.
fn table_bytes(flags: u8) -> (len: usize)
    ensures
        len == table_len(flags),
{
    if flags < 128 {
        0
    } else {
        match flags % 8 {
            0 => 6,
            1 => 12,
            2 => 24,
            3 => 48,
            4 => 96,
            5 => 192,
            6 => 384,
            _ => 768,
        }
    }
}

/// Finds where the first image descriptor of a GIF file stands.
pub fn find_first_descriptor(bytes: &Vec<u8>) -> (found: Option<usize>)
    ensures
        match found {
            Some(at) => first_descriptor(bytes@) == Some(at as int) && at <= bytes@.len(),
            None => first_descriptor(bytes@) is None,
        },
{
    if !starts_as_gif(bytes) || bytes.len() < 13 {
        return None;
    }
    let len = bytes.len();
    let table = table_bytes(bytes[10]);
    if len - 13 <= table {
        return None;
    }
    let mut at: usize = 13 + table;
    let mut within: bool = false;
    loop
        invariant
            len == bytes@.len(),
            at < len,
            first_descriptor(bytes@) == if within {
                descriptor_behind(bytes@, at as int)
            } else {
                descriptor_from(bytes@, at as int)
            },
        decreases len - at, if within { 0int } else { 1int },
    {
        if within {
            let size = bytes[at] as usize;
            if size == 0 {
                if len - at <= 1 {
                    assert(descriptor_from(bytes@, at + 1) is None);
                    return None;
                }
                at = at + 1;
                within = false;
            } else {
                if len - at <= 1 + size {
                    return None;
                }
                at = at + 1 + size;
            }
        } else {
            if bytes[at] == 0x2C {
                return Some(at + 1);
            }
            if bytes[at] != 0x21 || len - at <= 2 {
                return None;
            }
            let label = bytes[at + 1];
            if !(label == 0x01 || label == 0xF9 || label == 0xFE || label == 0xFF) {
                return None;
            }
            let first = bytes[at + 2] as usize;
            if label == 0xF9 && first != 4 {
                return None;
            }
            if len - at <= 3 + first {
                return None;
            }
            at = at + 3 + first;
            within = true;
        }
    }
}

/// Whether the first frame of the GIF file starts at the origin and holds
/// more pixels than the screen.
pub fn overflows(bytes: &Vec<u8>) -> (overflows: bool)
    ensures
        overflows == first_frame_overflows(bytes@),
{
    match find_first_descriptor(bytes) {
        None => false,
        Some(at) => {
            if bytes.len() - at < 8 {
                return false;
            }
            let left = read_le16(bytes, at);
            let top = read_le16(bytes, at + 2);
            let width = read_le16(bytes, at + 4);
            let height = read_le16(bytes, at + 6);
            let screen_width = read_le16(bytes, 6);
            let screen_height = read_le16(bytes, 8);
            assert(width * height <= 65_535 * 65_535 && screen_width * screen_height <= 65_535
                * 65_535) by (nonlinear_arith)
                requires
                    width <= 65_535,
                    height <= 65_535,
                    screen_width <= 65_535,
                    screen_height <= 65_535,
            ;
            left == 0 && top == 0 && width as u64 * height as u64 > screen_width as u64
                * screen_height as u64
        },
    }
}

} // verus!
