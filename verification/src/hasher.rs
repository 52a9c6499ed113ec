//! The boundary to the `image` and `img_hash` crates: decoding a file's bytes
//! and hashing the decoded picture. The items marked as trusted are taken on
//! trust. Which pictures are handed to the hasher is decided here, so that
//! none reaches it that it cannot take.

use vstd::prelude::*;
use crate::distance::MAX_HASH_BYTES;
use crate::gif::{first_frame_overflows, overflows};

verus! {

/// The largest hash size that `img_hash` can be asked for: it rounds the size
/// up to a multiple of four for one of its algorithms and multiplies width by
/// height in 32 bits.
pub const MAX_HASH_SIZE: u32 = 65_532;

/// The largest hash size for the mean algorithm, which adds up a byte for
/// each bit of the hash in 32 bits: 255 times the square of the size must
/// stay in range.
pub const MAX_MEAN_HASH_SIZE: u32 = 4_104;

/// The largest hash size for Blockhash, which picks the median of each row
/// of blocks by a recursion that can go as deep as twice the hash size.
pub const MAX_BLOCK_HASH_SIZE: u32 = 1_024;

/// The longest side of a picture that Blockhash takes: up to here a pixel's
/// place in single-precision arithmetic falls within its row of blocks.
pub const MAX_BLOCK_SIDE: u32 = 1_048_576;

/// The largest number of pixels of one block that Blockhash takes: it adds
/// up to 765 for each pixel of a block in 32 bits.
pub const MAX_BLOCK_AREA: u64 = 5_614_333;

/// The hash algorithms that `img_hash` offers.
#[derive(Clone, Copy, Debug, PartialEq, Eq, Structural)]
pub enum HashType {
    /// Compare each pixel of the scaled-down picture with the mean.
    Mean,
    /// Compare neighbouring pixels along each row.
    Gradient,
    /// Compare neighbouring pixels along each column.
    VertGradient,
    /// Compare neighbouring pixels along rows and columns.
    DoubleGradient,
    /// The Blockhash.io algorithm.
    Blockhash,
}

/// The largest hash size that the algorithm can be asked for.
pub open spec fn max_hash_size(kind: HashType) -> u32 {
    if kind == HashType::Mean {
        MAX_MEAN_HASH_SIZE
    } else if kind == HashType::Blockhash {
        MAX_BLOCK_HASH_SIZE
    } else {
        MAX_HASH_SIZE
    }
}

/// The largest hash size that the algorithm can be asked for.
pub fn largest_hash_size(kind: HashType) -> (size: u32)
    ensures
        size == max_hash_size(kind),
{
    match kind {
        HashType::Mean => MAX_MEAN_HASH_SIZE,
        HashType::Blockhash => MAX_BLOCK_HASH_SIZE,
        _ => MAX_HASH_SIZE,
    }
}

/// The size as `img_hash` rounds it up for an algorithm that works in steps.
pub open spec fn rounded_up(size: int, step: int) -> int {
    (size + step - 1) / step * step
}

/// The number of bits of a hash of the given size. The mean algorithm
/// compares each of `size * size` pixels with the mean. The two gradient
/// algorithms compare each of `size` pixels of a row, or of a column, with
/// its neighbour, in `size` rows or columns. The double gradient algorithm
/// rounds the size up to an even number and does both on a picture of half
/// that size and one more each way. Blockhash rounds the size up to a
/// multiple of four and yields a bit for each block.
pub open spec fn hash_bits(size: u32, kind: HashType) -> int {
    match kind {
        HashType::Mean => size * size,
        HashType::Gradient => size * size,
        HashType::VertGradient => size * size,
        HashType::DoubleGradient => {
            let half = rounded_up(size as int, 2) / 2;
            (half + 1) * half + (half + 1) * half
        },
        HashType::Blockhash => rounded_up(size as int, 4) * rounded_up(size as int, 4),
    }
}

/// The number of bytes of a hash of the given size: eight bits to the byte,
/// the last byte filled up.
pub open spec fn hash_len(size: u32, kind: HashType) -> int {
    (hash_bits(size, kind) + 7) / 8
}

/// A hash of a size that the hasher can take is not empty, and short enough
/// to be compared.
pub proof fn lemma_hash_len_comparable(size: u32, kind: HashType)
    requires
        1 <= size <= max_hash_size(kind),
    ensures
        1 <= hash_len(size, kind) <= MAX_HASH_BYTES,
{
    let even = rounded_up(size as int, 2);
    let fourth = rounded_up(size as int, 4);
    let half = even / 2;
    assert(1 <= half <= 32_766);
    assert(4 <= fourth <= 65_532);
    assert(1 <= size * size <= 65_532 * 65_532) by (nonlinear_arith)
        requires
            1 <= size <= 65_532,
    ;
    assert(1 <= (half + 1) * half <= 32_767 * 32_766) by (nonlinear_arith)
        requires
            1 <= half <= 32_766,
    ;
    assert(1 <= fourth * fourth <= 65_532 * 65_532) by (nonlinear_arith)
        requires
            4 <= fourth <= 65_532,
    ;
}

/// A picture of the given width and height can be hashed: it is not empty,
/// and for Blockhash neither is a side too long nor a block too large.
pub open spec fn fits(width: u32, height: u32, size: u32, kind: HashType) -> bool {
    &&& width >= 1
    &&& height >= 1
    &&& kind == HashType::Blockhash ==> {
        &&& width <= MAX_BLOCK_SIDE
        &&& height <= MAX_BLOCK_SIDE
        &&& (width as int / rounded_up(size as int, 4)) * (height as int / rounded_up(
            size as int,
            4,
        )) <= MAX_BLOCK_AREA
    }
}

/// The reason given for a picture that cannot be hashed.
pub open spec fn unfit_reason(width: u32, height: u32) -> Seq<char> {
    if width == 0 || height == 0 {
        "the picture is empty"@
    } else {
        "the picture is too large for this hash"@
    }
}

/// Trusted: `image::DynamicImage`, a decoded picture. Opaque to the proofs.
#[verifier::external_type_specification]
#[verifier::external_body]
pub struct ExDynamicImage(image::DynamicImage);

/// Trusted: `image::ImageError`, the reason a decode failed. Opaque to the proofs.
#[verifier::external_type_specification]
#[verifier::external_body]
pub struct ExImageError(image::ImageError);

/// What a decoded picture is to the proofs: its width and its height.
pub struct PictureView {
    pub width: u32,
    pub height: u32,
}

/// A decoded picture, with its width and height in pixels.
pub struct Picture {
    pixels: image::DynamicImage,
    width: u32,
    height: u32,
}

impl View for Picture {
    type V = PictureView;

    closed spec fn view(&self) -> PictureView {
        PictureView { width: self.width, height: self.height }
    }
}

impl Picture {
    /// The width in pixels.
    pub fn width(&self) -> (width: u32)
        ensures
            width == self@.width,
    {
        self.width
    }

    /// The height in pixels.
    pub fn height(&self) -> (height: u32)
        ensures
            height == self@.height,
    {
        self.height
    }

    /// Whether the picture can be hashed to a hash of the given size by the
    /// given algorithm.
    pub fn fits(&self, size: u32, kind: HashType) -> (fits: bool)
        requires
            1 <= size <= max_hash_size(kind),
        ensures
            fits == self::fits(self@.width, self@.height, size, kind),
    {
        if self.width == 0 || self.height == 0 {
            return false;
        }
        match kind {
            HashType::Blockhash => {
                let step: u32 = (size + 3) / 4 * 4;
                let across: u64 = (self.width / step) as u64;
                let down: u64 = (self.height / step) as u64;
                assert(across * down <= 0xFFFF_FFFF * 0xFFFF_FFFF) by (nonlinear_arith)
                    requires
                        0 <= across <= 0xFFFF_FFFF,
                        0 <= down <= 0xFFFF_FFFF,
                ;
                self.width <= MAX_BLOCK_SIDE && self.height <= MAX_BLOCK_SIDE && across * down
                    <= MAX_BLOCK_AREA
            },
            _ => true,
        }
    }
}

/// The bytes are of a file that is not handed to the decoder: a GIF file
/// whose first frame starts at the origin and holds more pixels than the
/// screen.
pub open spec fn refused(contents: Seq<u8>) -> bool {
    first_frame_overflows(contents)
}

/// The reason given for a file that is not handed to the decoder.
pub open spec fn refusal_reason() -> Seq<char> {
    "the first frame of the GIF is larger than its screen"@
}

/// The width and height of the picture that `image::load_from_memory` makes
/// of the bytes of a file, where it makes one.
pub uninterp spec fn decoded_size(contents: Seq<u8>) -> Option<(u32, u32)>;

/// The bytes decode to a picture that can be hashed to a hash of the given
/// size by the given algorithm.
pub open spec fn hashable(contents: Seq<u8>, size: u32, kind: HashType) -> bool {
    decoded_size(contents) matches Some((width, height)) && fits(width, height, size, kind)
}

/// Trusted: `image::load_from_memory`, which guesses the format of the bytes
/// and decodes them, with the width and height that the decoded picture
/// reports of itself. A picture that it makes of the bytes has the width and
/// height that belong to those bytes. Whether it makes one is not claimed:
/// the decoder may fail for want of a thread. A GIF file whose first frame
/// overflows the screen is kept from it: it would read the frame into a
/// buffer of the size of the screen.
#[verifier::external_body]
pub(crate) fn decode(contents: &Vec<u8>) -> (decoded: Result<Picture, image::ImageError>)
    requires
        !refused(contents@),
    ensures
        decoded matches Ok(picture) ==> decoded_size(contents@) == Some(
            (picture@.width, picture@.height),
        ),
{
    match image::load_from_memory(contents) {
        Ok(pixels) => {
            let (width, height) = image::GenericImageView::dimensions(&pixels);
            Ok(Picture { pixels, width, height })
        },
        Err(e) => Err(e),
    }
}

/// Trusted: `img_hash::Hasher::hash_image`, on a hasher that `HasherConfig`
/// built for a square hash of the given size and the given algorithm. Of the
/// hash only its length is claimed: the crate scales the picture to a size
/// that the hash size fixes, yields one bit for each comparison that the
/// algorithm makes on it, and packs eight bits to the byte. The bounds on
/// the size and on the picture are those within which the scaling has a
/// pixel to sample and the crate's own 32-bit sums stay in range.
#[verifier::external_body]
pub(crate) fn perceptual_hash(picture: &Picture, size: u32, kind: HashType) -> (hash: Vec<u8>)
    requires
        1 <= size <= max_hash_size(kind),
        fits(picture@.width, picture@.height, size, kind),
    ensures
        hash@.len() == hash_len(size, kind),
{
    let alg = match kind {
        HashType::Mean => img_hash::HashAlg::Mean,
        HashType::Gradient => img_hash::HashAlg::Gradient,
        HashType::VertGradient => img_hash::HashAlg::VertGradient,
        HashType::DoubleGradient => img_hash::HashAlg::DoubleGradient,
        HashType::Blockhash => img_hash::HashAlg::Blockhash,
    };
    let hasher = img_hash::HasherConfig::new().hash_size(size, size).hash_alg(alg).to_hasher();
    hasher.hash_image(&picture.pixels).as_bytes().to_vec()
}

/// Decodes the bytes of a file and hashes the picture. A file that the
/// decoder cannot take fails with the reason why, before the decoder is
/// called. The outcome is a hash only when the bytes decode to a picture that
/// can be hashed; else it is the decoder's reason, or the reason why the
/// picture cannot be hashed.
pub fn decode_and_hash(contents: &Vec<u8>, size: u32, kind: HashType) -> (outcome: Result<
    Vec<u8>,
    String,
>)
    requires
        1 <= size <= max_hash_size(kind),
    ensures
        refused(contents@) ==> (outcome matches Err(reason) && reason@ == refusal_reason()),
        outcome is Ok ==> !refused(contents@) && hashable(contents@, size, kind),
        outcome matches Ok(hash) ==> hash@.len() == hash_len(size, kind),
{
    if overflows(contents) {
        return Err("the first frame of the GIF is larger than its screen".to_owned());
    }
    hash_decoded(decode(contents), size, kind)
}

/// Hashes what the decoder made of a file. A decoded picture that can be
/// hashed comes to its hash, of the length that the hash size and the
/// algorithm fix; one that cannot, to the reason why not; and a failure to
/// decode comes to the decoder's reason.
pub fn hash_decoded(decoded: Result<Picture, image::ImageError>, size: u32, kind: HashType) -> (outcome:
    Result<Vec<u8>, String>)
    requires
        1 <= size <= max_hash_size(kind),
    ensures
        outcome is Ok <==> (decoded matches Ok(picture) && fits(
            picture@.width,
            picture@.height,
            size,
            kind,
        )),
        outcome matches Ok(hash) ==> hash@.len() == hash_len(size, kind),
        decoded matches Ok(picture) ==> (!fits(picture@.width, picture@.height, size, kind) ==> (
        outcome matches Err(reason) && reason@ == unfit_reason(picture@.width, picture@.height))),
{
    match decoded {
        Ok(picture) => {
            if picture.fits(size, kind) {
                Ok(perceptual_hash(&picture, size, kind))
            } else if picture.width() == 0 || picture.height() == 0 {
                Err("the picture is empty".to_owned())
            } else {
                Err("the picture is too large for this hash".to_owned())
            }
        },
        Err(e) => Err(e.to_string()),
    }
}

} // verus!
