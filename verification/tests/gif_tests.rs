use img_dup::gif::{find_first_descriptor, overflows, starts_as_gif};
use img_dup::hasher::{decode_and_hash, HashType};
use img_dup::img::{HashSettings, ImgStatus};

const REFUSAL: &str = "the first frame of the GIF is larger than its screen";

/// A GIF file of one frame, as the encoder writes it.
fn gif(width: u32, height: u32) -> Vec<u8> {
    let buffer = image::ImageBuffer::from_fn(width, height, |x, y| {
        image::Rgba([(x * 40) as u8, (y * 40) as u8, 7, 255])
    });
    let mut bytes: Vec<u8> = Vec::new();
    image::DynamicImage::ImageRgba8(buffer)
        .write_to(&mut bytes, image::ImageOutputFormat::Gif)
        .expect("a picture encodes");
    bytes
}

fn with_screen(mut bytes: Vec<u8>, width: u16, height: u16) -> Vec<u8> {
    bytes[6..8].copy_from_slice(&width.to_le_bytes());
    bytes[8..10].copy_from_slice(&height.to_le_bytes());
    bytes
}

fn with_origin(mut bytes: Vec<u8>, left: u16, top: u16) -> Vec<u8> {
    let at = find_first_descriptor(&bytes).expect("the file has a frame");
    bytes[at..at + 2].copy_from_slice(&left.to_le_bytes());
    bytes[at + 2..at + 4].copy_from_slice(&top.to_le_bytes());
    bytes
}

/// A header, a screen, a graphic control extension, a comment in two
/// sub-blocks, and a descriptor of a frame at the origin.
fn by_hand(screen: (u16, u16), frame: (u16, u16)) -> Vec<u8> {
    let mut bytes = b"GIF89a".to_vec();
    bytes.extend_from_slice(&screen.0.to_le_bytes());
    bytes.extend_from_slice(&screen.1.to_le_bytes());
    bytes.extend_from_slice(&[0x80, 0, 0]);
    bytes.extend_from_slice(&[0, 0, 0, 255, 255, 255]);
    bytes.extend_from_slice(&[0x21, 0xF9, 4, 0, 0, 0, 0, 0]);
    bytes.extend_from_slice(&[0x21, 0xFE, 2, b'h', b'i', 3, b'y', b'o', b'u', 0]);
    bytes.push(0x2C);
    bytes.extend_from_slice(&[0, 0, 0, 0]);
    bytes.extend_from_slice(&frame.0.to_le_bytes());
    bytes.extend_from_slice(&frame.1.to_le_bytes());
    bytes.extend_from_slice(&[0, 2, 2, 0x4C, 0x01, 0, 0x3B]);
    bytes
}

#[test]
fn a_gif_file_is_told_by_its_first_bytes() {
    assert!(starts_as_gif(&b"GIF89a and more".to_vec()));
    assert!(starts_as_gif(&b"GIF87a".to_vec()));
    assert!(!starts_as_gif(&b"GIF88a".to_vec()));
    assert!(!starts_as_gif(&b"GIF89".to_vec()));
    assert!(!starts_as_gif(&b"\x89PNG\r\n".to_vec()));
    assert!(!starts_as_gif(&Vec::new()));
}

#[test]
fn the_first_descriptor_stands_behind_the_extensions() {
    let bytes = by_hand((4, 4), (2, 2));
    assert_eq!(bytes[37], 0x2C);
    assert_eq!(find_first_descriptor(&bytes), Some(38));
    let without_table = {
        let mut bytes = b"GIF87a".to_vec();
        bytes.extend_from_slice(&[1, 0, 1, 0, 0, 0, 0, 0x2C, 0, 0, 0, 0, 1, 0, 1, 0, 0]);
        bytes
    };
    assert_eq!(find_first_descriptor(&without_table), Some(14));
}

#[test]
fn a_file_without_a_frame_has_no_descriptor() {
    assert_eq!(find_first_descriptor(&Vec::new()), None);
    assert_eq!(find_first_descriptor(&b"GIF89a".to_vec()), None);
    assert_eq!(find_first_descriptor(&b"not a gif at all, but long enough".to_vec()), None);
    let trailer_only = {
        let mut bytes = b"GIF89a".to_vec();
        bytes.extend_from_slice(&[1, 0, 1, 0, 0, 0, 0, 0x3B]);
        bytes
    };
    assert_eq!(find_first_descriptor(&trailer_only), None);
    let mut cut = by_hand((4, 4), (2, 2));
    cut.truncate(30);
    assert_eq!(find_first_descriptor(&cut), None);
    let mut unknown = by_hand((4, 4), (2, 2));
    unknown[28] = 0x77;
    assert_eq!(find_first_descriptor(&unknown), None);
    let mut control_of_wrong_length = by_hand((4, 4), (2, 2));
    control_of_wrong_length[21] = 3;
    assert_eq!(find_first_descriptor(&control_of_wrong_length), None);
}

#[test]
fn a_frame_within_the_screen_does_not_overflow() {
    assert!(!overflows(&gif(5, 3)));
    assert!(!overflows(&by_hand((4, 4), (2, 2))));
    assert!(!overflows(&by_hand((4, 4), (4, 4))));
    assert!(!overflows(&by_hand((4, 4), (16, 1))));
    assert!(!overflows(&by_hand((0, 0), (0, 0))));
    assert!(!overflows(&b"\xFF\xD8\xFF\xE0 a JPEG file, say".to_vec()));
}

#[test]
fn a_frame_larger_than_the_screen_overflows() {
    assert!(overflows(&by_hand((1, 1), (2, 2))));
    assert!(overflows(&by_hand((4, 4), (17, 1))));
    assert!(overflows(&by_hand((0, 0), (1, 1))));
    assert!(overflows(&by_hand((255, 255), (256, 255))));
    assert!(overflows(&with_screen(gif(2, 2), 1, 1)));
}

#[test]
fn a_frame_away_from_the_origin_does_not_overflow() {
    assert!(!overflows(&with_origin(with_screen(gif(2, 2), 1, 1), 1, 0)));
    assert!(!overflows(&with_origin(with_screen(gif(2, 2), 1, 1), 0, 1)));
}

#[test]
fn a_gif_that_overflows_its_screen_is_not_decoded() {
    let bytes = with_screen(gif(2, 2), 1, 1);
    for kind in [HashType::Mean, HashType::Gradient, HashType::Blockhash] {
        assert_eq!(decode_and_hash(&bytes, 8, kind), Err(REFUSAL.to_owned()));
    }
    let mut status = ImgStatus::Unhashed("large.gif".to_owned());
    status.hash(&HashSettings::default(), Ok(with_screen(gif(6, 6), 3, 3)));
    match status {
        ImgStatus::Failed(path, reason) => {
            assert_eq!(path, "large.gif");
            assert_eq!(reason, REFUSAL);
        },
        other => panic!("expected a failed status, got {:?}", other),
    }
}

#[test]
fn a_gif_of_an_unusual_frame_is_still_decoded() {
    let smaller = with_screen(gif(2, 2), 3, 3);
    assert_eq!(decode_and_hash(&smaller, 8, HashType::Gradient).map(|hash| hash.len()), Ok(8));
    let same_area = with_screen(gif(2, 2), 4, 1);
    assert_eq!(decode_and_hash(&same_area, 8, HashType::Gradient).map(|hash| hash.len()), Ok(8));
    let shifted = with_origin(with_screen(gif(2, 2), 1, 1), 1, 0);
    assert_eq!(decode_and_hash(&shifted, 8, HashType::Gradient).map(|hash| hash.len()), Ok(8));
    let plain = gif(5, 3);
    assert_eq!(decode_and_hash(&plain, 8, HashType::Gradient).map(|hash| hash.len()), Ok(8));
}
