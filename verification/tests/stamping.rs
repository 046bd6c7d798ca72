//! The manifest tool.

use samd5_boot::consts::MANIFEST_OFFSET;
use samd5_boot::crc32;
use samd5_boot::manifest::{
    FMT_VER, MAGIC, MANIFEST_SIZE, MIN_IMAGE_LEN, OFF_BODY, OFF_CRC_IMG, OFF_CRC_VEC,
    OFF_FMT_VERSION, OFF_IMAGE_LEN, OFF_MAGIC, OFF_PUBKEY, OFF_RESERVED, OFF_SIG, OFF_SIG_SCHEME,
    OFF_VERSION,
};
use samd5_boot::manifest_tool::{pad_to_word, parse_args, parse_u16, patch, PatchError};

#[test]
fn manifest_offsets_are_pinned() {
    assert_eq!(OFF_CRC_VEC, 0x400);
    assert_eq!(OFF_CRC_IMG, 0x404);
    assert_eq!(OFF_BODY, 0x408);
    assert_eq!(OFF_PUBKEY, 0x408);
    assert_eq!(OFF_MAGIC, 0x410);
    assert_eq!(OFF_IMAGE_LEN, 0x414);
    assert_eq!(OFF_VERSION, 0x418);
    assert_eq!(OFF_FMT_VERSION, 0x41a);
    assert_eq!(OFF_SIG_SCHEME, 0x41c);
    assert_eq!(OFF_RESERVED, 0x41d);
    assert_eq!(OFF_SIG, 0x420);
    // sig_scheme (1) + reserved (3) place sig at 0x420; sig is 64 bytes, so
    // the manifest ends at 0x460 with no implicit padding.
    assert_eq!(MANIFEST_SIZE, 0x60);
    assert_eq!(MIN_IMAGE_LEN, 0x460);
    // The body CRC range starts 8 bytes past the manifest's start.
    assert_eq!(OFF_BODY - MANIFEST_OFFSET, 8);
}

#[test]
fn round_trip_matches_bootloader() {
    let len = 0x500usize; // 1280 bytes, word aligned, > MIN_IMAGE_LEN
    let mut image: Vec<u8> = (0..len).map(|i| (i * 7 + 3) as u8).collect();
    // Emulate an unstamped reserved slot (objcopy leaves it 0xFF).
    image[MANIFEST_OFFSET..MANIFEST_OFFSET + MANIFEST_SIZE].fill(0xFF);

    let version = 0x0203u16;
    patch(&mut image, version).unwrap();

    // Body fields landed where the ABI says.
    assert_eq!(read_u32(&image, OFF_MAGIC), MAGIC);
    assert_eq!(read_u16(&image, OFF_FMT_VERSION), FMT_VER);
    assert_eq!(read_u16(&image, OFF_VERSION), version);
    assert_eq!(read_u32(&image, OFF_IMAGE_LEN), len as u32);
    assert_eq!(read_u64(&image, OFF_PUBKEY), 0);
    assert!(image[OFF_SIG..OFF_SIG + 64].iter().all(|&b| b == 0xFF));

    // Recompute exactly as check_slot: head over [0, 0x400), body from the
    // body's offset to image_len.
    let expect_vec = crc32::crc32(&image[0..MANIFEST_OFFSET]);
    let body_start = MANIFEST_OFFSET + 8;
    let expect_img = crc32::crc32(&image[body_start..len]);

    assert_eq!(read_u32(&image, OFF_CRC_VEC), expect_vec);
    assert_eq!(read_u32(&image, OFF_CRC_IMG), expect_img);

    // The 8 head bytes are the ONLY bytes not under a CRC: flipping any byte
    // outside them must change one of the two recomputed CRCs.
    for probe in [0usize, MANIFEST_OFFSET - 1, body_start, len - 1] {
        let mut m = image.clone();
        m[probe] ^= 0xFF;
        let v = crc32::crc32(&m[0..MANIFEST_OFFSET]);
        let g = crc32::crc32(&m[body_start..len]);
        assert!(
            v != expect_vec || g != expect_img,
            "byte {probe:#x} is outside both CRC ranges but should be covered"
        );
    }
}

#[test]
fn image_len_stamped_after_pad_is_word_aligned_length() {
    // A 0x461-byte image (one past the floor, not word aligned) must be
    // rejected without --pad and stamped with the padded length with it.
    let mut unpadded = vec![0xAAu8; 0x461];
    unpadded[MANIFEST_OFFSET..MANIFEST_OFFSET + MANIFEST_SIZE].fill(0xFF);
    assert!(patch(&mut unpadded.clone(), 1).is_err());

    pad_to_word(&mut unpadded);
    assert_eq!(unpadded.len(), 0x464);
    assert_eq!(&unpadded[0x460..], &[0xAA, 0xFF, 0xFF, 0xFF]);
    patch(&mut unpadded, 1).unwrap();
    assert_eq!(read_u32(&unpadded, OFF_IMAGE_LEN), 0x464);
    pad_to_word(&mut unpadded);
    assert_eq!(unpadded.len(), 0x464);
}

#[test]
fn rejects_too_small() {
    let mut tiny = vec![0u8; MIN_IMAGE_LEN - 4];
    assert!(patch(&mut tiny, 1).is_err());
}

#[test]
fn cli_version_parsing() {
    assert_eq!(parse_u16("7").unwrap(), 7);
    assert_eq!(parse_u16("0x0203").unwrap(), 0x0203);
    assert_eq!(parse_u16("65535").unwrap(), 0xFFFF);
    assert!(parse_u16("65536").is_err());
    assert!(parse_u16("nope").is_err());
}

fn args(list: &[&str]) -> Vec<String> {
    list.iter().map(|s| s.to_string()).collect()
}

#[test]
fn arguments_come_in_any_order() {
    let a = parse_args(&args(&["in.bin", "--version", "0x10", "out.bin", "--pad"])).unwrap();
    assert_eq!((a.input.as_str(), a.output.as_str()), ("in.bin", "out.bin"));
    assert_eq!((a.version, a.pad), (16, true));
    let b = parse_args(&args(&["--version", "2", "a", "b"])).unwrap();
    assert_eq!((b.version, b.pad), (2, false));
}

#[test]
fn bad_arguments_are_named() {
    assert!(matches!(parse_args(&args(&["a", "b"])), Err(PatchError::VersionRequired)));
    assert!(matches!(parse_args(&args(&["a", "b", "--version"])), Err(PatchError::VersionNeedsValue)));
    assert!(matches!(
        parse_args(&args(&["a", "b", "--version", "x"])),
        Err(PatchError::InvalidVersion { raw }) if raw == "x"
    ));
    assert!(matches!(parse_args(&args(&["--help"])), Err(PatchError::Help)));
    assert!(matches!(
        parse_args(&args(&["--nope"])),
        Err(PatchError::UnknownFlag { flag }) if flag == "--nope"
    ));
    assert!(matches!(
        parse_args(&args(&["a", "--version", "1"])),
        Err(PatchError::Positional { count: 1 })
    ));
    assert!(matches!(patch(&mut [0; 8], 1), Err(PatchError::TooShort { len: 8 })));
    assert!(matches!(
        patch(&mut vec![0; 0x461], 1),
        Err(PatchError::Unaligned { len: 0x461 })
    ));
}

fn read_u16(buf: &[u8], off: usize) -> u16 {
    u16::from_le_bytes(buf[off..off + 2].try_into().unwrap())
}
fn read_u32(buf: &[u8], off: usize) -> u32 {
    u32::from_le_bytes(buf[off..off + 4].try_into().unwrap())
}
fn read_u64(buf: &[u8], off: usize) -> u64 {
    u64::from_le_bytes(buf[off..off + 8].try_into().unwrap())
}
