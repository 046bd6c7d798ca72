//! The flash ABI: geometry, CRC, manifest and boot-info layouts.

use samd5_boot::boot_info;
use samd5_boot::boot_info::{BootInfo, BOOT_INFO_SIZE};
use samd5_boot::bytes::{read_u16, read_u32, read_u64, write_u64};
use samd5_boot::consts;
use samd5_boot::consts::geometry::{
    bank_size, boot_info_addr, boot_region_mask, boot_size_valid, bootprot_value, lock_region_size,
};
use samd5_boot::consts::{Density, Layout, MANIFEST_OFFSET};
use samd5_boot::crc32::{crc32, shift_byte};
use samd5_boot::manifest::{
    read_version, stamp, AppManifest, SigScheme, StampError, FMT_VER, MAGIC, MANIFEST_SIZE,
    MIN_IMAGE_LEN, OFF_BODY, OFF_CRC_IMG, OFF_CRC_VEC, OFF_FMT_VERSION, OFF_IMAGE_LEN, OFF_MAGIC,
    OFF_PUBKEY, OFF_RESERVED, OFF_SIG, OFF_SIG_SCHEME, OFF_VERSION,
};

const K: usize = 1024;

/// BOOTPROT protects `(15 - value)` times 8 KiB.
#[test]
fn bootprot_encoding_counts_down() {
    assert_eq!(bootprot_value(0), 15);
    assert_eq!(bootprot_value(16 * K), 13);
    assert_eq!(bootprot_value(32 * K), 11);
    assert_eq!(bootprot_value(64 * K), 7);
    assert_eq!(bootprot_value(96 * K), 3);
    assert_eq!(bootprot_value(consts::BOOTPROT_MAX), 0);
}

/// Always 32 regions across the whole flash, whatever the density.
#[test]
fn regions_scale_with_density() {
    assert_eq!(lock_region_size(1024 * K), 32 * K);
    assert_eq!(lock_region_size(512 * K), 16 * K);
    assert_eq!(lock_region_size(256 * K), 8 * K);
    for flash in [256 * K, 512 * K, 1024 * K] {
        assert_eq!(bank_size(flash) / lock_region_size(flash), 16);
    }
}

/// Both copies of BOOT: the low regions of each bank, the inactive one
/// starting at region 16.
#[test]
fn boot_mask_covers_both_banks() {
    assert_eq!(boot_region_mask(1024 * K, 32 * K), 0x0001_0001);
    assert_eq!(boot_region_mask(1024 * K, 64 * K), 0x0003_0003);
    assert_eq!(boot_region_mask(512 * K, 32 * K), 0x0003_0003);
    assert_eq!(boot_region_mask(256 * K, 16 * K), 0x0003_0003);
}

/// A BOOT region has to be a whole number of lock regions, or the mirror
/// cannot be write protected.
#[test]
fn boot_size_must_be_lockable() {
    assert!(!boot_size_valid(1024 * K, 16 * K));
    assert!(boot_size_valid(1024 * K, 32 * K));
    assert!(boot_size_valid(512 * K, 16 * K));
    assert!(boot_size_valid(256 * K, 16 * K));
    // Past what BOOTPROT can express, and a BOOT that leaves no bank for the
    // application (128 KiB is the whole bank on a 256 KiB part).
    assert!(!boot_size_valid(1024 * K, 128 * K));
    assert!(!boot_size_valid(256 * K, 128 * K));
    assert!(!boot_size_valid(1024 * K, 0));
    // 96 KiB on a 256 KiB part is legal, if cramped: 32 KiB of app left.
    assert!(boot_size_valid(256 * K, 96 * K));
}

#[test]
fn boot_info_sits_in_the_top_page() {
    assert_eq!(boot_info_addr(32 * K), 32 * K - consts::PAGE_SIZE);
    assert_eq!(boot_info_addr(64 * K), 64 * K - consts::PAGE_SIZE);
}

#[test]
fn a_layout_knows_its_part() {
    let layout = Layout::new(Density::D20, 32 * K).unwrap();
    assert_eq!(layout.bank_size(), 512 * K);
    assert_eq!(layout.inactive_slot_addr(), 512 * K);
    assert_eq!(layout.lock_region_size(), 32 * K);
    assert_eq!(layout.bootprot_value(), 11);
    assert_eq!(layout.boot_info_addr(), 0x7E00);
    assert_eq!(layout.boot_regions(), 0x0001_0001);
    assert!(Layout::new(Density::D20, 16 * K).is_none());
    assert_eq!(Density::D18.flash_size(), 256 * K);
    assert_eq!(Density::D18.ram_size(), 128 * K);
    assert_eq!(Density::D19.ram_size(), 192 * K);
    assert_eq!(Density::D20.ram_size(), 256 * K);
}

/// Well-known CRC-32/ISO-HDLC values.
#[test]
fn known_vectors() {
    assert_eq!(crc32(b""), 0x0000_0000);
    assert_eq!(crc32(b"123456789"), 0xCBF4_3926);
    assert_eq!(crc32(b"a"), 0xE8B7_BE43);
    assert_eq!(crc32(b"abc"), 0x3524_41C2);
    assert_eq!(
        crc32(b"The quick brown fox jumps over the lazy dog"),
        0x414F_A339
    );
}

#[test]
fn fixed_binary_vector() {
    let buf: [u8; 16] = [
        0x00, 0x01, 0x02, 0x03, 0x04, 0x05, 0x06, 0x07, 0xF8, 0xF9, 0xFA, 0xFB, 0xFC, 0xFD, 0xFE,
        0xFF,
    ];
    assert_eq!(crc32(&buf), 0x92DE_F389);
}

/// An all-0xFF word: what an erased, unstamped region looks like.
#[test]
fn erased_word() {
    assert_eq!(crc32(&[0xFF, 0xFF, 0xFF, 0xFF]), 0xFFFF_FFFF);
}

#[test]
fn one_shift_is_one_table_entry() {
    assert_eq!(shift_byte(0), 0);
    assert_eq!(shift_byte(1), 0x7707_3096);
    assert_eq!(shift_byte(255), 0x2D02_EF8D);
}

#[test]
fn any_changed_byte_changes_the_crc() {
    let data: Vec<u8> = (0..64u8).collect();
    let crc = crc32(&data);
    for at in 0..data.len() {
        for flip in [1u8, 0x80, 0xFF] {
            let mut damaged = data.clone();
            damaged[at] ^= flip;
            assert_ne!(crc32(&damaged), crc);
        }
    }
}

/// The flash ABI as byte offsets. An installed BOOT reads manifests from
/// applications built years later, so these are frozen.
#[test]
fn offsets_are_pinned() {
    assert_eq!(OFF_CRC_VEC, 0x400);
    assert_eq!(OFF_CRC_IMG, 0x404);
    assert_eq!(OFF_BODY, 0x408);
    assert_eq!(OFF_PUBKEY, 0x408);
    assert_eq!(OFF_MAGIC, 0x410);
    assert_eq!(OFF_IMAGE_LEN, 0x414);
    assert_eq!(OFF_VERSION, 0x418);
    assert_eq!(OFF_FMT_VERSION, 0x41a);
    assert_eq!(OFF_SIG_SCHEME, 0x41c);
    assert_eq!(OFF_RESERVED, 0x41d);
    assert_eq!(OFF_SIG, 0x420);
    assert_eq!(MANIFEST_SIZE, 0x60);
    assert_eq!(MIN_IMAGE_LEN, 0x460);
}

#[test]
fn stamps_what_check_slot_reads() {
    let mut image = vec![0xFFu8; MIN_IMAGE_LEN + 64];
    // A recognisable vector table, so crc32_vec_table is not a constant.
    for (i, b) in image[..0x100].iter_mut().enumerate() {
        *b = i as u8;
    }
    let stamped = stamp(&mut image, 7).unwrap();

    assert_eq!(stamped.image_len as usize, image.len());
    assert_eq!(read_version(&image), Some(7));
    assert_eq!(
        u32::from_le_bytes(image[OFF_MAGIC..OFF_MAGIC + 4].try_into().unwrap()),
        MAGIC
    );
    assert_eq!(image[OFF_SIG_SCHEME], SigScheme::Unsigned.code());
    // The head CRCs are the only bytes no CRC covers.
    assert_eq!(stamped.crc32_vec_table, crc32(&image[..MANIFEST_OFFSET]));
    assert_eq!(stamped.crc32_image, crc32(&image[OFF_BODY..image.len()]));
}

#[test]
fn refuses_images_it_cannot_stamp() {
    assert!(matches!(
        stamp(&mut vec![0xFF; MIN_IMAGE_LEN - 4], 1),
        Err(StampError::TooShort { .. })
    ));
    assert!(matches!(
        stamp(&mut vec![0xFF; MIN_IMAGE_LEN + 1], 1),
        Err(StampError::Unaligned { .. })
    ));
    assert_eq!(
        stamp(&mut vec![0xFF; MIN_IMAGE_LEN - 4], 1).err(),
        Some(StampError::TooShort { len: 0x45C, need: 0x460 })
    );
}

/// An unstamped image must not read as a valid one.
#[test]
fn unstamped_has_no_version() {
    assert_eq!(read_version(&vec![0xFF; MIN_IMAGE_LEN]), None);
    assert_eq!(read_version(&[0u8; 16]), None);
}

#[test]
fn stamping_again_changes_nothing() {
    let mut image: Vec<u8> = (0..0x600usize).map(|i| (i * 5) as u8).collect();
    stamp(&mut image, 3).unwrap();
    let once = image.clone();
    stamp(&mut image, 3).unwrap();
    assert_eq!(image, once);
    // Only the manifest was touched.
    for i in 0..image.len() {
        if !(MANIFEST_OFFSET..MANIFEST_OFFSET + MANIFEST_SIZE).contains(&i) {
            assert_eq!(image[i], (i * 5) as u8);
        }
    }
}

#[test]
fn a_manifest_reads_back_field_by_field() {
    let mut image: Vec<u8> = vec![0x5A; 0x800];
    stamp(&mut image, 0x1234).unwrap();
    let m = AppManifest::from_bytes(&image[MANIFEST_OFFSET..MANIFEST_OFFSET + MANIFEST_SIZE]);
    assert_eq!(m.head.crc32_vec_table, crc32(&image[..MANIFEST_OFFSET]));
    assert_eq!(m.head.crc32_image, crc32(&image[OFF_BODY..]));
    assert_eq!(m.body.pubkey_id, 0);
    assert_eq!(m.body.magic, MAGIC);
    assert_eq!(m.body.image_len, 0x800);
    assert_eq!(m.body.version, 0x1234);
    assert_eq!(m.body.fmt_version, FMT_VER);
    assert_eq!(m.body.scheme(), Some(SigScheme::Unsigned));
    assert_eq!(m.body.reserved, [0; 3]);
    assert!(m.body.sig.iter().all(|&b| b == 0xFF));
    assert_eq!(SigScheme::from_u8(SigScheme::EcdsaP256Sha256.code()), Some(SigScheme::EcdsaP256Sha256));
    assert_eq!(SigScheme::from_u8(2), None);
}

#[test]
fn a_placeholder_describes_no_image() {
    let m = AppManifest::placeholder();
    assert_eq!((m.head.crc32_vec_table, m.head.crc32_image), (0, 0));
    assert_eq!((m.body.magic, m.body.fmt_version), (MAGIC, FMT_VER));
    assert_eq!((m.body.image_len, m.body.version), (0, 0));
    assert_eq!(m.body.sig, [0xFF; 64]);
}

#[test]
fn layout_is_pinned() {
    let info = BootInfo {
        magic: 0x0403_0201,
        abi_version: 0x0605,
        transport_version: 0x0807,
        boot_size: 0x0C0B_0A09,
        build_id: 0x100F_0E0D,
    };
    let bytes = info.to_bytes();
    assert_eq!(bytes.len(), 16);
    assert_eq!(BOOT_INFO_SIZE, 16);
    assert_eq!(read_u32(&bytes, 0), info.magic);
    assert_eq!(read_u16(&bytes, 4), info.abi_version);
    assert_eq!(read_u16(&bytes, 6), info.transport_version);
    assert_eq!(read_u32(&bytes, 8), info.boot_size);
    assert_eq!(read_u32(&bytes, 12), info.build_id);
    assert_eq!(bytes, (1..=16u8).collect::<Vec<u8>>());
    assert!(BOOT_INFO_SIZE <= consts::PAGE_SIZE);
}

#[test]
fn a_boot_info_block_reads_back() {
    let info = BootInfo {
        magic: boot_info::MAGIC,
        abi_version: boot_info::ABI_VERSION,
        transport_version: 1,
        boot_size: 0x8000,
        build_id: 77,
    };
    let read = BootInfo::read(&info.to_bytes()).validated().unwrap();
    assert_eq!(read.boot_size, 0x8000);
    assert_eq!(read.build_id, 77);
    assert!(BootInfo::read(&[0xFF; 16]).validated().is_none());
}

#[test]
fn words_are_little_endian() {
    let mut buf = [0u8; 10];
    write_u64(&mut buf, 1, 0x1122_3344_5566_7788);
    assert_eq!(buf, [0, 0x88, 0x77, 0x66, 0x55, 0x44, 0x33, 0x22, 0x11, 0]);
    assert_eq!(read_u64(&buf, 1), 0x1122_3344_5566_7788);
    assert_eq!(read_u16(&buf, 2), 0x6677);
    assert_eq!(read_u32(&buf, 3), 0x3344_5566);
}
