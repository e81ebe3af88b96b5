use servo4257::app_meta::{AppMeta, APP_META_MAGIC, APP_META_VERSION, APP_REGION_LEN};
use servo4257::boot::{app_validity, heuristic_app_valid, should_stay, MetaState};
use servo4257::canopen::download::FlashBackend;
use servo4257::canopen::mgmt::FLAG_STAY_IN_BOOT;

fn region_with(image: &[u8]) -> Vec<u8> {
    let mut r = vec![0xFFu8; APP_REGION_LEN as usize];
    r[..image.len()].copy_from_slice(image);
    r
}

#[test]
fn crc_of_check_string_is_catalog_value() {
    let region = region_with(b"123456789");
    let m = AppMeta::for_image(&region, 9);
    assert_eq!(m.crc32, 0xCBF4_3926);
    assert_eq!(m.magic, APP_META_MAGIC);
    assert_eq!(m.length, 9);
    assert_eq!(m.meta_version, APP_META_VERSION);
}

#[test]
fn stamped_record_verifies_and_survives_bytes() {
    let image: Vec<u8> = (0..1000u32).map(|i| (i * 7 + 3) as u8).collect();
    let region = region_with(&image);
    let bytes = FlashBackend::finalize(&region, 1000);
    let m = AppMeta::from_bytes(&bytes);
    assert!(m.is_present());
    assert!(m.verify_app(&region));
    assert_eq!(m.to_bytes(), bytes);
}

#[test]
fn verify_rejects_corrupt_image() {
    let image = vec![0x11u8; 64];
    let region = region_with(&image);
    let m = AppMeta::for_image(&region, 64);
    let mut bad = region.clone();
    bad[10] ^= 1;
    assert!(!m.verify_app(&bad));
    let mut short = m;
    short.length = 0;
    assert!(!short.verify_app(&region));
    let mut long = m;
    long.length = APP_REGION_LEN + 1;
    assert!(!long.verify_app(&region));
    let mut absent = m;
    absent.magic = 0xFFFF_FFFF;
    assert!(!absent.is_present());
    assert!(!absent.verify_app(&region));
}

#[test]
fn to_bytes_layout_is_little_endian() {
    let m = AppMeta {
        magic: 0x4E33_324D,
        crc32: 0x0403_0201,
        length: 0x0000_1000,
        fw_version: 7,
        meta_version: 1,
        _reserved: 0xBEEF,
        _reserved2: [9, 9, 9],
    };
    let b = m.to_bytes();
    assert_eq!(&b[0..4], &[0x4D, 0x32, 0x33, 0x4E]);
    assert_eq!(&b[4..8], &[1, 2, 3, 4]);
    assert_eq!(&b[8..12], &[0, 0x10, 0, 0]);
    assert_eq!(&b[12..16], &[7, 0, 0, 0]);
    assert_eq!(&b[16..18], &[1, 0]);
    assert_eq!(&b[18..20], &[0xEF, 0xBE]);
    assert_eq!(&b[20..32], &[0u8; 12]);
    let back = AppMeta::from_bytes(&b);
    assert_eq!(back.crc32, m.crc32);
    assert_eq!(back._reserved2, [0, 0, 0]);
}

#[test]
fn erased_page_reads_absent() {
    let m = AppMeta::from_bytes(&[0xFF; 32]);
    assert_eq!(m.magic, 0xFFFF_FFFF);
    assert!(!m.is_present());
}

#[test]
fn boot_decisions() {
    assert!(heuristic_app_valid(0x2000_6000, 0x0800_4101));
    assert!(!heuristic_app_valid(0x2100_6000, 0x0800_4101));
    assert!(!heuristic_app_valid(0x2000_6000, 0x0802_0000));
    assert!(!heuristic_app_valid(0x2000_6000, 0x0800_3FFF));
    assert!(should_stay(FLAG_STAY_IN_BOOT, true));
    assert!(should_stay(0, false));
    assert!(!should_stay(0, true));

    let region = region_with(&[1, 2, 3, 4]);
    let good = AppMeta::for_image(&region, 4);
    assert_eq!(app_validity(&good, &region, 0, 0), (true, MetaState::Valid));
    let mut bad = good;
    bad.crc32 ^= 1;
    assert_eq!(app_validity(&bad, &region, 0x2000_0000, 0x0800_4000), (false, MetaState::BadCrc));
    let absent = AppMeta::from_bytes(&[0xFF; 32]);
    assert_eq!(app_validity(&absent, &region, 0x2000_0000, 0x0800_4000), (true, MetaState::Absent));
}

#[test]
fn crc_verdict_and_stamped_record() {
    let m = AppMeta::stamped(0xCBF4_3926, 9);
    assert_eq!(m.magic, APP_META_MAGIC);
    assert_eq!((m.crc32, m.length, m.fw_version), (0xCBF4_3926, 9, 0));
    assert_eq!((m.meta_version, m._reserved, m._reserved2), (APP_META_VERSION, 0, [0, 0, 0]));
    assert!(m.accepts_crc(0xCBF4_3926));
    assert!(!m.accepts_crc(0xCBF4_3927));
    assert!(!AppMeta::stamped(0xCBF4_3926, 0).accepts_crc(0xCBF4_3926));
    assert!(!AppMeta::stamped(1, APP_REGION_LEN + 1).accepts_crc(1));
    assert!(AppMeta::stamped(1, APP_REGION_LEN).accepts_crc(1));
    let mut absent = m;
    absent.meta_version = 2;
    assert!(!absent.accepts_crc(0xCBF4_3926));
}

#[test]
fn record_equality_and_padding() {
    let region = region_with(&[9, 8, 7]);
    let m = AppMeta::for_image(&region, 3);
    assert_eq!(AppMeta::from_bytes(&m.to_bytes()), m);
    let mut other = region.clone();
    other[3] = 0;
    other[1000] = 0x55;
    assert!(m.verify_app(&region));
    assert!(m.verify_app(&other));
    assert!(m.verify_app(&region[..3]));
}
