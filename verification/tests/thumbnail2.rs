use image::codecs::jpeg::JpegEncoder;
use image::ColorType;
use smmdb::errors::{Smm2Error, SmmdbError};
use smmdb::key_tables::KeyTables;
use smmdb::thumbnail2::{smaller_jpeg, Thumbnail2, THUMBNAIL_BODY_LEN};

fn th_table(mul: u32) -> [u32; 256] {
    let mut table = [0u32; 256];
    for (i, entry) in table.iter_mut().enumerate() {
        *entry = (i as u32).wrapping_mul(mul).wrapping_add(0x7F4A_7C15);
    }
    table
}

fn th_keys() -> KeyTables {
    KeyTables {
        course: th_table(0x9E37_79B1),
        thumbnail: th_table(0x85EB_CA6B),
        save: th_table(0xC2B2_AE35),
    }
}

fn th_jpeg(color: ColorType, quality: u8) -> Vec<u8> {
    let (width, height) = (64u32, 48u32);
    let channels = if color == ColorType::Rgb8 { 3 } else { 1 };
    let mut pixels = Vec::new();
    for y in 0..height {
        for x in 0..width {
            for c in 0..channels {
                pixels.push(((x * 4 + y * 3 + c * 40) % 256) as u8);
            }
        }
    }
    let mut out = Vec::new();
    JpegEncoder::new_with_quality(&mut out, quality)
        .encode(&pixels, width, height, color)
        .unwrap();
    out
}

fn th_assets() -> Vec<(Vec<u8>, Vec<u8>)> {
    let keys = th_keys();
    let mut assets = Vec::new();
    for quality in [100u8, 90] {
        let mut decrypted = th_jpeg(ColorType::Rgb8, quality);
        decrypted.resize(THUMBNAIL_BODY_LEN, 0);
        let encrypted = Thumbnail2::from_decrypted(decrypted.clone(), &keys).take_encrypted();
        assets.push((encrypted, decrypted));
    }
    assets
}

#[test]
fn thumbnail_decrypt() {
    let keys = th_keys();
    for (mut thumbnail, decrypted) in th_assets() {
        assert_eq!(thumbnail.len(), 0x1c000);
        let encrypted = thumbnail.clone();
        Thumbnail2::decrypt(&mut thumbnail, &keys).unwrap();

        assert_eq!(thumbnail.len() - 0x30, decrypted.len());
        assert_eq!(&thumbnail[..100], &decrypted[..100]);
        assert_eq!(&thumbnail[..decrypted.len()], &decrypted[..]);
        assert_eq!(&thumbnail[decrypted.len()..], &encrypted[decrypted.len()..]);
        assert_ne!(&encrypted[..100], &decrypted[..100]);
    }
}

#[test]
fn thumbnail_encrypt() {
    let keys = th_keys();
    for (encrypted_ext, decrypted) in th_assets() {
        let mut encrypted = decrypted.clone();
        Thumbnail2::encrypt(&mut encrypted, &keys).unwrap();
        assert_eq!(encrypted_ext.len(), encrypted.len());

        let thumbnail = Thumbnail2::from_encrypted(encrypted, &keys).unwrap();

        assert_eq!(decrypted.len(), thumbnail.get_jpeg_no_opt().len());
        assert_eq!(decrypted, thumbnail.get_jpeg_no_opt());
    }
}

#[test]
fn thumbnail_get_jpeg() {
    let keys = th_keys();
    for (thumbnail, expected) in th_assets() {
        let thumbnail = Thumbnail2::from_encrypted(thumbnail, &keys).unwrap();

        assert_eq!(thumbnail.get_jpeg_no_opt(), &expected[..]);
        assert_eq!(thumbnail.get_jpeg(), &expected[..]);
    }
}

#[test]
fn thumbnail_optimize_jpeg() {
    let keys = th_keys();
    for (thumbnail, decrypted) in th_assets() {
        let mut thumbnail = Thumbnail2::from_encrypted(thumbnail, &keys).unwrap();

        thumbnail.optimize_jpeg().unwrap();

        assert!(thumbnail.get_jpeg().len() <= decrypted.len());
        assert!(thumbnail.get_jpeg().len() < 0x1000);
        assert_eq!(&thumbnail.get_jpeg()[..2], &[0xFF, 0xD8]);
        assert_eq!(thumbnail.get_jpeg_no_opt(), &decrypted[..]);
        assert!(image::load_from_memory(thumbnail.get_jpeg()).is_ok());
    }
}

#[test]
fn thumbnail_optimize_keeps_the_smaller_image() {
    let keys = th_keys();
    let small = th_jpeg(ColorType::Rgb8, 10);
    let mut thumbnail = Thumbnail2::from_decrypted(small.clone(), &keys);
    thumbnail.optimize_jpeg().unwrap();
    assert_eq!(thumbnail.get_jpeg(), &small[..]);

    let large = th_jpeg(ColorType::Rgb8, 100);
    let mut thumbnail = Thumbnail2::from_decrypted(large.clone(), &keys);
    thumbnail.optimize_jpeg().unwrap();
    assert!(thumbnail.get_jpeg().len() < large.len());
    assert_eq!(thumbnail.get_jpeg_no_opt(), &large[..]);
    assert_eq!(thumbnail.take_jpeg(), large);
}

#[test]
fn thumbnail_optimize_leaves_other_images() {
    let keys = th_keys();
    let gray = th_jpeg(ColorType::L8, 100);
    let mut thumbnail = Thumbnail2::from_decrypted(gray.clone(), &keys);
    thumbnail.optimize_jpeg().unwrap();
    assert_eq!(thumbnail.get_jpeg(), &gray[..]);
}

#[test]
fn thumbnail_optimize_reports_what_is_no_image() {
    let keys = th_keys();
    let mut thumbnail = Thumbnail2::from_decrypted(vec![1, 2, 3, 4, 5, 6, 7, 8], &keys);
    let res = thumbnail.optimize_jpeg();
    assert!(matches!(res, Err(SmmdbError::ImageError(_))));
    assert_eq!(thumbnail.get_jpeg(), &[1, 2, 3, 4, 5, 6, 7, 8]);
}

#[test]
fn thumbnail_smaller_jpeg_keeps_the_image_on_equal_length() {
    assert_eq!(smaller_jpeg(&[1, 2, 3], vec![4, 5]), vec![4, 5]);
    assert_eq!(smaller_jpeg(&[1, 2, 3], vec![4, 5, 6]), vec![1, 2, 3]);
    assert_eq!(smaller_jpeg(&[1, 2, 3], vec![4, 5, 6, 7]), vec![1, 2, 3]);
}

#[test]
fn thumbnail_from_decrypted_pads_or_cuts() {
    let keys = th_keys();
    let thumbnail = Thumbnail2::from_decrypted(vec![7u8; 10], &keys);
    assert_eq!(thumbnail.get_encrypted().len(), 0x1c000);
    let opened = Thumbnail2::from_encrypted(thumbnail.get_encrypted().clone(), &keys).unwrap();
    assert_eq!(&opened.get_jpeg()[..10], &[7u8; 10]);
    assert!(opened.get_jpeg()[10..].iter().all(|b| *b == 0));
    assert_eq!(opened.get_jpeg().len(), THUMBNAIL_BODY_LEN);

    let long = vec![9u8; THUMBNAIL_BODY_LEN + 5];
    let thumbnail = Thumbnail2::from_decrypted(long.clone(), &keys);
    assert_eq!(thumbnail.get_encrypted().len(), 0x1c000);
    assert_eq!(thumbnail.get_jpeg().len(), THUMBNAIL_BODY_LEN + 5);
}

#[test]
fn thumbnail_refuses_invalid_files() {
    let keys = th_keys();
    assert_eq!(
        Thumbnail2::from_encrypted(vec![0u8; 50], &keys).err(),
        Some(Smm2Error::InvalidLength)
    );
    let mut bytes = vec![0u8; 20];
    assert_eq!(Thumbnail2::encrypt(&mut bytes, &keys), Err(Smm2Error::InvalidLength));
    assert_eq!(Thumbnail2::decrypt(&mut bytes, &keys), Err(Smm2Error::InvalidLength));
    let (mut encrypted, _) = th_assets().remove(0);
    encrypted[3] ^= 1;
    assert!(matches!(
        Thumbnail2::from_encrypted(encrypted, &keys),
        Err(Smm2Error::CmacMismatch { .. })
    ));
}
