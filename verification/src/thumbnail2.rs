//! Super Mario Maker 2 thumbnails: a JPEG image inside an envelope.

use crate::encryption::{
    decrypt, decrypted_body, encrypt, envelope_iv, envelope_seed, opens, refusal, sealed,
    valid_body_len, valid_envelope_len,
};
use crate::errors::{Smm2Error, SmmdbError};
use image::codecs::jpeg::JpegEncoder;
use image::{ColorType, DynamicImage, ImageError};
use crate::key_tables::KeyTables;
use crate::wire::{copy_range, zeros};
use vstd::pervasive::unreached;
use vstd::prelude::*;

verus! {

/// Length of the body of a thumbnail file.
pub const THUMBNAIL_BODY_LEN: usize = 0x1bfd0;

/// `bytes` cut or filled up with zeros to the length `len`.
pub open spec fn resized(bytes: Seq<u8>, len: nat) -> Seq<u8> {
    if bytes.len() >= len {
        bytes.subrange(0, len as int)
    } else {
        bytes + zeros((len - bytes.len()) as nat)
    }
}

/// Quality at which `optimize_jpeg` encodes an image again.
pub const JPEG_QUALITY: u8 = 80;

/// What the bytes of an image decode to: `None` where they cannot be
/// decoded, `Some(None)` where the image is not one of three colour channels
/// of eight bits, else its pixels, its width and its height.
pub uninterp spec fn image_decoded(bytes: Seq<u8>) -> Option<Option<(Seq<u8>, u32, u32)>>;

/// The JPEG image that pixels of three colour channels of eight bits are
/// encoded to at the given quality, or `None` where they cannot be encoded.
pub uninterp spec fn jpeg_encoded(pixels: Seq<u8>, width: u32, height: u32, quality: u8) -> Option<
    Seq<u8>,
>;

/// What a JPEG image gives when it is decoded and encoded again at the given
/// quality: `None` where it cannot be decoded or encoded, `Some(None)` where
/// it is no image of three colour channels of eight bits, else the bytes of
/// the new image.
pub open spec fn jpeg_reencoded(jpeg: Seq<u8>, quality: u8) -> Option<Option<Seq<u8>>> {
    match image_decoded(jpeg) {
        Some(Some(image)) => match jpeg_encoded(image.0, image.1, image.2, quality) {
            Some(bytes) => Some(Some(bytes)),
            None => None,
        },
        Some(None) => Some(None),
        None => None,
    }
}

/// What an exec result of encoding again says: its bytes.
pub open spec fn reencoded_view(res: Result<Option<Vec<u8>>, ImageError>) -> Option<
    Option<Seq<u8>>,
> {
    match res {
        Ok(Some(bytes)) => Some(Some(bytes@)),
        Ok(None) => Some(None),
        Err(_) => None,
    }
}

/// Trusted: calls `load_from_memory` of `image` and, where the image is one
/// of three colour channels of eight bits, `JpegEncoder::encode` on its
/// pixels. The contract names what the first call decodes and what the second
/// makes of it, and rests on the decoder returning, with an error where it
/// must, on every input.
#[verifier::external_body]
fn reencode_rgb8(jpeg: &[u8], quality: u8) -> (res: Result<Option<Vec<u8>>, ImageError>)
    ensures
        reencoded_view(res) == (match image_decoded(jpeg@) {
            Some(Some(image)) => match jpeg_encoded(image.0, image.1, image.2, quality) {
                Some(bytes) => Some(Some(bytes)),
                None => None,
            },
            Some(None) => Some(None),
            None => None,
        }),
{
    match image::load_from_memory(jpeg)? {
        DynamicImage::ImageRgb8(buffer) => {
            let (width, height) = buffer.dimensions();
            let mut out = Vec::new();
            let mut encoder = JpegEncoder::new_with_quality(&mut out, quality);
            encoder.encode(&buffer.into_raw(), width, height, ColorType::Rgb8)?;
            Ok(Some(out))
        },
        _ => Ok(None),
    }
}

/// The smaller of an image and what it was encoded to again; the image
/// itself where both have one length.
pub open spec fn smaller_of(image: Seq<u8>, reencoded: Seq<u8>) -> Seq<u8> {
    if reencoded.len() < image.len() {
        reencoded
    } else {
        image
    }
}

/// Keeps the smaller of an image and what it was encoded to again.
pub fn smaller_jpeg(image: &[u8], reencoded: Vec<u8>) -> (kept: Vec<u8>)
    ensures
        kept@ == smaller_of(image@, reencoded@),
{
    if reencoded.len() < image.len() {
        reencoded
    } else {
        let kept: Vec<u8> = copy_range(image, 0, image.len());
        assert(kept@ =~= image@);
        kept
    }
}

/// A thumbnail: the encrypted file, the image inside it, and the smaller
/// image that `optimize_jpeg` may have made of it.
#[derive(Clone, Debug, PartialEq, Eq)]
pub struct Thumbnail2 {
    encrypted: Vec<u8>,
    jpeg: Vec<u8>,
    jpeg_opt: Option<Vec<u8>>,
}

impl Thumbnail2 {
    /// The encrypted file.
    pub closed spec fn encrypted_view(&self) -> Seq<u8> {
        self.encrypted@
    }

    /// The image as it was read or given.
    pub closed spec fn jpeg_view(&self) -> Seq<u8> {
        self.jpeg@
    }

    /// The optimized image, where there is one.
    pub closed spec fn jpeg_opt_view(&self) -> Option<Seq<u8>> {
        match self.jpeg_opt {
            Some(opt) => Some(opt@),
            None => None,
        }
    }

    /// The image that `get_jpeg` hands out: the optimized one where there is
    /// one.
    pub open spec fn current_jpeg(&self) -> Seq<u8> {
        match self.jpeg_opt_view() {
            Some(opt) => opt,
            None => self.jpeg_view(),
        }
    }

    /// Opens an encrypted thumbnail file. The image is the whole decrypted
    /// body.
    pub fn from_encrypted(bytes: Vec<u8>, keys: &KeyTables) -> (res: Result<Thumbnail2, Smm2Error>)
        ensures
            res is Ok <==> opens(bytes@, keys.thumbnail@),
            match res {
                Ok(thumb) => {
                    &&& thumb.encrypted_view() == bytes@
                    &&& thumb.jpeg_view() == decrypted_body(bytes@, keys.thumbnail@)
                    &&& thumb.jpeg_opt_view() is None
                },
                Err(e) => e@ == refusal(bytes@, keys.thumbnail@),
            },
    {
        let mut plain: Vec<u8> = bytes.clone();
        match decrypt(&mut plain, &keys.thumbnail) {
            Ok(()) => {
                let jpeg: Vec<u8> = copy_range(plain.as_slice(), 0, plain.len() - 0x30);
                Ok(Thumbnail2 { encrypted: bytes, jpeg, jpeg_opt: None })
            },
            Err(e) => Err(e),
        }
    }

    /// Makes a thumbnail of an image: the image is cut or filled up with
    /// zeros to the length of a thumbnail body and encrypted under a fresh
    /// vector and seed. Whatever these are, the file opens and holds that
    /// body.
    pub fn from_decrypted(bytes: Vec<u8>, keys: &KeyTables) -> (thumb: Thumbnail2)
        ensures
            thumb.jpeg_view() == bytes@,
            thumb.jpeg_opt_view() is None,
            thumb.encrypted_view().len() == THUMBNAIL_BODY_LEN + 0x30,
            opens(thumb.encrypted_view(), keys.thumbnail@),
            decrypted_body(thumb.encrypted_view(), keys.thumbnail@) == resized(
                bytes@,
                THUMBNAIL_BODY_LEN as nat,
            ),
    {
        let mut encrypted: Vec<u8> = bytes.clone();
        encrypted.resize(THUMBNAIL_BODY_LEN, 0);
        assert(encrypted@ =~= resized(bytes@, THUMBNAIL_BODY_LEN as nat));
        match Self::encrypt(&mut encrypted, keys) {
            Ok(()) => {},
            Err(_) => unreached(),
        }
        Thumbnail2 { encrypted, jpeg: bytes, jpeg_opt: None }
    }

    /// Encrypts a thumbnail body in place under a fresh vector and seed and
    /// puts the trailer behind it.
    pub fn encrypt(bytes: &mut Vec<u8>, keys: &KeyTables) -> (res: Result<(), Smm2Error>)
        ensures
            !valid_body_len(old(bytes)@.len() as int) ==> res == Err::<(), Smm2Error>(
                Smm2Error::InvalidLength,
            ) && final(bytes)@ == old(bytes)@,
            valid_body_len(old(bytes)@.len() as int) ==> {
                &&& res is Ok
                &&& final(bytes)@.len() == old(bytes)@.len() + 0x30
                &&& final(bytes)@ == sealed(
                    old(bytes)@,
                    envelope_iv(final(bytes)@),
                    envelope_seed(final(bytes)@),
                    keys.thumbnail@,
                )
                &&& opens(final(bytes)@, keys.thumbnail@)
                &&& decrypted_body(final(bytes)@, keys.thumbnail@) == old(bytes)@
            },
    {
        match encrypt(bytes, &keys.thumbnail) {
            Ok(info) => {
                let ghost body = bytes@;
                bytes.extend_from_slice(info.as_slice());
                proof {
                    assert(bytes@ =~= body + info@);
                    assert(envelope_iv(bytes@) =~= info@.subrange(0, 16));
                    assert(envelope_seed(bytes@) =~= info@.subrange(16, 32));
                }
                Ok(())
            },
            Err(e) => Err(e),
        }
    }

    /// Decrypts a thumbnail file in place and checks its tag.
    pub fn decrypt(bytes: &mut Vec<u8>, keys: &KeyTables) -> (res: Result<(), Smm2Error>)
        ensures
            final(bytes)@.len() == old(bytes)@.len(),
            !valid_envelope_len(old(bytes)@.len() as int) ==> final(bytes)@ == old(bytes)@,
            valid_envelope_len(old(bytes)@.len() as int) ==> final(bytes)@ == decrypted_body(
                old(bytes)@,
                keys.thumbnail@,
            ) + old(bytes)@.subrange(old(bytes)@.len() - 48, old(bytes)@.len() as int),
            res is Ok <==> opens(old(bytes)@, keys.thumbnail@),
            res matches Err(e) ==> e@ == refusal(old(bytes)@, keys.thumbnail@),
    {
        decrypt(bytes, &keys.thumbnail)
    }

    pub fn get_encrypted(&self) -> (bytes: &Vec<u8>)
        ensures
            bytes@ == self.encrypted_view(),
    {
        &self.encrypted
    }

    pub fn take_encrypted(self) -> (bytes: Vec<u8>)
        ensures
            bytes@ == self.encrypted_view(),
    {
        self.encrypted
    }

    pub fn take_jpeg(self) -> (bytes: Vec<u8>)
        ensures
            bytes@ == self.jpeg_view(),
    {
        self.jpeg
    }

    /// The optimized image where there is one, else the image as it was read.
    pub fn get_jpeg(&self) -> (bytes: &[u8])
        ensures
            bytes@ == self.current_jpeg(),
    {
        match &self.jpeg_opt {
            Some(jpeg) => jpeg.as_slice(),
            None => self.jpeg.as_slice(),
        }
    }

    pub fn get_jpeg_no_opt(&self) -> (bytes: &[u8])
        ensures
            bytes@ == self.jpeg_view(),
    {
        self.jpeg.as_slice()
    }
    /// Encodes the image again at quality 80 and keeps the smaller of the
    /// two as the optimized image. An image that is not one of three colour
    /// channels of eight bits is left as it is.
    pub fn optimize_jpeg(&mut self) -> (res: Result<(), SmmdbError>)
        ensures
            final(self).encrypted_view() == old(self).encrypted_view(),
            final(self).jpeg_view() == old(self).jpeg_view(),
            match jpeg_reencoded(old(self).current_jpeg(), JPEG_QUALITY) {
                Some(Some(reencoded)) => res is Ok && final(self).jpeg_opt_view() == Some(
                    smaller_of(old(self).current_jpeg(), reencoded),
                ),
                Some(None) => res is Ok && final(self).jpeg_opt_view() == old(self).jpeg_opt_view(),
                None => res matches Err(SmmdbError::ImageError(_)) && final(self).jpeg_opt_view()
                    == old(self).jpeg_opt_view(),
            },
    {
        let kept: Vec<u8> = match reencode_rgb8(self.get_jpeg(), JPEG_QUALITY) {
            Ok(Some(reencoded)) => smaller_jpeg(self.get_jpeg(), reencoded),
            Ok(None) => {
                return Ok(());
            },
            Err(e) => {
                return Err(SmmdbError::ImageError(e));
            },
        };
        self.jpeg_opt = Some(kept);
        Ok(())
    }
}

} // verus!
