//! Image attachments: where they may come from, how large they may be and how
//! they are prepared for Matrix.

use vstd::prelude::*;

use crate::text::{self, is_blank, same_text};

verus! {

/// The width and the height that an attachment must fit within, in pixels.
pub const PRODUCT_IMAGE_MAX_DIMENSION: u32 = 256;

/// The number of bytes that are downloaded at most.
pub const PRODUCT_IMAGE_MAX_BYTES: u64 = 10 * 1024 * 1024;

/// The quality of the JPEG encoding.
pub const PRODUCT_IMAGE_QUALITY: u8 = 85;

/// The largest integer that a Matrix event can hold.
pub const MAX_EVENT_INTEGER: u64 = 0x1f_ffff_ffff_ffff;

/// Why an image could not be attached.
#[derive(Clone, Copy, Debug, PartialEq, Eq, Structural)]
pub enum AttachmentError {
    /// The image URL is not a URL.
    InvalidUrl,
    /// The image URL does not use HTTPS or an approved public CDN.
    UnapprovedSource,
    /// The image exceeds the download limit.
    TooLarge,
    /// The image could not be read.
    Undecodable,
    /// The image could not be written as JPEG.
    Unencodable,
    /// The size of the resized image does not fit in a Matrix event.
    Unrecordable,
}

impl AttachmentError {
    /// What was being done when the image failed, or what is wrong with it.
    pub fn message(&self) -> (message: &'static str)
        ensures
            message@ == (match *self {
                AttachmentError::InvalidUrl => "parsing image URL"@,
                AttachmentError::UnapprovedSource =>
                    "image URL must use HTTPS and an approved public CDN"@,
                AttachmentError::TooLarge => "product image exceeds the 10 MiB download limit"@,
                AttachmentError::Undecodable => "decoding product image"@,
                AttachmentError::Unencodable => "encoding resized product image"@,
                AttachmentError::Unrecordable => "recording resized image size"@,
            }),
    {
        match *self {
            AttachmentError::InvalidUrl => "parsing image URL",
            AttachmentError::UnapprovedSource => {
                "image URL must use HTTPS and an approved public CDN"
            },
            AttachmentError::TooLarge => "product image exceeds the 10 MiB download limit",
            AttachmentError::Undecodable => "decoding product image",
            AttachmentError::Unencodable => "encoding resized product image",
            AttachmentError::Unrecordable => "recording resized image size",
        }
    }
}

/// The public CDNs that images may come from.
pub open spec fn is_image_cdn(host: Seq<char>) -> bool {
    ||| host == "cdn.shopify.com"@
    ||| host == "images.puma.com"@
    ||| host == "res.cloudinary.com"@
    ||| host == "i.gr-assets.com"@
}

/// Whether images may come from `host`.
pub fn is_allowed_image_host(host: Option<&str>) -> (allowed: bool)
    ensures
        allowed == (host matches Some(host) && is_image_cdn(host@)),
{
    match host {
        Some(host) => same_text(host, "cdn.shopify.com") || same_text(host, "images.puma.com")
            || same_text(host, "res.cloudinary.com") || same_text(host, "i.gr-assets.com"),
        None => false,
    }
}

/// The scheme and the host of a URL, if `url` is one.
pub uninterp spec fn url_parts(url: Seq<char>) -> Option<(Seq<char>, Option<Seq<char>>)>;

/// Calls `reqwest::Url::parse`, `Url::scheme` and `Url::host_str`: the scheme and
/// the host of a URL, which depend on nothing but the text.
#[verifier::external_body]
fn parse_url(url: &str) -> (parts: Option<(String, Option<String>)>)
    ensures
        match parts {
            Some((scheme, host)) => url_parts(url@) == Some((scheme@, host.deep_view())),
            None => url_parts(url@) is None,
        },
{
    let parsed = reqwest::Url::parse(url).ok()?;
    Some((parsed.scheme().to_owned(), parsed.host_str().map(|host| host.to_owned())))
}

/// What is wrong with an image source of this scheme and host, if anything.
pub open spec fn source_error(scheme: Seq<char>, host: Option<Seq<char>>) -> Option<
    AttachmentError,
> {
    if scheme == "https"@ && (host matches Some(host) && is_image_cdn(host)) {
        None
    } else {
        Some(AttachmentError::UnapprovedSource)
    }
}

/// What is wrong with an image URL, if anything.
pub open spec fn url_error(url: Seq<char>) -> Option<AttachmentError> {
    match url_parts(url) {
        Some((scheme, host)) => source_error(scheme, host),
        None => Some(AttachmentError::InvalidUrl),
    }
}

/// Admits HTTPS on an approved public CDN.
pub fn approve_source(scheme: &str, host: Option<&str>) -> (outcome: Result<(), AttachmentError>)
    ensures
        match outcome {
            Ok(_) => source_error(scheme@, host.deep_view()) is None,
            Err(error) => source_error(scheme@, host.deep_view()) == Some(error),
        },
{
    if same_text(scheme, "https") && is_allowed_image_host(host) {
        Ok(())
    } else {
        Err(AttachmentError::UnapprovedSource)
    }
}

/// Admits a URL that uses HTTPS on an approved public CDN.
pub fn approve_image_url(url: &str) -> (outcome: Result<(), AttachmentError>)
    ensures
        match outcome {
            Ok(_) => url_error(url@) is None,
            Err(error) => url_error(url@) == Some(error),
        },
{
    match parse_url(url) {
        Some((scheme, host)) => match host {
            Some(host) => approve_source(scheme.as_str(), Some(host.as_str())),
            None => approve_source(scheme.as_str(), None),
        },
        None => Err(AttachmentError::InvalidUrl),
    }
}

/// The part of an image that has been downloaded.
#[derive(Debug)]
pub struct ImageDownload {
    bytes: Vec<u8>,
}

impl View for ImageDownload {
    type V = Seq<u8>;

    closed spec fn view(&self) -> Seq<u8> {
        self.bytes@
    }
}

impl ImageDownload {
    /// Never more than the limit is held.
    #[verifier::type_invariant]
    spec fn within_limit(self) -> bool {
        self.bytes@.len() <= PRODUCT_IMAGE_MAX_BYTES
    }

    /// Starts a download, unless its announced length exceeds the limit.
    pub fn begin(content_length: Option<u64>) -> (outcome: Result<ImageDownload, AttachmentError>)
        ensures
            match outcome {
                Ok(download) => download@.len() == 0 && (content_length matches Some(length) ==>
                    length <= PRODUCT_IMAGE_MAX_BYTES),
                Err(error) => error == AttachmentError::TooLarge && (content_length matches Some(
                    length,
                ) && length > PRODUCT_IMAGE_MAX_BYTES),
            },
    {
        if let Some(length) = content_length {
            if length > PRODUCT_IMAGE_MAX_BYTES {
                return Err(AttachmentError::TooLarge);
            }
        }
        Ok(ImageDownload { bytes: Vec::new() })
    }

    /// Takes in the next bytes, unless the whole would exceed the limit.
    pub fn push_chunk(self, chunk: &[u8]) -> (outcome: Result<ImageDownload, AttachmentError>)
        ensures
            match outcome {
                Ok(download) => download@ == self@ + chunk@ && download@.len()
                    <= PRODUCT_IMAGE_MAX_BYTES,
                Err(error) => error == AttachmentError::TooLarge && self@.len() + chunk@.len()
                    > PRODUCT_IMAGE_MAX_BYTES,
            },
    {
        proof {
            use_type_invariant(&self);
        }
        let limit: usize = PRODUCT_IMAGE_MAX_BYTES as usize;
        if chunk.len() > limit - self.bytes.len() {
            return Err(AttachmentError::TooLarge);
        }
        let mut bytes = self.bytes;
        let ghost before = bytes@;
        bytes.extend_from_slice(chunk);
        assert(bytes@ =~= before + chunk@);
        Ok(ImageDownload { bytes })
    }

    /// The image that was downloaded, prepared for Matrix.
    pub fn finish(self) -> (outcome: Result<PreparedImage, AttachmentError>)
        ensures
            match outcome {
                Ok(prepared) => prepared.fits() && is_prepared_from(self@, prepared),
                Err(error) => error == AttachmentError::Undecodable && !is_picture(self@),
            },
    {
        prepare_image(self.bytes.as_slice())
    }
}

/// Declares `image::DynamicImage`, a decoded picture.
#[verifier::external_type_specification]
#[verifier::external_body]
pub struct ExDynamicImage(image::DynamicImage);

/// Declares `image::ImageError`.
#[verifier::external_type_specification]
#[verifier::external_body]
pub struct ExImageError(image::ImageError);

/// The width and the height of a picture, in pixels.
pub uninterp spec fn picture_size(picture: image::DynamicImage) -> (u32, u32);

/// `picture` is what `bytes` can be decoded to.
pub uninterp spec fn decodes_to(bytes: Seq<u8>, picture: image::DynamicImage) -> bool;

/// `resized` is what `picture` can be resized to within `bounds`.
pub uninterp spec fn resizes_to(
    picture: image::DynamicImage,
    bounds: (u32, u32),
    resized: image::DynamicImage,
) -> bool;

/// `picture` written as JPEG in a quality.
pub uninterp spec fn jpeg_bytes(picture: image::DynamicImage, quality: u8) -> Seq<u8>;

/// `bytes` can be decoded to a picture.
pub open spec fn is_picture(bytes: Seq<u8>) -> bool {
    exists|picture: image::DynamicImage| decodes_to(bytes, picture)
}

/// `target` is the largest size within `bounds` that keeps the proportions of
/// `source`, up to the rounding of a side to a whole pixel.
pub open spec fn scaled_to_fit(source: (u32, u32), bounds: (u32, u32), target: (u32, u32)) -> bool {
    &&& 1 <= target.0 <= bounds.0
    &&& 1 <= target.1 <= bounds.1
    &&& {
        ||| target.0 == bounds.0 && -(source.0 as int) < target.1 * source.0 - source.1 * bounds.0
            < source.0
        ||| target.1 == bounds.1 && -(source.1 as int) < target.0 * source.1 - source.0 * bounds.1
            < source.1
    }
}

/// Calls `image::guess_format` and `image::load_from_memory_with_format`: the
/// decoder for the format that the first bytes tell, among those built into the
/// crate, either reads the picture or refuses the bytes. Of the pixels nothing is
/// claimed.
#[verifier::external_body]
fn decode_image(bytes: &[u8]) -> (picture: Result<image::DynamicImage, image::ImageError>)
    ensures
        match picture {
            Ok(picture) => decodes_to(bytes@, picture),
            Err(_) => !is_picture(bytes@),
        },
{
    image::load_from_memory_with_format(bytes, image::guess_format(bytes)?)
}

/// Calls `image::GenericImageView::dimensions`: the width and the height.
#[verifier::external_body]
fn size_of_picture(picture: &image::DynamicImage) -> (size: (u32, u32))
    ensures
        size == picture_size(*picture),
{
    image::GenericImageView::dimensions(picture)
}

/// Calls `image::DynamicImage::resize` with the Lanczos filter: a picture of the
/// largest size that fits within the bounds and keeps the proportions, at least
/// one pixel wide and high. Of the size for an empty picture and of the pixels,
/// which are interpolated in floating point, no more is claimed.
#[verifier::external_body]
fn resize_picture(
    picture: &image::DynamicImage,
    width: u32,
    height: u32,
) -> (resized: image::DynamicImage)
    requires
        1 <= width <= PRODUCT_IMAGE_MAX_DIMENSION,
        1 <= height <= PRODUCT_IMAGE_MAX_DIMENSION,
    ensures
        resizes_to(*picture, (width, height), resized),
        picture_size(*picture).0 > 0 && picture_size(*picture).1 > 0 ==> scaled_to_fit(
            picture_size(*picture),
            (width, height),
            picture_size(resized),
        ),
        1 <= picture_size(resized).0 <= width,
        1 <= picture_size(resized).1 <= height,
{
    picture.resize(width, height, image::imageops::FilterType::Lanczos3)
}

/// A size that a JPEG picture can have.
pub open spec fn is_jpeg_size(size: (u32, u32)) -> bool {
    1 <= size.0 <= 0xffff && 1 <= size.1 <= 0xffff
}

/// Calls `image::codecs::jpeg::JpegEncoder::new_with_quality` and `encode_image`
/// with a vector to write to: fails exactly where a side is empty or longer than
/// 65,535 pixels. The bytes depend on nothing but the picture and the quality.
#[verifier::external_body]
fn encode_jpeg(
    picture: &image::DynamicImage,
    quality: u8,
) -> (jpeg: Result<Vec<u8>, image::ImageError>)
    ensures
        jpeg is Ok == is_jpeg_size(picture_size(*picture)),
        match jpeg {
            Ok(jpeg) => jpeg@ == jpeg_bytes(*picture, quality),
            Err(_) => true,
        },
{
    let mut jpeg = Vec::new();
    image::codecs::jpeg::JpegEncoder::new_with_quality(&mut jpeg, quality)
        .encode_image(picture)
        .map(|()| jpeg)
}

/// A picture as it is uploaded to Matrix.
#[derive(Debug)]
pub struct PreparedImage {
    pub jpeg: Vec<u8>,
    pub width: u32,
    pub height: u32,
}

impl PreparedImage {
    /// The picture is not empty and fits within the limits of an attachment.
    pub open spec fn fits(self) -> bool {
        &&& 1 <= self.width <= PRODUCT_IMAGE_MAX_DIMENSION
        &&& 1 <= self.height <= PRODUCT_IMAGE_MAX_DIMENSION
    }
}

/// `prepared` holds `picture`, resized to the limits of an attachment and written as
/// JPEG.
pub open spec fn shrinks_to(picture: image::DynamicImage, prepared: PreparedImage) -> bool {
    let bounds = (PRODUCT_IMAGE_MAX_DIMENSION, PRODUCT_IMAGE_MAX_DIMENSION);
    &&& picture_size(picture).0 > 0 && picture_size(picture).1 > 0 ==> scaled_to_fit(
        picture_size(picture),
        bounds,
        (prepared.width, prepared.height),
    )
    &&& exists|resized: image::DynamicImage|
        {
            &&& #[trigger] resizes_to(picture, bounds, resized)
            &&& picture_size(resized) == (prepared.width, prepared.height)
            &&& jpeg_bytes(resized, PRODUCT_IMAGE_QUALITY) == prepared.jpeg@
        }
}

/// `prepared` holds the picture that `bytes` are decoded to.
pub open spec fn is_prepared_from(bytes: Seq<u8>, prepared: PreparedImage) -> bool {
    exists|picture: image::DynamicImage| #[trigger]
        decodes_to(bytes, picture) && shrinks_to(picture, prepared)
}

/// Resizes a picture to the limits of an attachment and writes it as JPEG.
pub fn shrink_picture(
    picture: &image::DynamicImage,
) -> (outcome: Result<PreparedImage, AttachmentError>)
    ensures
        outcome matches Ok(prepared) && prepared.fits() && shrinks_to(*picture, prepared),
{
    let resized = resize_picture(
        picture,
        PRODUCT_IMAGE_MAX_DIMENSION,
        PRODUCT_IMAGE_MAX_DIMENSION,
    );
    let (width, height) = size_of_picture(&resized);
    match encode_jpeg(&resized, PRODUCT_IMAGE_QUALITY) {
        Ok(jpeg) => Ok(PreparedImage { jpeg, width, height }),
        Err(_) => Err(AttachmentError::Unencodable),
    }
}

/// Reads a picture, resizes it to the limits of an attachment and writes it as
/// JPEG.
pub fn prepare_image(bytes: &[u8]) -> (outcome: Result<PreparedImage, AttachmentError>)
    ensures
        match outcome {
            Ok(prepared) => prepared.fits() && is_prepared_from(bytes@, prepared),
            Err(error) => error == AttachmentError::Undecodable && !is_picture(bytes@),
        },
{
    match decode_image(bytes) {
        Ok(picture) => shrink_picture(&picture),
        Err(_) => Err(AttachmentError::Undecodable),
    }
}

/// What an image event says of its picture.
#[derive(Clone, Copy, Debug)]
pub struct ImageInfo {
    pub width: u64,
    pub height: u64,
    pub size: u64,
    pub mimetype: &'static str,
}

/// Describes a prepared picture, unless its size is beyond what an event can
/// hold.
pub fn image_info(prepared: &PreparedImage) -> (outcome: Result<ImageInfo, AttachmentError>)
    ensures
        match outcome {
            Ok(info) => {
                &&& prepared.jpeg@.len() <= MAX_EVENT_INTEGER
                &&& info.width == prepared.width
                &&& info.height == prepared.height
                &&& info.size == prepared.jpeg@.len()
                &&& info.mimetype@ == "image/jpeg"@
            },
            Err(error) => error == AttachmentError::Unrecordable && prepared.jpeg@.len()
                > MAX_EVENT_INTEGER,
        },
{
    let size: u64 = prepared.jpeg.len() as u64;
    if size > MAX_EVENT_INTEGER {
        return Err(AttachmentError::Unrecordable);
    }
    Ok(
        ImageInfo {
            width: prepared.width as u64,
            height: prepared.height as u64,
            size,
            mimetype: "image/jpeg",
        },
    )
}

/// The content of an image event.
#[derive(Debug)]
pub struct ImageContent {
    pub body: String,
    pub url: String,
    pub info: ImageInfo,
}

/// The content of the event for an uploaded picture.
pub fn image_content(alt_text: &str, url: &str, info: ImageInfo) -> (content: ImageContent)
    ensures
        content.body@ == alt_text@,
        content.url@ == url@,
        content.info == info,
{
    ImageContent { body: alt_text.to_owned(), url: url.to_owned(), info }
}

/// The alt text of an attachment: the one given, unless it is blank.
pub open spec fn effective_alt(image_alt: Option<Seq<char>>) -> Seq<char> {
    match image_alt {
        Some(alt) if !text::is_blank_text(alt) => alt,
        _ => "Image attachment"@,
    }
}

pub fn alt_text(image_alt: Option<&str>) -> (alt: String)
    ensures
        alt@ == effective_alt(image_alt.deep_view()),
{
    if let Some(alt) = image_alt {
        if !is_blank(alt) {
            return alt.to_owned();
        }
    }
    "Image attachment".to_owned()
}

} // verus!
