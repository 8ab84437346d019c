//! What holds of every image attachment: where it comes from, what is said of it and
//! what becomes of it.

use vstd::prelude::*;

use crate::attachment::{
    self, alt_text, approve_image_url, approve_source, image_content, image_info,
    is_allowed_image_host, prepare_image, shrink_picture, AttachmentError, ImageContent,
    ImageDownload, ImageInfo, PreparedImage,
};
use crate::text;

verus! {

/// A source is approved exactly where its scheme is HTTPS and its host is one of the
/// four public CDNs. Any other is refused as unapproved.
pub proof fn law_sources_are_the_four_cdns_over_https(
    scheme: &str,
    host: Option<&str>,
    outcome: Result<(), AttachmentError>,
)
    requires
        call_ensures(approve_source, (scheme, host), outcome),
    ensures
        outcome is Ok <==> scheme@ == "https"@ && host is Some && (host->0@ == "cdn.shopify.com"@
            || host->0@ == "images.puma.com"@ || host->0@ == "res.cloudinary.com"@ || host->0@
            == "i.gr-assets.com"@),
        outcome is Err ==> outcome->Err_0 == AttachmentError::UnapprovedSource,
{
}

/// A host is allowed exactly where HTTPS images from it are approved: it is one of
/// the four public CDNs.
pub proof fn law_allowed_hosts_are_approved(
    host: Option<&str>,
    allowed: bool,
    scheme: &str,
    outcome: Result<(), AttachmentError>,
)
    requires
        call_ensures(is_allowed_image_host, (host,), allowed),
        call_ensures(approve_source, (scheme, host), outcome),
        scheme@ == "https"@,
    ensures
        allowed <==> outcome is Ok,
        allowed <==> host is Some && (host->0@ == "cdn.shopify.com"@ || host->0@
            == "images.puma.com"@ || host->0@ == "res.cloudinary.com"@ || host->0@
            == "i.gr-assets.com"@),
{
}

/// An image URL is approved exactly where it is a URL, with the scheme HTTPS and one
/// of the four public CDNs for its host. A text that is no URL is told from a URL of
/// another source.
pub proof fn law_image_urls_are_judged_by_scheme_and_host(
    url: &str,
    outcome: Result<(), AttachmentError>,
)
    requires
        call_ensures(approve_image_url, (url,), outcome),
    ensures
        outcome is Ok <==> (attachment::url_parts(url@) matches Some((scheme, Some(host)))
            && scheme == "https"@ && (host == "cdn.shopify.com"@ || host == "images.puma.com"@
            || host == "res.cloudinary.com"@ || host == "i.gr-assets.com"@)),
        outcome == Err::<(), AttachmentError>(AttachmentError::InvalidUrl)
            <==> attachment::url_parts(url@) is None,
        outcome is Err ==> outcome->Err_0 == AttachmentError::InvalidUrl || outcome->Err_0
            == AttachmentError::UnapprovedSource,
{
}

/// An attachment keeps the alt text that was given, unless nothing but white space was
/// given: then it is called an image attachment.
pub proof fn law_alt_text_is_kept_unless_blank(image_alt: Option<&str>, alt: String)
    requires
        call_ensures(alt_text, (image_alt,), alt),
    ensures
        image_alt is None ==> alt@ == "Image attachment"@,
        image_alt is Some ==> alt@ == image_alt->0@ || alt@ == "Image attachment"@,
        image_alt is Some && (exists|i: int|
            0 <= i < image_alt->0@.len() && !text::is_white_space(#[trigger] image_alt->0@[i]))
            ==> alt@ == image_alt->0@,
        image_alt is Some && (forall|i: int|
            0 <= i < image_alt->0@.len() ==> text::is_white_space(#[trigger] image_alt->0@[i]))
            ==> alt@ == "Image attachment"@,
{
}

/// No more than ten mebibytes are downloaded: a download that announces more does not
/// begin.
pub proof fn law_announced_length_is_limited(
    content_length: Option<u64>,
    outcome: Result<ImageDownload, AttachmentError>,
)
    requires
        call_ensures(ImageDownload::begin, (content_length,), outcome),
    ensures
        outcome is Ok <==> content_length is None || content_length->0 <= 10_485_760,
        outcome is Ok ==> outcome->Ok_0@ == Seq::<u8>::empty(),
        outcome is Err ==> outcome->Err_0 == AttachmentError::TooLarge,
{
}

/// No more than ten mebibytes are downloaded: bytes are added in their order, as long as
/// the whole stays within the limit, and refused beyond.
pub proof fn law_downloaded_bytes_are_limited(
    download: ImageDownload,
    chunk: &[u8],
    outcome: Result<ImageDownload, AttachmentError>,
)
    requires
        call_ensures(ImageDownload::push_chunk, (download, chunk), outcome),
    ensures
        outcome is Ok <==> download@.len() + chunk@.len() <= 10_485_760,
        outcome is Ok ==> outcome->Ok_0@ == download@ + chunk@,
        outcome is Err ==> outcome->Err_0 == AttachmentError::TooLarge,
{
}

/// How a download is cut into chunks does not matter: two chunks that are taken in one
/// after the other hold what they hold as one.
pub proof fn law_chunks_add_up(
    download: ImageDownload,
    first: &[u8],
    second: &[u8],
    whole: &[u8],
    after_first: ImageDownload,
    in_two: Result<ImageDownload, AttachmentError>,
    in_one: Result<ImageDownload, AttachmentError>,
)
    requires
        whole@ == first@ + second@,
        call_ensures(ImageDownload::push_chunk, (download, first), Ok(after_first)),
        call_ensures(ImageDownload::push_chunk, (after_first, second), in_two),
        call_ensures(ImageDownload::push_chunk, (download, whole), in_one),
    ensures
        in_two is Ok <==> in_one is Ok,
        in_two is Ok ==> in_two->Ok_0@ == in_one->Ok_0@,
{
    assert(download@ + first@ + second@ =~= download@ + (first@ + second@));
}

/// A picture is shrunk or enlarged to fit a square of 256 pixels, and written as JPEG in
/// the quality 85. One of its sides is then 256 pixels long; the other keeps the
/// proportions, up to less than a pixel.
pub proof fn law_pictures_fit_the_square(
    picture: &image::DynamicImage,
    outcome: Result<PreparedImage, AttachmentError>,
)
    requires
        call_ensures(shrink_picture, (picture,), outcome),
    ensures
        outcome is Ok,
        1 <= outcome->Ok_0.width <= 256,
        1 <= outcome->Ok_0.height <= 256,
        attachment::picture_size(*picture).0 > 0 && attachment::picture_size(*picture).1 > 0 ==> {
            let (w, h) = attachment::picture_size(*picture);
            let (width, height) = (outcome->Ok_0.width, outcome->Ok_0.height);
            ||| width == 256 && h * 256 - w < height * w < h * 256 + w
            ||| height == 256 && w * 256 - h < width * h < w * 256 + h
        },
        exists|resized: image::DynamicImage| #[trigger]
            attachment::resizes_to(*picture, (256, 256), resized) && attachment::jpeg_bytes(
                resized,
                85,
            ) == outcome->Ok_0.jpeg@ && attachment::picture_size(resized) == (
                outcome->Ok_0.width,
                outcome->Ok_0.height,
            ),
{
}

/// An image is prepared exactly where its bytes can be decoded, and what is prepared is
/// the picture that they hold, within a square of 256 pixels.
pub proof fn law_prepared_image_holds_the_picture(
    bytes: &[u8],
    outcome: Result<PreparedImage, AttachmentError>,
)
    requires
        call_ensures(prepare_image, (bytes,), outcome),
    ensures
        outcome is Ok <==> exists|picture: image::DynamicImage|
            attachment::decodes_to(bytes@, picture),
        outcome is Err ==> outcome->Err_0 == AttachmentError::Undecodable,
        outcome is Ok ==> 1 <= outcome->Ok_0.width <= 256 && 1 <= outcome->Ok_0.height <= 256
            && exists|picture: image::DynamicImage, resized: image::DynamicImage|
            attachment::decodes_to(bytes@, picture) && #[trigger] attachment::resizes_to(
                picture,
                (256, 256),
                resized,
            ) && attachment::jpeg_bytes(resized, 85) == outcome->Ok_0.jpeg@,
{
    if let Ok(prepared) = outcome {
        let picture = choose|picture: image::DynamicImage| #[trigger]
            attachment::decodes_to(bytes@, picture) && attachment::shrinks_to(picture, prepared);
        let resized = choose|resized: image::DynamicImage|
            {
                &&& #[trigger] attachment::resizes_to(picture, (256, 256), resized)
                &&& attachment::jpeg_bytes(resized, 85) == prepared.jpeg@
            };
        assert(attachment::decodes_to(bytes@, picture) && attachment::resizes_to(
            picture,
            (256, 256),
            resized,
        ));
    }
}

/// The message for the operator tells what was being done, or what is wrong with the image.
pub proof fn law_attachment_messages(error: &AttachmentError, message: &'static str)
    requires
        call_ensures(AttachmentError::message, (error,), message),
    ensures
        *error == AttachmentError::InvalidUrl ==> message@ == "parsing image URL"@,
        *error == AttachmentError::UnapprovedSource ==> message@
            == "image URL must use HTTPS and an approved public CDN"@,
        *error == AttachmentError::TooLarge ==> message@
            == "product image exceeds the 10 MiB download limit"@,
        *error == AttachmentError::Undecodable ==> message@ == "decoding product image"@,
        *error == AttachmentError::Unencodable ==> message@ == "encoding resized product image"@,
        *error == AttachmentError::Unrecordable ==> message@ == "recording resized image size"@,
{
}

/// What a download comes to is what its bytes come to.
pub proof fn law_finished_download_is_prepared(
    download: ImageDownload,
    bytes: &[u8],
    finished: Result<PreparedImage, AttachmentError>,
    prepared: Result<PreparedImage, AttachmentError>,
)
    requires
        bytes@ == download@,
        call_ensures(ImageDownload::finish, (download,), finished),
        call_ensures(prepare_image, (bytes,), prepared),
    ensures
        finished is Ok <==> prepared is Ok,
        finished is Err ==> finished == prepared,
        finished is Ok ==> 1 <= finished->Ok_0.width <= 256 && 1 <= finished->Ok_0.height <= 256
            && exists|picture: image::DynamicImage, resized: image::DynamicImage|
            attachment::decodes_to(download@, picture) && #[trigger] attachment::resizes_to(
                picture,
                (256, 256),
                resized,
            ) && attachment::jpeg_bytes(resized, 85) == finished->Ok_0.jpeg@,
{
    if let Ok(image) = finished {
        let picture = choose|picture: image::DynamicImage| #[trigger]
            attachment::decodes_to(download@, picture) && attachment::shrinks_to(picture, image);
        let resized = choose|resized: image::DynamicImage|
            {
                &&& #[trigger] attachment::resizes_to(picture, (256, 256), resized)
                &&& attachment::jpeg_bytes(resized, 85) == image.jpeg@
            };
        assert(attachment::decodes_to(download@, picture) && attachment::resizes_to(
            picture,
            (256, 256),
            resized,
        ));
    }
}

/// An image event tells the size of its picture in pixels and in bytes, and that it is
/// JPEG. Its body is the alt text. It is refused only where the number of bytes is beyond
/// the integers that an event can hold, which end below two to the power of 53.
pub proof fn law_image_event_describes_the_picture(
    prepared: &PreparedImage,
    outcome: Result<ImageInfo, AttachmentError>,
    alt: &str,
    url: &str,
    content: ImageContent,
)
    requires
        call_ensures(image_info, (prepared,), outcome),
        outcome is Ok ==> call_ensures(image_content, (alt, url, outcome->Ok_0), content),
    ensures
        outcome is Ok <==> prepared.jpeg@.len() < 9_007_199_254_740_992,
        outcome is Err ==> outcome->Err_0 == AttachmentError::Unrecordable,
        outcome is Ok ==> {
            &&& content.info.width == prepared.width
            &&& content.info.height == prepared.height
            &&& content.info.size == prepared.jpeg@.len()
            &&& content.info.mimetype@ == "image/jpeg"@
            &&& content.body@ == alt@
            &&& content.url@ == url@
        },
{
}

} // verus!
