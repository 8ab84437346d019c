use std::io::Cursor;

use matrix_service::attachment::{
    alt_text, approve_image_url, approve_source, image_content, image_info,
    is_allowed_image_host, prepare_image, shrink_picture, AttachmentError, ImageDownload,
    PreparedImage, PRODUCT_IMAGE_MAX_BYTES,
};

fn png(width: u32, height: u32) -> Vec<u8> {
    let mut bytes = Cursor::new(Vec::new());
    image::DynamicImage::new_rgb8(width, height)
        .write_to(&mut bytes, image::ImageFormat::Png)
        .unwrap();
    bytes.into_inner()
}

#[test]
fn public_image_hosts_are_explicitly_allowlisted() {
    assert!(is_allowed_image_host(Some("cdn.shopify.com")));
    assert!(is_allowed_image_host(Some("images.puma.com")));
    assert!(is_allowed_image_host(Some("res.cloudinary.com")));
    assert!(is_allowed_image_host(Some("i.gr-assets.com")));
    assert!(!is_allowed_image_host(Some("proton.me")));
    assert!(!is_allowed_image_host(Some(
        "res.cloudinary.com.example.com"
    )));
}

#[test]
fn an_absent_host_is_not_allowed() {
    assert!(!is_allowed_image_host(None));
    assert!(!is_allowed_image_host(Some("")));
}

#[test]
fn sources_need_https_and_an_approved_host() {
    assert_eq!(approve_source("https", Some("images.puma.com")), Ok(()));
    assert_eq!(
        approve_source("http", Some("images.puma.com")),
        Err(AttachmentError::UnapprovedSource)
    );
    assert_eq!(
        approve_source("https", Some("example.org")),
        Err(AttachmentError::UnapprovedSource)
    );
    assert_eq!(
        approve_source("https", None),
        Err(AttachmentError::UnapprovedSource)
    );
}

#[test]
fn image_urls_are_taken_apart() {
    assert_eq!(approve_image_url("https://cdn.shopify.com/one.jpg"), Ok(()));
    assert_eq!(approve_image_url("HTTPS://CDN.Shopify.com:8443/a?b#c"), Ok(()));
    assert_eq!(
        approve_image_url("http://cdn.shopify.com/one.jpg"),
        Err(AttachmentError::UnapprovedSource)
    );
    assert_eq!(
        approve_image_url("https://cdn.shopify.com.example.org/one.jpg"),
        Err(AttachmentError::UnapprovedSource)
    );
    assert_eq!(
        approve_image_url("https://example.org/cdn.shopify.com"),
        Err(AttachmentError::UnapprovedSource)
    );
    assert_eq!(
        approve_image_url("data:text/plain,x"),
        Err(AttachmentError::UnapprovedSource)
    );
    assert_eq!(
        approve_image_url("not a url"),
        Err(AttachmentError::InvalidUrl)
    );
}

#[test]
fn downloads_stop_at_the_limit() {
    assert_eq!(
        ImageDownload::begin(Some(PRODUCT_IMAGE_MAX_BYTES + 1)).err(),
        Some(AttachmentError::TooLarge)
    );
    assert!(ImageDownload::begin(Some(PRODUCT_IMAGE_MAX_BYTES)).is_ok());
    let half = vec![0u8; (PRODUCT_IMAGE_MAX_BYTES / 2) as usize];
    let download = ImageDownload::begin(None).unwrap();
    let download = download.push_chunk(&half).unwrap();
    let download = download.push_chunk(&half).unwrap();
    let download = download.push_chunk(&[]).unwrap();
    assert_eq!(
        download.push_chunk(&[0]).err(),
        Some(AttachmentError::TooLarge)
    );
}

#[test]
fn downloads_are_prepared_from_all_their_chunks() {
    let bytes = png(300, 600);
    let (head, tail) = bytes.split_at(20);
    let prepared = ImageDownload::begin(Some(bytes.len() as u64))
        .unwrap()
        .push_chunk(head)
        .unwrap()
        .push_chunk(tail)
        .unwrap()
        .finish()
        .unwrap();
    assert_eq!((prepared.width, prepared.height), (128, 256));

    let cut = ImageDownload::begin(None).unwrap().push_chunk(head).unwrap();
    assert_eq!(cut.finish().err(), Some(AttachmentError::Undecodable));
}

#[test]
fn pictures_fit_and_keep_their_proportions() {
    for (source, target) in [
        ((512, 256), (256, 128)),
        ((100, 200), (128, 256)),
        ((256, 256), (256, 256)),
        ((1, 1000), (1, 256)),
        ((333, 1000), (85, 256)),
    ] {
        let prepared = prepare_image(&png(source.0, source.1)).unwrap();
        assert_eq!((prepared.width, prepared.height), target);
        let jpeg = image::load_from_memory_with_format(&prepared.jpeg, image::ImageFormat::Jpeg);
        let jpeg = jpeg.unwrap();
        assert_eq!((jpeg.width(), jpeg.height()), target);
    }
}

#[test]
fn pictures_keep_their_colours() {
    let mut picture = image::RgbImage::new(512, 512);
    for pixel in picture.pixels_mut() {
        *pixel = image::Rgb([200, 40, 90]);
    }
    let prepared = shrink_picture(&image::DynamicImage::ImageRgb8(picture)).unwrap();
    let jpeg = image::load_from_memory(&prepared.jpeg).unwrap().to_rgb8();
    let pixel = jpeg.get_pixel(128, 128);
    for (channel, expected) in [(0, 200i32), (1, 40), (2, 90)] {
        assert!((i32::from(pixel[channel]) - expected).abs() <= 6);
    }
}

#[test]
fn what_is_no_picture_is_refused() {
    assert_eq!(
        prepare_image(b"plain text").err(),
        Some(AttachmentError::Undecodable)
    );
    assert_eq!(prepare_image(b"").err(), Some(AttachmentError::Undecodable));
}

#[test]
fn image_events_describe_their_picture() {
    let prepared = PreparedImage {
        jpeg: vec![1, 2, 3],
        width: 256,
        height: 100,
    };
    let info = image_info(&prepared).unwrap();
    assert_eq!((info.width, info.height, info.size), (256, 100, 3));
    assert_eq!(info.mimetype, "image/jpeg");
    let content = image_content("A shoe", "mxc://example.org/a", info);
    assert_eq!(content.body, "A shoe");
    assert_eq!(content.url, "mxc://example.org/a");
    assert_eq!(content.info.size, 3);
}

#[test]
fn blank_alt_text_is_replaced() {
    assert_eq!(alt_text(None), "Image attachment");
    assert_eq!(alt_text(Some(" \n")), "Image attachment");
    assert_eq!(alt_text(Some(" A shoe ")), " A shoe ");
}

#[test]
fn image_errors_have_their_messages() {
    for (error, message) in [
        (AttachmentError::InvalidUrl, "parsing image URL"),
        (
            AttachmentError::UnapprovedSource,
            "image URL must use HTTPS and an approved public CDN",
        ),
        (
            AttachmentError::TooLarge,
            "product image exceeds the 10 MiB download limit",
        ),
        (AttachmentError::Undecodable, "decoding product image"),
        (AttachmentError::Unencodable, "encoding resized product image"),
        (AttachmentError::Unrecordable, "recording resized image size"),
    ] {
        assert_eq!(error.message(), message);
    }
}
