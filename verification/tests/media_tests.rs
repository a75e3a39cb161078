use siteproxy::media::{img_content_type, MediaType};

#[test]
fn media_type_by_extension() {
    assert_eq!(img_content_type(b"https://ex.com/a.jpg"), MediaType::Jpeg);
    assert_eq!(img_content_type(b"https://ex.com/a.jpeg"), MediaType::Jpeg);
    assert_eq!(img_content_type(b"https://ex.com/a.png"), MediaType::Png);
    assert_eq!(img_content_type(b"https://ex.com/a.gif"), MediaType::Gif);
    assert_eq!(img_content_type(b"https://ex.com/a.bmp"), MediaType::Bmp);
    assert_eq!(img_content_type(b"https://ex.com/a.webp"), MediaType::Webp);
    assert_eq!(img_content_type(b"https://ex.com/a.ico"), MediaType::Icon);
    assert_eq!(img_content_type(b"https://ex.com/a.svg"), MediaType::Svg);
    assert_eq!(img_content_type(b"https://ex.com/a.webm"), MediaType::Webm);
    assert_eq!(img_content_type(b"https://ex.com/a.weba"), MediaType::Weba);
    assert_eq!(img_content_type(b"https://ex.com/a.tif"), MediaType::Tiff);
    assert_eq!(img_content_type(b"https://ex.com/a.tiff"), MediaType::Tiff);
}

#[test]
fn media_type_fallback_is_binary() {
    assert_eq!(img_content_type(b"https://ex.com/a.css"), MediaType::Binary);
    assert_eq!(img_content_type(b"https://ex.com/a"), MediaType::Binary);
    assert_eq!(img_content_type(b""), MediaType::Binary);
    assert_eq!(img_content_type(b"https://ex.com/a.PNG"), MediaType::Binary);
}
