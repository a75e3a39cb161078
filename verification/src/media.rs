//! Content-type inference for the img endpoint: the served type is chosen
//! from the target URL's file extension, falling back to generic binary.
use vstd::prelude::*;
use crate::bytes::{has_suffix, ends_with};
use crate::lit::{spec_ext_jpg, ext_jpg_bytes, spec_ext_jpeg, ext_jpeg_bytes, spec_ext_png,
    ext_png_bytes, spec_ext_gif, ext_gif_bytes, spec_ext_bmp, ext_bmp_bytes, spec_ext_webp,
    ext_webp_bytes, spec_ext_ico, ext_ico_bytes, spec_ext_svg, ext_svg_bytes, spec_ext_webm,
    ext_webm_bytes, spec_ext_weba, ext_weba_bytes, spec_ext_tif, ext_tif_bytes, spec_ext_tiff,
    ext_tiff_bytes};

verus! {

/// The content type the img endpoint responds with.
#[derive(Clone, Copy, Debug, PartialEq, Eq, Structural)]
pub enum MediaType {
    Jpeg,
    Png,
    Gif,
    Bmp,
    Webp,
    Icon,
    Svg,
    Webm,
    Weba,
    Tiff,
    Binary,
}

/// The content type for a URL, by its file extension; first match wins.
pub open spec fn media_type_spec(url: Seq<u8>) -> MediaType {
    if has_suffix(url, spec_ext_jpg()) || has_suffix(url, spec_ext_jpeg()) {
        MediaType::Jpeg
    } else if has_suffix(url, spec_ext_png()) {
        MediaType::Png
    } else if has_suffix(url, spec_ext_gif()) {
        MediaType::Gif
    } else if has_suffix(url, spec_ext_bmp()) {
        MediaType::Bmp
    } else if has_suffix(url, spec_ext_webp()) {
        MediaType::Webp
    } else if has_suffix(url, spec_ext_ico()) {
        MediaType::Icon
    } else if has_suffix(url, spec_ext_svg()) {
        MediaType::Svg
    } else if has_suffix(url, spec_ext_webm()) {
        MediaType::Webm
    } else if has_suffix(url, spec_ext_weba()) {
        MediaType::Weba
    } else if has_suffix(url, spec_ext_tif()) || has_suffix(url, spec_ext_tiff()) {
        MediaType::Tiff
    } else {
        MediaType::Binary
    }
}

/// Infers the content type the img endpoint serves for a target URL.
pub fn img_content_type(url: &[u8]) -> (r: MediaType)
    ensures
        r == media_type_spec(url@),
{
    if ends_with(url, ext_jpg_bytes().as_slice()) || ends_with(url, ext_jpeg_bytes().as_slice()) {
        MediaType::Jpeg
    } else if ends_with(url, ext_png_bytes().as_slice()) {
        MediaType::Png
    } else if ends_with(url, ext_gif_bytes().as_slice()) {
        MediaType::Gif
    } else if ends_with(url, ext_bmp_bytes().as_slice()) {
        MediaType::Bmp
    } else if ends_with(url, ext_webp_bytes().as_slice()) {
        MediaType::Webp
    } else if ends_with(url, ext_ico_bytes().as_slice()) {
        MediaType::Icon
    } else if ends_with(url, ext_svg_bytes().as_slice()) {
        MediaType::Svg
    } else if ends_with(url, ext_webm_bytes().as_slice()) {
        MediaType::Webm
    } else if ends_with(url, ext_weba_bytes().as_slice()) {
        MediaType::Weba
    } else if ends_with(url, ext_tif_bytes().as_slice()) || ends_with(
        url,
        ext_tiff_bytes().as_slice(),
    ) {
        MediaType::Tiff
    } else {
        MediaType::Binary
    }
}

} // verus!
