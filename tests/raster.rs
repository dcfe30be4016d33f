use base64::Engine;
use plotters_dioxus::raster::{png_data_uri, EncodeError, RasterImage};

fn decode_uri(uri: &str) -> image::RgbImage {
    let b64 = uri.strip_prefix("data:image/png;base64,").unwrap();
    let png = base64::engine::general_purpose::STANDARD.decode(b64).unwrap();
    assert_eq!(&png[..8], &[137, 80, 78, 71, 13, 10, 26, 10]);
    image::load_from_memory_with_format(&png, image::ImageFormat::Png).unwrap().to_rgb8()
}

#[test]
fn new_image_is_black() {
    let img = RasterImage::new((4, 3)).unwrap();
    assert_eq!(img.get_size(), (4, 3));
    assert_eq!(img.pixels.len(), 36);
    assert!(img.pixels.iter().all(|&p| p == 0));
}

#[test]
fn oversized_image_is_refused() {
    if usize::BITS == 32 {
        assert!(RasterImage::new((u32::MAX, 2)).is_none());
    } else {
        assert!(RasterImage::new((u32::MAX, u32::MAX)).is_none());
    }
}

#[test]
fn blank_image_round_trips() {
    let img = RasterImage::new((5, 7)).unwrap();
    let uri = img.to_data_uri().unwrap();
    let back = decode_uri(&uri);
    assert_eq!(back.dimensions(), (5, 7));
    assert!(back.pixels().all(|p| p.0 == [0, 0, 0]));
}

#[test]
fn drawn_pixels_survive_encoding() {
    let mut pixels = RasterImage::new((2, 2)).unwrap().pixels;
    pixels[3] = 255;
    pixels[4] = 10;
    pixels[5] = 20;
    let img = RasterImage::from_pixels((2, 2), pixels).unwrap();
    let back = decode_uri(&img.to_data_uri().unwrap());
    assert_eq!(back.get_pixel(1, 0).0, [255, 10, 20]);
    assert_eq!(back.get_pixel(0, 0).0, [0, 0, 0]);
}

#[test]
fn from_pixels_checks_length() {
    assert!(RasterImage::from_pixels((2, 2), vec![0; 11]).is_none());
    assert!(RasterImage::from_pixels((2, 2), vec![0; 12]).is_some());
}

#[test]
fn wrong_buffer_length_is_an_error() {
    let img = RasterImage { width: 3, height: 3, pixels: vec![0; 5] };
    assert_eq!(img.to_data_uri(), Err(EncodeError::BufferSize));
}

#[test]
fn empty_dimensions_are_refused_by_the_encoder() {
    let img = RasterImage::new((0, 5)).unwrap();
    assert!(img.pixels.is_empty());
    assert_eq!(img.to_data_uri(), Err(EncodeError::Png));
    let img = RasterImage::new((5, 0)).unwrap();
    assert_eq!(img.to_data_uri(), Err(EncodeError::Png));
}

#[test]
fn data_uri_holds_base64() {
    assert_eq!(png_data_uri(&vec![0, 1, 2]), "data:image/png;base64,AAEC");
    assert_eq!(png_data_uri(&vec![]), "data:image/png;base64,");
    assert_eq!(png_data_uri(&b"Man".to_vec()), "data:image/png;base64,TWFu");
    assert_eq!(png_data_uri(&b"Ma".to_vec()), "data:image/png;base64,TWE=");
}
