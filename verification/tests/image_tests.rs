use cosmic_notifications::image::{ImageData, ImageDataError};

#[test]
fn valid_rgba_payload_is_accepted() {
    let img = ImageData::try_from_parts(2, 2, 8, true, 8, 4, vec![7u8; 16]).unwrap();
    assert_eq!(img.width, 2);
    assert_eq!(img.height, 2);
    assert!(img.has_alpha);
    assert_eq!(img.data.len(), 16);
}

#[test]
fn sixteen_bit_samples_are_rejected() {
    let r = ImageData::try_from_parts(2, 2, 8, true, 16, 4, vec![7u8; 16]);
    assert_eq!(r.unwrap_err(), ImageDataError::BitsPerSampleNot8);
}

#[test]
fn short_data_is_rejected() {
    let r = ImageData::try_from_parts(2, 2, 8, true, 8, 4, vec![7u8; 15]);
    assert_eq!(r.unwrap_err(), ImageDataError::DataLengthChannelsMismatch);
}

#[test]
fn non_positive_dimensions_are_rejected() {
    let r = ImageData::try_from_parts(0, 2, 8, true, 8, 4, vec![]);
    assert_eq!(r.unwrap_err(), ImageDataError::WidthNotPositive);
    let r = ImageData::try_from_parts(2, -1, 8, true, 8, 4, vec![]);
    assert_eq!(r.unwrap_err(), ImageDataError::HeightNotPositive);
}

#[test]
fn alpha_channel_mismatch_is_rejected() {
    let r = ImageData::try_from_parts(2, 2, 6, true, 8, 3, vec![7u8; 12]);
    assert_eq!(r.unwrap_err(), ImageDataError::AlphaChannelMismatch);
}

#[test]
fn rowstride_mismatch_is_rejected() {
    let r = ImageData::try_from_parts(2, 2, 7, true, 8, 4, vec![7u8; 16]);
    assert_eq!(r.unwrap_err(), ImageDataError::DataLengthRowstrideMismatch);
}

#[test]
fn large_rgb_is_resized_to_16x16_opaque_rgba() {
    let img = ImageData::try_from_parts(32, 32, 96, false, 8, 3, vec![100u8; 32 * 32 * 3])
        .unwrap();
    let rgba = img.into_rgba();
    assert_eq!(rgba.width, 16);
    assert_eq!(rgba.height, 16);
    assert_eq!(rgba.rowstride, 64);
    assert_eq!(rgba.data.len(), 16 * 16 * 4);
    for p in 0..(16 * 16) {
        assert_eq!(rgba.data[p * 4 + 3], 0xFF);
    }
}

#[test]
fn small_rgb_gets_alpha_synthesized_in_place() {
    let data = vec![1u8, 2, 3, 4, 5, 6];
    let img = ImageData::try_from_parts(2, 1, 6, false, 8, 3, data).unwrap();
    let rgba = img.into_rgba();
    assert_eq!(rgba.width, 2);
    assert_eq!(rgba.height, 1);
    assert_eq!(rgba.data, vec![1, 2, 3, 0xFF, 4, 5, 6, 0xFF]);
    assert!(rgba.has_alpha);
    assert_eq!(rgba.channels, 4);
    assert_eq!(rgba.rowstride, 8);
}

#[test]
fn small_rgba_passes_through_unchanged() {
    let data: Vec<u8> = (0..16u8).collect();
    let img = ImageData::try_from_parts(2, 2, 8, true, 8, 4, data.clone()).unwrap();
    let rgba = img.into_rgba();
    assert_eq!(rgba.width, 2);
    assert_eq!(rgba.height, 2);
    assert_eq!(rgba.data, data);
    assert_eq!(rgba.rowstride, 8);
}

#[test]
fn wide_image_is_clipped_only_where_needed() {
    let img = ImageData::try_from_parts(32, 4, 128, true, 8, 4, vec![9u8; 32 * 4 * 4]).unwrap();
    let rgba = img.into_rgba();
    assert_eq!(rgba.width, 16);
    assert_eq!(rgba.height, 4);
    assert_eq!(rgba.rowstride, 64);
    assert_eq!(rgba.data.len(), 16 * 4 * 4);
}
