use heightmap_engine::{
    decode_image, encode_image, parse_bit_depth, parse_color_type, parse_compression, BitDepth,
    CodecError, ColorType, Compression,
};

fn s(v: &str) -> String {
    v.to_string()
}

#[test]
fn names_parse_to_settings() {
    assert_eq!(parse_color_type(&s("Grayscale")), Ok(ColorType::Grayscale));
    assert_eq!(parse_color_type(&s("GrayscaleAlpha")), Ok(ColorType::GrayscaleAlpha));
    assert_eq!(parse_color_type(&s("Rgba")), Ok(ColorType::Rgba));
    assert_eq!(parse_color_type(&s("rgb")), Err(CodecError::InvalidColorType));
    assert_eq!(parse_bit_depth(&s("Sixteen")), Ok(BitDepth::Sixteen));
    assert_eq!(parse_bit_depth(&s("16")), Err(CodecError::InvalidBitDepth));
    assert_eq!(parse_compression(&s("Best")), Ok(Compression::Best));
    assert_eq!(parse_compression(&s("Huffman")), Err(CodecError::InvalidCompression));
}

#[test]
fn sample_count_must_match_image() {
    let g = s("Grayscale");
    assert_eq!(
        encode_image(&vec![1, 2, 3], 2, 1, &g, &s("Sixteen"), &s("Default")),
        Err(CodecError::InvalidLength)
    );
    assert_eq!(
        encode_image(&vec![0; 12], 2, 2, &s("Rgb"), &s("Eight"), &s("Default")).map(|b| b[0..8].to_vec()),
        Ok(vec![137, 80, 78, 71, 13, 10, 26, 10])
    );
    assert_eq!(
        encode_image(&vec![0; 12], 2, 2, &s("Rgba"), &s("Eight"), &s("Default")),
        Err(CodecError::InvalidLength)
    );
    assert_eq!(
        encode_image(&vec![], u32::MAX, u32::MAX, &s("Rgb"), &s("Eight"), &s("Default")),
        Err(CodecError::InvalidLength)
    );
}

#[test]
fn empty_image_is_refused_by_encoder() {
    assert_eq!(
        encode_image(&vec![], 0, 3, &s("Grayscale"), &s("Eight"), &s("Default")),
        Err(CodecError::Encoding)
    );
    assert_eq!(
        encode_image(&vec![0; 4], 2, 2, &s("Indexed"), &s("Eight"), &s("Default")),
        Err(CodecError::Encoding)
    );
}

#[test]
fn invalid_names_fail_in_order() {
    let data = vec![0u8; 4];
    assert_eq!(
        encode_image(&data, 2, 2, &s("Bad"), &s("Bad"), &s("Bad")),
        Err(CodecError::InvalidColorType)
    );
    assert_eq!(
        encode_image(&data, 2, 2, &s("Grayscale"), &s("Bad"), &s("Bad")),
        Err(CodecError::InvalidBitDepth)
    );
    assert_eq!(
        encode_image(&data, 2, 2, &s("Grayscale"), &s("Eight"), &s("Bad")),
        Err(CodecError::InvalidCompression)
    );
}

#[test]
fn encoded_image_decodes_to_its_samples() {
    let data = vec![0u8, 64, 128, 255];
    let png = encode_image(&data, 2, 2, &s("Grayscale"), &s("Eight"), &s("Default")).unwrap();
    assert_eq!(&png[0..8], &[137, 80, 78, 71, 13, 10, 26, 10]);
    assert_eq!(decode_image(&png), Ok(data));
}

#[test]
fn sixteen_bit_image_round_trips() {
    let data = vec![0u8, 1, 2, 3, 255, 254, 128, 0];
    let png = encode_image(&data, 2, 2, &s("Grayscale"), &s("Sixteen"), &s("Fast")).unwrap();
    assert_eq!(decode_image(&png), Ok(data));
}

#[test]
fn wrong_sample_count_is_rejected_before_encoding() {
    let data = vec![0u8; 3];
    assert_eq!(
        encode_image(&data, 2, 2, &s("Grayscale"), &s("Eight"), &s("Best")),
        Err(CodecError::InvalidLength)
    );
    assert_eq!(CodecError::InvalidLength.message(), "Sample count does not match the image size");
    assert_eq!(CodecError::InvalidColorType.message(), "Invalid color type");
}

#[test]
fn garbage_fails_to_decode() {
    assert_eq!(decode_image(&vec![1, 2, 3]), Err(CodecError::Decoding));
    assert_eq!(CodecError::Decoding.message(), "Failed to decode PNG image data");
}
