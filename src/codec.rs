use vstd::prelude::*;

verus! {

/// Colour layout of the samples handed to the image codec.
#[derive(Clone, Copy, PartialEq, Eq, Structural, Debug)]
pub enum ColorType {
    Grayscale,
    Rgb,
    Indexed,
    GrayscaleAlpha,
    Rgba,
}

/// Bits per sample.
#[derive(Clone, Copy, PartialEq, Eq, Structural, Debug)]
pub enum BitDepth {
    Eight,
    Sixteen,
}

/// Compression effort of the encoder.
#[derive(Clone, Copy, PartialEq, Eq, Structural, Debug)]
pub enum Compression {
    Default,
    Fast,
    Best,
}

/// Why an image could not be encoded or decoded.
#[derive(Clone, Copy, PartialEq, Eq, Structural, Debug)]
pub enum CodecError {
    InvalidColorType,
    InvalidBitDepth,
    InvalidCompression,
    InvalidLength,
    Encoding,
    Decoding,
}

/// The description of each error.
pub open spec fn message_of(e: CodecError) -> Seq<char> {
    match e {
        CodecError::InvalidColorType => "Invalid color type"@,
        CodecError::InvalidBitDepth => "Invalid bit depth"@,
        CodecError::InvalidCompression => "Invalid compression type"@,
        CodecError::InvalidLength => "Sample count does not match the image size"@,
        CodecError::Encoding => "Failed to encode PNG image data"@,
        CodecError::Decoding => "Failed to decode PNG image data"@,
    }
}

impl CodecError {
    /// A human-readable description of the error.
    pub fn message(&self) -> (r: String)
        ensures
            r@ == message_of(*self),
    {
        match self {
            CodecError::InvalidColorType => "Invalid color type".to_owned(),
            CodecError::InvalidBitDepth => "Invalid bit depth".to_owned(),
            CodecError::InvalidCompression => "Invalid compression type".to_owned(),
            CodecError::InvalidLength => "Sample count does not match the image size".to_owned(),
            CodecError::Encoding => "Failed to encode PNG image data".to_owned(),
            CodecError::Decoding => "Failed to decode PNG image data".to_owned(),
        }
    }
}

#[verifier::external_type_specification]
#[verifier::external_body]
pub struct ExEncodingError(png::EncodingError);

#[verifier::external_type_specification]
#[verifier::external_body]
pub struct ExDecodingError(png::DecodingError);

/// The PNG stream that the encoder writes for these samples and settings, or
/// `None` where it refuses them.
pub uninterp spec fn png_encoded(
    samples: Seq<u8>,
    width: u32,
    height: u32,
    color: ColorType,
    depth: BitDepth,
    compression: Compression,
) -> Option<Seq<u8>>;

/// The samples of the first frame that the decoder reads from a PNG stream,
/// or `None` where it refuses the stream.
pub uninterp spec fn png_decoded(stream: Seq<u8>) -> Option<Seq<u8>>;

/// Samples per pixel of a colour type.
pub open spec fn channels(color: ColorType) -> int {
    match color {
        ColorType::Grayscale => 1,
        ColorType::Rgb => 3,
        ColorType::Indexed => 1,
        ColorType::GrayscaleAlpha => 2,
        ColorType::Rgba => 4,
    }
}

/// Bytes per sample of a bit depth.
pub open spec fn sample_bytes(depth: BitDepth) -> int {
    match depth {
        BitDepth::Eight => 1,
        BitDepth::Sixteen => 2,
    }
}

/// Bytes of one row of pixels.
pub open spec fn row_len(width: u32, color: ColorType, depth: BitDepth) -> int {
    width * channels(color) * sample_bytes(depth)
}

/// Whether `len` bytes are exactly the pixels of a `width` by `height` image,
/// with a row (and its filter byte) inside the machine's index range.
pub open spec fn fits_image(len: int, width: u32, height: u32, color: ColorType, depth: BitDepth) -> bool {
    &&& len == row_len(width, color, depth) * height
    &&& row_len(width, color, depth) < usize::MAX
}

/// Relies on png::Encoder (`new`, `set_color`, `set_depth`, `set_compression`,
/// `write_header`) and png::Writer (`write_image_data`, `finish`): the outcome
/// is determined by the samples and settings, and writing into a `Vec` cannot
/// fail. A buffer of exactly the image's size keeps the row and image sizes
/// that `write_image_data` multiplies within range.
#[verifier::external_body]
fn png_encode(
    samples: &Vec<u8>,
    width: u32,
    height: u32,
    color: ColorType,
    depth: BitDepth,
    compression: Compression,
) -> (r: Result<Vec<u8>, png::EncodingError>)
    requires
        fits_image(samples@.len() as int, width, height, color, depth),
    ensures
        match r {
            Ok(b) => png_encoded(samples@, width, height, color, depth, compression) == Some(b@),
            Err(_) => png_encoded(samples@, width, height, color, depth, compression) is None,
        },
{
    let mut out: Vec<u8> = Vec::new();
    let mut encoder = png::Encoder::new(&mut out, width, height);
    encoder.set_color(match color {
        ColorType::Grayscale => png::ColorType::Grayscale,
        ColorType::Rgb => png::ColorType::Rgb,
        ColorType::Indexed => png::ColorType::Indexed,
        ColorType::GrayscaleAlpha => png::ColorType::GrayscaleAlpha,
        ColorType::Rgba => png::ColorType::Rgba,
    });
    encoder.set_depth(match depth { BitDepth::Eight => png::BitDepth::Eight, BitDepth::Sixteen => png::BitDepth::Sixteen });
    encoder.set_compression(match compression { Compression::Default => png::Compression::Default, Compression::Fast => png::Compression::Fast, Compression::Best => png::Compression::Best });
    let mut writer = encoder.write_header()?;
    writer.write_image_data(samples)?;
    writer.finish()?;
    Ok(out)
}

/// Relies on png::Decoder (`new`, `read_info`) and png::Reader
/// (`output_buffer_size`, `next_frame`): the outcome is determined by the
/// stream, which is read from memory.
#[verifier::external_body]
fn png_decode(stream: &Vec<u8>) -> (r: Result<Vec<u8>, png::DecodingError>)
    ensures
        match r {
            Ok(s) => png_decoded(stream@) == Some(s@),
            Err(_) => png_decoded(stream@) is None,
        },
{
    let mut reader = png::Decoder::new(std::io::Cursor::new(stream.as_slice())).read_info()?;
    let mut buf: Vec<u8> = vec![0; reader.output_buffer_size()];
    let info = reader.next_frame(&mut buf)?;
    buf.truncate(info.buffer_size());
    Ok(buf)
}

/// The colour type of the given name.
pub open spec fn color_type_named(name: Seq<char>) -> Result<ColorType, CodecError> {
    if name == "Grayscale"@ {
        Ok(ColorType::Grayscale)
    } else if name == "Rgb"@ {
        Ok(ColorType::Rgb)
    } else if name == "Indexed"@ {
        Ok(ColorType::Indexed)
    } else if name == "GrayscaleAlpha"@ {
        Ok(ColorType::GrayscaleAlpha)
    } else if name == "Rgba"@ {
        Ok(ColorType::Rgba)
    } else {
        Err(CodecError::InvalidColorType)
    }
}

/// The bit depth of the given name.
pub open spec fn bit_depth_named(name: Seq<char>) -> Result<BitDepth, CodecError> {
    if name == "Eight"@ {
        Ok(BitDepth::Eight)
    } else if name == "Sixteen"@ {
        Ok(BitDepth::Sixteen)
    } else {
        Err(CodecError::InvalidBitDepth)
    }
}

/// The compression of the given name.
pub open spec fn compression_named(name: Seq<char>) -> Result<Compression, CodecError> {
    if name == "Default"@ {
        Ok(Compression::Default)
    } else if name == "Fast"@ {
        Ok(Compression::Fast)
    } else if name == "Best"@ {
        Ok(Compression::Best)
    } else {
        Err(CodecError::InvalidCompression)
    }
}

fn same(name: &String, literal: &str) -> (r: bool)
    ensures
        r == (name@ == literal@),
{
    let owned = literal.to_owned();
    *name == owned
}

/// Reads a colour type from its name.
pub fn parse_color_type(name: &String) -> (r: Result<ColorType, CodecError>)
    ensures
        r == color_type_named(name@),
{
    if same(name, "Grayscale") {
        Ok(ColorType::Grayscale)
    } else if same(name, "Rgb") {
        Ok(ColorType::Rgb)
    } else if same(name, "Indexed") {
        Ok(ColorType::Indexed)
    } else if same(name, "GrayscaleAlpha") {
        Ok(ColorType::GrayscaleAlpha)
    } else if same(name, "Rgba") {
        Ok(ColorType::Rgba)
    } else {
        Err(CodecError::InvalidColorType)
    }
}

/// Reads a bit depth from its name.
pub fn parse_bit_depth(name: &String) -> (r: Result<BitDepth, CodecError>)
    ensures
        r == bit_depth_named(name@),
{
    if same(name, "Eight") {
        Ok(BitDepth::Eight)
    } else if same(name, "Sixteen") {
        Ok(BitDepth::Sixteen)
    } else {
        Err(CodecError::InvalidBitDepth)
    }
}

/// Reads a compression from its name.
pub fn parse_compression(name: &String) -> (r: Result<Compression, CodecError>)
    ensures
        r == compression_named(name@),
{
    if same(name, "Default") {
        Ok(Compression::Default)
    } else if same(name, "Fast") {
        Ok(Compression::Fast)
    } else if same(name, "Best") {
        Ok(Compression::Best)
    } else {
        Err(CodecError::InvalidCompression)
    }
}

/// Checks that `len` bytes are exactly the pixels of the image.
fn image_fits(len: usize, width: u32, height: u32, color: ColorType, depth: BitDepth) -> (r: bool)
    ensures
        r == fits_image(len as int, width, height, color, depth),
{
    let channels: u128 = match color {
        ColorType::Grayscale => 1,
        ColorType::Rgb => 3,
        ColorType::Indexed => 1,
        ColorType::GrayscaleAlpha => 2,
        ColorType::Rgba => 4,
    };
    let bytes: u128 = match depth {
        BitDepth::Eight => 1,
        BitDepth::Sixteen => 2,
    };
    proof {
        assert(width * channels * bytes <= 0xffff_ffffu128 * 8) by (nonlinear_arith)
            requires
                width <= 0xffff_ffffu128,
                channels <= 4,
                bytes <= 2,
        ;
        assert(width * channels * bytes * height <= 0xffff_ffffu128 * 8 * 0xffff_ffffu128) by (nonlinear_arith)
            requires
                width * channels * bytes <= 0xffff_ffffu128 * 8,
                height <= 0xffff_ffffu128,
        ;
    }
    let row = width as u128 * channels * bytes;
    row * height as u128 == len as u128 && row < usize::MAX as u128
}

/// What encoding yields for these samples and named settings: the first
/// invalid name's error, then a length error unless the samples are exactly
/// the image's pixels, and otherwise the encoder's stream, or its failure
/// exactly where the encoder refuses the image.
pub open spec fn encode_allows(
    r: Result<Vec<u8>, CodecError>,
    samples: Seq<u8>,
    width: u32,
    height: u32,
    color: Seq<char>,
    depth: Seq<char>,
    compression: Seq<char>,
) -> bool {
    match (color_type_named(color), bit_depth_named(depth), compression_named(compression)) {
        (Err(e), _, _) => r == Err::<Vec<u8>, CodecError>(e),
        (Ok(_), Err(e), _) => r == Err::<Vec<u8>, CodecError>(e),
        (Ok(_), Ok(_), Err(e)) => r == Err::<Vec<u8>, CodecError>(e),
        (Ok(c), Ok(d), Ok(k)) => if !fits_image(samples.len() as int, width, height, c, d) {
            r == Err::<Vec<u8>, CodecError>(CodecError::InvalidLength)
        } else {
            match r {
                Ok(b) => png_encoded(samples, width, height, c, d, k) == Some(b@),
                Err(e) => e == CodecError::Encoding && png_encoded(samples, width, height, c, d, k) is None,
            }
        },
    }
}

/// Encodes raw samples (16-bit ones as big-endian byte pairs) into a PNG stream with the named colour type, bit depth
/// and compression.
pub fn encode_image(
    samples: &Vec<u8>,
    width: u32,
    height: u32,
    color: &String,
    depth: &String,
    compression: &String,
) -> (r: Result<Vec<u8>, CodecError>)
    ensures
        encode_allows(r, samples@, width, height, color@, depth@, compression@),
{
    let c = match parse_color_type(color) {
        Ok(c) => c,
        Err(e) => return Err(e),
    };
    let d = match parse_bit_depth(depth) {
        Ok(d) => d,
        Err(e) => return Err(e),
    };
    let k = match parse_compression(compression) {
        Ok(k) => k,
        Err(e) => return Err(e),
    };
    if !image_fits(samples.len(), width, height, c, d) {
        return Err(CodecError::InvalidLength);
    }
    match png_encode(samples, width, height, c, d, k) {
        Ok(b) => Ok(b),
        Err(_) => Err(CodecError::Encoding),
    }
}

/// Decodes a PNG stream into the raw samples of its first frame.
pub fn decode_image(stream: &Vec<u8>) -> (r: Result<Vec<u8>, CodecError>)
    ensures
        match r {
            Ok(s) => png_decoded(stream@) == Some(s@),
            Err(e) => e == CodecError::Decoding && png_decoded(stream@) is None,
        },
{
    match png_decode(stream) {
        Ok(s) => Ok(s),
        Err(_) => Err(CodecError::Decoding),
    }
}

} // verus!
