use odm_postprocess::decimal::Decimal;
use odm_postprocess::orthophoto::{derive_lossy, downscale, scaled_length, Derivatives};
use odm_postprocess::process_orthophoto;
use odm_postprocess::raster::{
    lossy_outcome, ColorKind, Raster, TranscodeError, MAX_LOSSY_SIDE, MAX_QUALITY,
};

fn number(text: &str) -> Decimal {
    Decimal::parse(text).unwrap()
}

fn png_of(picture: image::DynamicImage) -> Vec<u8> {
    let mut bytes: Vec<u8> = Vec::new();
    picture
        .write_to(&mut std::io::Cursor::new(&mut bytes), image::ImageOutputFormat::Png)
        .unwrap();
    bytes
}

fn rgb_picture(width: u32, height: u32) -> image::RgbImage {
    image::RgbImage::from_fn(width, height, |x, y| {
        image::Rgb([(x * 7 + y) as u8, (y * 5 + 3) as u8, (x ^ y) as u8])
    })
}

fn rgba_picture(width: u32, height: u32) -> image::RgbaImage {
    image::RgbaImage::from_fn(width, height, |x, y| {
        image::Rgba([(x * 7 + y) as u8, (y * 5 + 3) as u8, (x ^ y) as u8, (x * 40) as u8])
    })
}

#[test]
fn scales_lengths_by_exact_factors() {
    assert_eq!(scaled_length(1000, number("0.2")), 200);
    assert_eq!(scaled_length(500, number("0.2")), 100);
    assert_eq!(scaled_length(100, number("0.57")), 57);
    assert_eq!(scaled_length(10, number("0.3")), 3);
    assert_eq!(scaled_length(7, number("0.5")), 3);
    assert_eq!(scaled_length(3, number("0.2")), 0);
    assert_eq!(scaled_length(4, number("0.25")), 1);
    assert_eq!(scaled_length(999, number("0.999")), 998);
    assert_eq!(scaled_length(1000, number("1.5")), 1500);
    assert_eq!(scaled_length(3, number("0.333333333333333333")), 0);
    assert_eq!(scaled_length(3, number("0.333333333333333334")), 1);
    assert_eq!(scaled_length(1, Decimal::from_units(999_999_999_999_999_999)), 0);
}

#[test]
fn a_factor_of_one_keeps_the_length() {
    for length in [0, 1, 2, 500, 1000, 16383, 16384, 65535, 1 << 31, u32::MAX - 1, u32::MAX] {
        assert_eq!(scaled_length(length, number("1")), length);
        assert_eq!(scaled_length(length, number("1.0")), length);
    }
}

#[test]
fn factors_below_zero_scale_to_nothing() {
    assert_eq!(scaled_length(1000, number("0")), 0);
    assert_eq!(scaled_length(1000, number("-0.2")), 0);
    assert_eq!(scaled_length(u32::MAX, number("-999999999999999999")), 0);
    assert_eq!(scaled_length(u32::MAX, number("-1e20")), 0);
    assert_eq!(scaled_length(1, number("-1e400")), 0);
    assert_eq!(scaled_length(1, number("-0.000000000000000001")), 0);
    assert_eq!(scaled_length(0, number("5")), 0);
    assert_eq!(scaled_length(0, number("999999999999999999")), 0);
}

#[test]
fn scaled_lengths_stop_at_the_largest_length() {
    assert_eq!(scaled_length(u32::MAX, number("2")), u32::MAX);
    assert_eq!(scaled_length(1 << 31, number("2")), u32::MAX);
    assert_eq!(scaled_length((1 << 31) - 1, number("2")), u32::MAX - 1);
    assert_eq!(scaled_length(1, number("4294967295")), u32::MAX);
    assert_eq!(scaled_length(1, number("4294967295.999999999999999999")), u32::MAX);
    assert_eq!(scaled_length(1, number("4294967296")), u32::MAX);
    assert_eq!(scaled_length(2, number("4294967295.5")), u32::MAX);
    assert_eq!(scaled_length(1, number("999999999999999999")), u32::MAX);
    assert_eq!(scaled_length(u32::MAX, number("999999999999999999.999999999999999999")), u32::MAX);
    assert_eq!(scaled_length(1, number("1e20")), u32::MAX);
    assert_eq!(scaled_length(1, number("1e38")), u32::MAX);
    assert_eq!(scaled_length(7, number("1e400")), u32::MAX);
    assert_eq!(scaled_length(0, number("1e400")), 0);
}

#[test]
fn decodes_what_the_codec_wrote() {
    let picture = rgb_picture(7, 5);
    let raster = Raster::decode(&png_of(image::DynamicImage::ImageRgb8(picture.clone()))).unwrap();
    assert_eq!(raster.width(), 7);
    assert_eq!(raster.height(), 5);
    assert_eq!(raster.color(), ColorKind::Rgb8);
    let pixels = raster.rgba();
    assert_eq!(pixels.len(), 4 * 7 * 5);
    assert_eq!(&pixels[0..8], &[0, 3, 0, 255, 7, 3, 1, 255]);
    for (at, pixel) in pixels.chunks(4).enumerate() {
        assert_eq!(&pixel[0..3], &picture.as_raw()[3 * at..3 * at + 3]);
        assert_eq!(pixel[3], 255);
    }
    let gray = image::GrayImage::from_fn(3, 2, |x, y| image::Luma([(x + 10 * y) as u8]));
    let raster = Raster::decode(&png_of(image::DynamicImage::ImageLuma8(gray.clone()))).unwrap();
    assert_eq!((raster.width(), raster.height()), (3, 2));
    assert_eq!(raster.color(), ColorKind::L8);
    assert_eq!(raster.rgba()[0..8], [0, 0, 0, 255, 1, 1, 1, 255]);
    assert_eq!(raster.rgba().len(), 4 * gray.into_raw().len());
}

#[test]
fn what_is_no_image_is_a_decode_error() {
    for source in [&b""[..], &b"not an image"[..], &b"\x89PNG\r\n\x1a\n"[..], &[0u8; 64][..]] {
        assert!(matches!(Raster::decode(source), Err(TranscodeError::Decode(_))));
        assert!(matches!(
            process_orthophoto(source, number("0.2"), number("90")),
            Err(TranscodeError::Decode(_))
        ));
    }
    let mut cut = png_of(image::DynamicImage::ImageRgb8(rgb_picture(20, 20)));
    cut.truncate(cut.len() / 2);
    match Raster::decode(&cut) {
        Err(TranscodeError::Decode(cause)) => assert!(!cause.is_empty()),
        _ => panic!("a file cut short was decoded"),
    }
}

#[test]
fn lossless_copy_is_pixel_identical() {
    let sources = vec![
        image::DynamicImage::ImageRgb8(rgb_picture(31, 17)),
        image::DynamicImage::ImageRgba8(rgba_picture(16, 9)),
        image::DynamicImage::ImageLuma8(image::GrayImage::from_fn(5, 4, |x, y| {
            image::Luma([(x * y) as u8])
        })),
        image::DynamicImage::ImageRgb16(image::ImageBuffer::from_fn(4, 3, |x, y| {
            image::Rgb([(x * 9000) as u16, (y * 20000) as u16, 65535])
        })),
    ];
    for picture in sources {
        let raster = Raster::decode(&png_of(picture.clone())).unwrap();
        let copy = raster.encode_lossless().unwrap();
        let again = Raster::decode(&copy).unwrap();
        assert_eq!(again.width(), raster.width());
        assert_eq!(again.height(), raster.height());
        assert_eq!(again.color(), raster.color());
        assert_eq!(again.rgba(), raster.rgba());
        let read = image::load_from_memory_with_format(&copy, image::ImageFormat::Png).unwrap();
        assert_eq!(read, picture);
    }
}

#[test]
fn downscaled_image_has_floored_dimensions() {
    let raster = Raster::decode(&png_of(image::DynamicImage::ImageRgb8(rgb_picture(101, 53)))).unwrap();
    for (factor, width, height) in [
        ("0.2", 20, 10),
        ("0.5", 50, 26),
        ("0.999", 100, 52),
        ("0.01", 1, 0),
        ("2", 202, 106),
        ("0.019", 1, 1),
    ] {
        match downscale(&raster, number(factor)) {
            Ok(small) => {
                assert_eq!((small.width(), small.height()), (width, height), "{}", factor);
                assert_eq!(small.rgba().len(), (4 * width * height) as usize);
            }
            Err(failure) => {
                assert_eq!(failure, TranscodeError::Encode);
                assert!(width == 0 || height == 0, "{}", factor);
            }
        }
    }
}

#[test]
fn a_factor_of_one_keeps_the_image() {
    let picture = rgba_picture(12, 9);
    let raster = Raster::decode(&png_of(image::DynamicImage::ImageRgba8(picture.clone()))).unwrap();
    let same = downscale(&raster, number("1.0")).unwrap();
    assert_eq!((same.width(), same.height()), (12, 9));
    assert_eq!(same.color(), ColorKind::Rgba8);
    assert_eq!(same.rgba(), picture.into_raw());
}

#[test]
fn downscaled_image_is_rgba_with_opaque_alpha() {
    let raster = Raster::decode(&png_of(image::DynamicImage::ImageRgb8(rgb_picture(40, 30)))).unwrap();
    assert_eq!(raster.color(), ColorKind::Rgb8);
    let small = downscale(&raster, number("0.5")).unwrap();
    assert_eq!(small.color(), ColorKind::Rgba8);
    let samples = small.rgba();
    assert_eq!(samples.len(), 4 * 20 * 15);
    for pixel in samples.chunks(4) {
        assert_eq!(pixel[3], 255);
    }
    let gray = image::GrayImage::from_fn(10, 10, |x, y| image::Luma([(x * y) as u8]));
    let raster = Raster::decode(&png_of(image::DynamicImage::ImageLuma8(gray))).unwrap();
    let small = raster.resize(4, 6).unwrap();
    assert_eq!(small.color(), ColorKind::Rgba8);
    assert_eq!((small.width(), small.height()), (4, 6));
    for pixel in small.rgba().chunks(4) {
        assert_eq!(pixel[3], 255);
        assert_eq!(pixel[0], pixel[1]);
        assert_eq!(pixel[1], pixel[2]);
    }
}

#[test]
fn resampling_averages_neighbours() {
    let picture = image::RgbImage::from_fn(4, 2, |x, _| {
        if x < 2 {
            image::Rgb([0, 0, 0])
        } else {
            image::Rgb([200, 100, 50])
        }
    });
    let raster = Raster::decode(&png_of(image::DynamicImage::ImageRgb8(picture))).unwrap();
    let small = raster.resize(2, 1).unwrap();
    let samples = small.rgba();
    assert_eq!(samples.len(), 8);
    assert!(samples[0] < 60 && samples[4] > 140);
    assert!(samples[1] < 30 && samples[5] > 70);
    assert_eq!((samples[3], samples[7]), (255, 255));
}

#[test]
fn sizes_that_the_lossy_format_cannot_hold_are_refused() {
    let raster = Raster::decode(&png_of(image::DynamicImage::ImageRgb8(rgb_picture(3, 3)))).unwrap();
    assert_eq!(raster.resize(0, 1).err(), Some(TranscodeError::Encode));
    assert_eq!(raster.resize(1, 0).err(), Some(TranscodeError::Encode));
    assert_eq!(raster.resize(MAX_LOSSY_SIDE + 1, 1).err(), Some(TranscodeError::Encode));
    assert_eq!(raster.resize(1, MAX_LOSSY_SIDE + 1).err(), Some(TranscodeError::Encode));
    assert_eq!(raster.resize(u32::MAX, u32::MAX).err(), Some(TranscodeError::Encode));
    assert_eq!(downscale(&raster, number("0.2")).err(), Some(TranscodeError::Encode));
    assert_eq!(downscale(&raster, number("0")).err(), Some(TranscodeError::Encode));
    assert_eq!(downscale(&raster, number("-1")).err(), Some(TranscodeError::Encode));
    assert_eq!(downscale(&raster, number("5462")).err(), Some(TranscodeError::Encode));
    assert_eq!(downscale(&raster, number("999999999999999999")).err(), Some(TranscodeError::Encode));
    assert_eq!(derive_lossy(&raster, number("0.2"), number("90")), Err(TranscodeError::Encode));
    assert_eq!(
        process_orthophoto(
            &png_of(image::DynamicImage::ImageRgb8(rgb_picture(3, 3))),
            number("0.2"),
            number("90")
        ),
        Err(TranscodeError::Encode)
    );
    let wide = raster.resize(MAX_LOSSY_SIDE, 1).unwrap();
    assert_eq!((wide.width(), wide.height()), (MAX_LOSSY_SIDE, 1));
}

#[test]
fn qualities_beyond_the_scale_are_refused() {
    let raster = Raster::decode(&png_of(image::DynamicImage::ImageRgb8(rgb_picture(8, 8)))).unwrap();
    assert_eq!(MAX_QUALITY, 100);
    assert_eq!(raster.encode_lossy(number("101")), Err(TranscodeError::Encode));
    assert_eq!(raster.encode_lossy(number("255")), Err(TranscodeError::Encode));
    assert_eq!(derive_lossy(&raster, number("1"), number("101")), Err(TranscodeError::Encode));
    assert!(raster.encode_lossy(number("0")).is_ok());
    assert!(raster.encode_lossy(number("100")).is_ok());
    assert!(derive_lossy(&raster, number("1"), number("100")).is_ok());
    assert_eq!(raster.encode_lossy(number("100.000000000000000001")), Err(TranscodeError::Encode));
    assert_eq!(raster.encode_lossy(number("-0.000000000000000001")), Err(TranscodeError::Encode));
    assert_eq!(raster.encode_lossy(number("-1")), Err(TranscodeError::Encode));
    assert_eq!(raster.encode_lossy(number("1e400")), Err(TranscodeError::Encode));
    assert!(raster.encode_lossy(number("-0")).is_ok());
}

#[test]
fn qualities_need_not_be_whole() {
    let raster = Raster::decode(&png_of(image::DynamicImage::ImageRgba8(rgba_picture(64, 48)))).unwrap();
    let between = raster.encode_lossy(number("87.5")).unwrap();
    assert_eq!(&between[0..4], b"RIFF");
    let pixels = raster.rgba();
    let encoder = webp::Encoder::from_rgba(&pixels, 64, 48);
    assert_eq!(between, encoder.encode_simple(false, 87.5).unwrap().to_vec());
    assert_eq!(
        raster.encode_lossy(number("90")).unwrap(),
        encoder.encode_simple(false, 90.0).unwrap().to_vec()
    );
    assert_eq!(
        raster.encode_lossy(number("12.25")).unwrap(),
        encoder.encode_simple(false, 12.25).unwrap().to_vec()
    );
    assert!(raster.encode_lossy(number("5")).unwrap().len() < raster.encode_lossy(number("95.5")).unwrap().len());
}

#[test]
fn layouts_that_the_lossy_encoder_does_not_take_are_refused() {
    let gray = image::GrayImage::from_fn(10, 10, |x, y| image::Luma([(x * y) as u8]));
    let raster = Raster::decode(&png_of(image::DynamicImage::ImageLuma8(gray))).unwrap();
    assert_eq!(raster.encode_lossy(number("90")), Err(TranscodeError::Encode));
    assert!(derive_lossy(&raster, number("0.5"), number("90")).is_ok());
}

#[test]
fn lossy_outcome_passes_the_bytes_on() {
    assert_eq!(lossy_outcome(Some(vec![1, 2, 3])), Ok(vec![1, 2, 3]));
    assert_eq!(lossy_outcome(Some(vec![])), Ok(vec![]));
    assert_eq!(lossy_outcome(None), Err(TranscodeError::Encode));
}

#[test]
fn lossy_derivative_is_a_webp_file() {
    let raster = Raster::decode(&png_of(image::DynamicImage::ImageRgba8(rgba_picture(64, 48)))).unwrap();
    let lossy = derive_lossy(&raster, number("0.25"), number("80")).unwrap();
    assert_eq!(&lossy[0..4], b"RIFF");
    assert_eq!(&lossy[8..12], b"WEBP");
    let read = webp::Decoder::new(&lossy).decode().unwrap();
    assert_eq!((read.width(), read.height()), (16, 12));
    assert!(read.is_alpha());
    let coarse = derive_lossy(&raster, number("1"), number("5")).unwrap();
    let fine = derive_lossy(&raster, number("1"), number("95")).unwrap();
    assert!(coarse.len() < fine.len());
}

#[test]
fn end_to_end_makes_summary_and_both_derivatives() {
    let metadata = "{\"stats\": {\"bbox\": {\"EPSG:4326\": {\"bbox\": {\"minx\": 10.0, \"miny\": 20.0, \"maxx\": 12.0, \"maxy\": 22.0}}}}}";
    let (bounds, center) = odm_postprocess::get_bounds(metadata).unwrap();
    let summary = odm_postprocess::Summary::new(bounds, center).to_json().render().unwrap();
    let record: serde_json::Value = serde_json::from_str(&summary).unwrap();
    assert_eq!(record["center"]["lat"].as_f64(), Some(21.0));
    assert_eq!(record["center"]["lon"].as_f64(), Some(11.0));
    let source = png_of(image::DynamicImage::ImageRgb8(rgb_picture(1000, 500)));
    let Derivatives { lossless, lossy } = process_orthophoto(&source, number("0.2"), number("90")).unwrap();
    let full = image::load_from_memory_with_format(&lossless, image::ImageFormat::Png).unwrap();
    assert_eq!((full.width(), full.height()), (1000, 500));
    assert_eq!(full, image::DynamicImage::ImageRgb8(rgb_picture(1000, 500)));
    let small = webp::Decoder::new(&lossy).decode().unwrap();
    assert_eq!((small.width(), small.height()), (200, 100));
}

fn cyclic_sum(bytes: &[u8]) -> u32 {
    let mut table = [0u32; 256];
    for (at, entry) in table.iter_mut().enumerate() {
        let mut value = at as u32;
        for _ in 0..8 {
            value = if value & 1 == 1 { 0xEDB8_8320 ^ (value >> 1) } else { value >> 1 };
        }
        *entry = value;
    }
    let mut sum = 0xFFFF_FFFFu32;
    for byte in bytes {
        sum = table[((sum ^ *byte as u32) & 0xFF) as usize] ^ (sum >> 8);
    }
    !sum
}

fn chunk(kind: &[u8; 4], data: &[u8]) -> Vec<u8> {
    let mut body = kind.to_vec();
    body.extend_from_slice(data);
    let mut whole = (data.len() as u32).to_be_bytes().to_vec();
    whole.extend_from_slice(&body);
    whole.extend_from_slice(&cyclic_sum(&body).to_be_bytes());
    whole
}

/// A PNG file of a black image in shades of grey, of so many bits to the
/// pixel, its rows stored without compression.
fn black_png(width: u32, height: u32, depth: u8) -> Vec<u8> {
    let mut header = width.to_be_bytes().to_vec();
    header.extend_from_slice(&height.to_be_bytes());
    header.extend_from_slice(&[depth, 0, 0, 0, 0]);
    let rows = height as usize * (1 + (width as usize * depth as usize + 7) / 8);
    let mut stream = vec![0x78, 0x01];
    let mut left = rows;
    while left > 0 {
        let block = left.min(65535);
        left -= block;
        stream.push(if left == 0 { 1 } else { 0 });
        stream.extend_from_slice(&(block as u16).to_le_bytes());
        stream.extend_from_slice(&(!(block as u16)).to_le_bytes());
        stream.resize(stream.len() + block, 0);
    }
    let sum = (((rows % 65521) as u32) << 16) | 1;
    stream.extend_from_slice(&sum.to_be_bytes());
    let mut file = vec![0x89, b'P', b'N', b'G', 0x0D, 0x0A, 0x1A, 0x0A];
    file.extend_from_slice(&chunk(b"IHDR", &header));
    file.extend_from_slice(&chunk(b"IDAT", &stream));
    file.extend_from_slice(&chunk(b"IEND", &[]));
    file
}

#[test]
fn hand_made_png_decodes() {
    let raster = Raster::decode(&black_png(19, 5, 1)).unwrap();
    assert_eq!((raster.width(), raster.height()), (19, 5));
    assert_eq!(raster.color(), ColorKind::L8);
    assert_eq!(raster.rgba(), [0u8, 0, 0, 255].repeat(19 * 5));
    let raster = Raster::decode(&black_png(300, 2, 8)).unwrap();
    assert_eq!((raster.width(), raster.height()), (300, 2));
    assert_eq!(raster.rgba(), [0u8, 0, 0, 255].repeat(300 * 2));
}

#[test]
fn decodes_beyond_the_default_limits_of_the_decoder() {
    let side: u32 = 23171;
    let source = black_png(side, side, 8);
    let mut limited = image::io::Reader::new(std::io::Cursor::new(&source[..]))
        .with_guessed_format()
        .unwrap();
    limited.limits(image::io::Limits::default());
    assert!(matches!(limited.decode(), Err(image::ImageError::Limits(_))));
    let raster = Raster::decode(&source).unwrap();
    assert_eq!((raster.width(), raster.height()), (side, side));
    assert_eq!(raster.color(), ColorKind::L8);
}
