use rpng::chunk_type::PngChunkType;
use rpng::color::{Color, Color16};
use rpng::color_type::ColorType;
use rpng::decoders::{
    EightBitGreyscaleDecoder, EightBitGreyscaleWithAlphaDecoder, EightBitIndexedColorDecoder,
    EightBitTrueColorDecoder, EightBitTrueColorWithAlphaDecoder, FourBitGreyscaleDecoder,
    FourBitIndexedColorDecoder, OneBitGreyscaleDecoder, OneBitIndexedColorDecoder, PixelDecoder,
    SixteenBitGreyscaleDecoder, SixteenBitTrueColorDecoder, SixteenBitTrueColorWithAlphaDecoder,
    TwoBitGreyscaleDecoder, TwoBitIndexedColorDecoder,
};
use rpng::deflate::decode;
use rpng::error::PngError;
use rpng::filters::{Average, Filter, NoFilter, Paeth, Sub, Up};
use rpng::helpers::read_unsigned_int;
use rpng::ihdr::{parse, IHDR};
use rpng::PngFile;
use std::io::Write;

fn zlib(data: &[u8]) -> Vec<u8> {
    let mut encoder = flate2::write::ZlibEncoder::new(Vec::new(), flate2::Compression::best());
    encoder.write_all(data).unwrap();
    encoder.finish().unwrap()
}

fn png_with(pitch: usize, bytes_per_pixel: usize) -> PngFile {
    let mut png = PngFile::new(0, 0);
    png.pitch = pitch;
    png.bytes_per_pixel = bytes_per_pixel;
    png
}

fn png_of(width: usize, height: usize, color_type: ColorType, bit_depth: usize) -> PngFile {
    let channels = match color_type {
        ColorType::Unknown => 0,
        ColorType::Greyscale | ColorType::IndexedColor => 1,
        ColorType::GreyscaleWithAlpha => 2,
        ColorType::Truecolor => 3,
        ColorType::TrueColorWithAlpha => 4,
    };
    let mut png = PngFile::new(width, height);
    png.color_type = color_type;
    png.bit_depth = bit_depth;
    png.bits_per_pixel = channels * bit_depth;
    png.bytes_per_pixel = (png.bits_per_pixel + 7) / 8;
    png
}

/// The forward filter, as an encoder applies it to one scanline.
fn forward(filter_type: u8, raw: &[u8], prior: &[u8], bpp: usize) -> Vec<u8> {
    let mut out = Vec::new();
    for i in 0..raw.len() {
        let a = if i >= bpp { raw[i - bpp] as i32 } else { 0 };
        let b = prior[i] as i32;
        let c = if i >= bpp { prior[i - bpp] as i32 } else { 0 };
        let predicted = match filter_type {
            1 => a,
            2 => b,
            3 => (a + b) / 2,
            4 => {
                let p = a + b - c;
                let (pa, pb, pc) = ((p - a).abs(), (p - b).abs(), (p - c).abs());
                if pa <= pb && pa <= pc {
                    a
                } else if pb <= pc {
                    b
                } else {
                    c
                }
            }
            _ => 0,
        };
        out.push((raw[i] as i32 - predicted).rem_euclid(256) as u8);
    }
    out
}

/// What the Paeth filter predicts from the three neighbours, found by
/// unfiltering a byte 0 that has them around it.
fn paeth_of(a: u8, b: u8, c: u8) -> u8 {
    let png = png_with(2, 1);
    // the first byte of the second row is filtered so that it unfilters to `a`
    let first = forward(4, &[a], &[c], 1)[0];
    let mut data = vec![0, c, b, 4, first, 0];
    Paeth.apply(&mut data, 4, 1, &png);
    assert_eq!(data[4], a);
    data[5]
}

#[test]
fn reads_big_endian() {
    assert_eq!(read_unsigned_int(&[0x12, 0x34, 0x56, 0x78]), 0x12345678);
    assert_eq!(read_unsigned_int(&[0, 0, 0, 13]), 13);
    assert_eq!(read_unsigned_int(&[0xFF, 0xFF, 0xFF, 0xFF]), 4294967295);
    assert_eq!(read_unsigned_int(&[0x80, 0, 0, 0, 9, 9]), 2147483648);
}

#[test]
fn colors_hold_their_channels() {
    let c = Color::new(1, 2, 3, 4);
    assert_eq!((c.r, c.g, c.b, c.a), (1, 2, 3, 4));
    assert_eq!(c.clone(), c);
    let d = Color16::new(1000, 2000, 3000, 65535);
    assert_eq!((d.r, d.g, d.b, d.a), (1000, 2000, 3000, 65535));
}

#[test]
fn color_type_of_byte() {
    assert_eq!(ColorType::from(0), ColorType::Greyscale);
    assert_eq!(ColorType::from(2), ColorType::Truecolor);
    assert_eq!(ColorType::from(3), ColorType::IndexedColor);
    assert_eq!(ColorType::from(4), ColorType::GreyscaleWithAlpha);
    assert_eq!(ColorType::from(6), ColorType::TrueColorWithAlpha);
    for b in [1u8, 5, 7, 8, 255] {
        assert_eq!(ColorType::from(b), ColorType::Unknown);
    }
}

#[test]
fn color_type_names() {
    assert_eq!(ColorType::Unknown.to_string(), "Unknown");
    assert_eq!(ColorType::Greyscale.to_string(), "Greyscale");
    assert_eq!(ColorType::Truecolor.to_string(), "Truecolor");
    assert_eq!(ColorType::IndexedColor.to_string(), "Indexed-color");
    assert_eq!(ColorType::GreyscaleWithAlpha.to_string(), "Greyscale with alpha");
    assert_eq!(ColorType::TrueColorWithAlpha.to_string(), "Truecolor with alpha");
}

#[test]
fn validity_matrix() {
    let allowed: [(ColorType, &[u8]); 5] = [
        (ColorType::Greyscale, &[1, 2, 4, 8, 16]),
        (ColorType::Truecolor, &[8, 16]),
        (ColorType::IndexedColor, &[1, 2, 4, 8]),
        (ColorType::GreyscaleWithAlpha, &[8, 16]),
        (ColorType::TrueColorWithAlpha, &[8, 16]),
    ];
    for (color_type, depths) in allowed {
        for depth in 0..=255u8 {
            let res = color_type.validate(depth);
            if depths.contains(&depth) {
                assert_eq!(res, Ok(()));
            } else {
                assert_eq!(res, Err("Invalid color type and bit depth combination".to_string()));
            }
        }
    }
    for depth in [0u8, 1, 8, 16] {
        assert_eq!(
            ColorType::Unknown.validate(depth),
            Err("Invalid colour type, found: Unknown".to_string())
        );
    }
}

#[test]
fn chunk_kinds_by_code() {
    assert_eq!(PngChunkType::from_code(b"IHDR"), Some(PngChunkType::ImageHeader));
    assert_eq!(PngChunkType::from_code(b"PLTE"), Some(PngChunkType::Palette));
    assert_eq!(PngChunkType::from_code(b"IDAT"), Some(PngChunkType::ImageData));
    assert_eq!(PngChunkType::from_code(b"IEND"), Some(PngChunkType::End));
    assert_eq!(PngChunkType::from_code(b"cHRM"), Some(PngChunkType::Chromaticity));
    assert_eq!(PngChunkType::from_code(b"gAMA"), Some(PngChunkType::Gamma));
    assert_eq!(PngChunkType::from_code(b"iCCP"), Some(PngChunkType::ICCProfile));
    assert_eq!(PngChunkType::from_code(b"sBIT"), Some(PngChunkType::SignificantBits));
    assert_eq!(PngChunkType::from_code(b"sRGB"), Some(PngChunkType::RGBColorSpace));
    assert_eq!(PngChunkType::from_code(b"bKGD"), Some(PngChunkType::BackgroundColor));
    assert_eq!(PngChunkType::from_code(b"hIST"), Some(PngChunkType::Histogram));
    assert_eq!(PngChunkType::from_code(b"tRNS"), Some(PngChunkType::Transparency));
    assert_eq!(PngChunkType::from_code(b"pHYs"), Some(PngChunkType::PhysicalPixelDimensions));
    assert_eq!(PngChunkType::from_code(b"sPLT"), Some(PngChunkType::SuggestedPalette));
    assert_eq!(PngChunkType::from_code(b"tIME"), Some(PngChunkType::LastModifiedTime));
    assert_eq!(PngChunkType::from_code(b"iTXt"), Some(PngChunkType::InternationalTextualData));
    assert_eq!(PngChunkType::from_code(b"tEXt"), Some(PngChunkType::TextualData));
    assert_eq!(PngChunkType::from_code(b"zTXt"), Some(PngChunkType::CompressedTextualData));
    assert_eq!(PngChunkType::from_code(b"ihdr"), None);
    assert_eq!(PngChunkType::from_code(b"IDA"), None);
    assert_eq!(PngChunkType::from_code(b"IDATA"), None);
    assert_eq!(PngChunkType::from_code(b""), None);
}

#[test]
fn blank_header() {
    let ihdr = IHDR::new();
    assert_eq!((ihdr.width, ihdr.height, ihdr.bit_depth), (0, 0, 0));
    assert_eq!(ihdr.color_type, ColorType::Unknown);
    assert_eq!((ihdr.compression_method, ihdr.filter_method, ihdr.interlace_method), (0, 0, 0));
}

#[test]
fn parses_a_header() {
    let ihdr = parse(&[0, 0, 1, 0, 0, 0, 0, 7, 16, 2, 0, 0, 0]).unwrap();
    assert_eq!(ihdr.width, 256);
    assert_eq!(ihdr.height, 7);
    assert_eq!(ihdr.bit_depth, 16);
    assert_eq!(ihdr.color_type, ColorType::Truecolor);
    assert_eq!((ihdr.compression_method, ihdr.filter_method, ihdr.interlace_method), (0, 0, 0));
    let wide = parse(&[0xFF, 0xFF, 0xFF, 0xFF, 0, 0, 0, 0, 1, 0, 0, 0, 0]).unwrap();
    assert_eq!(wide.width, 4294967295);
    assert_eq!(wide.height, 0);
}

#[test]
fn header_errors_in_order() {
    let text = |data: &[u8]| parse(data).unwrap_err();
    assert_eq!(text(&[0; 12]), "IHDR length invalid");
    assert_eq!(text(&[0; 14]), "IHDR length invalid");
    assert_eq!(text(&[]), "IHDR length invalid");
    // the colour type is looked at before the methods
    assert_eq!(
        text(&[0, 0, 0, 1, 0, 0, 0, 1, 8, 1, 9, 9, 9]),
        "Invalid colour type, found: Unknown"
    );
    assert_eq!(
        text(&[0, 0, 0, 1, 0, 0, 0, 1, 3, 0, 9, 9, 9]),
        "Invalid color type and bit depth combination"
    );
    assert_eq!(text(&[0, 0, 0, 1, 0, 0, 0, 1, 8, 0, 9, 9, 9]), "Compression method invalid");
    assert_eq!(text(&[0, 0, 0, 1, 0, 0, 0, 1, 8, 0, 0, 9, 9]), "Filter method invalid");
    assert_eq!(text(&[0, 0, 0, 1, 0, 0, 0, 1, 8, 0, 0, 0, 9]), "Interlace method invalid");
    assert_eq!(
        text(&[0, 0, 0, 1, 0, 0, 0, 1, 8, 0, 0, 0, 1]),
        "Interlaced PNGs are not currently supported."
    );
}

#[test]
fn decompresses_a_stream() {
    let text = b"a scanline, a scanline, a scanline, and one more scanline";
    let compressed = zlib(text);
    assert_ne!(compressed.as_slice(), text.as_slice());
    assert_eq!(decode(&compressed, 0), Ok(text.to_vec()));
    assert_eq!(decode(&compressed, text.len()), Ok(text.to_vec()));
    assert_eq!(decode(&compressed, usize::MAX), Ok(text.to_vec()));
    assert_eq!(decode(&zlib(&[]), 10), Ok(vec![]));
}

#[test]
fn decompression_errors() {
    assert!(decode(b"no stream at all", 16).is_err());
    let compressed = zlib(&[7; 1000]);
    assert!(decode(&compressed[..compressed.len() / 2], 1000).is_err());
}

#[test]
fn no_filter_leaves_the_bytes() {
    let mut data = vec![0, 1, 2, 3];
    NoFilter.apply(&mut data, 1, 0, &png_with(3, 1));
    assert_eq!(data, vec![0, 1, 2, 3]);
}

#[test]
fn sub_filter_adds_the_left_neighbour() {
    let mut data = vec![1, 10, 20, 30, 5, 10, 15];
    Sub.apply(&mut data, 1, 0, &png_with(6, 3));
    assert_eq!(data, vec![1, 10, 20, 30, 15, 30, 45]);
    let mut wrapping = vec![1, 200, 100, 100];
    Sub.apply(&mut wrapping, 1, 0, &png_with(3, 1));
    assert_eq!(wrapping, vec![1, 200, 44, 144]);
}

#[test]
fn up_filter_adds_the_upper_neighbour() {
    let mut data = vec![0, 100, 250, 2, 50, 10];
    Up.apply(&mut data, 4, 1, &png_with(2, 1));
    assert_eq!(data, vec![0, 100, 250, 2, 150, 4]);
    let mut first = vec![2, 50, 10];
    Up.apply(&mut first, 1, 0, &png_with(2, 1));
    assert_eq!(first, vec![2, 50, 10]);
}

#[test]
fn average_filter_halves_the_sum() {
    let mut data = vec![0, 255, 255, 3, 1, 1];
    Average.apply(&mut data, 4, 1, &png_with(2, 1));
    // (0 + 255) / 2 = 127 and (128 + 255) / 2 = 191, the sum taken in full
    assert_eq!(data, vec![0, 255, 255, 3, 128, 192]);
    let mut first = vec![3, 10, 10];
    Average.apply(&mut first, 1, 0, &png_with(2, 1));
    assert_eq!(first, vec![3, 10, 15]);
}

#[test]
fn paeth_picks_the_nearest_neighbour() {
    assert_eq!(paeth_of(10, 20, 15), 15);
    assert_eq!(paeth_of(0, 0, 0), 0);
    assert_eq!(paeth_of(50, 60, 10), 60);
    assert_eq!(paeth_of(60, 50, 10), 60);
    assert_eq!(paeth_of(255, 0, 0), 255);
    assert_eq!(paeth_of(0, 255, 255), 0);
    // left and upper left are equally near: left goes first
    assert_eq!(paeth_of(6, 12, 10), 6);
    // upper and upper left are equally near: upper goes first
    assert_eq!(paeth_of(12, 6, 10), 6);
}

#[test]
fn paeth_is_symmetric_in_left_and_upper() {
    for a in (0..=255u8).step_by(5) {
        for b in (0..=255u8).step_by(7) {
            for c in (0..=255u8).step_by(11) {
                assert_eq!(paeth_of(a, b, c), paeth_of(b, a, c));
            }
        }
    }
}

#[test]
fn reversal_undoes_every_filter() {
    let prior = [9u8, 200, 31, 77, 0, 255, 128, 64];
    let raw = [250u8, 3, 99, 100, 101, 0, 255, 17];
    for bpp in [1usize, 2, 3, 4, 8] {
        for filter_type in 0..=4u8 {
            let mut data = vec![0];
            data.extend_from_slice(&prior);
            data.push(filter_type);
            data.extend_from_slice(&forward(filter_type, &raw, &prior, bpp));
            let png = png_with(8, bpp);
            match filter_type {
                0 => NoFilter.apply(&mut data, 10, 1, &png),
                1 => Sub.apply(&mut data, 10, 1, &png),
                2 => Up.apply(&mut data, 10, 1, &png),
                3 => Average.apply(&mut data, 10, 1, &png),
                _ => Paeth.apply(&mut data, 10, 1, &png),
            }
            assert_eq!(&data[10..], &raw);
            assert_eq!(&data[1..9], &prior);
        }
    }
}

#[test]
fn reversal_undoes_filters_on_a_first_row() {
    let raw = [1u8, 255, 2, 254, 3, 253];
    let zeros = [0u8; 6];
    let png = png_with(6, 2);
    let mut sub = vec![1];
    sub.extend_from_slice(&forward(1, &raw, &zeros, 2));
    Sub.apply(&mut sub, 1, 0, &png);
    assert_eq!(&sub[1..], &raw);
    let mut average = vec![3];
    average.extend_from_slice(&forward(3, &raw, &zeros, 2));
    Average.apply(&mut average, 1, 0, &png);
    assert_eq!(&average[1..], &raw);
    let mut paeth = vec![4];
    paeth.extend_from_slice(&forward(4, &raw, &zeros, 2));
    Paeth.apply(&mut paeth, 1, 0, &png);
    assert_eq!(&paeth[1..], &raw);
}

#[test]
fn decoder_steps() {
    assert_eq!(OneBitIndexedColorDecoder.step(), 1);
    assert_eq!(TwoBitIndexedColorDecoder.step(), 1);
    assert_eq!(FourBitIndexedColorDecoder.step(), 1);
    assert_eq!(EightBitIndexedColorDecoder.step(), 1);
    assert_eq!(OneBitGreyscaleDecoder.step(), 1);
    assert_eq!(TwoBitGreyscaleDecoder.step(), 1);
    assert_eq!(FourBitGreyscaleDecoder.step(), 1);
    assert_eq!(EightBitGreyscaleDecoder.step(), 1);
    assert_eq!(SixteenBitGreyscaleDecoder.step(), 2);
    assert_eq!(EightBitGreyscaleWithAlphaDecoder.step(), 2);
    assert_eq!(EightBitTrueColorDecoder.step(), 3);
    assert_eq!(SixteenBitTrueColorDecoder.step(), 6);
    assert_eq!(EightBitTrueColorWithAlphaDecoder.step(), 4);
    assert_eq!(SixteenBitTrueColorWithAlphaDecoder.step(), 8);
}

#[test]
fn greyscale_decoders() {
    let png = PngFile::new(0, 0);
    let grey = |v: u8| Color::new(v, v, v, 255);
    let data = [0u8, 0b1001_0110, 0x4E, 0xFF];
    let levels = |pixels: Vec<Color>| -> Vec<u8> {
        for p in &pixels {
            assert_eq!(*p, grey(p.r));
        }
        pixels.iter().map(|p| p.r).collect()
    };
    assert_eq!(
        levels(OneBitGreyscaleDecoder.decode(&data, 1, data[1], &png)),
        vec![255, 0, 0, 255, 0, 255, 255, 0]
    );
    assert_eq!(
        levels(TwoBitGreyscaleDecoder.decode(&data, 1, data[1], &png)),
        vec![170, 85, 85, 170]
    );
    assert_eq!(levels(FourBitGreyscaleDecoder.decode(&data, 1, data[1], &png)), vec![153, 102]);
    assert_eq!(levels(EightBitGreyscaleDecoder.decode(&data, 2, data[2], &png)), vec![0x4E]);
    // 0x4EFF = 20223, and 20223 / 257 = 78.69
    assert_eq!(levels(SixteenBitGreyscaleDecoder.decode(&data, 2, data[2], &png)), vec![79]);
    assert_eq!(
        EightBitGreyscaleWithAlphaDecoder.decode(&data, 2, data[2], &png),
        vec![Color::new(0x4E, 0x4E, 0x4E, 0xFF)]
    );
}

#[test]
fn truecolor_decoders() {
    let png = PngFile::new(0, 0);
    let data = [9u8, 1, 2, 3, 4, 0xFF, 0xFF, 0x80, 0x00, 0x01, 0x00];
    assert_eq!(EightBitTrueColorDecoder.decode(&data, 1, 1, &png), vec![Color::new(1, 2, 3, 255)]);
    assert_eq!(
        EightBitTrueColorWithAlphaDecoder.decode(&data, 1, 1, &png),
        vec![Color::new(1, 2, 3, 4)]
    );
    // 0x0304 = 772 gives 3, 0xFFFF gives 255, 0x8000 gives 128, 0x0100 = 256 gives 1
    assert_eq!(
        SixteenBitTrueColorDecoder.decode(&data, 3, 3, &png),
        vec![Color::new(3, 255, 128, 255)]
    );
    assert_eq!(
        SixteenBitTrueColorWithAlphaDecoder.decode(&data, 3, 3, &png),
        vec![Color::new(3, 255, 128, 1)]
    );
}

#[test]
fn indexed_decoders_stop_at_a_missing_entry() {
    let mut png = PngFile::new(0, 0);
    let entry = |v: u8| Color::new(v, v + 1, v + 2, 255);
    png.palette = vec![entry(0), entry(10), entry(20)];
    let data = [0b0110_0011u8];
    assert_eq!(
        OneBitIndexedColorDecoder.decode(&data, 0, data[0], &png),
        vec![entry(0), entry(10), entry(10), entry(0), entry(0), entry(0), entry(10), entry(10)]
    );
    // the fields are 1, 2, 0, 3, and the palette has no entry 3
    assert_eq!(
        TwoBitIndexedColorDecoder.decode(&data, 0, data[0], &png),
        vec![entry(10), entry(20), entry(0)]
    );
    // the fields are 6 and 3
    assert_eq!(FourBitIndexedColorDecoder.decode(&data, 0, data[0], &png), vec![]);
    assert_eq!(EightBitIndexedColorDecoder.decode(&data, 0, data[0], &png), vec![]);
    let low = [0x21u8, 2];
    assert_eq!(
        FourBitIndexedColorDecoder.decode(&low, 0, low[0], &png),
        vec![entry(20), entry(10)]
    );
    assert_eq!(EightBitIndexedColorDecoder.decode(&low, 1, low[1], &png), vec![entry(20)]);
}

#[test]
fn new_image_is_blank() {
    let png = PngFile::new(3, 4);
    assert_eq!((png.w, png.h), (3, 4));
    assert_eq!(png.bit_depth, 0);
    assert_eq!((png.bits_per_pixel, png.bytes_per_pixel, png.pitch), (0, 0, 0));
    assert_eq!(png.color_type, ColorType::Unknown);
    assert_eq!((png.compression_method, png.filter_method, png.interlace_method), (0, 0, 0));
    assert!(png.image_data_chunks.is_empty());
    assert!(png.pixels.is_empty());
    assert!(png.palette.is_empty());
    assert_eq!(png.significant_bits, [0, 0, 0, 0]);
    assert_eq!(png.idx, 0);
    let default = PngFile::default();
    assert_eq!((default.w, default.h), (0, 0));
}

#[test]
fn reads_the_chunks() {
    let mut data = Vec::new();
    data.extend_from_slice(&[0, 0, 0, 13]);
    data.extend_from_slice(b"IHDR");
    data.extend_from_slice(&[0, 0, 0, 5, 0, 0, 0, 2, 2, 3, 0, 0, 0]);
    data.extend_from_slice(&[1, 1, 1, 1]);
    data.extend_from_slice(&[0, 0, 0, 6]);
    data.extend_from_slice(b"PLTE");
    data.extend_from_slice(&[1, 2, 3, 4, 5, 6]);
    data.extend_from_slice(&[1, 1, 1, 1]);
    data.extend_from_slice(&[0, 0, 0, 3]);
    data.extend_from_slice(b"sBIT");
    data.extend_from_slice(&[2, 3, 4]);
    data.extend_from_slice(&[1, 1, 1, 1]);
    data.extend_from_slice(&[0, 0, 0, 2]);
    data.extend_from_slice(b"IDAT");
    data.extend_from_slice(&[70, 71]);
    data.extend_from_slice(&[1, 1, 1, 1]);
    data.extend_from_slice(&[0, 0, 0, 1]);
    data.extend_from_slice(b"IDAT");
    data.extend_from_slice(&[72]);
    data.extend_from_slice(&[1, 1, 1, 1]);
    let end = data.len();
    data.extend_from_slice(&[0, 0, 0, 0]);
    data.extend_from_slice(b"IEND");

    let mut png = PngFile::default();
    assert_eq!(png.read_chunks(&data), Ok(()));
    assert_eq!((png.w, png.h), (5, 2));
    assert_eq!(png.bit_depth, 2);
    assert_eq!(png.color_type, ColorType::IndexedColor);
    assert_eq!((png.bits_per_pixel, png.bytes_per_pixel), (2, 1));
    assert_eq!(png.palette, vec![Color::new(1, 2, 3, 255), Color::new(4, 5, 6, 255)]);
    assert_eq!(png.significant_bits, [2, 3, 4, 0]);
    assert_eq!(png.image_data_chunks, vec![vec![70, 71], vec![72]]);
    assert_eq!(png.idx, end);
    assert!(png.pixels.is_empty());
}

#[test]
fn significant_bits_by_color_type() {
    let read = |color_type: u8, depth: u8, sbit: &[u8]| -> [u8; 4] {
        let mut data = Vec::new();
        data.extend_from_slice(&[0, 0, 0, 13]);
        data.extend_from_slice(b"IHDR");
        data.extend_from_slice(&[0, 0, 0, 1, 0, 0, 0, 1, depth, color_type, 0, 0, 0]);
        data.extend_from_slice(&[0, 0, 0, 0]);
        data.extend_from_slice(&(sbit.len() as u32).to_be_bytes());
        data.extend_from_slice(b"sBIT");
        data.extend_from_slice(sbit);
        data.extend_from_slice(&[0, 0, 0, 0]);
        data.extend_from_slice(&[0, 0, 0, 0]);
        data.extend_from_slice(b"IEND");
        let mut png = PngFile::default();
        assert_eq!(png.read_chunks(&data), Ok(()));
        png.significant_bits
    };
    assert_eq!(read(0, 8, &[5, 6, 7, 8]), [5, 0, 0, 0]);
    assert_eq!(read(2, 8, &[5, 6, 7, 8]), [5, 6, 7, 0]);
    assert_eq!(read(3, 8, &[5, 6, 7, 8]), [5, 6, 7, 0]);
    assert_eq!(read(4, 8, &[5, 6, 7, 8]), [5, 6, 0, 0]);
    assert_eq!(read(6, 8, &[5, 6, 7, 8]), [5, 6, 7, 8]);
    // too short a payload is passed over
    assert_eq!(read(6, 8, &[5, 6, 7]), [0, 0, 0, 0]);
    assert_eq!(read(0, 8, &[]), [0, 0, 0, 0]);
}

#[test]
fn filters_over_a_buffer() {
    let mut png = png_of(2, 3, ColorType::Greyscale, 8);
    png.pitch = 2;
    let mut data = vec![1, 10, 5, 2, 1, 1, 3, 4, 6, 99];
    assert_eq!(png.apply_filters(&mut data, 3), Ok(()));
    // Sub: 10, 15; Up: 11, 16; Average: 4 + 5 = 9, 6 + (9 + 16) / 2 = 18
    assert_eq!(data, vec![1, 10, 15, 2, 11, 16, 3, 9, 18, 99]);
    let mut unknown = vec![0, 1, 2, 7, 1, 2, 0, 1, 2];
    assert_eq!(png.apply_filters(&mut unknown, 3), Err("Unknown filter type".to_string()));
}

#[test]
fn builds_pixels_from_scanlines() {
    let mut png = png_of(3, 2, ColorType::Greyscale, 4);
    png.pitch = 2;
    let data = [0, 0x12, 0x3F, 0, 0x45, 0x6F];
    let pixels = png.build_pixels(&data, 3).unwrap();
    let levels: Vec<u8> = pixels.iter().map(|p| p.r).collect();
    assert_eq!(levels, vec![17, 34, 51, 68, 85, 102]);
    let unknown = PngFile::new(0, 0);
    assert_eq!(
        unknown.build_pixels(&[], 1),
        Err("Unsupported color type and bit depth combination".to_string())
    );
}

#[test]
fn decodes_scanlines() {
    let mut png = png_of(2, 2, ColorType::Truecolor, 8);
    let scanlines = vec![1, 10, 20, 30, 5, 10, 15, 2, 1, 1, 1, 1, 1, 1];
    assert_eq!(png.decode_scanlines(scanlines), Ok(()));
    assert_eq!(png.pitch, 6);
    assert_eq!(
        png.pixels,
        vec![
            Color::new(10, 20, 30, 255),
            Color::new(15, 30, 45, 255),
            Color::new(11, 21, 31, 255),
            Color::new(16, 31, 46, 255),
        ]
    );
    let mut short = png_of(2, 2, ColorType::Truecolor, 8);
    assert_eq!(
        short.decode_scanlines(vec![0; 13]),
        Err("Image data has the wrong length".to_string())
    );
    let mut blank = PngFile::new(0, 3);
    assert_eq!(
        blank.decode_scanlines(vec![0, 0, 0]),
        Err("Unsupported color type and bit depth combination".to_string())
    );
    assert_eq!(blank.decode_scanlines(vec![0, 9, 0]), Err("Unknown filter type".to_string()));
}

#[test]
fn decodes_collected_image_data() {
    let mut png = png_of(1, 2, ColorType::GreyscaleWithAlpha, 8);
    let compressed = zlib(&[0, 1, 2, 1, 3, 4]);
    let (front, back) = compressed.split_at(compressed.len() / 2);
    png.image_data_chunks = vec![front.to_vec(), back.to_vec()];
    assert_eq!(png.decode_pixel_data(), Ok(()));
    assert!(png.image_data_chunks.is_empty());
    assert_eq!(png.pixels, vec![Color::new(1, 1, 1, 2), Color::new(3, 3, 3, 4)]);
    let mut corrupt = png_of(1, 1, ColorType::Greyscale, 8);
    corrupt.image_data_chunks = vec![vec![1, 2, 3]];
    assert!(corrupt.decode_pixel_data().is_err());
}

#[test]
fn scanlines_too_long_to_address() {
    let mut png = png_of(usize::MAX, 0, ColorType::TrueColorWithAlpha, 16);
    assert_eq!(png.decode_scanlines(vec![]), Err("Image too large".to_string()));
    assert!(png.pixels.is_empty());
}

#[test]
fn errors_from_their_causes() {
    let cause = std::io::Error::new(std::io::ErrorKind::NotFound, "no such file");
    match PngError::from(cause) {
        PngError::Io(err) => assert_eq!(err.kind(), std::io::ErrorKind::NotFound),
        other => panic!("expected an I/O error, found {:?}", other),
    }
    match PngError::from("Invalid palette length".to_string()) {
        PngError::InvalidFormat(message) => assert_eq!(message, "Invalid palette length"),
        other => panic!("expected a format error, found {:?}", other),
    }
}

#[test]
fn failed_walk_stops_at_the_chunk_at_fault() {
    let mut data = Vec::new();
    data.extend_from_slice(&[0, 0, 0, 13]);
    data.extend_from_slice(b"IHDR");
    data.extend_from_slice(&[0, 0, 0, 1, 0, 0, 0, 1, 8, 3, 0, 0, 0]);
    data.extend_from_slice(&[0, 0, 0, 0]);
    data.extend_from_slice(&[0, 0, 0, 1]);
    data.extend_from_slice(b"IDAT");
    data.extend_from_slice(&[42]);
    data.extend_from_slice(&[0, 0, 0, 0]);
    let at_fault = data.len();
    data.extend_from_slice(&[0, 0, 0, 2]);
    data.extend_from_slice(b"PLTE");
    data.extend_from_slice(&[1, 2]);
    data.extend_from_slice(&[0, 0, 0, 0]);
    data.extend_from_slice(&[0, 0, 0, 0]);
    data.extend_from_slice(b"IEND");

    let mut png = PngFile::default();
    assert_eq!(png.read_chunks(&data), Err("Invalid palette length".to_string()));
    assert_eq!(png.idx, at_fault);
    assert_eq!((png.w, png.h), (1, 1));
    assert_eq!(png.image_data_chunks, vec![vec![42]]);
    assert!(png.palette.is_empty());

    let mut untouched = PngFile::new(7, 7);
    assert_eq!(untouched.read_chunks(b"\0\0\0\0IDAT"), Err("IHDR chunk missing".to_string()));
    assert_eq!((untouched.w, untouched.h, untouched.idx), (7, 7, 0));
}

#[test]
fn failed_filter_pass_keeps_the_rows_done() {
    let mut png = png_of(2, 3, ColorType::Greyscale, 8);
    png.pitch = 2;
    let mut data = vec![1, 10, 5, 9, 1, 1, 1, 2, 3];
    assert_eq!(png.apply_filters(&mut data, 3), Err("Unknown filter type".to_string()));
    assert_eq!(data, vec![1, 10, 15, 9, 1, 1, 1, 2, 3]);
}

#[test]
fn failed_decode_leaves_the_pixels() {
    let mut png = png_of(1, 1, ColorType::IndexedColor, 8);
    png.pixels = vec![Color::new(1, 1, 1, 1)];
    assert_eq!(png.decode_scanlines(vec![0, 0]), Err("Palette index out of range".to_string()));
    assert_eq!(png.pixels, vec![Color::new(1, 1, 1, 1)]);
    assert_eq!(png.pitch, 1);
    assert_eq!(png.decode_scanlines(vec![0]), Err("Image data has the wrong length".to_string()));
}
