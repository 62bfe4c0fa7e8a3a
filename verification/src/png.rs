use crate::arith::{lemma_known_factor, lemma_mul_le, lemma_row_of, lemma_rows};
use crate::chunk_type::PngChunkType;
use crate::color::Color;
use crate::color_type::ColorType;
use crate::decoders::{
    format_pixel, has_decoder, image_pixel, lemma_raster_pixel, raster_pixel, row_pixel,
    EightBitGreyscaleDecoder, EightBitGreyscaleWithAlphaDecoder, EightBitIndexedColorDecoder,
    EightBitTrueColorDecoder, EightBitTrueColorWithAlphaDecoder, FourBitGreyscaleDecoder,
    FourBitIndexedColorDecoder, OneBitGreyscaleDecoder, OneBitIndexedColorDecoder, PixelDecoder,
    SixteenBitGreyscaleDecoder, SixteenBitTrueColorDecoder, SixteenBitTrueColorWithAlphaDecoder,
    TwoBitGreyscaleDecoder, TwoBitIndexedColorDecoder,
};
use crate::deflate::{decode, zlib_inflated};
use crate::error::PngError;
use crate::filters::{
    filter_type_of, filters_known, is_unfiltered, prior_row, row_unfiltered, scanline,
    unfiltered_scanline, Average, Filter, NoFilter, Paeth, Sub, Up,
};
use crate::helpers::read_unsigned_int;
use crate::ihdr::parse;
use crate::state::{
    chunk_kind, chunks_read, concatenated, has_signature, header_read, lemma_decoded_pixels_fit,
    msg_filter_type, msg_no_decoder, msg_palette_index, palette_of, pitch_for,
    pixel_data_decoded, scanlines_decoded, walked, PngState,
};
use vstd::prelude::*;
use vstd::slice::slice_to_vec;

verus! {

/// An image as it is being decoded, and the decoded image at the end.
pub struct PngFile {
    pub w: usize,
    pub h: usize,
    pub bit_depth: usize,
    pub bits_per_pixel: usize,
    pub bytes_per_pixel: usize,
    pub color_type: ColorType,
    pub compression_method: u8,
    pub filter_method: u8,
    pub interlace_method: u8,
    pub image_data_chunks: Vec<Vec<u8>>,
    pub pitch: usize,
    pub pixels: Vec<Color>,
    pub palette: Vec<Color>,
    // sBIT
    pub significant_bits: [u8; 4],
    pub idx: usize,
}

/// The bytes of each of the chunks collected.
pub open spec fn payloads(chunks: Seq<Vec<u8>>) -> Seq<Seq<u8>> {
    Seq::new(chunks.len(), |i: int| chunks[i]@)
}

impl View for PngFile {
    type V = PngState;

    open spec fn view(&self) -> PngState {
        PngState {
            w: self.w as int,
            h: self.h as int,
            bit_depth: self.bit_depth as int,
            bits_per_pixel: self.bits_per_pixel as int,
            bytes_per_pixel: self.bytes_per_pixel as int,
            color_type: self.color_type,
            compression_method: self.compression_method,
            filter_method: self.filter_method,
            interlace_method: self.interlace_method,
            image_data_chunks: payloads(self.image_data_chunks@),
            pitch: self.pitch as int,
            pixels: self.pixels@,
            palette: self.palette@,
            significant_bits: self.significant_bits@,
            idx: self.idx as int,
        }
    }
}

pub type PngLoadResult = Result<PngFile, PngError>;

pub type PngParseResult = Result<(), String>;

/// That `res` is what loading the bytes of a file comes to: the error of a
/// wrong signature, the error of the first rule of the format that is
/// broken, or the decoded image.
pub open spec fn is_load_of(file: Seq<u8>, res: Result<PngFile, PngError>) -> bool {
    if !has_signature(file) {
        res matches Err(PngError::InvalidHeader)
    } else {
        match chunks_read(file.subrange(8, file.len() as int), PngState::blank(0, 0)) {
            Err(failure) => res matches Err(error) && error.is_format_error(failure.message),
            Ok(st) => match pixel_data_decoded(st) {
                None => res matches Err(PngError::InvalidFormat(_)),
                Some(Err(failure)) => res matches Err(error) && error.is_format_error(
                    failure.message,
                ),
                Some(Ok(done)) => res matches Ok(png) && png@ == done,
            },
        }
    }
}

/// That `res` is what reading the pixels of an image out of a buffer of
/// unfiltered scanlines comes to: an error where there is no decoder for the
/// image or a sample of it points outside the palette, else the pixels, row
/// by row.
pub open spec fn pixels_built(
    st: PngState,
    data: Seq<u8>,
    res: Result<Vec<Color>, String>,
) -> bool {
    if !has_decoder(st.color_type, st.bit_depth) {
        res matches Err(text) && text@ == msg_no_decoder()
    } else {
        match res {
            Ok(out) => out@.len() == st.w * st.h && forall|n: int|
                0 <= n < out@.len() ==> image_pixel(
                    st.color_type,
                    st.bit_depth,
                    data,
                    st.pitch,
                    st.palette,
                    st.w,
                    n,
                ) == Some(#[trigger] out@[n]),
            Err(text) => text@ == msg_palette_index() && exists|n: int|
                0 <= n < st.w * st.h && (#[trigger] image_pixel(
                    st.color_type,
                    st.bit_depth,
                    data,
                    st.pitch,
                    st.palette,
                    st.w,
                    n,
                )) is None,
        }
    }
}

/// Decoding is a function of the bytes: two loads of the same file that both
/// succeed hold the same image, and if one succeeds so does the other.
pub proof fn lemma_load_deterministic(
    file: Seq<u8>,
    first: Result<PngFile, PngError>,
    second: Result<PngFile, PngError>,
)
    requires
        is_load_of(file, first),
        is_load_of(file, second),
    ensures
        first is Ok <==> second is Ok,
        first is Ok ==> first->Ok_0@ == second->Ok_0@,
        first matches Err(PngError::InvalidHeader) <==> second matches Err(
            PngError::InvalidHeader,
        ),
{
}

/// The pitch for each number of bits that a pixel may take.
proof fn lemma_pitches(bits: int, w: int)
    ensures
        bits == 1 ==> pitch_for(bits, w) == (w + 7) / 8,
        bits == 2 ==> pitch_for(bits, w) == (2 * w + 7) / 8,
        bits == 4 ==> pitch_for(bits, w) == (4 * w + 7) / 8,
        bits == 8 ==> pitch_for(bits, w) == w,
        bits == 16 ==> pitch_for(bits, w) == 2 * w,
        bits == 24 ==> pitch_for(bits, w) == 3 * w,
        bits == 32 ==> pitch_for(bits, w) == 4 * w,
        bits == 48 ==> pitch_for(bits, w) == 6 * w,
        bits == 64 ==> pitch_for(bits, w) == 8 * w,
{
    if bits == 1 {
        lemma_known_factor(bits, w, 1);
    } else if bits == 2 {
        lemma_known_factor(bits, w, 2);
    } else if bits == 4 {
        lemma_known_factor(bits, w, 4);
    } else if bits == 8 {
        lemma_known_factor(bits, w, 8);
    } else if bits == 16 {
        lemma_known_factor(bits, w, 16);
    } else if bits == 24 {
        lemma_known_factor(bits, w, 24);
    } else if bits == 32 {
        lemma_known_factor(bits, w, 32);
    } else if bits == 48 {
        lemma_known_factor(bits, w, 48);
    } else if bits == 64 {
        lemma_known_factor(bits, w, 64);
    }
}

impl PngFile {
    /// Whether the derived fields fit the header, and the palette is opaque.
    pub open spec fn wf(&self) -> bool {
        self@.wf()
    }

    pub fn new(width: usize, height: usize) -> (png: Self)
        ensures
            png@ == PngState::blank(width as int, height as int),
    {
        let png = PngFile {
            w: width,
            h: height,
            bit_depth: 0,
            bits_per_pixel: 0,
            bytes_per_pixel: 0,
            color_type: ColorType::Unknown,
            compression_method: 0,
            filter_method: 0,
            interlace_method: 0,
            image_data_chunks: Vec::new(),
            pitch: 0,
            pixels: Vec::new(),
            palette: Vec::new(),
            significant_bits: [0, 0, 0, 0],
            idx: 0,
        };
        assert(png@.image_data_chunks =~= Seq::empty());
        assert(png@.significant_bits =~= seq![0u8, 0u8, 0u8, 0u8]);
        png
    }

    pub fn default() -> (png: Self)
        ensures
            png@ == PngState::blank(0, 0),
    {
        Self::new(0, 0)
    }

    #[inline(always)]
    fn advance(&mut self, distance: usize)
        requires
            old(self).idx + distance <= usize::MAX,
        ensures
            final(self)@ == old(self)@.advanced(distance as int),
    {
        self.idx += distance;
    }

    /// Reads the chunks of an image from the cursor on, the header chunk
    /// first, up to the end chunk: the header is taken over, image data and
    /// palette are collected, and chunks of other kinds are passed over.
    pub fn read_chunks(&mut self, data: &[u8]) -> (res: PngParseResult)
        ensures
            match chunks_read(data@, old(self)@) {
                Ok(st) => res is Ok && final(self)@ == st,
                Err(failure) => res matches Err(text) && text@ == failure.message && final(self)@
                    == failure.state,
            },
            old(self).wf() && res is Ok ==> final(self).wf(),
    {
        // The ImageHeader (IHDR) chunk should be first
        if self.idx > data.len() || data.len() - self.idx < 8 {
            return Err("IHDR chunk missing".to_string());
        }
        match PngChunkType::from_code(&data[self.idx + 4..self.idx + 8]) {
            Some(PngChunkType::ImageHeader) => {},
            _ => {
                return Err("IHDR chunk missing".to_string());
            },
        }
        // Parse the IHDR chunk
        if let Err(message) = self.parse_ihdr(data) {
            return Err(message);
        }
        self.calculate_bpp();

        assert(data.len() == data@.len());
        // We found an IHDR chunk... now lets just loop over every chunk we find and
        // work with it
        loop
            invariant
                self.idx + 8 <= data@.len(),
                data@.len() <= usize::MAX,
                walked(data@, self@) == chunks_read(data@, old(self)@),
                old(self).wf() ==> self.wf(),
            decreases data@.len() - self.idx,
        {
            // Read the chunk length, type and its data
            let chunk_length = read_unsigned_int(&data[self.idx..self.idx + 4]) as usize;
            if data.len() - self.idx - 8 < chunk_length {
                return Err("Chunk length exceeds the data".to_string());
            }
            let chunk_type = PngChunkType::from_code(&data[self.idx + 4..self.idx + 8]);
            let chunk_data = &data[self.idx + 8..self.idx + 8 + chunk_length];

            match chunk_type {
                Some(PngChunkType::End) => {
                    return Ok(());
                },
                Some(PngChunkType::ImageHeader) => {
                    return Err("IHDR chunk is not first".to_string());
                },
                Some(PngChunkType::Palette) => {
                    if chunk_length % 3 != 0 {
                        return Err("Invalid palette length".to_string());
                    }
                },
                _ => (),
            }
            // The chunk length, type, data and CRC, and the head of the next chunk
            if data.len() - self.idx - 8 - chunk_length < 12 {
                return Err("Data ends before the IEND chunk".to_string());
            }
            let ghost before = self@;
            match chunk_type {
                Some(PngChunkType::ImageData) => {
                    self.image_data_chunks.push(slice_to_vec(chunk_data));
                    assert(self@.image_data_chunks =~= before.image_data_chunks.push(chunk_data@));
                },
                Some(PngChunkType::Palette) => self.build_palette(chunk_data),
                Some(PngChunkType::SignificantBits) => self.parse_sbit(chunk_data),
                _ => (),
            }
            assert(self@ == before.absorbed(chunk_type, chunk_data@));

            self.advance(chunk_length + 0x0C);
        }
    }

    /// Takes over the header chunk at the cursor and moves behind it.
    fn parse_ihdr(&mut self, data: &[u8]) -> (res: PngParseResult)
        requires
            old(self).idx + 8 <= data@.len(),
            chunk_kind(data@, old(self).idx as int) == Some(PngChunkType::ImageHeader),
        ensures
            match header_read(data@, old(self)@) {
                Ok(st) => res is Ok && final(self)@.with_bpp() == st,
                Err(failure) => res matches Err(text) && text@ == failure.message && final(self)@
                    == failure.state,
            },
            res is Ok ==> final(self)@.header_fits() && final(self).idx + 8 <= data@.len(),
            res is Ok ==> final(self).palette@ == old(self).palette@,
    {
        assert(data.len() == data@.len());
        let chunk_length = read_unsigned_int(&data[self.idx..self.idx + 4]) as usize;
        if data.len() - self.idx - 8 < chunk_length {
            return Err("Chunk length exceeds the data".to_string());
        }
        match parse(&data[self.idx + 8..self.idx + 8 + chunk_length]) {
            Err(error) => return Err(error),
            Ok(ihdr) => {
                if data.len() - self.idx - 8 - chunk_length < 12 {
                    return Err("Data ends before the IEND chunk".to_string());
                }
                self.w = ihdr.width;
                self.h = ihdr.height;
                self.bit_depth = ihdr.bit_depth as usize;
                self.color_type = ihdr.color_type;
                self.compression_method = ihdr.compression_method;
                self.filter_method = ihdr.filter_method;
                self.interlace_method = ihdr.interlace_method;
            },
        };

        self.advance(chunk_length + 0x0C);  // The chunk length, type, data and CRC

        Ok(())
    }

    /// Decides how many bits and bytes per pixel there are for this
    /// image based on the ColorType
    fn calculate_bpp(&mut self)
        requires
            old(self)@.header_fits(),
        ensures
            final(self)@ == old(self)@.with_bpp(),
    {
        match self.color_type {
            ColorType::Unknown => {
                self.bits_per_pixel = 0;
            },
            ColorType::Greyscale => {
                self.bits_per_pixel = self.bit_depth;
            },
            ColorType::Truecolor => {
                if self.bit_depth == 16 {
                    self.bits_per_pixel = 48;
                } else {
                    self.bits_per_pixel = 24;
                }
            },
            ColorType::IndexedColor => {
                self.bits_per_pixel = self.bit_depth;
            },
            ColorType::GreyscaleWithAlpha => {
                if self.bit_depth == 16 {
                    self.bits_per_pixel = 32;
                } else {
                    self.bits_per_pixel = 16;
                }
            },
            ColorType::TrueColorWithAlpha => {
                if self.bit_depth == 16 {
                    self.bits_per_pixel = 64;
                } else {
                    self.bits_per_pixel = 32;
                }
            },
        }

        self.bytes_per_pixel = (self.bits_per_pixel + 7) / 8;
    }

    /// Parses a byte slice as a PNG file.
    pub fn from_data(file_data: &[u8]) -> (res: PngLoadResult)
        ensures
            is_load_of(file_data@, res),
            res matches Ok(png) ==> png.wf() && png.pixels@.len() == png.w * png.h,
            res matches Ok(png) ==> (png.color_type == ColorType::Greyscale || png.color_type
                == ColorType::GreyscaleWithAlpha) ==> forall|i: int|
                0 <= i < png.pixels@.len() ==> (#[trigger] png.pixels@[i]).is_grey(),
            res matches Ok(png) ==> !png.color_type.has_alpha() ==> forall|i: int|
                0 <= i < png.pixels@.len() ==> (#[trigger] png.pixels@[i]).a == 255,
    {
        let mut png = Self::default();

        // Check that we have what looks like a
        // PNG file.
        if file_data.len() < 8 || file_data[0] != 0x89 || file_data[1] != 0x50 || file_data[2]
            != 0x4E || file_data[3] != 0x47 || file_data[4] != 0x0D || file_data[5] != 0x0A
            || file_data[6] != 0x1A || file_data[7] != 0x0A {
            Err(PngError::InvalidHeader)
        } else {
            if let Err(message) = png.read_chunks(&file_data[0x08..file_data.len()]) {
                return Err(PngError::from(message));
            }
            if let Err(message) = png.decode_pixel_data() {
                return Err(PngError::from(message));
            }
            Ok(png)
        }
    }

    /// Decodes concatenated IDAT chunks and converts the raw
    /// data into a Vector of Color objects
    pub fn decode_pixel_data(&mut self) -> (res: PngParseResult)
        requires
            old(self).wf(),
        ensures
            match pixel_data_decoded(old(self)@) {
                None => res is Err && final(self)@ == old(self)@.without_image_data(),
                Some(Err(failure)) => res matches Err(text) && text@ == failure.message
                    && final(self)@ == failure.state,
                Some(Ok(done)) => res is Ok && final(self)@ == done,
            },
            res is Ok ==> final(self).wf() && final(self)@.pixels_fit(),
    {
        match self.get_pixel_data() {
            Err(message) => Err(message),
            Ok(pixels) => self.decode_scanlines(pixels),
        }
    }

    /// Makes the pixels of the image out of its decompressed image data:
    /// checks the length of the data, reverses the filters of its scanlines
    /// and reads the pixels out of them.
    pub fn decode_scanlines(&mut self, raw: Vec<u8>) -> (res: PngParseResult)
        requires
            old(self).wf(),
        ensures
            match scanlines_decoded(old(self)@, raw@) {
                Err(failure) => res matches Err(text) && text@ == failure.message && final(self)@
                    == failure.state,
                Ok(done) => res is Ok && final(self)@ == done,
            },
            res is Ok ==> final(self).wf() && final(self)@.pixels_fit(),
    {
        let ghost st = self@;
        let bits = self.bits_per_pixel as u128;
        assert(bits <= 64);
        assert(bits * self.w <= 64 * self.w) by (nonlinear_arith)
            requires
                bits <= 64,
                0 <= self.w,
        ;
        let pitch: u128 = (bits * (self.w as u128) + 7) / 8;
        if pitch >= usize::MAX as u128 {
            return Err("Image too large".to_string());
        }
        let row_size: usize = pitch as usize + 1;
        assert(row_size * self.h <= 0xffff_ffff_ffff_ffff * 0xffff_ffff_ffff_ffff)
            by (nonlinear_arith)
            requires
                row_size <= 0xffff_ffff_ffff_ffff,
                self.h <= 0xffff_ffff_ffff_ffff,
        ;
        let expected: u128 = (row_size as u128) * (self.h as u128);
        if raw.len() as u128 != expected {
            return Err("Image data has the wrong length".to_string());
        }
        self.pitch = pitch as usize;
        assert(self.h * row_size == row_size * self.h) by (nonlinear_arith);

        let mut pixels = raw;
        if let Err(message) = self.apply_filters(pixels.as_mut_slice(), row_size) {
            return Err(message);
        }
        match self.build_pixels(pixels.as_slice(), row_size) {
            Err(message) => {
                proof {
                    if has_decoder(st.color_type, st.bit_depth) {
                        let n = choose|n: int|
                            0 <= n < st.w * st.h && (#[trigger] image_pixel(
                                st.color_type,
                                st.bit_depth,
                                pixels@,
                                pitch as int,
                                st.palette,
                                st.w,
                                n,
                            )) is None;
                        lemma_row_of(n, st.w, st.h);
                        assert(st.decoded_pixel(raw@, n) is None);
                    }
                }
                Err(message)
            },
            Ok(colors) => {
                proof {
                    assert forall|n: int| 0 <= n < st.w * st.h implies #[trigger] st.decoded_pixel(
                        raw@,
                        n,
                    ) == Some(colors@[n]) by {
                        lemma_row_of(n, st.w, st.h);
                        assert(image_pixel(
                            st.color_type,
                            st.bit_depth,
                            pixels@,
                            pitch as int,
                            st.palette,
                            st.w,
                            n,
                        ) == Some(colors@[n]));
                    }
                    assert(colors@ =~= Seq::new(
                        (st.w * st.h) as nat,
                        |n: int| st.decoded_pixel(raw@, n).unwrap(),
                    ));
                    lemma_decoded_pixels_fit(st, raw@);
                }
                self.pixels = colors;
                Ok(())
            },
        }
    }

    /// The number of bytes that the image data decompresses to if it is as
    /// the header says, for the decompressor to make room; 0 where that is
    /// more than can be addressed.
    fn predicted_size(&self) -> (prediction: usize)
        requires
            self.wf(),
        ensures
            prediction == (if self@.raw_size() <= usize::MAX {
                self@.raw_size()
            } else {
                0
            }),
    {
        let bits = self.bits_per_pixel as u128;
        assert(bits <= 64);
        assert(bits * self.w <= 64 * self.w) by (nonlinear_arith)
            requires
                bits <= 64,
                0 <= self.w,
        ;
        let row_size: u128 = (bits * (self.w as u128) + 7) / 8 + 1;
        if row_size > usize::MAX as u128 {
            assert(self.h == 0 || row_size * self.h >= row_size) by (nonlinear_arith)
                requires
                    0 <= row_size,
                    0 <= self.h,
            ;
            return 0;
        }
        assert(row_size * self.h <= 0xffff_ffff_ffff_ffff * 0xffff_ffff_ffff_ffff)
            by (nonlinear_arith)
            requires
                0 <= row_size <= 0xffff_ffff_ffff_ffff,
                self.h <= 0xffff_ffff_ffff_ffff,
        ;
        let prediction: u128 = row_size * (self.h as u128);
        if prediction <= usize::MAX as u128 {
            prediction as usize
        } else {
            0
        }
    }

    /// Joins the image data chunks collected, lets go of them, and
    /// decompresses what they hold.
    fn get_pixel_data(&mut self) -> (res: Result<Vec<u8>, String>)
        requires
            old(self).wf(),
        ensures
            final(self)@ == old(self)@.without_image_data(),
            match res {
                Ok(raw) => zlib_inflated(concatenated(old(self)@.image_data_chunks)) == Some(raw@),
                Err(_) => zlib_inflated(concatenated(old(self)@.image_data_chunks)) is None,
            },
    {
        let ghost chunks = self@.image_data_chunks;
        let mut compressed_data: Vec<u8> = Vec::new();
        let mut i: usize = 0;
        while i < self.image_data_chunks.len()
            invariant
                i <= self.image_data_chunks@.len(),
                self@ == old(self)@,
                chunks == self@.image_data_chunks,
                compressed_data@ == concatenated(chunks.take(i as int)),
            decreases self.image_data_chunks@.len() - i,
        {
            let mut chunk = slice_to_vec(self.image_data_chunks[i].as_slice());
            compressed_data.append(&mut chunk);
            assert(chunks.take(i + 1).drop_last() =~= chunks.take(i as int));
            i += 1;
        }
        assert(chunks.take(i as int) =~= chunks);
        let prediction = self.predicted_size();
        self.image_data_chunks = Vec::new();
        assert(self@.image_data_chunks =~= Seq::empty());
        decode(compressed_data.as_slice(), prediction)
    }

    /// Applies scanline filtering depending on the filter type
    /// that is specified at the start of each row.
    pub fn apply_filters(&self, pixels: &mut [u8], row_size: usize) -> (res: PngParseResult)
        requires
            row_size == self.pitch + 1,
            self.h * row_size <= old(pixels)@.len(),
            self.bytes_per_pixel >= 1 || self.pitch == 0,
        ensures
            final(pixels)@.len() == old(pixels)@.len(),
            filters_known(old(pixels)@, self.pitch as int, self.h as int) ==> res is Ok
                && is_unfiltered(
                old(pixels)@,
                final(pixels)@,
                self.pitch as int,
                self.bytes_per_pixel as int,
                self.h as int,
            ),
            !filters_known(old(pixels)@, self.pitch as int, self.h as int) ==> (res matches Err(
                text,
            ) && text@ == msg_filter_type()),
            res is Err ==> exists|y: int|
                #![trigger is_unfiltered(
                    old(pixels)@,
                    final(pixels)@,
                    self.pitch as int,
                    self.bytes_per_pixel as int,
                    y,
                )]
                0 <= y < self.h && filters_known(old(pixels)@, self.pitch as int, y)
                    && filter_type_of(old(pixels)@, self.pitch as int, y) > 4 && is_unfiltered(
                    old(pixels)@,
                    final(pixels)@,
                    self.pitch as int,
                    self.bytes_per_pixel as int,
                    y,
                ),
    {
        let ghost before = pixels@;
        let ghost pitch = self.pitch as int;
        let ghost bpp = self.bytes_per_pixel as int;
        let len = pixels.len();
        let mut row_start: usize = 0;
        let mut y: usize = 0;
        while y < self.h
            invariant
                y <= self.h,
                before == old(pixels)@,
                pitch == self.pitch,
                bpp == self.bytes_per_pixel,
                row_size == self.pitch + 1,
                row_start == y * row_size,
                self.h * row_size <= before.len(),
                pixels@.len() == before.len(),
                len == before.len(),
                self.bytes_per_pixel >= 1 || self.pitch == 0,
                forall|r: int| 0 <= r < y ==> #[trigger] filter_type_of(before, pitch, r) <= 4,
                forall|r: int|
                    0 <= r < y ==> #[trigger] scanline(pixels@, pitch, r) == unfiltered_scanline(
                        before,
                        pitch,
                        bpp,
                        r,
                    ),
                forall|r: int|
                    0 <= r < y ==> #[trigger] filter_type_of(pixels@, pitch, r) == filter_type_of(
                        before,
                        pitch,
                        r,
                    ),
                forall|k: int| row_start <= k < before.len() ==> #[trigger] pixels@[k] == before[k],
            decreases self.h - y,
        {
            proof {
                lemma_rows(y as int, self.h as int, row_size as int);
                if y > 0 {
                    lemma_rows(y - 1, y as int, row_size as int);
                }
            }
            let filter_type = pixels[row_start];
            let pixel_start = row_start + 1;
            let ghost prev = pixels@;
            assert(filter_type == filter_type_of(before, pitch, y as int));
            match filter_type {
                0 => NoFilter.apply(pixels, pixel_start, y, self),
                1 => Sub.apply(pixels, pixel_start, y, self),
                2 => Up.apply(pixels, pixel_start, y, self),
                3 => Average.apply(pixels, pixel_start, y, self),
                4 => Paeth.apply(pixels, pixel_start, y, self),
                _ => {
                    assert(is_unfiltered(before, pixels@, pitch, bpp, y as int));
                    return Err("Unknown filter type".to_string());
                },
            }
            proof {
                assert(row_unfiltered(
                    filter_type,
                    prev,
                    pixels@,
                    pixel_start as int,
                    pitch,
                    bpp,
                    y > 0,
                ));
                // the scanline as it was, and the one above it
                assert(prev.subrange(pixel_start as int, pixel_start + pitch) =~= scanline(
                    before,
                    pitch,
                    y as int,
                ));
                if y > 0 {
                    assert(prior_row(prev, pixel_start as int, pitch, true) =~= scanline(
                        prev,
                        pitch,
                        y - 1,
                    ));
                }
                assert(prior_row(prev, pixel_start as int, pitch, y > 0) == unfiltered_scanline(
                    before,
                    pitch,
                    bpp,
                    y - 1,
                ));
                assert forall|i: int| 0 <= i < pitch implies scanline(pixels@, pitch, y as int)[i]
                    == unfiltered_scanline(before, pitch, bpp, y as int)[i] by {
                    assert(scanline(pixels@, pitch, y as int)[i] == pixels@[pixel_start + i]);
                }
                assert(scanline(pixels@, pitch, y as int) =~= unfiltered_scanline(
                    before,
                    pitch,
                    bpp,
                    y as int,
                ));
                assert(pixels@[row_start as int] == prev[row_start as int]);
                assert(filter_type_of(pixels@, pitch, y as int) == filter_type_of(
                    before,
                    pitch,
                    y as int,
                ));
                assert forall|r: int| 0 <= r < y implies #[trigger] scanline(pixels@, pitch, r)
                    == unfiltered_scanline(before, pitch, bpp, r) by {
                    lemma_rows(r, y as int, row_size as int);
                    assert(scanline(pixels@, pitch, r) =~= scanline(prev, pitch, r));
                }
                assert forall|r: int| 0 <= r < y implies #[trigger] filter_type_of(
                    pixels@,
                    pitch,
                    r,
                ) == filter_type_of(before, pitch, r) by {
                    lemma_rows(r, y as int, row_size as int);
                    assert(filter_type_of(pixels@, pitch, r) == filter_type_of(prev, pitch, r));
                }
            }
            row_start += row_size;
            y += 1;
        }
        Ok(())
    }

    /// Reads the pixels out of a buffer of unfiltered scanlines with one
    /// decoder, step by step along each scanline. `steps` is the number of
    /// steps in a scanline, the last of which may hold more pixels than the
    /// row still lacks: those are left out.
    fn decode_rows<D: PixelDecoder>(
        &self,
        decoder: &D,
        pps: usize,
        pixels: &[u8],
        row_size: usize,
        Ghost(steps): Ghost<int>,
    ) -> (res: Result<Vec<Color>, String>)
        requires
            pps == decoder.pixels_per_step(),
            row_size == self.pitch + 1,
            self.h * row_size <= pixels@.len(),
            0 <= steps,
            self.pitch == steps * decoder.step_len(),
            (steps - 1) * pps < self.w <= steps * pps,
            has_decoder(self.color_type, self.bit_depth as int),
            forall|row: Seq<u8>, k: int| #[trigger]
                format_pixel(self.color_type, self.bit_depth as int, row, self.palette@, k)
                    == row_pixel(*decoder, row, self.palette@, k),
        ensures
            pixels_built(self@, pixels@, res),
    {
        let mut result: Vec<Color> = Vec::new();
        let step = decoder.step();
        let ghost pitch = self.pitch as int;
        let ghost w = self.w as int;
        proof {
            decoder.lemma_step_shape();
            assert(pixels.len() == pixels@.len());
        }
        let mut row_start: usize = 0;
        let mut y: usize = 0;
        while y < self.h
            invariant
                y <= self.h,
                pitch == self.pitch,
                w == self.w,
                step == decoder.step_len(),
                step >= 1,
                pps == decoder.pixels_per_step(),
                pps >= 1,
                row_size == self.pitch + 1,
                row_start == y * row_size,
                self.h * row_size <= pixels@.len(),
                pixels@.len() <= usize::MAX,
                0 <= steps,
                self.pitch == steps * step,
                (steps - 1) * pps < self.w <= steps * pps,
                has_decoder(self.color_type, self.bit_depth as int),
                forall|row: Seq<u8>, k: int| #[trigger]
                    format_pixel(self.color_type, self.bit_depth as int, row, self.palette@, k)
                        == row_pixel(*decoder, row, self.palette@, k),
                result@.len() == y * w,
                forall|n: int|
                    0 <= n < result@.len() ==> raster_pixel(
                        *decoder,
                        pixels@,
                        pitch,
                        self.palette@,
                        w,
                        n,
                    ) == Some(#[trigger] result@[n]),
            decreases self.h - y,
        {
            proof {
                lemma_rows(y as int, self.h as int, row_size as int);
                lemma_rows(y as int, self.h as int, w);
            }
            let pixel_start = row_start + 1;
            let mut i: usize = 0;
            let mut col: usize = 0;
            let ghost mut j: int = 0;
            while i < self.pitch
                invariant
                    y < self.h,
                    pitch == self.pitch,
                    w == self.w,
                    step == decoder.step_len(),
                    step >= 1,
                    pps == decoder.pixels_per_step(),
                    pps >= 1,
                    row_size == self.pitch + 1,
                    row_start == y * row_size,
                    pixel_start == row_start + 1,
                    0 <= row_start,
                    (y + 1) * row_size == row_start + row_size,
                    (y + 1) * row_size <= pixels@.len(),
                    (y + 1) * w == y * w + w,
                    (y + 1) * w <= self.h * w,
                    pixels@.len() <= usize::MAX,
                    0 <= j <= steps,
                    self.pitch == steps * step,
                    (steps - 1) * pps < self.w <= steps * pps,
                    has_decoder(self.color_type, self.bit_depth as int),
                    forall|row: Seq<u8>, k: int| #[trigger]
                        format_pixel(self.color_type, self.bit_depth as int, row, self.palette@, k)
                            == row_pixel(*decoder, row, self.palette@, k),
                    i == j * step,
                    col == (if j * pps < w {
                        j * pps
                    } else {
                        w
                    }),
                    result@.len() == y * w + col,
                    forall|n: int|
                        0 <= n < result@.len() ==> raster_pixel(
                            *decoder,
                            pixels@,
                            pitch,
                            self.palette@,
                            w,
                            n,
                        ) == Some(#[trigger] result@[n]),
                decreases self.pitch - i,
            {
                proof {
                    // there is a step left, and the row still lacks pixels
                    if j >= steps {
                        lemma_mul_le(steps, j, step as int);
                    }
                    lemma_rows(j, steps, step as int);
                    lemma_mul_le(j, steps - 1, pps as int);
                    lemma_rows(j, steps, pps as int);
                    assert(col == j * pps);
                }
                let x = pixel_start + i;
                let val = pixels[x];
                let decoded = decoder.decode(pixels, x, val, self);
                let needed = if pps < self.w - col {
                    pps
                } else {
                    self.w - col
                };
                if decoded.len() < needed {
                    proof {
                        let t = decoded@.len() as int;
                        lemma_raster_pixel(
                            *decoder,
                            pixels@,
                            pitch,
                            self.palette@,
                            w,
                            y as int,
                            j,
                            t,
                            x as int,
                        );
                        assert(self.w * self.h == self.h * w) by (nonlinear_arith)
                            requires
                                w == self.w,
                        ;
                        lemma_mul_le(0, y as int, w);
                        assert(0 <= y * w + j * pps + t < self.w * self.h);
                        assert(image_pixel(
                            self.color_type,
                            self.bit_depth as int,
                            pixels@,
                            pitch,
                            self.palette@,
                            w,
                            y * w + j * pps + t,
                        ) == raster_pixel(
                            *decoder,
                            pixels@,
                            pitch,
                            self.palette@,
                            w,
                            y * w + j * pps + t,
                        ));
                    }
                    return Err("Palette index out of range".to_string());
                }
                let mut t: usize = 0;
                while t < needed
                    invariant
                        t <= needed,
                        needed <= decoded@.len(),
                        needed <= pps,
                        col + needed <= w,
                        col == j * pps,
                        0 <= j,
                        pps == decoder.pixels_per_step(),
                        step == decoder.step_len(),
                        step >= 1,
                        x == y * (pitch + 1) + 1 + j * step,
                        0 <= j * step,
                        j * step + step <= pitch,
                        0 <= y * (pitch + 1),
                        (y + 1) * (pitch + 1) <= pixels@.len(),
                        (y + 1) * (pitch + 1) == y * (pitch + 1) + pitch + 1,
                        result@.len() == y * w + col + t,
                        forall|u: int|
                            0 <= u < decoded@.len() ==> decoder.step_pixel(
                                pixels@.subrange(x as int, x + decoder.step_len()),
                                self.palette@,
                                u,
                            ) == Some(#[trigger] decoded@[u]),
                        forall|n: int|
                            0 <= n < result@.len() ==> raster_pixel(
                                *decoder,
                                pixels@,
                                pitch,
                                self.palette@,
                                w,
                                n,
                            ) == Some(#[trigger] result@[n]),
                    decreases needed - t,
                {
                    proof {
                        lemma_raster_pixel(
                            *decoder,
                            pixels@,
                            pitch,
                            self.palette@,
                            w,
                            y as int,
                            j,
                            t as int,
                            x as int,
                        );
                    }
                    result.push(decoded[t]);
                    t += 1;
                }
                col += needed;
                i += step;
                proof {
                    j = j + 1;
                }
            }
            proof {
                if j < steps {
                    lemma_mul_le(j + 1, steps, step as int);
                    lemma_rows(j, steps, step as int);
                }
                assert(j == steps);
            }
            row_start += row_size;
            y += 1;
        }
        assert(self.w * self.h == self.h * w) by (nonlinear_arith)
            requires
                w == self.w,
        ;
        assert forall|n: int| 0 <= n < result@.len() implies image_pixel(
            self.color_type,
            self.bit_depth as int,
            pixels@,
            pitch,
            self.palette@,
            w,
            n,
        ) == Some(#[trigger] result@[n]) by {
            assert(raster_pixel(*decoder, pixels@, pitch, self.palette@, w, n) == Some(result@[n]));
        }
        Ok(result)
    }

    /// Reads the pixels of the image out of a buffer of unfiltered
    /// scanlines, with the decoder for its colour type and bit depth.
    pub fn build_pixels(&self, pixels: &[u8], row_size: usize) -> (res: Result<Vec<Color>, String>)
        requires
            self.wf(),
            self.pitch == pitch_for(self.bits_per_pixel as int, self.w as int),
            row_size == self.pitch + 1,
            self.h * row_size <= pixels@.len(),
        ensures
            pixels_built(self@, pixels@, res),
    {
        proof {
            lemma_pitches(self.bits_per_pixel as int, self.w as int);
        }
        match (self.color_type, self.bit_depth) {
            (ColorType::IndexedColor, 1) => self.decode_rows(
                &OneBitIndexedColorDecoder,
                8,
                pixels,
                row_size,
                Ghost(self.pitch as int),
            ),
            (ColorType::IndexedColor, 2) => self.decode_rows(
                &TwoBitIndexedColorDecoder,
                4,
                pixels,
                row_size,
                Ghost(self.pitch as int),
            ),
            (ColorType::IndexedColor, 4) => self.decode_rows(
                &FourBitIndexedColorDecoder,
                2,
                pixels,
                row_size,
                Ghost(self.pitch as int),
            ),
            (ColorType::IndexedColor, 8) => self.decode_rows(
                &EightBitIndexedColorDecoder,
                1,
                pixels,
                row_size,
                Ghost(self.w as int),
            ),
            (ColorType::Greyscale, 1) => self.decode_rows(
                &OneBitGreyscaleDecoder,
                8,
                pixels,
                row_size,
                Ghost(self.pitch as int),
            ),
            (ColorType::Greyscale, 2) => self.decode_rows(
                &TwoBitGreyscaleDecoder,
                4,
                pixels,
                row_size,
                Ghost(self.pitch as int),
            ),
            (ColorType::Greyscale, 4) => self.decode_rows(
                &FourBitGreyscaleDecoder,
                2,
                pixels,
                row_size,
                Ghost(self.pitch as int),
            ),
            (ColorType::Greyscale, 8) => self.decode_rows(
                &EightBitGreyscaleDecoder,
                1,
                pixels,
                row_size,
                Ghost(self.w as int),
            ),
            (ColorType::Greyscale, 16) => self.decode_rows(
                &SixteenBitGreyscaleDecoder,
                1,
                pixels,
                row_size,
                Ghost(self.w as int),
            ),
            (ColorType::GreyscaleWithAlpha, 8) => self.decode_rows(
                &EightBitGreyscaleWithAlphaDecoder,
                1,
                pixels,
                row_size,
                Ghost(self.w as int),
            ),
            (ColorType::Truecolor, 8) => self.decode_rows(
                &EightBitTrueColorDecoder,
                1,
                pixels,
                row_size,
                Ghost(self.w as int),
            ),
            (ColorType::Truecolor, 16) => self.decode_rows(
                &SixteenBitTrueColorDecoder,
                1,
                pixels,
                row_size,
                Ghost(self.w as int),
            ),
            (ColorType::TrueColorWithAlpha, 8) => self.decode_rows(
                &EightBitTrueColorWithAlphaDecoder,
                1,
                pixels,
                row_size,
                Ghost(self.w as int),
            ),
            (ColorType::TrueColorWithAlpha, 16) => self.decode_rows(
                &SixteenBitTrueColorWithAlphaDecoder,
                1,
                pixels,
                row_size,
                Ghost(self.w as int),
            ),
            _ => Err("Unsupported color type and bit depth combination".to_string()),
        }
    }

    /// Adds the entries that the payload of a palette chunk spells to the
    /// palette.
    fn build_palette(&mut self, data: &[u8])
        requires
            data@.len() % 3 == 0,
        ensures
            final(self)@ == old(self)@.with_palette(data@),
    {
        let ghost before = self@;
        let mut i: usize = 0;
        while i < data.len()
            invariant
                i <= data@.len(),
                i % 3 == 0,
                data@.len() % 3 == 0,
                self@ == (PngState { palette: self.palette@, ..before }),
                self.palette@ == before.palette + palette_of(data@).take(i as int / 3),
            decreases data@.len() - i,
        {
            let pixel = Color::new(data[i], data[i + 1], data[i + 2], 255);
            self.palette.push(pixel);
            assert(palette_of(data@).take((i + 3) / 3) =~= palette_of(data@).take(
                i as int / 3,
            ).push(pixel));

            i += 3;
        }
        assert(palette_of(data@).take(i as int / 3) =~= palette_of(data@));
    }

    /// Stores the entries of a significant-bits chunk, as many as the colour
    /// type has.
    fn parse_sbit(&mut self, data: &[u8])
        ensures
            final(self)@ == old(self)@.with_sbit(data@),
    {
        let ghost before = self@;
        if self.color_type == ColorType::Greyscale {
            if data.len() >= 1 {
                self.significant_bits[0] = data[0];
            }
        } else if self.color_type == ColorType::Truecolor || self.color_type
            == ColorType::IndexedColor {
            if data.len() >= 3 {
                self.significant_bits[0] = data[0];
                self.significant_bits[1] = data[1];
                self.significant_bits[2] = data[2];
            }
        } else if self.color_type == ColorType::GreyscaleWithAlpha {
            if data.len() >= 2 {
                self.significant_bits[0] = data[0];
                self.significant_bits[1] = data[1];
            }
        } else {
            if data.len() >= 4 {
                self.significant_bits[0] = data[0];
                self.significant_bits[1] = data[1];
                self.significant_bits[2] = data[2];
                self.significant_bits[3] = data[3];
            }
        }
        assert(self@.significant_bits =~= before.with_sbit(data@).significant_bits);
    }
}

} // verus!
