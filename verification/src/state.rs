use crate::arith::{lemma_known_factor, lemma_mul_le, lemma_rows};
use crate::chunk_type::PngChunkType;
use crate::color::Color;
use crate::color_type::ColorType;
use crate::decoders::{
    format_pixel, has_decoder, lemma_greyscale_is_grey, lemma_no_alpha_is_opaque, row_pixel,
    EightBitTrueColorWithAlphaDecoder,
};
use crate::deflate::zlib_inflated;
use crate::filters::{filter_type_of, filters_known, scanline, unfiltered_scanline};
use crate::helpers::be_u32;
use crate::ihdr::{parsed, IHDR};
use vstd::prelude::*;

verus! {

/// What a `PngFile` holds, as plain values.
pub struct PngState {
    pub w: int,
    pub h: int,
    pub bit_depth: int,
    pub bits_per_pixel: int,
    pub bytes_per_pixel: int,
    pub color_type: ColorType,
    pub compression_method: u8,
    pub filter_method: u8,
    pub interlace_method: u8,
    pub image_data_chunks: Seq<Seq<u8>>,
    pub pitch: int,
    pub pixels: Seq<Color>,
    pub palette: Seq<Color>,
    pub significant_bits: Seq<u8>,
    pub idx: int,
}

/// A decode that stopped at a broken rule: the message that names the rule,
/// and the state that the image is left in.
pub struct Failure {
    pub message: Seq<char>,
    pub state: PngState,
}

/// The failure that leaves the image in the state `st`.
pub open spec fn fails(st: PngState, message: Seq<char>) -> Result<PngState, Failure> {
    Err(Failure { message: message, state: st })
}

/// The message for a chunk stream that does not start with a header chunk.
pub open spec fn msg_ihdr_missing() -> Seq<char> {
    "IHDR chunk missing"@
}

/// The message for a header chunk after the first chunk.
pub open spec fn msg_ihdr_repeated() -> Seq<char> {
    "IHDR chunk is not first"@
}

/// The message for a palette chunk whose length is no multiple of three.
pub open spec fn msg_palette_length() -> Seq<char> {
    "Invalid palette length"@
}

/// The message for a chunk stream that ends before its end chunk.
pub open spec fn msg_truncated() -> Seq<char> {
    "Data ends before the IEND chunk"@
}

/// The message for a chunk that declares more payload than there is data.
pub open spec fn msg_chunk_length() -> Seq<char> {
    "Chunk length exceeds the data"@
}

/// The message for a scanline with a filter type that the format does not define.
pub open spec fn msg_filter_type() -> Seq<char> {
    "Unknown filter type"@
}

/// The message for an image of a colour type and bit depth without a decoder.
pub open spec fn msg_no_decoder() -> Seq<char> {
    "Unsupported color type and bit depth combination"@
}

/// The message for a sample that points outside the palette.
pub open spec fn msg_palette_index() -> Seq<char> {
    "Palette index out of range"@
}

/// The bytes that one scanline of samples takes: as many as hold `w` pixels
/// of `bits_per_pixel` bits each.
pub open spec fn pitch_for(bits_per_pixel: int, w: int) -> int {
    (bits_per_pixel * w + 7) / 8
}

/// The bits that one pixel takes: the bit depth for each of its samples.
pub open spec fn bits_per_pixel(color_type: ColorType, bit_depth: int) -> int {
    color_type.channels() * bit_depth
}

/// The palette that the payload of a palette chunk spells: its bytes three
/// by three as red, green and blue, each entry opaque.
pub open spec fn palette_of(data: Seq<u8>) -> Seq<Color> {
    Seq::new(
        (data.len() / 3) as nat,
        |i: int| Color { r: data[3 * i], g: data[3 * i + 1], b: data[3 * i + 2], a: 255 },
    )
}

/// Whether every entry of a palette is opaque.
pub open spec fn opaque(palette: Seq<Color>) -> bool {
    forall|i: int| 0 <= i < palette.len() ==> (#[trigger] palette[i]).a == 255
}

/// How many of the four significant-bits entries an image of this colour
/// type has.
pub open spec fn sbit_count(color_type: ColorType) -> int {
    match color_type {
        ColorType::Greyscale => 1,
        ColorType::Truecolor => 3,
        ColorType::IndexedColor => 3,
        ColorType::GreyscaleWithAlpha => 2,
        _ => 4,
    }
}

/// The payload length that the chunk at `pos` declares.
pub open spec fn chunk_length(data: Seq<u8>, pos: int) -> int {
    be_u32(data.subrange(pos, pos + 4))
}

/// The kind of the chunk at `pos`, by its type code.
pub open spec fn chunk_kind(data: Seq<u8>, pos: int) -> Option<PngChunkType> {
    PngChunkType::of_code(data.subrange(pos + 4, pos + 8))
}

/// The payload of the chunk at `pos`.
pub open spec fn chunk_payload(data: Seq<u8>, pos: int) -> Seq<u8> {
    data.subrange(pos + 8, pos + 8 + chunk_length(data, pos))
}

impl PngState {
    /// The state of an image of which only the size is set.
    pub open spec fn blank(width: int, height: int) -> PngState {
        PngState {
            w: width,
            h: height,
            bit_depth: 0,
            bits_per_pixel: 0,
            bytes_per_pixel: 0,
            color_type: ColorType::Unknown,
            compression_method: 0,
            filter_method: 0,
            interlace_method: 0,
            image_data_chunks: Seq::empty(),
            pitch: 0,
            pixels: Seq::empty(),
            palette: Seq::empty(),
            significant_bits: seq![0u8, 0u8, 0u8, 0u8],
            idx: 0,
        }
    }

    /// With the fields of a header taken over.
    pub open spec fn with_header(self, ihdr: IHDR) -> PngState {
        PngState {
            w: ihdr.width as int,
            h: ihdr.height as int,
            bit_depth: ihdr.bit_depth as int,
            color_type: ihdr.color_type,
            compression_method: ihdr.compression_method,
            filter_method: ihdr.filter_method,
            interlace_method: ihdr.interlace_method,
            ..self
        }
    }

    /// With the bits and bytes that one pixel takes worked out.
    pub open spec fn with_bpp(self) -> PngState {
        PngState {
            bits_per_pixel: bits_per_pixel(self.color_type, self.bit_depth),
            bytes_per_pixel: (bits_per_pixel(self.color_type, self.bit_depth) + 7) / 8,
            ..self
        }
    }

    /// With the cursor moved on by `distance` bytes.
    pub open spec fn advanced(self, distance: int) -> PngState {
        PngState { idx: self.idx + distance, ..self }
    }

    /// With the entries of a palette chunk added to the palette.
    pub open spec fn with_palette(self, data: Seq<u8>) -> PngState {
        PngState { palette: self.palette + palette_of(data), ..self }
    }

    /// With the payload of an image data chunk added to those collected.
    pub open spec fn with_image_data(self, data: Seq<u8>) -> PngState {
        PngState { image_data_chunks: self.image_data_chunks.push(data), ..self }
    }

    /// With the entries of a significant-bits chunk stored: as many as the
    /// colour type has. A payload too short for them leaves all as it is.
    pub open spec fn with_sbit(self, data: Seq<u8>) -> PngState {
        if data.len() < sbit_count(self.color_type) {
            self
        } else {
            PngState {
                significant_bits: Seq::new(
                    4,
                    |i: int|
                        if i < sbit_count(self.color_type) {
                            data[i]
                        } else {
                            self.significant_bits[i]
                        },
                ),
                ..self
            }
        }
    }

    /// With a chunk of the given kind and payload taken in. Only image
    /// data, palette and significant bits leave a trace.
    pub open spec fn absorbed(self, kind: Option<PngChunkType>, payload: Seq<u8>) -> PngState {
        match kind {
            Some(PngChunkType::ImageData) => self.with_image_data(payload),
            Some(PngChunkType::Palette) => self.with_palette(payload),
            Some(PngChunkType::SignificantBits) => self.with_sbit(payload),
            _ => self,
        }
    }

    /// The bytes that one scanline of samples takes.
    pub open spec fn row_pitch(self) -> int {
        pitch_for(self.bits_per_pixel, self.w)
    }

    /// The bytes that the decompressed image data takes: for each scanline
    /// its samples and one byte of filter type.
    pub open spec fn raw_size(self) -> int {
        (self.row_pitch() + 1) * self.h
    }

    /// With the image data chunks let go.
    pub open spec fn without_image_data(self) -> PngState {
        PngState { image_data_chunks: Seq::empty(), ..self }
    }

    /// Pixel `n` of the raster, row by row, out of the decompressed image
    /// data `raw`: pixel `n % w` of scanline `n / w`, unfiltered.
    pub open spec fn decoded_pixel(self, raw: Seq<u8>, n: int) -> Option<Color> {
        format_pixel(
            self.color_type,
            self.bit_depth,
            unfiltered_scanline(raw, self.row_pitch(), self.bytes_per_pixel, n / self.w),
            self.palette,
            n % self.w,
        )
    }

    /// Whether the pixels of a greyscale image are grey, and those of an
    /// image without alpha opaque.
    pub open spec fn pixels_fit(self) -> bool {
        &&& self.pixels.len() == self.w * self.h
        &&& (self.color_type == ColorType::Greyscale || self.color_type
            == ColorType::GreyscaleWithAlpha) ==> forall|i: int|
            0 <= i < self.pixels.len() ==> (#[trigger] self.pixels[i]).is_grey()
        &&& !self.color_type.has_alpha() ==> forall|i: int|
            0 <= i < self.pixels.len() ==> (#[trigger] self.pixels[i]).a == 255
    }

    /// Whether the bit depth is one that the colour type allows. Before a
    /// header is read there is no colour type, and any bit depth will do.
    pub open spec fn header_fits(self) -> bool {
        0 <= self.bit_depth <= 255 && (self.color_type == ColorType::Unknown
            || self.color_type.allows_depth(self.bit_depth as u8))
    }

    /// A state whose derived fields fit its header, and whose palette is
    /// opaque.
    pub open spec fn wf(self) -> bool {
        &&& 0 <= self.w
        &&& 0 <= self.h
        &&& self.header_fits()
        &&& self.bits_per_pixel == bits_per_pixel(self.color_type, self.bit_depth)
        &&& self.bytes_per_pixel == (self.bits_per_pixel + 7) / 8
        &&& opaque(self.palette)
        &&& self.significant_bits.len() == 4
        &&& 0 <= self.idx
    }
}

/// The walk over the chunks that follow the header chunk, from the cursor of
/// `st` on: the state when the end chunk is met, or the message of the first
/// rule broken. A chunk is four bytes of payload length, four of type code,
/// the payload and four bytes of checksum, which are passed over unread.
pub open spec fn walked(data: Seq<u8>, st: PngState) -> Result<PngState, Failure>
    decreases data.len() - st.idx,
{
    let pos = st.idx;
    if pos < 0 || pos + 8 > data.len() {
        fails(st, msg_truncated())
    } else if pos + 8 + chunk_length(data, pos) > data.len() {
        fails(st, msg_chunk_length())
    } else if chunk_kind(data, pos) == Some(PngChunkType::End) {
        Ok(st)
    } else if chunk_kind(data, pos) == Some(PngChunkType::ImageHeader) {
        fails(st, msg_ihdr_repeated())
    } else if chunk_kind(data, pos) == Some(PngChunkType::Palette) && chunk_length(data, pos) % 3
        != 0 {
        fails(st, msg_palette_length())
    } else if pos + chunk_length(data, pos) + 20 > data.len() {
        fails(st, msg_truncated())
    } else {
        walked(
            data,
            st.absorbed(chunk_kind(data, pos), chunk_payload(data, pos)).advanced(
                chunk_length(data, pos) + 12,
            ),
        )
    }
}

/// The header chunk at the cursor of `st` taken in: the state with its fields
/// and the cursor behind it, or the message of the first rule broken.
pub open spec fn header_read(data: Seq<u8>, st: PngState) -> Result<PngState, Failure> {
    let pos = st.idx;
    if pos < 0 || pos + 8 > data.len() || chunk_kind(data, pos) != Some(PngChunkType::ImageHeader) {
        fails(st, msg_ihdr_missing())
    } else if pos + 8 + chunk_length(data, pos) > data.len() {
        fails(st, msg_chunk_length())
    } else {
        match parsed(chunk_payload(data, pos)) {
            Err(message) => fails(st, message),
            Ok(ihdr) => if pos + chunk_length(data, pos) + 20 > data.len() {
                fails(st, msg_truncated())
            } else {
                Ok(st.with_header(ihdr).advanced(chunk_length(data, pos) + 12).with_bpp())
            },
        }
    }
}

/// The whole chunk stream read from the cursor of `st` on: the header chunk
/// first, then the walk over the rest.
pub open spec fn chunks_read(data: Seq<u8>, st: PngState) -> Result<PngState, Failure> {
    match header_read(data, st) {
        Err(failure) => Err(failure),
        Ok(with_header) => walked(data, with_header),
    }
}

/// The message for scanlines longer than can be addressed.
pub open spec fn msg_too_large() -> Seq<char> {
    "Image too large"@
}

/// The message for image data that is not as long as the header says.
pub open spec fn msg_data_length() -> Seq<char> {
    "Image data has the wrong length"@
}

/// The payloads of the image data chunks, one after the other.
pub open spec fn concatenated(chunks: Seq<Seq<u8>>) -> Seq<u8>
    decreases chunks.len(),
{
    if chunks.len() == 0 {
        Seq::empty()
    } else {
        concatenated(chunks.drop_last()) + chunks.last()
    }
}

/// Whether a file starts with the eight bytes that every PNG file starts
/// with.
pub open spec fn has_signature(file: Seq<u8>) -> bool {
    &&& file.len() >= 8
    &&& file[0] == 0x89
    &&& file[1] == 0x50
    &&& file[2] == 0x4E
    &&& file[3] == 0x47
    &&& file[4] == 0x0D
    &&& file[5] == 0x0A
    &&& file[6] == 0x1A
    &&& file[7] == 0x0A
}

/// The decompressed image data made into pixels. The data is `h` scanlines
/// of one filter type byte and a pitch of sample bytes each, as many as the
/// width and the bits of a pixel ask for; any other length is an error, and so
/// are a filter type that the format does not define, an image for which
/// there is no decoder, and a sample that points outside the palette. Once
/// the length is found right the pitch is set, whatever follows.
pub open spec fn scanlines_decoded(st: PngState, raw: Seq<u8>) -> Result<PngState, Failure> {
    let measured = PngState { pitch: st.row_pitch(), ..st };
    if st.row_pitch() + 1 > usize::MAX {
        fails(st, msg_too_large())
    } else if raw.len() != st.raw_size() {
        fails(st, msg_data_length())
    } else if !filters_known(raw, st.row_pitch(), st.h) {
        fails(measured, msg_filter_type())
    } else if !has_decoder(st.color_type, st.bit_depth) {
        fails(measured, msg_no_decoder())
    } else if exists|n: int| 0 <= n < st.w * st.h && (#[trigger] st.decoded_pixel(raw, n)) is None {
        fails(measured, msg_palette_index())
    } else {
        Ok(
            PngState {
                pixels: Seq::new((st.w * st.h) as nat, |n: int| st.decoded_pixel(raw, n).unwrap()),
                ..measured
            },
        )
    }
}

/// What becomes of the state when the image data collected is decompressed
/// and decoded. `None` stands for a stream that does not decompress: the
/// text of that error is the decompressor's.
pub open spec fn pixel_data_decoded(st: PngState) -> Option<Result<PngState, Failure>> {
    match zlib_inflated(concatenated(st.image_data_chunks)) {
        None => None,
        Some(raw) => Some(scanlines_decoded(st.without_image_data(), raw)),
    }
}

/// For every header that a decoder can go on with, the bytes that one pixel
/// takes, rounded up, are the whole bytes of a pixel, and 1 for a pixel of
/// less than a byte.
pub proof fn lemma_bytes_per_pixel(color_type: ColorType, bit_depth: u8)
    requires
        color_type.allows_depth(bit_depth),
    ensures
        ({
            let bits = bits_per_pixel(color_type, bit_depth as int);
            &&& 1 <= bits <= 64
            &&& (bits + 7) / 8 == (if bits / 8 < 1 {
                1
            } else {
                bits / 8
            })
        }),
{
}

/// A scanline with the filter type None is unfiltered as it stands.
proof fn lemma_none_filter_scanline(raw: Seq<u8>, pitch: int, bpp: int, y: int)
    requires
        bpp >= 1,
        0 <= y,
        filter_type_of(raw, pitch, y) == 0,
    ensures
        unfiltered_scanline(raw, pitch, bpp, y) == scanline(raw, pitch, y),
{
    assert(unfiltered_scanline(raw, pitch, bpp, y) =~= scanline(raw, pitch, y));
}

/// Pixel `x` of a scanline with red, green, blue and alpha of eight bits
/// each is the four bytes from `4 * x` on.
proof fn lemma_rgba_pixel(row: Seq<u8>, palette: Seq<Color>, x: int)
    requires
        0 <= x,
        4 * x + 4 <= row.len(),
    ensures
        format_pixel(ColorType::TrueColorWithAlpha, 8, row, palette, x) == Some(
            Color { r: row[4 * x], g: row[4 * x + 1], b: row[4 * x + 2], a: row[4 * x + 3] },
        ),
{
    assert(row_pixel(EightBitTrueColorWithAlphaDecoder, row, palette, x) == Some(
        Color { r: row[4 * x], g: row[4 * x + 1], b: row[4 * x + 2], a: row[4 * x + 3] },
    ));
}

/// Where every scanline of an image with red, green, blue and alpha of
/// eight bits each has the filter type None, the pixels of a successful
/// decode are the bytes of the scanlines four by four: pixel `x` of row `y`
/// is the four bytes from `y * (4 * w + 1) + 1 + 4 * x` on.
pub proof fn lemma_unfiltered_rgba(st: PngState, raw: Seq<u8>, y: int, x: int)
    requires
        st.wf(),
        st.color_type == ColorType::TrueColorWithAlpha,
        st.bit_depth == 8,
        scanlines_decoded(st, raw) is Ok,
        forall|r: int| 0 <= r < st.h ==> #[trigger] filter_type_of(raw, st.row_pitch(), r) == 0,
        0 <= y < st.h,
        0 <= x < st.w,
    ensures
        st.row_pitch() == 4 * st.w,
        ({
            let at = y * (4 * st.w + 1) + 1 + 4 * x;
            &&& 0 <= at
            &&& at + 4 <= raw.len()
            &&& scanlines_decoded(st, raw)->Ok_0.pixels[y * st.w + x] == (Color {
                r: raw[at],
                g: raw[at + 1],
                b: raw[at + 2],
                a: raw[at + 3],
            })
        }),
{
    let pitch = st.row_pitch();
    let n = y * st.w + x;
    let start = y * (pitch + 1);
    lemma_known_factor(st.bits_per_pixel, st.w, 32);
    assert(pitch == 4 * st.w);
    assert(0 <= start && start + pitch + 1 <= raw.len() && 0 <= n < st.w * st.h && n == x + y
        * st.w) by {
        lemma_rows(y, st.h, pitch + 1);
        lemma_rows(y, st.h, st.w);
        lemma_mul_le(0, y, pitch + 1);
        lemma_mul_le(0, y, st.w);
        assert(st.h * (pitch + 1) == (pitch + 1) * st.h) by (nonlinear_arith);
        assert(st.h * st.w == st.w * st.h) by (nonlinear_arith);
    }
    assert(n / st.w == y && n % st.w == x) by {
        vstd::arithmetic::div_mod::lemma_fundamental_div_mod_converse(n, st.w, y, x);
    }
    let row = scanline(raw, pitch, y);
    assert(row.len() == pitch && forall|i: int|
        0 <= i < pitch ==> row[i] == raw[start + 1 + i]) by {
        lemma_rows(y, st.h, pitch + 1);
    }
    assert(filter_type_of(raw, pitch, y) == 0);
    lemma_none_filter_scanline(raw, pitch, st.bytes_per_pixel, y);
    lemma_rgba_pixel(row, st.palette, x);
    assert(st.decoded_pixel(raw, n) == format_pixel(
        ColorType::TrueColorWithAlpha,
        8,
        row,
        st.palette,
        x,
    ));
    assert(scanlines_decoded(st, raw)->Ok_0.pixels[n] == st.decoded_pixel(raw, n).unwrap());
}

/// Every successful decode gives `w * h` pixels; those of a greyscale image
/// are grey, and those of an image whose colour type has no alpha are opaque.
pub proof fn lemma_decoded_pixels_fit(st: PngState, raw: Seq<u8>)
    requires
        st.wf(),
        scanlines_decoded(st, raw) is Ok,
    ensures
        scanlines_decoded(st, raw)->Ok_0.wf(),
        scanlines_decoded(st, raw)->Ok_0.pixels_fit(),
{
    let done = scanlines_decoded(st, raw)->Ok_0;
    assert(done.pixels.len() == st.w * st.h) by (nonlinear_arith)
        requires
            0 <= st.w,
            0 <= st.h,
            done.pixels.len() == (st.w * st.h) as nat,
    ;
    assert forall|i: int| 0 <= i < done.pixels.len() implies (st.color_type
        == ColorType::Greyscale || st.color_type == ColorType::GreyscaleWithAlpha ==> (
    #[trigger] done.pixels[i]).is_grey()) && (!st.color_type.has_alpha() ==> done.pixels[i].a
        == 255) by {
        assert(st.decoded_pixel(raw, i) is Some);
        let row = unfiltered_scanline(raw, st.row_pitch(), st.bytes_per_pixel, i / st.w);
        if st.color_type == ColorType::Greyscale || st.color_type == ColorType::GreyscaleWithAlpha {
            lemma_greyscale_is_grey(st.color_type, st.bit_depth, row, st.palette, i % st.w);
        }
        if !st.color_type.has_alpha() {
            lemma_no_alpha_is_opaque(st.color_type, st.bit_depth, row, st.palette, i % st.w);
        }
    }
}

} // verus!
