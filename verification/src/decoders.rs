use crate::color::Color;
use crate::color_type::ColorType;
use crate::filters::scanline;
use crate::png::PngFile;
use vstd::prelude::*;

verus! {

/// The entry of the palette at `index`, if the palette has one.
pub open spec fn palette_entry(palette: Seq<Color>, index: int) -> Option<Color> {
    if 0 <= index < palette.len() {
        Some(palette[index])
    } else {
        None
    }
}

/// The bits that a sample of `depth` bits takes out of a byte.
pub open spec fn field_mask(depth: int) -> u8 {
    if depth == 1 {
        1
    } else if depth == 2 {
        3
    } else {
        15
    }
}

/// Sample `t` of a byte that packs samples of `depth` bits (1, 2 or 4), the
/// leftmost sample in the most significant bits.
pub open spec fn packed_field(byte: u8, depth: int, t: int) -> u8 {
    (byte >> ((8 - depth * (t + 1)) as u8)) & field_mask(depth)
}

/// The samples of a byte, each weighed by its place, make up the byte: the
/// leftmost sample holds the most significant bits.
pub proof fn lemma_packed_fields(byte: u8)
    ensures
        packed_field(byte, 4, 0) * 16 + packed_field(byte, 4, 1) == byte,
        packed_field(byte, 2, 0) * 64 + packed_field(byte, 2, 1) * 16 + packed_field(byte, 2, 2)
            * 4 + packed_field(byte, 2, 3) == byte,
        packed_field(byte, 1, 0) * 128 + packed_field(byte, 1, 1) * 64 + packed_field(byte, 1, 2)
            * 32 + packed_field(byte, 1, 3) * 16 + packed_field(byte, 1, 4) * 8 + packed_field(
            byte,
            1,
            5,
        ) * 4 + packed_field(byte, 1, 6) * 2 + packed_field(byte, 1, 7) == byte,
{
    assert(((byte >> 4u8) & 15) * 16 + ((byte >> 0u8) & 15) == byte) by (bit_vector);
    assert(((byte >> 6u8) & 3) * 64 + ((byte >> 4u8) & 3) * 16 + ((byte >> 2u8) & 3) * 4 + ((byte
        >> 0u8) & 3) == byte) by (bit_vector);
    assert(((byte >> 7u8) & 1) * 128 + ((byte >> 6u8) & 1) * 64 + ((byte >> 5u8) & 1) * 32 + ((byte
        >> 4u8) & 1) * 16 + ((byte >> 3u8) & 1) * 8 + ((byte >> 2u8) & 1) * 4 + ((byte >> 1u8) & 1)
        * 2 + ((byte >> 0u8) & 1) == byte) by (bit_vector);
}

/// The sixteen-bit sample that two bytes spell, most significant byte first.
pub open spec fn be_u16(high: u8, low: u8) -> int {
    high as int * 256 + low as int
}

/// A sixteen-bit sample brought down to eight bits: the integer nearest to
/// `v * 255 / 65535`, which is `v / 257` rounded.
pub open spec fn scale_16_to_8(v: int) -> u8 {
    ((v + 128) / 257) as u8
}

/// The eight-bit sample that stands for the sixteen-bit sample at `at`.
pub open spec fn scaled_sample(bytes: Seq<u8>, at: int) -> u8 {
    scale_16_to_8(be_u16(bytes[at], bytes[at + 1]))
}

/// Pixel `k` of a scanline of unfiltered bytes, as `decoder` reads it: the
/// scanline is a run of steps, each with as many pixels as the format packs
/// into one.
pub open spec fn row_pixel<D: PixelDecoder>(
    decoder: D,
    row: Seq<u8>,
    palette: Seq<Color>,
    k: int,
) -> Option<Color> {
    let j = k / decoder.pixels_per_step();
    decoder.step_pixel(
        row.subrange(j * decoder.step_len(), j * decoder.step_len() + decoder.step_len()),
        palette,
        k % decoder.pixels_per_step(),
    )
}

/// One way of reading pixels out of the bytes of a scanline. A step is the
/// smallest run of whole bytes that holds whole pixels.
pub trait PixelDecoder: Sized {
    /// The number of bytes in one step.
    spec fn step_len(&self) -> int;

    /// The number of pixels in one step.
    spec fn pixels_per_step(&self) -> int;

    /// Pixel `t` of the step with the bytes `bytes`; `None` where the sample
    /// points outside the palette.
    spec fn step_pixel(&self, bytes: Seq<u8>, palette: Seq<Color>, t: int) -> Option<Color>;

    /// A step has at least one byte and at least one pixel.
    proof fn lemma_step_shape(&self)
        ensures
            self.step_len() >= 1,
            self.pixels_per_step() >= 1,
    ;

    /// Decodes the step that starts at the byte `x` of `data`, which is `val`.
    /// Decoding stops at the first sample that points outside the palette.
    fn decode(&self, data: &[u8], x: usize, val: u8, png: &PngFile) -> (pixels: Vec<Color>)
        requires
            x + self.step_len() <= data@.len(),
            val == data@[x as int],
        ensures
            pixels@.len() <= self.pixels_per_step(),
            forall|t: int|
                0 <= t < pixels@.len() ==> self.step_pixel(
                    data@.subrange(x as int, x + self.step_len()),
                    png.palette@,
                    t,
                ) == Some(#[trigger] pixels@[t]),
            pixels@.len() < self.pixels_per_step() ==> self.step_pixel(
                data@.subrange(x as int, x + self.step_len()),
                png.palette@,
                pixels@.len() as int,
            ) is None,
    ;

    /// The number of bytes that one step takes.
    fn step(&self) -> (n: usize)
        ensures
            n == self.step_len(),
    ;
}

/// Takes sample `t` out of a byte of packed samples.
fn unpack_field(val: u8, depth: u8, t: u8) -> (field: u8)
    requires
        depth == 1 || depth == 2 || depth == 4,
        (t + 1) * depth <= 8,
    ensures
        field == packed_field(val, depth as int, t as int),
        field <= field_mask(depth as int),
{
    let shift: u8 = 8 - depth * (t + 1);
    let mask: u8 = if depth == 1 {
        1
    } else if depth == 2 {
        3
    } else {
        15
    };
    assert((val >> shift) & mask <= mask) by (bit_vector);
    (val >> shift) & mask
}

/// Looks the packed samples of one byte up in the palette.
fn decode_indexed(val: u8, depth: u8, palette: &Vec<Color>) -> (pixels: Vec<Color>)
    requires
        depth == 1 || depth == 2 || depth == 4,
    ensures
        pixels@.len() <= 8int / (depth as int),
        forall|t: int|
            0 <= t < pixels@.len() ==> palette_entry(
                palette@,
                packed_field(val, depth as int, t) as int,
            ) == Some(#[trigger] pixels@[t]),
        pixels@.len() < 8int / (depth as int) ==> palette_entry(
            palette@,
            packed_field(val, depth as int, pixels@.len() as int) as int,
        ) is None,
{
    let count: u8 = 8 / depth;
    let mut pixels: Vec<Color> = Vec::new();
    let mut t: u8 = 0;
    while t < count
        invariant
            depth == 1 || depth == 2 || depth == 4,
            count == 8int / (depth as int),
            t <= count,
            pixels@.len() == t,
            forall|u: int|
                0 <= u < t ==> palette_entry(
                    palette@,
                    packed_field(val, depth as int, u) as int,
                ) == Some(#[trigger] pixels@[u]),
        decreases count - t,
    {
        let index = unpack_field(val, depth, t) as usize;
        if index >= palette.len() {
            return pixels;
        }
        pixels.push(palette[index]);
        t += 1;
    }
    pixels
}

/// Spreads the packed samples of one byte over the grey levels: each sample
/// times `scale`.
fn decode_grey(val: u8, depth: u8, scale: u8) -> (pixels: Vec<Color>)
    requires
        depth == 1 || depth == 2 || depth == 4,
        scale * field_mask(depth as int) == 255,
    ensures
        pixels@.len() == 8int / (depth as int),
        forall|t: int|
            0 <= t < pixels@.len() ==> #[trigger] pixels@[t] == Color::grey(
                (packed_field(val, depth as int, t) * scale) as u8,
            ),
{
    let count: u8 = 8 / depth;
    let mut pixels: Vec<Color> = Vec::new();
    let mut t: u8 = 0;
    while t < count
        invariant
            depth == 1 || depth == 2 || depth == 4,
            scale * field_mask(depth as int) == 255,
            count == 8int / (depth as int),
            t <= count,
            pixels@.len() == t,
            forall|u: int|
                0 <= u < t ==> #[trigger] pixels@[u] == Color::grey(
                    (packed_field(val, depth as int, u) * scale) as u8,
                ),
        decreases count - t,
    {
        let field = unpack_field(val, depth, t);
        assert(field * scale <= 255) by (nonlinear_arith)
            requires
                field <= field_mask(depth as int),
                scale * field_mask(depth as int) == 255,
        ;
        let level: u8 = field * scale;
        pixels.push(Color::new(level, level, level, 255));
        t += 1;
    }
    pixels
}

/// Reads the sixteen-bit sample at `x`, most significant byte first.
fn sample16(data: &[u8], x: usize) -> (v: u16)
    requires
        x + 2 <= data@.len(),
    ensures
        v == be_u16(data@[x as int], data@[x + 1]),
{
    let high: u16 = data[x] as u16;
    let low: u16 = data[x + 1] as u16;
    assert((high << 8) | low == high * 256 + low) by (bit_vector)
        requires
            high < 256,
            low < 256,
    ;
    (high << 8) | low
}

/// Brings a sixteen-bit sample down to eight bits.
fn downscale(v: u16) -> (r: u8)
    ensures
        r == scale_16_to_8(v as int),
{
    ((v as u32 + 128) / 257) as u8
}

/// The eight-bit sample is the integer nearest to `v * 255 / 65535`: it is
/// less than one half away from it.
pub proof fn lemma_scale_rounds(v: int)
    requires
        0 <= v <= 65535,
    ensures
        2 * distance_scaled(v) < 65535,
{
}

/// How far `scale_16_to_8(v)` stands from `v * 255 / 65535`, in units of
/// 1 / 65535.
pub open spec fn distance_scaled(v: int) -> int {
    let exact = v * 255;
    let rounded = scale_16_to_8(v) as int * 65535;
    if exact < rounded {
        rounded - exact
    } else {
        exact - rounded
    }
}

/// Palette entries by samples of one bit: eight pixels in a byte.
pub struct OneBitIndexedColorDecoder;

impl PixelDecoder for OneBitIndexedColorDecoder {
    open spec fn step_len(&self) -> int {
        1
    }

    open spec fn pixels_per_step(&self) -> int {
        8
    }

    open spec fn step_pixel(&self, bytes: Seq<u8>, palette: Seq<Color>, t: int) -> Option<Color> {
        palette_entry(palette, packed_field(bytes[0], 1, t) as int)
    }

    proof fn lemma_step_shape(&self) {
    }

    fn decode(&self, data: &[u8], x: usize, val: u8, png: &PngFile) -> Vec<Color> {
        decode_indexed(val, 1, &png.palette)
    }

    fn step(&self) -> usize {
        0x01
    }
}

/// Palette entries by samples of two bits: four pixels in a byte.
pub struct TwoBitIndexedColorDecoder;

impl PixelDecoder for TwoBitIndexedColorDecoder {
    open spec fn step_len(&self) -> int {
        1
    }

    open spec fn pixels_per_step(&self) -> int {
        4
    }

    open spec fn step_pixel(&self, bytes: Seq<u8>, palette: Seq<Color>, t: int) -> Option<Color> {
        palette_entry(palette, packed_field(bytes[0], 2, t) as int)
    }

    proof fn lemma_step_shape(&self) {
    }

    fn decode(&self, data: &[u8], x: usize, val: u8, png: &PngFile) -> Vec<Color> {
        decode_indexed(val, 2, &png.palette)
    }

    fn step(&self) -> usize {
        0x01
    }
}

/// Palette entries by samples of four bits: two pixels in a byte.
pub struct FourBitIndexedColorDecoder;

impl PixelDecoder for FourBitIndexedColorDecoder {
    open spec fn step_len(&self) -> int {
        1
    }

    open spec fn pixels_per_step(&self) -> int {
        2
    }

    open spec fn step_pixel(&self, bytes: Seq<u8>, palette: Seq<Color>, t: int) -> Option<Color> {
        palette_entry(palette, packed_field(bytes[0], 4, t) as int)
    }

    proof fn lemma_step_shape(&self) {
    }

    fn decode(&self, data: &[u8], x: usize, val: u8, png: &PngFile) -> Vec<Color> {
        decode_indexed(val, 4, &png.palette)
    }

    fn step(&self) -> usize {
        0x01
    }
}

/// Palette entries by samples of one byte.
pub struct EightBitIndexedColorDecoder;

impl PixelDecoder for EightBitIndexedColorDecoder {
    open spec fn step_len(&self) -> int {
        1
    }

    open spec fn pixels_per_step(&self) -> int {
        1
    }

    open spec fn step_pixel(&self, bytes: Seq<u8>, palette: Seq<Color>, t: int) -> Option<Color> {
        palette_entry(palette, bytes[0] as int)
    }

    proof fn lemma_step_shape(&self) {
    }

    fn decode(&self, data: &[u8], x: usize, val: u8, png: &PngFile) -> Vec<Color> {
        if val as usize >= png.palette.len() {
            return Vec::new();
        }
        vec![png.palette[val as usize]]
    }

    fn step(&self) -> usize {
        0x01
    }
}

/// Grey levels of one bit, black or white: eight pixels in a byte.
pub struct OneBitGreyscaleDecoder;

impl PixelDecoder for OneBitGreyscaleDecoder {
    open spec fn step_len(&self) -> int {
        1
    }

    open spec fn pixels_per_step(&self) -> int {
        8
    }

    open spec fn step_pixel(&self, bytes: Seq<u8>, palette: Seq<Color>, t: int) -> Option<Color> {
        Some(Color::grey((packed_field(bytes[0], 1, t) * 255) as u8))
    }

    proof fn lemma_step_shape(&self) {
    }

    fn decode(&self, data: &[u8], x: usize, val: u8, png: &PngFile) -> Vec<Color> {
        decode_grey(data[x], 1, 255)
    }

    fn step(&self) -> usize {
        0x01
    }
}

/// Grey levels of two bits, in steps of 85: four pixels in a byte.
pub struct TwoBitGreyscaleDecoder;

impl PixelDecoder for TwoBitGreyscaleDecoder {
    open spec fn step_len(&self) -> int {
        1
    }

    open spec fn pixels_per_step(&self) -> int {
        4
    }

    open spec fn step_pixel(&self, bytes: Seq<u8>, palette: Seq<Color>, t: int) -> Option<Color> {
        Some(Color::grey((packed_field(bytes[0], 2, t) * 85) as u8))
    }

    proof fn lemma_step_shape(&self) {
    }

    fn decode(&self, data: &[u8], x: usize, val: u8, png: &PngFile) -> Vec<Color> {
        decode_grey(data[x], 2, 85)
    }

    fn step(&self) -> usize {
        0x01
    }
}

/// Grey levels of four bits, in steps of 17: two pixels in a byte.
pub struct FourBitGreyscaleDecoder;

impl PixelDecoder for FourBitGreyscaleDecoder {
    open spec fn step_len(&self) -> int {
        1
    }

    open spec fn pixels_per_step(&self) -> int {
        2
    }

    open spec fn step_pixel(&self, bytes: Seq<u8>, palette: Seq<Color>, t: int) -> Option<Color> {
        Some(Color::grey((packed_field(bytes[0], 4, t) * 17) as u8))
    }

    proof fn lemma_step_shape(&self) {
    }

    fn decode(&self, data: &[u8], x: usize, val: u8, png: &PngFile) -> Vec<Color> {
        decode_grey(data[x], 4, 17)
    }

    fn step(&self) -> usize {
        0x01
    }
}

/// Grey levels of one byte.
pub struct EightBitGreyscaleDecoder;

impl PixelDecoder for EightBitGreyscaleDecoder {
    open spec fn step_len(&self) -> int {
        1
    }

    open spec fn pixels_per_step(&self) -> int {
        1
    }

    open spec fn step_pixel(&self, bytes: Seq<u8>, palette: Seq<Color>, t: int) -> Option<Color> {
        Some(Color::grey(bytes[0]))
    }

    proof fn lemma_step_shape(&self) {
    }

    fn decode(&self, data: &[u8], x: usize, val: u8, png: &PngFile) -> Vec<Color> {
        vec![Color::new(data[x], data[x], data[x], 255)]
    }

    fn step(&self) -> usize {
        0x01
    }
}

/// Grey levels of two bytes, brought down to one.
pub struct SixteenBitGreyscaleDecoder;

impl PixelDecoder for SixteenBitGreyscaleDecoder {
    open spec fn step_len(&self) -> int {
        2
    }

    open spec fn pixels_per_step(&self) -> int {
        1
    }

    open spec fn step_pixel(&self, bytes: Seq<u8>, palette: Seq<Color>, t: int) -> Option<Color> {
        Some(Color::grey(scaled_sample(bytes, 0)))
    }

    proof fn lemma_step_shape(&self) {
    }

    fn decode(&self, data: &[u8], x: usize, val: u8, png: &PngFile) -> Vec<Color> {
        let combined = sample16(data, x);
        let result = downscale(combined);
        vec![Color::new(result, result, result, 255)]
    }

    fn step(&self) -> usize {
        0x02
    }
}

/// A grey level and an alpha sample of one byte each.
pub struct EightBitGreyscaleWithAlphaDecoder;

impl PixelDecoder for EightBitGreyscaleWithAlphaDecoder {
    open spec fn step_len(&self) -> int {
        2
    }

    open spec fn pixels_per_step(&self) -> int {
        1
    }

    open spec fn step_pixel(&self, bytes: Seq<u8>, palette: Seq<Color>, t: int) -> Option<Color> {
        Some(Color { r: bytes[0], g: bytes[0], b: bytes[0], a: bytes[1] })
    }

    proof fn lemma_step_shape(&self) {
    }

    fn decode(&self, data: &[u8], x: usize, val: u8, png: &PngFile) -> Vec<Color> {
        vec![Color::new(data[x], data[x], data[x], data[x + 0x01])]
    }

    fn step(&self) -> usize {
        0x02
    }
}

/// Red, green and blue of one byte each.
pub struct EightBitTrueColorDecoder;

impl PixelDecoder for EightBitTrueColorDecoder {
    open spec fn step_len(&self) -> int {
        3
    }

    open spec fn pixels_per_step(&self) -> int {
        1
    }

    open spec fn step_pixel(&self, bytes: Seq<u8>, palette: Seq<Color>, t: int) -> Option<Color> {
        Some(Color { r: bytes[0], g: bytes[1], b: bytes[2], a: 255 })
    }

    proof fn lemma_step_shape(&self) {
    }

    fn decode(&self, data: &[u8], x: usize, val: u8, png: &PngFile) -> Vec<Color> {
        vec![Color::new(data[x], data[x + 0x01], data[x + 0x02], 255)]
    }

    fn step(&self) -> usize {
        0x03
    }
}

/// Red, green and blue of two bytes each, brought down to one.
pub struct SixteenBitTrueColorDecoder;

impl PixelDecoder for SixteenBitTrueColorDecoder {
    open spec fn step_len(&self) -> int {
        6
    }

    open spec fn pixels_per_step(&self) -> int {
        1
    }

    open spec fn step_pixel(&self, bytes: Seq<u8>, palette: Seq<Color>, t: int) -> Option<Color> {
        Some(
            Color {
                r: scaled_sample(bytes, 0),
                g: scaled_sample(bytes, 2),
                b: scaled_sample(bytes, 4),
                a: 255,
            },
        )
    }

    proof fn lemma_step_shape(&self) {
    }

    fn decode(&self, data: &[u8], x: usize, val: u8, png: &PngFile) -> Vec<Color> {
        assert(data.len() == data@.len());
        let ru16 = sample16(data, x);
        let gu16 = sample16(data, x + 0x02);
        let bu16 = sample16(data, x + 0x04);

        let r = downscale(ru16);
        let g = downscale(gu16);
        let b = downscale(bu16);

        vec![Color::new(r, g, b, 255)]
    }

    fn step(&self) -> usize {
        0x06
    }
}

/// Red, green, blue and alpha of one byte each.
pub struct EightBitTrueColorWithAlphaDecoder;

impl PixelDecoder for EightBitTrueColorWithAlphaDecoder {
    open spec fn step_len(&self) -> int {
        4
    }

    open spec fn pixels_per_step(&self) -> int {
        1
    }

    open spec fn step_pixel(&self, bytes: Seq<u8>, palette: Seq<Color>, t: int) -> Option<Color> {
        Some(Color { r: bytes[0], g: bytes[1], b: bytes[2], a: bytes[3] })
    }

    proof fn lemma_step_shape(&self) {
    }

    fn decode(&self, data: &[u8], x: usize, val: u8, png: &PngFile) -> Vec<Color> {
        vec![Color::new(data[x], data[x + 0x01], data[x + 0x02], data[x + 0x03])]
    }

    fn step(&self) -> usize {
        0x04
    }
}

/// Red, green, blue and alpha of two bytes each, brought down to one.
pub struct SixteenBitTrueColorWithAlphaDecoder;

impl PixelDecoder for SixteenBitTrueColorWithAlphaDecoder {
    open spec fn step_len(&self) -> int {
        8
    }

    open spec fn pixels_per_step(&self) -> int {
        1
    }

    open spec fn step_pixel(&self, bytes: Seq<u8>, palette: Seq<Color>, t: int) -> Option<Color> {
        Some(
            Color {
                r: scaled_sample(bytes, 0),
                g: scaled_sample(bytes, 2),
                b: scaled_sample(bytes, 4),
                a: scaled_sample(bytes, 6),
            },
        )
    }

    proof fn lemma_step_shape(&self) {
    }

    fn decode(&self, data: &[u8], x: usize, val: u8, png: &PngFile) -> Vec<Color> {
        assert(data.len() == data@.len());
        let ru16 = sample16(data, x);
        let gu16 = sample16(data, x + 0x02);
        let bu16 = sample16(data, x + 0x04);
        let au16 = sample16(data, x + 0x06);

        let r = downscale(ru16);
        let g = downscale(gu16);
        let b = downscale(bu16);
        let a = downscale(au16);

        vec![Color::new(r, g, b, a)]
    }

    fn step(&self) -> usize {
        0x08
    }
}

/// Pixel `n` of a raster `w` pixels wide, row by row, as `decoder` reads it
/// out of a buffer of unfiltered scanlines.
pub open spec fn raster_pixel<D: PixelDecoder>(
    decoder: D,
    data: Seq<u8>,
    pitch: int,
    palette: Seq<Color>,
    w: int,
    n: int,
) -> Option<Color> {
    row_pixel(decoder, scanline(data, pitch, n / w), palette, n % w)
}

/// Whether there is a decoder for images of this colour type and bit depth.
pub open spec fn has_decoder(color_type: ColorType, bit_depth: int) -> bool {
    match color_type {
        ColorType::Unknown => false,
        ColorType::Greyscale => bit_depth == 1 || bit_depth == 2 || bit_depth == 4 || bit_depth
            == 8 || bit_depth == 16,
        ColorType::Truecolor => bit_depth == 8 || bit_depth == 16,
        ColorType::IndexedColor => bit_depth == 1 || bit_depth == 2 || bit_depth == 4
            || bit_depth == 8,
        ColorType::GreyscaleWithAlpha => bit_depth == 8,
        ColorType::TrueColorWithAlpha => bit_depth == 8 || bit_depth == 16,
    }
}

/// Pixel `k` of a scanline of unfiltered bytes in an image of the given
/// colour type and bit depth; `None` where a sample points outside the
/// palette, and where there is no decoder.
pub open spec fn format_pixel(
    color_type: ColorType,
    bit_depth: int,
    row: Seq<u8>,
    palette: Seq<Color>,
    k: int,
) -> Option<Color> {
    if !has_decoder(color_type, bit_depth) {
        None
    } else {
        match color_type {
            ColorType::Unknown => None,
            ColorType::IndexedColor => if bit_depth == 1 {
                row_pixel(OneBitIndexedColorDecoder, row, palette, k)
            } else if bit_depth == 2 {
                row_pixel(TwoBitIndexedColorDecoder, row, palette, k)
            } else if bit_depth == 4 {
                row_pixel(FourBitIndexedColorDecoder, row, palette, k)
            } else {
                row_pixel(EightBitIndexedColorDecoder, row, palette, k)
            },
            ColorType::Greyscale => if bit_depth == 1 {
                row_pixel(OneBitGreyscaleDecoder, row, palette, k)
            } else if bit_depth == 2 {
                row_pixel(TwoBitGreyscaleDecoder, row, palette, k)
            } else if bit_depth == 4 {
                row_pixel(FourBitGreyscaleDecoder, row, palette, k)
            } else if bit_depth == 8 {
                row_pixel(EightBitGreyscaleDecoder, row, palette, k)
            } else {
                row_pixel(SixteenBitGreyscaleDecoder, row, palette, k)
            },
            ColorType::GreyscaleWithAlpha => row_pixel(
                EightBitGreyscaleWithAlphaDecoder,
                row,
                palette,
                k,
            ),
            ColorType::Truecolor => if bit_depth == 8 {
                row_pixel(EightBitTrueColorDecoder, row, palette, k)
            } else {
                row_pixel(SixteenBitTrueColorDecoder, row, palette, k)
            },
            ColorType::TrueColorWithAlpha => if bit_depth == 8 {
                row_pixel(EightBitTrueColorWithAlphaDecoder, row, palette, k)
            } else {
                row_pixel(SixteenBitTrueColorWithAlphaDecoder, row, palette, k)
            },
        }
    }
}

/// In a greyscale image, with or without alpha, the three colour channels of
/// every pixel hold the same level.
pub proof fn lemma_greyscale_is_grey(
    color_type: ColorType,
    bit_depth: int,
    row: Seq<u8>,
    palette: Seq<Color>,
    k: int,
)
    requires
        color_type == ColorType::Greyscale || color_type == ColorType::GreyscaleWithAlpha,
    ensures
        format_pixel(color_type, bit_depth, row, palette, k) matches Some(pixel)
            ==> pixel.is_grey(),
{
}

/// In an image of a colour type without alpha, every pixel is opaque, the
/// entries of the palette being so.
pub proof fn lemma_no_alpha_is_opaque(
    color_type: ColorType,
    bit_depth: int,
    row: Seq<u8>,
    palette: Seq<Color>,
    k: int,
)
    requires
        !color_type.has_alpha(),
        forall|i: int| 0 <= i < palette.len() ==> (#[trigger] palette[i]).a == 255,
    ensures
        format_pixel(color_type, bit_depth, row, palette, k) matches Some(pixel) ==> pixel.a
            == 255,
{
}

/// Pixel `n` of a raster `w` pixels wide, row by row, in an image of the given
/// colour type and bit depth, out of a buffer of unfiltered scanlines.
pub open spec fn image_pixel(
    color_type: ColorType,
    bit_depth: int,
    data: Seq<u8>,
    pitch: int,
    palette: Seq<Color>,
    w: int,
    n: int,
) -> Option<Color> {
    format_pixel(color_type, bit_depth, scanline(data, pitch, n / w), palette, n % w)
}

/// Pixel `t` of step `j` of scanline `y` is pixel `j * pixels_per_step + t`
/// of that scanline, and the step's bytes are those from `x` on.
pub(crate) proof fn lemma_raster_pixel<D: PixelDecoder>(
    decoder: D,
    data: Seq<u8>,
    pitch: int,
    palette: Seq<Color>,
    w: int,
    y: int,
    j: int,
    t: int,
    x: int,
)
    requires
        0 <= y,
        0 <= j,
        0 <= t < decoder.pixels_per_step(),
        j * decoder.pixels_per_step() + t < w,
        decoder.step_len() >= 1,
        x == y * (pitch + 1) + 1 + j * decoder.step_len(),
        0 <= j * decoder.step_len(),
        j * decoder.step_len() + decoder.step_len() <= pitch,
        0 <= y * (pitch + 1),
        (y + 1) * (pitch + 1) <= data.len(),
        (y + 1) * (pitch + 1) == y * (pitch + 1) + pitch + 1,
    ensures
        raster_pixel(decoder, data, pitch, palette, w, y * w + j * decoder.pixels_per_step() + t)
            == decoder.step_pixel(data.subrange(x, x + decoder.step_len()), palette, t),
{
    let pps = decoder.pixels_per_step();
    let s = decoder.step_len();
    let k = j * pps + t;
    let n = y * w + k;
    assert(0 <= j * pps) by (nonlinear_arith)
        requires
            0 <= j,
            0 <= pps,
    ;
    vstd::arithmetic::div_mod::lemma_fundamental_div_mod_converse(k, pps, j, t);
    vstd::arithmetic::div_mod::lemma_fundamental_div_mod_converse(n, w, y, k);
    let row = scanline(data, pitch, y);
    assert(row.subrange(j * s, j * s + s) =~= data.subrange(x, x + s));
}

} // verus!
