use vstd::prelude::*;

verus! {

/// The kinds of chunk that the format defines.
#[derive(Clone, Copy, Debug, PartialEq, Eq, Structural)]
pub enum PngChunkType {
    // Critical
    ImageHeader,
    Palette,
    ImageData,
    End,
    // Ancillary
    Chromaticity,
    Gamma,
    ICCProfile,
    SignificantBits,
    RGBColorSpace,
    BackgroundColor,
    Histogram,
    Transparency,
    PhysicalPixelDimensions,
    SuggestedPalette,
    LastModifiedTime,
    InternationalTextualData,
    TextualData,
    CompressedTextualData,
}

/// Whether `code` is the four bytes `a`, `b`, `c`, `d`.
pub open spec fn spells(code: Seq<u8>, a: u8, b: u8, c: u8, d: u8) -> bool {
    code.len() == 4 && code[0] == a && code[1] == b && code[2] == c && code[3] == d
}

fn is_code(code: &[u8], a: u8, b: u8, c: u8, d: u8) -> (same: bool)
    ensures
        same == spells(code@, a, b, c, d),
{
    code.len() == 4 && code[0] == a && code[1] == b && code[2] == c && code[3] == d
}

impl PngChunkType {
    /// The kind of chunk that a four-byte type code names, if the format
    /// defines it. The codes are ASCII: `IHDR`, `PLTE`, `IDAT`, `IEND`, `cHRM`,
    /// `gAMA`, `iCCP`, `sBIT`, `sRGB`, `bKGD`, `hIST`, `tRNS`, `pHYs`, `sPLT`,
    /// `tIME`, `iTXt`, `tEXt` and `zTXt`.
    pub open spec fn of_code(code: Seq<u8>) -> Option<PngChunkType> {
        if spells(code, 73, 72, 68, 82) {
            Some(PngChunkType::ImageHeader)
        } else if spells(code, 80, 76, 84, 69) {
            Some(PngChunkType::Palette)
        } else if spells(code, 73, 68, 65, 84) {
            Some(PngChunkType::ImageData)
        } else if spells(code, 73, 69, 78, 68) {
            Some(PngChunkType::End)
        } else if spells(code, 99, 72, 82, 77) {
            Some(PngChunkType::Chromaticity)
        } else if spells(code, 103, 65, 77, 65) {
            Some(PngChunkType::Gamma)
        } else if spells(code, 105, 67, 67, 80) {
            Some(PngChunkType::ICCProfile)
        } else if spells(code, 115, 66, 73, 84) {
            Some(PngChunkType::SignificantBits)
        } else if spells(code, 115, 82, 71, 66) {
            Some(PngChunkType::RGBColorSpace)
        } else if spells(code, 98, 75, 71, 68) {
            Some(PngChunkType::BackgroundColor)
        } else if spells(code, 104, 73, 83, 84) {
            Some(PngChunkType::Histogram)
        } else if spells(code, 116, 82, 78, 83) {
            Some(PngChunkType::Transparency)
        } else if spells(code, 112, 72, 89, 115) {
            Some(PngChunkType::PhysicalPixelDimensions)
        } else if spells(code, 115, 80, 76, 84) {
            Some(PngChunkType::SuggestedPalette)
        } else if spells(code, 116, 73, 77, 69) {
            Some(PngChunkType::LastModifiedTime)
        } else if spells(code, 105, 84, 88, 116) {
            Some(PngChunkType::InternationalTextualData)
        } else if spells(code, 116, 69, 88, 116) {
            Some(PngChunkType::TextualData)
        } else if spells(code, 122, 84, 88, 116) {
            Some(PngChunkType::CompressedTextualData)
        } else {
            None
        }
    }

    /// Tells which kind of chunk a type code names; `None` for a code that
    /// the format does not define.
    pub fn from_code(code: &[u8]) -> (kind: Option<PngChunkType>)
        ensures
            kind == PngChunkType::of_code(code@),
    {
        if is_code(code, 73, 72, 68, 82) {
            Some(PngChunkType::ImageHeader)
        } else if is_code(code, 80, 76, 84, 69) {
            Some(PngChunkType::Palette)
        } else if is_code(code, 73, 68, 65, 84) {
            Some(PngChunkType::ImageData)
        } else if is_code(code, 73, 69, 78, 68) {
            Some(PngChunkType::End)
        } else if is_code(code, 99, 72, 82, 77) {
            Some(PngChunkType::Chromaticity)
        } else if is_code(code, 103, 65, 77, 65) {
            Some(PngChunkType::Gamma)
        } else if is_code(code, 105, 67, 67, 80) {
            Some(PngChunkType::ICCProfile)
        } else if is_code(code, 115, 66, 73, 84) {
            Some(PngChunkType::SignificantBits)
        } else if is_code(code, 115, 82, 71, 66) {
            Some(PngChunkType::RGBColorSpace)
        } else if is_code(code, 98, 75, 71, 68) {
            Some(PngChunkType::BackgroundColor)
        } else if is_code(code, 104, 73, 83, 84) {
            Some(PngChunkType::Histogram)
        } else if is_code(code, 116, 82, 78, 83) {
            Some(PngChunkType::Transparency)
        } else if is_code(code, 112, 72, 89, 115) {
            Some(PngChunkType::PhysicalPixelDimensions)
        } else if is_code(code, 115, 80, 76, 84) {
            Some(PngChunkType::SuggestedPalette)
        } else if is_code(code, 116, 73, 77, 69) {
            Some(PngChunkType::LastModifiedTime)
        } else if is_code(code, 105, 84, 88, 116) {
            Some(PngChunkType::InternationalTextualData)
        } else if is_code(code, 116, 69, 88, 116) {
            Some(PngChunkType::TextualData)
        } else if is_code(code, 122, 84, 88, 116) {
            Some(PngChunkType::CompressedTextualData)
        } else {
            None
        }
    }
}

} // verus!
