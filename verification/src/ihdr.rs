use crate::color_type::ColorType;
use crate::helpers::{be_u32, read_unsigned_int};
use vstd::prelude::*;

verus! {

/// The description of an image that its header chunk gives.
#[derive(Clone, Copy, Debug, PartialEq, Eq, Structural)]
pub struct IHDR {
    pub width: usize,
    pub height: usize,
    pub bit_depth: u8,
    pub color_type: ColorType,
    pub compression_method: u8,
    pub filter_method: u8,
    pub interlace_method: u8,
}

pub type IHDRParseResult = Result<IHDR, String>;

/// The number of bytes in the payload of a header chunk.
pub const IHDR_LENGTH: usize = 13;

/// The message for a header payload that is not thirteen bytes long.
pub open spec fn msg_header_length() -> Seq<char> {
    "IHDR length invalid"@
}

/// The message for a compression method other than 0.
pub open spec fn msg_compression() -> Seq<char> {
    "Compression method invalid"@
}

/// The message for a filter method other than 0.
pub open spec fn msg_filter() -> Seq<char> {
    "Filter method invalid"@
}

/// The message for an interlace method that the format does not define.
pub open spec fn msg_interlace() -> Seq<char> {
    "Interlace method invalid"@
}

/// The message for an image that is interlaced.
pub open spec fn msg_interlaced() -> Seq<char> {
    "Interlaced PNGs are not currently supported."@
}

impl IHDR {
    /// A header with nothing in it yet.
    pub fn new() -> (ihdr: Self)
        ensures
            ihdr == IHDR::blank(),
    {
        IHDR {
            width: 0,
            height: 0,
            bit_depth: 0,
            color_type: ColorType::Unknown,
            compression_method: 0,
            filter_method: 0,
            interlace_method: 0,
        }
    }

    pub open spec fn blank() -> IHDR {
        IHDR {
            width: 0,
            height: 0,
            bit_depth: 0,
            color_type: ColorType::Unknown,
            compression_method: 0,
            filter_method: 0,
            interlace_method: 0,
        }
    }

    /// The fields as the thirteen bytes of a header payload spell them: width
    /// and height big-endian in four bytes each, then one byte for each of bit
    /// depth, colour type, compression, filter and interlace method.
    pub open spec fn of_payload(data: Seq<u8>) -> IHDR {
        IHDR {
            width: be_u32(data.subrange(0, 4)) as usize,
            height: be_u32(data.subrange(4, 8)) as usize,
            bit_depth: data[8],
            color_type: ColorType::of_byte(data[9]),
            compression_method: data[10],
            filter_method: data[11],
            interlace_method: data[12],
        }
    }

    /// The first rule that the fields break, as the message that names it;
    /// `None` for a header that this library can decode.
    pub open spec fn field_error(self) -> Option<Seq<char>> {
        if self.color_type.depth_error(self.bit_depth) is Some {
            self.color_type.depth_error(self.bit_depth)
        } else if self.compression_method != 0 {
            Some(msg_compression())
        } else if self.filter_method != 0 {
            Some(msg_filter())
        } else if self.interlace_method > 1 {
            Some(msg_interlace())
        } else if self.interlace_method != 0 {
            Some(msg_interlaced())
        } else {
            None
        }
    }

    /// A header that a decoder can go on with: a colour type and bit depth
    /// that go together, and the one compression, filter and interlace method
    /// that are supported.
    pub open spec fn valid(self) -> bool {
        &&& self.color_type.allows_depth(self.bit_depth)
        &&& self.compression_method == 0
        &&& self.filter_method == 0
        &&& self.interlace_method == 0
    }
}

/// What `parse` makes of a payload: the header, or the message that names the
/// field at fault.
pub open spec fn parsed(data: Seq<u8>) -> Result<IHDR, Seq<char>> {
    if data.len() != IHDR_LENGTH {
        Err(msg_header_length())
    } else {
        match IHDR::of_payload(data).field_error() {
            Some(message) => Err(message),
            None => Ok(IHDR::of_payload(data)),
        }
    }
}

/// Reads the payload of a header chunk and checks its fields.
pub fn parse(data: &[u8]) -> (res: IHDRParseResult)
    ensures
        match res {
            Ok(ihdr) => parsed(data@) == Ok::<IHDR, Seq<char>>(ihdr) && ihdr.valid(),
            Err(message) => parsed(data@) == Err::<IHDR, Seq<char>>(message@),
        },
{
    if data.len() != IHDR_LENGTH {
        return Err("IHDR length invalid".to_string());
    }
    let mut ihdr = IHDR::new();

    ihdr.width = read_unsigned_int(&data[0..4]) as usize;
    ihdr.height = read_unsigned_int(&data[4..8]) as usize;

    ihdr.bit_depth = data[8];
    ihdr.color_type = ColorType::from(data[9]);
    ihdr.compression_method = data[10];
    ihdr.filter_method = data[11];
    ihdr.interlace_method = data[12];

    if let Err(message) = ihdr.color_type.validate(ihdr.bit_depth) {
        return Err(message);
    }
    if ihdr.compression_method != 0 {
        return Err("Compression method invalid".to_string());
    }
    if ihdr.filter_method != 0 {
        return Err("Filter method invalid".to_string());
    }
    if ihdr.interlace_method > 1 {
        return Err("Interlace method invalid".to_string());
    }
    if ihdr.interlace_method != 0 {
        return Err("Interlaced PNGs are not currently supported.".to_string());
    }
    Ok(ihdr)
}

/// A header that `parse` accepts is a valid one, and the reverse.
pub proof fn lemma_parsed_valid(data: Seq<u8>)
    ensures
        parsed(data) is Ok <==> data.len() == IHDR_LENGTH && IHDR::of_payload(data).valid(),
{
}

} // verus!
