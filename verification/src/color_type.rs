use vstd::prelude::*;
use vstd::std_specs::convert::FromSpecImpl;

verus! {

/// How the samples of an image are to be read: the colour type byte of the
/// image header.
#[derive(Clone, Copy, Debug, PartialEq, Eq, Structural)]
pub enum ColorType {
    Unknown,
    Greyscale,
    Truecolor,
    IndexedColor,
    GreyscaleWithAlpha,
    TrueColorWithAlpha,
}

/// The message for a colour type byte that names no colour type.
pub open spec fn msg_invalid_color_type() -> Seq<char> {
    "Invalid colour type, found: Unknown"@
}

/// The message for a bit depth that the colour type does not allow.
pub open spec fn msg_invalid_combination() -> Seq<char> {
    "Invalid color type and bit depth combination"@
}

impl ColorType {
    /// The colour type that the byte `b` of an image header names.
    pub open spec fn of_byte(b: u8) -> ColorType {
        if b == 0 {
            ColorType::Greyscale
        } else if b == 2 {
            ColorType::Truecolor
        } else if b == 3 {
            ColorType::IndexedColor
        } else if b == 4 {
            ColorType::GreyscaleWithAlpha
        } else if b == 6 {
            ColorType::TrueColorWithAlpha
        } else {
            ColorType::Unknown
        }
    }

    /// The bit depths that each colour type may come with.
    pub open spec fn allows_depth(self, bit_depth: u8) -> bool {
        match self {
            ColorType::Unknown => false,
            ColorType::Greyscale => bit_depth == 1 || bit_depth == 2 || bit_depth == 4
                || bit_depth == 8 || bit_depth == 16,
            ColorType::Truecolor => bit_depth == 8 || bit_depth == 16,
            ColorType::IndexedColor => bit_depth == 1 || bit_depth == 2 || bit_depth == 4
                || bit_depth == 8,
            ColorType::GreyscaleWithAlpha => bit_depth == 8 || bit_depth == 16,
            ColorType::TrueColorWithAlpha => bit_depth == 8 || bit_depth == 16,
        }
    }

    /// Whether each pixel of this colour type carries an alpha sample of its own.
    pub open spec fn has_alpha(self) -> bool {
        self == ColorType::GreyscaleWithAlpha || self == ColorType::TrueColorWithAlpha
    }

    /// How many samples make up one pixel.
    pub open spec fn channels(self) -> int {
        match self {
            ColorType::Unknown => 0,
            ColorType::Greyscale => 1,
            ColorType::Truecolor => 3,
            ColorType::IndexedColor => 1,
            ColorType::GreyscaleWithAlpha => 2,
            ColorType::TrueColorWithAlpha => 4,
        }
    }

    /// What `validate` answers: nothing for a colour type and bit depth that go
    /// together, else the message.
    pub open spec fn depth_error(self, bit_depth: u8) -> Option<Seq<char>> {
        if self == ColorType::Unknown {
            Some(msg_invalid_color_type())
        } else if !self.allows_depth(bit_depth) {
            Some(msg_invalid_combination())
        } else {
            None
        }
    }

    /// Asserts that the colour type and bit depth combination is one that the
    /// format allows.
    pub fn validate(&self, bit_depth: u8) -> (res: Result<(), String>)
        ensures
            res is Ok <==> self.allows_depth(bit_depth),
            match res {
                Ok(_) => self.depth_error(bit_depth) is None,
                Err(message) => self.depth_error(bit_depth) == Some(message@),
            },
    {
        if *self != ColorType::Greyscale && *self != ColorType::Truecolor && *self
            != ColorType::IndexedColor && *self != ColorType::GreyscaleWithAlpha && *self
            != ColorType::TrueColorWithAlpha {
            return Err("Invalid colour type, found: Unknown".to_string());
        }
        if *self == ColorType::Greyscale && (bit_depth != 1 && bit_depth != 2 && bit_depth != 4
            && bit_depth != 8 && bit_depth != 16) {
            return Err("Invalid color type and bit depth combination".to_string());
        }
        if *self == ColorType::Truecolor && (bit_depth != 8 && bit_depth != 16) {
            return Err("Invalid color type and bit depth combination".to_string());
        }
        if *self == ColorType::IndexedColor && (bit_depth != 1 && bit_depth != 2 && bit_depth != 4
            && bit_depth != 8) {
            return Err("Invalid color type and bit depth combination".to_string());
        }
        if *self == ColorType::GreyscaleWithAlpha && (bit_depth != 8 && bit_depth != 16) {
            return Err("Invalid color type and bit depth combination".to_string());
        }
        if *self == ColorType::TrueColorWithAlpha && (bit_depth != 8 && bit_depth != 16) {
            return Err("Invalid color type and bit depth combination".to_string());
        }
        Ok(())
    }

    /// The name of the colour type in words.
    pub open spec fn name(self) -> Seq<char> {
        match self {
            ColorType::Unknown => "Unknown"@,
            ColorType::Greyscale => "Greyscale"@,
            ColorType::Truecolor => "Truecolor"@,
            ColorType::IndexedColor => "Indexed-color"@,
            ColorType::GreyscaleWithAlpha => "Greyscale with alpha"@,
            ColorType::TrueColorWithAlpha => "Truecolor with alpha"@,
        }
    }

    /// The colour type written out for a reader.
    pub fn to_string(&self) -> (text: String)
        ensures
            text@ == self.name(),
    {
        match *self {
            ColorType::Unknown => "Unknown".to_string(),
            ColorType::Greyscale => "Greyscale".to_string(),
            ColorType::Truecolor => "Truecolor".to_string(),
            ColorType::IndexedColor => "Indexed-color".to_string(),
            ColorType::GreyscaleWithAlpha => "Greyscale with alpha".to_string(),
            ColorType::TrueColorWithAlpha => "Truecolor with alpha".to_string(),
        }
    }
}

impl From<u8> for ColorType {
    fn from(b: u8) -> (color_type: Self) {
        match b {
            0 => ColorType::Greyscale,
            2 => ColorType::Truecolor,
            3 => ColorType::IndexedColor,
            4 => ColorType::GreyscaleWithAlpha,
            6 => ColorType::TrueColorWithAlpha,
            _ => ColorType::Unknown,
        }
    }
}

impl FromSpecImpl<u8> for ColorType {
    open spec fn obeys_from_spec() -> bool {
        true
    }

    open spec fn from_spec(b: u8) -> Self {
        ColorType::of_byte(b)
    }
}

} // verus!
