use vstd::prelude::*;

verus! {

/// The number that four bytes spell when read big-endian, most significant
/// byte first.
pub open spec fn be_u32(s: Seq<u8>) -> int {
    s[0] as int * 0x100_0000 + s[1] as int * 0x1_0000 + s[2] as int * 0x100 + s[3] as int
}

/// Gathers four bytes, already widened, into one word.
proof fn lemma_gather_be(b0: u32, b1: u32, b2: u32, b3: u32)
    by (bit_vector)
    requires
        b0 < 256,
        b1 < 256,
        b2 < 256,
        b3 < 256,
    ensures
        (b3 | b2 << 8 | b1 << 16 | b0 << 24) == b0 * 0x100_0000 + b1 * 0x1_0000 + b2 * 0x100 + b3,
{
}

/// Reads an unsigned 32-bit integer from the first four bytes of `buf`,
/// most significant byte first.
pub fn read_unsigned_int(buf: &[u8]) -> (r: u32)
    requires
        buf@.len() >= 4,
    ensures
        r == be_u32(buf@),
{
    let b0: u32 = buf[0] as u32;
    let b1: u32 = buf[1] as u32;
    let b2: u32 = buf[2] as u32;
    let b3: u32 = buf[3] as u32;
    proof {
        lemma_gather_be(b0, b1, b2, b3);
    }
    b3 | b2 << 8 | b1 << 16 | b0 << 24
}

} // verus!
