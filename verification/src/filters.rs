use crate::png::PngFile;
use vstd::prelude::*;

verus! {

/// The distance between two integers.
pub open spec fn distance(x: int, y: int) -> int {
    if x < y {
        y - x
    } else {
        x - y
    }
}

/// The Paeth predictor: of the left neighbour `a`, the upper neighbour `b` and
/// the upper left neighbour `c`, the one nearest to `a + b - c`; where two are
/// equally near, `a` before `b` before `c`.
pub open spec fn paeth_predictor(a: int, b: int, c: int) -> int {
    let p = a + b - c;
    let pa = distance(p, a);
    let pb = distance(p, b);
    let pc = distance(p, c);
    if pa <= pb && pa <= pc {
        a
    } else if pb <= pc {
        b
    } else {
        c
    }
}

/// What the filter of type `filter_type` predicts for a byte from its three
/// neighbours. Type 0 (None) and every type that the format does not define
/// predict nothing.
pub open spec fn predictor(filter_type: u8, a: int, b: int, c: int) -> int {
    if filter_type == 1 {
        a
    } else if filter_type == 2 {
        b
    } else if filter_type == 3 {
        (a + b) / 2
    } else if filter_type == 4 {
        paeth_predictor(a, b, c)
    } else {
        0
    }
}

/// The byte that was filtered to `x`: `x` plus the prediction, modulo 256.
pub open spec fn reconstruct(filter_type: u8, x: u8, a: int, b: int, c: int) -> u8 {
    ((x as int + predictor(filter_type, a, b, c)) % 256) as u8
}

/// The byte that `raw` is filtered to: `raw` minus the prediction, modulo 256.
pub open spec fn filter(filter_type: u8, raw: u8, a: int, b: int, c: int) -> u8 {
    ((raw as int - predictor(filter_type, a, b, c)) % 256) as u8
}

/// The unfiltered byte at position `i` of a scanline whose filtered bytes are
/// `cur`, below the scanline `prior` of unfiltered bytes. The left neighbours
/// stand `bpp` bytes back; a neighbour before the start of the scanline is 0.
pub open spec fn unfiltered_byte(
    filter_type: u8,
    cur: Seq<u8>,
    prior: Seq<u8>,
    bpp: int,
    i: int,
) -> u8
    decreases i,
{
    if bpp < 1 || i < 0 {
        0
    } else {
        let a = if i >= bpp {
            unfiltered_byte(filter_type, cur, prior, bpp, i - bpp) as int
        } else {
            0
        };
        let b = prior[i] as int;
        let c = if i >= bpp {
            prior[i - bpp] as int
        } else {
            0
        };
        reconstruct(filter_type, cur[i], a, b, c)
    }
}

/// The unfiltered bytes of a scanline.
pub open spec fn unfiltered_row(
    filter_type: u8,
    cur: Seq<u8>,
    prior: Seq<u8>,
    bpp: int,
) -> Seq<u8> {
    Seq::new(cur.len(), |i: int| unfiltered_byte(filter_type, cur, prior, bpp, i))
}

/// The filtered bytes of a scanline whose unfiltered bytes are `raw`, below
/// the scanline `prior` of unfiltered bytes.
pub open spec fn filtered_row(filter_type: u8, raw: Seq<u8>, prior: Seq<u8>, bpp: int) -> Seq<u8> {
    Seq::new(
        raw.len(),
        |i: int|
            filter(
                filter_type,
                raw[i],
                if i >= bpp {
                    raw[i - bpp] as int
                } else {
                    0
                },
                prior[i] as int,
                if i >= bpp {
                    prior[i - bpp] as int
                } else {
                    0
                },
            ),
    )
}

/// A scanline of zeros: what stands above the first scanline of an image.
pub open spec fn zeros(pitch: int) -> Seq<u8> {
    Seq::new(pitch as nat, |i: int| 0u8)
}

/// The scanline above the one that starts at `start`: the `pitch` bytes that
/// end one byte before `start`, or zeros for the first scanline.
pub open spec fn prior_row(data: Seq<u8>, start: int, pitch: int, has_prior: bool) -> Seq<u8> {
    if has_prior {
        data.subrange(start - pitch - 1, start - 1)
    } else {
        zeros(pitch)
    }
}

/// The bytes of scanline `y` in a buffer of scanlines, each of them one byte
/// of filter type and `pitch` bytes of samples.
pub open spec fn scanline(data: Seq<u8>, pitch: int, y: int) -> Seq<u8> {
    data.subrange(y * (pitch + 1) + 1, (y + 1) * (pitch + 1))
}

/// The filter type byte of scanline `y`.
pub open spec fn filter_type_of(data: Seq<u8>, pitch: int, y: int) -> u8 {
    data[y * (pitch + 1)]
}

/// The unfiltered bytes of scanline `y` of a buffer of filtered scanlines:
/// unfiltered below the unfiltered scanline above it, the first one below
/// zeros.
pub open spec fn unfiltered_scanline(data: Seq<u8>, pitch: int, bpp: int, y: int) -> Seq<u8>
    decreases y + 1,
{
    if y < 0 {
        zeros(pitch)
    } else {
        unfiltered_row(
            filter_type_of(data, pitch, y),
            scanline(data, pitch, y),
            unfiltered_scanline(data, pitch, bpp, y - 1),
            bpp,
        )
    }
}

/// Whether each of the first `h` scanlines names a filter that the format
/// defines: None, Sub, Up, Average or Paeth.
pub open spec fn filters_known(data: Seq<u8>, pitch: int, h: int) -> bool {
    forall|y: int| 0 <= y < h ==> #[trigger] filter_type_of(data, pitch, y) <= 4
}

/// That `after` is `before` with its first `h` scanlines unfiltered: the
/// filter type bytes and what follows the scanlines are as they were.
pub open spec fn is_unfiltered(
    before: Seq<u8>,
    after: Seq<u8>,
    pitch: int,
    bpp: int,
    h: int,
) -> bool {
    &&& after.len() == before.len()
    &&& forall|y: int|
        0 <= y < h ==> #[trigger] scanline(after, pitch, y) == unfiltered_scanline(
            before,
            pitch,
            bpp,
            y,
        )
    &&& forall|y: int|
        0 <= y < h ==> #[trigger] filter_type_of(after, pitch, y) == filter_type_of(
            before,
            pitch,
            y,
        )
    &&& forall|k: int| h * (pitch + 1) <= k < before.len() ==> #[trigger] after[k] == before[k]
}

/// That `after` is `before` with the `pitch` bytes from `start` unfiltered,
/// and nothing else changed.
pub open spec fn row_unfiltered(
    filter_type: u8,
    before: Seq<u8>,
    after: Seq<u8>,
    start: int,
    pitch: int,
    bpp: int,
    has_prior: bool,
) -> bool {
    &&& after.len() == before.len()
    &&& forall|i: int|
        0 <= i < pitch ==> #[trigger] after[start + i] == unfiltered_byte(
            filter_type,
            before.subrange(start, start + pitch),
            prior_row(before, start, pitch, has_prior),
            bpp,
            i,
        )
    &&& forall|k: int|
        0 <= k < before.len() && !(start <= k < start + pitch) ==> #[trigger] after[k] == before[k]
}

/// The Paeth predictor does not tell its left neighbour from its upper one:
/// with the two exchanged it predicts the same value.
pub proof fn lemma_paeth_symmetric(a: int, b: int, c: int)
    ensures
        paeth_predictor(a, b, c) == paeth_predictor(b, a, c),
{
}

/// The Paeth predictor picks a neighbour that is nearest to `a + b - c`, and
/// among the nearest ones `a` before `b` before `c`.
pub proof fn lemma_paeth_nearest(a: int, b: int, c: int)
    ensures
        ({
            let p = a + b - c;
            let chosen = paeth_predictor(a, b, c);
            &&& chosen == a || chosen == b || chosen == c
            &&& distance(p, chosen) <= distance(p, a)
            &&& distance(p, chosen) <= distance(p, b)
            &&& distance(p, chosen) <= distance(p, c)
            &&& distance(p, a) == distance(p, chosen) ==> chosen == a
            &&& distance(p, a) != distance(p, chosen) && distance(p, b) == distance(p, chosen)
                ==> chosen == b
        }),
{
}

/// Unfiltering a byte that was filtered with the same neighbours gives the
/// byte back.
pub proof fn lemma_reconstruct_inverts_filter(filter_type: u8, raw: u8, a: int, b: int, c: int)
    ensures
        reconstruct(filter_type, filter(filter_type, raw, a, b, c), a, b, c) == raw,
{
}

/// Byte by byte, what is unfiltered from the filtered form of a scanline is
/// the scanline.
proof fn lemma_unfiltered_byte_of_filtered(
    filter_type: u8,
    raw: Seq<u8>,
    prior: Seq<u8>,
    bpp: int,
    i: int,
)
    requires
        bpp >= 1,
        0 <= i < raw.len(),
    ensures
        unfiltered_byte(filter_type, filtered_row(filter_type, raw, prior, bpp), prior, bpp, i)
            == raw[i],
    decreases i,
{
    if i >= bpp {
        lemma_unfiltered_byte_of_filtered(filter_type, raw, prior, bpp, i - bpp);
    }
    let a = if i >= bpp {
        raw[i - bpp] as int
    } else {
        0
    };
    let b = prior[i] as int;
    let c = if i >= bpp {
        prior[i - bpp] as int
    } else {
        0
    };
    lemma_reconstruct_inverts_filter(filter_type, raw[i], a, b, c);
}

/// Filter reversal undoes filtering: the forward filter applied to a
/// scanline, and then its reversal, give the scanline back, whatever the
/// filter type and the scanline above.
pub proof fn lemma_unfilter_inverts_filter(filter_type: u8, raw: Seq<u8>, prior: Seq<u8>, bpp: int)
    requires
        bpp >= 1,
    ensures
        unfiltered_row(filter_type, filtered_row(filter_type, raw, prior, bpp), prior, bpp) == raw,
{
    let filtered = filtered_row(filter_type, raw, prior, bpp);
    assert forall|i: int| 0 <= i < raw.len() implies unfiltered_byte(
        filter_type,
        filtered,
        prior,
        bpp,
        i,
    ) == raw[i] by {
        lemma_unfiltered_byte_of_filtered(filter_type, raw, prior, bpp, i);
    }
    assert(unfiltered_row(filter_type, filtered, prior, bpp) =~= raw);
}

/// The reversal of one kind of filter over one scanline.
pub trait Filter {
    /// The byte that announces this filter at the head of a scanline.
    spec fn filter_type(&self) -> u8;

    /// Unfilters in place the scanline of `png.pitch` bytes that starts at
    /// `start`. The scanline above it, if `row` is not 0, is unfiltered
    /// already and ends one byte before `start`.
    fn apply(&self, data: &mut [u8], start: usize, row: usize, png: &PngFile)
        requires
            png.bytes_per_pixel >= 1 || png.pitch == 0,
            start + png.pitch <= old(data)@.len(),
            row > 0 ==> png.pitch + 1 <= start,
        ensures
            row_unfiltered(
                self.filter_type(),
                old(data)@,
                final(data)@,
                start as int,
                png.pitch as int,
                png.bytes_per_pixel as int,
                row > 0,
            ),
    ;
}

/// The filter None: the bytes stand as they are.
pub struct NoFilter;

impl Filter for NoFilter {
    open spec fn filter_type(&self) -> u8 {
        0
    }

    fn apply(&self, _data: &mut [u8], _start: usize, _row: usize, _png: &PngFile) {
        // No op
    }
}

/// The filter Sub: each byte less its left neighbour.
pub struct Sub;

impl Filter for Sub {
    open spec fn filter_type(&self) -> u8 {
        1
    }

    fn apply(&self, data: &mut [u8], start: usize, row: usize, png: &PngFile) {
        let ghost before = data@;
        let ghost prior = prior_row(before, start as int, png.pitch as int, row > 0);
        let len = data.len();
        let mut i: usize = 0;
        while i < png.pitch
            invariant
                i <= png.pitch,
                png.bytes_per_pixel >= 1 || png.pitch == 0,
                start + png.pitch <= len,
                len == before.len(),
                data@.len() == before.len(),
                forall|k: int|
                    0 <= k < i ==> #[trigger] data@[start + k] == unfiltered_byte(
                        1,
                        before.subrange(start as int, start + png.pitch),
                        prior,
                        png.bytes_per_pixel as int,
                        k,
                    ),
                forall|k: int|
                    0 <= k < before.len() && !(start <= k < start + i) ==> #[trigger] data@[k]
                        == before[k],
            decreases png.pitch - i,
        {
            let x = start + i;
            if x - start > png.bytes_per_pixel - 1 {
                assert(data@[start + (i - png.bytes_per_pixel)] == data@[x - png.bytes_per_pixel]);
                let result = data[x] as u32 + data[x - png.bytes_per_pixel] as u32;
                data[x] = (result % 256) as u8;
            }
            i += 1;
        }
    }
}

/// The filter Up: each byte less its upper neighbour.
pub struct Up;

impl Filter for Up {
    open spec fn filter_type(&self) -> u8 {
        2
    }

    fn apply(&self, data: &mut [u8], start: usize, row: usize, png: &PngFile) {
        let ghost before = data@;
        let ghost prior = prior_row(before, start as int, png.pitch as int, row > 0);
        let len = data.len();
        let mut i: usize = 0;
        while i < png.pitch
            invariant
                i <= png.pitch,
                png.bytes_per_pixel >= 1 || png.pitch == 0,
                start + png.pitch <= len,
                row > 0 ==> png.pitch + 1 <= start,
                len == before.len(),
                data@.len() == before.len(),
                prior == prior_row(before, start as int, png.pitch as int, row > 0),
                forall|k: int|
                    0 <= k < i ==> #[trigger] data@[start + k] == unfiltered_byte(
                        2,
                        before.subrange(start as int, start + png.pitch),
                        prior,
                        png.bytes_per_pixel as int,
                        k,
                    ),
                forall|k: int|
                    0 <= k < before.len() && !(start <= k < start + i) ==> #[trigger] data@[k]
                        == before[k],
            decreases png.pitch - i,
        {
            let x = start + i;
            let pixel_above = if row > 0 {
                // one scanline back: its bytes and the filter type of this one
                data[x - (png.pitch + 1)]
            } else {
                0
            };
            let pixel = data[x];
            data[x] = ((pixel as u16 + pixel_above as u16) % 256) as u8;
            i += 1;
        }
    }
}

/// The filter Average: each byte less the mean of its left and upper neighbours, rounded down.
pub struct Average;

impl Filter for Average {
    open spec fn filter_type(&self) -> u8 {
        3
    }

    fn apply(&self, data: &mut [u8], start: usize, row: usize, png: &PngFile) {
        let ghost before = data@;
        let ghost prior = prior_row(before, start as int, png.pitch as int, row > 0);
        let len = data.len();
        let mut i: usize = 0;
        while i < png.pitch
            invariant
                i <= png.pitch,
                png.bytes_per_pixel >= 1 || png.pitch == 0,
                start + png.pitch <= len,
                row > 0 ==> png.pitch + 1 <= start,
                len == before.len(),
                data@.len() == before.len(),
                prior == prior_row(before, start as int, png.pitch as int, row > 0),
                forall|k: int|
                    0 <= k < i ==> #[trigger] data@[start + k] == unfiltered_byte(
                        3,
                        before.subrange(start as int, start + png.pitch),
                        prior,
                        png.bytes_per_pixel as int,
                        k,
                    ),
                forall|k: int|
                    0 <= k < before.len() && !(start <= k < start + i) ==> #[trigger] data@[k]
                        == before[k],
            decreases png.pitch - i,
        {
            let x = start + i;
            let pixel_above = if row > 0 {
                data[x - (png.pitch + 1)]
            } else {
                0
            };
            let pixel = data[x];
            let west_pixel = if x - start > png.bytes_per_pixel - 1 {
                assert(data@[start + (i - png.bytes_per_pixel)] == data@[x - png.bytes_per_pixel]);
                data[x - png.bytes_per_pixel]
            } else {
                0
            };
            let result = pixel as u32 + (west_pixel as u32 + pixel_above as u32) / 2;
            data[x] = (result % 256) as u8;
            i += 1;
        }
    }
}

/// The filter Paeth: each byte less what the Paeth predictor picks among its neighbours.
pub struct Paeth;

impl Filter for Paeth {
    open spec fn filter_type(&self) -> u8 {
        4
    }

    fn apply(&self, data: &mut [u8], start: usize, row: usize, png: &PngFile) {
        let ghost before = data@;
        let ghost prior = prior_row(before, start as int, png.pitch as int, row > 0);
        let len = data.len();
        let mut i: usize = 0;
        while i < png.pitch
            invariant
                i <= png.pitch,
                png.bytes_per_pixel >= 1 || png.pitch == 0,
                start + png.pitch <= len,
                row > 0 ==> png.pitch + 1 <= start,
                len == before.len(),
                data@.len() == before.len(),
                prior == prior_row(before, start as int, png.pitch as int, row > 0),
                forall|k: int|
                    0 <= k < i ==> #[trigger] data@[start + k] == unfiltered_byte(
                        4,
                        before.subrange(start as int, start + png.pitch),
                        prior,
                        png.bytes_per_pixel as int,
                        k,
                    ),
                forall|k: int|
                    0 <= k < before.len() && !(start <= k < start + i) ==> #[trigger] data@[k]
                        == before[k],
            decreases png.pitch - i,
        {
            let x = start + i;
            let has_left = x - start > png.bytes_per_pixel - 1;
            let upper_left: i32 = if has_left && row > 0 {
                data[x - (png.pitch + 1) - png.bytes_per_pixel] as i32
            } else {
                0
            };
            let above: i32 = if row > 0 {
                data[x - (png.pitch + 1)] as i32
            } else {
                0
            };
            let left: i32 = if has_left {
                assert(data@[start + (i - png.bytes_per_pixel)] == data@[x - png.bytes_per_pixel]);
                data[x - png.bytes_per_pixel] as i32
            } else {
                0
            };

            let p: i32 = left + above - upper_left;
            let pa: i32 = if p < left {
                left - p
            } else {
                p - left
            };
            let pb: i32 = if p < above {
                above - p
            } else {
                p - above
            };
            let pc: i32 = if p < upper_left {
                upper_left - p
            } else {
                p - upper_left
            };
            let predicted: i32 = if pa <= pb && pa <= pc {
                left
            } else if pb <= pc {
                above
            } else {
                upper_left
            };
            assert(predicted == paeth_predictor(left as int, above as int, upper_left as int));
            assert(above == prior[i as int]);
            assert(has_left ==> upper_left == prior[i - png.bytes_per_pixel]);
            data[x] = ((data[x] as i32 + predicted) % 256) as u8;
            i += 1;
        }
    }
}

} // verus!
