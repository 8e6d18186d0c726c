use vstd::prelude::*;
use crate::color::{color_of, color_spec, Rgb};

verus! {

/// Number of bytes of an RGBA image of the given size: four per pixel.
pub open spec fn image_size(width: nat, height: nat) -> nat {
    width * height * 4
}

/// Size in bytes of the buffer that holds a `width` x `height` RGBA image.
pub fn image_data_size(width: usize, height: usize) -> (r: usize)
    requires
        image_size(width as nat, height as nat) <= usize::MAX,
    ensures
        r == image_size(width as nat, height as nat),
{
    width * height * 4
}

/// A zero-filled buffer of `size` bytes, owned by the caller.
pub fn create_array(size: usize) -> (r: Vec<u8>)
    ensures
        r@ == Seq::new(size as nat, |i: int| 0u8),
{
    let mut data: Vec<u8> = Vec::new();
    let mut i: usize = 0;
    while i < size
        invariant
            i <= size,
            data@ == Seq::new(i as nat, |j: int| 0u8),
        decreases size - i,
    {
        data.push(0u8);
        i = i + 1;
        assert(data@ =~= Seq::new(i as nat, |j: int| 0u8));
    }
    data
}

/// Offset of the first byte of the pixel at (`row`, `col`) in a row-major
/// RGBA image `width` pixels wide.
pub fn pixel_offset(width: usize, row: usize, col: usize) -> (r: usize)
    requires
        (row * width + col) * 4 <= usize::MAX,
    ensures
        r == (row * width + col) * 4,
{
    (row * width + col) * 4
}

} // verus!

verus! {

/// Why a render request was turned down before anything was written.
#[derive(Clone, Copy, Debug, PartialEq, Eq, Structural)]
pub enum RenderError {
    /// A zero dimension, a size beyond the address space, a buffer too
    /// short for the image, or counts that do not cover the raster.
    InvalidParameters,
}

/// Byte `k` (0 red, 1 green, 2 blue, 3 alpha) of a colour written as RGBA.
pub open spec fn channel_byte(c: Rgb, k: int) -> u8 {
    if k == 0 {
        c.r
    } else if k == 1 {
        c.g
    } else if k == 2 {
        c.b
    } else {
        255
    }
}

/// Byte `i` of the image whose pixel `p`, in row-major order, has the
/// iteration count `counts[p]`.
pub open spec fn image_byte(counts: Seq<usize>, palette: Seq<Rgb>, i: int) -> u8 {
    channel_byte(color_spec(counts[i / 4] as nat, palette), i % 4)
}

/// When a request to paint a `width` x `height` image into a buffer of
/// `buf_len` bytes from `counts_len` iteration counts is carried out.
pub open spec fn valid_request(width: nat, height: nat, buf_len: nat, counts_len: nat) -> bool {
    &&& width > 0
    &&& height > 0
    &&& image_size(width, height) <= usize::MAX
    &&& buf_len >= image_size(width, height)
    &&& counts_len == width * height
}

/// `after` is `before` with the first `width * height * 4` bytes replaced
/// by the RGBA image of `counts`, and nothing else touched.
pub open spec fn painted(
    before: Seq<u8>,
    after: Seq<u8>,
    width: nat,
    height: nat,
    counts: Seq<usize>,
    palette: Seq<Rgb>,
) -> bool {
    &&& after.len() == before.len()
    &&& forall|i: int|
        0 <= i < image_size(width, height) ==> #[trigger] after[i] == image_byte(
            counts,
            palette,
            i,
        )
    &&& forall|i: int| image_size(width, height) <= i < after.len() ==> #[trigger] after[i] == before[i]
}

/// Writes the RGBA image of a `width` x `height` raster into the front of
/// `buf`. `counts[row * width + col]` is the iteration count of the pixel at
/// (`row`, `col`); its colour is `palette[count]`, or black where the count is
/// `palette.len()` or more. Alpha is always 255. On an invalid request the
/// buffer is left as it was.
pub fn paint(
    buf: &mut Vec<u8>,
    width: usize,
    height: usize,
    counts: &Vec<usize>,
    palette: &Vec<Rgb>,
) -> (r: Result<(), RenderError>)
    ensures
        r is Ok <==> valid_request(
            width as nat,
            height as nat,
            old(buf)@.len(),
            counts@.len(),
        ),
        r is Ok ==> painted(
            old(buf)@,
            final(buf)@,
            width as nat,
            height as nat,
            counts@,
            palette@,
        ),
        r is Err ==> final(buf)@ == old(buf)@ && r == Err::<(), RenderError>(
            RenderError::InvalidParameters,
        ),
{
    if width == 0 || height == 0 || width > usize::MAX / 4 / height {
        proof {
            if width > 0 && height > 0 && width > usize::MAX / 4 / height {
                assert(width * height * 4 > usize::MAX) by (nonlinear_arith)
                    requires
                        width > usize::MAX / 4 / height,
                        height > 0,
                ;
            }
        }
        return Err(RenderError::InvalidParameters);
    }
    proof {
        assert(width * height * 4 <= usize::MAX) by (nonlinear_arith)
            requires
                width <= usize::MAX / 4 / height,
                height > 0,
        ;
    }
    let n_pixels: usize = width * height;
    if buf.len() < n_pixels * 4 || counts.len() != n_pixels {
        return Err(RenderError::InvalidParameters);
    }
    let ghost before = buf@;
    assert(width <= n_pixels) by (nonlinear_arith)
        requires
            n_pixels == width * height,
            height > 0,
    ;
    let mut row: usize = 0;
    let mut p: usize = 0;
    while row < height
        invariant
            buf@.len() == before.len(),
            n_pixels == width * height,
            n_pixels * 4 <= before.len(),
            n_pixels * 4 <= usize::MAX,
            counts@.len() == n_pixels,
            row <= height,
            p == row * width,
            p <= n_pixels,
            row < height ==> p + width <= n_pixels,
            forall|i: int| 0 <= i < p * 4 ==> #[trigger] buf@[i] == image_byte(counts@, palette@, i),
            forall|i: int| p * 4 <= i < buf@.len() ==> #[trigger] buf@[i] == before[i],
        decreases height - row,
    {
        let mut col: usize = 0;
        while col < width
            invariant
                buf@.len() == before.len(),
                n_pixels == width * height,
                n_pixels * 4 <= before.len(),
                n_pixels * 4 <= usize::MAX,
                counts@.len() == n_pixels,
                row < height,
                col <= width,
                p == row * width + col,
                p + (width - col) <= n_pixels,
                forall|i: int| 0 <= i < p * 4 ==> #[trigger] buf@[i] == image_byte(counts@, palette@, i),
                forall|i: int| p * 4 <= i < buf@.len() ==> #[trigger] buf@[i] == before[i],
            decreases width - col,
        {
            let c = color_of(counts[p], palette);
            let offset: usize = pixel_offset(width, row, col);
            buf.set(offset, c.r);
            buf.set(offset + 1, c.g);
            buf.set(offset + 2, c.b);
            buf.set(offset + 3, 255u8);
            proof {
                assert forall|i: int| offset <= i < offset + 4 implies #[trigger] buf@[i]
                    == image_byte(counts@, palette@, i) by {
                    assert(i / 4 == p && i % 4 == i - offset);
                }
            }
            col = col + 1;
            p = p + 1;
        }
        proof {
            assert((row + 1) * width == row * width + width) by (nonlinear_arith);
            assert(row + 1 < height ==> (row + 1) * width + width <= n_pixels) by (nonlinear_arith)
                requires
                    n_pixels == width * height,
            ;
        }
        row = row + 1;
    }
    assert(p == n_pixels) by (nonlinear_arith)
        requires
            p == row * width,
            row == height,
            n_pixels == width * height,
    ;
    Ok(())
}

} // verus!

verus! {

/// Painting is deterministic: two paints of one buffer with the same
/// raster, counts and palette leave byte-identical buffers.
pub proof fn lemma_paint_deterministic(
    before: Seq<u8>,
    first: Seq<u8>,
    second: Seq<u8>,
    width: nat,
    height: nat,
    counts: Seq<usize>,
    palette: Seq<Rgb>,
)
    requires
        painted(before, first, width, height, counts, palette),
        painted(before, second, width, height, counts, palette),
    ensures
        first == second,
{
    assert forall|i: int| 0 <= i < first.len() implies first[i] == second[i] by {
        if i < image_size(width, height) {
            assert(first[i] == image_byte(counts, palette, i));
            assert(second[i] == image_byte(counts, palette, i));
        } else {
            assert(first[i] == before[i]);
            assert(second[i] == before[i]);
        }
    }
    assert(first =~= second);
}

/// Painting is idempotent: painting again, with the same raster, counts and
/// palette, over a buffer that was just painted leaves it byte for byte as
/// it was.
pub proof fn lemma_paint_idempotent(
    before: Seq<u8>,
    once: Seq<u8>,
    twice: Seq<u8>,
    width: nat,
    height: nat,
    counts: Seq<usize>,
    palette: Seq<Rgb>,
)
    requires
        painted(before, once, width, height, counts, palette),
        painted(once, twice, width, height, counts, palette),
    ensures
        twice == once,
{
    assert forall|i: int| 0 <= i < once.len() implies twice[i] == once[i] by {
        if i < image_size(width, height) {
            assert(once[i] == image_byte(counts, palette, i));
            assert(twice[i] == image_byte(counts, palette, i));
        } else {
            assert(twice[i] == once[i]);
        }
    }
    assert(twice =~= once);
}

/// The pixel at (`row`, `col`) of a painted image starts at the offset that
/// `pixel_offset` gives, holds the colour of `counts[row * width + col]`, and
/// is opaque.
pub proof fn lemma_pixel_layout(
    before: Seq<u8>,
    after: Seq<u8>,
    width: nat,
    height: nat,
    counts: Seq<usize>,
    palette: Seq<Rgb>,
    row: nat,
    col: nat,
)
    requires
        painted(before, after, width, height, counts, palette),
        row < height,
        col < width,
    ensures
        ({
            let o = ((row * width + col) * 4) as int;
            let c = color_spec(counts[(row * width + col) as int] as nat, palette);
            &&& after[o] == c.r
            &&& after[o + 1] == c.g
            &&& after[o + 2] == c.b
            &&& after[o + 3] == 255
        }),
{
    let p = row * width + col;
    assert(p < width * height) by (nonlinear_arith)
        requires
            row < height,
            col < width,
            p == row * width + col,
    ;
    let o = (p * 4) as int;
    assert(o + 3 < image_size(width, height));
    assert(o / 4 == p && o % 4 == 0);
    assert((o + 1) / 4 == p && (o + 1) % 4 == 1);
    assert((o + 2) / 4 == p && (o + 2) % 4 == 2);
    assert((o + 3) / 4 == p && (o + 3) % 4 == 3);
    assert(after[o] == image_byte(counts, palette, o));
    assert(after[o + 1] == image_byte(counts, palette, o + 1));
    assert(after[o + 2] == image_byte(counts, palette, o + 2));
    assert(after[o + 3] == image_byte(counts, palette, o + 3));
}

} // verus!
