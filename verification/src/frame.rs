use vstd::prelude::*;

use crate::colour::Pixel;
use crate::tiling::RenderConfig;

verus! {

use vstd::arithmetic::div_mod::{lemma_fundamental_div_mod, lemma_multiply_divide_lt};
use vstd::arithmetic::mul::{
    lemma_mul_inequality,
    lemma_mul_nonnegative,
    lemma_mul_is_commutative,
    lemma_mul_is_distributive_add_other_way,
};
use crate::tiling::{lemma_chunk_bounds, lemma_rows_partition, lemma_row_owner};

/// Index of the pixel at column `x` of row `y` in a row-major frame buffer:
/// top row first, left pixel first.
pub fn pixel_index(x: usize, y: usize, width: usize) -> (n: usize)
    requires
        x < width,
        y * width + x <= usize::MAX,
    ensures
        n == y * width + x,
{
    y * width + x
}

/// The first `k` chunks laid out one after the other.
pub open spec fn flat_prefix(chunks: Seq<Seq<Pixel>>, k: int) -> Seq<Pixel>
    decreases k,
{
    if k <= 0 {
        Seq::empty()
    } else {
        flat_prefix(chunks, k - 1) + chunks[k - 1]
    }
}

/// The contents of each chunk, as sequences of pixels.
pub open spec fn chunk_views(chunks: Seq<Vec<Pixel>>) -> Seq<Seq<Pixel>> {
    chunks.map_values(|v: Vec<Pixel>| v@)
}

/// Once a prefix of the chunks is laid out, laying out more chunks after it
/// moves no pixel of it.
pub proof fn lemma_flat_prefix_extends(chunks: Seq<Seq<Pixel>>, s: int, t: int, i: int)
    requires
        0 <= s <= t,
        0 <= i < flat_prefix(chunks, s).len(),
    ensures
        flat_prefix(chunks, s).len() <= flat_prefix(chunks, t).len(),
        flat_prefix(chunks, t)[i] == flat_prefix(chunks, s)[i],
    decreases t - s,
{
    if t > s {
        lemma_flat_prefix_extends(chunks, s, t - 1, i);
    }
}

/// When every chunk holds exactly its rows' pixels, the first `k` chunks
/// laid out together are exactly the pixels of the rows before chunk `k`'s
/// first row — all chunks together are exactly the frame.
pub proof fn lemma_flat_prefix_len(c: RenderConfig, chunks: Seq<Seq<Pixel>>, k: int)
    requires
        c.wf(),
        chunks.len() == c.workers,
        forall|i: int|
            0 <= i < chunks.len() ==> (#[trigger] chunks[i]).len() == c.spec_chunk_height(i)
                * c.width,
        0 <= k <= c.workers,
    ensures
        flat_prefix(chunks, k).len() == if k == c.workers {
            c.width * c.height
        } else {
            c.spec_chunk_start(k) * c.width
        },
    decreases k,
{
    lemma_rows_partition(c);
    if k == 0 {
        assert(c.spec_chunk_start(0) * c.width == 0);
    } else {
        lemma_flat_prefix_len(c, chunks, k - 1);
        lemma_chunk_bounds(c, k - 1);
        lemma_mul_is_distributive_add_other_way(
            c.width as int,
            c.spec_chunk_start(k - 1),
            c.spec_chunk_height(k - 1),
        );
        assert(flat_prefix(chunks, k).len() == (c.spec_chunk_start(k - 1) + c.spec_chunk_height(
            k - 1,
        )) * c.width);
        if k == c.workers {
            assert(c.spec_chunk_start(k - 1) + c.spec_chunk_height(k - 1) == c.height);
            lemma_mul_is_commutative(c.height as int, c.width as int);
        } else {
            assert(c.spec_chunk_start(k - 1) + c.spec_chunk_height(k - 1) == c.spec_chunk_start(
                k,
            ));
        }
    }
}

/// Chunk `k`'s pixel at its local offset `j` stands in the assembled frame
/// at the chunk's first row times the width, plus `j`.
pub proof fn lemma_flat_prefix_index(c: RenderConfig, chunks: Seq<Seq<Pixel>>, k: int, j: int)
    requires
        c.wf(),
        chunks.len() == c.workers,
        forall|i: int|
            0 <= i < chunks.len() ==> (#[trigger] chunks[i]).len() == c.spec_chunk_height(i)
                * c.width,
        0 <= k < c.workers,
        0 <= j < chunks[k].len(),
    ensures
        0 <= c.spec_chunk_start(k) * c.width + j < flat_prefix(chunks, c.workers as int).len(),
        flat_prefix(chunks, c.workers as int)[c.spec_chunk_start(k) * c.width + j] == chunks[k][j],
{
    lemma_flat_prefix_len(c, chunks, k);
    lemma_chunk_bounds(c, k);
    lemma_mul_nonnegative(c.spec_chunk_start(k), c.width as int);
    let i = c.spec_chunk_start(k) * c.width + j;
    assert(flat_prefix(chunks, k + 1) == flat_prefix(chunks, k) + chunks[k]);
    assert(flat_prefix(chunks, k + 1)[i] == chunks[k][j]);
    lemma_flat_prefix_extends(chunks, k + 1, c.workers as int, i);
}

/// Rebuild the full frame from the per-worker chunks: the result is the
/// concatenation of the chunks in chunk order. It depends on nothing but the
/// chunk contents; in which order the workers finished cannot be seen in it.
pub fn assemble_frame(c: &RenderConfig, chunks: &Vec<Vec<Pixel>>) -> (frame: Vec<Pixel>)
    requires
        c.wf(),
        chunks@.len() == c.workers,
        forall|k: int|
            0 <= k < chunks@.len() ==> (#[trigger] chunks@[k])@.len() == c.spec_chunk_height(k)
                * c.width,
    ensures
        frame@ == flat_prefix(chunk_views(chunks@), c.workers as int),
        frame@.len() == c.width * c.height,
{
    let ghost views: Seq<Seq<Pixel>> = chunk_views(chunks@);
    let mut frame: Vec<Pixel> = Vec::new();
    let mut k: usize = 0;
    proof {
        assert(frame@ =~= flat_prefix(views, 0));
    }
    while k < chunks.len()
        invariant
            chunks@.len() == c.workers,
            views == chunk_views(chunks@),
            k <= chunks@.len(),
            frame@ == flat_prefix(views, k as int),
        decreases chunks@.len() - k,
    {
        let chunk: &Vec<Pixel> = &chunks[k];
        let mut j: usize = 0;
        proof {
            assert(views[k as int] == chunk@);
            assert(frame@ =~= flat_prefix(views, k as int) + views[k as int].take(0));
        }
        while j < chunk.len()
            invariant
                j <= chunk@.len(),
                views[k as int] == chunk@,
                frame@ == flat_prefix(views, k as int) + views[k as int].take(j as int),
            decreases chunk@.len() - j,
        {
            frame.push(chunk[j]);
            proof {
                assert(frame@ =~= flat_prefix(views, k as int) + views[k as int].take(
                    j as int + 1,
                ));
            }
            j = j + 1;
        }
        proof {
            assert(views[k as int].take(chunk@.len() as int) =~= views[k as int]);
            assert(frame@ == flat_prefix(views, k as int + 1));
        }
        k = k + 1;
    }
    proof {
        lemma_flat_prefix_len(*c, views, c.workers as int);
    }
    frame
}

/// In the assembled frame, the pixel at column `x` of row `y` is exactly the
/// pixel that the row's one owning chunk computed at the matching local
/// offset — no other chunk reaches that cell. The frame is therefore fixed
/// by the per-chunk pixel values alone, for every worker count.
pub proof fn lemma_assembled_pixel(
    c: RenderConfig,
    chunks: Seq<Seq<Pixel>>,
    x: int,
    y: int,
) -> (k: int)
    requires
        c.wf(),
        chunks.len() == c.workers,
        forall|i: int|
            0 <= i < chunks.len() ==> (#[trigger] chunks[i]).len() == c.spec_chunk_height(i)
                * c.width,
        0 <= x < c.width,
        0 <= y < c.height,
    ensures
        0 <= k < c.workers,
        c.spec_chunk_start(k) <= y < c.spec_chunk_start(k) + c.spec_chunk_height(k),
        forall|j: int|
            0 <= j < c.workers && #[trigger] c.spec_chunk_start(j) <= y < c.spec_chunk_start(j)
                + c.spec_chunk_height(j) ==> j == k,
        0 <= y * c.width + x < flat_prefix(chunks, c.workers as int).len(),
        flat_prefix(chunks, c.workers as int)[y * c.width + x] == chunks[k][(y
            - c.spec_chunk_start(k)) * c.width + x],
{
    let k = lemma_row_owner(c, y);
    let start = c.spec_chunk_start(k);
    let local = y - start;
    lemma_chunk_bounds(c, k);
    lemma_mul_is_distributive_add_other_way(c.width as int, start, local);
    assert(y * c.width == start * c.width + local * c.width);
    lemma_mul_nonnegative(local, c.width as int);
    lemma_mul_inequality(local + 1, c.spec_chunk_height(k), c.width as int);
    lemma_mul_is_distributive_add_other_way(c.width as int, local, 1);
    assert(local * c.width + x < (local + 1) * c.width);
    assert(0 <= local * c.width + x < chunks[k].len());
    lemma_flat_prefix_index(c, chunks, k, local * c.width + x);
    k
}

/// When every worker computes the pixel of column `x`, absolute row `y` of
/// its rows as `f(x, y)`, the assembled frame is the row-major table of
/// `f`, wherever the rows were split.
pub proof fn lemma_render_deterministic(
    c: RenderConfig,
    chunks: Seq<Seq<Pixel>>,
    f: spec_fn(int, int) -> Pixel,
)
    requires
        c.wf(),
        chunks.len() == c.workers,
        forall|i: int|
            0 <= i < chunks.len() ==> (#[trigger] chunks[i]).len() == c.spec_chunk_height(i)
                * c.width,
        forall|k: int, x: int, y: int|
            #![trigger f(x, y), c.spec_chunk_start(k)]
            0 <= k < c.workers && 0 <= x < c.width && c.spec_chunk_start(k) <= y
                < c.spec_chunk_start(k) + c.spec_chunk_height(k) ==> chunks[k][(y
                - c.spec_chunk_start(k)) * c.width + x] == f(x, y),
    ensures
        forall|x: int, y: int|
            0 <= x < c.width && 0 <= y < c.height ==> flat_prefix(chunks, c.workers as int)[y
                * c.width + x] == #[trigger] f(x, y),
{
    assert forall|x: int, y: int|
        0 <= x < c.width && 0 <= y < c.height implies flat_prefix(chunks, c.workers as int)[y
        * c.width + x] == #[trigger] f(x, y) by {
        let k = lemma_assembled_pixel(c, chunks, x, y);
        assert(chunks[k][(y - c.spec_chunk_start(k)) * c.width + x] == f(x, y));
    }
}

/// Two renders of the same image size whose workers all computed the same
/// per-pixel values assemble to the very same frame, though each render
/// split the rows over a different worker count: the worker count cannot be
/// seen in the output.
pub proof fn lemma_worker_count_invisible(
    c1: RenderConfig,
    c2: RenderConfig,
    chunks1: Seq<Seq<Pixel>>,
    chunks2: Seq<Seq<Pixel>>,
    f: spec_fn(int, int) -> Pixel,
)
    requires
        c1.wf(),
        c2.wf(),
        c1.width == c2.width,
        c1.height == c2.height,
        chunks1.len() == c1.workers,
        chunks2.len() == c2.workers,
        forall|i: int|
            0 <= i < chunks1.len() ==> (#[trigger] chunks1[i]).len() == c1.spec_chunk_height(i)
                * c1.width,
        forall|i: int|
            0 <= i < chunks2.len() ==> (#[trigger] chunks2[i]).len() == c2.spec_chunk_height(i)
                * c2.width,
        forall|k: int, x: int, y: int|
            #![trigger f(x, y), c1.spec_chunk_start(k)]
            0 <= k < c1.workers && 0 <= x < c1.width && c1.spec_chunk_start(k) <= y
                < c1.spec_chunk_start(k) + c1.spec_chunk_height(k) ==> chunks1[k][(y
                - c1.spec_chunk_start(k)) * c1.width + x] == f(x, y),
        forall|k: int, x: int, y: int|
            #![trigger f(x, y), c2.spec_chunk_start(k)]
            0 <= k < c2.workers && 0 <= x < c2.width && c2.spec_chunk_start(k) <= y
                < c2.spec_chunk_start(k) + c2.spec_chunk_height(k) ==> chunks2[k][(y
                - c2.spec_chunk_start(k)) * c2.width + x] == f(x, y),
    ensures
        flat_prefix(chunks1, c1.workers as int) == flat_prefix(chunks2, c2.workers as int),
{
    lemma_render_deterministic(c1, chunks1, f);
    lemma_render_deterministic(c2, chunks2, f);
    lemma_flat_prefix_len(c1, chunks1, c1.workers as int);
    lemma_flat_prefix_len(c2, chunks2, c2.workers as int);
    let a = flat_prefix(chunks1, c1.workers as int);
    let b = flat_prefix(chunks2, c2.workers as int);
    assert forall|n: int| 0 <= n < a.len() implies a[n] == b[n] by {
        let width = c1.width as int;
        let y = n / width;
        let x = n % width;
        lemma_fundamental_div_mod(n, width);
        lemma_mul_is_commutative(width, y);
        assert(n == y * width + x);
        lemma_multiply_divide_lt(n, width, c1.height as int);
        assert(0 <= x < c1.width);
        assert(0 <= y < c1.height);
        assert(a[y * width + x] == f(x, y));
        assert(b[y * width + x] == f(x, y));
    }
    assert(a =~= b);
}

/// Flatten the frame into the byte layout the image encoder takes: three
/// bytes per pixel, red then green then blue, in frame order.
pub fn flatten_frame(frame: &Vec<Pixel>) -> (buf: Vec<u8>)
    requires
        frame@.len() * 3 <= usize::MAX,
    ensures
        buf@.len() == frame@.len() * 3,
        forall|t: int|
            0 <= t < frame@.len() ==> buf@[3 * t] == (#[trigger] frame@[t]).r && buf@[3 * t + 1]
                == frame@[t].g && buf@[3 * t + 2] == frame@[t].b,
{
    let mut buf: Vec<u8> = Vec::new();
    let mut t: usize = 0;
    while t < frame.len()
        invariant
            frame@.len() * 3 <= usize::MAX,
            t <= frame@.len(),
            buf@.len() == t * 3,
            forall|u: int|
                0 <= u < t ==> buf@[3 * u] == (#[trigger] frame@[u]).r && buf@[3 * u + 1]
                    == frame@[u].g && buf@[3 * u + 2] == frame@[u].b,
        decreases frame@.len() - t,
    {
        let p: Pixel = frame[t];
        buf.push(p.r);
        buf.push(p.g);
        buf.push(p.b);
        t = t + 1;
    }
    buf
}

} // verus!
