use vstd::prelude::*;

use crate::sampling::SuperSamplingMode;

verus! {

use vstd::arithmetic::div_mod::{
    lemma_fundamental_div_mod,
    lemma_div_pos_is_pos,
    lemma_div_nonincreasing,
    lemma_mod_bound,
};
use vstd::arithmetic::mul::{
    lemma_mul_inequality,
    lemma_mul_nonnegative,
    lemma_mul_is_commutative,
    lemma_mul_is_distributive_add_other_way,
    lemma_mul_is_distributive_sub_other_way,
};

/// Everything the renderer decides over plain integers: the output size, the
/// number of workers the rows are split over, and the supersampling mode.
/// The field of view and the scene stay with the floating-point code that
/// consumes them.
#[derive(Clone, Copy, PartialEq, Eq, Structural, Debug)]
pub struct RenderConfig {
    pub width: usize,
    pub height: usize,
    pub workers: usize,
    pub samples: SuperSamplingMode,
}

impl RenderConfig {
    /// A usable configuration: a non-empty image, at least one worker, and a
    /// frame whose byte size fits in memory arithmetic.
    pub open spec fn wf(self) -> bool {
        &&& 1 <= self.width
        &&& 1 <= self.height
        &&& 1 <= self.workers
        &&& self.width * self.height * 3 <= usize::MAX
    }

    /// Accept a configuration exactly when it is usable: both dimensions and
    /// the worker count are positive and `width * height` RGB pixels fit in
    /// address arithmetic.
    pub fn new(width: usize, height: usize, workers: usize, samples: SuperSamplingMode) -> (r:
        Option<RenderConfig>)
        ensures
            r matches Some(c) ==> c == (RenderConfig { width, height, workers, samples }),
            r is Some <==> (1 <= width && 1 <= height && 1 <= workers && width * height * 3
                <= usize::MAX),
    {
        if width == 0 || height == 0 || workers == 0 {
            None
        } else {
            let budget: usize = usize::MAX / 3 / height;
            proof {
                let m = usize::MAX as int;
                let q = m / 3;
                let q2 = q / (height as int);
                lemma_fundamental_div_mod(m, 3);
                lemma_div_pos_is_pos(m, 3);
                lemma_fundamental_div_mod(q, height as int);
                lemma_mod_bound(q, height as int);
                lemma_mul_is_commutative(q2, height as int);
                if width <= budget {
                    lemma_mul_inequality(width as int, q2, height as int);
                    assert(q2 * (height as int) <= q);
                    lemma_mul_inequality(width * height, q, 3);
                    assert(width * height * 3 <= q * 3);
                    assert(q * 3 <= m);
                } else {
                    lemma_mul_inequality(q2 + 1, width as int, height as int);
                    lemma_mul_is_distributive_add_other_way(height as int, q2, 1);
                    assert(q < (q2 + 1) * (height as int));
                    lemma_mul_inequality(q + 1, width * height, 3);
                    assert((q + 1) * 3 <= width * height * 3);
                    assert(m < (q + 1) * 3);
                }
            }
            if width <= budget {
                Some(RenderConfig { width, height, workers, samples })
            } else {
                None
            }
        }
    }

    /// Pixels in the whole frame.
    pub fn frame_len(&self) -> (n: usize)
        requires
            self.wf(),
        ensures
            n == self.width * self.height,
    {
        proof {
            lemma_mul_nonnegative(self.width as int, self.height as int);
        }
        self.width * self.height
    }

    /// The aspect ratio as the renderer applies it: the integer quotient of
    /// width by height, truncating for non-square sizes.
    pub fn aspect_ratio(&self) -> (r: usize)
        requires
            self.wf(),
        ensures
            r == self.width as int / self.height as int,
    {
        self.width / self.height
    }

    /// Rows in every chunk but the last: the integer quotient of the image
    /// height by the worker count.
    pub open spec fn spec_chunk_lines(self) -> int {
        self.height as int / self.workers as int
    }

    /// First row of chunk `i`.
    pub open spec fn spec_chunk_start(self, i: int) -> int {
        i * self.spec_chunk_lines()
    }

    /// Rows in chunk `i`: the common quotient, except that the last chunk
    /// absorbs the remainder rows and may be taller.
    pub open spec fn spec_chunk_height(self, i: int) -> int {
        if i == self.workers - 1 {
            self.height - self.spec_chunk_start(i)
        } else {
            self.spec_chunk_lines()
        }
    }

    /// Rows in every chunk but the last.
    pub fn chunk_lines(&self) -> (n: usize)
        requires
            self.wf(),
        ensures
            n == self.spec_chunk_lines(),
    {
        self.height / self.workers
    }

    /// First row of chunk `i`.
    pub fn chunk_start(&self, i: usize) -> (n: usize)
        requires
            self.wf(),
            i < self.workers,
        ensures
            n == self.spec_chunk_start(i as int),
            n <= self.height,
    {
        proof {
            lemma_chunk_bounds(*self, i as int);
        }
        let lines: usize = self.chunk_lines();
        i * lines
    }

    /// Rows in chunk `i`.
    pub fn chunk_height(&self, i: usize) -> (n: usize)
        requires
            self.wf(),
            i < self.workers,
        ensures
            n == self.spec_chunk_height(i as int),
            n <= self.height,
    {
        proof {
            lemma_chunk_bounds(*self, i as int);
        }
        let start: usize = self.chunk_start(i);
        if i + 1 == self.workers {
            self.height - start
        } else {
            self.chunk_lines()
        }
    }

    /// Pixels in chunk `i`: its rows times the image width.
    pub fn chunk_pixels(&self, i: usize) -> (n: usize)
        requires
            self.wf(),
            i < self.workers,
        ensures
            n == self.spec_chunk_height(i as int) * self.width,
    {
        let lines: usize = self.chunk_height(i);
        proof {
            lemma_chunk_bounds(*self, i as int);
            lemma_mul_inequality(lines as int, self.height as int, self.width as int);
            lemma_mul_is_commutative(self.height as int, self.width as int);
            lemma_mul_nonnegative(self.width as int, self.height as int);
        }
        lines * self.width
    }
}

/// Each chunk of a usable configuration lies inside the image: it starts at
/// or after row zero, has a non-negative height, and ends at or before the
/// image height.
pub proof fn lemma_chunk_bounds(c: RenderConfig, i: int)
    requires
        c.wf(),
        0 <= i < c.workers,
    ensures
        0 <= c.spec_chunk_lines() <= c.height,
        0 <= c.spec_chunk_start(i),
        c.spec_chunk_start(i) <= c.height,
        0 <= c.spec_chunk_height(i) <= c.height,
        c.spec_chunk_start(i) + c.spec_chunk_height(i) <= c.height,
{
    let h = c.height as int;
    let w = c.workers as int;
    let lines = c.spec_chunk_lines();
    lemma_fundamental_div_mod(h, w);
    lemma_div_pos_is_pos(h, w);
    lemma_div_nonincreasing(h, w);
    lemma_mul_nonnegative(i, lines);
    lemma_mul_inequality(i, w - 1, lines);
    lemma_mul_is_distributive_sub_other_way(lines, w, 1);
    assert((w - 1) * lines == w * lines - lines);
    assert(w * lines <= h);
    if i < w - 1 {
        lemma_mul_inequality(i + 1, w - 1, lines);
        lemma_mul_is_distributive_add_other_way(lines, i, 1);
        assert((i + 1) * lines == i * lines + lines);
    }
}

/// The tile partition is total and exact: the chunks stand back to back,
/// the first starts at row zero, the last ends at the image height, and so
/// together they cover rows `0 .. height` with no gap and no overlap,
/// whatever the worker count is.
pub proof fn lemma_rows_partition(c: RenderConfig)
    requires
        c.wf(),
    ensures
        c.spec_chunk_start(0) == 0,
        forall|i: int| 0 <= i < c.workers ==> 0 <= #[trigger] c.spec_chunk_height(i),
        forall|i: int|
            0 <= i < c.workers ==> #[trigger] c.spec_chunk_start(i) + c.spec_chunk_height(i)
                <= c.height,
        forall|i: int|
            0 <= i < c.workers - 1 ==> #[trigger] c.spec_chunk_start(i) + c.spec_chunk_height(i)
                == c.spec_chunk_start(i + 1),
        c.spec_chunk_start(c.workers - 1) + c.spec_chunk_height(c.workers - 1) == c.height,
{
    let lines = c.spec_chunk_lines();
    assert forall|i: int| 0 <= i < c.workers implies 0 <= #[trigger] c.spec_chunk_height(i) by {
        lemma_chunk_bounds(c, i);
    }
    assert forall|i: int|
        0 <= i < c.workers implies #[trigger] c.spec_chunk_start(i) + c.spec_chunk_height(i)
        <= c.height by {
        lemma_chunk_bounds(c, i);
    }
    assert forall|i: int|
        0 <= i < c.workers - 1 implies #[trigger] c.spec_chunk_start(i) + c.spec_chunk_height(i)
        == c.spec_chunk_start(i + 1) by {
        lemma_mul_is_distributive_add_other_way(lines, i, 1);
        assert((i + 1) * lines == i * lines + lines);
    }
    lemma_chunk_bounds(c, c.workers - 1);
}

/// Every image row lies in exactly one chunk: the function returns the one
/// chunk index whose row range holds `y`, and no other chunk's range does.
pub proof fn lemma_row_owner(c: RenderConfig, y: int) -> (k: int)
    requires
        c.wf(),
        0 <= y < c.height,
    ensures
        0 <= k < c.workers,
        c.spec_chunk_start(k) <= y < c.spec_chunk_start(k) + c.spec_chunk_height(k),
        forall|j: int|
            0 <= j < c.workers && #[trigger] c.spec_chunk_start(j) <= y < c.spec_chunk_start(j)
                + c.spec_chunk_height(j) ==> j == k,
{
    let h = c.height as int;
    let w = c.workers as int;
    let lines = c.spec_chunk_lines();
    lemma_rows_partition(c);
    lemma_fundamental_div_mod(h, w);
    lemma_div_pos_is_pos(h, w);
    let k: int = if lines == 0 {
        w - 1
    } else if y / lines < w - 1 {
        y / lines
    } else {
        w - 1
    };
    if lines > 0 {
        lemma_fundamental_div_mod(y, lines);
        lemma_div_pos_is_pos(y, lines);
        if y / lines < w - 1 {
            assert(c.spec_chunk_start(k) <= y < c.spec_chunk_start(k) + c.spec_chunk_height(k));
        } else {
            lemma_mul_inequality(w - 1, y / lines, lines);
            assert(c.spec_chunk_start(k) <= y);
        }
    } else {
        assert(c.spec_chunk_start(k) == (w - 1) * 0);
        lemma_mul_nonnegative(w - 1, 0);
        assert(c.spec_chunk_start(k) <= y < c.spec_chunk_start(k) + c.spec_chunk_height(k));
    }
    assert forall|j: int|
        0 <= j < c.workers && #[trigger] c.spec_chunk_start(j) <= y < c.spec_chunk_start(j)
            + c.spec_chunk_height(j) implies j == k by {
        if j < k {
            assert(c.spec_chunk_height(j) == lines);
            lemma_mul_is_distributive_add_other_way(lines, j, 1);
            lemma_mul_inequality(j + 1, k, lines);
            assert(c.spec_chunk_start(j) + lines == (j + 1) * lines);
            assert((j + 1) * lines <= k * lines);
        } else if j > k {
            assert(c.spec_chunk_height(k) == lines);
            lemma_mul_is_distributive_add_other_way(lines, k, 1);
            lemma_mul_inequality(k + 1, j, lines);
            assert(c.spec_chunk_start(k) + lines == (k + 1) * lines);
            assert((k + 1) * lines <= j * lines);
        }
    }
    k
}

} // verus!
