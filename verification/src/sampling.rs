use vstd::prelude::*;

verus! {

/// How many camera rays are traced for each pixel: a regular sub-pixel grid
/// of one, four or sixteen samples.
#[derive(Clone, Copy, PartialEq, Eq, Structural, Debug)]
pub enum SuperSamplingMode {
    SSAAX1,
    SSAAX4,
    SSAAX16,
}

impl SuperSamplingMode {
    /// Side length of the sub-pixel sample grid.
    pub open spec fn spec_grid_len(self) -> int {
        match self {
            SuperSamplingMode::SSAAX1 => 1,
            SuperSamplingMode::SSAAX4 => 2,
            SuperSamplingMode::SSAAX16 => 4,
        }
    }

    /// Total samples per pixel: the grid side length squared.
    pub open spec fn spec_sample_count(self) -> int {
        match self {
            SuperSamplingMode::SSAAX1 => 1,
            SuperSamplingMode::SSAAX4 => 4,
            SuperSamplingMode::SSAAX16 => 16,
        }
    }

    /// The fixed sub-pixel offsets along one axis, measured in eighths of a
    /// pixel, so that every offset is exact: one half is 4, one quarter is 2,
    /// and so on.
    pub open spec fn spec_sample_coords(self) -> Seq<u8> {
        match self {
            SuperSamplingMode::SSAAX1 => seq![4u8],
            SuperSamplingMode::SSAAX4 => seq![2u8, 6u8],
            SuperSamplingMode::SSAAX16 => seq![1u8, 3u8, 5u8, 7u8],
        }
    }

    /// Which sample counts are accepted at all: exactly one, four or sixteen.
    pub open spec fn spec_from_samples(samples: u8) -> Option<SuperSamplingMode> {
        if samples == 1 {
            Some(SuperSamplingMode::SSAAX1)
        } else if samples == 4 {
            Some(SuperSamplingMode::SSAAX4)
        } else if samples == 16 {
            Some(SuperSamplingMode::SSAAX16)
        } else {
            None
        }
    }

    /// Side length of the sub-pixel sample grid.
    pub fn grid_len(&self) -> (n: usize)
        ensures
            n == self.spec_grid_len(),
            1 <= n <= 4,
    {
        match self {
            SuperSamplingMode::SSAAX1 => 1,
            SuperSamplingMode::SSAAX4 => 2,
            SuperSamplingMode::SSAAX16 => 4,
        }
    }

    /// Samples traced per pixel; always the square of the grid side length.
    pub fn sample_count(&self) -> (n: usize)
        ensures
            n == self.spec_sample_count(),
            n == self.spec_grid_len() * self.spec_grid_len(),
            1 <= n <= 16,
    {
        match self {
            SuperSamplingMode::SSAAX1 => 1,
            SuperSamplingMode::SSAAX4 => 4,
            SuperSamplingMode::SSAAX16 => 16,
        }
    }

    /// The sub-pixel offsets along one axis, in eighths of a pixel.
    pub fn sample_coords(&self) -> (v: Vec<u8>)
        ensures
            v@ == self.spec_sample_coords(),
            v@.len() == self.spec_grid_len(),
    {
        let mut v: Vec<u8> = Vec::new();
        match self {
            SuperSamplingMode::SSAAX1 => {
                v.push(4);
            },
            SuperSamplingMode::SSAAX4 => {
                v.push(2);
                v.push(6);
            },
            SuperSamplingMode::SSAAX16 => {
                v.push(1);
                v.push(3);
                v.push(5);
                v.push(7);
            },
        }
        proof {
            assert(v@ =~= self.spec_sample_coords());
        }
        v
    }

    /// Validate a requested per-pixel sample count; everything but one, four
    /// and sixteen is rejected.
    pub fn from_samples(samples: u8) -> (r: Option<SuperSamplingMode>)
        ensures
            r == Self::spec_from_samples(samples),
            r is None <==> !(samples == 1 || samples == 4 || samples == 16),
    {
        if samples == 1 {
            Some(SuperSamplingMode::SSAAX1)
        } else if samples == 4 {
            Some(SuperSamplingMode::SSAAX4)
        } else if samples == 16 {
            Some(SuperSamplingMode::SSAAX16)
        } else {
            None
        }
    }
}

/// Every sub-pixel offset lies strictly inside its pixel: in eighths of a
/// pixel, strictly between 0 and 8.
pub proof fn lemma_sample_coords_inside_pixel(mode: SuperSamplingMode)
    ensures
        forall|i: int|
            0 <= i < mode.spec_sample_coords().len() ==> 0 < #[trigger] mode.spec_sample_coords()[i]
                < 8,
{
}

} // verus!
