use vstd::prelude::*;

verus! {

/// Integer factor by which the bicubic resampler enlarges a raster.
pub const SCALE: usize = 4;

/// How the padded border of the input appears in the upscaled output.
#[derive(Clone, Copy, PartialEq, Eq, Structural, Debug)]
pub enum BorderMode {
    /// The output keeps a border of the input's padding width around the
    /// scaled core.
    Preserve,
    /// The whole padded input, border included, is scaled.
    Scale,
}

/// Geometry of one bicubic upscaling: a core of side `base` with `padding`
/// cells of border on every side.
#[derive(Clone, Copy, Debug)]
pub struct UpscaleLayout {
    pub base: usize,
    pub padding: usize,
    pub mode: BorderMode,
}

/// One output coordinate's four source coordinates along an axis and the
/// phase `t = phase / SCALE` of its position between the second and third.
pub struct AxisTaps {
    pub index: Vec<usize>,
    pub phase: usize,
}

impl UpscaleLayout {
    /// Side of the padded input.
    pub open spec fn input_side_spec(self) -> int {
        self.base + 2 * self.padding
    }

    /// Side of the output.
    pub open spec fn output_side_spec(self) -> int {
        match self.mode {
            BorderMode::Preserve => self.base * SCALE + 2 * self.padding,
            BorderMode::Scale => (self.base + 2 * self.padding) * SCALE,
        }
    }

    /// Input coordinate that output coordinate 0 falls on.
    pub open spec fn offset_spec(self) -> int {
        match self.mode {
            BorderMode::Preserve => self.padding as int - self.padding as int / (SCALE as int),
            BorderMode::Scale => 0,
        }
    }

    /// Source coordinate `k` (0 to 3) of output coordinate `pos`, clamped to
    /// the input's edge.
    pub open spec fn tap_spec(self, pos: int, k: int) -> int {
        let p = pos / (SCALE as int) + self.offset_spec() - 1 + k;
        if p < 0 {
            0
        } else if p >= self.input_side_spec() {
            self.input_side_spec() - 1
        } else {
            p
        }
    }

    /// Whether the sides fit the machine's index range.
    pub open spec fn fits(self) -> bool {
        &&& self.base >= 1
        &&& self.output_side_spec() * self.output_side_spec() <= usize::MAX
        &&& self.input_side_spec() * self.input_side_spec() <= usize::MAX
    }

    /// Side of the padded input.
    pub fn input_side(&self) -> (r: usize)
        requires
            self.fits(),
        ensures
            r == self.input_side_spec(),
    {
        proof {
            let w = self.input_side_spec();
            assert(w <= w * w) by (nonlinear_arith)
                requires
                    w >= 1,
            ;
        }
        self.base + 2 * self.padding
    }

    /// Side of the output.
    pub fn output_side(&self) -> (r: usize)
        requires
            self.fits(),
        ensures
            r == self.output_side_spec(),
    {
        proof {
            let w = self.output_side_spec();
            assert(w >= 1);
            assert(w <= w * w) by (nonlinear_arith)
                requires
                    w >= 1,
            ;
        }
        match self.mode {
            BorderMode::Preserve => self.base * SCALE + 2 * self.padding,
            BorderMode::Scale => (self.base + 2 * self.padding) * SCALE,
        }
    }

    /// The four input coordinates that output coordinate `pos` reads along
    /// one axis, and the phase of its position between them.
    pub fn taps(&self, pos: usize) -> (r: AxisTaps)
        requires
            self.fits(),
            pos < self.output_side_spec(),
        ensures
            r.phase == pos % SCALE,
            r.index@.len() == 4,
            forall|k: int| 0 <= k < 4 ==> #[trigger] r.index@[k] == self.tap_spec(pos as int, k),
            forall|k: int| 0 <= k < 4 ==> #[trigger] r.index@[k] < self.input_side_spec(),
    {
        let side = self.input_side();
        let offset = match self.mode {
            BorderMode::Preserve => self.padding - self.padding / SCALE,
            BorderMode::Scale => 0,
        };
        let base = pos / SCALE + offset;
        let mut index: Vec<usize> = Vec::with_capacity(4);
        let mut k: usize = 0;
        while k < 4
            invariant
                side == self.input_side_spec(),
                side >= 1,
                offset == self.offset_spec(),
                base == pos as int / (SCALE as int) + offset,
                k <= 4,
                index@.len() == k,
                forall|j: int| 0 <= j < k ==> #[trigger] index@[j] == self.tap_spec(pos as int, j),
            decreases 4 - k,
        {
            let p: usize = if base + k < 1 {
                0
            } else if base + k - 1 >= side {
                side - 1
            } else {
                base + k - 1
            };
            index.push(p);
            k = k + 1;
        }
        AxisTaps { index, phase: pos % SCALE }
    }
}

/// With a border of at least `SCALE` cells kept at its width, every tap of
/// every output coordinate lies inside the input without clamping.
pub proof fn lemma_preserve_unclamped(layout: UpscaleLayout, pos: int, k: int)
    requires
        layout.mode == BorderMode::Preserve,
        layout.padding >= SCALE,
        0 <= pos < layout.output_side_spec(),
        0 <= k < 4,
    ensures
        0 <= pos / (SCALE as int) + layout.offset_spec() - 1 + k < layout.input_side_spec(),
        layout.tap_spec(pos, k) == pos / (SCALE as int) + layout.offset_spec() - 1 + k,
{
    let b = layout.base as int;
    let p = layout.padding as int;
    assert(pos / 4 <= b + (2 * p - 1) / 4);
}

} // verus!
