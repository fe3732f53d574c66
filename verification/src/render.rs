//! Rendering state that does not live on the GPU: which of the two ping-pong
//! offscreen targets a frame writes and which it samples as the previous
//! frame, when the targets must be recreated, and how the spectrum is packed
//! into the uniform block.

use crate::audio::NUM_BINS;
use vstd::prelude::*;

verus! {

/// Number of `vec4`s used to pack the spectrum (`NUM_BINS` values, 4 per
/// `vec4`).
pub const SPECTRUM_VEC4S: usize = NUM_BINS / 4;

/// The spectrum fills the uniform block's `vec4`s exactly, so it can always
/// be packed.
pub proof fn lemma_spectrum_packs_evenly()
    ensures
        NUM_BINS % 4 == 0,
        SPECTRUM_VEC4S * 4 == NUM_BINS,
{
}

/// The size of the offscreen feedback targets and the target the next scene
/// pass writes into; the other one holds the previous frame.
pub struct FeedbackTargets {
    width: u32,
    height: u32,
    write_index: usize,
}

impl FeedbackTargets {
    #[verifier::type_invariant]
    spec fn well_formed(self) -> bool {
        self.write_index < 2
    }

    /// Width of the targets in pixels.
    pub closed spec fn spec_width(self) -> u32 {
        self.width
    }

    /// Height of the targets in pixels.
    pub closed spec fn spec_height(self) -> u32 {
        self.height
    }

    /// The target the next scene pass writes into.
    pub closed spec fn spec_write_index(self) -> usize {
        self.write_index
    }

    /// Fresh targets of the given size; the first frame writes target 0.
    pub fn new(width: u32, height: u32) -> (t: FeedbackTargets)
        ensures
            t.spec_width() == width,
            t.spec_height() == height,
            t.spec_write_index() == 0,
    {
        FeedbackTargets { width, height, write_index: 0 }
    }

    /// Width of the targets in pixels.
    pub fn width(&self) -> (w: u32)
        ensures
            w == self.spec_width(),
    {
        self.width
    }

    /// Height of the targets in pixels.
    pub fn height(&self) -> (h: u32)
        ensures
            h == self.spec_height(),
    {
        self.height
    }

    /// The targets this frame writes and samples: the scene pass renders into
    /// the first and reads the previous frame from the second.
    pub fn frame_indices(&self) -> (indices: (usize, usize))
        ensures
            indices.0 == self.spec_write_index(),
            indices.1 == 1 - self.spec_write_index(),
            indices.0 < 2 && indices.1 < 2,
            indices.0 != indices.1,
    {
        proof {
            use_type_invariant(self);
        }
        (self.write_index, 1 - self.write_index)
    }

    /// After a frame: the next frame writes into what this one sampled, so
    /// this frame's output becomes the next one's previous frame.
    pub fn swap(&mut self)
        ensures
            final(self).spec_write_index() == 1 - old(self).spec_write_index(),
            final(self).spec_width() == old(self).spec_width(),
            final(self).spec_height() == old(self).spec_height(),
    {
        proof {
            use_type_invariant(&*self);
        }
        self.write_index = 1 - self.write_index;
    }

    /// Adopt a new surface size. A zero dimension, or the current size,
    /// changes nothing and returns `false`; otherwise the size is taken, the
    /// next frame writes target 0, and `true` says the targets must be
    /// recreated and cleared.
    pub fn resize(&mut self, width: u32, height: u32) -> (recreate: bool)
        ensures
            recreate == !(width == 0 || height == 0 || (width == old(self).spec_width() && height
                == old(self).spec_height())),
            recreate ==> final(self).spec_width() == width && final(self).spec_height() == height
                && final(self).spec_write_index() == 0,
            !recreate ==> final(self).spec_width() == old(self).spec_width()
                && final(self).spec_height() == old(self).spec_height()
                && final(self).spec_write_index() == old(self).spec_write_index(),
    {
        if width == 0 || height == 0 || (width == self.width && height == self.height) {
            return false;
        }
        *self = FeedbackTargets { width, height, write_index: 0 };
        true
    }
}

/// After a swap the next frame samples the target this frame wrote, and two
/// swaps bring the targets back to where they were.
pub proof fn lemma_swap_feeds_back(
    before: FeedbackTargets,
    after: FeedbackTargets,
    again: FeedbackTargets,
)
    requires
        before.spec_write_index() < 2,
        after.spec_write_index() == 1 - before.spec_write_index(),
        again.spec_write_index() == 1 - after.spec_write_index(),
    ensures
        1 - after.spec_write_index() == before.spec_write_index(),
        again.spec_write_index() == before.spec_write_index(),
        after.spec_write_index() != before.spec_write_index(),
{
}

/// Pack spectrum values four to a `vec4`, as the shaders' uniform block
/// expects them.
pub fn pack_spectrum<T: Copy>(spectrum: &[T]) -> (vectors: Vec<[T; 4]>)
    requires
        spectrum@.len() % 4 == 0,
    ensures
        vectors@.len() == spectrum@.len() / 4,
        forall|i: int|
            0 <= i < spectrum@.len() ==> #[trigger] vectors@[i / 4]@[i % 4] == spectrum@[i],
{
    let len = spectrum.len();
    let count = len / 4;
    let mut vectors: Vec<[T; 4]> = Vec::new();
    let mut k: usize = 0;
    while k < count
        invariant
            len == spectrum@.len(),
            count == len / 4,
            spectrum@.len() % 4 == 0,
            k <= count,
            vectors@.len() == k,
            forall|j: int, c: int|
                0 <= j < k && 0 <= c < 4 ==> #[trigger] vectors@[j]@[c] == spectrum@[4 * j + c],
        decreases count - k,
    {
        assert(4 * k + 4 <= len) by (nonlinear_arith)
            requires
                k < count,
                count == len / 4,
        ;
        let base = 4 * k;
        let v = [spectrum[base], spectrum[base + 1], spectrum[base + 2], spectrum[base + 3]];
        vectors.push(v);
        k = k + 1;
    }
    assert forall|i: int| 0 <= i < spectrum@.len() implies #[trigger] vectors@[i / 4]@[i % 4]
        == spectrum@[i] by {
        assert(4 * (i / 4) + i % 4 == i);
    }
    vectors
}

} // verus!
