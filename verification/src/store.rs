//! Double-buffered per-point persistent state.
//!
//! Spatial reuse reads neighbors' previous-frame reservoirs while temporal
//! reuse reads the same point's, so the whole previous frame must stay a
//! frozen snapshot until every point has been written.  This store keeps two
//! buffers: reads come from the previous frame only, writes go to the next
//! frame only, and `end_frame` exchanges them.  Reading a neighbor already
//! overwritten this frame is therefore impossible by construction.

use vstd::prelude::*;
use vstd::pervasive::VecAdditionalExecFns;
use crate::reservoir::Reservoir;

verus! {

/// One surface point's persistent state: its reservoir and the selected
/// sample the caller keeps beside it.
#[derive(Clone, Copy, Debug)]
pub struct Pixel<S> {
    /// The point's finished reservoir.
    pub reservoir: Reservoir,
    /// The sample paired with the reservoir.
    pub sample: S,
}

/// Two equally long frame buffers of per-point state.
pub struct PixelStore<S> {
    prev: Vec<Pixel<S>>,
    next: Vec<Pixel<S>>,
}

impl<S> PixelStore<S> {
    /// The two buffers cover the same points.
    pub closed spec fn wf(self) -> bool {
        self.prev@.len() == self.next@.len()
    }

    /// The frozen snapshot every read of this frame sees.
    pub closed spec fn previous_frame(self) -> Seq<Pixel<S>> {
        self.prev@
    }

    /// The buffer this frame's results are written into.
    pub closed spec fn next_frame(self) -> Seq<Pixel<S>> {
        self.next@
    }

    /// Build a store from an initial frame and an equally long scratch
    /// buffer that the first frame's results will overwrite.
    pub fn from_buffers(initial: Vec<Pixel<S>>, scratch: Vec<Pixel<S>>) -> (r: PixelStore<S>)
        requires
            initial@.len() == scratch@.len(),
        ensures
            r.wf(),
            r.previous_frame() == initial@,
            r.next_frame() == scratch@,
    {
        PixelStore { prev: initial, next: scratch }
    }

    /// Number of surface points.
    pub fn len(&self) -> (n: usize)
        ensures
            n == self.previous_frame().len(),
    {
        self.prev.len()
    }

    /// Read a point's previous-frame state: the snapshot that temporal
    /// reuse (same index) and spatial reuse (a neighbor's index) read.
    pub fn previous(&self, i: usize) -> (p: &Pixel<S>)
        requires
            i < self.previous_frame().len(),
        ensures
            *p == self.previous_frame()[i as int],
    {
        &self.prev[i]
    }

    /// Write a point's new state.  Only the next frame changes: every
    /// previous-frame read of this frame still sees the snapshot.
    pub fn commit(&mut self, i: usize, p: Pixel<S>)
        requires
            old(self).wf(),
            i < old(self).previous_frame().len(),
        ensures
            final(self).wf(),
            final(self).previous_frame() == old(self).previous_frame(),
            final(self).next_frame() == old(self).next_frame().update(i as int, p),
    {
        self.next.set(i, p);
    }

    /// End the frame: what was written becomes the snapshot the next frame
    /// reads, and the old snapshot becomes scratch to overwrite.
    pub fn end_frame(&mut self)
        requires
            old(self).wf(),
        ensures
            final(self).wf(),
            final(self).previous_frame() == old(self).next_frame(),
            final(self).next_frame() == old(self).previous_frame(),
    {
        core::mem::swap(&mut self.prev, &mut self.next);
    }
}

} // verus!
