//! The frame-in-flight ring and what a frame does after asking the
//! swapchain for an image.

use vstd::prelude::*;

verus! {

/// `VK_ERROR_OUT_OF_DATE_KHR`: the swapchain no longer matches the surface.
pub const ERROR_OUT_OF_DATE: i32 = -1000001004;

/// Which per-frame synchronisation slot the next frame uses; the slots are
/// used in turn.
pub struct FrameRing {
    current: usize,
    frames_in_flight: usize,
}

/// The slot reached from `start` after `k` frames, one slot at a time.
pub open spec fn slot_after(start: int, n: int, k: nat) -> int
    decreases k,
{
    if k == 0 {
        start
    } else {
        (slot_after(start, n, (k - 1) as nat) + 1) % n
    }
}

impl FrameRing {
    #[verifier::type_invariant]
    spec fn inv(self) -> bool {
        0 < self.frames_in_flight && self.current < self.frames_in_flight
    }

    /// The slot the next frame uses.
    pub closed spec fn slot(&self) -> int {
        self.current as int
    }

    /// How many frames may be in flight at once.
    pub closed spec fn size(&self) -> int {
        self.frames_in_flight as int
    }

    /// A ring of `frames_in_flight` slots, starting at slot 0.
    pub fn new(frames_in_flight: usize) -> (r: FrameRing)
        requires
            frames_in_flight > 0,
        ensures
            r.slot() == 0,
            r.size() == frames_in_flight,
    {
        FrameRing { current: 0, frames_in_flight }
    }

    /// The slot the next frame uses; always below the ring's size.
    pub fn current(&self) -> (r: usize)
        ensures
            r == self.slot(),
            r < self.size(),
    {
        proof {
            use_type_invariant(self);
        }
        self.current
    }

    /// How many frames may be in flight at once.
    pub fn frames_in_flight(&self) -> (r: usize)
        ensures
            r == self.size(),
            r > 0,
    {
        proof {
            use_type_invariant(self);
        }
        self.frames_in_flight
    }

    /// Move on to the next slot after a frame was submitted.
    pub fn advance(&mut self)
        ensures
            final(self).size() == old(self).size(),
            final(self).slot() == (old(self).slot() + 1) % old(self).size(),
            0 <= final(self).slot() < final(self).size(),
    {
        proof {
            use_type_invariant(&*self);
        }
        self.current = (self.current + 1) % self.frames_in_flight;
    }
}

/// Stepping through the ring `k` times lands on `(start + k) % n`, always a
/// slot of the ring; after `n` frames the ring is back where it started.
pub proof fn lemma_ring_cycles(start: int, n: int, k: nat)
    requires
        0 <= start < n,
    ensures
        slot_after(start, n, k) == (start + k) % n,
        0 <= slot_after(start, n, k) < n,
        slot_after(start, n, n as nat) == start,
{
    lemma_ring_steps(start, n, k);
    vstd::arithmetic::div_mod::lemma_mod_pos_bound(start + k, n);
    lemma_ring_steps(start, n, n as nat);
    vstd::arithmetic::div_mod::lemma_mod_add_multiples_vanish(start, n);
    vstd::arithmetic::div_mod::lemma_small_mod(start as nat, n as nat);
}

proof fn lemma_ring_steps(start: int, n: int, k: nat)
    requires
        0 <= start < n,
    ensures
        slot_after(start, n, k) == (start + k) % n,
    decreases k,
{
    if k > 0 {
        lemma_ring_steps(start, n, (k - 1) as nat);
        vstd::arithmetic::div_mod::lemma_add_mod_noop_right(1, start + k - 1, n);
        vstd::arithmetic::div_mod::lemma_small_mod(start as nat, n as nat);
    } else {
        vstd::arithmetic::div_mod::lemma_small_mod(start as nat, n as nat);
    }
}

/// What acquiring a swapchain image gave back.
pub enum AcquireOutcome {
    /// An image to draw into; `suboptimal` when the swapchain should be rebuilt.
    Acquired { image_index: u32, suboptimal: bool },
    /// The `VkResult` error code.
    Failed(i32),
}

/// What to do once the frame's commands are submitted.
#[derive(Debug, Clone, Copy, PartialEq, Eq, Structural)]
pub enum AfterSubmit {
    Present,
    RecreateSwapchain,
}

/// What a frame does next.
#[derive(Debug, Clone, Copy, PartialEq, Eq, Structural)]
pub enum FramePlan {
    /// The swapchain is out of date: rebuild it and skip this frame.
    RecreateAndSkip,
    /// Acquiring failed otherwise: report the error code.
    Abort(i32),
    /// Record and submit into this image, then present or rebuild.
    Record { image_index: u32, then: AfterSubmit },
}

/// Decide what a frame does after acquiring a swapchain image.
pub fn plan_frame(outcome: AcquireOutcome) -> (p: FramePlan)
    ensures
        match outcome {
            AcquireOutcome::Acquired { image_index, suboptimal } => p == FramePlan::Record {
                image_index,
                then: if suboptimal {
                    AfterSubmit::RecreateSwapchain
                } else {
                    AfterSubmit::Present
                },
            },
            AcquireOutcome::Failed(code) => if code == ERROR_OUT_OF_DATE {
                p == FramePlan::RecreateAndSkip
            } else {
                p == FramePlan::Abort(code)
            },
        },
{
    match outcome {
        AcquireOutcome::Acquired { image_index, suboptimal } => {
            let then = if suboptimal {
                AfterSubmit::RecreateSwapchain
            } else {
                AfterSubmit::Present
            };
            FramePlan::Record { image_index, then }
        },
        AcquireOutcome::Failed(code) => if code == ERROR_OUT_OF_DATE {
            FramePlan::RecreateAndSkip
        } else {
            FramePlan::Abort(code)
        },
    }
}

} // verus!
