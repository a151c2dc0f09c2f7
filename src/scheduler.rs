//! Pacing of output buffers on the sink's clock.
use vstd::prelude::*;

verus! {

/// Frames in one output buffer.
pub const BUFFER_FRAMES: usize = 1024;

/// Start of a buffer: the end of the previous one, or the sink's clock if
/// that has already passed it.
pub open spec fn start_for(next_start: int, now: int) -> int {
    if next_start >= now { next_start } else { now }
}

/// Frames waiting for a buffer, and where the next buffer is to start, in
/// frames of the sink's clock.
pub struct Scheduler {
    pub samples: Vec<i64>,
    pub next_start: u64,
}

impl Scheduler {
    pub open spec fn wf(&self) -> bool {
        self.samples@.len() < BUFFER_FRAMES
    }

    /// An empty scheduler whose first buffer starts at `now`.
    pub fn new(now: u64) -> (r: Self)
        ensures
            r.wf(),
            r.samples@.len() == 0,
            r.next_start == now,
    {
        Scheduler { samples: Vec::new(), next_start: now }
    }

    /// Appends a frame; when that fills a buffer, hands the buffer out and
    /// starts a new one.
    pub fn push(&mut self, sample: i64) -> (r: Option<Vec<i64>>)
        requires
            old(self).wf(),
        ensures
            final(self).wf(),
            final(self).next_start == old(self).next_start,
            old(self).samples@.len() + 1 == BUFFER_FRAMES ==> {
                &&& r.is_some()
                &&& r.unwrap()@ == old(self).samples@.push(sample)
                &&& final(self).samples@.len() == 0
            },
            old(self).samples@.len() + 1 < BUFFER_FRAMES ==> {
                &&& r.is_none()
                &&& final(self).samples@ == old(self).samples@.push(sample)
            },
    {
        self.samples.push(sample);
        if self.samples.len() >= BUFFER_FRAMES {
            let mut full: Vec<i64> = Vec::new();
            std::mem::swap(&mut full, &mut self.samples);
            Some(full)
        } else {
            None
        }
    }

    /// The start of the next buffer given the sink's clock `now`; the buffer
    /// after it then follows it without a gap.
    pub fn schedule(&mut self, now: u64) -> (r: u64)
        requires
            old(self).next_start <= u64::MAX - BUFFER_FRAMES,
            now <= u64::MAX - BUFFER_FRAMES,
        ensures
            r as int == start_for(old(self).next_start as int, now as int),
            final(self).next_start == r + BUFFER_FRAMES,
            final(self).samples == old(self).samples,
    {
        let start = if self.next_start >= now { self.next_start } else { now };
        self.next_start = start + BUFFER_FRAMES as u64;
        start
    }
}

/// Buffers scheduled while the sink's clock stays behind follow each other
/// without gap or overlap; when the clock has run ahead, the buffer starts at
/// the clock.
pub proof fn lemma_gap_free(next_start: int, now: int)
    ensures
        now <= next_start ==> start_for(next_start, now) == next_start,
        now > next_start ==> start_for(next_start, now) == now,
        start_for(next_start, now) >= now,
{
}

/// Two successive buffers: when the clock at the second call has not passed
/// the end of the first buffer, the second starts exactly where the first ends.
pub proof fn lemma_back_to_back(next_start: int, now1: int, now2: int)
    requires
        now2 <= start_for(next_start, now1) + BUFFER_FRAMES as int,
    ensures
        start_for(start_for(next_start, now1) + BUFFER_FRAMES as int, now2)
            == start_for(next_start, now1) + BUFFER_FRAMES as int,
{
}

} // verus!
