//! The extractor's sampling policy: every delivered frame advances a
//! counter, and only frames whose counter is a multiple of the interval are
//! published, under that counter as their frame id.

use vstd::prelude::*;

verus! {

/// Frames between two published ones when none is configured.
pub const DEFAULT_FRAME_INTERVAL: usize = 300;

#[derive(Clone, Copy, Debug, PartialEq, Eq, Structural)]
pub enum SamplerError {
    /// An interval of zero would publish nothing and divide by zero.
    ZeroFrameInterval,
}

/// The ids published among the first `n` delivered frames.
pub open spec fn sampled_upto(interval: nat, n: nat) -> Seq<nat>
    decreases n,
{
    if n == 0 {
        seq![]
    } else {
        let p = sampled_upto(interval, (n - 1) as nat);
        if (n - 1) as nat % interval == 0 {
            p.push((n - 1) as nat)
        } else {
            p
        }
    }
}

/// The sampling state of one extractor lifetime.
#[derive(Debug)]
pub struct FrameSampler {
    interval: usize,
    delivered: usize,
}

impl FrameSampler {
    pub closed spec fn interval(&self) -> nat {
        self.interval as nat
    }

    /// Frames delivered so far; the next frame's id.
    pub closed spec fn delivered(&self) -> nat {
        self.delivered as nat
    }

    pub open spec fn wf(&self) -> bool {
        self.interval() > 0
    }

    /// A sampler with the configured interval, 300 when none is given.
    pub fn new(frame_interval: Option<usize>) -> (r: Result<FrameSampler, SamplerError>)
        ensures
            frame_interval == Some(0usize) <==> r is Err,
            r matches Ok(s) ==> s.wf() && s.delivered() == 0 && s.interval() == match frame_interval {
                Some(n) => n as nat,
                None => DEFAULT_FRAME_INTERVAL as nat,
            },
    {
        let interval = match frame_interval {
            Some(n) => n,
            None => DEFAULT_FRAME_INTERVAL,
        };
        if interval == 0 {
            return Err(SamplerError::ZeroFrameInterval);
        }
        Ok(FrameSampler { interval, delivered: 0 })
    }

    pub fn frame_interval(&self) -> (r: usize)
        ensures
            r == self.interval(),
    {
        self.interval
    }

    /// Whether the counter has reached the largest frame id.
    pub fn is_exhausted(&self) -> (r: bool)
        ensures
            r == (self.delivered() >= usize::MAX),
    {
        self.delivered == usize::MAX
    }

    /// Counts one delivered frame; returns its id where it is to be
    /// published.
    pub fn on_sample(&mut self) -> (r: Option<usize>)
        requires
            old(self).wf(),
            old(self).delivered() < usize::MAX,
        ensures
            final(self).wf(),
            final(self).interval() == old(self).interval(),
            final(self).delivered() == old(self).delivered() + 1,
            r == if old(self).delivered() % old(self).interval() == 0 {
                Some(old(self).delivered() as usize)
            } else {
                None::<usize>
            },
    {
        let counter = self.delivered;
        self.delivered = counter + 1;
        if counter % self.interval == 0 {
            Some(counter)
        } else {
            None
        }
    }
}

/// The frame ids that an extractor publishes over a stream of `frames`
/// delivered frames at the given interval.
pub fn sampled_frame_ids(frame_interval: usize, frames: usize) -> (r: Vec<usize>)
    requires
        frame_interval > 0,
    ensures
        r@.map_values(|v: usize| v as nat) == sampled_upto(frame_interval as nat, frames as nat),
{
    let mut sampler = FrameSampler { interval: frame_interval, delivered: 0 };
    let mut out: Vec<usize> = Vec::new();
    let mut i: usize = 0;
    while i < frames
        invariant
            i <= frames,
            sampler.wf(),
            sampler.interval() == frame_interval,
            sampler.delivered() == i,
            out@.map_values(|v: usize| v as nat) == sampled_upto(frame_interval as nat, i as nat),
        decreases frames - i,
    {
        let ghost before = out@;
        if let Some(id) = sampler.on_sample() {
            out.push(id);
            assert(out@.map_values(|v: usize| v as nat) =~= before.map_values(|v: usize| v as nat).push(
                id as nat,
            ));
        }
        i = i + 1;
    }
    out
}

proof fn lemma_sampled_below(interval: nat, n: nat)
    requires
        interval > 0,
    ensures
        forall|k: int|
            0 <= k < sampled_upto(interval, n).len() ==> #[trigger] sampled_upto(interval, n)[k] < n,
        forall|i: int, j: int|
            0 <= i < j < sampled_upto(interval, n).len() ==> sampled_upto(interval, n)[i]
                < sampled_upto(interval, n)[j],
    decreases n,
{
    if n > 0 {
        let m = (n - 1) as nat;
        lemma_sampled_below(interval, m);
        let p = sampled_upto(interval, m);
        let s = sampled_upto(interval, n);
        if m % interval == 0 {
            assert(s == p.push(m));
            assert forall|k: int| 0 <= k < s.len() implies #[trigger] s[k] < n by {
                if k < p.len() {
                    assert(s[k] == p[k]);
                }
            }
            assert forall|i: int, j: int| 0 <= i < j < s.len() implies s[i] < s[j] by {
                assert(s[i] == p[i]);
                if j < p.len() {
                    assert(s[j] == p[j]);
                }
            }
        } else {
            assert(s == p);
        }
    }
}

/// Published frame ids strictly increase over an extractor lifetime, and
/// each one is a multiple of the interval.
pub proof fn law_frame_ids_increase(interval: nat, frames: nat)
    requires
        interval > 0,
    ensures
        forall|i: int, j: int|
            0 <= i < j < sampled_upto(interval, frames).len() ==> sampled_upto(interval, frames)[i]
                < sampled_upto(interval, frames)[j],
        forall|k: int|
            0 <= k < sampled_upto(interval, frames).len() ==> #[trigger] sampled_upto(
                interval,
                frames,
            )[k] % interval == 0,
    decreases frames,
{
    lemma_sampled_below(interval, frames);
    if frames > 0 {
        let m = (frames - 1) as nat;
        law_frame_ids_increase(interval, m);
        let p = sampled_upto(interval, m);
        let s = sampled_upto(interval, frames);
        if m % interval == 0 {
            assert(s == p.push(m));
            assert forall|k: int| 0 <= k < s.len() implies #[trigger] s[k] % interval == 0 by {
                if k < p.len() {
                    assert(s[k] == p[k]);
                }
            }
        } else {
            assert(s == p);
        }
    }
}

/// At an interval of one every delivered frame is published, in order.
pub proof fn law_interval_one_publishes_all(frames: nat)
    ensures
        sampled_upto(1, frames) == Seq::new(frames, |i: int| i as nat),
    decreases frames,
{
    if frames > 0 {
        law_interval_one_publishes_all((frames - 1) as nat);
        assert(((frames - 1) as nat) % 1 == 0);
        assert(sampled_upto(1, frames) =~= Seq::new(frames, |i: int| i as nat));
    }
}

} // verus!
