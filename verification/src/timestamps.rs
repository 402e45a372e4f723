//! Timestamp repair: turns the decode and presentation timestamps of one
//! output track into a strictly increasing sequence.

use vstd::prelude::*;

verus! {

/// The decode timestamp a packet leaves with, given the track's watermark
/// `last` (absent before the first packet) and the timestamp it arrived with.
///
/// A missing timestamp is synthesized just after the watermark (or as 0 on a
/// fresh track); one that does not lie after the watermark is forced to the
/// value just after it.
pub open spec fn repaired_dts(last: Option<int>, dts: Option<int>) -> int {
    match (last, dts) {
        (None, None) => 0,
        (None, Some(d)) => d,
        (Some(l), None) => l + 1,
        (Some(l), Some(d)) => if d <= l { l + 1 } else { d },
    }
}

/// The presentation timestamp a packet leaves with: the one it arrived with,
/// raised to the repaired decode timestamp where it is missing or smaller.
pub open spec fn repaired_pts(last: Option<int>, dts: Option<int>, pts: Option<int>) -> int {
    let d = repaired_dts(last, dts);
    match pts {
        Some(p) => if p < d { d } else { p },
        None => d,
    }
}

/// An optional machine timestamp as an optional mathematical integer.
pub open spec fn stamp(t: Option<i64>) -> Option<int> {
    match t {
        Some(v) => Some(v as int),
        None => None,
    }
}

/// The timestamps one packet arrives with; either may be absent.
#[derive(Clone, Copy, Debug, PartialEq, Eq, Structural)]
pub struct RawStamps {
    pub dts: Option<i64>,
    pub pts: Option<i64>,
}

/// The timestamps a packet is written with.
#[derive(Clone, Copy, Debug, PartialEq, Eq, Structural)]
pub struct Timestamps {
    pub dts: i64,
    pub pts: i64,
}

/// Watermark of one output track within a single pipeline execution.
#[derive(Clone, Copy, Debug)]
pub struct PacketState {
    last_dts: Option<i64>,
    last_pts: Option<i64>,
}

impl PacketState {
    /// Decode timestamp of the last packet written on the track.
    pub closed spec fn dts(&self) -> Option<i64> {
        self.last_dts
    }

    /// Presentation timestamp of the last packet written on the track.
    pub closed spec fn pts(&self) -> Option<i64> {
        self.last_pts
    }

    /// Both watermarks are set together, and presentation never precedes
    /// decode.
    pub open spec fn wf(&self) -> bool {
        match (self.dts(), self.pts()) {
            (None, None) => true,
            (Some(d), Some(p)) => d <= p,
            _ => false,
        }
    }

    /// No timestamp can follow the largest one: a track whose watermark has
    /// reached it cannot carry another packet.
    pub open spec fn exhausted(&self) -> bool {
        self.dts() == Some(i64::MAX)
    }

    /// State of a track that has not carried a packet yet.
    pub fn new() -> (s: Self)
        ensures
            s.wf(),
            s.dts() is None,
            s.pts() is None,
    {
        PacketState { last_dts: None, last_pts: None }
    }

    pub fn last_dts(&self) -> (r: Option<i64>)
        ensures
            r == self.dts(),
    {
        self.last_dts
    }

    pub fn last_pts(&self) -> (r: Option<i64>)
        ensures
            r == self.pts(),
    {
        self.last_pts
    }

    /// Repairs the timestamps of the next packet on this track and advances
    /// the watermark to the repaired values.
    pub fn repair(&mut self, raw: RawStamps) -> (out: Timestamps)
        requires
            !old(self).exhausted(),
        ensures
            out.dts == repaired_dts(stamp(old(self).dts()), stamp(raw.dts)),
            out.pts == repaired_pts(stamp(old(self).dts()), stamp(raw.dts), stamp(raw.pts)),
            final(self).dts() == Some(out.dts),
            final(self).pts() == Some(out.pts),
            final(self).wf(),
    {
        let dts: i64 = match (self.last_dts, raw.dts) {
            (None, None) => 0,
            (None, Some(d)) => d,
            (Some(l), None) => l + 1,
            (Some(l), Some(d)) => if d <= l { l + 1 } else { d },
        };
        let pts: i64 = match raw.pts {
            Some(p) => if p < dts { dts } else { p },
            None => dts,
        };
        self.last_dts = Some(dts);
        self.last_pts = Some(pts);
        Timestamps { dts, pts }
    }

    /// Repairs the next packet's timestamps where the track can still carry
    /// one; an exhausted track is left as it is.
    pub fn try_repair(&mut self, raw: RawStamps) -> (out: Option<Timestamps>)
        ensures
            old(self).exhausted() ==> out is None && *final(self) == *old(self),
            !old(self).exhausted() ==> {
                &&& out is Some
                &&& out->0.dts == repaired_dts(stamp(old(self).dts()), stamp(raw.dts))
                &&& out->0.pts == repaired_pts(stamp(old(self).dts()), stamp(raw.dts), stamp(raw.pts))
                &&& final(self).dts() == Some(out->0.dts)
                &&& final(self).pts() == Some(out->0.pts)
                &&& final(self).wf()
            },
    {
        match self.last_dts {
            Some(l) if l == i64::MAX => None,
            _ => Some(self.repair(raw)),
        }
    }
}

/// A repaired decode timestamp lies strictly after the watermark it was
/// repaired against.
pub proof fn lemma_repaired_dts_after_watermark(last: int, dts: Option<int>)
    ensures
        repaired_dts(Some(last), dts) > last,
{
}

/// A decode timestamp that is present and already lies after the watermark,
/// or arrives on a fresh track, is left as it is.
pub proof fn lemma_repair_keeps_ordered_dts(last: Option<int>, dts: int)
    requires
        last is Some ==> dts > last->0,
    ensures
        repaired_dts(last, Some(dts)) == dts,
{
}

/// A repaired presentation timestamp never precedes the repaired decode
/// timestamp, and equals it where the packet arrived without one.
pub proof fn lemma_repaired_pts_not_before_dts(last: Option<int>, dts: Option<int>, pts: Option<int>)
    ensures
        repaired_pts(last, dts, pts) >= repaired_dts(last, dts),
        pts is None ==> repaired_pts(last, dts, pts) == repaired_dts(last, dts),
        pts is Some && pts->0 >= repaired_dts(last, dts) ==> repaired_pts(last, dts, pts) == pts->0,
{
}

/// `out` holds the decode timestamps that repair gives to the packets that
/// arrive with `input`, one after the other, on a track whose watermark is
/// `last` before the first of them.
pub open spec fn is_repaired_run(last: Option<int>, input: Seq<Option<int>>, out: Seq<int>) -> bool {
    &&& out.len() == input.len()
    &&& forall|i: int|
        0 <= i < out.len() ==> #[trigger] out[i] == repaired_dts(
            if i == 0 { last } else { Some(out[i - 1]) },
            input[i],
        )
}

/// Whatever timestamps arrive, the decode timestamps written on one track
/// are strictly increasing, and all lie after the watermark the run started
/// from.
pub proof fn lemma_repaired_run_increasing(last: Option<int>, input: Seq<Option<int>>, out: Seq<int>)
    requires
        is_repaired_run(last, input, out),
    ensures
        forall|i: int, j: int| 0 <= i < j < out.len() ==> out[i] < out[j],
        last is Some ==> forall|i: int| 0 <= i < out.len() ==> last->0 < out[i],
    decreases out.len(),
{
    if out.len() > 0 {
        let n = out.len() - 1;
        let head_in = input.take(n);
        let head_out = out.take(n);
        assert forall|i: int| 0 <= i < head_out.len() implies #[trigger] head_out[i] == repaired_dts(
            if i == 0 { last } else { Some(head_out[i - 1]) },
            head_in[i],
        ) by {
            assert(head_out[i] == out[i]);
        }
        lemma_repaired_run_increasing(last, head_in, head_out);
        assert forall|i: int, j: int| 0 <= i < j < out.len() implies out[i] < out[j] by {
            if j == n {
                assert(out[n] == repaired_dts(if n == 0 { last } else { Some(out[n - 1]) }, input[n]));
                assert(out[n - 1] == head_out[n - 1]);
                if i < n - 1 {
                    assert(head_out[i] < head_out[n - 1]);
                }
                assert(out[i] == head_out[i]);
            } else {
                assert(head_out[i] < head_out[j]);
            }
        }
        if last is Some {
            assert forall|i: int| 0 <= i < out.len() implies last->0 < out[i] by {
                if i == n {
                    assert(out[n] == repaired_dts(if n == 0 { last } else { Some(out[n - 1]) }, input[n]));
                    if n > 0 {
                        assert(last->0 < head_out[n - 1]);
                        assert(out[n - 1] == head_out[n - 1]);
                    }
                } else {
                    assert(last->0 < head_out[i]);
                }
            }
        }
    }
}

} // verus!
