//! The remux pipeline's decisions: how the input is opened, where each
//! packet goes and which timestamps it is written with. Reading and writing
//! the containers is the caller's part.

use crate::projection::{output_count, output_track, MediaKind, Projection};
use crate::srs::{has_rtsp_scheme, is_rtsp_url};
use crate::timestamps::{repaired_dts, repaired_pts, stamp, PacketState, RawStamps, Timestamps};
use std::sync::atomic::AtomicBool;
use std::sync::atomic::Ordering;
use std::sync::Arc;
use vstd::prelude::*;

verus! {

/// The options an input at `url` is opened with: an RTSP source, its scheme
/// written in any letter case, is read over TCP, with a socket timeout of
/// five seconds given in microseconds; any other source is opened with the
/// protocol's defaults.
pub open spec fn input_options_of(url: Seq<char>) -> Seq<(Seq<char>, Seq<char>)> {
    if has_rtsp_scheme(url) {
        seq![("rtsp_transport"@, "tcp"@), ("stimeout"@, "5000000"@)]
    } else {
        seq![]
    }
}

/// What is done with one packet read from the input.
#[derive(Clone, Copy, Debug, PartialEq, Eq, Structural)]
pub enum Route {
    /// Cancellation was requested: leave the packet loop.
    Stop,
    /// The packet's track is not relayed: drop the packet.
    Discard,
    /// Write the packet to this output track.
    Relay(usize),
}

/// Why a packet could not be given its timestamps.
#[derive(Clone, Copy, Debug, PartialEq, Eq, Structural)]
pub enum RemuxError {
    /// The output has no track of that number.
    OutputTrackMissing,
    /// The track's watermark has reached the largest timestamp.
    TimestampsExhausted,
}

/// The route of a packet of input track `track`.
pub open spec fn route_of(kinds: Seq<MediaKind>, cancelled: bool, track: int) -> Route {
    if cancelled {
        Route::Stop
    } else {
        match output_track(kinds, track) {
            Some(t) => Route::Relay(t as usize),
            None => Route::Discard,
        }
    }
}

/// A track that carries neither audio nor video never reaches the output:
/// it has no output track, and none of its packets is relayed, whether or
/// not cancellation was requested.
pub proof fn lemma_dropped_track_never_reaches_output(
    kinds: Seq<MediaKind>,
    cancelled: bool,
    track: int,
)
    requires
        0 <= track < kinds.len() ==> !kinds[track].relayed(),
    ensures
        output_track(kinds, track) is None,
        !(route_of(kinds, cancelled, track) is Relay),
{
}

/// A packet is relayed only from an audio or video track of the input, and
/// then to that track's output track, unless cancellation was requested.
pub proof fn lemma_relayed_packet_has_a_relayed_track(
    kinds: Seq<MediaKind>,
    cancelled: bool,
    track: int,
)
    requires
        kinds.len() <= usize::MAX,
        route_of(kinds, cancelled, track) is Relay,
    ensures
        !cancelled,
        0 <= track < kinds.len(),
        kinds[track].relayed(),
        route_of(kinds, cancelled, track)->Relay_0 == output_track(kinds, track)->0,
        output_track(kinds, track)->0 < output_count(kinds),
{
    crate::projection::lemma_output_track_in_range(kinds, track);
}

/// State of one pipeline execution: the projection of the input's tracks
/// and the watermark of each output track.
#[derive(Debug)]
pub struct Remuxer {
    projection: Projection,
    states: Vec<PacketState>,
}

impl Remuxer {
    /// The kinds of the input's tracks.
    pub closed spec fn kinds(&self) -> Seq<MediaKind> {
        self.projection.kinds()
    }

    /// The watermark of each output track.
    pub closed spec fn watermarks(&self) -> Seq<PacketState> {
        self.states@
    }

    pub closed spec fn wf(&self) -> bool {
        &&& self.projection.wf()
        &&& self.states@.len() == output_count(self.projection.kinds())
        &&& forall|t: int| 0 <= t < self.states@.len() ==> (#[trigger] self.states@[t]).wf()
    }

    /// A well-formed remuxer has one well-formed watermark per output track.
    pub proof fn lemma_wf(&self)
        requires
            self.wf(),
        ensures
            self.watermarks().len() == output_count(self.kinds()),
            forall|t: int| 0 <= t < self.watermarks().len() ==> (#[trigger] self.watermarks()[t]).wf(),
    {
    }

    /// Projects the input's tracks and starts every output track without a
    /// watermark.
    pub fn new(kinds: Vec<MediaKind>) -> (r: Self)
        ensures
            r.wf(),
            r.kinds() == kinds@,
            r.watermarks().len() == output_count(kinds@),
            forall|t: int|
                0 <= t < r.watermarks().len() ==> (#[trigger] r.watermarks()[t]).dts() is None
                    && r.watermarks()[t].pts() is None,
    {
        let projection = Projection::new(kinds);
        let n = projection.output_count();
        let mut states: Vec<PacketState> = Vec::new();
        let mut t: usize = 0;
        while t < n
            invariant
                t <= n,
                states@.len() == t,
                forall|k: int|
                    0 <= k < t ==> (#[trigger] states@[k]).wf() && states@[k].dts() is None
                        && states@[k].pts() is None,
            decreases n - t,
        {
            states.push(PacketState::new());
            t += 1;
        }
        Remuxer { projection, states }
    }

    /// The projection of the input's tracks.
    pub fn projection(&self) -> (p: &Projection)
        requires
            self.wf(),
        ensures
            p.wf(),
            p.kinds() == self.kinds(),
    {
        &self.projection
    }

    /// Decides what is done with a packet of input track `track`, given
    /// whether cancellation has been requested.
    pub fn route(&self, cancelled: bool, track: usize) -> (r: Route)
        requires
            self.wf(),
        ensures
            r == route_of(self.kinds(), cancelled, track as int),
            r is Relay ==> r->Relay_0 < self.watermarks().len(),
    {
        if cancelled {
            return Route::Stop;
        }
        match self.projection.target_of(track) {
            Some(t) => {
                proof {
                    crate::projection::lemma_output_track_in_range(self.kinds(), track as int);
                }
                Route::Relay(t)
            },
            None => Route::Discard,
        }
    }

    /// The watermark of output track `out`.
    pub fn watermark(&self, out: usize) -> (r: Option<PacketState>)
        requires
            self.wf(),
        ensures
            match r {
                Some(s) => out < self.watermarks().len() && s == self.watermarks()[out as int],
                None => out >= self.watermarks().len(),
            },
    {
        if out < self.states.len() {
            Some(self.states[out])
        } else {
            None
        }
    }

    /// Gives the next packet of output track `out` its timestamps and
    /// advances that track's watermark. Fails, changing nothing, where the
    /// output has no such track or the track cannot carry another packet.
    pub fn restamp(&mut self, out: usize, raw: RawStamps) -> (r: Result<Timestamps, RemuxError>)
        requires
            old(self).wf(),
        ensures
            final(self).wf(),
            final(self).kinds() == old(self).kinds(),
            final(self).watermarks().len() == old(self).watermarks().len(),
            forall|t: int|
                0 <= t < old(self).watermarks().len() && t != out ==> final(self).watermarks()[t]
                    == old(self).watermarks()[t],
            out >= old(self).watermarks().len() ==> r == Err::<Timestamps, RemuxError>(
                RemuxError::OutputTrackMissing,
            ),
            out < old(self).watermarks().len() && old(self).watermarks()[out as int].exhausted() ==> r
                == Err::<Timestamps, RemuxError>(RemuxError::TimestampsExhausted),
            r is Err ==> final(self).watermarks() == old(self).watermarks(),
            out < old(self).watermarks().len() && !old(self).watermarks()[out as int].exhausted() ==> {
                let before = stamp(old(self).watermarks()[out as int].dts());
                &&& r is Ok
                &&& r->Ok_0.dts == repaired_dts(before, stamp(raw.dts))
                &&& r->Ok_0.pts == repaired_pts(before, stamp(raw.dts), stamp(raw.pts))
                &&& final(self).watermarks()[out as int].dts() == Some(r->Ok_0.dts)
                &&& final(self).watermarks()[out as int].pts() == Some(r->Ok_0.pts)
            },
    {
        if out >= self.states.len() {
            return Err(RemuxError::OutputTrackMissing);
        }
        match self.states[out].try_repair(raw) {
            Some(ts) => Ok(ts),
            None => Err(RemuxError::TimestampsExhausted),
        }
    }
}

/// One pipeline execution's parameters: where it reads, where it writes, and
/// the flag through which it is asked to stop.
#[derive(Debug)]
pub struct Transcoder {
    input_url: String,
    output_url: String,
    running: Arc<AtomicBool>,
}

impl Transcoder {
    /// The address the pipeline reads from.
    pub closed spec fn input(&self) -> Seq<char> {
        self.input_url@
    }

    /// The address the pipeline writes to.
    pub closed spec fn output(&self) -> Seq<char> {
        self.output_url@
    }

    /// The flag through which the pipeline is asked to stop.
    pub closed spec fn stop_flag(&self) -> Arc<AtomicBool> {
        self.running
    }

    /// A pipeline from `input_url` to `output_url` that runs while `running`
    /// holds `true`.
    pub fn new(input_url: String, output_url: String, running: Arc<AtomicBool>) -> (t: Self)
        ensures
            t.input() == input_url@,
            t.output() == output_url@,
            t.stop_flag() == running,
    {
        Transcoder { input_url, output_url, running }
    }

    pub fn input_url(&self) -> (r: &str)
        ensures
            r@ == self.input(),
    {
        self.input_url.as_str()
    }

    pub fn output_url(&self) -> (r: &str)
        ensures
            r@ == self.output(),
    {
        self.output_url.as_str()
    }

    /// The container format the output is written in.
    pub fn output_format(&self) -> (r: &'static str)
        ensures
            r@ == "flv"@,
    {
        "flv"
    }

    /// The options the input is opened with, as key and value.
    pub fn input_options(&self) -> (r: Vec<(&'static str, &'static str)>)
        ensures
            r@.len() == input_options_of(self.input()).len(),
            forall|i: int|
                0 <= i < r@.len() ==> (#[trigger] r@[i]).0@ == input_options_of(self.input())[i].0
                    && r@[i].1@ == input_options_of(self.input())[i].1,
    {
        let mut options: Vec<(&'static str, &'static str)> = Vec::new();
        if is_rtsp_url(self.input_url.as_str()) {
            options.push(("rtsp_transport", "tcp"));
            options.push(("stimeout", "5000000"));
        }
        options
    }

    /// Whether the pipeline has not been asked to stop. The flag is shared
    /// with the supervisor, so nothing is known of the answer.
    pub fn is_running(&self) -> bool {
        self.running.load(Ordering::Relaxed)
    }

    /// Polls the stop flag and routes a packet of input track `track`: the
    /// packet is routed as `remuxer` routes it, unless a stop was requested.
    pub fn route(&self, remuxer: &Remuxer, track: usize) -> (r: Route)
        requires
            remuxer.wf(),
        ensures
            r is Stop || r == route_of(remuxer.kinds(), false, track as int),
            r is Relay ==> r->Relay_0 < remuxer.watermarks().len(),
    {
        let cancelled = !self.is_running();
        remuxer.route(cancelled, track)
    }
}

} // verus!
