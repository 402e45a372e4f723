//! Track projection: which input tracks are relayed, and to which output
//! track each of them goes.

use vstd::prelude::*;

verus! {

/// What a track of the input carries.
#[derive(Clone, Copy, Debug, PartialEq, Eq, Structural)]
pub enum MediaKind {
    Unknown,
    Video,
    Audio,
    Data,
    Subtitle,
    Attachment,
}

impl MediaKind {
    /// Only audio and video tracks are relayed.
    pub open spec fn relayed(self) -> bool {
        self is Video || self is Audio
    }

    pub fn is_relayed(self) -> (r: bool)
        ensures
            r == self.relayed(),
    {
        match self {
            MediaKind::Video => true,
            MediaKind::Audio => true,
            _ => false,
        }
    }
}

/// Number of relayed tracks among the first `n` tracks of `kinds`.
pub open spec fn relayed_before(kinds: Seq<MediaKind>, n: int) -> nat
    decreases n,
{
    if n <= 0 {
        0
    } else {
        relayed_before(kinds, n - 1) + if kinds[n - 1].relayed() { 1nat } else { 0nat }
    }
}

/// The output track that input track `i` is relayed to: relayed tracks are
/// numbered from 0 in input order, all others have none.
pub open spec fn output_track(kinds: Seq<MediaKind>, i: int) -> Option<nat> {
    if 0 <= i < kinds.len() && kinds[i].relayed() {
        Some(relayed_before(kinds, i))
    } else {
        None
    }
}

/// Number of output tracks.
pub open spec fn output_count(kinds: Seq<MediaKind>) -> nat {
    relayed_before(kinds, kinds.len() as int)
}

/// Counting relayed tracks never goes down, and counts at most one per track.
pub proof fn lemma_relayed_before_monotone(kinds: Seq<MediaKind>, m: int, n: int)
    requires
        0 <= m <= n,
    ensures
        relayed_before(kinds, m) <= relayed_before(kinds, n) <= relayed_before(kinds, m) + (n - m),
    decreases n - m,
{
    if m < n {
        lemma_relayed_before_monotone(kinds, m, n - 1);
    }
}

/// Every output track number lies below the number of output tracks.
pub proof fn lemma_output_track_in_range(kinds: Seq<MediaKind>, i: int)
    requires
        output_track(kinds, i) is Some,
    ensures
        output_track(kinds, i)->0 < output_count(kinds),
        output_count(kinds) <= kinds.len(),
{
    lemma_relayed_before_monotone(kinds, i + 1, kinds.len() as int);
    lemma_relayed_before_monotone(kinds, 0, kinds.len() as int);
}

/// Relayed tracks keep their order, so no two of them share an output track.
pub proof fn lemma_output_tracks_ordered(kinds: Seq<MediaKind>, i: int, j: int)
    requires
        i < j,
        output_track(kinds, i) is Some,
        output_track(kinds, j) is Some,
    ensures
        output_track(kinds, i)->0 < output_track(kinds, j)->0,
{
    lemma_relayed_before_monotone(kinds, i + 1, j);
}

/// The projection of one input: for each input track its output track, and
/// for each output track the input track whose parameters it copies.
#[derive(Debug)]
pub struct Projection {
    kinds: Vec<MediaKind>,
    targets: Vec<Option<usize>>,
    sources: Vec<usize>,
}

impl Projection {
    /// The kinds of the input's tracks, in input order.
    pub closed spec fn kinds(&self) -> Seq<MediaKind> {
        self.kinds@
    }

    /// Output track of each input track, as stored.
    pub closed spec fn targets(&self) -> Seq<Option<usize>> {
        self.targets@
    }

    /// Input track of each output track, as stored.
    pub closed spec fn sources(&self) -> Seq<usize> {
        self.sources@
    }

    /// The stored tables agree with `output_track`, and `sources` inverts
    /// `targets`.
    pub open spec fn wf(&self) -> bool {
        &&& self.targets().len() == self.kinds().len()
        &&& self.sources().len() == output_count(self.kinds())
        &&& forall|i: int|
            0 <= i < self.kinds().len() ==> match #[trigger] self.targets()[i] {
                Some(t) => output_track(self.kinds(), i) == Some(t as nat),
                None => output_track(self.kinds(), i) is None,
            }
        &&& forall|t: int|
            0 <= t < self.sources().len() ==> 0 <= #[trigger] self.sources()[t] < self.kinds().len()
                && output_track(self.kinds(), self.sources()[t] as int) == Some(t as nat)
    }

    /// Builds the projection for an input whose tracks are of the given
    /// kinds.
    pub fn new(kinds: Vec<MediaKind>) -> (p: Self)
        ensures
            p.wf(),
            p.kinds() == kinds@,
    {
        let mut targets: Vec<Option<usize>> = Vec::new();
        let mut sources: Vec<usize> = Vec::new();
        let mut i: usize = 0;
        while i < kinds.len()
            invariant
                i <= kinds.len(),
                targets.len() == i,
                sources.len() == relayed_before(kinds@, i as int),
                forall|k: int|
                    0 <= k < i ==> match #[trigger] targets@[k] {
                        Some(t) => output_track(kinds@, k) == Some(t as nat),
                        None => output_track(kinds@, k) is None,
                    },
                forall|t: int|
                    0 <= t < sources.len() ==> 0 <= #[trigger] sources@[t] < i && output_track(
                        kinds@,
                        sources@[t] as int,
                    ) == Some(t as nat),
            decreases kinds.len() - i,
        {
            if kinds[i].is_relayed() {
                targets.push(Some(sources.len()));
                sources.push(i);
            } else {
                targets.push(None);
            }
            i += 1;
        }
        Projection { kinds, targets, sources }
    }

    /// Number of input tracks.
    pub fn input_count(&self) -> (n: usize)
        ensures
            n == self.kinds().len(),
    {
        self.kinds.len()
    }

    /// Number of output tracks.
    pub fn output_count(&self) -> (n: usize)
        requires
            self.wf(),
        ensures
            n == output_count(self.kinds()),
    {
        self.sources.len()
    }

    /// The output track that packets of input track `track` go to; `None`
    /// for a track that is not relayed, or that the input does not have.
    pub fn target_of(&self, track: usize) -> (r: Option<usize>)
        requires
            self.wf(),
        ensures
            r is Some <==> track < self.kinds().len() && self.kinds()[track as int].relayed(),
            match r {
                Some(t) => output_track(self.kinds(), track as int) == Some(t as nat),
                None => output_track(self.kinds(), track as int) is None,
            },
    {
        if track < self.targets.len() {
            self.targets[track]
        } else {
            None
        }
    }

    /// The input track whose codec parameters output track `out` copies;
    /// `None` where there is no such output track.
    pub fn source_of(&self, out: usize) -> (r: Option<usize>)
        requires
            self.wf(),
        ensures
            r is Some <==> out < output_count(self.kinds()),
            r is Some ==> r->0 < self.kinds().len() && self.kinds()[r->0 as int].relayed()
                && output_track(self.kinds(), r->0 as int) == Some(out as nat),
    {
        if out < self.sources.len() {
            Some(self.sources[out])
        } else {
            None
        }
    }
}

} // verus!
