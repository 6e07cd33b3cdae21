//! The analysis job queue: which track is analysed next, which request is
//! refused and why, and which running job a newer request cancels.
use std::sync::atomic::AtomicBool;
use std::sync::atomic::Ordering;
use std::sync::Arc;
use vstd::prelude::*;
use vstd::string::StringExecFns;

use super::cache::binary32_in_unit_interval;
use super::cache::binary32_is_finite;
use super::cache::binary64_is_finite;
use super::cache::binary64_is_positive;
use super::types::AnalysisStage;
use super::types::MusicalKey;
use super::types::TrackIdentity;
use super::types::TrackIdentityView;
use super::ANALYSIS_VERSION;

verus! {

broadcast use vstd::seq_lib::group_seq_properties;

pub const DEFAULT_ANALYSIS_QUEUE_CAPACITY: usize = 64;

/// A flag shared between the queue and the job that polls it.
#[derive(Debug)]
pub struct CancellationToken {
    cancelled: Arc<AtomicBool>,
}

impl CancellationToken {
    /// A handle on a fresh flag that is not set. vstd models an atomic's
    /// value nowhere, so the contract cannot say that the flag is unset.
    pub fn new() -> (token: CancellationToken) {
        CancellationToken { cancelled: Arc::new(AtomicBool::new(false)) }
    }

    /// Whether the job was cancelled. Another thread may cancel it at any
    /// time, so nothing is promised of the answer.
    pub fn is_cancelled(&self) -> bool {
        self.cancelled.load(Ordering::Acquire)
    }

    pub fn cancel(&self) {
        self.cancelled.store(true, Ordering::Release);
    }

    /// A second handle on the same flag.
    pub fn share(&self) -> (token: CancellationToken)
        ensures
            token == *self,
    {
        CancellationToken { cancelled: Arc::clone(&self.cancelled) }
    }
}

#[derive(Clone, Debug, PartialEq, Eq)]
pub enum AnalysisServiceError {
    InvalidCapacity,
    InvalidTrack,
    InvalidResult,
    AlreadyQueued,
    QueueFull,
    ShuttingDown,
    WorkerUnavailable,
    WorkerPanicked,
    Persistence(String),
    Processing(String),
}

pub open spec fn service_error_text(e: &AnalysisServiceError) -> Seq<char> {
    match e {
        AnalysisServiceError::InvalidCapacity => "analysis queue capacity must be positive"@,
        AnalysisServiceError::InvalidTrack => "analysis track identity is invalid"@,
        AnalysisServiceError::InvalidResult => "analysis result version is invalid"@,
        AnalysisServiceError::AlreadyQueued => "the same track analysis is already queued"@,
        AnalysisServiceError::QueueFull => "analysis queue is full"@,
        AnalysisServiceError::ShuttingDown => "analysis service is shutting down"@,
        AnalysisServiceError::WorkerUnavailable => "analysis worker is unavailable"@,
        AnalysisServiceError::WorkerPanicked => "analysis worker panicked"@,
        AnalysisServiceError::Persistence(error) => "analysis persistence failed: "@ + error@,
        AnalysisServiceError::Processing(error) => "analysis failed: "@ + error@,
    }
}

impl AnalysisServiceError {
    pub fn message(&self) -> (text: String)
        ensures
            text@ == service_error_text(self),
    {
        match self {
            AnalysisServiceError::InvalidCapacity => String::from_str(
                "analysis queue capacity must be positive",
            ),
            AnalysisServiceError::InvalidTrack => String::from_str(
                "analysis track identity is invalid",
            ),
            AnalysisServiceError::InvalidResult => String::from_str(
                "analysis result version is invalid",
            ),
            AnalysisServiceError::AlreadyQueued => String::from_str(
                "the same track analysis is already queued",
            ),
            AnalysisServiceError::QueueFull => String::from_str("analysis queue is full"),
            AnalysisServiceError::ShuttingDown => String::from_str(
                "analysis service is shutting down",
            ),
            AnalysisServiceError::WorkerUnavailable => String::from_str(
                "analysis worker is unavailable",
            ),
            AnalysisServiceError::WorkerPanicked => String::from_str("analysis worker panicked"),
            AnalysisServiceError::Persistence(error) => {
                let mut text = String::from_str("analysis persistence failed: ");
                text.append(error.as_str());
                text
            },
            AnalysisServiceError::Processing(error) => {
                let mut text = String::from_str("analysis failed: ");
                text.append(error.as_str());
                text
            },
        }
    }
}

/// A track can be analysed when it has a database id, a non-empty file and
/// a path.
pub open spec fn identity_valid(t: TrackIdentityView) -> bool {
    t.track_id > 0 && t.file_size != 0 && t.path.len() != 0
}

pub fn validate_identity(track: &TrackIdentity) -> (checked: Result<(), AnalysisServiceError>)
    ensures
        match checked {
            Ok(_) => identity_valid(track@),
            Err(e) => !identity_valid(track@) && e == AnalysisServiceError::InvalidTrack,
        },
{
    if track.track_id <= 0 || track.file_size == 0 || track.path.as_str().unicode_len() == 0 {
        return Err(AnalysisServiceError::InvalidTrack);
    }
    Ok(())
}

/// A finished analysis as the values it is checked by: the tempo (binary64
/// bits) and its confidence (binary32 bits), the key and its confidence
/// (binary32 bits), and the loudness and true peak (binary64 bits).
pub struct ResultFigures {
    pub analysis_version: u32,
    pub bpm: Option<(u64, u32)>,
    pub musical_key: Option<(MusicalKey, u32)>,
    pub integrated_lufs: Option<u64>,
    pub true_peak_dbtp: Option<u64>,
}

/// A result can be stored when it comes from the current analysis version, a
/// tempo is finite and above zero, every confidence is finite and within
/// `0.0..=1.0`, a key names one of the twelve pitch classes, and the loudness
/// figures are finite.
pub open spec fn result_valid(r: ResultFigures) -> bool {
    &&& r.analysis_version == ANALYSIS_VERSION
    &&& (r.bpm matches Some((value, confidence)) ==> binary64_is_finite(value) && binary64_is_positive(value)
        && binary32_is_finite(confidence) && binary32_in_unit_interval(confidence))
    &&& (r.musical_key matches Some((key, confidence)) ==> key.pitch_class < 12 && binary32_is_finite(
        confidence,
    ) && binary32_in_unit_interval(confidence))
    &&& (r.integrated_lufs matches Some(value) ==> binary64_is_finite(value))
    &&& (r.true_peak_dbtp matches Some(value) ==> binary64_is_finite(value))
}

fn confidence_ok(bits: u32) -> (ok: bool)
    ensures
        ok == (binary32_is_finite(bits) && binary32_in_unit_interval(bits)),
{
    bits & 0x7f80_0000u32 != 0x7f80_0000u32 && ((bits >> 31u32 == 0 && bits <= 0x3f80_0000u32)
        || bits == 0x8000_0000u32)
}

fn finite64(bits: u64) -> (ok: bool)
    ensures
        ok == binary64_is_finite(bits),
{
    bits & 0x7ff0_0000_0000_0000u64 != 0x7ff0_0000_0000_0000u64
}

/// Checks a finished analysis before it is stored (see [`result_valid`]).
pub fn check_result(r: &ResultFigures) -> (checked: Result<(), AnalysisServiceError>)
    ensures
        checked is Ok <==> result_valid(*r),
        checked matches Err(e) ==> e == AnalysisServiceError::InvalidResult,
{
    if r.analysis_version != ANALYSIS_VERSION {
        return Err(AnalysisServiceError::InvalidResult);
    }
    match r.bpm {
        Some((value, confidence)) => {
            if !finite64(value) || !(value >> 63u64 == 0 && value != 0) || !confidence_ok(confidence) {
                return Err(AnalysisServiceError::InvalidResult);
            }
        },
        None => {},
    }
    match r.musical_key {
        Some((key, confidence)) => {
            if key.pitch_class >= 12 || !confidence_ok(confidence) {
                return Err(AnalysisServiceError::InvalidResult);
            }
        },
        None => {},
    }
    match r.integrated_lufs {
        Some(value) => {
            if !finite64(value) {
                return Err(AnalysisServiceError::InvalidResult);
            }
        },
        None => {},
    }
    match r.true_peak_dbtp {
        Some(value) => {
            if !finite64(value) {
                return Err(AnalysisServiceError::InvalidResult);
            }
        },
        None => {},
    }
    Ok(())
}

/// How a finished job is recorded.
#[derive(Clone, Copy, Debug, PartialEq, Eq, Structural)]
pub struct JobSettlement {
    /// The stage the job's snapshot shows.
    pub stage: AnalysisStage,
    /// Whether the job is stored as failed with the cancellation message.
    pub record_cancellation: bool,
    /// Whether the job's snapshot is updated; it is not where a newer
    /// version of the track already waits.
    pub publish_snapshot: bool,
}

/// How a job that has stopped running is recorded: a cancelled job is
/// stored as cancelled unless a newer version of its track waits; otherwise
/// it is complete when its result was analysed and stored, and failed when
/// either step failed.
pub fn settle_job(cancelled: bool, replacement_pending: bool, stored: bool) -> (s: JobSettlement)
    ensures
        s.stage == if cancelled {
            AnalysisStage::Cancelled
        } else if stored {
            AnalysisStage::Complete
        } else {
            AnalysisStage::Failed
        },
        s.record_cancellation == (cancelled && !replacement_pending),
        s.publish_snapshot == !(cancelled && replacement_pending),
{
    let replaced = cancelled && replacement_pending;
    if cancelled {
        JobSettlement {
            stage: AnalysisStage::Cancelled,
            record_cancellation: !replacement_pending,
            publish_snapshot: !replaced,
        }
    } else if stored {
        JobSettlement {
            stage: AnalysisStage::Complete,
            record_cancellation: false,
            publish_snapshot: true,
        }
    } else {
        JobSettlement { stage: AnalysisStage::Failed, record_cancellation: false, publish_snapshot: true }
    }
}

pub struct QueuedJob {
    pub track: TrackIdentity,
    pub cancellation: CancellationToken,
}

impl QueuedJob {
    fn share(&self) -> (job: QueuedJob)
        ensures
            job.track@ == self.track@,
    {
        QueuedJob { track: self.track.duplicate(), cancellation: self.cancellation.share() }
    }
}

pub open spec fn job_track(job: QueuedJob) -> TrackIdentityView {
    job.track@
}

pub open spec fn other_track(track_id: i64) -> spec_fn(TrackIdentityView) -> bool {
    |t: TrackIdentityView| t.track_id != track_id
}

/// What the queue decides when the same track, in the same version, is
/// requested again, or another version of a queued track, or a new track.
pub open spec fn enqueue_decision(
    queued: Seq<TrackIdentityView>,
    active: Option<TrackIdentityView>,
    capacity: nat,
    shutting_down: bool,
    track: TrackIdentityView,
) -> Result<bool, AnalysisServiceError> {
    if !identity_valid(track) {
        Err(AnalysisServiceError::InvalidTrack)
    } else if shutting_down {
        Err(AnalysisServiceError::ShuttingDown)
    } else if active == Some(track) || queued.contains(track) {
        Err(AnalysisServiceError::AlreadyQueued)
    } else {
        let replaced = exists|i: int| 0 <= i < queued.len() && #[trigger] queued[i].track_id == track.track_id;
        if !replaced && queued.len() >= capacity {
            Err(AnalysisServiceError::QueueFull)
        } else {
            Ok(replaced)
        }
    }
}

/// How a request to queue a valid track is answered while the queue is open
/// and the same version is neither running nor waiting: when an older version
/// of the track waits, it is replaced, however full the queue is; otherwise
/// the track is refused only when the queue holds `capacity` jobs, and is
/// added as a new entry when there is room.
pub proof fn lemma_enqueue_replaces_stale_version(
    queued: Seq<TrackIdentityView>,
    active: Option<TrackIdentityView>,
    capacity: nat,
    shutting_down: bool,
    track: TrackIdentityView,
)
    ensures
        !identity_valid(track) ==> enqueue_decision(queued, active, capacity, shutting_down, track)
            == Err::<bool, AnalysisServiceError>(AnalysisServiceError::InvalidTrack),
        identity_valid(track) && shutting_down ==> enqueue_decision(
            queued,
            active,
            capacity,
            shutting_down,
            track,
        ) == Err::<bool, AnalysisServiceError>(AnalysisServiceError::ShuttingDown),
        identity_valid(track) && !shutting_down && (active == Some(track) || queued.contains(track))
            ==> enqueue_decision(queued, active, capacity, shutting_down, track) == Err::<
            bool,
            AnalysisServiceError,
        >(AnalysisServiceError::AlreadyQueued),
        identity_valid(track) && !shutting_down && active != Some(track) && !queued.contains(track)
            ==> {
            &&& forall|i: int|
                0 <= i < queued.len() && #[trigger] queued[i].track_id == track.track_id
                    ==> enqueue_decision(queued, active, capacity, shutting_down, track) == Ok::<
                    bool,
                    AnalysisServiceError,
                >(true)
            &&& (forall|i: int| 0 <= i < queued.len() ==> #[trigger] queued[i].track_id != track.track_id)
                ==> enqueue_decision(queued, active, capacity, shutting_down, track) == if queued.len()
                >= capacity {
                Err::<bool, AnalysisServiceError>(AnalysisServiceError::QueueFull)
            } else {
                Ok::<bool, AnalysisServiceError>(false)
            }
        },
{
}

/// Where a track stands: 0 while it is analysed, its place counted from 1
/// while it waits, nothing otherwise.
pub open spec fn position_of(
    queued: Seq<TrackIdentityView>,
    active: Option<TrackIdentityView>,
    track_id: i64,
) -> Option<nat> {
    if active matches Some(a) && a.track_id == track_id {
        Some(0)
    } else if exists|i: int| 0 <= i < queued.len() && #[trigger] queued[i].track_id == track_id {
        let i = choose|i: int| 0 <= i < queued.len() && #[trigger] queued[i].track_id == track_id
            && forall|j: int| 0 <= j < i ==> queued[j].track_id != track_id;
        Some((i + 1) as nat)
    } else {
        None
    }
}

/// Distinct queued jobs belong to distinct tracks.
pub open spec fn unique_track_ids(queued: Seq<TrackIdentityView>) -> bool {
    forall|i: int, j: int|
        0 <= i < j < queued.len() ==> #[trigger] queued[i].track_id != #[trigger] queued[j].track_id
}

proof fn lemma_filter_unique(s: Seq<TrackIdentityView>, track_id: i64)
    requires
        unique_track_ids(s),
    ensures
        unique_track_ids(s.filter(other_track(track_id))),
        forall|i: int|
            0 <= i < s.filter(other_track(track_id)).len() ==> (#[trigger] s.filter(
                other_track(track_id),
            )[i]).track_id != track_id,
        forall|x: TrackIdentityView| #[trigger] s.filter(other_track(track_id)).contains(x) ==> s.contains(x),
    decreases s.len(),
{
    reveal(Seq::filter);
    let p = other_track(track_id);
    if s.len() > 0 {
        let front = s.drop_last();
        assert(unique_track_ids(front)) by {
            assert forall|i: int, j: int| 0 <= i < j < front.len() implies #[trigger] front[i].track_id
                != #[trigger] front[j].track_id by {
                assert(front[i] == s[i] && front[j] == s[j]);
            }
        }
        lemma_filter_unique(front, track_id);
        let f = front.filter(p);
        if p(s.last()) {
            assert(s.filter(p) == f.push(s.last()));
            assert forall|i: int, j: int|
                0 <= i < j < f.push(s.last()).len() implies #[trigger] f.push(s.last())[i].track_id
                != #[trigger] f.push(s.last())[j].track_id by {
                if j == f.len() {
                    assert(f.contains(f[i]));
                    assert(front.contains(f[i]));
                    let k = choose|k: int| 0 <= k < front.len() && front[k] == f[i];
                    assert(s[k] == front[k]);
                    assert(s[s.len() - 1] == s.last());
                }
            }
            assert forall|x: TrackIdentityView| #[trigger] f.push(s.last()).contains(x) implies s.contains(x) by {
                if x != s.last() {
                    assert(f.contains(x));
                    assert(front.contains(x));
                    let k = choose|k: int| 0 <= k < front.len() && front[k] == x;
                    assert(s[k] == x);
                } else {
                    assert(s[s.len() - 1] == x);
                }
            }
        } else {
            assert(s.filter(p) == f);
            assert forall|x: TrackIdentityView| #[trigger] f.contains(x) implies s.contains(x) by {
                assert(front.contains(x));
                let k = choose|k: int| 0 <= k < front.len() && front[k] == x;
                assert(s[k] == x);
            }
        }
    }
}

proof fn lemma_filter_shorter(s: Seq<TrackIdentityView>, track_id: i64, k: int)
    requires
        0 <= k < s.len(),
        s[k].track_id == track_id,
    ensures
        s.filter(other_track(track_id)).len() < s.len(),
    decreases s.len(),
{
    reveal(Seq::filter);
    let p = other_track(track_id);
    let front = s.drop_last();
    s.lemma_filter_len(p);
    front.lemma_filter_len(p);
    if k < s.len() - 1 {
        lemma_filter_shorter(front, track_id, k);
    }
}

/// Once a track is cancelled, or a newer version of it queued, no older job
/// of it waits: nothing that stays in the queue belongs to the track.
pub proof fn lemma_no_job_of_cancelled_track_waits(queued: Seq<TrackIdentityView>, track_id: i64)
    ensures
        forall|k: int|
            0 <= k < queued.filter(other_track(track_id)).len() ==> #[trigger] queued.filter(
                other_track(track_id),
            )[k].track_id != track_id,
{
    queued.filter_lemma(other_track(track_id));
    assert forall|k: int|
        0 <= k < queued.filter(other_track(track_id)).len() implies #[trigger] queued.filter(
            other_track(track_id),
        )[k].track_id != track_id by {
        assert(other_track(track_id)(queued.filter(other_track(track_id))[k]));
    }
}

pub struct AnalysisQueue {
    queue: Vec<QueuedJob>,
    active: Option<QueuedJob>,
    capacity: usize,
    shutting_down: bool,
}

#[derive(Debug, Clone, Copy, PartialEq, Eq, Structural)]
pub struct CancelOutcome {
    pub removed_queued: bool,
    pub cancelled_active: bool,
}

impl AnalysisQueue {
    /// The tracks waiting, first to be analysed first.
    pub closed spec fn queued(&self) -> Seq<TrackIdentityView> {
        self.queue@.map_values(|j: QueuedJob| job_track(j))
    }

    /// The track being analysed, if any.
    pub closed spec fn active_track(&self) -> Option<TrackIdentityView> {
        match &self.active {
            Some(j) => Some(j.track@),
            None => None,
        }
    }

    pub closed spec fn capacity(&self) -> nat {
        self.capacity as nat
    }

    pub closed spec fn is_shutting_down(&self) -> bool {
        self.shutting_down
    }

    /// The queue never holds more than its capacity, nor two jobs of one track.
    pub open spec fn wf(&self) -> bool {
        &&& self.capacity() > 0
        &&& self.queued().len() <= self.capacity()
        &&& unique_track_ids(self.queued())
    }

    pub fn new(capacity: usize) -> (queue: Result<AnalysisQueue, AnalysisServiceError>)
        ensures
            match queue {
                Ok(q) => {
                    &&& capacity > 0
                    &&& q.wf()
                    &&& q.queued().len() == 0
                    &&& q.active_track() is None
                    &&& q.capacity() == capacity
                    &&& !q.is_shutting_down()
                },
                Err(e) => capacity == 0 && e == AnalysisServiceError::InvalidCapacity,
            },
    {
        if capacity == 0 {
            return Err(AnalysisServiceError::InvalidCapacity);
        }
        let q = AnalysisQueue { queue: Vec::new(), active: None, capacity, shutting_down: false };
        assert(q.queued() =~= Seq::<TrackIdentityView>::empty());
        Ok(q)
    }

    /// Whether `track` may be queued, and whether it then replaces a stale
    /// queued version of the same track. Nothing changes.
    pub fn check_enqueue(&self, track: &TrackIdentity) -> (checked: Result<bool, AnalysisServiceError>)
        ensures
            checked == enqueue_decision(
                self.queued(),
                self.active_track(),
                self.capacity(),
                self.is_shutting_down(),
                track@,
            ),
    {
        validate_identity(track)?;
        if self.shutting_down {
            return Err(AnalysisServiceError::ShuttingDown);
        }
        let ghost queued = self.queued();
        let mut duplicate = match &self.active {
            Some(job) => job.track.same_as(track),
            None => false,
        };
        let mut replaced = false;
        let mut i: usize = 0;
        while i < self.queue.len()
            invariant
                0 <= i <= self.queue@.len(),
                queued == self.queued(),
                queued.len() == self.queue@.len(),
                duplicate == ((self.active_track() == Some(track@)) || exists|k: int|
                    0 <= k < i && queued[k] == track@),
                replaced == exists|k: int| 0 <= k < i && #[trigger] queued[k].track_id == track@.track_id,
            decreases self.queue@.len() - i,
        {
            assert(queued[i as int] == self.queue@[i as int].track@);
            assert(queued[i as int].track_id == self.queue@[i as int].track.track_id);
            if self.queue[i].track.same_as(track) {
                duplicate = true;
            }
            if self.queue[i].track.track_id == track.track_id {
                replaced = true;
            }
            i = i + 1;
        }
        if duplicate {
            proof {
                if self.active_track() != Some(track@) {
                    let k = choose|k: int| 0 <= k < i && queued[k] == track@;
                    assert(queued.contains(track@));
                }
            }
            return Err(AnalysisServiceError::AlreadyQueued);
        }
        assert(!queued.contains(track@));
        if !replaced && self.queue.len() >= self.capacity {
            return Err(AnalysisServiceError::QueueFull);
        }
        Ok(replaced)
    }

    /// Queues `track` after `check_enqueue` accepted it: older queued
    /// versions of the same track leave the queue, and a running analysis of
    /// the same track is cancelled. Returns whether one was.
    pub fn commit_enqueue(&mut self, track: TrackIdentity) -> (cancelled_active: bool)
        requires
            old(self).wf(),
            enqueue_decision(
                old(self).queued(),
                old(self).active_track(),
                old(self).capacity(),
                old(self).is_shutting_down(),
                track@,
            ) is Ok,
        ensures
            final(self).wf(),
            final(self).queued() == old(self).queued().filter(other_track(track@.track_id)).push(
                track@,
            ),
            final(self).active_track() == old(self).active_track(),
            final(self).capacity() == old(self).capacity(),
            final(self).is_shutting_down() == old(self).is_shutting_down(),
            cancelled_active == (old(self).active_track() matches Some(a) && a.track_id
                == track@.track_id),
    {
        let ghost queued = self.queued();
        let ghost p = other_track(track.track_id);
        let mut kept: Vec<QueuedJob> = Vec::new();
        let mut i: usize = 0;
        while i < self.queue.len()
            invariant
                0 <= i <= self.queue@.len(),
                queued == self.queued(),
                queued.len() == self.queue@.len(),
                p == other_track(track@.track_id),
                kept@.map_values(|j: QueuedJob| job_track(j)) == queued.take(i as int).filter(p),
            decreases self.queue@.len() - i,
        {
            assert(queued.take(i + 1).drop_last() =~= queued.take(i as int));
            assert(queued[i as int] == self.queue@[i as int].track@);
            assert(queued[i as int].track_id == self.queue@[i as int].track.track_id);
            proof {
                reveal(Seq::filter);
            }
            if self.queue[i].track.track_id != track.track_id {
                let job = self.queue[i].share();
                let ghost before = kept@.map_values(|j: QueuedJob| job_track(j));
                kept.push(job);
                assert(kept@.map_values(|j: QueuedJob| job_track(j)) =~= before.push(queued[i as int]));
            }
            i = i + 1;
        }
        assert(queued.take(queued.len() as int) =~= queued);
        let cancelled_active = match &self.active {
            Some(job) => {
                if job.track.track_id == track.track_id {
                    job.cancellation.cancel();
                    true
                } else {
                    false
                }
            },
            None => false,
        };
        let ghost before = kept@.map_values(|j: QueuedJob| job_track(j));
        let ghost tv = track@;
        kept.push(QueuedJob { track, cancellation: CancellationToken::new() });
        assert(kept@.map_values(|j: QueuedJob| job_track(j)) =~= before.push(tv));
        self.queue = kept;
        proof {
            lemma_filter_unique(queued, tv.track_id);
            let f = queued.filter(p);
            let replaced = exists|k: int| 0 <= k < queued.len() && #[trigger] queued[k].track_id == tv.track_id;
            queued.lemma_filter_len(p);
            if replaced {
                let k = choose|k: int| 0 <= k < queued.len() && #[trigger] queued[k].track_id == tv.track_id;
                lemma_filter_shorter(queued, tv.track_id, k);
            }
            assert(self.queued() == f.push(tv));
            assert forall|a: int, b: int|
                0 <= a < b < f.push(tv).len() implies #[trigger] f.push(tv)[a].track_id
                != #[trigger] f.push(tv)[b].track_id by {
                if b == f.len() {
                    assert(f[a].track_id != tv.track_id);
                } else {
                    assert(f[a].track_id != f[b].track_id);
                }
            }
        }
        cancelled_active
    }

    /// Removes queued jobs of the track and cancels its running analysis.
    pub fn cancel(&mut self, track_id: i64) -> (outcome: CancelOutcome)
        requires
            old(self).wf(),
        ensures
            final(self).wf(),
            final(self).queued() == old(self).queued().filter(other_track(track_id)),
            final(self).active_track() == old(self).active_track(),
            final(self).capacity() == old(self).capacity(),
            final(self).is_shutting_down() == old(self).is_shutting_down(),
            outcome.removed_queued == exists|k: int|
                0 <= k < old(self).queued().len() && #[trigger] old(self).queued()[k].track_id
                    == track_id,
            outcome.cancelled_active == (old(self).active_track() matches Some(a) && a.track_id
                == track_id),
    {
        let ghost queued = self.queued();
        let ghost p = other_track(track_id);
        let mut kept: Vec<QueuedJob> = Vec::new();
        let mut removed_queued = false;
        let mut i: usize = 0;
        while i < self.queue.len()
            invariant
                0 <= i <= self.queue@.len(),
                queued == self.queued(),
                queued.len() == self.queue@.len(),
                p == other_track(track_id),
                kept@.map_values(|j: QueuedJob| job_track(j)) == queued.take(i as int).filter(p),
                removed_queued == exists|k: int| 0 <= k < i && #[trigger] queued[k].track_id == track_id,
            decreases self.queue@.len() - i,
        {
            assert(queued.take(i + 1).drop_last() =~= queued.take(i as int));
            assert(queued[i as int] == self.queue@[i as int].track@);
            assert(queued[i as int].track_id == self.queue@[i as int].track.track_id);
            proof {
                reveal(Seq::filter);
            }
            if self.queue[i].track.track_id != track_id {
                let job = self.queue[i].share();
                let ghost before = kept@.map_values(|j: QueuedJob| job_track(j));
                kept.push(job);
                assert(kept@.map_values(|j: QueuedJob| job_track(j)) =~= before.push(queued[i as int]));
            } else {
                removed_queued = true;
            }
            i = i + 1;
        }
        assert(queued.take(queued.len() as int) =~= queued);
        self.queue = kept;
        proof {
            lemma_filter_unique(queued, track_id);
            queued.lemma_filter_len(p);
        }
        let cancelled_active = match &self.active {
            Some(job) => {
                if job.track.track_id == track_id {
                    job.cancellation.cancel();
                    true
                } else {
                    false
                }
            },
            None => false,
        };
        CancelOutcome { removed_queued, cancelled_active }
    }

    /// Takes the first waiting job and makes it the running one. Returns the
    /// track and a handle on its cancellation flag.
    pub fn start_next(&mut self) -> (next: Option<(TrackIdentity, CancellationToken)>)
        requires
            old(self).wf(),
        ensures
            final(self).wf(),
            final(self).capacity() == old(self).capacity(),
            final(self).is_shutting_down() == old(self).is_shutting_down(),
            match next {
                None => old(self).queued().len() == 0 && final(self).queued() == old(self).queued()
                    && final(self).active_track() == old(self).active_track(),
                Some((track, _)) => {
                    &&& old(self).queued().len() > 0
                    &&& track@ == old(self).queued()[0]
                    &&& final(self).queued() == old(self).queued().drop_first()
                    &&& final(self).active_track() == Some(old(self).queued()[0])
                },
            },
    {
        if self.queue.len() == 0 {
            return None;
        }
        let ghost queued = self.queued();
        let job = self.queue.remove(0);
        assert(self.queued() =~= queued.drop_first());
        assert(job.track@ == queued[0]);
        let track = job.track.duplicate();
        let token = job.cancellation.share();
        self.active = Some(job);
        proof {
            assert forall|a: int, b: int|
                0 <= a < b < self.queued().len() implies #[trigger] self.queued()[a].track_id
                != #[trigger] self.queued()[b].track_id by {
                assert(self.queued()[a] == queued[a + 1]);
                assert(self.queued()[b] == queued[b + 1]);
            }
        }
        Some((track, token))
    }

    /// The running analysis has ended.
    pub fn finish_active(&mut self)
        requires
            old(self).wf(),
        ensures
            final(self).wf(),
            final(self).queued() == old(self).queued(),
            final(self).active_track() is None,
            final(self).capacity() == old(self).capacity(),
            final(self).is_shutting_down() == old(self).is_shutting_down(),
    {
        self.active = None;
    }

    /// Whether a newer version of the track waits in the queue.
    pub fn replacement_pending(&self, track_id: i64) -> (pending: bool)
        ensures
            pending == exists|k: int|
                0 <= k < self.queued().len() && #[trigger] self.queued()[k].track_id == track_id,
    {
        let ghost queued = self.queued();
        let mut i: usize = 0;
        while i < self.queue.len()
            invariant
                0 <= i <= self.queue@.len(),
                queued == self.queued(),
                queued.len() == self.queue@.len(),
                forall|k: int| 0 <= k < i ==> #[trigger] queued[k].track_id != track_id,
            decreases self.queue@.len() - i,
        {
            assert(queued[i as int] == self.queue@[i as int].track@);
            assert(queued[i as int].track_id == self.queue@[i as int].track.track_id);
            if self.queue[i].track.track_id == track_id {
                return true;
            }
            i = i + 1;
        }
        false
    }

    /// Refuses new work from now on and cancels every job.
    pub fn begin_shutdown(&mut self)
        requires
            old(self).wf(),
        ensures
            final(self).wf(),
            final(self).queued() == old(self).queued(),
            final(self).active_track() == old(self).active_track(),
            final(self).capacity() == old(self).capacity(),
            final(self).is_shutting_down(),
    {
        self.shutting_down = true;
        if let Some(job) = &self.active {
            job.cancellation.cancel();
        }
        let mut i: usize = 0;
        while i < self.queue.len()
            invariant
                0 <= i <= self.queue@.len(),
            decreases self.queue@.len() - i,
        {
            self.queue[i].cancellation.cancel();
            i = i + 1;
        }
    }

    /// Empties the queue, returning the tracks that were waiting, in order.
    pub fn drain(&mut self) -> (drained: Vec<TrackIdentity>)
        requires
            old(self).wf(),
        ensures
            final(self).wf(),
            drained@.map_values(|t: TrackIdentity| t@) == old(self).queued(),
            final(self).queued().len() == 0,
            final(self).active_track() == old(self).active_track(),
            final(self).capacity() == old(self).capacity(),
            final(self).is_shutting_down() == old(self).is_shutting_down(),
    {
        let ghost queued = self.queued();
        let mut drained: Vec<TrackIdentity> = Vec::new();
        let mut i: usize = 0;
        while i < self.queue.len()
            invariant
                0 <= i <= self.queue@.len(),
                queued == self.queued(),
                queued.len() == self.queue@.len(),
                drained@.map_values(|t: TrackIdentity| t@) == queued.take(i as int),
            decreases self.queue@.len() - i,
        {
            assert(queued[i as int] == self.queue@[i as int].track@);
            let ghost before = drained@.map_values(|t: TrackIdentity| t@);
            drained.push(self.queue[i].track.duplicate());
            assert(drained@.map_values(|t: TrackIdentity| t@) =~= before.push(queued[i as int]));
            assert(queued.take(i + 1) =~= queued.take(i as int).push(queued[i as int]));
            i = i + 1;
        }
        assert(queued.take(queued.len() as int) =~= queued);
        self.queue = Vec::new();
        assert(self.queued() =~= Seq::<TrackIdentityView>::empty());
        drained
    }

    /// How many jobs wait.
    pub fn waiting(&self) -> (count: usize)
        ensures
            count == self.queued().len(),
    {
        self.queue.len()
    }

    /// Whether the queue refuses new work.
    pub fn shutting_down(&self) -> (stopping: bool)
        ensures
            stopping == self.is_shutting_down(),
    {
        self.shutting_down
    }

    /// Where a track stands in the service.
    pub fn queue_position(&self, track_id: i64) -> (position: Option<usize>)
        ensures
            match position {
                Some(p) => position_of(self.queued(), self.active_track(), track_id) == Some(p as nat),
                None => position_of(self.queued(), self.active_track(), track_id) is None,
            },
    {
        if let Some(job) = &self.active {
            if job.track.track_id == track_id {
                return Some(0);
            }
        }
        let ghost queued = self.queued();
        let mut i: usize = 0;
        while i < self.queue.len()
            invariant
                0 <= i <= self.queue@.len(),
                queued == self.queued(),
                queued.len() == self.queue@.len(),
                forall|k: int| 0 <= k < i ==> #[trigger] queued[k].track_id != track_id,
                !(self.active_track() matches Some(a) && a.track_id == track_id),
            decreases self.queue@.len() - i,
        {
            assert(queued[i as int] == self.queue@[i as int].track@);
            assert(queued[i as int].track_id == self.queue@[i as int].track.track_id);
            if self.queue[i].track.track_id == track_id {
                proof {
                    let c = choose|c: int| 0 <= c < queued.len() && #[trigger] queued[c].track_id == track_id
                        && forall|j: int| 0 <= j < c ==> queued[j].track_id != track_id;
                    assert(0 <= i < queued.len() && queued[i as int].track_id == track_id
                        && forall|j: int| 0 <= j < i ==> queued[j].track_id != track_id);
                    if c < i {
                        assert(queued[c].track_id != track_id);
                    } else if c > i {
                        assert(queued[i as int].track_id != track_id);
                    }
                }
                return Some(i + 1);
            }
            i = i + 1;
        }
        None
    }
}

} // verus!
