use vstd::prelude::*;

verus! {

/// A pending, unresolved request: the text to look the track up by,
/// plus a stable id that tags every handle derived from it.
#[derive(Debug, Clone)]
pub struct QueuedTrack {
    pub name: String,
    pub uuid: u128,
}

/// A live reference to a started (playing or paused, pre-buffered)
/// audio source, tagged with the id of the descriptor it was resolved
/// from, so that stale end-of-track notifications can be told apart.
#[derive(Debug, Clone, Copy, PartialEq, Eq, Structural)]
pub struct PlaybackHandle {
    pub uuid: u128,
}

/// Relies on uuid::Uuid::new_v4 (via Uuid::as_u128): a freshly drawn
/// random id. Nothing is promised of the value.
#[verifier::external_body]
fn fresh_track_id() -> u128 {
    uuid::Uuid::new_v4().as_u128()
}

impl QueuedTrack {
    /// A new descriptor for `name`, tagged with a freshly drawn id.
    pub fn new(name: String) -> (r: QueuedTrack)
        ensures
            r.name == name,
    {
        QueuedTrack { name, uuid: fresh_track_id() }
    }

    /// An equal copy of this descriptor.
    pub fn duplicate(&self) -> (r: QueuedTrack)
        ensures
            r == *self,
    {
        QueuedTrack { name: self.name.clone(), uuid: self.uuid }
    }
}

/// The queue state of one guild, as the contracts see it.
///
/// `tracks[0]`, when present, is the descriptor backing the current
/// slot; `tracks[1]` the one backing the pre-fetched next slot. The
/// two `resolving_*` fields record a resolution in flight for the
/// respective slot: the id whose result, when it arrives, will be
/// accepted. A result arriving under any other id is discarded.
#[verifier::ext_equal]
pub struct QueueModel {
    pub tracks: Seq<QueuedTrack>,
    pub current: Option<PlaybackHandle>,
    pub next: Option<PlaybackHandle>,
    pub resolving_current: Option<u128>,
    pub resolving_next: Option<u128>,
}

impl QueueModel {
    /// The structural invariant every reachable queue state satisfies:
    /// the current handle always backs `tracks[0]` and the next handle
    /// always backs `tracks[1]`; at most one resolution is in flight
    /// per slot, for exactly the descriptor that slot will hold; and
    /// whenever no resolution is in flight for the current slot, a
    /// track is playing exactly when the queue is non-empty.
    pub open spec fn wf(self) -> bool {
        &&& (self.current matches Some(h) ==> self.tracks.len() >= 1 && h.uuid
            == self.tracks[0].uuid && self.resolving_current is None)
        &&& (self.next matches Some(h) ==> self.tracks.len() >= 2 && h.uuid
            == self.tracks[1].uuid && self.resolving_next is None)
        &&& (self.resolving_current matches Some(id) ==> self.current is None && self.tracks.len()
            >= 1 && id == self.tracks[0].uuid)
        &&& (self.resolving_next matches Some(id) ==> self.next is None && self.tracks.len() >= 2
            && id == self.tracks[1].uuid)
        &&& (self.resolving_current is None ==> (self.current is Some <==> self.tracks.len() > 0))
    }

    /// No resolution is in flight for the current slot.
    pub open spec fn settled(self) -> bool {
        self.resolving_current is None
    }

    /// The state of a freshly created queue.
    pub open spec fn empty_model() -> QueueModel {
        QueueModel {
            tracks: Seq::empty(),
            current: None,
            next: None,
            resolving_current: None,
            resolving_next: None,
        }
    }
}

/// What the caller of `add` must do next.
#[derive(Debug, PartialEq, Eq, Structural)]
pub enum AddEffect {
    /// The queue was empty: resolve the added descriptor and report
    /// the outcome; it is to become the current track.
    StartResolve,
    /// The added descriptor became the second entry: resolve it
    /// speculatively in the background; it is to become the next track.
    Prefetch,
    /// Nothing to do beyond having queued the descriptor.
    Queued,
}

/// What the caller must do after the front slot was vacated.
#[derive(Debug, Clone)]
pub enum ContinuationEffect {
    /// Resume the pre-fetched handle `resume`; if `prefetch` is set,
    /// also resolve that descriptor speculatively for the next slot.
    Promote { resume: u128, prefetch: Option<QueuedTrack> },
    /// No pre-fetched handle was ready: resolve this descriptor and
    /// report the outcome; it is to become the current track.
    ResolveFront(QueuedTrack),
    /// The new front is already being resolved; its result will be
    /// routed to the current slot when it arrives.
    AwaitFront,
    /// The queue is empty; the session is idle.
    Finished,
}

/// The outcome of delivering a track-ended notification.
#[derive(Debug, Clone)]
pub enum EndedEffect {
    /// The notification did not refer to the current handle; it was
    /// discarded without touching the queue.
    Stale,
    /// The front entry was popped; the effect says how to continue.
    Advanced(ContinuationEffect),
}

/// Where a finished resolution's result belongs.
#[derive(Debug, PartialEq, Eq, Structural)]
pub enum ResolutionEffect {
    /// The result backs the current slot: start playing it now.
    PlayNow,
    /// The result backs the next slot: hold it paused.
    HoldPaused,
    /// No slot is waiting for this id any more: discard the result.
    Stale,
}

/// The outcome of reporting a failed resolution.
#[derive(Debug, Clone)]
pub enum FailEffect {
    /// The entry about to become current could not be resolved; it was
    /// dropped, and the effect says how to continue. The failure is
    /// reported to the requester once.
    FrontDropped(ContinuationEffect),
    /// A look-ahead resolution failed; nothing changed structurally,
    /// and the entry is retried when it becomes relevant.
    LookaheadFailed,
    /// No slot was waiting for this id: nothing happened.
    Stale,
}

/// A state together with the effect an operation produced.
#[verifier::ext_equal]
pub struct AddStep {
    pub state: QueueModel,
    pub effect: AddEffect,
}

#[verifier::ext_equal]
pub struct ContinuationStep {
    pub state: QueueModel,
    pub effect: ContinuationEffect,
}

#[verifier::ext_equal]
pub struct EndedStep {
    pub state: QueueModel,
    pub effect: EndedEffect,
}

#[verifier::ext_equal]
pub struct DoneStep {
    pub state: QueueModel,
    pub effect: ResolutionEffect,
}

#[verifier::ext_equal]
pub struct FailStep {
    pub state: QueueModel,
    pub effect: FailEffect,
}

/// Appending a descriptor. The effect depends only on how long the
/// queue was: the first entry starts a resolution for the current
/// slot, the second a speculative one for the next slot.
pub open spec fn spec_add(s: QueueModel, t: QueuedTrack) -> AddStep {
    let tracks = s.tracks.push(t);
    if s.tracks.len() == 0 {
        AddStep {
            state: QueueModel { tracks, resolving_current: Some(t.uuid), ..s },
            effect: AddEffect::StartResolve,
        }
    } else if s.tracks.len() == 1 {
        AddStep {
            state: QueueModel { tracks, resolving_next: Some(t.uuid), ..s },
            effect: AddEffect::Prefetch,
        }
    } else {
        AddStep { state: QueueModel { tracks, ..s }, effect: AddEffect::Queued }
    }
}

/// What a state must satisfy for the pipeline to advance into its
/// front slot: the front was just vacated, and whatever next-slot
/// bookkeeping survives refers to the new front entry.
pub open spec fn advance_pre(s: QueueModel) -> bool {
    &&& s.current is None
    &&& s.resolving_current is None
    &&& (s.next matches Some(h) ==> s.tracks.len() >= 1 && h.uuid == s.tracks[0].uuid
        && s.resolving_next is None)
    &&& (s.resolving_next matches Some(id) ==> s.next is None && s.tracks.len() >= 1 && id
        == s.tracks[0].uuid)
}

/// Advancing the pipeline after the front slot was vacated: promote a
/// ready next handle, else fall back on whatever resolution is in
/// flight, else start one, else go idle.
pub open spec fn spec_advance(s: QueueModel) -> ContinuationStep {
    match s.next {
        Some(h) => {
            let promoted = QueueModel { current: Some(h), next: None, ..s };
            if s.tracks.len() >= 2 {
                ContinuationStep {
                    state: QueueModel { resolving_next: Some(s.tracks[1].uuid), ..promoted },
                    effect: ContinuationEffect::Promote {
                        resume: h.uuid,
                        prefetch: Some(s.tracks[1]),
                    },
                }
            } else {
                ContinuationStep {
                    state: promoted,
                    effect: ContinuationEffect::Promote { resume: h.uuid, prefetch: None },
                }
            }
        },
        None => match s.resolving_next {
            Some(id) => ContinuationStep {
                state: QueueModel { resolving_current: Some(id), resolving_next: None, ..s },
                effect: ContinuationEffect::AwaitFront,
            },
            None => if s.tracks.len() > 0 {
                ContinuationStep {
                    state: QueueModel { resolving_current: Some(s.tracks[0].uuid), ..s },
                    effect: ContinuationEffect::ResolveFront(s.tracks[0]),
                }
            } else {
                ContinuationStep { state: s, effect: ContinuationEffect::Finished }
            },
        },
    }
}

/// Whether an ended notification for `ended` refers to the handle
/// that is actually playing.
pub open spec fn ended_matched(s: QueueModel, ended: u128) -> bool {
    s.current matches Some(h) && h.uuid == ended
}

/// Delivering a track-ended notification: a matching one pops the
/// front entry and advances the pipeline; any other is discarded.
pub open spec fn spec_track_ended(s: QueueModel, ended: u128) -> EndedStep {
    if ended_matched(s, ended) {
        let popped = QueueModel { tracks: s.tracks.drop_first(), current: None, ..s };
        let c = spec_advance(popped);
        EndedStep { state: c.state, effect: EndedEffect::Advanced(c.effect) }
    } else {
        EndedStep { state: s, effect: EndedEffect::Stale }
    }
}

/// Accepting a finished resolution: the result is routed to whichever
/// slot recorded this id as in flight, and discarded otherwise.
pub open spec fn spec_resolution_done(s: QueueModel, id: u128) -> DoneStep {
    if s.resolving_current == Some(id) {
        DoneStep {
            state: QueueModel {
                current: Some(PlaybackHandle { uuid: id }),
                resolving_current: None,
                ..s
            },
            effect: ResolutionEffect::PlayNow,
        }
    } else if s.resolving_next == Some(id) {
        DoneStep {
            state: QueueModel { next: Some(PlaybackHandle { uuid: id }), resolving_next: None, ..s },
            effect: ResolutionEffect::HoldPaused,
        }
    } else {
        DoneStep { state: s, effect: ResolutionEffect::Stale }
    }
}

/// Reporting a failed resolution: a failure for the entry about to
/// become current drops that entry and advances; a look-ahead failure
/// is silent; anything else is stale.
pub open spec fn spec_resolution_failed(s: QueueModel, id: u128) -> FailStep {
    if s.resolving_current == Some(id) {
        let popped = QueueModel { tracks: s.tracks.drop_first(), resolving_current: None, ..s };
        let c = spec_advance(popped);
        FailStep { state: c.state, effect: FailEffect::FrontDropped(c.effect) }
    } else if s.resolving_next == Some(id) {
        FailStep {
            state: QueueModel { resolving_next: None, ..s },
            effect: FailEffect::LookaheadFailed,
        }
    } else {
        FailStep { state: s, effect: FailEffect::Stale }
    }
}

/// Advancing preserves the invariant.
pub proof fn lemma_advance_wf(s: QueueModel)
    requires
        advance_pre(s),
    ensures
        spec_advance(s).state.wf(),
{
}

/// **Law (invariant, part one).** Adding a descriptor preserves `wf`.
pub proof fn lemma_add_preserves_wf(s: QueueModel, t: QueuedTrack)
    requires
        s.wf(),
    ensures
        spec_add(s, t).state.wf(),
{
}

/// **Law (invariant, part two).** Delivering a track-ended
/// notification, accepting a resolution, or reporting a failed one
/// all preserve `wf`. Together with the part on `add`, every
/// reachable state is well-formed, and in each such state with no
/// resolution in flight for the current slot, a track is playing
/// exactly when the queue is non-empty.
pub proof fn lemma_events_preserve_wf(s: QueueModel, id: u128)
    requires
        s.wf(),
    ensures
        spec_track_ended(s, id).state.wf(),
        spec_resolution_done(s, id).state.wf(),
        spec_resolution_failed(s, id).state.wf(),
{
    if ended_matched(s, id) {
        let popped = QueueModel { tracks: s.tracks.drop_first(), current: None, ..s };
        assert(advance_pre(popped));
        lemma_advance_wf(popped);
    }
    if s.resolving_current == Some(id) {
        let popped = QueueModel { tracks: s.tracks.drop_first(), resolving_current: None, ..s };
        assert(advance_pre(popped));
        lemma_advance_wf(popped);
    }
}

/// **Law (settled occupancy).** In any well-formed state where no
/// resolution is in flight for the current slot, a track is playing
/// exactly when the queue is non-empty.
pub proof fn lemma_settled_occupancy(s: QueueModel)
    requires
        s.wf(),
        s.settled(),
    ensures
        s.current is Some <==> s.tracks.len() > 0,
{
}

/// What `shuffle` did: the invalidated next handle to stop, if one
/// was held, and the descriptor to resolve speculatively for the new
/// second entry.
#[derive(Debug, Clone)]
pub struct ShuffleEffect {
    pub stop: Option<u128>,
    pub prefetch: Option<QueuedTrack>,
}

#[verifier::external_type_specification]
#[verifier::external_body]
pub struct ExThreadRng(rand::rngs::ThreadRng);

/// Relies on rand::thread_rng: a random generator for this thread.
/// Nothing is promised of the values it will produce.
#[verifier::external_body]
fn new_rng() -> rand::rngs::ThreadRng {
    rand::thread_rng()
}

/// Relies on rand::Rng::gen_range over `0..bound`: some value below
/// `bound`. The range is non-empty, so the call does not panic;
/// which value comes out is not promised.
#[verifier::external_body]
fn gen_below(rng: &mut rand::rngs::ThreadRng, bound: usize) -> (r: usize)
    requires
        bound >= 1,
    ensures
        r < bound,
{
    rand::Rng::gen_range(rng, 0..bound)
}

/// Exchange the entries at `i` and `j`.
fn swap_tracks(v: &mut Vec<QueuedTrack>, i: usize, j: usize)
    requires
        i < old(v)@.len(),
        j < old(v)@.len(),
    ensures
        final(v)@ == old(v)@.update(i as int, old(v)@[j as int]).update(
            j as int,
            old(v)@[i as int],
        ),
{
    let ti = v[i].duplicate();
    let tj = v[j].duplicate();
    v.set(i, tj);
    v.set(j, ti);
}

/// Exchanging two entries of a sequence keeps its multiset of
/// entries.
proof fn lemma_swap_multiset(s: Seq<QueuedTrack>, i: int, j: int)
    requires
        0 <= i < s.len(),
        0 <= j < s.len(),
    ensures
        s.update(i, s[j]).update(j, s[i]).to_multiset() == s.to_multiset(),
{
    broadcast use vstd::seq_lib::group_to_multiset_ensures;
    broadcast use vstd::multiset::group_multiset_axioms;

    if i == j {
        assert(s.update(i, s[j]).update(j, s[i]) =~= s);
    } else {
        let s1 = s.update(i, s[j]);
        let s2 = s1.update(j, s[i]);
        vstd::seq_lib::to_multiset_update(s, i, s[j]);
        vstd::seq_lib::to_multiset_update(s1, j, s[i]);
        assert(s1[j] == s[j]);
        assert(s.contains(s[i]));
        assert(s.to_multiset().count(s[i]) > 0);
        assert(s2.to_multiset() =~= s.to_multiset());
    }
}

/// The handle ids a stop must bring down.
#[derive(Debug, Clone, Copy, PartialEq, Eq)]
pub struct StopEffect {
    pub stop_current: Option<u128>,
    pub stop_next: Option<u128>,
}

/// The id a handle carries, if there is a handle.
pub open spec fn handle_id(h: Option<PlaybackHandle>) -> Option<u128> {
    match h {
        Some(h) => Some(h.uuid),
        None => None,
    }
}

/// What `dequeue` did: the descriptor taken out, the handle to stop,
/// and the descriptor to resolve speculatively for the next slot.
#[derive(Debug, Clone)]
pub struct DequeueEffect {
    pub removed: Option<QueuedTrack>,
    pub stop: Option<u128>,
    pub prefetch: Option<QueuedTrack>,
}

#[verifier::ext_equal]
pub struct DequeueStep {
    pub state: QueueModel,
    pub effect: DequeueEffect,
}

/// Removing the entry at `index`. Index 0 names the current track:
/// its handle is stopped and the structural removal is left to the
/// continuation the stop provokes. Index 1 invalidates the next
/// handle, which is re-derived for whatever becomes the new second
/// entry. Any later index removes the descriptor with no playback
/// side effect; an index at or past the end removes nothing.
pub open spec fn spec_dequeue(s: QueueModel, index: int) -> DequeueStep {
    if index < 0 || index >= s.tracks.len() {
        DequeueStep {
            state: s,
            effect: (DequeueEffect { removed: None, stop: None, prefetch: None }),
        }
    } else if index == 0 {
        match s.current {
            Some(h) => DequeueStep {
                state: s,
                effect: (DequeueEffect {
                    removed: Some(s.tracks[0]),
                    stop: Some(h.uuid),
                    prefetch: None,
                }),
            },
            None => DequeueStep {
                state: s,
                effect: (DequeueEffect { removed: None, stop: None, prefetch: None }),
            },
        }
    } else if index == 1 {
        let tracks = s.tracks.remove(1);
        let stop = handle_id(s.next);
        let invalidated = s.next is Some || s.resolving_next is Some;
        if invalidated && tracks.len() >= 2 {
            DequeueStep {
                state: QueueModel {
                    tracks,
                    next: None,
                    resolving_next: Some(tracks[1].uuid),
                    ..s
                },
                effect: (DequeueEffect {
                    removed: Some(s.tracks[1]),
                    stop,
                    prefetch: Some(tracks[1]),
                }),
            }
        } else {
            DequeueStep {
                state: QueueModel { tracks, next: None, resolving_next: None, ..s },
                effect: (DequeueEffect { removed: Some(s.tracks[1]), stop, prefetch: None }),
            }
        }
    } else {
        DequeueStep {
            state: QueueModel { tracks: s.tracks.remove(index), ..s },
            effect: (DequeueEffect { removed: Some(s.tracks[index]), stop: None, prefetch: None }),
        }
    }
}

/// **Law (invariant, part three).** Removing an entry preserves `wf`.
pub proof fn lemma_dequeue_preserves_wf(s: QueueModel, index: int)
    requires
        s.wf(),
    ensures
        spec_dequeue(s, index).state.wf(),
{
    if 1 <= index < s.tracks.len() {
        let t2 = s.tracks.remove(index);
        assert(t2.len() == s.tracks.len() - 1);
        assert(forall|j: int| 0 <= j < index ==> t2[j] == s.tracks[j]);
        assert(forall|j: int| index <= j < t2.len() ==> t2[j] == s.tracks[j + 1]);
    }
}

/// The errors the queue operations report.
#[derive(Debug, Clone, Copy, PartialEq, Eq, Structural)]
pub enum QueueError {
    /// The external resolver could not produce a source for a
    /// descriptor; that descriptor is dropped and playback continues.
    ResolutionFailed,
    /// A skip, pause or seek was requested while nothing is playing.
    NothingPlaying,
    /// A removal or reorder named an index outside the queue.
    IndexOutOfRange,
    /// The voice connection was lost or a driver call failed.
    DriverError,
}

/// The raw queue state of one guild: the ordered descriptors and the
/// two playback slots, plus the in-flight resolution bookkeeping.
pub struct QueueCore {
    tracks: Vec<QueuedTrack>,
    current_track: Option<PlaybackHandle>,
    next_track: Option<PlaybackHandle>,
    resolving_current: Option<u128>,
    resolving_next: Option<u128>,
}

impl View for QueueCore {
    type V = QueueModel;

    closed spec fn view(&self) -> QueueModel {
        QueueModel {
            tracks: self.tracks@,
            current: self.current_track,
            next: self.next_track,
            resolving_current: self.resolving_current,
            resolving_next: self.resolving_next,
        }
    }
}

/// The playback queue of one guild. All mutation goes through the
/// event methods below; each one is a small state transition, so a
/// caller can hold a lock around the call alone and never across a
/// resolution await.
pub struct Queue {
    core: QueueCore,
}

impl View for Queue {
    type V = QueueModel;

    closed spec fn view(&self) -> QueueModel {
        self.core@
    }
}

impl Queue {
    /// An empty queue for a freshly joined voice session.
    pub fn new() -> (r: Queue)
        ensures
            r@ == QueueModel::empty_model(),
            r@.wf(),
    {
        let r = Queue {
            core: QueueCore {
                tracks: Vec::new(),
                current_track: None,
                next_track: None,
                resolving_current: None,
                resolving_next: None,
            },
        };
        proof {
            assert(r@ =~= QueueModel::empty_model());
        }
        r
    }

    /// Append a descriptor. The first entry must then be resolved for
    /// the current slot, the second speculatively for the next slot;
    /// the returned effect says which, if either, falls to the caller.
    pub fn add(&mut self, t: QueuedTrack) -> (r: AddEffect)
        requires
            old(self)@.wf(),
        ensures
            final(self)@ == spec_add(old(self)@, t).state,
            r == spec_add(old(self)@, t).effect,
            final(self)@.wf(),
    {
        proof {
            lemma_add_preserves_wf(self@, t);
        }
        let id = t.uuid;
        let was: usize = self.core.tracks.len();
        self.core.tracks.push(t);
        let r = if was == 0 {
            self.core.resolving_current = Some(id);
            AddEffect::StartResolve
        } else if was == 1 {
            self.core.resolving_next = Some(id);
            AddEffect::Prefetch
        } else {
            AddEffect::Queued
        };
        proof {
            assert(self@ =~= spec_add(old(self)@, t).state);
        }
        r
    }

    /// Advance into the vacated front slot. Private: only the ended
    /// and failure paths reach it, with the front already popped.
    fn advance_front(&mut self) -> (r: ContinuationEffect)
        requires
            advance_pre(old(self)@),
        ensures
            final(self)@ == spec_advance(old(self)@).state,
            r == spec_advance(old(self)@).effect,
            final(self)@.wf(),
    {
        proof {
            lemma_advance_wf(self@);
        }
        let r = if let Some(h) = self.core.next_track {
            self.core.current_track = Some(h);
            self.core.next_track = None;
            if self.core.tracks.len() >= 2 {
                let t = self.core.tracks[1].duplicate();
                self.core.resolving_next = Some(t.uuid);
                ContinuationEffect::Promote { resume: h.uuid, prefetch: Some(t) }
            } else {
                ContinuationEffect::Promote { resume: h.uuid, prefetch: None }
            }
        } else if let Some(id) = self.core.resolving_next {
            self.core.resolving_current = Some(id);
            self.core.resolving_next = None;
            ContinuationEffect::AwaitFront
        } else if self.core.tracks.len() > 0 {
            let t = self.core.tracks[0].duplicate();
            self.core.resolving_current = Some(t.uuid);
            ContinuationEffect::ResolveFront(t)
        } else {
            ContinuationEffect::Finished
        };
        proof {
            assert(self@ =~= spec_advance(old(self)@).state);
        }
        r
    }

    /// Deliver a track-ended notification. A notification whose id
    /// does not name the handle that is actually playing is stale and
    /// leaves the queue untouched; a matching one pops the front entry
    /// and advances the pipeline. This is the only place the queue
    /// ever advances, so a forced stop (skip) and a natural end follow
    /// one and the same path.
    pub fn track_ended(&mut self, ended: u128) -> (r: EndedEffect)
        requires
            old(self)@.wf(),
        ensures
            final(self)@ == spec_track_ended(old(self)@, ended).state,
            r == spec_track_ended(old(self)@, ended).effect,
            final(self)@.wf(),
    {
        proof {
            lemma_events_preserve_wf(self@, ended);
        }
        let matched = match &self.core.current_track {
            Some(h) => h.uuid == ended,
            None => false,
        };
        if !matched {
            proof {
                assert(self@ =~= spec_track_ended(old(self)@, ended).state);
            }
            return EndedEffect::Stale;
        }
        self.core.tracks.remove(0);
        self.core.current_track = None;
        proof {
            assert(self@.tracks =~= old(self)@.tracks.drop_first());
            assert(self@ =~= (QueueModel {
                tracks: old(self)@.tracks.drop_first(),
                current: None,
                ..old(self)@
            }));
        }
        let c = self.advance_front();
        EndedEffect::Advanced(c)
    }

    /// Accept a finished resolution for the descriptor with id `id`.
    /// The result is routed to whichever slot is waiting for that id:
    /// the caller starts it playing, holds it paused, or discards it.
    pub fn resolution_done(&mut self, id: u128) -> (r: ResolutionEffect)
        requires
            old(self)@.wf(),
        ensures
            final(self)@ == spec_resolution_done(old(self)@, id).state,
            r == spec_resolution_done(old(self)@, id).effect,
            final(self)@.wf(),
    {
        proof {
            lemma_events_preserve_wf(self@, id);
        }
        let waiting_current = match &self.core.resolving_current {
            Some(r) => *r == id,
            None => false,
        };
        let r = if waiting_current {
            self.core.current_track = Some(PlaybackHandle { uuid: id });
            self.core.resolving_current = None;
            ResolutionEffect::PlayNow
        } else {
            let waiting_next = match &self.core.resolving_next {
                Some(r) => *r == id,
                None => false,
            };
            if waiting_next {
                self.core.next_track = Some(PlaybackHandle { uuid: id });
                self.core.resolving_next = None;
                ResolutionEffect::HoldPaused
            } else {
                ResolutionEffect::Stale
            }
        };
        proof {
            assert(self@ =~= spec_resolution_done(old(self)@, id).state);
        }
        r
    }

    /// Report a failed resolution for the descriptor with id `id`. A
    /// failure for the entry about to become current drops that entry
    /// (the caller reports it to the requester once) and advances; a
    /// look-ahead failure is silent and retried when it matters.
    pub fn resolution_failed(&mut self, id: u128) -> (r: FailEffect)
        requires
            old(self)@.wf(),
        ensures
            final(self)@ == spec_resolution_failed(old(self)@, id).state,
            r == spec_resolution_failed(old(self)@, id).effect,
            final(self)@.wf(),
    {
        proof {
            lemma_events_preserve_wf(self@, id);
        }
        let waiting_current = match &self.core.resolving_current {
            Some(r) => *r == id,
            None => false,
        };
        if waiting_current {
            self.core.tracks.remove(0);
            self.core.resolving_current = None;
            proof {
                assert(self@.tracks =~= old(self)@.tracks.drop_first());
                assert(self@ =~= (QueueModel {
                    tracks: old(self)@.tracks.drop_first(),
                    resolving_current: None,
                    ..old(self)@
                }));
            }
            let c = self.advance_front();
            return FailEffect::FrontDropped(c);
        }
        let waiting_next = match &self.core.resolving_next {
            Some(r) => *r == id,
            None => false,
        };
        let r = if waiting_next {
            self.core.resolving_next = None;
            FailEffect::LookaheadFailed
        } else {
            FailEffect::Stale
        };
        proof {
            assert(self@ =~= spec_resolution_failed(old(self)@, id).state);
        }
        r
    }

    /// Which handle a skip must stop. Skipping does not itself advance
    /// the queue: stopping the handle makes the driver deliver a
    /// track-ended notification, and advancement happens there alone,
    /// so a skip racing a natural end can never advance twice.
    pub fn skip(&self) -> (r: Result<u128, QueueError>)
        ensures
            r == (match self@.current {
                Some(h) => Ok::<u128, QueueError>(h.uuid),
                None => Err::<u128, QueueError>(QueueError::NothingPlaying),
            }),
    {
        match &self.core.current_track {
            Some(h) => Ok(h.uuid),
            None => Err(QueueError::NothingPlaying),
        }
    }

    /// Whether no descriptors are queued.
    pub fn is_empty(&self) -> (r: bool)
        ensures
            r == (self@.tracks.len() == 0),
    {
        self.core.tracks.len() == 0
    }

    /// How many descriptors are queued, the one backing the current
    /// slot included.
    pub fn len(&self) -> (r: usize)
        ensures
            r == self@.tracks.len(),
    {
        self.core.tracks.len()
    }

    /// The handle of the track being played, if any.
    pub fn current(&self) -> (r: Option<PlaybackHandle>)
        ensures
            r == self@.current,
    {
        self.core.current_track
    }

    /// Stop playback and clear the queue: both handles are brought
    /// down and every descriptor is dropped. Idempotent: on an
    /// already-stopped queue nothing remains to stop and nothing
    /// changes.
    pub fn stop(&mut self) -> (r: StopEffect)
        ensures
            final(self)@ == QueueModel::empty_model(),
            final(self)@.wf(),
            r.stop_current == handle_id(old(self)@.current),
            r.stop_next == handle_id(old(self)@.next),
    {
        let stop_current = match &self.core.current_track {
            Some(h) => Some(h.uuid),
            None => None,
        };
        let stop_next = match &self.core.next_track {
            Some(h) => Some(h.uuid),
            None => None,
        };
        self.core.tracks = Vec::new();
        self.core.current_track = None;
        self.core.next_track = None;
        self.core.resolving_current = None;
        self.core.resolving_next = None;
        proof {
            assert(self@ =~= QueueModel::empty_model());
        }
        StopEffect { stop_current, stop_next }
    }

    /// Remove the entry at `index`; see `spec_dequeue` for the three
    /// regimes. Returns the removed descriptor together with the
    /// handle to stop and the descriptor to resolve for the next
    /// slot, if the removal calls for either.
    pub fn dequeue(&mut self, index: usize) -> (r: DequeueEffect)
        requires
            old(self)@.wf(),
        ensures
            final(self)@ == spec_dequeue(old(self)@, index as int).state,
            r == spec_dequeue(old(self)@, index as int).effect,
            final(self)@.wf(),
    {
        proof {
            lemma_dequeue_preserves_wf(self@, index as int);
        }
        if index >= self.core.tracks.len() {
            return DequeueEffect { removed: None, stop: None, prefetch: None };
        }
        if index == 0 {
            let r = match &self.core.current_track {
                Some(h) => DequeueEffect {
                    removed: Some(self.core.tracks[0].duplicate()),
                    stop: Some(h.uuid),
                    prefetch: None,
                },
                None => DequeueEffect { removed: None, stop: None, prefetch: None },
            };
            return r;
        }
        if index == 1 {
            let removed = self.core.tracks.remove(1);
            let stop = match &self.core.next_track {
                Some(h) => Some(h.uuid),
                None => None,
            };
            let invalidated = self.core.next_track.is_some() || self.core.resolving_next.is_some();
            self.core.next_track = None;
            self.core.resolving_next = None;
            let r = if invalidated && self.core.tracks.len() >= 2 {
                let t = self.core.tracks[1].duplicate();
                self.core.resolving_next = Some(t.uuid);
                DequeueEffect { removed: Some(removed), stop, prefetch: Some(t) }
            } else {
                DequeueEffect { removed: Some(removed), stop, prefetch: None }
            };
            proof {
                assert(self@ =~= spec_dequeue(old(self)@, index as int).state);
            }
            return r;
        }
        let removed = self.core.tracks.remove(index);
        proof {
            assert(self@ =~= spec_dequeue(old(self)@, index as int).state);
        }
        DequeueEffect { removed: Some(removed), stop: None, prefetch: None }
    }

    /// Permute the waiting entries randomly; the playing head is
    /// never moved. Because the second entry may have changed
    /// identity, the pre-fetched next handle is invalidated and the
    /// next slot re-derived for whatever is second now.
    pub fn shuffle(&mut self) -> (r: ShuffleEffect)
        requires
            old(self)@.wf(),
        ensures
            final(self)@.wf(),
            final(self)@.tracks.to_multiset() == old(self)@.tracks.to_multiset(),
            final(self)@.tracks.len() == old(self)@.tracks.len(),
            old(self)@.tracks.len() > 0 ==> final(self)@.tracks[0] == old(self)@.tracks[0],
            final(self)@.current == old(self)@.current,
            final(self)@.resolving_current == old(self)@.resolving_current,
            old(self)@.tracks.len() >= 2 ==> {
                &&& final(self)@.next is None
                &&& final(self)@.resolving_next == Some(final(self)@.tracks[1].uuid)
                &&& r.prefetch == Some(final(self)@.tracks[1])
                &&& r.stop == handle_id(old(self)@.next)
            },
            old(self)@.tracks.len() < 2 ==> final(self)@ == old(self)@ && r.stop is None
                && r.prefetch is None,
    {
        if self.core.tracks.len() < 2 {
            return ShuffleEffect { stop: None, prefetch: None };
        }
        let ghost orig = self@;
        let mut rng = new_rng();
        let mut i: usize = self.core.tracks.len() - 1;
        while i >= 2
            invariant
                1 <= i < self.core.tracks@.len(),
                self.core.tracks@.len() == orig.tracks.len(),
                self.core.tracks@.to_multiset() == orig.tracks.to_multiset(),
                self.core.tracks@[0] == orig.tracks[0],
                self.core.current_track == orig.current,
                self.core.next_track == orig.next,
                self.core.resolving_current == orig.resolving_current,
                self.core.resolving_next == orig.resolving_next,
            decreases i,
        {
            let j = 1 + gen_below(&mut rng, i);
            let ghost before = self.core.tracks@;
            swap_tracks(&mut self.core.tracks, i, j);
            proof {
                lemma_swap_multiset(before, i as int, j as int);
            }
            i = i - 1;
        }
        let stop = match &self.core.next_track {
            Some(h) => Some(h.uuid),
            None => None,
        };
        self.core.next_track = None;
        let t = self.core.tracks[1].duplicate();
        self.core.resolving_next = Some(t.uuid);
        proof {
            broadcast use vstd::seq_lib::group_to_multiset_ensures;

            assert(self@.tracks.len() == orig.tracks.len());
        }
        ShuffleEffect { stop, prefetch: Some(t) }
    }

    /// A snapshot of the queued descriptors, in play order.
    pub fn current_queue(&self) -> (r: Vec<QueuedTrack>)
        ensures
            r@ == self@.tracks,
    {
        let mut out: Vec<QueuedTrack> = Vec::new();
        let mut i: usize = 0;
        while i < self.core.tracks.len()
            invariant
                i <= self.core.tracks@.len(),
                out@ == self.core.tracks@.subrange(0, i as int),
            decreases self.core.tracks@.len() - i,
        {
            out.push(self.core.tracks[i].duplicate());
            i = i + 1;
            proof {
                assert(out@ =~= self.core.tracks@.subrange(0, i as int));
            }
        }
        proof {
            assert(out@ =~= self@.tracks);
        }
        out
    }
}

/// The state after delivering a run of track-ended notifications,
/// first one first.
pub open spec fn apply_ended_run(s: QueueModel, ids: Seq<u128>) -> QueueModel
    decreases ids.len(),
{
    if ids.len() == 0 {
        s
    } else {
        apply_ended_run(spec_track_ended(s, ids[0]).state, ids.drop_first())
    }
}

/// Every notification in the run names the handle playing at the
/// moment it is delivered.
pub open spec fn run_all_matched(s: QueueModel, ids: Seq<u128>) -> bool
    decreases ids.len(),
{
    if ids.len() == 0 {
        true
    } else {
        ended_matched(s, ids[0]) && run_all_matched(spec_track_ended(s, ids[0]).state, ids.drop_first())
    }
}

/// One track-ended notification pops exactly one entry when it names
/// the playing handle, and none otherwise.
pub proof fn lemma_ended_pops_at_most_one(s: QueueModel, id: u128)
    requires
        s.wf(),
    ensures
        spec_track_ended(s, id).state.tracks.len() == if ended_matched(s, id) {
            s.tracks.len() - 1
        } else {
            s.tracks.len() as int
        },
{
}

/// **Law (single advancement).** Skipping never touches the queue by
/// itself (`skip` borrows the state immutably and only names the
/// handle to stop), and each delivered track-ended notification pops
/// at most one entry. So a run of N notifications pops at most N
/// entries, never more, however skips and natural completions
/// interleave.
pub proof fn lemma_run_pops_at_most_n(s: QueueModel, ids: Seq<u128>)
    requires
        s.wf(),
    ensures
        apply_ended_run(s, ids).tracks.len() >= s.tracks.len() - ids.len(),
        apply_ended_run(s, ids).wf(),
    decreases ids.len(),
{
    if ids.len() > 0 {
        lemma_events_preserve_wf(s, ids[0]);
        lemma_ended_pops_at_most_one(s, ids[0]);
        lemma_run_pops_at_most_n(spec_track_ended(s, ids[0]).state, ids.drop_first());
    }
}

/// **Law (single advancement, exact count).** When every notification
/// in the run names the handle playing at its delivery, the run pops
/// exactly one entry per notification: N skips answered by N genuine
/// completions advance the queue exactly N times.
pub proof fn lemma_matched_run_pops_exactly_n(s: QueueModel, ids: Seq<u128>)
    requires
        s.wf(),
        run_all_matched(s, ids),
    ensures
        apply_ended_run(s, ids).tracks.len() == s.tracks.len() - ids.len(),
        apply_ended_run(s, ids).wf(),
    decreases ids.len(),
{
    if ids.len() > 0 {
        lemma_events_preserve_wf(s, ids[0]);
        lemma_ended_pops_at_most_one(s, ids[0]);
        lemma_matched_run_pops_exactly_n(spec_track_ended(s, ids[0]).state, ids.drop_first());
    }
}

/// **Law (stale notification immunity).** A track-ended notification
/// whose id does not name the handle that is playing — because a
/// skip already superseded it, or the session was torn down — changes
/// nothing at all.
pub proof fn lemma_stale_ended_immune(s: QueueModel, id: u128)
    requires
        !ended_matched(s, id),
    ensures
        spec_track_ended(s, id).state == s,
        spec_track_ended(s, id).effect is Stale,
{
}

/// **Law (gapless pipelining).** Two descriptors added to an empty
/// queue, each resolution accepted as it completes, leave the second
/// pre-buffered in the next slot while the first plays: no trigger
/// beyond the two `add` calls is needed.
pub proof fn lemma_gapless_pipelining(a: QueuedTrack, b: QueuedTrack)
    ensures
        ({
            let s1 = spec_add(QueueModel::empty_model(), a).state;
            let s2 = spec_resolution_done(s1, a.uuid).state;
            let s3 = spec_add(s2, b).state;
            let s4 = spec_resolution_done(s3, b.uuid).state;
            &&& s4.current == Some(PlaybackHandle { uuid: a.uuid })
            &&& s4.next == Some(PlaybackHandle { uuid: b.uuid })
            &&& s4.tracks.len() == 2
            &&& s4.wf()
        }),
{
    let s0 = QueueModel::empty_model();
    let s1 = spec_add(s0, a).state;
    let s2 = spec_resolution_done(s1, a.uuid).state;
    let s3 = spec_add(s2, b).state;
    let s4 = spec_resolution_done(s3, b.uuid).state;
    lemma_add_preserves_wf(s0, a);
    lemma_events_preserve_wf(s1, a.uuid);
    lemma_add_preserves_wf(s2, b);
    lemma_events_preserve_wf(s3, b.uuid);
}

/// **Law (resolution-failure skip-over).** Three descriptors queued
/// from empty, where the second one's speculative resolution fails;
/// when the first finishes naturally, the failed entry is dropped on
/// the spot and the third resolves and plays: the queue length falls
/// from three to one across the single completion.
pub proof fn lemma_failure_skip_over(a: QueuedTrack, b: QueuedTrack, c: QueuedTrack)
    ensures
        ({
            let s1 = spec_add(QueueModel::empty_model(), a).state;
            let s2 = spec_resolution_done(s1, a.uuid).state;
            let s3 = spec_add(s2, b).state;
            let s4 = spec_resolution_failed(s3, b.uuid).state;
            let s5 = spec_add(s4, c).state;
            let e6 = spec_track_ended(s5, a.uuid);
            let e7 = spec_resolution_failed(e6.state, b.uuid);
            let s8 = spec_resolution_done(e7.state, c.uuid).state;
            &&& s5.tracks.len() == 3
            &&& spec_resolution_failed(s3, b.uuid).effect is LookaheadFailed
            &&& e6.effect matches EndedEffect::Advanced(ContinuationEffect::ResolveFront(t))
                && t == b
            &&& e7.effect matches FailEffect::FrontDropped(ContinuationEffect::ResolveFront(t))
                && t == c
            &&& s8.tracks.len() == 1
            &&& s8.tracks[0] == c
            &&& s8.current == Some(PlaybackHandle { uuid: c.uuid })
            &&& s8.wf()
        }),
{
    let s0 = QueueModel::empty_model();
    let s1 = spec_add(s0, a).state;
    let s2 = spec_resolution_done(s1, a.uuid).state;
    let s3 = spec_add(s2, b).state;
    let s4 = spec_resolution_failed(s3, b.uuid).state;
    let s5 = spec_add(s4, c).state;
    let e6 = spec_track_ended(s5, a.uuid);
    let e7 = spec_resolution_failed(e6.state, b.uuid);
    let s8 = spec_resolution_done(e7.state, c.uuid).state;
    lemma_add_preserves_wf(s0, a);
    lemma_events_preserve_wf(s1, a.uuid);
    lemma_add_preserves_wf(s2, b);
    lemma_events_preserve_wf(s3, b.uuid);
    lemma_add_preserves_wf(s4, c);
    lemma_events_preserve_wf(s5, a.uuid);
    lemma_events_preserve_wf(e6.state, b.uuid);
    lemma_events_preserve_wf(e7.state, c.uuid);
    assert(s5.tracks =~= seq![a, b, c]);
    assert(e6.state.tracks =~= seq![b, c]);
    assert(e7.state.tracks =~= seq![c]);
}

/// Whether some entry of the registry sequence carries guild `g`.
spec fn has_guild(s: Seq<(u64, Queue)>, g: u64) -> bool {
    exists|i: int| 0 <= i < s.len() && s[i].0 == g
}

/// The index of the entry carrying guild `g`.
spec fn guild_index(s: Seq<(u64, Queue)>, g: u64) -> int {
    choose|i: int| 0 <= i < s.len() && s[i].0 == g
}

/// No guild appears twice.
spec fn unique_guilds(s: Seq<(u64, Queue)>) -> bool {
    forall|i: int, j: int| 0 <= i < j < s.len() ==> s[i].0 != s[j].0
}

/// The registry sequence read as a map from guild id to queue state.
spec fn map_of(s: Seq<(u64, Queue)>) -> Map<u64, QueueModel> {
    Map::new(|g: u64| has_guild(s, g), |g: u64| s[guild_index(s, g)].1@)
}

proof fn lemma_guild_index(s: Seq<(u64, Queue)>, g: u64)
    requires
        unique_guilds(s),
        has_guild(s, g),
    ensures
        0 <= guild_index(s, g) < s.len(),
        s[guild_index(s, g)].0 == g,
        forall|j: int| 0 <= j < s.len() && s[j].0 == g ==> j == guild_index(s, g),
{
    let i = guild_index(s, g);
    assert(0 <= i < s.len() && s[i].0 == g);
}

proof fn lemma_push_entry(olds: Seq<(u64, Queue)>, g: u64, q: Queue)
    requires
        unique_guilds(olds),
        !has_guild(olds, g),
    ensures
        unique_guilds(olds.push((g, q))),
        map_of(olds.push((g, q))) == map_of(olds).insert(g, q@),
{
    let news = olds.push((g, q));
    assert forall|k: u64| #[trigger] has_guild(news, k) implies (k == g || has_guild(olds, k)) by {
        let i = choose|i: int| 0 <= i < news.len() && news[i].0 == k;
        if i < olds.len() {
            assert(olds[i].0 == k);
        }
    }
    assert forall|k: u64| k == g || has_guild(olds, k) implies #[trigger] has_guild(news, k) by {
        if k == g {
            assert(news[olds.len() as int].0 == k);
        } else {
            let i = choose|i: int| 0 <= i < olds.len() && olds[i].0 == k;
            assert(news[i].0 == k);
        }
    }
    assert(unique_guilds(news)) by {
        assert forall|i: int, j: int| 0 <= i < j < news.len() implies news[i].0 != news[j].0 by {
            if j < olds.len() {
            } else {
                assert(news[j].0 == g);
                assert(olds[i].0 == news[i].0);
                if news[i].0 == g {
                    assert(has_guild(olds, g));
                }
            }
        }
    }
    assert forall|k: u64| has_guild(news, k) implies #[trigger] map_of(news)[k] == map_of(
        olds,
    ).insert(g, q@)[k] by {
        lemma_guild_index(news, k);
        let i = guild_index(news, k);
        if k == g {
            assert(news[olds.len() as int].0 == g);
            assert(i == olds.len());
            assert(map_of(news)[k] == q@);
        } else {
            assert(news[i].0 == k);
            assert(i < olds.len());
            assert(olds[i].0 == k);
            assert(has_guild(olds, k));
            lemma_guild_index(olds, k);
            assert(guild_index(olds, k) == i);
            assert(map_of(news)[k] == olds[i].1@);
        }
    }
    assert(map_of(news) =~= map_of(olds).insert(g, q@));
}

proof fn lemma_remove_entry(olds: Seq<(u64, Queue)>, i: int)
    requires
        unique_guilds(olds),
        0 <= i < olds.len(),
    ensures
        unique_guilds(olds.remove(i)),
        map_of(olds.remove(i)) == map_of(olds).remove(olds[i].0),
        map_of(olds).dom().contains(olds[i].0),
        map_of(olds)[olds[i].0] == olds[i].1@,
{
    let g = olds[i].0;
    let news = olds.remove(i);
    assert(has_guild(olds, g));
    lemma_guild_index(olds, g);
    assert(guild_index(olds, g) == i);
    assert(map_of(olds)[g] == olds[i].1@);
    assert(forall|j: int| 0 <= j < i ==> news[j] == olds[j]);
    assert(forall|j: int| i <= j < news.len() ==> news[j] == olds[j + 1]);
    assert(unique_guilds(news));
    assert forall|k: u64| #[trigger] has_guild(news, k) implies has_guild(olds, k) && k != g by {
        let j = choose|j: int| 0 <= j < news.len() && news[j].0 == k;
        if j < i {
            assert(olds[j].0 == k);
        } else {
            assert(olds[j + 1].0 == k);
        }
        if k == g {
            lemma_guild_index(olds, g);
        }
    }
    assert forall|k: u64| has_guild(olds, k) && k != g implies #[trigger] has_guild(news, k) by {
        let j = choose|j: int| 0 <= j < olds.len() && olds[j].0 == k;
        if j < i {
            assert(news[j].0 == k);
        } else {
            assert(j != i);
            assert(news[j - 1].0 == k);
        }
    }
    assert forall|k: u64| has_guild(news, k) implies #[trigger] map_of(news)[k] == map_of(
        olds,
    ).remove(g)[k] by {
        lemma_guild_index(news, k);
        let j = guild_index(news, k);
        lemma_guild_index(olds, k);
        if j < i {
            assert(olds[j].0 == k);
            assert(guild_index(olds, k) == j);
            assert(map_of(news)[k] == olds[j].1@);
        } else {
            assert(olds[j + 1].0 == k);
            assert(guild_index(olds, k) == j + 1);
            assert(map_of(news)[k] == olds[j + 1].1@);
        }
    }
    assert(map_of(news) =~= map_of(olds).remove(g));
}

/// The registry owning one playback queue per active voice session,
/// keyed by guild id. Created entries are removed again on leave,
/// channel-empty detection and idle timeout; a late notification for
/// a torn-down guild finds no entry and is ignored.
pub struct QueueMap {
    entries: Vec<(u64, Queue)>,
}

impl View for QueueMap {
    type V = Map<u64, QueueModel>;

    closed spec fn view(&self) -> Map<u64, QueueModel> {
        map_of(self.entries@)
    }
}

impl QueueMap {
    /// The registry invariant: one entry per guild, each well-formed.
    pub closed spec fn wf(&self) -> bool {
        &&& unique_guilds(self.entries@)
        &&& forall|i: int| 0 <= i < self.entries@.len() ==> self.entries@[i].1@.wf()
    }

    /// An empty registry.
    pub fn new() -> (r: QueueMap)
        ensures
            r@ == Map::<u64, QueueModel>::empty(),
            r.wf(),
    {
        let r = QueueMap { entries: Vec::new() };
        proof {
            assert forall|g: u64| !has_guild(r.entries@, g) by {}
            assert(r@ =~= Map::<u64, QueueModel>::empty());
        }
        r
    }

    /// The index of the entry for `guild_id`, if one exists.
    fn find_guild(&self, guild_id: u64) -> (r: Option<usize>)
        ensures
            match r {
                Some(i) => i < self.entries@.len() && self.entries@[i as int].0 == guild_id,
                None => !has_guild(self.entries@, guild_id),
            },
    {
        let mut i: usize = 0;
        while i < self.entries.len()
            invariant
                i <= self.entries@.len(),
                forall|j: int| 0 <= j < i ==> self.entries@[j].0 != guild_id,
            decreases self.entries@.len() - i,
        {
            if self.entries[i].0 == guild_id {
                return Some(i);
            }
            i = i + 1;
        }
        None
    }

    /// Whether a session for `guild_id` is registered.
    pub fn contains_guild(&self, guild_id: u64) -> (r: bool)
        ensures
            r == self@.dom().contains(guild_id),
    {
        match self.find_guild(guild_id) {
            Some(i) => {
                proof {
                    assert(has_guild(self.entries@, guild_id));
                }
                true
            },
            None => false,
        }
    }

    /// Register a fresh, empty queue for `guild_id` when the bot
    /// joins its voice channel. Nothing changes if one is already
    /// registered.
    pub fn join_guild(&mut self, guild_id: u64) -> (inserted: bool)
        requires
            old(self).wf(),
        ensures
            final(self).wf(),
            inserted == !old(self)@.dom().contains(guild_id),
            inserted ==> final(self)@ == old(self)@.insert(guild_id, QueueModel::empty_model()),
            !inserted ==> final(self)@ == old(self)@,
    {
        match self.find_guild(guild_id) {
            Some(_) => {
                proof {
                    assert(has_guild(self.entries@, guild_id));
                }
                false
            },
            None => {
                let q = Queue::new();
                proof {
                    lemma_push_entry(self.entries@, guild_id, q);
                }
                self.entries.push((guild_id, q));
                true
            },
        }
    }

    /// Detach the queue for `guild_id`, to operate on it while the
    /// guild's lock is held; put it back with `restore_queue`.
    pub fn take_queue(&mut self, guild_id: u64) -> (r: Option<Queue>)
        requires
            old(self).wf(),
        ensures
            final(self).wf(),
            old(self)@.dom().contains(guild_id) ==> {
                &&& r matches Some(q) && q@ == old(self)@[guild_id] && q@.wf()
                &&& final(self)@ == old(self)@.remove(guild_id)
            },
            !old(self)@.dom().contains(guild_id) ==> r is None && final(self)@ == old(self)@,
    {
        match self.find_guild(guild_id) {
            Some(i) => {
                proof {
                    lemma_remove_entry(self.entries@, i as int);
                }
                let (_, q) = self.entries.remove(i);
                Some(q)
            },
            None => None,
        }
    }

    /// Re-attach a queue taken out with `take_queue`.
    pub fn restore_queue(&mut self, guild_id: u64, q: Queue)
        requires
            old(self).wf(),
            !old(self)@.dom().contains(guild_id),
            q@.wf(),
        ensures
            final(self).wf(),
            final(self)@ == old(self)@.insert(guild_id, q@),
    {
        proof {
            if has_guild(self.entries@, guild_id) {
                assert(self@.dom().contains(guild_id));
            }
            lemma_push_entry(self.entries@, guild_id, q);
        }
        self.entries.push((guild_id, q));
    }

    /// Tear the session for `guild_id` down: its entry leaves the
    /// registry and its handles are named for stopping. A second
    /// teardown for the same guild finds nothing and reports `None`,
    /// so the voice channel is left exactly once.
    pub fn teardown_guild(&mut self, guild_id: u64) -> (r: Option<StopEffect>)
        requires
            old(self).wf(),
        ensures
            final(self).wf(),
            final(self)@ == old(self)@.remove(guild_id),
            !final(self)@.dom().contains(guild_id),
            r is Some <==> old(self)@.dom().contains(guild_id),
            old(self)@.dom().contains(guild_id) ==> r == Some(
                (StopEffect {
                    stop_current: handle_id(old(self)@[guild_id].current),
                    stop_next: handle_id(old(self)@[guild_id].next),
                }),
            ),
    {
        let taken = self.take_queue(guild_id);
        match taken {
            Some(mut q) => {
                let eff = q.stop();
                Some(eff)
            },
            None => {
                proof {
                    assert(old(self)@.remove(guild_id) =~= old(self)@);
                }
                None
            },
        }
    }
}

} // verus!
