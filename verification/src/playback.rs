use vstd::prelude::*;

use crate::driver::PlaybackDriver;
use crate::errors::PlayerError;
use crate::queue::{
    Queue, contains_id_spec, id_index, spec_enqueue, spec_move_item, spec_prepend, unique_ids,
};
use crate::track::Track;

verus! {

/// Where playback stands; a current track exists only while `Playing` or
/// `Paused`.
#[derive(Debug, Clone, Copy, PartialEq, Eq, Structural)]
pub enum PlaybackState {
    Playing,
    Paused,
    Stopped,
}

/// Everything the engine reports: driver-originated notices (progress in
/// thousandths of the track, spectrum bins in thousandths of full scale,
/// completion, failure) and the semantic events the engine itself emits.
#[derive(Debug)]
pub enum PlaybackEvent {
    HistoryUpdate,
    FailedOpeningFile(String),
    TrackCompleted,
    Shutdown,
    Progress(u32, u64),
    Spectrum(Vec<u16>),
    TrackChanged(Option<Track>),
    QueueChanged(Vec<Track>),
}

/// The mathematical shape of an event: payload containers read as sequences.
pub enum EventModel {
    HistoryUpdate,
    FailedOpeningFile(Seq<char>),
    TrackCompleted,
    Shutdown,
    Progress(u32, u64),
    Spectrum(Seq<u16>),
    TrackChanged(Option<Track>),
    QueueChanged(Seq<Track>),
}

pub open spec fn event_model(e: PlaybackEvent) -> EventModel {
    match e {
        PlaybackEvent::HistoryUpdate => EventModel::HistoryUpdate,
        PlaybackEvent::FailedOpeningFile(msg) => EventModel::FailedOpeningFile(msg@),
        PlaybackEvent::TrackCompleted => EventModel::TrackCompleted,
        PlaybackEvent::Shutdown => EventModel::Shutdown,
        PlaybackEvent::Progress(p, f) => EventModel::Progress(p, f),
        PlaybackEvent::Spectrum(bins) => EventModel::Spectrum(bins@),
        PlaybackEvent::TrackChanged(t) => EventModel::TrackChanged(t),
        PlaybackEvent::QueueChanged(q) => EventModel::QueueChanged(q@),
    }
}

pub open spec fn events_model(s: Seq<PlaybackEvent>) -> Seq<EventModel> {
    s.map_values(|e: PlaybackEvent| event_model(e))
}

proof fn lemma_events_model_push(s: Seq<PlaybackEvent>, e: PlaybackEvent)
    ensures
        events_model(s.push(e)) == events_model(s).push(event_model(e)),
{
    assert(events_model(s.push(e)) =~= events_model(s).push(event_model(e)));
}

/// The engine's state as contracts speak of it: playback state, current
/// track, pending queue, history stack, progress, and the events emitted
/// since they were last drained.
pub struct EngineModel {
    pub state: PlaybackState,
    pub current: Option<Track>,
    pub queue: Option<Seq<Track>>,
    pub history: Seq<Track>,
    pub progress: u32,
    pub events: Seq<EventModel>,
}

/// Queue ids stay unique in every reachable engine state.
pub open spec fn model_wf(m: EngineModel) -> bool {
    match m.queue {
        Option::Some(s) => unique_ids(s),
        Option::None => true,
    }
}

/// What callers observe of the queue: its tracks, or nothing when no queue
/// was ever created.
pub open spec fn queue_snapshot(m: EngineModel) -> Seq<Track> {
    match m.queue {
        Option::Some(s) => s,
        Option::None => Seq::<Track>::empty(),
    }
}

/// The engine a fresh `create` returns: stopped, empty, quiet.
pub open spec fn initial_model() -> EngineModel {
    EngineModel {
        state: PlaybackState::Stopped,
        current: Option::None,
        queue: Option::None,
        history: Seq::<Track>::empty(),
        progress: 0,
        events: Seq::<EventModel>::empty(),
    }
}

/// A volume given in thousandths, clamped into [0, 1000].
pub open spec fn spec_clamp_volume(v: int) -> u32 {
    if v < 0 {
        0
    } else if v > 1000 {
        1000
    } else {
        v as u32
    }
}

/// Clamps a requested volume (thousandths of full scale) into range.
pub fn clamp_volume(v: i64) -> (r: u32)
    ensures
        r == spec_clamp_volume(v as int),
{
    if v < 0 {
        0
    } else if v > 1000 {
        1000
    } else {
        v as u32
    }
}

/// What `enqueue` does to the engine: append to the queue (creating it on
/// first use) unless the id is already pending, then report the new order.
pub open spec fn spec_engine_enqueue(m: EngineModel, t: Track) -> EngineModel {
    let q2 = match m.queue {
        Option::Some(q) => spec_enqueue(q, t),
        Option::None => seq![t],
    };
    EngineModel {
        queue: Option::Some(q2),
        events: m.events.push(EventModel::QueueChanged(q2)),
        ..m
    }
}

/// What `prepend` does to the engine: put the track first in the queue
/// (relocating it when already pending), with no event of its own.
pub open spec fn spec_engine_prepend(m: EngineModel, t: Track) -> EngineModel {
    let q2 = match m.queue {
        Option::Some(q) => spec_prepend(q, t),
        Option::None => seq![t],
    };
    EngineModel { queue: Option::Some(q2), ..m }
}

/// What `clear_queue` does: empty the queue (if one exists) and report the
/// now-empty order.
pub open spec fn spec_engine_clear_queue(m: EngineModel) -> EngineModel {
    let q2 = match m.queue {
        Option::Some(_) => Option::Some(Seq::<Track>::empty()),
        Option::None => Option::None,
    };
    EngineModel {
        queue: q2,
        events: m.events.push(EventModel::QueueChanged(Seq::<Track>::empty())),
        ..m
    }
}

/// What `stop` does: forget the current track and halt, whatever the driver
/// answers.
pub open spec fn spec_stop(m: EngineModel) -> EngineModel {
    EngineModel { state: PlaybackState::Stopped, current: Option::None, ..m }
}

/// The queue-head phase of `play`: when nothing is current, the queue head
/// (if a queue exists) becomes current, and the track change plus the new
/// order are reported — also when the queue was already empty.
pub open spec fn spec_play_prepare(m: EngineModel) -> EngineModel {
    if m.current is Some {
        m
    } else {
        match m.queue {
            Option::None => m,
            Option::Some(q) => {
                let current2 = if q.len() > 0 {
                    Option::Some(q[0])
                } else {
                    Option::None
                };
                let q2 = if q.len() > 0 {
                    q.drop_first()
                } else {
                    q
                };
                EngineModel {
                    current: current2,
                    queue: Option::Some(q2),
                    events: m.events.push(EventModel::TrackChanged(current2)).push(
                        EventModel::QueueChanged(q2),
                    ),
                    ..m
                }
            },
        }
    }
}

/// Whether `play` has nothing to play: no current track and nothing to pull
/// from the queue.
pub open spec fn spec_play_fails(m: EngineModel) -> bool {
    !(m.current is Some && m.state == PlaybackState::Paused) && spec_play_prepare(m).current
        is None
}

/// What `play` does when a track is at hand and the driver accepts: resume
/// when paused mid-track, else start the current or freshly dequeued track.
pub open spec fn spec_play_ok(m: EngineModel) -> EngineModel {
    if m.current is Some && m.state == PlaybackState::Paused {
        EngineModel { state: PlaybackState::Playing, ..m }
    } else {
        EngineModel { state: PlaybackState::Playing, ..spec_play_prepare(m) }
    }
}


/// The history phase of `next`: a current track is pushed onto the history
/// and the change announced.
pub open spec fn spec_next_prepare(m: EngineModel) -> EngineModel {
    match m.current {
        Option::Some(c) => EngineModel {
            history: m.history.push(c),
            events: m.events.push(EventModel::HistoryUpdate),
            ..m
        },
        Option::None => m,
    }
}

/// What `next` does when everything is accepted: remember the current track,
/// stop, and start the queue head.
pub open spec fn spec_next_ok(m: EngineModel) -> EngineModel {
    spec_play_ok(spec_stop(spec_next_prepare(m)))
}

/// Everything a `next` call can leave behind: from engine state `m` it ends
/// in `m2` answering `r` — playing the queue head, out of tracks, or stopped
/// short by the driver.
pub open spec fn spec_next_outcome(
    m: EngineModel,
    m2: EngineModel,
    r: Result<PlaybackState, PlayerError>,
) -> bool {
    let m1 = spec_stop(spec_next_prepare(m));
    &&& (spec_play_fails(m1) ==> ((r == Err::<PlaybackState, PlayerError>(
        PlayerError::NoTrackAvailable,
    ) && m2 == spec_play_prepare(m1)) || (r == Err::<PlaybackState, PlayerError>(
        PlayerError::DriverCommandFailed,
    ) && m2 == m1)))
    &&& (!spec_play_fails(m1) ==> ((r == Ok::<PlaybackState, PlayerError>(
        PlaybackState::Playing,
    ) && m2 == spec_play_ok(m1)) || (r == Err::<PlaybackState, PlayerError>(
        PlayerError::DriverCommandFailed,
    ) && (m2 == m1 || m2 == spec_play_prepare(m1)))))
}

/// A model with one more `TrackChanged` notice of its own current track;
/// `previous` always ends by announcing where it landed.
pub open spec fn with_track_changed(m: EngineModel) -> EngineModel {
    EngineModel { events: m.events.push(EventModel::TrackChanged(m.current)), ..m }
}

/// The rearranging phase of `previous`: halt, put the current track back at
/// the queue head (announcing the new order), then pop the latest history
/// entry as the new current track (announcing the history change).
pub open spec fn spec_previous_core(m: EngineModel) -> EngineModel {
    let m0 = EngineModel { state: PlaybackState::Stopped, ..m };
    let m1 = match m0.current {
        Option::Some(c) => {
            let mq = spec_engine_prepend(m0, c);
            EngineModel {
                events: mq.events.push(EventModel::QueueChanged(queue_snapshot(mq))),
                ..mq
            }
        },
        Option::None => m0,
    };
    if m1.history.len() > 0 {
        EngineModel {
            history: m1.history.drop_last(),
            current: Option::Some(m1.history.last()),
            events: m1.events.push(EventModel::HistoryUpdate),
            ..m1
        }
    } else {
        m1
    }
}

/// What `previous` does when everything is accepted.
pub open spec fn spec_previous_ok(m: EngineModel) -> EngineModel {
    with_track_changed(spec_play_ok(spec_previous_core(m)))
}

/// Whether `select_track_from_queue` finds nothing under the id.
pub open spec fn spec_select_fails(m: EngineModel, id: Seq<char>) -> bool {
    match m.queue {
        Option::None => true,
        Option::Some(q) => !contains_id_spec(q, id),
    }
}

/// The rearranging phase of `select_track_from_queue`: move the chosen track
/// to the queue head, push the current track (if any) onto the history, and
/// halt, ready to start the chosen track.
pub open spec fn spec_select_core(m: EngineModel, id: Seq<char>) -> EngineModel {
    let q = m.queue->Some_0;
    let q1 = spec_move_item(q, id_index(q, id), 0);
    let m1 = EngineModel { queue: Option::Some(q1), ..m };
    let m2 = match m1.current {
        Option::Some(c) => EngineModel {
            history: m1.history.push(c),
            events: m1.events.push(EventModel::HistoryUpdate),
            ..m1
        },
        Option::None => m1,
    };
    spec_stop(m2)
}

/// What `select_track_from_queue` does when everything is accepted: the
/// chosen track plays, the rest keep their order, and the final order is
/// announced.
pub open spec fn spec_select_ok(m: EngineModel, id: Seq<char>) -> EngineModel {
    let m4 = spec_play_ok(spec_select_core(m, id));
    EngineModel { events: m4.events.push(EventModel::QueueChanged(queue_snapshot(m4))), ..m4 }
}

/// Enqueueing a sequence of tracks one by one, each announcing the order.
pub open spec fn spec_enqueue_seq(m: EngineModel, ts: Seq<Track>) -> EngineModel
    decreases ts.len(),
{
    if ts.len() == 0 {
        m
    } else {
        spec_enqueue_seq(spec_engine_enqueue(m, ts[0]), ts.drop_first())
    }
}

/// What `enqueue_multiple` does: enqueue each track in order, then announce
/// the final order once more.
pub open spec fn spec_engine_enqueue_multiple(m: EngineModel, ts: Seq<Track>) -> EngineModel {
    let m1 = spec_enqueue_seq(m, ts);
    EngineModel { events: m1.events.push(EventModel::QueueChanged(queue_snapshot(m1))), ..m1 }
}

proof fn lemma_enqueue_seq_push(m: EngineModel, ts: Seq<Track>, t: Track)
    ensures
        spec_enqueue_seq(m, ts.push(t)) == spec_engine_enqueue(spec_enqueue_seq(m, ts), t),
    decreases ts.len(),
{
    if ts.len() == 0 {
        assert(ts.push(t).drop_first() =~= Seq::<Track>::empty());
        assert(spec_enqueue_seq(m, ts.push(t)) == spec_enqueue_seq(
            spec_engine_enqueue(m, t),
            Seq::<Track>::empty(),
        ));
    } else {
        assert(ts.push(t).drop_first() =~= ts.drop_first().push(t));
        lemma_enqueue_seq_push(spec_engine_enqueue(m, ts[0]), ts.drop_first(), t);
    }
}


/// What the event-dispatch loop should do after the engine has absorbed one
/// event: invoke one callback, report a failed file, halt, or nothing.
#[derive(Debug)]
pub enum Dispatch {
    Nothing,
    EmitProgress(u32, u64),
    EmitSpectrum(Vec<u16>),
    EmitHistory(Vec<Track>, Option<Track>),
    EmitTrackChanged(Option<Track>),
    EmitQueueChanged(Vec<Track>),
    ReportFileFailure(String),
    HaltDispatch,
}

/// The playback engine: the state machine that owns the current track, the
/// queue and the history, turns caller commands into driver calls, and
/// records the events it owes the outside world.
///
/// `D` is the audio backend abstraction; the engine is verified for every
/// implementation of it. Events accumulate in order and are drained with
/// `take_events`.
pub struct Playback<D: PlaybackDriver> {
    driver: D,
    pub state: PlaybackState,
    current_track: Option<Track>,
    pub queue: Option<Queue>,
    pub history: Vec<Track>,
    progress: u32,
    events: Vec<PlaybackEvent>,
}

impl<D: PlaybackDriver> Playback<D> {
    /// The engine as its contracts see it.
    pub closed spec fn model(&self) -> EngineModel {
        EngineModel {
            state: self.state,
            current: self.current_track,
            queue: match self.queue {
                Option::Some(q) => Option::Some(q@),
                Option::None => Option::None,
            },
            history: self.history@,
            progress: self.progress,
            events: events_model(self.events@),
        }
    }

    /// Every engine the library hands out keeps its queue's ids unique.
    pub open spec fn wf(&self) -> bool {
        model_wf(self.model())
    }

    /// A fresh engine around the given driver.
    pub fn create(driver: D) -> (p: Playback<D>)
        ensures
            p.model() == initial_model(),
            p.wf(),
    {
        let p = Playback {
            driver,
            state: PlaybackState::Stopped,
            current_track: Option::None,
            queue: Option::None,
            history: Vec::new(),
            progress: 0,
            events: Vec::new(),
        };
        proof {
            assert(p.model().history =~= initial_model().history);
            assert(p.model().events =~= initial_model().events);
        }
        p
    }

    /// Where playback stands right now.
    pub fn get_state(&self) -> (r: PlaybackState)
        ensures
            r == self.model().state,
    {
        self.state
    }

    /// The current track, visible only while playing or paused.
    pub fn current_track(&self) -> (r: Option<&Track>)
        ensures
            match self.model().state {
                PlaybackState::Stopped => r is None,
                _ => match r {
                    Option::Some(t) => self.model().current == Option::Some(*t),
                    Option::None => self.model().current is None,
                },
            },
    {
        match self.state {
            PlaybackState::Playing | PlaybackState::Paused => self.current_track.as_ref(),
            PlaybackState::Stopped => None,
        }
    }

    /// An owned copy of the current track, whatever the state.
    pub fn current_track_cloned(&self) -> (r: Option<Track>)
        ensures
            r == self.model().current,
    {
        match &self.current_track {
            Option::None => Option::None,
            Option::Some(t) => Option::Some(t.clone()),
        }
    }

    /// A snapshot of the pending queue; empty when none was created.
    pub fn queue(&self) -> (r: Vec<Track>)
        ensures
            r@ == queue_snapshot(self.model()),
    {
        match &self.queue {
            Option::Some(q) => q.tracks_cloned(),
            Option::None => Vec::new(),
        }
    }

    /// The events owed to the outside world, in emission order; the engine's
    /// own record is left empty.
    pub fn take_events(&mut self) -> (r: Vec<PlaybackEvent>)
        ensures
            events_model(r@) == old(self).model().events,
            final(self).model() == (EngineModel {
                events: Seq::<EventModel>::empty(),
                ..old(self).model()
            }),
            old(self).wf() ==> final(self).wf(),
    {
        let mut drained: Vec<PlaybackEvent> = Vec::new();
        core::mem::swap(&mut self.events, &mut drained);
        proof {
            assert(events_model(self.events@) =~= Seq::<EventModel>::empty());
        }
        drained
    }

    /// Appends a track to the queue, creating the queue on first use; a
    /// pending id is left where it is. The new order is reported once.
    pub fn enqueue(&mut self, track: Track)
        ensures
            final(self).model() == spec_engine_enqueue(old(self).model(), track),
            old(self).wf() ==> final(self).wf(),
    {
        match &mut self.queue {
            Option::Some(q) => {
                q.enqueue(track);
            },
            Option::None => {
                let mut q = Queue::new();
                q.enqueue(track);
                proof {
                    assert(q@ =~= seq![track]);
                }
                self.queue = Option::Some(q);
            },
        }
        let snapshot = self.queue();
        self.events.push(PlaybackEvent::QueueChanged(snapshot));
        proof {
            lemma_events_model_push(
                old(self).events@,
                PlaybackEvent::QueueChanged(snapshot),
            );
        }
    }

    /// Puts a track at the queue head, relocating it when already pending;
    /// creates the queue on first use. Emits nothing itself.
    pub fn prepend(&mut self, track: Track)
        ensures
            old(self).wf() ==> final(self).model() == spec_engine_prepend(
                old(self).model(),
                track,
            ) && final(self).wf(),
    {
        match &mut self.queue {
            Option::Some(q) => {
                q.prepend(track);
            },
            Option::None => {
                let mut q = Queue::new();
                q.enqueue(track);
                proof {
                    assert(q@ =~= seq![track]);
                }
                self.queue = Option::Some(q);
            },
        }
    }

    /// Empties the queue and reports the empty order.
    pub fn clear_queue(&mut self)
        ensures
            final(self).model() == spec_engine_clear_queue(old(self).model()),
            final(self).wf(),
    {
        match &mut self.queue {
            Option::Some(q) => {
                q.clear();
            },
            Option::None => {},
        }
        let snapshot = self.queue();
        self.events.push(PlaybackEvent::QueueChanged(snapshot));
        proof {
            lemma_events_model_push(
                old(self).events@,
                PlaybackEvent::QueueChanged(snapshot),
            );
        }
    }

    /// Pauses when playing; otherwise answers with the state unchanged.
    pub fn pause(&mut self) -> (r: Result<PlaybackState, PlayerError>)
        ensures
            old(self).model().state == PlaybackState::Playing ==> final(self).model()
                == (EngineModel { state: PlaybackState::Paused, ..old(self).model() }) && (r
                == Ok::<PlaybackState, PlayerError>(PlaybackState::Paused) || r == Err::<
                PlaybackState,
                PlayerError,
            >(PlayerError::DriverCommandFailed)),
            old(self).model().state != PlaybackState::Playing ==> final(self).model() == old(self).model() && r == Ok::<PlaybackState, PlayerError>(old(self).model().state),
            old(self).wf() ==> final(self).wf(),
    {
        if let PlaybackState::Playing = self.state {
            self.state = PlaybackState::Paused;
            match self.driver.pause() {
                Ok(_) => {},
                Err(_) => {
                    return Err(PlayerError::DriverCommandFailed);
                },
            }
        }
        Ok(self.state)
    }

    /// Resumes a paused track; without one there is nothing to resume.
    pub fn resume_play(&mut self) -> (r: Result<PlaybackState, PlayerError>)
        ensures
            old(self).model().state == PlaybackState::Paused ==> final(self).model()
                == (EngineModel { state: PlaybackState::Playing, ..old(self).model() }) && (r
                == Ok::<PlaybackState, PlayerError>(PlaybackState::Playing) || r == Err::<
                PlaybackState,
                PlayerError,
            >(PlayerError::DriverCommandFailed)),
            old(self).model().state != PlaybackState::Paused ==> final(self).model() == old(self).model() && r == Err::<PlaybackState, PlayerError>(PlayerError::NothingToResume),
            old(self).wf() ==> final(self).wf(),
    {
        match self.state {
            PlaybackState::Paused => {
                self.state = PlaybackState::Playing;
                match self.driver.resume() {
                    Ok(_) => Ok(self.state),
                    Err(_) => Err(PlayerError::DriverCommandFailed),
                }
            },
            _ => Err(PlayerError::NothingToResume),
        }
    }

    /// Halts playback and forgets the current track, whatever the driver
    /// answers.
    pub fn stop(&mut self) -> (r: Result<PlaybackState, PlayerError>)
        ensures
            final(self).model() == spec_stop(old(self).model()),
            (r == Ok::<PlaybackState, PlayerError>(PlaybackState::Stopped) || r == Err::<
                PlaybackState,
                PlayerError,
            >(PlayerError::DriverCommandFailed)),
            old(self).wf() ==> final(self).wf(),
    {
        self.state = PlaybackState::Stopped;
        self.current_track = None;
        match self.driver.pause() {
            Ok(_) => {},
            Err(_) => {
                return Err(PlayerError::DriverCommandFailed);
            },
        }
        match self.driver.clear() {
            Ok(_) => {},
            Err(_) => {
                return Err(PlayerError::DriverCommandFailed);
            },
        }
        Ok(self.state)
    }

    /// Hands the seek position to the driver; the engine's state is not
    /// touched.
    pub fn seek(&mut self, position_ms: u64) -> (r: Result<PlaybackState, PlayerError>)
        ensures
            final(self).model() == old(self).model(),
            (r == Ok::<PlaybackState, PlayerError>(old(self).model().state) || r == Err::<
                PlaybackState,
                PlayerError,
            >(PlayerError::DriverCommandFailed)),
            old(self).wf() ==> final(self).wf(),
    {
        match self.driver.seek(position_ms) {
            Ok(_) => Ok(self.state),
            Err(_) => Err(PlayerError::DriverCommandFailed),
        }
    }

    /// Clamps the requested volume into [0, 1000] thousandths and hands it to
    /// the driver; the engine's state is not touched.
    pub fn set_volume(&mut self, volume_milli: i64) -> (r: Result<PlaybackState, PlayerError>)
        ensures
            final(self).model() == old(self).model(),
            (r == Ok::<PlaybackState, PlayerError>(old(self).model().state) || r == Err::<
                PlaybackState,
                PlayerError,
            >(PlayerError::DriverCommandFailed)),
            old(self).wf() ==> final(self).wf(),
    {
        let clamped = clamp_volume(volume_milli);
        match self.driver.set_volume(clamped) {
            Ok(_) => Ok(self.state),
            Err(_) => Err(PlayerError::DriverCommandFailed),
        }
    }


    /// Starts playback: resumes when paused mid-track; otherwise makes the
    /// queue head current (announcing the change) and hands it to the driver.
    /// With nothing current and nothing queued there is no track to play.
    pub fn play(&mut self) -> (r: Result<PlaybackState, PlayerError>)
        ensures
            (old(self).model().current is Some && old(self).model().state
                == PlaybackState::Paused) ==> final(self).model() == spec_play_ok(
                old(self).model(),
            ) && (r == Ok::<PlaybackState, PlayerError>(PlaybackState::Playing) || r == Err::<
                PlaybackState,
                PlayerError,
            >(PlayerError::DriverCommandFailed)),
            spec_play_fails(old(self).model()) ==> r == Err::<PlaybackState, PlayerError>(
                PlayerError::NoTrackAvailable,
            ) && final(self).model() == spec_play_prepare(old(self).model()),
            (!(old(self).model().current is Some && old(self).model().state
                == PlaybackState::Paused) && !spec_play_fails(old(self).model())) ==> ((r
                == Ok::<PlaybackState, PlayerError>(PlaybackState::Playing) && final(self).model() == spec_play_ok(old(self).model())) || (r == Err::<
                PlaybackState,
                PlayerError,
            >(PlayerError::DriverCommandFailed) && final(self).model() == spec_play_prepare(
                old(self).model(),
            ))),
            old(self).wf() ==> final(self).wf(),
    {
        if self.current_track.is_some() && self.state == PlaybackState::Paused {
            return self.resume_play();
        }
        if self.current_track.is_none() {
            let mut dequeued = false;
            match &mut self.queue {
                Option::Some(q) => {
                    let dq = q.dequeue();
                    self.current_track = dq;
                    dequeued = true;
                },
                Option::None => {},
            }
            if dequeued {
                let cur_clone = self.current_track_cloned();
                self.events.push(PlaybackEvent::TrackChanged(cur_clone));
                proof {
                    lemma_events_model_push(
                        old(self).events@,
                        PlaybackEvent::TrackChanged(cur_clone),
                    );
                }
                let snapshot = self.queue();
                self.events.push(PlaybackEvent::QueueChanged(snapshot));
                proof {
                    lemma_events_model_push(
                        old(self).events@.push(PlaybackEvent::TrackChanged(cur_clone)),
                        PlaybackEvent::QueueChanged(snapshot),
                    );
                }
            }
        }
        proof {
            assert(self.model() == spec_play_prepare(old(self).model()));
        }
        let cur = self.current_track_cloned();
        match cur {
            Option::None => Err(PlayerError::NoTrackAvailable),
            Option::Some(t) => {
                match self.driver.play(t) {
                    Ok(_) => {},
                    Err(_) => {
                        return Err(PlayerError::DriverCommandFailed);
                    },
                }
                self.state = PlaybackState::Playing;
                Ok(self.state)
            },
        }
    }

    /// Remembers the current track in the history, halts, and starts the
    /// next queued track; track completion is handled exactly this way.
    pub fn next(&mut self) -> (r: Result<PlaybackState, PlayerError>)
        ensures
            spec_next_outcome(old(self).model(), final(self).model(), r),
            old(self).wf() ==> final(self).wf(),
    {
        let cur = self.current_track_cloned();
        match cur {
            Option::Some(c) => {
                self.history.push(c);
                self.events.push(PlaybackEvent::HistoryUpdate);
                proof {
                    lemma_events_model_push(old(self).events@, PlaybackEvent::HistoryUpdate);
                }
            },
            Option::None => {},
        }
        match self.stop() {
            Ok(_) => {},
            Err(_) => {
                return Err(PlayerError::DriverCommandFailed);
            },
        }
        self.play()
    }

    /// Steps back: the current track returns to the queue head, the latest
    /// history entry becomes current and plays, and the landing place is
    /// announced.
    pub fn previous(&mut self) -> (r: Result<PlaybackState, PlayerError>)
        ensures
            old(self).wf() ==> ({
                let mc = spec_previous_core(old(self).model());
                ||| (r == Err::<PlaybackState, PlayerError>(PlayerError::DriverCommandFailed)
                    && final(self).model() == (EngineModel {
                    state: PlaybackState::Stopped,
                    ..old(self).model()
                }))
                ||| (spec_play_fails(mc) && r == Err::<PlaybackState, PlayerError>(
                    PlayerError::NoTrackAvailable,
                ) && final(self).model() == with_track_changed(spec_play_prepare(mc)))
                ||| (!spec_play_fails(mc) && ((r == Ok::<PlaybackState, PlayerError>(
                    PlaybackState::Playing,
                ) && final(self).model() == spec_previous_ok(old(self).model())) || (r == Err::<
                    PlaybackState,
                    PlayerError,
                >(PlayerError::DriverCommandFailed) && final(self).model()
                    == with_track_changed(spec_play_prepare(mc)))))
            }),
            old(self).wf() ==> final(self).wf(),
    {
        self.state = PlaybackState::Stopped;
        match self.driver.pause() {
            Ok(_) => {},
            Err(_) => {
                return Err(PlayerError::DriverCommandFailed);
            },
        }
        match self.driver.clear() {
            Ok(_) => {},
            Err(_) => {
                return Err(PlayerError::DriverCommandFailed);
            },
        }
        let cur = self.current_track_cloned();
        match cur {
            Option::Some(c) => {
                self.prepend(c);
                let ghost events_after_prepend = self.events@;
                let snapshot = self.queue();
                self.events.push(PlaybackEvent::QueueChanged(snapshot));
                proof {
                    lemma_events_model_push(
                        events_after_prepend,
                        PlaybackEvent::QueueChanged(snapshot),
                    );
                }
            },
            Option::None => {},
        }
        if self.history.len() > 0 {
            let ghost events_so_far = self.events@;
            let popped = self.history.pop();
            match popped {
                Option::Some(t) => {
                    self.current_track = Option::Some(t);
                },
                Option::None => {},
            }
            self.events.push(PlaybackEvent::HistoryUpdate);
            proof {
                lemma_events_model_push(events_so_far, PlaybackEvent::HistoryUpdate);
            }
        }
        proof {
            if old(self).wf() {
                assert(self.model() == spec_previous_core(old(self).model()));
            }
        }
        let result = self.play();
        let ghost events_after_play = self.events@;
        let cur2 = self.current_track_cloned();
        self.events.push(PlaybackEvent::TrackChanged(cur2));
        proof {
            lemma_events_model_push(events_after_play, PlaybackEvent::TrackChanged(cur2));
        }
        result
    }

    /// Jumps to the queued track carrying the id: it moves to the head and
    /// starts, the current track (if any) goes into the history, and the
    /// remaining entries keep their relative order. An unknown id changes
    /// nothing.
    pub fn select_track_from_queue(&mut self, track_id: &str) -> (r: Result<
        PlaybackState,
        PlayerError,
    >)
        ensures
            old(self).wf() ==> ({
                let mc = spec_select_core(old(self).model(), track_id@);
                &&& (spec_select_fails(old(self).model(), track_id@) ==> r == Err::<
                    PlaybackState,
                    PlayerError,
                >(PlayerError::TrackNotFound) && final(self).model() == old(self).model())
                &&& (!spec_select_fails(old(self).model(), track_id@) ==> ((r == Ok::<
                    PlaybackState,
                    PlayerError,
                >(PlaybackState::Playing) && final(self).model() == spec_select_ok(
                    old(self).model(),
                    track_id@,
                )) || (r == Err::<PlaybackState, PlayerError>(PlayerError::DriverCommandFailed)
                    && (final(self).model() == mc || final(self).model() == spec_play_prepare(
                    mc,
                )))))
            }),
            old(self).wf() ==> final(self).wf(),
    {
        let pos = match &self.queue {
            Option::Some(q) => q.position_of_id(track_id),
            Option::None => None,
        };
        match pos {
            Option::None => Err(PlayerError::TrackNotFound),
            Option::Some(idx) => {
                proof {
                    if old(self).wf() {
                        let q = old(self).model().queue->Some_0;
                        let k = id_index(q, track_id@);
                        assert(0 <= k < q.len() && q[k].id@ == track_id@);
                        assert(k == idx as int);
                    }
                }
                match &mut self.queue {
                    Option::Some(q) => q.move_item(idx, 0),
                    Option::None => {},
                }
                let cur = self.current_track_cloned();
                match cur {
                    Option::Some(c) => {
                        self.history.push(c);
                        self.events.push(PlaybackEvent::HistoryUpdate);
                        proof {
                            lemma_events_model_push(
                                old(self).events@,
                                PlaybackEvent::HistoryUpdate,
                            );
                        }
                    },
                    Option::None => {},
                }
                match self.stop() {
                    Ok(_) => {},
                    Err(_) => {
                        return Err(PlayerError::DriverCommandFailed);
                    },
                }
                proof {
                    if old(self).wf() {
                        assert(self.model() == spec_select_core(old(self).model(), track_id@));
                    }
                }
                match self.play() {
                    Ok(_) => {},
                    Err(PlayerError::NoTrackAvailable) => {
                        return Err(PlayerError::NoTrackAvailable);
                    },
                    Err(_) => {
                        return Err(PlayerError::DriverCommandFailed);
                    },
                }
                let ghost events_after_play = self.events@;
                let snapshot = self.queue();
                self.events.push(PlaybackEvent::QueueChanged(snapshot));
                proof {
                    lemma_events_model_push(
                        events_after_play,
                        PlaybackEvent::QueueChanged(snapshot),
                    );
                }
                Ok(self.state)
            },
        }
    }

    /// Enqueues each track in order, announcing the order after each and
    /// once more at the end.
    pub fn enqueue_multiple(&mut self, tracks: Vec<Track>)
        ensures
            final(self).model() == spec_engine_enqueue_multiple(old(self).model(), tracks@),
            old(self).wf() ==> final(self).wf(),
    {
        let n = tracks.len();
        let mut i: usize = 0;
        while i < n
            invariant
                i <= n,
                n == tracks@.len(),
                self.model() == spec_enqueue_seq(old(self).model(), tracks@.subrange(0, i as int)),
                old(self).wf() ==> self.wf(),
            decreases n - i,
        {
            let t = tracks[i].clone();
            self.enqueue(t);
            proof {
                assert(tracks@.subrange(0, i as int).push(tracks@[i as int]) =~= tracks@.subrange(
                    0,
                    i + 1,
                ));
                lemma_enqueue_seq_push(
                    old(self).model(),
                    tracks@.subrange(0, i as int),
                    tracks@[i as int],
                );
            }
            i = i + 1;
        }
        proof {
            assert(tracks@.subrange(0, n as int) =~= tracks@);
        }
        let snapshot = self.queue();
        let ghost events_now = self.events@;
        self.events.push(PlaybackEvent::QueueChanged(snapshot));
        proof {
            lemma_events_model_push(events_now, PlaybackEvent::QueueChanged(snapshot));
        }
    }


    /// Absorbs one driver- or engine-originated event and says what the
    /// dispatch loop should invoke. Progress and spectrum notices are
    /// dropped unless the engine is playing; a completed track advances to
    /// the next one; `Shutdown` halts the loop.
    pub fn handle_event(&mut self, event: PlaybackEvent) -> (r: Dispatch)
        ensures
            (event matches PlaybackEvent::HistoryUpdate) ==> final(self).model() == old(
                self,
            ).model() && (r matches Dispatch::EmitHistory(h, c) && h@ == old(
                self,
            ).model().history && c == old(self).model().current),
            (event matches PlaybackEvent::TrackChanged(t) ==> final(self).model() == old(
                self,
            ).model() && r == Dispatch::EmitTrackChanged(t)),
            (event matches PlaybackEvent::QueueChanged(q) ==> final(self).model() == old(
                self,
            ).model() && r == Dispatch::EmitQueueChanged(q)),
            (event matches PlaybackEvent::Progress(p, f) ==> (if old(self).model().state
                == PlaybackState::Playing {
                final(self).model() == (EngineModel { progress: p, ..old(self).model() }) && r
                    == Dispatch::EmitProgress(p, f)
            } else {
                final(self).model() == old(self).model() && (r matches Dispatch::Nothing)
            })),
            (event matches PlaybackEvent::Spectrum(bins) ==> final(self).model() == old(
                self,
            ).model() && (if old(self).model().state == PlaybackState::Playing {
                r == Dispatch::EmitSpectrum(bins)
            } else {
                r matches Dispatch::Nothing
            })),
            (event matches PlaybackEvent::FailedOpeningFile(msg) ==> final(self).model() == old(
                self,
            ).model() && r == Dispatch::ReportFileFailure(msg)),
            (event matches PlaybackEvent::Shutdown ==> final(self).model() == old(self).model()
                && (r matches Dispatch::HaltDispatch)),
            (event matches PlaybackEvent::TrackCompleted ==> (r matches Dispatch::Nothing)
                && (exists|res: Result<PlaybackState, PlayerError>|
                #[trigger] spec_next_outcome(old(self).model(), final(self).model(), res))),
            old(self).wf() ==> final(self).wf(),
    {
        match event {
            PlaybackEvent::TrackCompleted => {
                let res = self.next();
                proof {
                    assert(spec_next_outcome(old(self).model(), self.model(), res));
                }
                Dispatch::Nothing
            },
            PlaybackEvent::FailedOpeningFile(msg) => Dispatch::ReportFileFailure(msg),
            PlaybackEvent::HistoryUpdate => {
                let history_snapshot = self.history_cloned();
                let current = self.current_track_cloned();
                Dispatch::EmitHistory(history_snapshot, current)
            },
            PlaybackEvent::TrackChanged(t) => Dispatch::EmitTrackChanged(t),
            PlaybackEvent::QueueChanged(q) => Dispatch::EmitQueueChanged(q),
            PlaybackEvent::Progress(p, f) => {
                if self.state == PlaybackState::Playing {
                    self.progress = p;
                    Dispatch::EmitProgress(p, f)
                } else {
                    Dispatch::Nothing
                }
            },
            PlaybackEvent::Spectrum(bins) => {
                if self.state == PlaybackState::Playing {
                    Dispatch::EmitSpectrum(bins)
                } else {
                    Dispatch::Nothing
                }
            },
            PlaybackEvent::Shutdown => Dispatch::HaltDispatch,
        }
    }

    /// An owned copy of the history, oldest first.
    pub fn history_cloned(&self) -> (r: Vec<Track>)
        ensures
            r@ == self.model().history,
    {
        let r = self.history.clone();
        proof {
            assert forall|i: int| 0 <= i < r@.len() implies r@[i] == self.history@[i] by {
                assert(cloned::<Track>(self.history@[i], r@[i]));
            }
            assert(r@ =~= self.history@);
        }
        r
    }

    /// Switches the spectrum pipeline on or off at the driver.
    pub fn set_spectrum_computation(&mut self, should_compute: bool) -> (r: Result<
        (),
        PlayerError,
    >)
        ensures
            final(self).model() == old(self).model(),
            (r == Ok::<(), PlayerError>(()) || r == Err::<(), PlayerError>(
                PlayerError::DriverCommandFailed,
            )),
            old(self).wf() ==> final(self).wf(),
    {
        match self.driver.set_spectrum_computation(should_compute) {
            Ok(_) => Ok(()),
            Err(_) => Err(PlayerError::DriverCommandFailed),
        }
    }
}


/// `play` with no current track, and no queue or an empty one, has no track
/// to play: together with `play`'s contract, it then reports
/// `NoTrackAvailable` and starts nothing.
pub proof fn lemma_play_empty_fails(m: EngineModel)
    requires
        m.current is None,
        m.queue is None || queue_snapshot(m).len() == 0,
    ensures
        spec_play_fails(m),
{
}

/// After `play` and then `next` from a fresh engine with a non-empty queue,
/// the history holds exactly the track that `play` had made current.
pub proof fn lemma_play_then_next_history(m: EngineModel)
    requires
        m.current is None,
        m.history.len() == 0,
        m.queue is Some,
        queue_snapshot(m).len() > 0,
    ensures
        spec_next_ok(spec_play_ok(m)).history == seq![queue_snapshot(m)[0]],
        spec_play_ok(m).current == Option::Some(queue_snapshot(m)[0]),
{
    let m1 = spec_play_ok(m);
    let m2 = spec_next_ok(m1);
    assert(m2.history =~= seq![queue_snapshot(m)[0]]);
}

/// `previous` right after `next` restores the prior current track, puts the
/// track `next` had started back at the queue head (the queue grows by one),
/// and leaves the history as it was before `next`.
pub proof fn lemma_previous_after_next(m: EngineModel)
    requires
        model_wf(m),
        m.current is Some,
        m.queue is Some,
        queue_snapshot(m).len() > 0,
    ensures
        ({
            let m1 = spec_next_ok(m);
            let m2 = spec_previous_ok(m1);
            &&& m2.current == m.current
            &&& m2.queue->Some_0 == m.queue->Some_0
            &&& m1.queue->Some_0.len() + 1 == m2.queue->Some_0.len()
            &&& m2.queue->Some_0[0] == m1.current->Some_0
            &&& m2.history == m.history
        }),
{
    let q = m.queue->Some_0;
    let c = m.current->Some_0;
    let m1 = spec_next_ok(m);
    assert(m1.current == Option::Some(q[0]));
    assert(m1.queue->Some_0 == q.drop_first());
    assert(m1.history == m.history.push(c));

    let rest = q.drop_first();
    assert(!contains_id_spec(rest, q[0].id@)) by {
        if contains_id_spec(rest, q[0].id@) {
            let i = choose|i: int| 0 <= i < rest.len() && rest[i].id@ == q[0].id@;
            assert(q[i + 1].id@ == q[0].id@);
        }
    }
    let mc = spec_previous_core(m1);
    assert(spec_prepend(rest, q[0]) =~= q);
    assert(mc.current == Option::Some(c));
    assert(mc.history == m.history);
    let m2 = spec_previous_ok(m1);
    assert(m2.current == Option::Some(c));
    assert(m2.queue->Some_0 == q);
}

/// `select_track_from_queue` makes the chosen track current, removes it from
/// the queue, and leaves every other entry in its relative order.
pub proof fn lemma_select_moves_and_keeps_order(m: EngineModel, id: Seq<char>)
    requires
        model_wf(m),
        m.queue is Some,
        contains_id_spec(m.queue->Some_0, id),
    ensures
        ({
            let q = m.queue->Some_0;
            let i = id_index(q, id);
            let m2 = spec_select_ok(m, id);
            &&& m2.current == Option::Some(q[i])
            &&& m2.current->Some_0.id@ == id
            &&& m2.queue->Some_0 == q.remove(i)
            &&& m2.state == PlaybackState::Playing
        }),
{
    let q = m.queue->Some_0;
    let i = id_index(q, id);
    assert(0 <= i < q.len() && q[i].id@ == id);
    let q1 = spec_move_item(q, i, 0);
    assert(q1 == q.remove(i).insert(0, q[i]));
    assert(q1.len() == q.len());
    let mc = spec_select_core(m, id);
    assert(mc.queue->Some_0 == q1);
    assert(q1[0] == q[i]);
    let m4 = spec_play_ok(mc);
    assert(m4.current == Option::Some(q[i]));
    assert(q1.drop_first() =~= q.remove(i));
}

} // verus!
