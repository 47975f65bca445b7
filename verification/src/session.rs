use vstd::prelude::*;

use crate::decoder::{default_strategy, standard_strategy, text_of};
use crate::detector::{detect_frame, detects, verdict};
use crate::error::Error;
use crate::event::{handle_detection_error, shown, Action, ActionView};
use crate::frame::{gray_of, PixelBuffer, Raster};
use crate::planner::{admissible, Thresholds};

verus! {

/// Where a camera scan stands.
#[derive(Debug, Clone, Copy, PartialEq, Eq, Structural)]
pub enum Phase {
    /// No scan is under way and no camera is held.
    Idle,
    /// The camera has been asked for and the answer is awaited.
    Acquiring,
    /// The camera is held and frames are sampled.
    Streaming,
    /// The scan was stopped while the camera was asked for; the answer is
    /// still awaited, so that a granted camera can be given back.
    Stopping,
}

/// What the host found when it looked for the video surface of a scan.
#[derive(Debug, Clone, Copy, PartialEq, Eq, Structural)]
pub enum Surface {
    /// The scanner was never given a document to look in.
    NoDocument,
    /// The identifier names nothing, or something that is no video surface.
    NotFound,
    /// The identifier names a video surface.
    Found,
}

/// What happens to a camera scan.
#[derive(Debug, PartialEq, Eq)]
pub enum Event {
    /// The page asks for a scan on a surface, with limits of its own if it
    /// has any.
    Start(Surface, Option<Thresholds>),
    /// The camera was granted.
    Granted,
    /// The camera was refused, or the host failed while setting the scan up.
    Failed(Error),
    /// The page is about to be drawn, at the given time in milliseconds.
    Tick(u64),
    /// The frame that was asked for has been searched; with the text that was
    /// read in it, if any.
    Sampled(Option<String>),
    /// The page asks for the scan to end.
    Stop,
}

/// An `Event` with its text as a sequence of characters.
pub enum EventView {
    Start(Surface, Option<Thresholds>),
    Granted,
    Failed(Error),
    Tick(u64),
    Sampled(Option<Seq<char>>),
    Stop,
}

impl View for Event {
    type V = EventView;

    open spec fn view(&self) -> EventView {
        match *self {
            Event::Start(surface, limits) => EventView::Start(surface, limits),
            Event::Granted => EventView::Granted,
            Event::Failed(error) => EventView::Failed(error),
            Event::Tick(now_ms) => EventView::Tick(now_ms),
            Event::Sampled(reading) => EventView::Sampled(text_of(reading)),
            Event::Stop => EventView::Stop,
        }
    }
}

/// The state of a camera scan, as mathematics.
pub struct SessionView {
    pub phase: Phase,
    pub limits: Thresholds,
    /// The text that was read last, if the scan has read any.
    pub last_code: Option<Seq<char>>,
    /// How many times in a row `last_code` has been read since it was last
    /// reported or first seen.
    pub consecutive_count: nat,
    /// When a frame was last sampled.
    pub last_sample_ms: nat,
}

/// What one event does to a scan: the state that follows, what the host is
/// asked to do, in order, and the failure with which a request is turned down.
pub struct Step {
    pub next: SessionView,
    pub actions: Seq<ActionView>,
    pub refusal: Option<Error>,
}

impl SessionView {
    /// A scan that has not begun.
    pub open spec fn idle(limits: Thresholds) -> SessionView {
        SessionView {
            phase: Phase::Idle,
            limits,
            last_code: None,
            consecutive_count: 0,
            last_sample_ms: 0,
        }
    }

    /// This scan in another phase, with nothing read and nothing sampled.
    pub open spec fn cleared(self, phase: Phase) -> SessionView {
        SessionView {
            phase,
            limits: self.limits,
            last_code: None,
            consecutive_count: 0,
            last_sample_ms: 0,
        }
    }

    /// The counter can always take one more reading.
    pub open spec fn wf(self) -> bool {
        self.consecutive_count <= 1 || self.consecutive_count
            < self.limits.required_consecutive_detections
    }

    /// Nothing happens.
    pub open spec fn stays(self) -> Step {
        Step { next: self, actions: seq![], refusal: None }
    }

    /// The scan moves on and the host is asked for `actions`.
    pub open spec fn moves(next: SessionView, actions: Seq<ActionView>) -> Step {
        Step { next, actions, refusal: None }
    }

    /// The request is turned down and nothing changes.
    pub open spec fn refuses(self, error: Error) -> Step {
        Step { next: self, actions: seq![], refusal: Some(error) }
    }

    /// The page asks for a scan. A scan that is under way, or that still
    /// waits for the camera in order to give it back, goes on undisturbed.
    /// Otherwise the surface is checked before anything else is touched; with
    /// a surface, the scan takes the limits that come with the request, or
    /// keeps its own where none come, the page is told that the scan starts
    /// and the camera is asked for.
    pub open spec fn start(self, surface: Surface, limits: Option<Thresholds>) -> Step {
        if self.phase != Phase::Idle {
            self.stays()
        } else {
            match surface {
                Surface::NoDocument => self.refuses(Error::DocumentNotFound),
                Surface::NotFound => self.refuses(Error::InvalidVideoElementId),
                Surface::Found => Self::moves(
                    SessionView {
                        phase: Phase::Acquiring,
                        ..Self::idle(
                            match limits {
                                Some(given) => given,
                                None => self.limits,
                            },
                        )
                    },
                    seq![ActionView::NotifyStart, ActionView::AcquireCapture],
                ),
            }
        }
    }

    /// The camera was granted. A scan that waits for it shows it and begins
    /// to sample; a scan that was stopped meanwhile gives it back at once and
    /// ends. Nobody else waits for a camera.
    pub open spec fn granted(self) -> Step {
        match self.phase {
            Phase::Acquiring => Self::moves(
                self.cleared(Phase::Streaming),
                seq![ActionView::BindCapture, ActionView::ScheduleTick],
            ),
            Phase::Stopping => Self::moves(
                self.cleared(Phase::Idle),
                seq![ActionView::ReleaseCapture, ActionView::NotifyStop],
            ),
            _ => self.stays(),
        }
    }

    /// The camera was refused or the host failed: the scan ends, the page is
    /// told why and that the scan is over, and a camera that is held is given
    /// back first.
    pub open spec fn failed(self, error: Error) -> Step {
        match self.phase {
            Phase::Idle => self.stays(),
            Phase::Streaming => Self::moves(
                self.cleared(Phase::Idle),
                seq![
                    ActionView::ReleaseCapture,
                    ActionView::NotifyDetect(Err(error)),
                    ActionView::NotifyStop,
                ],
            ),
            _ => Self::moves(
                self.cleared(Phase::Idle),
                seq![ActionView::NotifyDetect(Err(error)), ActionView::NotifyStop],
            ),
        }
    }

    /// The time that has passed since the last sample; none if the clock went
    /// backwards.
    pub open spec fn elapsed(self, now_ms: u64) -> int {
        if now_ms >= self.last_sample_ms {
            now_ms - self.last_sample_ms
        } else {
            0
        }
    }

    /// The page is about to be drawn. A scan that samples asks for a frame if
    /// `min_sample_interval_ms` has passed since the last one, and to be
    /// called again if not. Any other scan asks for nothing, so that its
    /// ticks come to an end.
    pub open spec fn tick(self, now_ms: u64) -> Step {
        if self.phase != Phase::Streaming {
            self.stays()
        } else if self.elapsed(now_ms) < self.limits.min_sample_interval_ms {
            Self::moves(self, seq![ActionView::ScheduleTick])
        } else {
            Self::moves(
                SessionView { last_sample_ms: now_ms as nat, ..self },
                seq![ActionView::SampleFrame],
            )
        }
    }

    /// A text was read. If it is the text that was read last, it counts once
    /// more, and when the count reaches `required_consecutive_detections` the
    /// reading is confirmed and the count begins again at zero. Any other
    /// text takes the place of the last one, with a count of one.
    pub open spec fn observe(self, text: Seq<char>) -> (SessionView, bool) {
        if self.last_code == Some(text) {
            if self.consecutive_count + 1 >= self.limits.required_consecutive_detections {
                (SessionView { consecutive_count: 0, ..self }, true)
            } else {
                (SessionView { consecutive_count: self.consecutive_count + 1, ..self }, false)
            }
        } else {
            (SessionView { last_code: Some(text), consecutive_count: 1, ..self }, false)
        }
    }

    /// A sampled frame has been searched. A frame without a reading changes
    /// nothing; a reading is counted, and reported to the page when it is
    /// confirmed. Either way a scan that samples asks to be called again.
    pub open spec fn sampled(self, reading: Option<Seq<char>>) -> Step {
        if self.phase != Phase::Streaming {
            self.stays()
        } else {
            match reading {
                None => Self::moves(self, seq![ActionView::ScheduleTick]),
                Some(text) => {
                    let (next, confirmed) = self.observe(text);
                    if confirmed {
                        Self::moves(
                            next,
                            seq![ActionView::NotifyDetect(Ok(text)), ActionView::ScheduleTick],
                        )
                    } else {
                        Self::moves(next, seq![ActionView::ScheduleTick])
                    }
                },
            }
        }
    }

    /// The page asks for the scan to end. A scan that samples gives the
    /// camera back, forgets what it has read, tells the page that it is over
    /// and is idle. A scan that waits for the camera goes on waiting, in order
    /// to give the camera back when it comes. Nothing else is under way.
    pub open spec fn stop(self) -> Step {
        match self.phase {
            Phase::Streaming => Self::moves(
                self.cleared(Phase::Idle),
                seq![ActionView::ReleaseCapture, ActionView::NotifyStop],
            ),
            Phase::Acquiring => Self::moves(self.cleared(Phase::Stopping), seq![]),
            _ => self.stays(),
        }
    }

    /// What `event` does to this scan.
    pub open spec fn step(self, event: EventView) -> Step {
        match event {
            EventView::Start(surface, limits) => self.start(surface, limits),
            EventView::Granted => self.granted(),
            EventView::Failed(error) => self.failed(error),
            EventView::Tick(now_ms) => self.tick(now_ms),
            EventView::Sampled(reading) => self.sampled(reading),
            EventView::Stop => self.stop(),
        }
    }
}

/// `reading` is what a search of the colored frame `rgba` yields under
/// `limits` with the standard decoders: what a detection on its gray picture
/// reads, and nothing where the frame is too small or `rgba` does not hold
/// the pixels of a frame of the given sides.
pub open spec fn read_in_frame(
    rgba: Seq<u8>,
    width: u32,
    height: u32,
    limits: Thresholds,
    reading: Option<Seq<char>>,
) -> bool {
    if rgba.len() == 4 * (width * height) && admissible(width as int, height as int, limits) {
        detects(
            Raster { width: width as nat, height: height as nat, bytes: gray_of(rgba) },
            limits,
            standard_strategy(),
            verdict(reading),
        )
    } else {
        reading is None
    }
}

/// A camera scan: what it waits for, and what it has read so far.
#[derive(Debug)]
pub struct StreamSession {
    phase: Phase,
    limits: Thresholds,
    last_code: Option<String>,
    consecutive_count: u32,
    last_sample_ms: u64,
}

impl View for StreamSession {
    type V = SessionView;

    closed spec fn view(&self) -> SessionView {
        SessionView {
            phase: self.phase,
            limits: self.limits,
            last_code: text_of(self.last_code),
            consecutive_count: self.consecutive_count as nat,
            last_sample_ms: self.last_sample_ms as nat,
        }
    }
}

impl StreamSession {
    #[verifier::type_invariant]
    spec fn counter_has_room(&self) -> bool {
        self.consecutive_count <= 1 || self.consecutive_count
            < self.limits.required_consecutive_detections
    }

    /// A scan that has not begun.
    pub fn new(limits: Thresholds) -> (session: StreamSession)
        ensures
            session@ == SessionView::idle(limits),
    {
        StreamSession {
            phase: Phase::Idle,
            limits,
            last_code: None,
            consecutive_count: 0,
            last_sample_ms: 0,
        }
    }

    /// Where the scan stands.
    pub fn phase(&self) -> (phase: Phase)
        ensures
            phase == self@.phase,
            self@.wf(),
    {
        proof {
            use_type_invariant(self);
        }
        self.phase
    }

    /// The limits that steer the scan.
    pub fn limits(&self) -> (limits: Thresholds)
        ensures
            limits == self@.limits,
    {
        self.limits
    }

    /// The text that was read last, if the scan has read any.
    pub fn last_code(&self) -> (text: Option<String>)
        ensures
            text_of(text) == self@.last_code,
    {
        match &self.last_code {
            Some(last) => Some(last.clone()),
            None => None,
        }
    }

    /// How many times in a row the last text has been read.
    pub fn consecutive_count(&self) -> (count: u32)
        ensures
            count == self@.consecutive_count,
    {
        self.consecutive_count
    }

    /// When a frame was last sampled.
    pub fn last_sample_ms(&self) -> (at: u64)
        ensures
            at == self@.last_sample_ms,
    {
        self.last_sample_ms
    }

    /// Puts the scan into `phase`, with nothing read and nothing sampled.
    fn clear(&mut self, phase: Phase)
        ensures
            final(self)@ == old(self)@.cleared(phase),
    {
        *self = StreamSession {
            phase,
            limits: self.limits,
            last_code: None,
            consecutive_count: 0,
            last_sample_ms: 0,
        };
    }

    /// The camera was granted.
    pub fn granted(&mut self) -> (actions: Vec<Action>)
        ensures
            final(self)@ == old(self)@.granted().next,
            shown(actions@) == old(self)@.granted().actions,
    {
        let mut actions: Vec<Action> = Vec::new();
        match self.phase {
            Phase::Acquiring => {
                self.clear(Phase::Streaming);
                actions.push(Action::BindCapture);
                actions.push(Action::ScheduleTick);
            },
            Phase::Stopping => {
                self.clear(Phase::Idle);
                actions.push(Action::ReleaseCapture);
                actions.push(Action::NotifyStop);
            },
            _ => {},
        }
        assert(shown(actions@) =~= old(self)@.granted().actions);
        actions
    }

    /// The camera was refused, or the host failed while the scan was set up
    /// or under way.
    pub fn failed(&mut self, error: Error) -> (actions: Vec<Action>)
        ensures
            final(self)@ == old(self)@.failed(error).next,
            shown(actions@) == old(self)@.failed(error).actions,
    {
        let mut actions: Vec<Action> = Vec::new();
        match self.phase {
            Phase::Idle => {},
            Phase::Streaming => {
                self.clear(Phase::Idle);
                actions.push(Action::ReleaseCapture);
                actions.push(Action::NotifyDetect(Err(error)));
                actions.push(Action::NotifyStop);
            },
            _ => {
                self.clear(Phase::Idle);
                actions = handle_detection_error(error);
            },
        }
        assert(shown(actions@) =~= old(self)@.failed(error).actions);
        actions
    }

    /// The page is about to be drawn, at `now_ms` milliseconds.
    pub fn tick(&mut self, now_ms: u64) -> (actions: Vec<Action>)
        ensures
            final(self)@ == old(self)@.tick(now_ms).next,
            shown(actions@) == old(self)@.tick(now_ms).actions,
    {
        proof {
            use_type_invariant(&*self);
        }
        let mut actions: Vec<Action> = Vec::new();
        match self.phase {
            Phase::Streaming => {
                let elapsed: u64 = if now_ms >= self.last_sample_ms {
                    now_ms - self.last_sample_ms
                } else {
                    0
                };
                if elapsed < self.limits.min_sample_interval_ms {
                    actions.push(Action::ScheduleTick);
                } else {
                    self.last_sample_ms = now_ms;
                    actions.push(Action::SampleFrame);
                }
            },
            _ => {},
        }
        assert(shown(actions@) =~= old(self)@.tick(now_ms).actions);
        actions
    }

    /// A sampled frame has been searched, and `reading` is the text that was
    /// read in it, if any.
    pub fn sampled(&mut self, reading: Option<String>) -> (actions: Vec<Action>)
        ensures
            final(self)@ == old(self)@.sampled(text_of(reading)).next,
            shown(actions@) == old(self)@.sampled(text_of(reading)).actions,
    {
        proof {
            use_type_invariant(&*self);
        }
        let mut actions: Vec<Action> = Vec::new();
        match self.phase {
            Phase::Streaming => {
                match reading {
                    Some(text) => {
                        let same = match &self.last_code {
                            Some(last) => *last == text,
                            None => false,
                        };
                        if same {
                            let count: u32 = self.consecutive_count + 1;
                            if count >= self.limits.required_consecutive_detections {
                                self.consecutive_count = 0;
                                actions.push(Action::NotifyDetect(Ok(text)));
                            } else {
                                self.consecutive_count = count;
                            }
                        } else {
                            self.consecutive_count = 1;
                            self.last_code = Some(text);
                        }
                    },
                    None => {},
                }
                actions.push(Action::ScheduleTick);
            },
            _ => {},
        }
        assert(shown(actions@) =~= old(self)@.sampled(text_of(reading)).actions);
        actions
    }

    /// A sampled frame has come in: it is turned gray and searched under the
    /// scan's limits with the standard decoders, and what was read is counted
    /// as `sampled` says. A scan that does not sample leaves the frame alone.
    pub fn frame(&mut self, rgba: &Vec<u8>, width: u32, height: u32) -> (actions: Vec<Action>)
        ensures
            old(self)@.phase != Phase::Streaming ==> final(self)@ == old(self)@ && actions@.len()
                == 0,
            old(self)@.phase == Phase::Streaming ==> exists|reading: Option<Seq<char>>|
                read_in_frame(rgba@, width, height, old(self)@.limits, reading) && final(self)@
                    == (#[trigger] old(self)@.sampled(reading)).next && shown(actions@) == old(
                    self,
                )@.sampled(reading).actions,
    {
        match self.phase {
            Phase::Streaming => {
                let reading = match PixelBuffer::from_rgba(rgba, width, height) {
                    Some(gray) => {
                        match detect_frame(&gray, &self.limits, &default_strategy()) {
                            Ok(text) => Some(text),
                            Err(_) => None,
                        }
                    },
                    None => None,
                };
                assert(read_in_frame(rgba@, width, height, self@.limits, text_of(reading)));
                self.sampled(reading)
            },
            _ => Vec::new(),
        }
    }

    /// Lets `event` act on the scan, and returns what the host is asked to
    /// do, in order, or the failure with which the request is turned down.
    pub fn step(&mut self, event: Event) -> (result: Result<Vec<Action>, Error>)
        ensures
            final(self)@ == old(self)@.step(event@).next,
            match result {
                Ok(actions) => old(self)@.step(event@).refusal is None && shown(actions@) == old(
                    self,
                )@.step(event@).actions,
                Err(error) => old(self)@.step(event@).refusal == Some(error),
            },
    {
        match event {
            Event::Start(surface, limits) => start_stream_scan(self, surface, limits),
            Event::Granted => Ok(self.granted()),
            Event::Failed(error) => Ok(self.failed(error)),
            Event::Tick(now_ms) => Ok(self.tick(now_ms)),
            Event::Sampled(reading) => Ok(self.sampled(reading)),
            Event::Stop => Ok(stop_stream_scan(self)),
        }
    }
}

/// Begins a camera scan on the surface that the host has looked up, with the
/// limits that the page gives, if it gives any. Returns what the host is
/// asked to do, or the failure with which the request is turned down before
/// anything is touched.
pub fn start_stream_scan(
    session: &mut StreamSession,
    surface: Surface,
    limits: Option<Thresholds>,
) -> (result: Result<Vec<Action>, Error>)
    ensures
        final(session)@ == old(session)@.start(surface, limits).next,
        match result {
            Ok(actions) => old(session)@.start(surface, limits).refusal is None && shown(actions@)
                == old(session)@.start(surface, limits).actions,
            Err(error) => old(session)@.start(surface, limits).refusal == Some(error),
        },
{
    let mut actions: Vec<Action> = Vec::new();
    match session.phase {
        Phase::Idle => {
            match surface {
                Surface::NoDocument => {
                    return Err(Error::DocumentNotFound);
                },
                Surface::NotFound => {
                    return Err(Error::InvalidVideoElementId);
                },
                Surface::Found => {
                    let chosen = match limits {
                        Some(given) => given,
                        None => session.limits,
                    };
                    *session = StreamSession {
                        phase: Phase::Acquiring,
                        limits: chosen,
                        last_code: None,
                        consecutive_count: 0,
                        last_sample_ms: 0,
                    };
                    actions.push(Action::NotifyStart);
                    actions.push(Action::AcquireCapture);
                },
            }
        },
        _ => {},
    }
    assert(shown(actions@) =~= old(session)@.start(surface, limits).actions);
    Ok(actions)
}

/// Ends a camera scan. Returns what the host is asked to do.
pub fn stop_stream_scan(session: &mut StreamSession) -> (actions: Vec<Action>)
    ensures
        final(session)@ == old(session)@.stop().next,
        shown(actions@) == old(session)@.stop().actions,
{
    let mut actions: Vec<Action> = Vec::new();
    match session.phase {
        Phase::Streaming => {
            session.clear(Phase::Idle);
            actions.push(Action::ReleaseCapture);
            actions.push(Action::NotifyStop);
        },
        Phase::Acquiring => {
            session.clear(Phase::Stopping);
        },
        _ => {},
    }
    assert(shown(actions@) =~= old(session)@.stop().actions);
    actions
}

/// The failure that a refused camera stands for. The host hands in the name
/// of the rejection, if it has one: a `NotAllowedError` or a
/// `PermissionDeniedError` means that permission was denied, anything else
/// that no camera can be reached.
pub fn rejection_error(name: Option<&str>) -> (error: Error)
    ensures
        error == rejection_of(
            match name {
                Some(name) => Some(name@),
                None => None,
            },
        ),
{
    match name {
        Some(name) => {
            let given = name.to_owned();
            if given == "NotAllowedError".to_owned() || given == "PermissionDeniedError".to_owned() {
                Error::NoPermission
            } else {
                Error::NoMedia
            }
        },
        None => Error::NoMedia,
    }
}

/// The failure that a rejection of the given name stands for.
pub open spec fn rejection_of(name: Option<Seq<char>>) -> Error {
    if name == Some("NotAllowedError"@) || name == Some("PermissionDeniedError"@) {
        Error::NoPermission
    } else {
        Error::NoMedia
    }
}

} // verus!
