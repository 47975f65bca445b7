use vstd::prelude::*;

use crate::decoder::text_of;
use crate::detector::outcome_of;
use crate::error::Error;

verus! {

/// What the scanner asks of its host: to tell the page something, or to do
/// something with the camera or the clock.
#[derive(Debug, PartialEq, Eq)]
pub enum Action {
    /// Tell the page that a scan has started.
    NotifyStart,
    /// Tell the page what a scan has found, or why it found nothing.
    NotifyDetect(Result<String, Error>),
    /// Tell the page that the scan is over.
    NotifyStop,
    /// Take the surface that came with the request as the surface of this
    /// scan, ask for the camera, and report whether it was granted.
    AcquireCapture,
    /// Show the granted camera on the video surface.
    BindCapture,
    /// Stop every track of the camera and take it off the video surface.
    ReleaseCapture,
    /// Take the current frame off the video surface and hand it in.
    SampleFrame,
    /// Call again when the page is about to be drawn.
    ScheduleTick,
}

/// An `Action` with its text as a sequence of characters.
pub enum ActionView {
    NotifyStart,
    NotifyDetect(Result<Seq<char>, Error>),
    NotifyStop,
    AcquireCapture,
    BindCapture,
    ReleaseCapture,
    SampleFrame,
    ScheduleTick,
}

impl View for Action {
    type V = ActionView;

    open spec fn view(&self) -> ActionView {
        match *self {
            Action::NotifyStart => ActionView::NotifyStart,
            Action::NotifyDetect(result) => ActionView::NotifyDetect(outcome_of(result)),
            Action::NotifyStop => ActionView::NotifyStop,
            Action::AcquireCapture => ActionView::AcquireCapture,
            Action::BindCapture => ActionView::BindCapture,
            Action::ReleaseCapture => ActionView::ReleaseCapture,
            Action::SampleFrame => ActionView::SampleFrame,
            Action::ScheduleTick => ActionView::ScheduleTick,
        }
    }
}

/// A list of actions with their texts as sequences of characters.
pub open spec fn shown(actions: Seq<Action>) -> Seq<ActionView> {
    Seq::new(actions.len(), |i: int| actions[i]@)
}

/// What the page is told when a scan ends in a failure: the failure, then
/// that the scan is over.
pub open spec fn failure_report(error: Error) -> Seq<ActionView> {
    seq![ActionView::NotifyDetect(Err(error)), ActionView::NotifyStop]
}

/// Reports a failure that ends a scan: the page is told of the failure and
/// then that the scan is over.
pub fn handle_detection_error(error: Error) -> (actions: Vec<Action>)
    ensures
        shown(actions@) == failure_report(error),
{
    let mut actions: Vec<Action> = Vec::new();
    actions.push(Action::NotifyDetect(Err(error)));
    actions.push(Action::NotifyStop);
    assert(shown(actions@) =~= failure_report(error));
    actions
}

/// What the page's detection callback is handed: whether a code was read, and
/// either its text or the code of the failure.
#[derive(Debug, PartialEq, Eq)]
pub struct DetectPayload {
    pub success: bool,
    pub value: Option<String>,
    pub error: Option<&'static str>,
}

/// A code that may be missing, as a sequence of characters.
pub open spec fn code_of(code: Option<&'static str>) -> Option<Seq<char>> {
    match code {
        Some(code) => Some(code@),
        None => None,
    }
}

/// The payload of the detection callback for a result: a reading carries its
/// text and no error, a failure carries its stable code and no text.
pub fn detect_payload(result: &Result<String, Error>) -> (payload: DetectPayload)
    ensures
        payload.success == (*result is Ok),
        text_of(payload.value) == (match *result {
            Ok(text) => Some(text@),
            Err(_) => None,
        }),
        code_of(payload.error) == (match *result {
            Ok(_) => None,
            Err(error) => Some(error.code_text()),
        }),
{
    match result {
        Ok(text) => DetectPayload { success: true, value: Some(text.clone()), error: None },
        Err(error) => DetectPayload { success: false, value: None, error: Some(error.code()) },
    }
}

} // verus!
