use vstd::prelude::*;

use crate::event::ActionView;
use crate::session::{EventView, Phase, SessionView};

verus! {

/// What a run of events leaves behind: the state of the scan after the last
/// of them, and everything the host was asked to do on the way, in order.
pub struct Run {
    pub last: SessionView,
    pub actions: Seq<ActionView>,
}

/// Lets the events act on a scan, one after the other.
pub open spec fn run(start: SessionView, events: Seq<EventView>) -> Run
    decreases events.len(),
{
    if events.len() == 0 {
        Run { last: start, actions: seq![] }
    } else {
        let step = start.step(events[0]);
        let rest = run(step.next, events.drop_first());
        Run { last: rest.last, actions: step.actions + rest.actions }
    }
}

/// The texts that the page is told of as read, in order.
pub open spec fn reported(actions: Seq<ActionView>) -> Seq<Seq<char>>
    decreases actions.len(),
{
    if actions.len() == 0 {
        seq![]
    } else {
        match actions[0] {
            ActionView::NotifyDetect(Ok(text)) => seq![text] + reported(actions.drop_first()),
            _ => reported(actions.drop_first()),
        }
    }
}

/// How often the host is asked to give the camera back.
pub open spec fn releases(actions: Seq<ActionView>) -> nat
    decreases actions.len(),
{
    if actions.len() == 0 {
        0
    } else {
        match actions[0] {
            ActionView::ReleaseCapture => 1 + releases(actions.drop_first()),
            _ => releases(actions.drop_first()),
        }
    }
}

/// The same text, read in `times` sampled frames in a row.
pub open spec fn readings(text: Seq<char>, times: nat) -> Seq<EventView> {
    Seq::new(times, |i: int| EventView::Sampled(Some(text)))
}

/// How many cameras the scan holds: one while it samples, none otherwise.
pub open spec fn held(state: SessionView) -> nat {
    if state.phase == Phase::Streaming {
        1
    } else {
        0
    }
}

/// How many cameras are granted in a run of events: a grant counts where a
/// camera is awaited when it comes.
pub open spec fn grants(start: SessionView, events: Seq<EventView>) -> nat
    decreases events.len(),
{
    if events.len() == 0 {
        0
    } else {
        let awaited = start.phase == Phase::Acquiring || start.phase == Phase::Stopping;
        let rest = grants(start.step(events[0]).next, events.drop_first());
        if events[0] is Granted && awaited {
            1 + rest
        } else {
            rest
        }
    }
}

/// How often the host is asked to come back: to call again, or to hand in a
/// frame.
pub open spec fn requests(actions: Seq<ActionView>) -> nat
    decreases actions.len(),
{
    if actions.len() == 0 {
        0
    } else {
        match actions[0] {
            ActionView::ScheduleTick => 1 + requests(actions.drop_first()),
            ActionView::SampleFrame => 1 + requests(actions.drop_first()),
            _ => requests(actions.drop_first()),
        }
    }
}

/// A scan may only go from `from` to `to` along the arrows of its state
/// machine.
pub open spec fn may_follow(from: Phase, to: Phase) -> bool {
    match (from, to) {
        (Phase::Idle, Phase::Acquiring) => true,
        (Phase::Acquiring, Phase::Streaming) => true,
        (Phase::Acquiring, Phase::Stopping) => true,
        (Phase::Acquiring, Phase::Idle) => true,
        (Phase::Streaming, Phase::Idle) => true,
        (Phase::Stopping, Phase::Idle) => true,
        _ => from == to,
    }
}

/// The texts reported by two lists of actions in a row are those of the
/// first followed by those of the second.
pub proof fn lemma_reported_concat(first: Seq<ActionView>, second: Seq<ActionView>)
    ensures
        reported(first + second) == reported(first) + reported(second),
    decreases first.len(),
{
    if first.len() == 0 {
        assert(first + second =~= second);
        assert(reported(first) + reported(second) =~= reported(second));
    } else {
        assert((first + second).drop_first() =~= first.drop_first() + second);
        lemma_reported_concat(first.drop_first(), second);
        let rest = reported(first.drop_first());
        match first[0] {
            ActionView::NotifyDetect(Ok(text)) => {
                assert((seq![text] + rest) + reported(second) =~= seq![text] + (rest + reported(
                    second,
                )));
            },
            _ => {},
        }
    }
}

/// The releases asked for by two lists of actions in a row add up.
pub proof fn lemma_releases_concat(first: Seq<ActionView>, second: Seq<ActionView>)
    ensures
        releases(first + second) == releases(first) + releases(second),
    decreases first.len(),
{
    if first.len() == 0 {
        assert(first + second =~= second);
    } else {
        assert((first + second).drop_first() =~= first.drop_first() + second);
        lemma_releases_concat(first.drop_first(), second);
    }
}

/// Two runs of events in a row are one run of both: the second begins where
/// the first ends, and the host is asked for the actions of the first and then
/// for those of the second.
pub proof fn lemma_run_concat(start: SessionView, first: Seq<EventView>, second: Seq<EventView>)
    ensures
        run(start, first + second).last == run(run(start, first).last, second).last,
        run(start, first + second).actions == run(start, first).actions + run(
            run(start, first).last,
            second,
        ).actions,
    decreases first.len(),
{
    if first.len() == 0 {
        assert(first + second =~= second);
        assert(run(start, first).actions + run(start, second).actions =~= run(
            start,
            second,
        ).actions);
    } else {
        let step = start.step(first[0]);
        assert((first + second).drop_first() =~= first.drop_first() + second);
        lemma_run_concat(step.next, first.drop_first(), second);
        let middle = run(step.next, first.drop_first());
        let tail = run(middle.last, second);
        assert(step.actions + (middle.actions + tail.actions) =~= (step.actions + middle.actions)
            + tail.actions);
    }
}

/// Every step of a scan follows an arrow of its state machine and keeps room
/// in its counter; only a start changes its limits; and a scan that does not
/// sample remembers no reading.
pub proof fn lemma_step_follows_the_machine(state: SessionView, event: EventView)
    requires
        state.wf(),
        state.phase != Phase::Streaming ==> state.last_code is None && state.consecutive_count
            == 0,
    ensures
        may_follow(state.phase, state.step(event).next.phase),
        !(event is Start) ==> state.step(event).next.limits == state.limits,
        state.step(event).next.wf(),
        state.step(event).next.phase != Phase::Streaming ==> state.step(event).next.last_code
            is None && state.step(event).next.consecutive_count == 0,
{
}

/// No step asks the host to come back more than once, and only a scan that
/// samples after the step asks for it at all: answering each request with one
/// event never leaves two requests open, and the requests of a scan that was
/// stopped come to an end.
pub proof fn lemma_one_request_at_a_time(state: SessionView, event: EventView)
    ensures
        requests(state.step(event).actions) <= 1,
        state.step(event).next.phase != Phase::Streaming ==> requests(state.step(event).actions)
            == 0,
{
    let actions = state.step(event).actions;
    let last = actions.len() - 1;
    assert forall|i: int| 0 <= i < last implies !(#[trigger] actions[i] is ScheduleTick)
        && !(actions[i] is SampleFrame) by {}
    lemma_requests_at_the_end(actions);
}

/// Where only the last action can be a request, there is at most one, and
/// none if the last is none.
proof fn lemma_requests_at_the_end(actions: Seq<ActionView>)
    requires
        forall|i: int|
            0 <= i < actions.len() - 1 ==> !(#[trigger] actions[i] is ScheduleTick) && !(
            actions[i] is SampleFrame),
    ensures
        requests(actions) <= 1,
        actions.len() == 0 || !(actions.last() is ScheduleTick || actions.last() is SampleFrame)
            ==> requests(actions) == 0,
    decreases actions.len(),
{
    if actions.len() > 1 {
        let rest = actions.drop_first();
        assert forall|i: int| 0 <= i < rest.len() - 1 implies !(#[trigger] rest[i] is ScheduleTick)
            && !(rest[i] is SampleFrame) by {
            assert(rest[i] == actions[i + 1]);
        }
        assert(rest.last() == actions.last());
        assert(!(actions[0] is ScheduleTick) && !(actions[0] is SampleFrame));
        lemma_requests_at_the_end(rest);
    } else if actions.len() == 1 {
        assert(actions.drop_first().len() == 0);
        assert(requests(actions.drop_first()) == 0);
        assert(actions.last() == actions[0]);
    }
}

/// Readings of the text that was read last only count up, as long as the
/// count stays below the required number: nothing is reported.
pub proof fn lemma_readings_count_up(state: SessionView, text: Seq<char>, times: nat)
    requires
        state.phase == Phase::Streaming,
        state.last_code == Some(text),
        state.consecutive_count + times < state.limits.required_consecutive_detections,
    ensures
        run(state, readings(text, times)).last == (SessionView {
            consecutive_count: state.consecutive_count + times,
            ..state
        }),
        reported(run(state, readings(text, times)).actions) == Seq::<Seq<char>>::empty(),
    decreases times,
{
    if times > 0 {
        let events = readings(text, times);
        let step = state.step(events[0]);
        assert(events.drop_first() =~= readings(text, (times - 1) as nat));
        lemma_readings_count_up(step.next, text, (times - 1) as nat);
        let rest = run(step.next, readings(text, (times - 1) as nat));
        lemma_reported_concat(step.actions, rest.actions);
        assert(reported(step.actions) =~= Seq::<Seq<char>>::empty()) by {
            lemma_reported_single_schedule();
        }
        assert(reported(step.actions) + reported(rest.actions) =~= Seq::<Seq<char>>::empty());
    }
}

/// Asking to be called again reports nothing.
proof fn lemma_reported_single_schedule()
    ensures
        reported(seq![ActionView::ScheduleTick]) == Seq::<Seq<char>>::empty(),
{
    let actions = seq![ActionView::ScheduleTick];
    assert(actions.drop_first() =~= Seq::<ActionView>::empty());
    assert(reported(actions.drop_first()) == Seq::<Seq<char>>::empty());
}

/// A confirmed reading, followed by the request to be called again, reports
/// the text once.
proof fn lemma_reported_confirmation(text: Seq<char>)
    ensures
        reported(seq![ActionView::NotifyDetect(Ok(text)), ActionView::ScheduleTick]) == seq![text],
{
    let actions = seq![ActionView::NotifyDetect(Ok(text)), ActionView::ScheduleTick];
    assert(actions.drop_first() =~= seq![ActionView::ScheduleTick]);
    lemma_reported_single_schedule();
    assert(seq![text] + Seq::<Seq<char>>::empty() =~= seq![text]);
}

/// The state of a scan that has read `text` one time less often than
/// required, and nothing else since.
pub open spec fn about_to_confirm(state: SessionView, text: Seq<char>) -> SessionView {
    SessionView {
        last_code: Some(text),
        consecutive_count: (state.limits.required_consecutive_detections - 1) as nat,
        ..state
    }
}

/// A scan that samples, and that has not begun to count `text`, reports it
/// exactly once when it reads it in as many frames in a row as are required,
/// and not at all when it reads it in one frame less. This holds where at
/// least two readings are required.
pub proof fn lemma_stable_reading_is_reported_once(state: SessionView, text: Seq<char>)
    requires
        state.phase == Phase::Streaming,
        state.limits.required_consecutive_detections >= 2,
        state.last_code != Some(text) || state.consecutive_count == 0,
    ensures
        reported(
            run(
                state,
                readings(text, state.limits.required_consecutive_detections as nat),
            ).actions,
        ) == seq![text],
        reported(
            run(
                state,
                readings(text, (state.limits.required_consecutive_detections - 1) as nat),
            ).actions,
        ) == Seq::<Seq<char>>::empty(),
        run(
            state,
            readings(text, (state.limits.required_consecutive_detections - 1) as nat),
        ).last == about_to_confirm(state, text),
{
    let required = state.limits.required_consecutive_detections as nat;
    let short = (required - 1) as nat;
    lemma_first_readings(state, text, short);
    let before = run(state, readings(text, short));
    // The last reading confirms.
    assert(readings(text, required) =~= readings(text, short) + readings(text, 1));
    lemma_run_concat(state, readings(text, short), readings(text, 1));
    let last = readings(text, 1);
    assert(last.drop_first() =~= Seq::<EventView>::empty());
    let step = before.last.step(last[0]);
    assert(run(step.next, last.drop_first()).actions == Seq::<ActionView>::empty());
    assert(run(before.last, last).actions =~= step.actions);
    lemma_reported_confirmation(text);
    lemma_reported_concat(before.actions, step.actions);
    assert(Seq::<Seq<char>>::empty() + seq![text] =~= seq![text]);
}

/// Another text makes the count begin again: a scan that has read `first`
/// fewer times than required, and then reads `second` as often as required,
/// reports `second` once and `first` never. This holds where at least two
/// readings are required.
pub proof fn lemma_other_text_restarts_the_count(
    state: SessionView,
    first: Seq<char>,
    second: Seq<char>,
    times: nat,
)
    requires
        state.phase == Phase::Streaming,
        state.limits.required_consecutive_detections >= 2,
        state.last_code != Some(first) || state.consecutive_count == 0,
        first != second,
        1 <= times < state.limits.required_consecutive_detections,
    ensures
        reported(
            run(
                state,
                readings(first, times) + readings(
                    second,
                    state.limits.required_consecutive_detections as nat,
                ),
            ).actions,
        ) == seq![second],
{
    let required = state.limits.required_consecutive_detections as nat;
    lemma_first_readings(state, first, times);
    let before = run(state, readings(first, times));
    lemma_stable_reading_is_reported_once(before.last, second);
    lemma_run_concat(state, readings(first, times), readings(second, required));
    let after = run(before.last, readings(second, required));
    lemma_reported_concat(before.actions, after.actions);
    assert(Seq::<Seq<char>>::empty() + seq![second] =~= seq![second]);
}

/// Fewer readings than required, of a text that the scan had not begun to
/// count, report nothing: they leave that text as the last one read, counted
/// as often as it was read.
proof fn lemma_first_readings(state: SessionView, text: Seq<char>, times: nat)
    requires
        state.phase == Phase::Streaming,
        state.last_code != Some(text) || state.consecutive_count == 0,
        1 <= times < state.limits.required_consecutive_detections,
    ensures
        reported(run(state, readings(text, times)).actions) == Seq::<Seq<char>>::empty(),
        run(state, readings(text, times)).last == (SessionView {
            last_code: Some(text),
            consecutive_count: times,
            ..state
        }),
{
    if state.last_code == Some(text) {
        lemma_readings_count_up(state, text, times);
    } else {
        let events = readings(text, times);
        let step = state.step(events[0]);
        assert(events.drop_first() =~= readings(text, (times - 1) as nat));
        lemma_readings_count_up(step.next, text, (times - 1) as nat);
        let rest = run(step.next, readings(text, (times - 1) as nat));
        lemma_reported_single_schedule();
        lemma_reported_concat(step.actions, rest.actions);
        assert(Seq::<Seq<char>>::empty() + Seq::<Seq<char>>::empty() =~= Seq::<
            Seq<char>,
        >::empty());
    }
}

/// A scan that was stopped, or that has not begun, reports no reading,
/// whatever happens to it, until the page starts it again.
pub proof fn lemma_stopped_scan_reports_nothing(state: SessionView, events: Seq<EventView>)
    requires
        state.phase == Phase::Stopping || state.phase == Phase::Idle,
        forall|i: int| 0 <= i < events.len() ==> !(#[trigger] events[i] is Start),
    ensures
        reported(run(state, events).actions) == Seq::<Seq<char>>::empty(),
        run(state, events).last.phase == Phase::Stopping || run(state, events).last.phase
            == Phase::Idle,
    decreases events.len(),
{
    if events.len() > 0 {
        let step = state.step(events[0]);
        assert(!(events[0] is Start));
        assert forall|i: int| 0 <= i < events.drop_first().len() implies !(
        #[trigger] events.drop_first()[i] is Start) by {
            assert(events.drop_first()[i] == events[i + 1]);
        }
        lemma_stopped_scan_reports_nothing(step.next, events.drop_first());
        let rest = run(step.next, events.drop_first());
        lemma_reported_concat(step.actions, rest.actions);
        assert(reported(step.actions) =~= Seq::<Seq<char>>::empty()) by {
            lemma_endings_report_nothing(state, events[0]);
        }
        assert(Seq::<Seq<char>>::empty() + Seq::<Seq<char>>::empty() =~= Seq::<
            Seq<char>,
        >::empty());
    }
}

/// No step of a scan that does not sample reports a reading.
proof fn lemma_endings_report_nothing(state: SessionView, event: EventView)
    requires
        state.phase != Phase::Streaming,
    ensures
        reported(state.step(event).actions) == Seq::<Seq<char>>::empty(),
{
    let actions = state.step(event).actions;
    assert forall|i: int| 0 <= i < actions.len() implies !(#[trigger] actions[i] matches ActionView::NotifyDetect(
        Ok(_),
    )) by {}
    lemma_silent_actions_report_nothing(actions);
}

/// Actions that tell the page of no reading report none.
proof fn lemma_silent_actions_report_nothing(actions: Seq<ActionView>)
    requires
        forall|i: int|
            0 <= i < actions.len() ==> !(#[trigger] actions[i] matches ActionView::NotifyDetect(
                Ok(_),
            )),
    ensures
        reported(actions) == Seq::<Seq<char>>::empty(),
    decreases actions.len(),
{
    if actions.len() > 0 {
        assert(!(actions[0] matches ActionView::NotifyDetect(Ok(_))));
        assert forall|i: int| 0 <= i < actions.drop_first().len() implies !(
        #[trigger] actions.drop_first()[i] matches ActionView::NotifyDetect(Ok(_))) by {
            assert(actions.drop_first()[i] == actions[i + 1]);
        }
        lemma_silent_actions_report_nothing(actions.drop_first());
    }
}

/// A scan that is stopped while it waits for the camera gives the camera
/// back as soon as it is granted, tells the page that the scan is over and is
/// idle; and from the moment it was stopped it reports no reading, whatever
/// happens, until the page starts it again.
pub proof fn lemma_stop_while_acquiring(state: SessionView, later: Seq<EventView>)
    requires
        state.phase == Phase::Acquiring,
        forall|i: int| 0 <= i < later.len() ==> !(#[trigger] later[i] is Start),
    ensures
        state.stop().next.phase == Phase::Stopping,
        state.stop().actions == Seq::<ActionView>::empty(),
        state.stop().next.granted().actions == seq![
            ActionView::ReleaseCapture,
            ActionView::NotifyStop,
        ],
        state.stop().next.granted().next.phase == Phase::Idle,
        reported(run(state.stop().next, later).actions) == Seq::<Seq<char>>::empty(),
{
    lemma_stopped_scan_reports_nothing(state.stop().next, later);
}

/// Every camera that is granted is given back exactly once: the cameras held
/// at the start and those granted on the way are those given back on the way
/// and those held at the end. A scan that begins idle and ends idle has been
/// asked to give back exactly as many cameras as it was granted.
pub proof fn lemma_every_capture_is_released(start: SessionView, events: Seq<EventView>)
    ensures
        held(start) + grants(start, events) == releases(run(start, events).actions) + held(
            run(start, events).last,
        ),
    decreases events.len(),
{
    if events.len() > 0 {
        let step = start.step(events[0]);
        lemma_every_capture_is_released(step.next, events.drop_first());
        let rest = run(step.next, events.drop_first());
        lemma_releases_concat(step.actions, rest.actions);
        lemma_step_releases(start, events[0]);
    } else {
        assert(releases(run(start, events).actions) == 0);
    }
}

/// One step gives back a camera exactly where one is held before it and none
/// after it, or where one is granted to a scan that was stopped.
proof fn lemma_step_releases(state: SessionView, event: EventView)
    ensures
        held(state) + (if event is Granted && (state.phase == Phase::Acquiring || state.phase
            == Phase::Stopping) {
            1nat
        } else {
            0nat
        }) == releases(state.step(event).actions) + held(state.step(event).next),
{
    let actions = state.step(event).actions;
    let gives_back = actions.len() > 0 && actions[0] is ReleaseCapture;
    assert forall|i: int| 0 < i < actions.len() implies !(#[trigger] actions[i] is ReleaseCapture) by {}
    if actions.len() > 0 {
        assert forall|i: int| 0 <= i < actions.drop_first().len() implies !(
        #[trigger] actions.drop_first()[i] is ReleaseCapture) by {
            assert(actions.drop_first()[i] == actions[i + 1]);
        }
        lemma_nothing_released(actions.drop_first());
    }
    assert(releases(actions) == if gives_back {
        1nat
    } else {
        0nat
    });
}

/// Actions that do not ask for the camera to be given back give none back.
proof fn lemma_nothing_released(actions: Seq<ActionView>)
    requires
        forall|i: int| 0 <= i < actions.len() ==> !(#[trigger] actions[i] is ReleaseCapture),
    ensures
        releases(actions) == 0,
    decreases actions.len(),
{
    if actions.len() > 0 {
        assert(!(actions[0] is ReleaseCapture));
        assert forall|i: int| 0 <= i < actions.drop_first().len() implies !(
        #[trigger] actions.drop_first()[i] is ReleaseCapture) by {
            assert(actions.drop_first()[i] == actions[i + 1]);
        }
        lemma_nothing_released(actions.drop_first());
    }
}

} // verus!
