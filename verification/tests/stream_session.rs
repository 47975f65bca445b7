use wascan::error::Error;
use wascan::event::Action;
use wascan::planner::Thresholds;
use wascan::session::{
    rejection_error, start_stream_scan, stop_stream_scan, Event, Phase, StreamSession, Surface,
};

fn with_required(required: u32) -> Thresholds {
    Thresholds { required_consecutive_detections: required, ..Thresholds::default() }
}

fn streaming(limits: Thresholds) -> StreamSession {
    let mut session = StreamSession::new(limits);
    start_stream_scan(&mut session, Surface::Found, None).unwrap();
    session.granted();
    assert_eq!(session.phase(), Phase::Streaming);
    session
}

fn read(session: &mut StreamSession, text: &str) -> Vec<Action> {
    session.sampled(Some(text.to_string()))
}

fn successes(actions: &[Action]) -> Vec<String> {
    let mut texts = Vec::new();
    for action in actions {
        if let Action::NotifyDetect(Ok(text)) = action {
            texts.push(text.clone());
        }
    }
    texts
}

fn feed(session: &mut StreamSession, texts: &[&str]) -> Vec<String> {
    let mut reported = Vec::new();
    for text in texts {
        reported.extend(successes(&read(session, text)));
    }
    reported
}

#[test]
fn a_new_session_is_idle() {
    let session = StreamSession::new(Thresholds::default());
    assert_eq!(session.phase(), Phase::Idle);
    assert_eq!(session.limits(), Thresholds::default());
    assert_eq!(session.last_code(), None);
    assert_eq!(session.consecutive_count(), 0);
    assert_eq!(session.last_sample_ms(), 0);
}

#[test]
fn a_start_tells_the_page_and_asks_for_the_camera() {
    let mut session = StreamSession::new(Thresholds::default());
    let actions = start_stream_scan(&mut session, Surface::Found, None);
    assert_eq!(actions, Ok(vec![Action::NotifyStart, Action::AcquireCapture]));
    assert_eq!(session.phase(), Phase::Acquiring);
}

#[test]
fn a_start_without_a_surface_is_turned_down() {
    let mut session = StreamSession::new(Thresholds::default());
    assert_eq!(start_stream_scan(&mut session, Surface::NoDocument, None), Err(Error::DocumentNotFound));
    assert_eq!(session.phase(), Phase::Idle);
    assert_eq!(
        start_stream_scan(&mut session, Surface::NotFound, None),
        Err(Error::InvalidVideoElementId)
    );
    assert_eq!(session.phase(), Phase::Idle);
}

#[test]
fn a_start_can_bring_its_own_limits() {
    let mut session = StreamSession::new(Thresholds::default());
    let own = with_required(2);
    start_stream_scan(&mut session, Surface::Found, Some(own)).unwrap();
    assert_eq!(session.limits(), own);
    session.granted();
    assert_eq!(feed(&mut session, &["A", "A"]), vec!["A".to_string()]);
    stop_stream_scan(&mut session);
    assert_eq!(session.limits(), own);
    start_stream_scan(&mut session, Surface::Found, None).unwrap();
    assert_eq!(session.limits(), own);
    assert_eq!(start_stream_scan(&mut session, Surface::Found, Some(with_required(9))), Ok(vec![]));
    assert_eq!(session.limits(), own);
    let mut other = StreamSession::new(Thresholds::default());
    assert_eq!(
        start_stream_scan(&mut other, Surface::NotFound, Some(own)),
        Err(Error::InvalidVideoElementId)
    );
    assert_eq!(other.limits(), Thresholds::default());
}

#[test]
fn a_second_start_changes_nothing() {
    let mut session = StreamSession::new(Thresholds::default());
    start_stream_scan(&mut session, Surface::Found, None).unwrap();
    assert_eq!(start_stream_scan(&mut session, Surface::Found, None), Ok(vec![]));
    assert_eq!(start_stream_scan(&mut session, Surface::NotFound, None), Ok(vec![]));
    assert_eq!(session.phase(), Phase::Acquiring);
    session.granted();
    read(&mut session, "A");
    assert_eq!(start_stream_scan(&mut session, Surface::Found, None), Ok(vec![]));
    assert_eq!(start_stream_scan(&mut session, Surface::NoDocument, None), Ok(vec![]));
    assert_eq!(session.phase(), Phase::Streaming);
    assert_eq!(session.last_code(), Some("A".to_string()));
    assert_eq!(session.consecutive_count(), 1);
}

#[test]
fn a_granted_camera_is_shown_and_sampled() {
    let mut session = StreamSession::new(Thresholds::default());
    start_stream_scan(&mut session, Surface::Found, None).unwrap();
    assert_eq!(session.granted(), vec![Action::BindCapture, Action::ScheduleTick]);
    assert_eq!(session.phase(), Phase::Streaming);
    assert_eq!(session.last_sample_ms(), 0);
}

#[test]
fn a_grant_that_nobody_waits_for_is_ignored() {
    let mut idle = StreamSession::new(Thresholds::default());
    assert_eq!(idle.granted(), vec![]);
    assert_eq!(idle.phase(), Phase::Idle);
    let mut busy = streaming(Thresholds::default());
    read(&mut busy, "A");
    assert_eq!(busy.granted(), vec![]);
    assert_eq!(busy.phase(), Phase::Streaming);
    assert_eq!(busy.consecutive_count(), 1);
}

#[test]
fn a_denied_permission_ends_the_scan() {
    let mut session = StreamSession::new(Thresholds::default());
    let mut told = start_stream_scan(&mut session, Surface::Found, None).unwrap();
    let error = rejection_error(Some("NotAllowedError"));
    assert_eq!(error, Error::NoPermission);
    told.extend(session.failed(error));
    assert_eq!(
        told,
        vec![
            Action::NotifyStart,
            Action::AcquireCapture,
            Action::NotifyDetect(Err(Error::NoPermission)),
            Action::NotifyStop,
        ]
    );
    assert_eq!(session.phase(), Phase::Idle);
}

#[test]
fn rejections_are_told_apart_by_name() {
    assert_eq!(rejection_error(Some("NotAllowedError")), Error::NoPermission);
    assert_eq!(rejection_error(Some("PermissionDeniedError")), Error::NoPermission);
    assert_eq!(rejection_error(Some("NotFoundError")), Error::NoMedia);
    assert_eq!(rejection_error(Some("NotReadableError")), Error::NoMedia);
    assert_eq!(rejection_error(Some("notallowederror")), Error::NoMedia);
    assert_eq!(rejection_error(Some("NotAllowedError ")), Error::NoMedia);
    assert_eq!(rejection_error(Some("")), Error::NoMedia);
    assert_eq!(rejection_error(None), Error::NoMedia);
}

#[test]
fn a_missing_camera_ends_the_scan() {
    let mut session = StreamSession::new(Thresholds::default());
    start_stream_scan(&mut session, Surface::Found, None).unwrap();
    assert_eq!(
        session.failed(Error::NoMedia),
        vec![Action::NotifyDetect(Err(Error::NoMedia)), Action::NotifyStop]
    );
    assert_eq!(session.phase(), Phase::Idle);
}

#[test]
fn a_failure_while_sampling_gives_the_camera_back() {
    let mut session = streaming(Thresholds::default());
    read(&mut session, "A");
    assert_eq!(
        session.failed(Error::Internal),
        vec![
            Action::ReleaseCapture,
            Action::NotifyDetect(Err(Error::Internal)),
            Action::NotifyStop,
        ]
    );
    assert_eq!(session.phase(), Phase::Idle);
    assert_eq!(session.last_code(), None);
    assert_eq!(session.consecutive_count(), 0);
}

#[test]
fn a_failure_that_nobody_waits_for_is_ignored() {
    let mut session = StreamSession::new(Thresholds::default());
    assert_eq!(session.failed(Error::NoMedia), vec![]);
    assert_eq!(session.phase(), Phase::Idle);
}

#[test]
fn frames_are_sampled_no_more_often_than_the_interval() {
    let mut session = streaming(Thresholds::default());
    assert_eq!(session.tick(0), vec![Action::ScheduleTick]);
    assert_eq!(session.tick(99), vec![Action::ScheduleTick]);
    assert_eq!(session.last_sample_ms(), 0);
    assert_eq!(session.tick(100), vec![Action::SampleFrame]);
    assert_eq!(session.last_sample_ms(), 100);
    assert_eq!(session.tick(150), vec![Action::ScheduleTick]);
    assert_eq!(session.tick(199), vec![Action::ScheduleTick]);
    assert_eq!(session.last_sample_ms(), 100);
    assert_eq!(session.tick(200), vec![Action::SampleFrame]);
    assert_eq!(session.tick(1_000_000), vec![Action::SampleFrame]);
    assert_eq!(session.last_sample_ms(), 1_000_000);
}

#[test]
fn the_first_tick_of_a_wall_clock_samples() {
    let mut session = streaming(Thresholds::default());
    assert_eq!(session.tick(1_790_000_000_000), vec![Action::SampleFrame]);
    assert_eq!(session.last_sample_ms(), 1_790_000_000_000);
}

#[test]
fn a_clock_that_goes_backwards_samples_nothing() {
    let mut session = streaming(Thresholds::default());
    assert_eq!(session.tick(5000), vec![Action::SampleFrame]);
    assert_eq!(session.tick(4000), vec![Action::ScheduleTick]);
    assert_eq!(session.tick(0), vec![Action::ScheduleTick]);
    assert_eq!(session.last_sample_ms(), 5000);
}

#[test]
fn an_interval_of_zero_samples_every_tick() {
    let mut session = streaming(Thresholds { min_sample_interval_ms: 0, ..Thresholds::default() });
    assert_eq!(session.tick(0), vec![Action::SampleFrame]);
    assert_eq!(session.tick(0), vec![Action::SampleFrame]);
    assert_eq!(session.tick(1), vec![Action::SampleFrame]);
}

#[test]
fn ticks_of_a_scan_that_does_not_sample_come_to_an_end() {
    let mut session = StreamSession::new(Thresholds::default());
    assert_eq!(session.tick(1000), vec![]);
    start_stream_scan(&mut session, Surface::Found, None).unwrap();
    assert_eq!(session.tick(1000), vec![]);
    session.granted();
    stop_stream_scan(&mut session);
    assert_eq!(session.tick(2000), vec![]);
    assert_eq!(session.last_sample_ms(), 0);
}

#[test]
fn a_stable_reading_is_reported_once() {
    let mut session = streaming(Thresholds::default());
    assert_eq!(read(&mut session, "A"), vec![Action::ScheduleTick]);
    assert_eq!(session.consecutive_count(), 1);
    assert_eq!(read(&mut session, "A"), vec![Action::ScheduleTick]);
    assert_eq!(session.consecutive_count(), 2);
    assert_eq!(
        read(&mut session, "A"),
        vec![Action::NotifyDetect(Ok("A".to_string())), Action::ScheduleTick]
    );
    assert_eq!(session.consecutive_count(), 0);
    assert_eq!(session.last_code(), Some("A".to_string()));
}

#[test]
fn one_reading_too_few_is_not_reported() {
    let mut session = streaming(Thresholds::default());
    assert_eq!(feed(&mut session, &["A", "A"]), Vec::<String>::new());
    let mut five = streaming(with_required(5));
    assert_eq!(feed(&mut five, &["A", "A", "A", "A"]), Vec::<String>::new());
    assert_eq!(feed(&mut five, &["A"]), vec!["A".to_string()]);
}

#[test]
fn exactly_the_required_readings_are_reported_once() {
    for required in 2..8u32 {
        let mut session = streaming(with_required(required));
        let texts: Vec<&str> = (0..required).map(|_| "4006381333931").collect();
        assert_eq!(feed(&mut session, &texts), vec!["4006381333931".to_string()]);
        let mut short = streaming(with_required(required));
        assert_eq!(feed(&mut short, &texts[1..]), Vec::<String>::new());
    }
}

#[test]
fn the_same_code_can_be_confirmed_again() {
    let mut session = streaming(Thresholds::default());
    assert_eq!(
        feed(&mut session, &["A", "A", "A", "A", "A", "A", "A"]),
        vec!["A".to_string(), "A".to_string()]
    );
    assert_eq!(session.consecutive_count(), 1);
}

#[test]
fn another_text_restarts_the_count() {
    let mut session = streaming(Thresholds::default());
    assert_eq!(feed(&mut session, &["A", "A", "B", "B", "B"]), vec!["B".to_string()]);
}

#[test]
fn alternating_texts_are_never_reported() {
    let mut session = streaming(Thresholds::default());
    assert_eq!(feed(&mut session, &["A", "B", "A", "B", "A", "B", "A"]), Vec::<String>::new());
    assert_eq!(session.last_code(), Some("A".to_string()));
    assert_eq!(session.consecutive_count(), 1);
}

#[test]
fn a_frame_without_a_reading_changes_nothing() {
    let mut session = streaming(Thresholds::default());
    read(&mut session, "A");
    read(&mut session, "A");
    assert_eq!(session.sampled(None), vec![Action::ScheduleTick]);
    assert_eq!(session.last_code(), Some("A".to_string()));
    assert_eq!(session.consecutive_count(), 2);
    assert_eq!(
        read(&mut session, "A"),
        vec![Action::NotifyDetect(Ok("A".to_string())), Action::ScheduleTick]
    );
}

#[test]
fn with_one_required_reading_the_second_is_reported() {
    let mut session = streaming(with_required(1));
    assert_eq!(feed(&mut session, &["A"]), Vec::<String>::new());
    assert_eq!(feed(&mut session, &["A"]), vec!["A".to_string()]);
    assert_eq!(feed(&mut session, &["A"]), vec!["A".to_string()]);
    let mut none = streaming(with_required(0));
    assert_eq!(feed(&mut none, &["A", "A", "B", "B"]), vec!["A".to_string(), "B".to_string()]);
}

#[test]
fn readings_of_a_scan_that_does_not_sample_are_dropped() {
    let mut session = StreamSession::new(Thresholds::default());
    assert_eq!(read(&mut session, "A"), vec![]);
    assert_eq!(session.sampled(None), vec![]);
    assert_eq!(session.last_code(), None);
    start_stream_scan(&mut session, Surface::Found, None).unwrap();
    assert_eq!(read(&mut session, "A"), vec![]);
    assert_eq!(session.last_code(), None);
    assert_eq!(session.consecutive_count(), 0);
}

#[test]
fn a_stop_gives_the_camera_back() {
    let mut session = streaming(Thresholds::default());
    session.tick(1000);
    read(&mut session, "A");
    assert_eq!(stop_stream_scan(&mut session), vec![Action::ReleaseCapture, Action::NotifyStop]);
    assert_eq!(session.phase(), Phase::Idle);
    assert_eq!(session.last_code(), None);
    assert_eq!(session.consecutive_count(), 0);
    assert_eq!(session.last_sample_ms(), 0);
}

#[test]
fn a_second_stop_changes_nothing() {
    let mut session = streaming(Thresholds::default());
    stop_stream_scan(&mut session);
    assert_eq!(stop_stream_scan(&mut session), vec![]);
    assert_eq!(session.phase(), Phase::Idle);
    let mut idle = StreamSession::new(Thresholds::default());
    assert_eq!(stop_stream_scan(&mut idle), vec![]);
    assert_eq!(idle.phase(), Phase::Idle);
}

#[test]
fn a_stop_while_the_camera_is_awaited_gives_it_back_when_it_comes() {
    let mut session = StreamSession::new(Thresholds::default());
    start_stream_scan(&mut session, Surface::Found, None).unwrap();
    assert_eq!(stop_stream_scan(&mut session), vec![]);
    assert_eq!(session.phase(), Phase::Stopping);
    assert_eq!(stop_stream_scan(&mut session), vec![]);
    assert_eq!(session.tick(1000), vec![]);
    assert_eq!(read(&mut session, "A"), vec![]);
    assert_eq!(start_stream_scan(&mut session, Surface::Found, None), Ok(vec![]));
    assert_eq!(session.phase(), Phase::Stopping);
    assert_eq!(session.granted(), vec![Action::ReleaseCapture, Action::NotifyStop]);
    assert_eq!(session.phase(), Phase::Idle);
    assert_eq!(session.tick(2000), vec![]);
    assert_eq!(feed(&mut session, &["A", "A", "A"]), Vec::<String>::new());
}

#[test]
fn a_refusal_after_a_stop_still_ends_the_scan() {
    let mut session = StreamSession::new(Thresholds::default());
    start_stream_scan(&mut session, Surface::Found, None).unwrap();
    stop_stream_scan(&mut session);
    assert_eq!(
        session.failed(Error::NoPermission),
        vec![Action::NotifyDetect(Err(Error::NoPermission)), Action::NotifyStop]
    );
    assert_eq!(session.phase(), Phase::Idle);
}

#[test]
fn a_new_scan_begins_to_count_afresh() {
    let mut session = streaming(Thresholds::default());
    feed(&mut session, &["A", "A"]);
    stop_stream_scan(&mut session);
    assert_eq!(
        start_stream_scan(&mut session, Surface::Found, None),
        Ok(vec![Action::NotifyStart, Action::AcquireCapture])
    );
    session.granted();
    assert_eq!(feed(&mut session, &["A"]), Vec::<String>::new());
    assert_eq!(session.consecutive_count(), 1);
    assert_eq!(feed(&mut session, &["A", "A"]), vec!["A".to_string()]);
}

#[test]
fn every_granted_camera_is_given_back_once() {
    let mut session = StreamSession::new(Thresholds::default());
    let events = vec![
        Event::Start(Surface::Found, None),
        Event::Granted,
        Event::Tick(500),
        Event::Sampled(Some("A".to_string())),
        Event::Stop,
        Event::Stop,
        Event::Start(Surface::Found, None),
        Event::Stop,
        Event::Granted,
        Event::Start(Surface::Found, None),
        Event::Granted,
        Event::Failed(Error::Internal),
        Event::Granted,
    ];
    let mut bound = 0;
    let mut released = 0;
    for event in events {
        for action in session.step(event).unwrap() {
            match action {
                Action::BindCapture => bound += 1,
                Action::ReleaseCapture => released += 1,
                _ => {}
            }
        }
    }
    assert_eq!(session.phase(), Phase::Idle);
    assert_eq!(bound, 2);
    assert_eq!(released, 3);
}

#[test]
fn a_step_does_what_the_event_says() {
    let mut session = StreamSession::new(Thresholds::default());
    assert_eq!(session.step(Event::Start(Surface::NotFound, None)), Err(Error::InvalidVideoElementId));
    assert_eq!(session.step(Event::Start(Surface::NoDocument, None)), Err(Error::DocumentNotFound));
    assert_eq!(
        session.step(Event::Start(Surface::Found, None)),
        Ok(vec![Action::NotifyStart, Action::AcquireCapture])
    );
    assert_eq!(session.step(Event::Granted), Ok(vec![Action::BindCapture, Action::ScheduleTick]));
    assert_eq!(session.step(Event::Tick(100)), Ok(vec![Action::SampleFrame]));
    assert_eq!(session.step(Event::Tick(120)), Ok(vec![Action::ScheduleTick]));
    assert_eq!(session.step(Event::Sampled(None)), Ok(vec![Action::ScheduleTick]));
    assert_eq!(
        session.step(Event::Sampled(Some("A".to_string()))),
        Ok(vec![Action::ScheduleTick])
    );
    assert_eq!(
        session.step(Event::Sampled(Some("A".to_string()))),
        Ok(vec![Action::ScheduleTick])
    );
    assert_eq!(
        session.step(Event::Sampled(Some("A".to_string()))),
        Ok(vec![Action::NotifyDetect(Ok("A".to_string())), Action::ScheduleTick])
    );
    assert_eq!(
        session.step(Event::Failed(Error::Internal)),
        Ok(vec![
            Action::ReleaseCapture,
            Action::NotifyDetect(Err(Error::Internal)),
            Action::NotifyStop,
        ])
    );
    assert_eq!(session.step(Event::Stop), Ok(vec![]));
    assert_eq!(session.phase(), Phase::Idle);
}

#[test]
fn a_frame_is_left_alone_by_a_scan_that_does_not_sample() {
    let mut session = StreamSession::new(Thresholds::default());
    assert_eq!(session.frame(&vec![255; 4 * 100 * 100], 100, 100), vec![]);
    start_stream_scan(&mut session, Surface::Found, None).unwrap();
    assert_eq!(session.frame(&vec![255; 4 * 100 * 100], 100, 100), vec![]);
}

#[test]
fn a_blank_or_broken_frame_reads_nothing() {
    let mut session = streaming(Thresholds::default());
    read(&mut session, "A");
    assert_eq!(session.frame(&vec![255; 4 * 100 * 100], 100, 100), vec![Action::ScheduleTick]);
    assert_eq!(session.frame(&vec![255; 4 * 20 * 20], 20, 20), vec![Action::ScheduleTick]);
    assert_eq!(session.frame(&vec![255; 7], 100, 100), vec![Action::ScheduleTick]);
    assert_eq!(session.frame(&vec![], 0, 0), vec![Action::ScheduleTick]);
    assert_eq!(session.last_code(), Some("A".to_string()));
    assert_eq!(session.consecutive_count(), 1);
}
