use discover::client::{get_stream_uris, Clients};
use discover::credentials::{CredentialTable, Credentials};
use discover::directory::{ServiceDescriptor, SessionError};
use discover::fanout::{dispatch, DiscoveredDevice};
use discover::media::{MediaProfile, StreamError, StreamResult, TransportError, VideoEncoder};
use discover::trial::{event_of, step, AttemptError, TrialAction, TrialEvent, TrialState};

/// Drives a trial against candidates of which `valid` says which succeed.
fn drive(valid: &[bool]) -> (Vec<usize>, TrialState, TrialAction) {
    let mut attempted = Vec::new();
    let (mut state, mut action) = step(TrialState::Pending, valid.len(), TrialEvent::Start);
    while let TrialAction::Attempt(place) = action {
        assert_eq!(state, TrialState::Trying(place));
        attempted.push(place);
        let event = if valid[place] { TrialEvent::Succeeded(vec![]) } else { TrialEvent::Failed };
        (state, action) = step(state, valid.len(), event);
    }
    (attempted, state, action)
}

#[test]
fn start_leads_to_the_first_candidate() {
    assert_eq!(step(TrialState::Pending, 3, TrialEvent::Start), (TrialState::Trying(0), TrialAction::Attempt(0)));
    assert_eq!(step(TrialState::Pending, 1, TrialEvent::Start), (TrialState::Trying(0), TrialAction::Attempt(0)));
}

#[test]
fn no_candidate_is_exhaustion_at_once() {
    assert_eq!(step(TrialState::Pending, 0, TrialEvent::Start), (TrialState::Exhausted, TrialAction::ReportExhausted));
}

#[test]
fn failure_leads_to_the_next_candidate() {
    assert_eq!(step(TrialState::Trying(0), 3, TrialEvent::Failed), (TrialState::Trying(1), TrialAction::Attempt(1)));
    assert_eq!(step(TrialState::Trying(1), 3, TrialEvent::Failed), (TrialState::Trying(2), TrialAction::Attempt(2)));
    assert_eq!(step(TrialState::Trying(2), 3, TrialEvent::Failed), (TrialState::Exhausted, TrialAction::ReportExhausted));
}

#[test]
fn success_ends_the_trial_with_its_streams() {
    let streams = vec![StreamResult { name: "A".to_string(), uri: "rtsp://a".to_string(), resolution: None, frame_rate: None }];
    let expected = vec![StreamResult { name: "A".to_string(), uri: "rtsp://a".to_string(), resolution: None, frame_rate: None }];
    assert_eq!(
        step(TrialState::Trying(0), 3, TrialEvent::Succeeded(streams)),
        (TrialState::Succeeded, TrialAction::Emit(expected))
    );
}

#[test]
fn events_without_meaning_change_nothing() {
    assert_eq!(step(TrialState::Pending, 2, TrialEvent::Failed), (TrialState::Pending, TrialAction::Ignore));
    assert_eq!(step(TrialState::Pending, 2, TrialEvent::Succeeded(vec![])), (TrialState::Pending, TrialAction::Ignore));
    assert_eq!(step(TrialState::Trying(1), 2, TrialEvent::Start), (TrialState::Trying(1), TrialAction::Ignore));
    assert_eq!(step(TrialState::Succeeded, 2, TrialEvent::Failed), (TrialState::Succeeded, TrialAction::Ignore));
    assert_eq!(step(TrialState::Succeeded, 2, TrialEvent::Start), (TrialState::Succeeded, TrialAction::Ignore));
    assert_eq!(step(TrialState::Exhausted, 2, TrialEvent::Start), (TrialState::Exhausted, TrialAction::Ignore));
    assert_eq!(step(TrialState::Exhausted, 2, TrialEvent::Succeeded(vec![])), (TrialState::Exhausted, TrialAction::Ignore));
}

#[test]
fn a_place_behind_the_list_ends_in_exhaustion() {
    assert_eq!(step(TrialState::Trying(7), 3, TrialEvent::Failed), (TrialState::Exhausted, TrialAction::ReportExhausted));
    assert_eq!(step(TrialState::Trying(usize::MAX), usize::MAX, TrialEvent::Failed), (TrialState::Exhausted, TrialAction::ReportExhausted));
    assert_eq!(step(TrialState::Trying(0), 0, TrialEvent::Failed), (TrialState::Exhausted, TrialAction::ReportExhausted));
}

#[test]
fn trial_stops_at_the_only_valid_candidate() {
    for n in 1..6 {
        for k in 0..n {
            let valid: Vec<bool> = (0..n).map(|i| i == k).collect();
            let (attempted, state, action) = drive(&valid);
            assert_eq!(attempted, (0..=k).collect::<Vec<usize>>());
            assert_eq!(state, TrialState::Succeeded);
            assert_eq!(action, TrialAction::Emit(vec![]));
        }
    }
}

#[test]
fn trial_stops_at_the_first_valid_candidate() {
    let (attempted, state, _) = drive(&[false, true, true, false, true]);
    assert_eq!(attempted, vec![0, 1]);
    assert_eq!(state, TrialState::Succeeded);
}

#[test]
fn trial_tries_all_when_none_is_valid() {
    for n in 0..6 {
        let valid = vec![false; n];
        let (attempted, state, action) = drive(&valid);
        assert_eq!(attempted, (0..n).collect::<Vec<usize>>());
        assert_eq!(state, TrialState::Exhausted);
        assert_eq!(action, TrialAction::ReportExhausted);
    }
}

#[test]
fn every_failure_is_the_same_to_the_trial() {
    assert_eq!(event_of(Err(AttemptError::Session(SessionError::MalformedAddress("empty host".to_string())))), TrialEvent::Failed);
    assert_eq!(
        event_of(Err(AttemptError::Session(SessionError::OutsideBase { x_addr: "http://b".to_string(), base: "http://a".to_string() }))),
        TrialEvent::Failed
    );
    assert_eq!(
        event_of(Err(AttemptError::Session(SessionError::ManagementMismatch { x_addr: "x".to_string(), expected: "y".to_string() }))),
        TrialEvent::Failed
    );
    assert_eq!(event_of(Err(AttemptError::Transport(TransportError::Authentication("401".to_string())))), TrialEvent::Failed);
    assert_eq!(event_of(Err(AttemptError::Streams(StreamError::MediaUnavailable))), TrialEvent::Failed);
    assert_eq!(
        event_of(Err(AttemptError::Streams(StreamError::Transport(TransportError::Connectivity("reset".to_string()))))),
        TrialEvent::Failed
    );
    assert_eq!(event_of(Ok(vec![])), TrialEvent::Succeeded(vec![]));
}

/// A device that lets in one pair only, and has two profiles.
fn attempt(uri: &str, candidate: &Credentials, tried: &mut Vec<String>) -> Result<Vec<StreamResult>, AttemptError> {
    tried.push(candidate.username.clone());
    if candidate.username != "user2" || candidate.password != "pass2" {
        return Err(AttemptError::Transport(TransportError::Authentication("Unauthorized".to_string())));
    }
    let services = vec![
        ServiceDescriptor::new("http://www.onvif.org/ver10/device/wsdl", "http://192.168.1.20/onvif/device_service"),
        ServiceDescriptor::new("http://www.onvif.org/ver10/media/wsdl", "http://192.168.1.20/onvif/media_service"),
    ];
    let clients = Clients::new(uri, Some(&candidate.username), Some(&candidate.password), &services)
        .map_err(AttemptError::Session)?;
    assert_eq!(clients.media().unwrap().credentials.as_ref(), Some(candidate));
    let profiles = vec![
        MediaProfile::new("p0", "MainStream", Some(VideoEncoder { width: 2560, height: 1440, frame_rate_limit: Some(30) })),
        MediaProfile::new("p1", "SubStream", Some(VideoEncoder { width: 704, height: 576, frame_rate_limit: Some(15) })),
    ];
    let batch = Ok(vec!["rtsp://192.168.1.20/main".to_string(), "rtsp://192.168.1.20/sub".to_string()]);
    get_stream_uris(&clients, &profiles, batch).map_err(AttemptError::Streams)
}

#[test]
fn cam1_streams_with_its_second_pair() {
    let mut table = CredentialTable::new();
    table.insert("Cam1", "user1", "pass1");
    table.insert("Cam1", "user2", "pass2");
    let device = DiscoveredDevice { scheme: "http".to_string(), host: "192.168.1.20".to_string(), name: Some("Cam1".to_string()) };
    let plan = dispatch(&table, &device);
    assert!(plan.matched);
    assert_eq!(plan.uri, "http://192.168.1.20");
    assert_eq!(plan.candidates, vec![Credentials::new("user1", "pass1"), Credentials::new("user2", "pass2")]);

    let mut tried = Vec::new();
    let mut lines = Vec::new();
    let count = plan.candidates.len();
    let (mut state, mut action) = step(TrialState::Pending, count, TrialEvent::Start);
    loop {
        match action {
            TrialAction::Attempt(place) => {
                let outcome = attempt(&plan.uri, &plan.candidates[place], &mut tried);
                (state, action) = step(state, count, event_of(outcome));
            }
            TrialAction::Emit(results) => {
                lines.extend(results.iter().map(|r| r.line()));
                break;
            }
            TrialAction::ReportExhausted | TrialAction::Ignore => break,
        }
    }
    assert_eq!(state, TrialState::Succeeded);
    assert_eq!(tried, vec!["user1".to_string(), "user2".to_string()]);
    assert_eq!(
        lines,
        vec![
            "stream name=MainStream\trtsp://192.168.1.20/main\t2560x1440\t30".to_string(),
            "stream name=SubStream\trtsp://192.168.1.20/sub\t704x576\t15".to_string(),
        ]
    );
}

#[test]
fn a_device_that_lets_nobody_in_is_exhausted() {
    let mut table = CredentialTable::new();
    table.insert("Cam9", "guest", "guest");
    table.insert("Cam9", "root", "toor");
    let device = DiscoveredDevice { scheme: "http".to_string(), host: "192.168.1.20".to_string(), name: Some("Cam9".to_string()) };
    let plan = dispatch(&table, &device);
    let mut tried = Vec::new();
    let count = plan.candidates.len();
    let (mut state, mut action) = step(TrialState::Pending, count, TrialEvent::Start);
    while let TrialAction::Attempt(place) = action {
        let outcome = attempt(&plan.uri, &plan.candidates[place], &mut tried);
        (state, action) = step(state, count, event_of(outcome));
    }
    assert_eq!(state, TrialState::Exhausted);
    assert_eq!(action, TrialAction::ReportExhausted);
    assert_eq!(tried, vec!["guest".to_string(), "root".to_string()]);
}
