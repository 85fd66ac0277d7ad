use listenwithme::{
    keep_well_formed, sharing_enabled, Action, Event, Outcome, OutputInfo, Request, ServiceError,
    FAILURE_STATUS,
};

fn output(name: &str, enabled: bool) -> OutputInfo {
    OutputInfo { name: name.to_string(), enabled }
}

fn outputs(sharing_on: bool) -> Vec<OutputInfo> {
    vec![output("speakers", true), output("listenwithme", sharing_on)]
}

fn pair(k: &str, v: &str) -> (String, String) {
    (k.to_string(), v.to_string())
}

#[test]
fn disabled_sharing_output_answers_unavailable() {
    let req: Request<String, String> = Request::start(3);
    assert!(matches!(req.next_action(), Action::FetchOutputs));
    let req = req.step(Event::Outputs(outputs(false)));
    assert!(matches!(req.next_action(), Action::Finish));
    assert!(matches!(req.into_outcome(), Some(Outcome::Unavailable)));
}

#[test]
fn later_daemon_answers_do_not_change_an_unavailable_request() {
    let req: Request<String, String> = Request::start(0);
    let req = req.step(Event::Outputs(outputs(false)));
    let req = req.step(Event::Status("playing".to_string()));
    let req = req.step(Event::CurrentSong(Some("song.flac".to_string())));
    assert!(matches!(req.into_outcome(), Some(Outcome::Unavailable)));
}

#[test]
fn enabled_sharing_without_song_has_no_song_and_no_comments() {
    let req: Request<String, String> = Request::start(2);
    let req = req.step(Event::Outputs(outputs(true)));
    assert!(matches!(req.next_action(), Action::FetchStatus));
    let req = req.step(Event::Status("stopped".to_string()));
    assert!(matches!(req.next_action(), Action::FetchCurrentSong));
    let req = req.step(Event::CurrentSong(None));
    assert!(matches!(req.next_action(), Action::Finish));
    match req.into_outcome() {
        Some(Outcome::Available(rep)) => {
            assert_eq!(rep.listeners, 2);
            assert_eq!(rep.status, "stopped");
            assert!(rep.song.is_none());
            assert!(rep.comments.is_none());
        },
        _ => panic!("expected a full answer"),
    }
}

#[test]
fn malformed_comment_entries_are_dropped() {
    let req: Request<String, String> = Request::start(1);
    let req = req.step(Event::Outputs(outputs(true)));
    let req = req.step(Event::Status("playing".to_string()));
    let req = req.step(Event::CurrentSong(Some("song.flac".to_string())));
    assert!(matches!(req.next_action(), Action::FetchComments));
    assert_eq!(req.pending_song(), Some(&"song.flac".to_string()));
    let entries = vec![Some(pair("ARTIST", "Someone")), None, Some(pair("TITLE", "Something"))];
    let req = req.step(Event::Comments(entries));
    match req.into_outcome() {
        Some(Outcome::Available(rep)) => {
            assert_eq!(rep.listeners, 1);
            assert_eq!(rep.status, "playing");
            assert_eq!(rep.song, Some("song.flac".to_string()));
            assert_eq!(
                rep.comments,
                Some(vec![pair("ARTIST", "Someone"), pair("TITLE", "Something")])
            );
        },
        _ => panic!("expected a full answer"),
    }
}

#[test]
fn missing_sharing_output_is_a_configuration_error() {
    let req: Request<String, String> = Request::start(0);
    let req = req.step(Event::Outputs(vec![output("speakers", true)]));
    assert!(matches!(req.into_outcome(), Some(Outcome::Failed(ServiceError::Configuration))));
}

#[test]
fn daemon_failure_answers_with_its_cause() {
    let req: Request<String, String> = Request::start(0);
    let req = req.step(Event::DaemonFailed("Connection refused (os error 111)".to_string()));
    match req.into_outcome() {
        Some(Outcome::Failed(e)) => {
            assert!(matches!(e, ServiceError::Daemon(_)));
            assert_eq!(e.status_code(), 500);
            assert_eq!(
                e.response_body(),
                "Something went wrong: Connection refused (os error 111)"
            );
        },
        _ => panic!("expected a failure"),
    }
}

#[test]
fn daemon_failure_midway_ends_the_request() {
    let req: Request<String, String> = Request::start(4);
    let req = req.step(Event::Outputs(outputs(true)));
    let req = req.step(Event::Status("playing".to_string()));
    let req = req.step(Event::DaemonFailed("broken pipe".to_string()));
    match req.into_outcome() {
        Some(Outcome::Failed(ServiceError::Daemon(m))) => assert_eq!(m, "broken pipe"),
        _ => panic!("expected a daemon failure"),
    }
}

#[test]
fn unexpected_answer_leaves_request_waiting() {
    let req: Request<String, String> = Request::start(0);
    let req = req.step(Event::Status("playing".to_string()));
    assert!(matches!(req.next_action(), Action::FetchOutputs));
    assert!(req.pending_song().is_none());
    assert!(req.into_outcome().is_none());
}

#[test]
fn first_output_with_the_sharing_name_decides() {
    let list = vec![output("listenwithme", false), output("listenwithme", true)];
    assert!(matches!(sharing_enabled(&list), Ok(false)));
    let list = vec![output("listenwithmeX", false), output("listenwithme", true)];
    assert!(matches!(sharing_enabled(&list), Ok(true)));
    assert!(matches!(sharing_enabled(&vec![]), Err(ServiceError::Configuration)));
}

#[test]
fn keeping_well_formed_pairs_keeps_their_order() {
    let entries = vec![None, Some(pair("b", "2")), Some(pair("a", "1")), None];
    assert_eq!(keep_well_formed(&entries), vec![pair("b", "2"), pair("a", "1")]);
    assert_eq!(keep_well_formed(&vec![]), Vec::<(String, String)>::new());
}

#[test]
fn every_failure_has_the_same_status_and_lead_in() {
    let all = [
        ServiceError::Lock,
        ServiceError::Daemon("x".to_string()),
        ServiceError::Configuration,
        ServiceError::MalformedRequest("y".to_string()),
    ];
    for e in all.iter() {
        assert_eq!(e.status_code(), FAILURE_STATUS);
        assert!(e.response_body().starts_with("Something went wrong: "));
        assert!(e.response_body().ends_with(&e.message()));
    }
    assert_eq!(
        ServiceError::Lock.response_body(),
        "Something went wrong: unlocking state for .listeners"
    );
    assert_eq!(
        ServiceError::Configuration.message(),
        "the daemon has no output named listenwithme"
    );
}
