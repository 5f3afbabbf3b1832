use serde_json::Number;
use server_info::codec::encode;
use server_info::packet::ServerInfo;
use server_info::session::{
    Session, SessionAction, SessionEvent, SessionState, PROBE_BYTES, PROBE_WAIT_SECONDS,
    SERVER_PORT, TIMEOUT_SECONDS,
};

fn exchanged(wrote: bool, flushed: bool, answered: bool) -> SessionEvent {
    SessionEvent::Exchanged { wrote, flushed, answer: if answered { Some(1) } else { None } }
}

#[test]
fn session_starts_accepted_and_serves_when_let_run() {
    let mut session = Session::new();
    assert_eq!(session.state(), SessionState::Accepted);
    assert!(!session.is_closed());
    assert_eq!(session.step(SessionEvent::Start), SessionAction::Exchange);
    assert_eq!(session.state(), SessionState::Serving);
}

#[test]
fn session_goes_on_after_an_exchange_that_went_through() {
    let mut session = Session::new();
    session.step(SessionEvent::Start);
    for _ in 0..10 {
        assert_eq!(session.step(exchanged(true, true, true)), SessionAction::Exchange);
        assert_eq!(session.state(), SessionState::Serving);
    }
}

#[test]
fn session_closes_when_any_part_of_an_exchange_fails() {
    for (wrote, flushed, answered) in [
        (false, true, true),
        (true, false, true),
        (true, true, false),
        (false, false, true),
        (false, true, false),
        (true, false, false),
        (false, false, false),
    ] {
        let mut session = Session::new();
        session.step(SessionEvent::Start);
        assert_eq!(session.step(exchanged(wrote, flushed, answered)), SessionAction::Close);
        assert!(session.is_closed());
    }
}

#[test]
fn session_closes_its_stream_once() {
    let mut session = Session::new();
    session.step(SessionEvent::Start);
    let mut closes = 0;
    for event in [
        exchanged(true, true, true),
        exchanged(true, true, false),
        exchanged(false, false, false),
        SessionEvent::Start,
        exchanged(true, true, true),
    ] {
        if session.step(event) == SessionAction::Close {
            closes += 1;
        }
    }
    assert_eq!(closes, 1);
    assert_eq!(session.state(), SessionState::Closed);
}

#[test]
fn session_passes_over_events_that_do_not_fit() {
    let mut session = Session::new();
    assert_eq!(session.step(exchanged(false, false, false)), SessionAction::Nothing);
    assert_eq!(session.state(), SessionState::Accepted);
    session.step(SessionEvent::Start);
    assert_eq!(session.step(SessionEvent::Start), SessionAction::Nothing);
    assert_eq!(session.state(), SessionState::Serving);
}

#[test]
fn session_writes_the_document_only_while_it_serves() {
    let mut info = ServerInfo::default();
    info.host_name = "box".to_string();
    info.avg_cpu_usage = Number::from_f64(1.5).unwrap();
    let mut session = Session::new();
    assert_eq!(session.outgoing(&info), None);
    session.step(SessionEvent::Start);
    assert_eq!(session.outgoing(&info), Some(encode(&info)));
    session.step(exchanged(false, true, true));
    assert_eq!(session.outgoing(&info), None);
}

#[test]
fn probe_that_reads_nothing_is_no_answer() {
    let mut session = Session::new();
    session.step(SessionEvent::Start);
    let full = SessionEvent::Exchanged { wrote: true, flushed: true, answer: Some(PROBE_BYTES) };
    assert_eq!(session.step(full), SessionAction::Exchange);
    let end = SessionEvent::Exchanged { wrote: true, flushed: true, answer: Some(0) };
    assert_eq!(session.step(end), SessionAction::Close);
    assert!(session.is_closed());
}

#[test]
fn server_and_client_agree_on_their_bounds() {
    assert_eq!(SERVER_PORT, 8111);
    assert_eq!(PROBE_BYTES, 128);
    assert_eq!(TIMEOUT_SECONDS, 5);
    // The slowest client reads every 601 cycles of a sixtieth of a second,
    // and may then wait for its own read to end.
    assert!(PROBE_WAIT_SECONDS * 60 > 601 + TIMEOUT_SECONDS * 60);
}
