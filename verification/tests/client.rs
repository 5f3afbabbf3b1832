use serde_json::Number;
use server_info::cadence::PollRate;
use server_info::client::{
    ClientAction, ClientConnection, ClientEvent, LinkState, Notice, PACING_BYTE, READ_CHUNK_BYTES,
};
use server_info::codec::encode;
use server_info::packet::ServerInfo;
use server_info::session::{Session, SessionAction, SessionEvent};

fn snapshot(host: &str, usage: f64) -> ServerInfo {
    ServerInfo::new(
        1_700_000_000,
        vec!["sda".to_string()],
        vec!["eth0".to_string()],
        vec![],
        16,
        8,
        "Linux".to_string(),
        "6.1".to_string(),
        "12".to_string(),
        host.to_string(),
        vec!["25%".to_string(), "25%".to_string(), "25%".to_string(), "25%".to_string()],
        Number::from_f64(usage),
    )
}

/// Everything a snapshot holds, in text.
fn shown(s: &ServerInfo) -> String {
    let usage = s.avg_cpu_usage.as_f64().unwrap() as f32;
    format!("{}\n{}", s.describe(&usage.to_string()), String::from_utf8(encode(s)).unwrap())
}

/// A connection with an open stream, fast enough to read on every 31st cycle.
fn connected() -> ClientConnection {
    let mut c = ClientConnection::new();
    c.set_rate(PollRate::new(2000));
    assert_eq!(c.handle(ClientEvent::Connect("server:8111".to_string())), ClientAction::Open);
    assert_eq!(c.handle(ClientEvent::Opened), ClientAction::Persist);
    c
}

/// Lets cycles go by until a read is asked for.
fn until_read(c: &mut ClientConnection) -> u32 {
    let mut ticks = 0;
    loop {
        ticks += 1;
        assert!(ticks < 10_000);
        if c.handle(ClientEvent::Tick) == ClientAction::Read {
            return ticks;
        }
    }
}

fn read(c: &mut ClientConnection, bytes: &[u8]) -> ClientAction {
    until_read(c);
    c.handle(ClientEvent::Data(bytes.to_vec()))
}

#[test]
fn client_starts_disconnected_with_the_blank_snapshot() {
    let c = ClientConnection::new();
    assert_eq!(c.state(), LinkState::Disconnected);
    assert!(!c.is_connected());
    assert!(!c.is_receiving());
    assert_eq!(c.address(), "localhost:8111");
    assert!(c.buffer().is_empty());
    assert_eq!(c.snapshot().date, 0);
    assert_eq!(c.snapshot().host_name, "");
    assert_eq!(c.rate().milli(), 500);
    assert_eq!(READ_CHUNK_BYTES, 4096);
    assert_eq!(PACING_BYTE, 0);
}

#[test]
fn connect_opens_a_stream_and_keeps_the_last_session() {
    let mut c = ClientConnection::new();
    assert_eq!(c.handle(ClientEvent::Connect("10.0.0.5:9000".to_string())), ClientAction::Open);
    assert_eq!(c.state(), LinkState::Connecting);
    assert_eq!(c.address(), "10.0.0.5:9000");
    assert_eq!(c.handle(ClientEvent::Opened), ClientAction::Persist);
    assert_eq!(c.state(), LinkState::Idle);
    assert!(c.is_connected());
    let last = c.last_session("1024".to_string(), "768".to_string());
    assert_eq!(last.convert_to_string(), "10.0.0.5:9000,1024,768");
}

#[test]
fn refused_connect_leaves_the_client_disconnected() {
    let mut c = ClientConnection::new();
    c.handle(ClientEvent::Connect("nowhere:1".to_string()));
    assert_eq!(c.handle(ClientEvent::Refused), ClientAction::Report(Notice::ConnectError));
    assert_eq!(c.state(), LinkState::Disconnected);
    assert_eq!(c.address(), "nowhere:1");
}

#[test]
fn connect_while_connected_opens_anew() {
    let mut c = connected();
    assert_eq!(c.handle(ClientEvent::Connect("other:8111".to_string())), ClientAction::Reopen);
    assert_eq!(c.state(), LinkState::Connecting);
    assert_eq!(c.address(), "other:8111");
}

#[test]
fn client_reads_only_when_a_read_is_due() {
    let mut c = connected();
    // Two updates per second: a read after more than 30 cycles.
    assert_eq!(until_read(&mut c), 32);
    assert_eq!(c.state(), LinkState::Reading);
    assert_eq!(c.handle(ClientEvent::Quiet), ClientAction::Nothing);
    assert_eq!(until_read(&mut c), 31);
    c.handle(ClientEvent::Quiet);
    c.set_rate(PollRate::new(500));
    assert_eq!(until_read(&mut c), 121);
}

#[test]
fn client_does_not_read_without_a_stream() {
    let mut c = ClientConnection::new();
    for _ in 0..2000 {
        assert_eq!(c.handle(ClientEvent::Tick), ClientAction::Nothing);
    }
    assert_eq!(c.state(), LinkState::Disconnected);
}

#[test]
fn whole_document_replaces_the_snapshot_and_is_answered() {
    let mut c = connected();
    let bytes = encode(&snapshot("first", 25.0));
    assert_eq!(read(&mut c, &bytes), ClientAction::Pace);
    assert_eq!(c.state(), LinkState::Idle);
    assert_eq!(c.snapshot().host_name, "first");
    assert!(c.buffer().is_empty());
    assert!(c.is_receiving());
    let bytes = encode(&snapshot("second", 30.0));
    assert_eq!(read(&mut c, &bytes), ClientAction::Pace);
    assert_eq!(c.snapshot().host_name, "second");
}

#[test]
fn document_in_two_reads_gives_what_it_gives_in_one() {
    let bytes = encode(&snapshot("split", 25.0));
    let mut one = connected();
    assert_eq!(read(&mut one, &bytes), ClientAction::Pace);
    for cut in 1..bytes.len() {
        let mut two = connected();
        assert_eq!(read(&mut two, &bytes[..cut]), ClientAction::Nothing, "cut at {}", cut);
        assert_eq!(two.snapshot().host_name, "");
        assert_eq!(two.buffer().as_slice(), &bytes[..cut]);
        assert_eq!(read(&mut two, &bytes[cut..]), ClientAction::Pace, "cut at {}", cut);
        assert_eq!(two.snapshot().host_name, "split");
        assert_eq!(shown(two.snapshot()), shown(one.snapshot()));
        assert!(two.buffer().is_empty());
    }
}

#[test]
fn padding_is_left_out_of_the_buffer() {
    let mut c = connected();
    let bytes = encode(&snapshot("padded", 25.0));
    let half = bytes.len() / 2;
    let mut first = vec![0u8, 0];
    first.extend_from_slice(&bytes[..half]);
    first.extend_from_slice(&[0, 0, 0]);
    assert_eq!(read(&mut c, &first), ClientAction::Nothing);
    assert_eq!(c.buffer().as_slice(), &bytes[..half]);
    let mut second = bytes[half..].to_vec();
    second.resize(READ_CHUNK_BYTES, 0);
    assert_eq!(read(&mut c, &second), ClientAction::Pace);
    assert_eq!(c.snapshot().host_name, "padded");
}

#[test]
fn unfinished_document_keeps_the_last_snapshot() {
    let mut c = connected();
    read(&mut c, &encode(&snapshot("good", 25.0)));
    let next = encode(&snapshot("next", 50.0));
    assert_eq!(read(&mut c, &next[..10]), ClientAction::Nothing);
    assert_eq!(c.snapshot().host_name, "good");
    assert_eq!(c.buffer().len(), 10);
}

#[test]
fn malformed_document_is_dropped_and_the_last_snapshot_kept() {
    let mut c = connected();
    read(&mut c, &encode(&snapshot("good", 25.0)));
    assert_eq!(read(&mut c, b"{\"date\": nonsense"), ClientAction::Report(Notice::Malformed));
    assert_eq!(c.snapshot().host_name, "good");
    assert!(c.buffer().is_empty());
    assert_eq!(c.state(), LinkState::Idle);
    assert_eq!(read(&mut c, &encode(&snapshot("better", 25.0))), ClientAction::Pace);
    assert_eq!(c.snapshot().host_name, "better");
}

#[test]
fn lost_stream_disconnects_and_keeps_the_last_snapshot() {
    let mut c = connected();
    read(&mut c, &encode(&snapshot("good", 25.0)));
    let before = shown(c.snapshot());
    let next = encode(&snapshot("next", 50.0));
    read(&mut c, &next[..20]);
    until_read(&mut c);
    assert_eq!(c.handle(ClientEvent::Lost), ClientAction::Drop);
    assert_eq!(c.state(), LinkState::Disconnected);
    assert!(!c.is_connected());
    assert!(!c.is_receiving());
    assert!(c.buffer().is_empty());
    assert_eq!(shown(c.snapshot()), before);
    // Whatever follows, short of a new snapshot, leaves it as it was.
    c.handle(ClientEvent::Tick);
    c.handle(ClientEvent::Disconnect);
    c.handle(ClientEvent::Connect("server:8111".to_string()));
    c.handle(ClientEvent::Refused);
    c.handle(ClientEvent::Connect("server:8111".to_string()));
    c.handle(ClientEvent::Opened);
    assert_eq!(shown(c.snapshot()), before);
    c.set_rate(PollRate::new(2000));
    assert_eq!(read(&mut c, &encode(&snapshot("new", 75.0))), ClientAction::Pace);
    assert_eq!(c.snapshot().host_name, "new");
}

#[test]
fn failed_pacing_byte_disconnects() {
    let mut c = connected();
    assert_eq!(read(&mut c, &encode(&snapshot("good", 25.0))), ClientAction::Pace);
    assert_eq!(c.handle(ClientEvent::PacingFailed), ClientAction::Drop);
    assert_eq!(c.state(), LinkState::Disconnected);
    assert_eq!(c.snapshot().host_name, "good");
    assert_eq!(c.handle(ClientEvent::PacingFailed), ClientAction::Nothing);
}

#[test]
fn quiet_read_is_no_failure() {
    let mut c = connected();
    read(&mut c, &encode(&snapshot("good", 25.0)));
    assert!(c.is_receiving());
    until_read(&mut c);
    assert_eq!(c.handle(ClientEvent::Quiet), ClientAction::Nothing);
    assert_eq!(c.state(), LinkState::Idle);
    assert!(c.is_connected());
    assert!(!c.is_receiving());
    assert_eq!(c.snapshot().host_name, "good");
}

#[test]
fn liveness_goes_by_the_bytes_of_the_last_read() {
    let mut c = connected();
    assert!(!c.is_receiving());
    read(&mut c, b"{");
    assert!(c.is_receiving());
    until_read(&mut c);
    c.handle(ClientEvent::Quiet);
    assert!(!c.is_receiving());
    assert!(c.is_connected());
    read(&mut c, &[0, 0]);
    assert!(c.is_receiving());
}

#[test]
fn read_that_gives_no_bytes_is_the_end_of_the_stream() {
    let mut c = connected();
    read(&mut c, &encode(&snapshot("good", 25.0)));
    assert_eq!(read(&mut c, b""), ClientAction::Drop);
    assert_eq!(c.state(), LinkState::Disconnected);
    assert_eq!(c.snapshot().host_name, "good");
}

#[test]
fn client_starts_at_the_address_it_is_given() {
    let c = ClientConnection::with_address("10.0.0.5:9000".to_string());
    assert_eq!(c.address(), "10.0.0.5:9000");
    assert_eq!(c.state(), LinkState::Disconnected);
    assert_eq!(c.snapshot().date, 0);
}

#[test]
fn disconnect_shuts_the_stream_down() {
    let mut c = connected();
    read(&mut c, &encode(&snapshot("good", 25.0)));
    read(&mut c, b"{\"da");
    assert_eq!(c.handle(ClientEvent::Disconnect), ClientAction::Shutdown);
    assert_eq!(c.state(), LinkState::Disconnected);
    assert!(c.buffer().is_empty());
    assert_eq!(c.snapshot().host_name, "good");
}

#[test]
fn disconnect_without_a_stream_is_told_and_changes_nothing() {
    let mut c = ClientConnection::new();
    assert_eq!(c.handle(ClientEvent::Disconnect), ClientAction::Report(Notice::NotConnected));
    assert_eq!(c.state(), LinkState::Disconnected);
    c.handle(ClientEvent::Connect("server:8111".to_string()));
    assert_eq!(c.handle(ClientEvent::Disconnect), ClientAction::Report(Notice::NotConnected));
    assert_eq!(c.state(), LinkState::Connecting);
}

#[test]
fn events_that_do_not_fit_change_nothing() {
    let mut c = ClientConnection::new();
    for event in [
        ClientEvent::Opened,
        ClientEvent::Refused,
        ClientEvent::Data(encode(&snapshot("stray", 1.0))),
        ClientEvent::Quiet,
        ClientEvent::Lost,
        ClientEvent::PacingFailed,
    ] {
        assert_eq!(c.handle(event), ClientAction::Nothing);
        assert_eq!(c.state(), LinkState::Disconnected);
        assert_eq!(c.snapshot().host_name, "");
        assert!(c.buffer().is_empty());
    }
    let mut c = connected();
    assert_eq!(c.handle(ClientEvent::Data(encode(&snapshot("early", 1.0)))), ClientAction::Nothing);
    assert_eq!(c.handle(ClientEvent::Lost), ClientAction::Nothing);
    assert_eq!(c.state(), LinkState::Idle);
    assert_eq!(c.snapshot().host_name, "");
}

#[test]
fn client_shows_what_the_server_measured() {
    let info = snapshot("server", 25.0);
    assert_eq!(info.total_cpus, 4);
    let mut session = Session::new();
    assert_eq!(session.step(SessionEvent::Start), SessionAction::Exchange);
    let mut client = connected();
    for round in 0..3 {
        let wire = session.outgoing(&info).unwrap();
        until_read(&mut client);
        let action = client.handle(ClientEvent::Data(wire));
        assert_eq!(action, ClientAction::Pace, "round {}", round);
        let answer = if action == ClientAction::Pace { Some(1) } else { None };
        let next = session.step(SessionEvent::Exchanged { wrote: true, flushed: true, answer });
        assert_eq!(next, SessionAction::Exchange);
    }
    let shown = client.snapshot();
    assert_eq!(shown.total_cpus, 4);
    assert_eq!(shown.cpus, vec!["25%", "25%", "25%", "25%"]);
    let usage = shown.avg_cpu_usage.as_f64().unwrap() as f32;
    assert_eq!(format!("{:.2} %", usage), "25.00 %");
}

#[test]
fn last_session_that_could_not_be_kept_is_told_and_changes_nothing() {
    let mut c = connected();
    read(&mut c, &encode(&snapshot("good", 25.0)));
    assert_eq!(c.handle(ClientEvent::PersistFailed), ClientAction::Report(Notice::PersistenceError));
    assert_eq!(c.state(), LinkState::Idle);
    assert!(c.is_connected());
    assert_eq!(c.snapshot().host_name, "good");
}
