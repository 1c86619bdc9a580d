use server_discover::slp::{
    get_candidate_ip, parse_scan_line, Error, LegacyInfo, PingEvent, PingState, ServerRecord,
};

fn step(state: PingState, event: PingEvent) -> PingState {
    server_discover::slp::ping_step(state, event, &"1.2.3.4".to_string(), &"{}".to_string())
}

#[test]
fn connect_failure_is_terminal() {
    match step(PingState::Connecting, PingEvent::ConnectFailed) {
        PingState::Done(Err(Error::ServerUnreachable)) => {}
        other => panic!("unexpected state {:?}", other),
    }
    match step(PingState::Connecting, PingEvent::ConnectTimedOut) {
        PingState::Done(Err(Error::Timeout)) => {}
        other => panic!("unexpected state {:?}", other),
    }
}

#[test]
fn connect_success_enters_modern_handshake() {
    assert!(matches!(
        step(PingState::Connecting, PingEvent::ConnectOk),
        PingState::ModernHandshake
    ));
}

#[test]
fn modern_error_never_falls_back() {
    match step(
        PingState::ModernHandshake,
        PingEvent::ModernFailed("connection reset".to_string()),
    ) {
        PingState::Done(Err(Error::CantPingServer(msg))) => {
            assert_eq!(msg, "connection reset");
        }
        other => panic!("unexpected state {:?}", other),
    }
}

#[test]
fn only_modern_timeout_falls_back() {
    assert!(matches!(
        step(PingState::ModernHandshake, PingEvent::ModernTimedOut),
        PingState::LegacyHandshake
    ));
}

#[test]
fn legacy_success_keeps_candidate_identity() {
    let info = LegacyInfo {
        full_response: "m\u{a7}0\u{a7}20".to_string(),
        motd: "m".to_string(),
        max_players: "20".to_string(),
        current_players: "0".to_string(),
    };
    match step(PingState::LegacyHandshake, PingEvent::LegacyOk(info)) {
        PingState::Done(Ok(ServerRecord::Legacy { ip, motd, max_players, current_players, .. })) => {
            assert_eq!(ip, "1.2.3.4");
            assert_eq!(motd, "m");
            assert_eq!(max_players, "20");
            assert_eq!(current_players, "0");
        }
        other => panic!("unexpected state {:?}", other),
    }
}

#[test]
fn legacy_failures_are_terminal() {
    assert!(matches!(
        step(PingState::LegacyHandshake, PingEvent::LegacyFailed),
        PingState::Done(Err(Error::OldSLPFail))
    ));
    assert!(matches!(
        step(PingState::LegacyHandshake, PingEvent::LegacyTimedOut),
        PingState::Done(Err(Error::Timeout))
    ));
}

#[test]
fn candidate_ip_extraction() {
    assert_eq!(
        get_candidate_ip("{\"ip\": \"9.8.7.6\", \"ports\": []}").unwrap(),
        "9.8.7.6"
    );
    assert_eq!(get_candidate_ip("{\"ports\": []}").unwrap_err(), Error::NoIp);
    assert_eq!(get_candidate_ip("{\"ip\": 42}").unwrap_err(), Error::InvalidIpType);
    // a line that does not parse has no ip field either
    assert_eq!(get_candidate_ip("not json").unwrap_err(), Error::NoIp);
}

#[test]
fn malformed_scan_lines_are_dropped() {
    assert!(parse_scan_line("not json at all").is_none());
    assert!(parse_scan_line("").is_none());
    assert!(parse_scan_line("{\"ip\": \"1.1.1.1\"}").is_some());
}

#[test]
fn ping_error_messages() {
    assert_eq!(Error::NoIp.describe(), "error: Scan json did not contain ip field");
    assert_eq!(Error::InvalidIpType.describe(), "error: Invalid Ip");
    assert_eq!(Error::ServerUnreachable.describe(), "error: Cant connect to server");
    assert_eq!(
        Error::CantPingServer("io".to_string()).describe(),
        "error: Cant server list ping server, Craftping error: io"
    );
    assert_eq!(Error::Timeout.describe(), "Timeout occured with slp or tcp");
    assert_eq!(Error::OldSLPFail.describe(), "error: Failed to ping with 1.6");
}
