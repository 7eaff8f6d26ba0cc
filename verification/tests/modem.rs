use tymodem::at::{ConnectionType, GSMConnectionInfo, LTEConnectionInfo, ModemState};
use tymodem::classify::{classify, Event};
use tymodem::framer::Session;
use tymodem::machine::{initial_command, Command};
use tymodem::text::{i64_to_string, u64_to_string};

#[test]
fn classify_lte_quality() {
    match classify(b"^HCSQ:\"LTE\",10,20,5,30") {
        Event::LteQuality(l) => {
            assert_eq!(l.rssi, 10);
            assert_eq!(l.rsrp, 20);
            assert_eq!(l.sinr, 5);
            assert_eq!(l.rsrq, 30);
        }
        _ => panic!("LTE quality line not recognized"),
    }
}

#[test]
fn classify_gsm_quality() {
    match classify(b"^HCSQ:\"GSM\",13") {
        Event::GsmQuality(g) => assert_eq!(g.rssi, 13),
        _ => panic!("GSM quality line not recognized"),
    }
}

#[test]
fn lte_rssi_dbm_values() {
    let unknown = LTEConnectionInfo { rssi: 255, rsrp: 0, rsrq: 0, sinr: 0 };
    assert_eq!(unknown.rssi_dbm(), "unknown");
    let known = LTEConnectionInfo { rssi: 10, rsrp: 0, rsrq: 0, sinr: 0 };
    assert_eq!(known.rssi_dbm(), "-110 dBm");
}

#[test]
fn rsrp_dbm_reads_the_rsrp_sample() {
    let info = LTEConnectionInfo { rssi: 10, rsrp: 97, rsrq: 0, sinr: 0 };
    assert_eq!(info.rsrp_dbm(), "-43 dBm");
    let unknown = LTEConnectionInfo { rssi: 10, rsrp: 255, rsrq: 0, sinr: 0 };
    assert_eq!(unknown.rsrp_dbm(), "unknown");
}

#[test]
fn cops_line_sets_operator_and_queries_plmn() {
    let mut session = Session::new();
    let out = session.push_chunk(b"+COPS: 0,0,\"vodafone NL\",7\r\n");
    assert_eq!(out.commands, vec![Command::PlmnQuery]);
    assert_eq!(out.commands[0].to_line(), "AT^PLMN?\r\n");
    assert!(out.publish);
    let state = session.state();
    assert_eq!(state.operator_mode.as_ref().map(|m| m.to_str()), Some("automatic"));
    assert_eq!(state.operator_name.as_deref(), Some("vodafone NL"));
}

#[test]
fn cme_error_sets_description_and_nothing_else() {
    let mut session = Session::new();
    session.push_chunk(b"^RSSI:9\r\n");
    let out = session.push_chunk(b"+CME ERROR: 50\r\n");
    assert!(out.commands.is_empty());
    let state = session.state();
    assert_eq!(state.cme_error.as_ref().map(|e| e.to_str()), Some("Incorrect parameters"));
    assert_eq!(state.rssi, Some(9));
    assert!(state.mcc.is_none());
    assert!(state.mnc.is_none());
    assert!(state.operator_name.is_none());
    assert!(state.operator_mode.is_none());
    assert!(state.connection_type.is_none());
    // the cycle is not halted: later lines are still classified
    let later = session.push_chunk(b"^RSSI:4\r\n");
    assert!(later.publish);
    assert_eq!(session.state().rssi, Some(4));
}

#[test]
fn split_line_reassembled_across_chunks() {
    let mut session = Session::new();
    let first = session.push_chunk(b"^RSS");
    assert!(first.events.is_empty());
    assert!(!first.publish);
    let second = session.push_chunk(b"I:3\r\n");
    assert_eq!(second.events.len(), 1);
    assert!(matches!(second.events[0], Event::SimpleRssi { value: 3 }));
    assert_eq!(session.state().rssi, Some(3));
}

#[test]
fn chunk_splitting_does_not_change_the_outcome() {
    let stream: &[u8] =
        b"OK\r\n+COPS: 0,0,\"vodafone NL\",7\r\n^PLMN: 204,4\r\n^HCSQ:\"LTE\",10,20,5,30\r\n";
    let mut at_once = Session::new();
    let whole = at_once.push_chunk(stream);
    let mut byte_wise = Session::new();
    let mut commands = Vec::new();
    let mut events = 0;
    for i in 0..stream.len() {
        let out = byte_wise.push_chunk(&stream[i..i + 1]);
        commands.extend(out.commands);
        events += out.events.len();
    }
    assert_eq!(whole.commands, commands);
    assert_eq!(whole.events.len(), events);
    assert_eq!(at_once.state().describe(), byte_wise.state().describe());
}

#[test]
fn ok_triggers_the_operator_query_once() {
    let mut session = Session::new();
    let out = session.push_chunk(b"OK\r\n");
    assert_eq!(out.commands, vec![Command::CopsQuery]);
    assert_eq!(out.commands[0].to_line(), "AT+COPS?\r\n");
    assert_eq!(out.commands[0].delay_before_ms(), 1000);
}

#[test]
fn timeouts_do_not_duplicate_commands() {
    let mut session = Session::new();
    session.push_chunk(b"OK\r\n");
    // a read timeout hands the framer no bytes
    for _ in 0..3 {
        let out = session.push_chunk(b"");
        assert!(out.commands.is_empty());
        assert!(out.events.is_empty());
        assert!(!out.publish);
    }
}

#[test]
fn the_cycle_opens_with_at() {
    let cmd = initial_command();
    assert_eq!(cmd, Command::At);
    assert_eq!(cmd.to_line(), "AT\r\n");
    assert_eq!(cmd.delay_before_ms(), 0);
}

#[test]
fn plmn_line_sets_codes_and_queries_quality() {
    let mut session = Session::new();
    let out = session.push_chunk(b"^PLMN: 204,4\r\n");
    assert_eq!(out.commands, vec![Command::HcsqQuery]);
    assert_eq!(out.commands[0].to_line(), "AT^HCSQ?\r\n");
    assert_eq!(session.state().mcc, Some(204));
    assert_eq!(session.state().mnc, Some(4));
}

#[test]
fn unrecognized_line_stops_the_chunk() {
    let mut session = Session::new();
    let out = session.push_chunk(b"BOGUS\r\n^RSSI:5\r\n");
    assert_eq!(out.events.len(), 1);
    assert!(matches!(out.events[0], Event::Unrecognized));
    // the rest of the chunk is discarded; the line is retained as carry
    assert!(session.state().rssi.is_none());
}

#[test]
fn operator_mode_descriptions() {
    let mut session = Session::new();
    session.push_chunk(b"+COPS: 1,0,\"some net\",7\r\n");
    assert_eq!(session.state().operator_mode.as_ref().unwrap().to_str(), "manual");
    session.push_chunk(b"+COPS: 2,0,\"some net\",7\r\n");
    assert_eq!(
        session.state().operator_mode.as_ref().unwrap().to_str(),
        "deregister from network"
    );
    session.push_chunk(b"+COPS: 9,0,\"some net\",7\r\n");
    assert_eq!(session.state().operator_mode.as_ref().unwrap().to_str(), "unknown");
}

#[test]
fn cme_error_descriptions() {
    let codes: &[(i64, &str)] = &[
        (0, "phone failure"),
        (13, "SIM failure"),
        (30, "no network service"),
        (32, "network not allowed - emergency calls only"),
        (50, "Incorrect parameters"),
        (77, "(unknown error)"),
    ];
    for (code, text) in codes {
        let mut session = Session::new();
        let line = format!("+CME ERROR: {}\r\n", code);
        session.push_chunk(line.as_bytes());
        assert_eq!(session.state().cme_error.as_ref().unwrap().to_str(), *text);
    }
}

#[test]
fn numeric_rendering() {
    assert_eq!(u64_to_string(0), "0");
    assert_eq!(u64_to_string(907), "907");
    assert_eq!(i64_to_string(-120), "-120");
    assert_eq!(i64_to_string(42), "42");
}

#[test]
fn describe_empty_state() {
    let state = ModemState::new();
    assert_eq!(state.describe(), "operator=? (0, 0) mode=unknown conn=Unknown err=no error");
}

#[test]
fn describe_full_state() {
    let mut session = Session::new();
    session.push_chunk(
        b"OK\r\n+COPS: 0,0,\"vodafone NL\",7\r\n^PLMN: 204,4\r\n^HCSQ:\"LTE\",10,20,5,30\r\n",
    );
    assert_eq!(
        session.state().describe(),
        "operator=vodafone NL (204, 4) mode=automatic \
         conn=LTE (rssi=-110 dBm, rsrq=30, rsrp=-120 dBm, sinr=5) err=no error"
    );
}

#[test]
fn describe_gsm_connection() {
    let mut session = Session::new();
    session.push_chunk(b"^HCSQ:\"GSM\",21\r\n");
    assert_eq!(
        session.state().describe(),
        "operator=? (0, 0) mode=unknown conn=GSM (rssi=21) err=no error"
    );
}

#[test]
fn rendering_is_repeatable_and_touches_nothing() {
    let mut session = Session::new();
    session.push_chunk(b"^HCSQ:\"LTE\",10,20,5,30\r\n^RSSI:9\r\n");
    let snapshot = session.snapshot();
    let once = snapshot.describe();
    let twice = snapshot.describe();
    assert_eq!(once, twice);
    assert_eq!(snapshot.rssi, Some(9));
    match &snapshot.connection_type {
        Some(ConnectionType::LTE(l)) => {
            assert_eq!((l.rssi, l.rsrp, l.sinr, l.rsrq), (10, 20, 5, 30));
        }
        _ => panic!("connection report lost"),
    }
}

#[test]
fn quality_report_replaced_whole() {
    let mut session = Session::new();
    session.push_chunk(b"^HCSQ:\"LTE\",10,20,5,30\r\n");
    session.push_chunk(b"^HCSQ:\"GSM\",21\r\n");
    match session.state().connection_type {
        Some(ConnectionType::GSM(GSMConnectionInfo { rssi })) => assert_eq!(rssi, 21),
        _ => panic!("quality report was not replaced"),
    }
}

#[test]
fn oversized_numeric_field_is_unrecognized() {
    assert!(matches!(
        classify(b"^RSSI:99999999999999999999"),
        Event::Unrecognized
    ));
    assert!(matches!(classify(b"^RSSI:9223372036854775807"), Event::SimpleRssi { .. }));
}

#[test]
fn malformed_lines_are_unrecognized() {
    assert!(matches!(classify(b""), Event::Unrecognized));
    assert!(matches!(classify(b"OK extra"), Event::Unrecognized));
    assert!(matches!(classify(b"xxOK"), Event::Unrecognized));
    assert!(matches!(classify(b"^PLMN: 1,2,3"), Event::Unrecognized));
    assert!(matches!(classify(b"^PLMN: ,2"), Event::Unrecognized));
    assert!(matches!(classify(b"+COPS: 0,0,\"\",7"), Event::Unrecognized));
    assert!(matches!(classify(b"+COPS: 0,0,\"bad!name\",7"), Event::Unrecognized));
    assert!(matches!(classify(b"+CME ERROR: x"), Event::Unrecognized));
    assert!(matches!(classify(b"^HCSQ:\"LTE\",1,2,3"), Event::Unrecognized));
}

#[test]
fn publish_follows_complete_lines() {
    let mut session = Session::new();
    assert!(!session.push_chunk(b"^RSSI:1").publish);
    assert!(session.push_chunk(b"\r\n").publish);
    assert!(session.push_chunk(b"\r\n").publish);
    assert!(!session.push_chunk(b"half a line").publish);
}

#[test]
fn snapshot_matches_the_record() {
    let mut session = Session::new();
    session.push_chunk(b"^PLMN: 204,4\r\n^RSSI:9\r\n");
    let snap = session.snapshot();
    assert_eq!(snap.mcc, session.state().mcc);
    assert_eq!(snap.mnc, session.state().mnc);
    assert_eq!(snap.rssi, session.state().rssi);
    assert!(snap.operator_name.is_none());
}
