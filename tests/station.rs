use wifi_ctrl::error::Error;
use wifi_ctrl::sta::actor::{after_select_reply, after_status, Correlator};
use wifi_ctrl::sta::command::Command;
use wifi_ctrl::sta::event::{parse_event, Event};
use wifi_ctrl::sta::reply::{network_id_reply, status_reply, text_reply};
use wifi_ctrl::sta::scan::scan_reply;
use wifi_ctrl::sta::{parse_status, Broadcast, KeyMgmt, NetworkResult, ScanResult, SelectResult, SetNetwork};

const SCAN_TABLE: &str = "bssid / frequency / signal level / flags / ssid\n\
    aa:aa:aa:aa:aa:01\t2412\t-40\t[WPA2-PSK-CCMP][ESS]\tHome Net\n\
    aa:aa:aa:aa:aa:02\t5180\t-75\t[ESS]\tCafe\n\
    aa:aa:aa:aa:aa:03\t2437\t-60\t[WPA2-PSK-CCMP][ESS]\tOffice 2 G\n";

#[test]
fn sta_event_lines() {
    assert_eq!(parse_event(b"<3>CTRL-EVENT-SCAN-RESULTS \n"), Ok(Some(Event::ScanComplete)));
    assert_eq!(
        parse_event(b"<3>CTRL-EVENT-CONNECTED - Connection to 00:11:22:33:44:55 completed"),
        Ok(Some(Event::Connected))
    );
    assert_eq!(
        parse_event(b"<3>CTRL-EVENT-DISCONNECTED bssid=00:11:22:33:44:55 reason=3"),
        Ok(Some(Event::Disconnected))
    );
    assert_eq!(parse_event(b"<3>CTRL-EVENT-NETWORK-NOT-FOUND"), Ok(Some(Event::NetworkNotFound)));
    assert_eq!(
        parse_event(b"<3>CTRL-EVENT-SSID-TEMP-DISABLED id=3 ssid=\"X\" reason=WRONG_KEY"),
        Ok(Some(Event::WrongPsk))
    );
}

#[test]
fn sta_event_rules_that_do_not_match() {
    // the scan token counts only at the end of the line
    assert_eq!(parse_event(b"<3>CTRL-EVENT-SCAN-RESULTS trailing"), Ok(None));
    // a temporary disable for another reason is no wrong key
    assert_eq!(
        parse_event(b"<3>CTRL-EVENT-SSID-TEMP-DISABLED id=3 ssid=\"X\" reason=CONN_FAILED"),
        Ok(None)
    );
    assert_eq!(parse_event(b"<3>CTRL-EVENT-BSS-ADDED 0 00:11:22:33:44:55"), Ok(None));
    assert_eq!(parse_event(b""), Ok(None));
    assert_eq!(parse_event(&[0xff, 0xfe]), Err(Error::Utf8Parse));
}

#[test]
fn full_buffer_datagram_parses_like_a_shorter_one() {
    let token = b"CTRL-EVENT-CONNECTED";
    let mut full = vec![b'x'; 256 - token.len()];
    full.extend_from_slice(token);
    assert_eq!(full.len(), 256);
    let short = b"xx CTRL-EVENT-CONNECTED";
    assert_eq!(parse_event(&full), parse_event(short));
    assert_eq!(parse_event(&full), Ok(Some(Event::Connected)));
}

#[test]
fn successful_select_settles_and_stops_timer() {
    let mut c: Correlator<u32, &str> = Correlator::new();
    assert_eq!(c.admit_select(), None);
    assert_eq!(Command::SelectNetwork(3).line(), "SELECT_NETWORK 3");
    assert_eq!(after_select_reply(&Ok(())), None);
    let status = parse_status("wpa_state=COMPLETED\nid=2\nssid=Other").unwrap();
    assert_eq!(after_status(&status, 3), None);
    c.install_select("select 3 with timer");
    assert!(c.has_pending_select());
    let event = parse_event(b"<3>CTRL-EVENT-CONNECTED - Connection to 00:11:22:33:44:55 completed")
        .unwrap()
        .unwrap();
    let out = c.on_event(event);
    assert_eq!(out.broadcast, Some(Broadcast::Connected));
    assert!(!out.fetch_scan);
    assert_eq!(out.resolved, Some(("select 3 with timer", SelectResult::Success)));
    assert!(!c.has_pending_select());
    // a timeout that still arrives settles nothing
    assert_eq!(c.on_select_timeout(), None);
}

#[test]
fn wrong_key_settles_select() {
    let mut c: Correlator<u32, u32> = Correlator::new();
    c.install_select(3);
    let event =
        parse_event(b"<3>CTRL-EVENT-SSID-TEMP-DISABLED id=3 ssid=\"X\" reason=WRONG_KEY").unwrap().unwrap();
    let out = c.on_event(event);
    assert_eq!(out.broadcast, Some(Broadcast::WrongPsk));
    assert_eq!(out.resolved, Some((3, SelectResult::WrongPsk)));
}

#[test]
fn network_not_found_and_timeout_settle_select() {
    let mut c: Correlator<u32, u32> = Correlator::new();
    c.install_select(1);
    let out = c.on_event(Event::NetworkNotFound);
    assert_eq!(out.broadcast, Some(Broadcast::NetworkNotFound));
    assert_eq!(out.resolved, Some((1, SelectResult::NotFound)));
    c.install_select(2);
    assert_eq!(c.on_select_timeout(), Some((2, SelectResult::Timeout)));
    assert!(!c.has_pending_select());
}

#[test]
fn disconnect_keeps_select_in_flight() {
    let mut c: Correlator<u32, u32> = Correlator::new();
    c.install_select(5);
    let out = c.on_event(Event::Disconnected);
    assert_eq!(out.broadcast, Some(Broadcast::Disconnected));
    assert_eq!(out.resolved, None);
    assert!(c.has_pending_select());
}

#[test]
fn batched_scan_reaches_all_waiters() {
    let mut c: Correlator<u32, u32> = Correlator::new();
    c.add_scan_waiter(1);
    c.add_scan_waiter(2);
    c.add_scan_waiter(3);
    let out = c.on_event(Event::ScanComplete);
    assert!(out.fetch_scan);
    assert_eq!(out.broadcast, None);
    assert_eq!(Command::ScanResults.line(), "SCAN_RESULTS");
    let results = scan_reply(SCAN_TABLE.as_bytes()).unwrap();
    let signals: Vec<isize> = results.iter().map(|r| r.signal).collect();
    assert_eq!(signals, vec![-75, -60, -40]);
    assert_eq!(results[0].name, "Cafe");
    assert_eq!(c.take_scan_waiters(), vec![1, 2, 3]);
    assert_eq!(c.scan_waiter_count(), 0);
    assert_eq!(c.take_scan_waiters(), Vec::<u32>::new());
}

#[test]
fn second_select_while_pending() {
    let mut c: Correlator<u32, u32> = Correlator::new();
    c.install_select(3);
    assert_eq!(c.admit_select(), Some(SelectResult::PendingSelect));
    assert_eq!(c.on_event(Event::Connected).resolved, Some((3, SelectResult::Success)));
    assert_eq!(c.admit_select(), None);
}

#[test]
fn already_connected_select() {
    let c: Correlator<u32, u32> = Correlator::new();
    assert_eq!(c.admit_select(), None);
    let status = status_reply(b"bssid=00:11:22:33:44:55\nid=7\nwpa_state=COMPLETED\n").unwrap();
    assert_eq!(after_status(&status, 7), Some(SelectResult::AlreadyConnected));
    assert!(!c.has_pending_select());
}

#[test]
fn rejected_select_is_invalid_id() {
    assert_eq!(
        after_select_reply(&Err(Error::UnexpectedResponse("FAIL".to_string()))),
        Some(SelectResult::InvalidNetworkId)
    );
}

#[test]
fn select_result_names() {
    assert_eq!(SelectResult::Success.as_str(), "success");
    assert_eq!(SelectResult::NotFound.as_str(), "network_not_found");
    assert_eq!(SelectResult::PendingSelect.as_str(), "select_already_pending");
    assert_eq!(SelectResult::AlreadyConnected.as_str(), "already_connected");
}

#[test]
fn sta_command_lines() {
    assert_eq!(Command::Status.line(), "STATUS");
    assert_eq!(Command::ListNetworks.line(), "LIST_NETWORKS");
    assert_eq!(Command::Scan.line(), "SCAN");
    assert_eq!(Command::AddNetwork.line(), "ADD_NETWORK");
    assert_eq!(Command::SaveConfig.line(), "SAVE_CONFIG");
    assert_eq!(Command::RemoveNetwork(12).line(), "REMOVE_NETWORK 12");
    assert_eq!(Command::RemoveAllNetworks.line(), "REMOVE_NETWORK all");
    assert_eq!(Command::Custom("PING".to_string()).line(), "PING");
    assert_eq!(Command::GetNetworkSsid("4".to_string()).line(), "GET_NETWORK 4 ssid");
    assert_eq!(
        Command::SetNetwork(0, SetNetwork::Ssid("My Net".to_string())).line(),
        "SET_NETWORK 0 ssid \"My Net\""
    );
    assert_eq!(
        Command::SetNetwork(10, SetNetwork::Bssid("00:11:22:33:44:55".to_string())).line(),
        "SET_NETWORK 10 bssid 00:11:22:33:44:55"
    );
    assert_eq!(
        Command::SetNetwork(1, SetNetwork::Psk("secret pw".to_string())).line(),
        "SET_NETWORK 1 psk \"secret pw\""
    );
    assert_eq!(
        Command::SetNetwork(1, SetNetwork::KeyMgmt(KeyMgmt::WpaPsk)).line(),
        "SET_NETWORK 1 key_mgmt WPA-PSK"
    );
    assert_eq!(Command::SetNetwork(2, SetNetwork::KeyMgmt(KeyMgmt::Open)).line(), "SET_NETWORK 2 key_mgmt NONE");
    assert_eq!(Command::SelectNetwork(18446744073709551615).line(), "SELECT_NETWORK 18446744073709551615");
    assert_eq!(Command::Attach.line(), "ATTACH");
    assert_eq!(Command::LogLevelDebug.line(), "LOG_LEVEL DEBUG");
}

#[test]
fn scan_table_rows() {
    let rows = ScanResult::vec_from_str(SCAN_TABLE).unwrap();
    assert_eq!(rows.len(), 3);
    assert_eq!(rows[0].mac, "aa:aa:aa:aa:aa:01");
    assert_eq!(rows[0].frequency, "2412");
    assert_eq!(rows[0].signal, -40);
    assert_eq!(rows[0].flags, "[WPA2-PSK-CCMP][ESS]");
    assert_eq!(rows[0].name, "Home Net");
    assert_eq!(rows[2].name, "Office 2 G");
}

#[test]
fn scan_table_skips_header_and_malformed_rows() {
    let table = "header line with five words here\n\
        aa:aa:aa:aa:aa:01 2412 -40 [ESS]\n\
        aa:aa:aa:aa:aa:02 2412 strong [ESS] Named\n\
        aa:aa:aa:aa:aa:03 2412 +7 [ESS] Kept\n\
        \n";
    let rows = ScanResult::vec_from_str(table).unwrap();
    assert_eq!(rows.len(), 1);
    assert_eq!(rows[0].signal, 7);
    assert_eq!(rows[0].name, "Kept");
    assert_eq!(ScanResult::vec_from_str("").unwrap().len(), 0);
}

#[test]
fn scan_sort_equal_signals_and_bad_text() {
    let table = "h\nm1 1 -50 f A\nm2 1 -50 f B\nm3 1 -90 f C\n";
    let rows = scan_reply(table.as_bytes()).unwrap();
    let signals: Vec<isize> = rows.iter().map(|r| r.signal).collect();
    assert_eq!(signals, vec![-90, -50, -50]);
    assert!(matches!(scan_reply(&[0xc3]), Err(Error::Utf8Parse)));
}

#[test]
fn status_map_holds_every_line() {
    let text = "bssid=00:11:22:33:44:55\nfreq = 2412 \nssid=Home=Net\nid=0\n\nwpa_state=COMPLETED";
    let status = parse_status(text).unwrap();
    assert_eq!(status.get("bssid"), Some("00:11:22:33:44:55".to_string()));
    assert_eq!(status.get("freq"), Some("2412".to_string()));
    assert_eq!(status.get("ssid"), Some("Home=Net".to_string()));
    assert_eq!(status.get("id"), Some("0".to_string()));
    assert_eq!(status.get("wpa_state"), Some("COMPLETED".to_string()));
    assert_eq!(status.get("missing"), None);
}

#[test]
fn status_later_line_overrides() {
    let status = parse_status("a=1\na=2").unwrap();
    assert_eq!(status.get("a"), Some("2".to_string()));
}

#[test]
fn status_malformed_line_is_an_error() {
    match parse_status("a=1\nno equals sign\n") {
        Err(Error::ParsingWifiStatus { s }) => assert_eq!(s, "a=1\nno equals sign\n"),
        other => panic!("unexpected {other:?}"),
    }
    assert!(matches!(parse_status("=value"), Err(Error::ParsingWifiStatus { .. })));
    assert!(matches!(status_reply(&[0xff]), Err(Error::Utf8Parse)));
}

#[test]
fn add_network_reply() {
    assert_eq!(network_id_reply(b"3\n"), Ok(3));
    assert_eq!(network_id_reply(b"+12"), Ok(12));
    assert_eq!(network_id_reply(b"-1"), Err(Error::ParseInt("-1".to_string())));
    assert_eq!(network_id_reply(b"FAIL\n"), Err(Error::ParseInt("FAIL".to_string())));
    assert_eq!(
        network_id_reply(b"18446744073709551616"),
        Err(Error::ParseInt("18446744073709551616".to_string()))
    );
    assert_eq!(network_id_reply(b"18446744073709551615"), Ok(usize::MAX));
    assert_eq!(network_id_reply(&[0x80]), Err(Error::Utf8Parse));
}

#[test]
fn custom_reply_text() {
    assert_eq!(text_reply(b"PONG\n"), Ok("PONG".to_string()));
    assert_eq!(text_reply(b"  a b \r\n"), Ok("  a b".to_string()));
    assert_eq!(text_reply(&[0xe2, 0x82]), Err(Error::Utf8Parse));
}

#[test]
fn network_list_round_trips() {
    let list = "network id / ssid / bssid / flags\n\
        0\tHome\tany\t[CURRENT]\n\
        1\tCafe\tany\t[DISABLED]\n\
        x\tBad\tany\t[X]\n\
        \n\
        7\n";
    let queries = NetworkResult::ssid_queries(list);
    assert_eq!(
        queries,
        vec!["GET_NETWORK 0 ssid", "GET_NETWORK 1 ssid", "GET_NETWORK x ssid", "GET_NETWORK 7 ssid"]
    );
    let replies: Vec<Vec<u8>> =
        vec![b"\"Home\"".to_vec(), b"\"Cafe Net\"".to_vec(), b"\"Bad\"".to_vec(), b"\"Seven\"".to_vec()];
    let nets = NetworkResult::vec_from_str(list, &replies).unwrap();
    assert_eq!(nets.len(), 2);
    assert_eq!(nets[0].network_id, 0);
    assert_eq!(nets[0].ssid, "Home");
    assert_eq!(nets[0].flags, "[CURRENT]");
    assert_eq!(nets[1].network_id, 1);
    assert_eq!(nets[1].ssid, "Cafe Net");
    assert_eq!(nets[1].flags, "[DISABLED]");
}

#[test]
fn network_list_reply_errors_and_missing_replies() {
    let list = "header\n0\tHome\tany\t[CURRENT]\n1\tCafe\tany\t\n";
    let bad: Vec<Vec<u8>> = vec![vec![0xff], b"x".to_vec()];
    assert!(matches!(NetworkResult::vec_from_str(list, &bad), Err(Error::Utf8Parse)));
    let one: Vec<Vec<u8>> = vec![b"\"\"Home\"\"".to_vec()];
    let nets = NetworkResult::vec_from_str(list, &one).unwrap();
    assert_eq!(nets.len(), 1);
    assert_eq!(nets[0].ssid, "Home");
}

#[test]
fn status_entries_write_back_every_line() {
    let text = "bssid=00:11:22:33:44:55\nfreq=2412\nssid=Home Net\nid=0\nwpa_state=COMPLETED\n";
    let status = parse_status(text).unwrap();
    let written: Vec<String> = status.entries().iter().map(|(k, v)| format!("{k}={v}")).collect();
    for line in text.lines() {
        assert!(written.iter().any(|w| w == line), "missing {line}");
    }
    assert_eq!(written.len(), 5);
}

#[test]
fn status_reply_error_keeps_reply_text() {
    match status_reply(b"a=1\nbroken line\n") {
        Err(Error::ParsingWifiStatus { s }) => assert_eq!(s, "a=1\nbroken line"),
        other => panic!("unexpected {other:?}"),
    }
}
