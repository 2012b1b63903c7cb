use wifi_ctrl::ap::actor::{broadcast_for, config_reply, status_reply, Command};
use wifi_ctrl::ap::event::{parse_event, Event};
use wifi_ctrl::ap::{Broadcast, Config, Status};
use wifi_ctrl::error::Error;

const STATUS: &str = "state=ENABLED\nphy=phy0\nfreq=2412\nnum_sta_non_erp=0\n\
num_sta_no_short_slot_time=0\nnum_sta_no_short_preamble=0\nolbc=0\nnum_sta_ht_no_gf=0\n\
num_sta_no_ht=0\nnum_sta_ht_20_mhz=0\nnum_sta_ht40_intolerant=0\nolbc_ht=0\nht_op_mode=0x0\n\
cac_time_seconds=0\ncac_time_left_seconds=N/A\nchannel=1\nsecondary_channel=0\nieee80211n=1\n\
ieee80211ac=0\nieee80211ax=0\nbeacon_int=100\ndtim_period=2\nht_caps_info=000c\n\
ht_mcs_bitmask=ffff0000000000000000\nsupported_rates=02 04 0b 16\nmax_txpower=20\n\
bss[0]=wlan1\nbssid[0]=00:11:22:33:44:55\nssid[0]=Hotspot\nnum_sta[0]=2\n\
bss[1]=wlan1_1\nbssid[1]=00:11:22:33:44:56\nssid[1]=Guest\nnum_sta[1]=0\n";

const CONFIG: &str = "bssid=00:11:22:33:44:55\nssid=Hotspot\nwps_state=disabled\nwpa=2\n\
key_mgmt=WPA-PSK\ngroup_cipher=CCMP\nrsn_pairwise_cipher=CCMP\nwpa_pairwise_cipher=TKIP\n";

#[test]
fn station_lifecycle_broadcasts_in_order() {
    let lines: [&[u8]; 2] =
        [b"<3>AP-STA-CONNECTED aa:bb:cc:dd:ee:ff", b"<3>AP-STA-DISCONNECTED aa:bb:cc:dd:ee:ff\n"];
    let broadcasts: Vec<Broadcast> =
        lines.iter().map(|l| broadcast_for(parse_event(l).unwrap())).collect();
    assert_eq!(
        broadcasts,
        vec![
            Broadcast::Connected(" aa:bb:cc:dd:ee:ff".to_string()),
            Broadcast::Disconnected(" aa:bb:cc:dd:ee:ff".to_string()),
        ]
    );
}

#[test]
fn ap_unknown_event_keeps_line() {
    assert_eq!(
        parse_event(b"<3>WPS-PBC-ACTIVE  \n"),
        Ok(Event::Unknown("<3>WPS-PBC-ACTIVE".to_string()))
    );
    assert_eq!(
        broadcast_for(Event::Unknown("x".to_string())),
        Broadcast::UnknownEvent("x".to_string())
    );
    assert_eq!(parse_event(&[0xfe]), Err(Error::Utf8Parse));
}

#[test]
fn ap_command_lines() {
    assert_eq!(Command::Status.line(), "STATUS");
    assert_eq!(Command::GetConfig.line(), "GET_CONFIG");
    assert_eq!(Command::Enable.line(), "ENABLE");
    assert_eq!(Command::Disable.line(), "DISABLE");
    assert_eq!(Command::SetValue("ssid".to_string(), "New Name".to_string()).line(), "SET ssid New Name");
    assert_eq!(Command::Attach(vec![]).line(), "ATTACH");
    assert_eq!(
        Command::Attach(vec!["log_level=1".to_string(), "filter".to_string()]).line(),
        "ATTACH log_level=1 filter"
    );
    assert_eq!(Command::LogLevelDebug.line(), "LOG_LEVEL DEBUG");
}

#[test]
fn ap_status_parses() {
    let st = Status::from_response(STATUS).unwrap();
    assert_eq!(st.state, "ENABLED");
    assert_eq!(st.channel, "1");
    assert_eq!(st.supported_rates, "02 04 0b 16");
    assert_eq!(st.bss, vec!["wlan1", "wlan1_1"]);
    assert_eq!(st.ssid, vec!["Hotspot", "Guest"]);
    assert_eq!(st.num_sta, vec!["2", "0"]);
    assert_eq!(st.bssid, vec!["00:11:22:33:44:55", "00:11:22:33:44:56"]);
    let st = status_reply(STATUS.as_bytes()).unwrap();
    assert_eq!(st.max_txpower, "20");
}

#[test]
fn ap_status_missing_key() {
    let text = STATUS.replace("phy=phy0\n", "");
    assert!(matches!(Status::from_response(&text), Err(Error::ParsingWifiStatus { .. })));
    assert!(matches!(status_reply(&[0xff]), Err(Error::Utf8Parse)));
}

#[test]
fn ap_config_parses() {
    let c = Config::from_response(CONFIG).unwrap();
    assert_eq!(c.bssid, "00:11:22:33:44:55");
    assert_eq!(c.ssid, "Hotspot");
    assert!(!c.wps_state);
    assert_eq!(c.wpa, 2);
    assert_eq!(c.key_mgmt, "WPA-PSK");
    assert_eq!(c.wpa_pairwise_cipher, "TKIP");
    let on = CONFIG.replace("wps_state=disabled", "wps_state=enabled");
    assert!(config_reply(on.as_bytes()).unwrap().wps_state);
}

#[test]
fn ap_config_rejects_bad_values() {
    let odd = CONFIG.replace("wps_state=disabled", "wps_state=configured");
    assert!(matches!(Config::from_response(&odd), Err(Error::ParsingWifiConfig { .. })));
    let big = CONFIG.replace("wpa=2", "wpa=2147483648");
    assert!(matches!(Config::from_response(&big), Err(Error::ParsingWifiConfig { .. })));
    let neg = CONFIG.replace("wpa=2", "wpa=-2147483648");
    assert_eq!(Config::from_response(&neg).unwrap().wpa, i32::MIN);
    assert!(matches!(config_reply(&[0xc0]), Err(Error::Utf8Parse)));
}

#[test]
fn ap_reply_errors_keep_reply_text() {
    match status_reply(b"state=ENABLED\n") {
        Err(Error::ParsingWifiStatus { s }) => assert_eq!(s, "state=ENABLED"),
        other => panic!("unexpected {other:?}"),
    }
    match config_reply(b"bssid=x\nwps_state=maybe\n\n") {
        Err(Error::ParsingWifiConfig { s }) => assert_eq!(s, "bssid=x\nwps_state=maybe"),
        other => panic!("unexpected {other:?}"),
    }
}
