//! The access-point daemon's `STATUS` and `GET_CONFIG` replies.
use vstd::prelude::*;
use crate::error::Error;
use crate::kv::{kv_entries, map_of, pair_views, parse_entries, lookup};
use crate::number::{all_digits, is_digit, i32_of, parse_i32};
use crate::text::{chars_of, range_is};
use crate::wire::text_of;

verus! {

/// Status of the access point. Each list holds the values of the keys
/// `name[<index>]` in line order.
#[derive(Debug, Clone)]
pub struct Status {
    pub state: String,
    pub phy: String,
    pub freq: String,
    pub num_sta_non_erp: String,
    pub num_sta_no_short_slot_time: String,
    pub num_sta_no_short_preamble: String,
    pub olbc: String,
    pub num_sta_ht_no_gf: String,
    pub num_sta_no_ht: String,
    pub num_sta_ht_20_mhz: String,
    pub num_sta_ht40_intolerant: String,
    pub olbc_ht: String,
    pub ht_op_mode: String,
    pub cac_time_seconds: String,
    pub cac_time_left_seconds: String,
    pub channel: String,
    pub secondary_channel: String,
    pub ieee80211n: String,
    pub ieee80211ac: String,
    pub ieee80211ax: String,
    pub beacon_int: String,
    pub dtim_period: String,
    pub ht_caps_info: String,
    pub ht_mcs_bitmask: String,
    pub supported_rates: String,
    pub max_txpower: String,
    pub bss: Vec<String>,
    pub bssid: Vec<String>,
    pub ssid: Vec<String>,
    pub num_sta: Vec<String>,
}

/// `key` is `name[<digits>]`.
pub open spec fn is_indexed_key(key: Seq<char>, name: Seq<char>) -> bool {
    &&& key.len() >= name.len() + 3
    &&& key.subrange(0, name.len() as int) == name
    &&& key[name.len() as int] == '['
    &&& key.last() == ']'
    &&& all_digits(key.subrange(name.len() as int + 1, key.len() - 1))
}

/// The values of the entries whose key is `name[<digits>]`, in order.
pub open spec fn indexed_values(es: Seq<(Seq<char>, Seq<char>)>, name: Seq<char>) -> Seq<Seq<char>>
    decreases es.len(),
{
    if es.len() == 0 {
        Seq::empty()
    } else if is_indexed_key(es.last().0, name) {
        indexed_values(es.drop_last(), name).push(es.last().1)
    } else {
        indexed_values(es.drop_last(), name)
    }
}

/// The status map holds every key that `Status` needs.
pub open spec fn has_status_keys(m: Map<Seq<char>, Seq<char>>) -> bool {
    m.contains_key("state"@)
        && m.contains_key("phy"@)
        && m.contains_key("freq"@)
        && m.contains_key("num_sta_non_erp"@)
        && m.contains_key("num_sta_no_short_slot_time"@)
        && m.contains_key("num_sta_no_short_preamble"@)
        && m.contains_key("olbc"@)
        && m.contains_key("num_sta_ht_no_gf"@)
        && m.contains_key("num_sta_no_ht"@)
        && m.contains_key("num_sta_ht_20_mhz"@)
        && m.contains_key("num_sta_ht40_intolerant"@)
        && m.contains_key("olbc_ht"@)
        && m.contains_key("ht_op_mode"@)
        && m.contains_key("cac_time_seconds"@)
        && m.contains_key("cac_time_left_seconds"@)
        && m.contains_key("channel"@)
        && m.contains_key("secondary_channel"@)
        && m.contains_key("ieee80211n"@)
        && m.contains_key("ieee80211ac"@)
        && m.contains_key("ieee80211ax"@)
        && m.contains_key("beacon_int"@)
        && m.contains_key("dtim_period"@)
        && m.contains_key("ht_caps_info"@)
        && m.contains_key("ht_mcs_bitmask"@)
        && m.contains_key("supported_rates"@)
        && m.contains_key("max_txpower"@)
}

/// Whether `key` is `name[<digits>]`.
fn indexed_key(key: &String, name: &str) -> (r: bool)
    ensures
        r == is_indexed_key(key@, name@),
{
    let k = chars_of(key.as_str());
    let n = chars_of(name);
    if k.len() < 3 || k.len() - 3 < n.len() {
        return false;
    }
    let mut i: usize = 0;
    while i < n.len()
        invariant
            i <= n@.len(),
            k@ == key@,
            n@ == name@,
            n@.len() + 3 <= k@.len(),
            forall|j: int| 0 <= j < i ==> k@[j] == n@[j],
        decreases n@.len() - i,
    {
        if k[i] != n[i] {
            assert(k@.subrange(0, n@.len() as int)[i as int] != n@[i as int]);
            assert(k@.subrange(0, n@.len() as int) != n@);
            return false;
        }
        i = i + 1;
    }
    assert(k@.subrange(0, n@.len() as int) =~= n@);
    if k[n.len()] != '[' || k[k.len() - 1] != ']' {
        return false;
    }
    let mut j: usize = n.len() + 1;
    let end = k.len() - 1;
    while j < end
        invariant
            n@.len() + 1 <= j <= end,
            k@ == key@,
            n@ == name@,
            end == k@.len() - 1,
            forall|l: int| n@.len() + 1 <= l < j ==> is_digit(k@[l]),
        decreases end - j,
    {
        if !('0' <= k[j] && k[j] <= '9') {
            assert(!is_digit(k@.subrange(n@.len() as int + 1, end as int)[j - n@.len() as int - 1]));
            assert(!all_digits(k@.subrange(n@.len() as int + 1, end as int)));
            return false;
        }
        j = j + 1;
    }
    assert(all_digits(k@.subrange(n@.len() as int + 1, end as int))) by {
        assert forall|l: int| 0 <= l < end - n@.len() - 1 implies is_digit(
            #[trigger] k@.subrange(n@.len() as int + 1, end as int)[l],
        ) by {
            assert(k@.subrange(n@.len() as int + 1, end as int)[l] == k@[n@.len() as int + 1 + l]);
        }
    }
    true
}

pub open spec fn string_views(v: Seq<String>) -> Seq<Seq<char>> {
    Seq::new(v.len(), |i: int| v[i]@)
}

/// The values of the entries whose key is `name[<digits>]`, in order.
fn indexed(es: &Vec<(String, String)>, name: &str) -> (r: Vec<String>)
    ensures
        string_views(r@) == indexed_values(pair_views(es@), name@),
{
    let ghost pv = pair_views(es@);
    let mut out: Vec<String> = Vec::new();
    let mut i: usize = 0;
    assert(pv.subrange(0, 0) =~= Seq::<(Seq<char>, Seq<char>)>::empty());
    while i < es.len()
        invariant
            i <= es@.len(),
            pv == pair_views(es@),
            string_views(out@) == indexed_values(pv.subrange(0, i as int), name@),
        decreases es@.len() - i,
    {
        assert(pv.subrange(0, i + 1).drop_last() =~= pv.subrange(0, i as int));
        assert(pv.subrange(0, i + 1).last() == pv[i as int]);
        if indexed_key(&es[i].0, name) {
            let ghost before = out@;
            out.push(es[i].1.clone());
            assert(string_views(out@) =~= string_views(before).push(pv[i as int].1));
        }
        i = i + 1;
    }
    assert(pv.subrange(0, es@.len() as int) =~= pv);
    out
}

/// A status reply is well formed and holds every key that `Status` needs.
pub open spec fn status_parses(text: Seq<char>) -> bool {
    kv_entries(text) is Some && has_status_keys(map_of(kv_entries(text)->0))
}

/// `st` holds what the status reply `text` says.
pub open spec fn status_matches(st: Status, text: Seq<char>) -> bool {
    let es = kv_entries(text)->0;
    let m = map_of(es);
    &&& st.state@ == m["state"@]
    &&& st.phy@ == m["phy"@]
    &&& st.freq@ == m["freq"@]
    &&& st.num_sta_non_erp@ == m["num_sta_non_erp"@]
    &&& st.num_sta_no_short_slot_time@ == m["num_sta_no_short_slot_time"@]
    &&& st.num_sta_no_short_preamble@ == m["num_sta_no_short_preamble"@]
    &&& st.olbc@ == m["olbc"@]
    &&& st.num_sta_ht_no_gf@ == m["num_sta_ht_no_gf"@]
    &&& st.num_sta_no_ht@ == m["num_sta_no_ht"@]
    &&& st.num_sta_ht_20_mhz@ == m["num_sta_ht_20_mhz"@]
    &&& st.num_sta_ht40_intolerant@ == m["num_sta_ht40_intolerant"@]
    &&& st.olbc_ht@ == m["olbc_ht"@]
    &&& st.ht_op_mode@ == m["ht_op_mode"@]
    &&& st.cac_time_seconds@ == m["cac_time_seconds"@]
    &&& st.cac_time_left_seconds@ == m["cac_time_left_seconds"@]
    &&& st.channel@ == m["channel"@]
    &&& st.secondary_channel@ == m["secondary_channel"@]
    &&& st.ieee80211n@ == m["ieee80211n"@]
    &&& st.ieee80211ac@ == m["ieee80211ac"@]
    &&& st.ieee80211ax@ == m["ieee80211ax"@]
    &&& st.beacon_int@ == m["beacon_int"@]
    &&& st.dtim_period@ == m["dtim_period"@]
    &&& st.ht_caps_info@ == m["ht_caps_info"@]
    &&& st.ht_mcs_bitmask@ == m["ht_mcs_bitmask"@]
    &&& st.supported_rates@ == m["supported_rates"@]
    &&& st.max_txpower@ == m["max_txpower"@]
    &&& string_views(st.bss@) == indexed_values(es, "bss"@)
    &&& string_views(st.bssid@) == indexed_values(es, "bssid"@)
    &&& string_views(st.ssid@) == indexed_values(es, "ssid"@)
    &&& string_views(st.num_sta@) == indexed_values(es, "num_sta"@)
}

impl Status {
    /// Parses a status reply; it fails where the reply is malformed or lacks
    /// a key.
    pub fn from_response(response: &str) -> (r: Result<Status, Error>)
        ensures
            r is Ok <==> status_parses(response@),
            r matches Err(e) ==> (e matches Error::ParsingWifiStatus { s } && s@ == response@),
            r matches Ok(st) ==> status_matches(st, response@),
    {
        let text = chars_of(response);
        let es = match parse_entries(&text) {
            Some(es) => es,
            None => return Err(Error::ParsingWifiStatus { s: text_of(&text) }),
        };
        let state = match lookup(&es, "state") {
            Some(v) => v,
            None => return Err(Error::ParsingWifiStatus { s: text_of(&text) }),
        };
        let phy = match lookup(&es, "phy") {
            Some(v) => v,
            None => return Err(Error::ParsingWifiStatus { s: text_of(&text) }),
        };
        let freq = match lookup(&es, "freq") {
            Some(v) => v,
            None => return Err(Error::ParsingWifiStatus { s: text_of(&text) }),
        };
        let num_sta_non_erp = match lookup(&es, "num_sta_non_erp") {
            Some(v) => v,
            None => return Err(Error::ParsingWifiStatus { s: text_of(&text) }),
        };
        let num_sta_no_short_slot_time = match lookup(&es, "num_sta_no_short_slot_time") {
            Some(v) => v,
            None => return Err(Error::ParsingWifiStatus { s: text_of(&text) }),
        };
        let num_sta_no_short_preamble = match lookup(&es, "num_sta_no_short_preamble") {
            Some(v) => v,
            None => return Err(Error::ParsingWifiStatus { s: text_of(&text) }),
        };
        let olbc = match lookup(&es, "olbc") {
            Some(v) => v,
            None => return Err(Error::ParsingWifiStatus { s: text_of(&text) }),
        };
        let num_sta_ht_no_gf = match lookup(&es, "num_sta_ht_no_gf") {
            Some(v) => v,
            None => return Err(Error::ParsingWifiStatus { s: text_of(&text) }),
        };
        let num_sta_no_ht = match lookup(&es, "num_sta_no_ht") {
            Some(v) => v,
            None => return Err(Error::ParsingWifiStatus { s: text_of(&text) }),
        };
        let num_sta_ht_20_mhz = match lookup(&es, "num_sta_ht_20_mhz") {
            Some(v) => v,
            None => return Err(Error::ParsingWifiStatus { s: text_of(&text) }),
        };
        let num_sta_ht40_intolerant = match lookup(&es, "num_sta_ht40_intolerant") {
            Some(v) => v,
            None => return Err(Error::ParsingWifiStatus { s: text_of(&text) }),
        };
        let olbc_ht = match lookup(&es, "olbc_ht") {
            Some(v) => v,
            None => return Err(Error::ParsingWifiStatus { s: text_of(&text) }),
        };
        let ht_op_mode = match lookup(&es, "ht_op_mode") {
            Some(v) => v,
            None => return Err(Error::ParsingWifiStatus { s: text_of(&text) }),
        };
        let cac_time_seconds = match lookup(&es, "cac_time_seconds") {
            Some(v) => v,
            None => return Err(Error::ParsingWifiStatus { s: text_of(&text) }),
        };
        let cac_time_left_seconds = match lookup(&es, "cac_time_left_seconds") {
            Some(v) => v,
            None => return Err(Error::ParsingWifiStatus { s: text_of(&text) }),
        };
        let channel = match lookup(&es, "channel") {
            Some(v) => v,
            None => return Err(Error::ParsingWifiStatus { s: text_of(&text) }),
        };
        let secondary_channel = match lookup(&es, "secondary_channel") {
            Some(v) => v,
            None => return Err(Error::ParsingWifiStatus { s: text_of(&text) }),
        };
        let ieee80211n = match lookup(&es, "ieee80211n") {
            Some(v) => v,
            None => return Err(Error::ParsingWifiStatus { s: text_of(&text) }),
        };
        let ieee80211ac = match lookup(&es, "ieee80211ac") {
            Some(v) => v,
            None => return Err(Error::ParsingWifiStatus { s: text_of(&text) }),
        };
        let ieee80211ax = match lookup(&es, "ieee80211ax") {
            Some(v) => v,
            None => return Err(Error::ParsingWifiStatus { s: text_of(&text) }),
        };
        let beacon_int = match lookup(&es, "beacon_int") {
            Some(v) => v,
            None => return Err(Error::ParsingWifiStatus { s: text_of(&text) }),
        };
        let dtim_period = match lookup(&es, "dtim_period") {
            Some(v) => v,
            None => return Err(Error::ParsingWifiStatus { s: text_of(&text) }),
        };
        let ht_caps_info = match lookup(&es, "ht_caps_info") {
            Some(v) => v,
            None => return Err(Error::ParsingWifiStatus { s: text_of(&text) }),
        };
        let ht_mcs_bitmask = match lookup(&es, "ht_mcs_bitmask") {
            Some(v) => v,
            None => return Err(Error::ParsingWifiStatus { s: text_of(&text) }),
        };
        let supported_rates = match lookup(&es, "supported_rates") {
            Some(v) => v,
            None => return Err(Error::ParsingWifiStatus { s: text_of(&text) }),
        };
        let max_txpower = match lookup(&es, "max_txpower") {
            Some(v) => v,
            None => return Err(Error::ParsingWifiStatus { s: text_of(&text) }),
        };
        Ok(Status {
            state,
            phy,
            freq,
            num_sta_non_erp,
            num_sta_no_short_slot_time,
            num_sta_no_short_preamble,
            olbc,
            num_sta_ht_no_gf,
            num_sta_no_ht,
            num_sta_ht_20_mhz,
            num_sta_ht40_intolerant,
            olbc_ht,
            ht_op_mode,
            cac_time_seconds,
            cac_time_left_seconds,
            channel,
            secondary_channel,
            ieee80211n,
            ieee80211ac,
            ieee80211ax,
            beacon_int,
            dtim_period,
            ht_caps_info,
            ht_mcs_bitmask,
            supported_rates,
            max_txpower,
            bss: indexed(&es, "bss"),
            bssid: indexed(&es, "bssid"),
            ssid: indexed(&es, "ssid"),
            num_sta: indexed(&es, "num_sta"),
        })
    }
}

/// Configuration of the access point.
#[derive(Debug, Clone)]
pub struct Config {
    pub bssid: String,
    pub ssid: String,
    pub wps_state: bool,
    pub wpa: i32,
    pub key_mgmt: String,
    pub group_cipher: String,
    pub rsn_pairwise_cipher: String,
    pub wpa_pairwise_cipher: String,
}

/// What a `wps_state` value means, if it is one of the two the daemon uses.
pub open spec fn wps_flag(v: Seq<char>) -> Option<bool> {
    if v == "enabled"@ {
        Some(true)
    } else if v == "disabled"@ {
        Some(false)
    } else {
        None
    }
}

/// The configuration map holds every key that `Config` needs, with values
/// of the right shape.
pub open spec fn config_ok(m: Map<Seq<char>, Seq<char>>) -> bool {
    &&& m.contains_key("wps_state"@)
    &&& wps_flag(m["wps_state"@]) is Some
    &&& m.contains_key("wpa"@)
    &&& i32_of(m["wpa"@]) is Some
    &&& m.contains_key("bssid"@)
    &&& m.contains_key("ssid"@)
    &&& m.contains_key("key_mgmt"@)
    &&& m.contains_key("group_cipher"@)
    &&& m.contains_key("rsn_pairwise_cipher"@)
    &&& m.contains_key("wpa_pairwise_cipher"@)
}

fn wps_value(v: &String) -> (r: Option<bool>)
    ensures
        r == wps_flag(v@),
{
    let c = chars_of(v.as_str());
    let on = chars_of("enabled");
    let off = chars_of("disabled");
    assert(c@.subrange(0, c@.len() as int) =~= c@);
    if range_is(c.as_slice(), 0, c.len(), on.as_slice()) {
        Some(true)
    } else if range_is(c.as_slice(), 0, c.len(), off.as_slice()) {
        Some(false)
    } else {
        None
    }
}

/// A configuration reply is well formed and holds every key that `Config`
/// needs, with values of the right shape.
pub open spec fn config_parses(text: Seq<char>) -> bool {
    kv_entries(text) is Some && config_ok(map_of(kv_entries(text)->0))
}

/// `c` holds what the configuration reply `text` says.
pub open spec fn config_matches(c: Config, text: Seq<char>) -> bool {
    let m = map_of(kv_entries(text)->0);
    &&& Some(c.wps_state) == wps_flag(m["wps_state"@])
    &&& Some(c.wpa) == i32_of(m["wpa"@])
    &&& c.bssid@ == m["bssid"@]
    &&& c.ssid@ == m["ssid"@]
    &&& c.key_mgmt@ == m["key_mgmt"@]
    &&& c.group_cipher@ == m["group_cipher"@]
    &&& c.rsn_pairwise_cipher@ == m["rsn_pairwise_cipher"@]
    &&& c.wpa_pairwise_cipher@ == m["wpa_pairwise_cipher"@]
}

impl Config {
    /// Parses a configuration reply; it fails where the reply is malformed,
    /// lacks a key, or holds a `wps_state` other than `enabled` or
    /// `disabled`, or a `wpa` that is no `i32`.
    pub fn from_response(response: &str) -> (r: Result<Config, Error>)
        ensures
            r is Ok <==> config_parses(response@),
            r matches Err(e) ==> (e matches Error::ParsingWifiConfig { s } && s@ == response@),
            r matches Ok(c) ==> config_matches(c, response@),
    {
        let text = chars_of(response);
        let es = match parse_entries(&text) {
            Some(es) => es,
            None => return Err(Error::ParsingWifiConfig { s: text_of(&text) }),
        };
        let wps_text = match lookup(&es, "wps_state") {
            Some(v) => v,
            None => return Err(Error::ParsingWifiConfig { s: text_of(&text) }),
        };
        let wps_state = match wps_value(&wps_text) {
            Some(b) => b,
            None => return Err(Error::ParsingWifiConfig { s: text_of(&text) }),
        };
        let wpa_text = match lookup(&es, "wpa") {
            Some(v) => v,
            None => return Err(Error::ParsingWifiConfig { s: text_of(&text) }),
        };
        let wpa_chars = chars_of(wpa_text.as_str());
        assert(wpa_chars@.subrange(0, wpa_chars@.len() as int) =~= wpa_chars@);
        let wpa = match parse_i32(wpa_chars.as_slice(), 0, wpa_chars.len()) {
            Some(n) => n,
            None => return Err(Error::ParsingWifiConfig { s: text_of(&text) }),
        };
        let bssid = match lookup(&es, "bssid") {
            Some(v) => v,
            None => return Err(Error::ParsingWifiConfig { s: text_of(&text) }),
        };
        let ssid = match lookup(&es, "ssid") {
            Some(v) => v,
            None => return Err(Error::ParsingWifiConfig { s: text_of(&text) }),
        };
        let key_mgmt = match lookup(&es, "key_mgmt") {
            Some(v) => v,
            None => return Err(Error::ParsingWifiConfig { s: text_of(&text) }),
        };
        let group_cipher = match lookup(&es, "group_cipher") {
            Some(v) => v,
            None => return Err(Error::ParsingWifiConfig { s: text_of(&text) }),
        };
        let rsn_pairwise_cipher = match lookup(&es, "rsn_pairwise_cipher") {
            Some(v) => v,
            None => return Err(Error::ParsingWifiConfig { s: text_of(&text) }),
        };
        let wpa_pairwise_cipher = match lookup(&es, "wpa_pairwise_cipher") {
            Some(v) => v,
            None => return Err(Error::ParsingWifiConfig { s: text_of(&text) }),
        };
        Ok(Config {
            bssid,
            ssid,
            wps_state,
            wpa,
            key_mgmt,
            group_cipher,
            rsn_pairwise_cipher,
            wpa_pairwise_cipher,
        })
    }
}

} // verus!
