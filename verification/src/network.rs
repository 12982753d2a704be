//! The decisions of the WiFi/MQTT side of the controller: which access point
//! to join, the broker address, when to publish, and how calibration
//! acknowledgements are reported.
use vstd::prelude::*;
use crate::can_protocol::{ACK_TYPE_CALIBRATING, ACK_TYPE_ERROR, ACK_TYPE_OK};

verus! {

/// Only connect when the best visible access point for our SSID is at least
/// this strong (dBm).
pub const MIN_CONNECT_RSSI: i8 = -70;

/// Temperature is published at most once per this many seconds.
pub const TEMP_PUBLISH_INTERVAL_SECS: u64 = 30;

// ---------------------------------------------------------------------------
// Calibration acknowledgements
// ---------------------------------------------------------------------------

/// The status text published for a calibration acknowledgement value.
pub open spec fn spec_ack_type_str(ack: u32) -> Seq<char> {
    if ack == ACK_TYPE_CALIBRATING {
        "calibrating"@
    } else if ack == ACK_TYPE_OK {
        "ok"@
    } else if ack == ACK_TYPE_ERROR {
        "error"@
    } else {
        "none"@
    }
}

/// Names a calibration acknowledgement value; unknown values read "none".
pub fn ack_type_str(ack: u32) -> (r: &'static str)
    ensures
        r@ == spec_ack_type_str(ack),
{
    match ack {
        1 => "calibrating",
        2 => "ok",
        3 => "error",
        _ => "none",
    }
}

/// Law: the protocol's acknowledgement values get their names ("calibrating",
/// "ok", "error"), and every other value reads "none".
pub proof fn lemma_ack_names(ack: u32)
    ensures
        ack == 1 ==> spec_ack_type_str(ack) == "calibrating"@,
        ack == 2 ==> spec_ack_type_str(ack) == "ok"@,
        ack == 3 ==> spec_ack_type_str(ack) == "error"@,
        (ack == 0 || ack > 3) ==> spec_ack_type_str(ack) == "none"@,
{
}

// ---------------------------------------------------------------------------
// Temperature rate limit
// ---------------------------------------------------------------------------

/// Whether a new temperature is published at time `now`, given when the last
/// one was (`None`: not since the broker connection was made) and the least
/// time `interval` between two publications, all in the same clock ticks.
pub open spec fn spec_should_publish_temperature(last_publish: Option<u64>, now: u64, interval: u64) -> bool {
    match last_publish {
        None => true,
        Some(t) => now - t >= interval,
    }
}

/// Rate limit for temperature: publish when nothing was published since the
/// connection was made, or at least `interval` has passed since the last
/// publication (the controller uses `TEMP_PUBLISH_INTERVAL_SECS`).
pub fn should_publish_temperature(last_publish: Option<u64>, now: u64, interval: u64) -> (r: bool)
    requires
        last_publish matches Some(t) ==> t <= now,
    ensures
        r == spec_should_publish_temperature(last_publish, now, interval),
{
    match last_publish {
        None => true,
        Some(t) => now - t >= interval,
    }
}

// ---------------------------------------------------------------------------
// Broker address
// ---------------------------------------------------------------------------

/// The pieces of `s` between '.' separators, in order; a string without a
/// separator is one piece, and empty pieces are kept.
pub open spec fn split_dots(s: Seq<char>) -> Seq<Seq<char>>
    decreases s.len(),
{
    if s.len() == 0 {
        seq![Seq::<char>::empty()]
    } else {
        let parts = split_dots(s.drop_last());
        if s.last() == '.' {
            parts.push(Seq::<char>::empty())
        } else {
            parts.update(parts.len() - 1, parts.last().push(s.last()))
        }
    }
}

pub open spec fn is_digit(c: char) -> bool {
    '0' <= c && c <= '9'
}

/// The number that a string of decimal digits writes.
pub open spec fn decimal_value(d: Seq<char>) -> int
    decreases d.len(),
{
    if d.len() == 0 {
        0
    } else {
        decimal_value(d.drop_last()) * 10 + (d.last() as int - '0' as int)
    }
}

/// The digits of an octet string: everything after an optional leading '+'.
pub open spec fn octet_digits(s: Seq<char>) -> Seq<char> {
    if s.len() > 0 && s[0] == '+' {
        s.drop_first()
    } else {
        s
    }
}

pub open spec fn all_digits(d: Seq<char>) -> bool {
    forall|i: int| 0 <= i < d.len() ==> is_digit(#[trigger] d[i])
}

/// How `u8::from_str` reads `s`: an optional '+', then one or more decimal
/// digits (leading zeros allowed), whose value must not exceed 255.
pub open spec fn spec_parse_u8(s: Seq<char>) -> Option<u8> {
    let digits = octet_digits(s);
    if digits.len() > 0 && all_digits(digits) && decimal_value(digits) <= 255 {
        Some(decimal_value(digits) as u8)
    } else {
        None
    }
}

/// The address that a dotted IPv4 string denotes: exactly four '.'-separated
/// pieces, each read as a `u8`.
pub open spec fn spec_parse_ipv4(s: Seq<char>) -> Option<Seq<u8>> {
    let parts = split_dots(s);
    if parts.len() == 4 && spec_parse_u8(parts[0]) is Some && spec_parse_u8(parts[1]) is Some
        && spec_parse_u8(parts[2]) is Some && spec_parse_u8(parts[3]) is Some {
        Some(
            seq![
                spec_parse_u8(parts[0]).unwrap(),
                spec_parse_u8(parts[1]).unwrap(),
                spec_parse_u8(parts[2]).unwrap(),
                spec_parse_u8(parts[3]).unwrap(),
            ],
        )
    } else {
        None
    }
}

proof fn lemma_split_dots_nonempty(s: Seq<char>)
    ensures
        split_dots(s).len() >= 1,
    decreases s.len(),
{
    if s.len() > 0 {
        lemma_split_dots_nonempty(s.drop_last());
    }
}

/// Reads one octet the way `u8::from_str` does.
fn parse_u8(s: &Vec<char>) -> (r: Option<u8>)
    ensures
        r == spec_parse_u8(s@),
{
    let n = s.len();
    let start: usize = if n > 0 && s[0] == '+' {
        1
    } else {
        0
    };
    let ghost digits = octet_digits(s@);
    assert(digits =~= s@.subrange(start as int, n as int));
    if start >= n {
        return None;
    }
    // The value read so far, held at 256 once it exceeds 255.
    let mut v: u32 = 0;
    let mut i = start;
    while i < n
        invariant
            start <= i <= n,
            n == s@.len(),
            digits =~= s@.subrange(start as int, n as int),
            digits == octet_digits(s@),
            forall|k: int| start <= k < i ==> is_digit(#[trigger] s@[k]),
            v <= 256,
            v == (if decimal_value(s@.subrange(start as int, i as int)) <= 255 {
                decimal_value(s@.subrange(start as int, i as int))
            } else {
                256
            }),
            decimal_value(s@.subrange(start as int, i as int)) >= 0,
        decreases n - i,
    {
        let c = s[i];
        if !('0' <= c && c <= '9') {
            proof {
                assert(digits[i - start] == s@[i as int]);
                assert(!is_digit(digits[i - start]));
                assert(!all_digits(digits));
            }
            return None;
        }
        let d = (c as u32) - ('0' as u32);
        let ghost prev = decimal_value(s@.subrange(start as int, i as int));
        assert(s@.subrange(start as int, i + 1).drop_last() =~= s@.subrange(start as int, i as int));
        assert(decimal_value(s@.subrange(start as int, i + 1)) == prev * 10 + d);
        v = if v * 10 + d > 255 {
            256
        } else {
            v * 10 + d
        };
        i = i + 1;
    }
    assert(all_digits(digits)) by {
        assert forall|k: int| 0 <= k < digits.len() implies is_digit(#[trigger] digits[k]) by {
            assert(digits[k] == s@[k + start]);
        }
    }
    if v > 255 {
        None
    } else {
        Some(v as u8)
    }
}

/// Parses a dotted IPv4 address such as "192.168.1.100" into its four octets.
/// Fails unless there are exactly four '.'-separated pieces that each read as
/// a `u8` (optional '+', decimal digits, value at most 255).
pub fn parse_ipv4(s: &str) -> (r: Result<[u8; 4], ()>)
    ensures
        r is Ok <==> spec_parse_ipv4(s@) is Some,
        r matches Ok(a) ==> a@ == spec_parse_ipv4(s@).unwrap(),
{
    let n = s.unicode_len();
    let mut done: Vec<Vec<char>> = Vec::new();
    let mut cur: Vec<char> = Vec::new();
    let mut i: usize = 0;
    proof {
        assert(s@.take(0) =~= Seq::<char>::empty());
    }
    while i < n
        invariant
            i <= n,
            n == s@.len(),
            done@.len() + 1 == split_dots(s@.take(i as int)).len(),
            forall|j: int| 0 <= j < done@.len() ==> #[trigger] done@[j]@ == split_dots(
                s@.take(i as int),
            )[j],
            cur@ == split_dots(s@.take(i as int)).last(),
        decreases n - i,
    {
        let c = s.get_char(i);
        let ghost prev = split_dots(s@.take(i as int));
        proof {
            lemma_split_dots_nonempty(s@.take(i as int));
            assert(s@.take(i + 1).drop_last() =~= s@.take(i as int));
            assert(s@.take(i + 1).last() == c);
        }
        if c == '.' {
            let finished = cur;
            done.push(finished);
            cur = Vec::new();
            proof {
                assert(cur@ =~= Seq::<char>::empty());
            }
        } else {
            cur.push(c);
        }
        i = i + 1;
    }
    proof {
        assert(s@.take(n as int) =~= s@);
    }
    if done.len() != 3 {
        return Err(());
    }
    let a = parse_u8(&done[0]);
    let b = parse_u8(&done[1]);
    let c = parse_u8(&done[2]);
    let d = parse_u8(&cur);
    match (a, b, c, d) {
        (Some(a), Some(b), Some(c), Some(d)) => {
            let r = [a, b, c, d];
            assert(r@ =~= spec_parse_ipv4(s@).unwrap());
            Ok(r)
        },
        _ => Err(()),
    }
}

/// The character of decimal digit `d` (0-9).
pub open spec fn digit_char(d: nat) -> char {
    (48 + d) as char
}

/// The usual decimal writing of `v`: no sign, no leading zeros.
pub open spec fn decimal_digits(v: nat) -> Seq<char>
    decreases v,
{
    if v < 10 {
        seq![digit_char(v)]
    } else {
        decimal_digits(v / 10).push(digit_char(v % 10))
    }
}

/// `a.b.c.d` with each octet written in decimal.
pub open spec fn dotted_quad(a: u8, b: u8, c: u8, d: u8) -> Seq<char> {
    decimal_digits(a as nat) + seq!['.'] + decimal_digits(b as nat) + seq!['.'] + decimal_digits(
        c as nat,
    ) + seq!['.'] + decimal_digits(d as nat)
}

proof fn lemma_decimal_digits(v: nat)
    ensures
        decimal_digits(v).len() >= 1,
        all_digits(decimal_digits(v)),
        decimal_value(decimal_digits(v)) == v,
        decimal_digits(v)[0] != '+',
    decreases v,
{
    if v < 10 {
        let s = decimal_digits(v);
        assert(s.drop_last() =~= Seq::<char>::empty());
        assert(digit_char(v) as int == 48 + v);
        assert('0' as int == 48);
        assert(decimal_value(Seq::<char>::empty()) == 0);
    } else {
        lemma_decimal_digits(v / 10);
        let p = decimal_digits(v / 10);
        let s = decimal_digits(v);
        assert(s.drop_last() =~= p);
        assert(digit_char(v % 10) as int == 48 + v % 10);
        assert(v == (v / 10) * 10 + v % 10) by (nonlinear_arith);
        assert(decimal_value(s) == decimal_value(p) * 10 + (v % 10));
        assert forall|i: int| 0 <= i < s.len() implies is_digit(#[trigger] s[i]) by {
            if i < p.len() {
                assert(s[i] == p[i]);
            }
        }
        assert(s[0] == p[0]);
    }
}

proof fn lemma_split_append_no_dot(s: Seq<char>, t: Seq<char>)
    requires
        forall|i: int| 0 <= i < t.len() ==> #[trigger] t[i] != '.',
    ensures
        split_dots(s).len() >= 1,
        split_dots(s + t) == split_dots(s).update(
            split_dots(s).len() - 1,
            split_dots(s).last() + t,
        ),
    decreases t.len(),
{
    lemma_split_dots_nonempty(s);
    if t.len() == 0 {
        assert(s + t =~= s);
        assert(split_dots(s).last() + t =~= split_dots(s).last());
        assert(split_dots(s).update(split_dots(s).len() - 1, split_dots(s).last()) =~= split_dots(
            s,
        ));
    } else {
        let t0 = t.drop_last();
        assert forall|i: int| 0 <= i < t0.len() implies #[trigger] t0[i] != '.' by {
            assert(t0[i] == t[i]);
        }
        lemma_split_append_no_dot(s, t0);
        assert((s + t).drop_last() =~= s + t0);
        assert((s + t).last() == t.last());
        lemma_split_dots_nonempty(s + t0);
        let p = split_dots(s);
        assert(p.last() + t0 + seq![t.last()] =~= p.last() + t);
        assert((p.last() + t0).push(t.last()) =~= p.last() + t);
    }
}

proof fn lemma_split_push_dot(s: Seq<char>)
    ensures
        split_dots(s + seq!['.']) == split_dots(s).push(Seq::<char>::empty()),
{
    assert((s + seq!['.']).drop_last() =~= s);
}

proof fn lemma_digits_no_dot(v: nat)
    ensures
        forall|i: int| 0 <= i < decimal_digits(v).len() ==> #[trigger] decimal_digits(v)[i] != '.',
{
    lemma_decimal_digits(v);
    assert forall|i: int| 0 <= i < decimal_digits(v).len() implies #[trigger] decimal_digits(v)[i]
        != '.' by {
        assert(is_digit(decimal_digits(v)[i]));
    }
}

proof fn lemma_octet_parse(v: nat)
    ensures
        v <= 255 ==> spec_parse_u8(decimal_digits(v)) == Some(v as u8),
        v > 255 ==> spec_parse_u8(decimal_digits(v)) is None,
{
    lemma_decimal_digits(v);
}

/// The pieces of four decimal numbers joined by dots are those numbers.
proof fn lemma_split_four(w: nat, x: nat, y: nat, z: nat)
    ensures
        split_dots(
            decimal_digits(w) + seq!['.'] + decimal_digits(x) + seq!['.'] + decimal_digits(y) + seq![
                '.',
            ] + decimal_digits(z),
        ) == seq![decimal_digits(w), decimal_digits(x), decimal_digits(y), decimal_digits(z)],
{
    let e = Seq::<char>::empty();
    lemma_digits_no_dot(w);
    lemma_digits_no_dot(x);
    lemma_digits_no_dot(y);
    lemma_digits_no_dot(z);
    let s0 = e + decimal_digits(w);
    assert(s0 =~= decimal_digits(w));
    lemma_split_append_no_dot(e, decimal_digits(w));
    assert(split_dots(e) == seq![e]);
    assert(split_dots(s0) =~= seq![decimal_digits(w)]);
    let s1 = s0 + seq!['.'];
    lemma_split_push_dot(s0);
    let s2 = s1 + decimal_digits(x);
    lemma_split_append_no_dot(s1, decimal_digits(x));
    assert(split_dots(s2) =~= seq![decimal_digits(w), decimal_digits(x)]);
    let s3 = s2 + seq!['.'];
    lemma_split_push_dot(s2);
    let s4 = s3 + decimal_digits(y);
    lemma_split_append_no_dot(s3, decimal_digits(y));
    assert(split_dots(s4) =~= seq![decimal_digits(w), decimal_digits(x), decimal_digits(y)]);
    let s5 = s4 + seq!['.'];
    lemma_split_push_dot(s4);
    let s6 = s5 + decimal_digits(z);
    lemma_split_append_no_dot(s5, decimal_digits(z));
    assert(split_dots(s6) =~= seq![
        decimal_digits(w),
        decimal_digits(x),
        decimal_digits(y),
        decimal_digits(z),
    ]);
}

/// Law: an address written the usual way, four octets in decimal separated
/// by dots, parses to exactly those octets.
pub proof fn lemma_dotted_quad_parses(a: u8, b: u8, c: u8, d: u8)
    ensures
        spec_parse_ipv4(dotted_quad(a, b, c, d)) == Some(seq![a, b, c, d]),
{
    lemma_split_four(a as nat, b as nat, c as nat, d as nat);
    lemma_octet_parse(a as nat);
    lemma_octet_parse(b as nat);
    lemma_octet_parse(c as nat);
    lemma_octet_parse(d as nat);
}

/// Law: a dotted address with a number above 255 in any position is refused.
pub proof fn lemma_large_octet_refused(w: nat, x: nat, y: nat, z: nat)
    requires
        w > 255 || x > 255 || y > 255 || z > 255,
    ensures
        spec_parse_ipv4(
            decimal_digits(w) + seq!['.'] + decimal_digits(x) + seq!['.'] + decimal_digits(y) + seq![
                '.',
            ] + decimal_digits(z),
        ) is None,
{
    lemma_split_four(w, x, y, z);
    lemma_octet_parse(w);
    lemma_octet_parse(x);
    lemma_octet_parse(y);
    lemma_octet_parse(z);
}

/// Law: an address needs exactly four pieces: a string with no dot at all, or
/// one with a fifth piece after four dotted octets, is refused.
pub proof fn lemma_piece_count_refused(s: Seq<char>, a: u8, b: u8, c: u8, d: u8)
    requires
        forall|i: int| 0 <= i < s.len() ==> #[trigger] s[i] != '.',
    ensures
        spec_parse_ipv4(s) is None,
        spec_parse_ipv4(dotted_quad(a, b, c, d) + seq!['.'] + s) is None,
{
    let e = Seq::<char>::empty();
    lemma_split_append_no_dot(e, s);
    assert(e + s =~= s);
    assert(split_dots(e) == seq![e]);
    let q = dotted_quad(a, b, c, d);
    lemma_split_four(a as nat, b as nat, c as nat, d as nat);
    lemma_split_push_dot(q);
    lemma_split_append_no_dot(q + seq!['.'], s);
}

// ---------------------------------------------------------------------------
// Access point selection
// ---------------------------------------------------------------------------

/// An access point seen in a WiFi scan.
#[derive(Debug)]
pub struct AccessPoint {
    pub ssid: String,
    pub bssid: [u8; 6],
    pub channel: u8,
    pub signal_strength: i8,
}

/// What the connection task does after a scan.
#[derive(Clone, Copy, Debug)]
pub enum ConnectDecision {
    /// No access point broadcasts our SSID: retry later.
    SsidNotFound,
    /// The strongest access point for our SSID is below `MIN_CONNECT_RSSI`: retry later.
    SignalTooWeak { rssi: i8 },
    /// Pin to this access point and connect.
    Connect { bssid: [u8; 6], channel: u8, rssi: i8 },
}

pub open spec fn ap_matches(ap: AccessPoint, ssid: Seq<char>) -> bool {
    ap.ssid@ == ssid
}

pub open spec fn any_match(aps: Seq<AccessPoint>, ssid: Seq<char>) -> bool {
    exists|j: int| 0 <= j < aps.len() && ap_matches(#[trigger] aps[j], ssid)
}

/// `aps[i]` is the access point that `max_by_key` on the signal strength
/// picks among those with our SSID: the strongest, and of equally strong ones
/// the last.
pub open spec fn is_strongest_match(aps: Seq<AccessPoint>, ssid: Seq<char>, i: int) -> bool {
    &&& 0 <= i < aps.len()
    &&& ap_matches(aps[i], ssid)
    &&& forall|j: int|
        0 <= j < aps.len() && ap_matches(#[trigger] aps[j], ssid) ==> aps[j].signal_strength
            <= aps[i].signal_strength
    &&& forall|j: int|
        i < j < aps.len() && ap_matches(#[trigger] aps[j], ssid) ==> aps[j].signal_strength
            < aps[i].signal_strength
}

/// The decision for a scan: no match, too weak, or connect to the strongest match.
pub open spec fn spec_connection_decision(aps: Seq<AccessPoint>, ssid: Seq<char>) -> ConnectDecision {
    if !any_match(aps, ssid) {
        ConnectDecision::SsidNotFound
    } else {
        let i = choose|i: int| is_strongest_match(aps, ssid, i);
        let ap = aps[i];
        if ap.signal_strength < MIN_CONNECT_RSSI {
            ConnectDecision::SignalTooWeak { rssi: ap.signal_strength }
        } else {
            ConnectDecision::Connect {
                bssid: ap.bssid,
                channel: ap.channel,
                rssi: ap.signal_strength,
            }
        }
    }
}

/// Law: at most one access point is the strongest match.
pub proof fn lemma_strongest_match_unique(aps: Seq<AccessPoint>, ssid: Seq<char>, i: int, k: int)
    requires
        is_strongest_match(aps, ssid, i),
        is_strongest_match(aps, ssid, k),
    ensures
        i == k,
{
    if i < k {
        assert(aps[k].signal_strength < aps[i].signal_strength);
        assert(aps[i].signal_strength <= aps[k].signal_strength);
    } else if k < i {
        assert(aps[i].signal_strength < aps[k].signal_strength);
        assert(aps[k].signal_strength <= aps[i].signal_strength);
    }
}

fn str_eq(a: &str, b: &str) -> (r: bool)
    ensures
        r == (a@ == b@),
{
    let n = a.unicode_len();
    if n != b.unicode_len() {
        return false;
    }
    let mut i: usize = 0;
    while i < n
        invariant
            i <= n,
            n == a@.len(),
            n == b@.len(),
            forall|k: int| 0 <= k < i ==> a@[k] == b@[k],
        decreases n - i,
    {
        if a.get_char(i) != b.get_char(i) {
            return false;
        }
        i = i + 1;
    }
    assert(a@ =~= b@);
    true
}

/// Finds the access point that broadcasts `ssid` with the strongest signal
/// (the last one of equally strong ones), if any does.
pub fn strongest_access_point(aps: &Vec<AccessPoint>, ssid: &str) -> (r: Option<usize>)
    ensures
        r is None <==> !any_match(aps@, ssid@),
        r matches Some(i) ==> is_strongest_match(aps@, ssid@, i as int),
{
    let mut best: Option<usize> = None;
    let mut i: usize = 0;
    while i < aps.len()
        invariant
            i <= aps@.len(),
            best is None <==> !(exists|j: int| 0 <= j < i && ap_matches(#[trigger] aps@[j], ssid@)),
            best matches Some(b) ==> {
                &&& b < i
                &&& ap_matches(aps@[b as int], ssid@)
                &&& forall|j: int|
                    0 <= j < i && ap_matches(#[trigger] aps@[j], ssid@) ==> aps@[j].signal_strength
                        <= aps@[b as int].signal_strength
                &&& forall|j: int|
                    b < j < i && ap_matches(#[trigger] aps@[j], ssid@) ==> aps@[j].signal_strength
                        < aps@[b as int].signal_strength
            },
        decreases aps@.len() - i,
    {
        let ap = &aps[i];
        if str_eq(ap.ssid.as_str(), ssid) {
            let replace = match best {
                None => true,
                Some(b) => ap.signal_strength >= aps[b].signal_strength,
            };
            if replace {
                best = Some(i);
            }
        }
        i = i + 1;
    }
    best
}

/// Decides what to do after a scan: connect to the strongest access point
/// for `ssid` when its signal is at least `MIN_CONNECT_RSSI`.
pub fn connection_decision(aps: &Vec<AccessPoint>, ssid: &str) -> (d: ConnectDecision)
    ensures
        d == spec_connection_decision(aps@, ssid@),
        d is SsidNotFound <==> !any_match(aps@, ssid@),
        forall|j: int|
            0 <= j < aps@.len() && ap_matches(#[trigger] aps@[j], ssid@) ==> match d {
                ConnectDecision::SsidNotFound => false,
                ConnectDecision::SignalTooWeak { rssi } => aps@[j].signal_strength <= rssi && rssi
                    < MIN_CONNECT_RSSI,
                ConnectDecision::Connect { rssi, .. } => aps@[j].signal_strength <= rssi && rssi
                    >= MIN_CONNECT_RSSI,
            },
{
    match strongest_access_point(aps, ssid) {
        None => ConnectDecision::SsidNotFound,
        Some(i) => {
            proof {
                let k = choose|k: int| is_strongest_match(aps@, ssid@, k);
                lemma_strongest_match_unique(aps@, ssid@, i as int, k);
            }
            let ap = &aps[i];
            if ap.signal_strength < MIN_CONNECT_RSSI {
                ConnectDecision::SignalTooWeak { rssi: ap.signal_strength }
            } else {
                ConnectDecision::Connect {
                    bssid: ap.bssid,
                    channel: ap.channel,
                    rssi: ap.signal_strength,
                }
            }
        },
    }
}

/// Among the first `n` access points, `aps[i]` is a strongest one broadcasting `ssid`.
pub open spec fn strongest_among_first(aps: Seq<AccessPoint>, ssid: Seq<char>, n: int, i: int) -> bool {
    &&& 0 <= i < n
    &&& ap_matches(aps[i], ssid)
    &&& forall|j: int|
        0 <= j < n && ap_matches(#[trigger] aps[j], ssid) ==> aps[j].signal_strength
            <= aps[i].signal_strength
}

proof fn lemma_strongest_among_first_exists(aps: Seq<AccessPoint>, ssid: Seq<char>, n: int, k: int)
    requires
        0 <= k < n <= aps.len(),
        ap_matches(aps[k], ssid),
    ensures
        exists|i: int| #[trigger] strongest_among_first(aps, ssid, n, i),
    decreases n,
{
    if k == n - 1 && !(exists|j: int| 0 <= j < n - 1 && ap_matches(#[trigger] aps[j], ssid)) {
        assert(strongest_among_first(aps, ssid, n, n - 1));
    } else {
        let k2 = if k < n - 1 {
            k
        } else {
            choose|j: int| 0 <= j < n - 1 && ap_matches(#[trigger] aps[j], ssid)
        };
        lemma_strongest_among_first_exists(aps, ssid, n - 1, k2);
        let i = choose|i: int| #[trigger] strongest_among_first(aps, ssid, n - 1, i);
        if ap_matches(aps[n - 1], ssid) && aps[n - 1].signal_strength >= aps[i].signal_strength {
            assert(strongest_among_first(aps, ssid, n, n - 1));
        } else {
            assert(strongest_among_first(aps, ssid, n, i));
        }
    }
}

/// Law: the decision after a scan is taken on the access point with the
/// strongest signal among those broadcasting `ssid`: it connects to that one
/// exactly when its strength is at least `MIN_CONNECT_RSSI`, and otherwise
/// reports that strength as too weak; with no such access point it reports
/// the SSID as not found.
pub proof fn lemma_decision_on_strongest(aps: Seq<AccessPoint>, ssid: Seq<char>)
    ensures
        !(exists|j: int| 0 <= j < aps.len() && ap_matches(#[trigger] aps[j], ssid))
            ==> spec_connection_decision(aps, ssid) is SsidNotFound,
        (exists|j: int| 0 <= j < aps.len() && ap_matches(#[trigger] aps[j], ssid)) ==> exists|
            i: int,
        |
            #![trigger aps[i]]
            0 <= i < aps.len() && ap_matches(aps[i], ssid) && (forall|j: int|
                0 <= j < aps.len() && ap_matches(#[trigger] aps[j], ssid)
                    ==> aps[j].signal_strength <= aps[i].signal_strength)
                && spec_connection_decision(aps, ssid) == (if aps[i].signal_strength
                < MIN_CONNECT_RSSI {
                ConnectDecision::SignalTooWeak { rssi: aps[i].signal_strength }
            } else {
                ConnectDecision::Connect {
                    bssid: aps[i].bssid,
                    channel: aps[i].channel,
                    rssi: aps[i].signal_strength,
                }
            }),
{
    if exists|j: int| 0 <= j < aps.len() && ap_matches(#[trigger] aps[j], ssid) {
        let k = choose|j: int| 0 <= j < aps.len() && ap_matches(#[trigger] aps[j], ssid);
        lemma_strongest_among_first_exists(aps, ssid, aps.len() as int, k);
        let i0 = choose|i: int| #[trigger] strongest_among_first(aps, ssid, aps.len() as int, i);
        // the last of the strongest ones is the chosen access point
        lemma_last_strongest_exists(aps, ssid, i0);
        assert(any_match(aps, ssid));
    }
}

proof fn lemma_last_strongest_exists(aps: Seq<AccessPoint>, ssid: Seq<char>, i0: int)
    requires
        strongest_among_first(aps, ssid, aps.len() as int, i0),
    ensures
        exists|i: int| #[trigger] is_strongest_match(aps, ssid, i),
    decreases aps.len() - i0,
{
    if exists|j: int| i0 < j < aps.len() && ap_matches(#[trigger] aps[j], ssid) && aps[j].signal_strength
        >= aps[i0].signal_strength {
        let j = choose|j: int|
            i0 < j < aps.len() && ap_matches(#[trigger] aps[j], ssid) && aps[j].signal_strength
                >= aps[i0].signal_strength;
        assert(strongest_among_first(aps, ssid, aps.len() as int, j));
        lemma_last_strongest_exists(aps, ssid, j);
    } else {
        assert(is_strongest_match(aps, ssid, i0));
    }
}

/// Law: an access point that does not broadcast `ssid` never influences the
/// decision, and one that does is never ignored in favour of a weaker one.
pub proof fn lemma_decision_rssi_is_maximum(aps: Seq<AccessPoint>, ssid: Seq<char>, j: int)
    requires
        0 <= j < aps.len(),
        ap_matches(aps[j], ssid),
    ensures
        match spec_connection_decision(aps, ssid) {
            ConnectDecision::SsidNotFound => false,
            ConnectDecision::SignalTooWeak { rssi } => aps[j].signal_strength <= rssi && rssi
                < MIN_CONNECT_RSSI,
            ConnectDecision::Connect { rssi, .. } => aps[j].signal_strength <= rssi && rssi
                >= MIN_CONNECT_RSSI,
        },
{
    lemma_decision_on_strongest(aps, ssid);
}

/// Law: once at least `interval` has passed since the last publication the
/// temperature is published, and before that it is not; after a (re)connect
/// (no last publication) it is published at once.
pub proof fn lemma_publish_after_interval(t: u64, now: u64, interval: u64)
    requires
        t <= now,
    ensures
        spec_should_publish_temperature(None, now, interval),
        now >= t + interval ==> spec_should_publish_temperature(Some(t), now, interval),
        now < t + interval ==> !spec_should_publish_temperature(Some(t), now, interval),
{
}

/// Law: waiting longer never withholds a publication that was due.
pub proof fn lemma_publish_monotonic(t: u64, now: u64, later: u64, interval: u64)
    requires
        t <= now <= later,
        spec_should_publish_temperature(Some(t), now, interval),
    ensures
        spec_should_publish_temperature(Some(t), later, interval),
{
}

} // verus!
