//! What the app believes about the headset, and everything that reads off that belief:
//! the tooltip, the icon's color and shape, and the decision to notify.

use vstd::prelude::*;

use crate::chars::{
    char_utf16_width, in_bmp, lemma_bmp_concat, lemma_bmp_len, lemma_utf16_len_bounds, lemma_utf16_len_concat,
    str_chars, utf16_len, utf16_width,
};
use crate::numfmt::{
    decimal, hex2, lemma_decimal_bmp, lemma_decimal_digits, lemma_decimal_u64_len, lemma_decimal_u8_len,
    lemma_hex2_bmp, lemma_number_reads_back, push_decimal, push_hex2,
};
use crate::protocol::{
    BATT_CHARGING, BATT_DISCHARGING, BT_CONN_CONNECTED, BT_CONN_PAIRING, BT_CONN_UNCONNECTED, BT_OFF, BT_ON,
};
use crate::text::{
    bluetooth_connected, bluetooth_connected_text, bluetooth_off, bluetooth_off_text, bluetooth_pairing,
    bluetooth_pairing_text, bluetooth_unconnected, bluetooth_unconnected_text, notify_battery_critical,
    notify_battery_critical_text, notify_battery_low, notify_battery_low_text, notify_off, notify_off_text,
    notify_on, notify_on_text, notify_on_with_battery, notify_on_with_battery_text, notify_pairing,
    notify_pairing_text, power_text, tip_error, tip_error_text, tip_hub_busy, tip_hub_busy_text, tip_no_dongle,
    tip_no_dongle_text, tip_off, tip_off_text, tip_on, tip_on_text, tip_pairing, tip_pairing_text,
    lemma_battery_warnings_differ, Lang,
};

verus! {

/// The headset's Bluetooth side, independent of the 2.4 GHz link: the feature can be on
/// while nothing is paired to it.
#[derive(PartialEq, Eq, Clone, Copy, Debug, Structural)]
pub enum Bt {
    Off,
    Unconnected,
    Pairing,
    Connected,
}

/// Where the Bluetooth state goes on the icon: a corner mark of its own, since the color is
/// already carrying power and battery.
#[derive(PartialEq, Eq, Clone, Copy, Debug, Structural)]
pub enum Badge {
    /// No mark: Bluetooth is off, or we never heard about it.
    Absent,
    Hollow,
    Filled,
}

/// Why a poll came back without a reading: a cause rather than a sentence, so the transport
/// does not decide how the tray words things. The variants that carry text carry someone
/// else's (a Windows message, or a decode failure), which is quoted, never composed.
#[derive(PartialEq, Eq, Clone, Debug)]
pub enum Cause {
    /// DTR could not be asserted, so the exchange was abandoned before a byte went out.
    Dtr(String),
    /// The serial ports could not be listed.
    Enumerate(String),
    /// Opening the port failed for a reason other than another process holding it.
    Open(String),
    /// A read or a write failed mid-exchange.
    Io(String),
    /// The port went away under us.
    PortClosed,
    /// The exchange ended without a usable reply. `detail` is the first decode failure, if
    /// any; `unusable` counts every byte that arrived during it.
    NoReply { detail: Option<String>, unusable: usize },
    /// A reply arrived where a parameter was required, and carried none.
    EmptyReply,
    /// The receiver named a link state we have no meaning for.
    UnknownLink(u8),
    /// The poller is gone, so every reading from here on would be stale.
    PollerStopped,
}

#[derive(PartialEq, Eq, Clone, Debug)]
pub enum State {
    /// The receiver answered: the headset is not powered on or not linked.
    Off,
    Pairing,
    On { battery: Option<u8>, charging: bool, bt: Option<Bt> },
    /// The port exists but another process holds it, in practice INZONE Hub.
    HubBusy,
    /// No port on the list was the receiver. `unidentified` counts the entries that could
    /// not be identified at all, which the receiver may be one of.
    NoDongle { unidentified: usize },
    Error(Cause),
}

/// Longest run of someone else's text to quote inside a tooltip, in UTF-16 units. The shell
/// holds 128 of them and truncates without a word.
pub const QUOTED_MAX_UNITS: usize = 60;

/// How many leading characters of `s`, from `i` on with `units` already spent, fit in the
/// quoting budget.
pub open spec fn fit_from(s: Seq<char>, i: int, units: nat) -> int
    decreases s.len() - i,
{
    if i < 0 || i >= s.len() || units + utf16_width(s[i]) > QUOTED_MAX_UNITS {
        i
    } else {
        fit_from(s, i + 1, units + utf16_width(s[i]))
    }
}

/// Someone else's text, cut to the budget: the longest prefix that fits, with an ellipsis
/// when anything was cut.
pub open spec fn quote(s: Seq<char>) -> Seq<char> {
    let k = fit_from(s, 0, 0);
    if k >= s.len() {
        s
    } else {
        s.take(k).push('…')
    }
}

proof fn lemma_fit_from(s: Seq<char>, i: int, units: nat)
    requires
        0 <= i <= s.len(),
        units == utf16_len(s.take(i)),
        units <= QUOTED_MAX_UNITS,
    ensures
        i <= fit_from(s, i, units) <= s.len(),
        utf16_len(s.take(fit_from(s, i, units))) <= QUOTED_MAX_UNITS,
        fit_from(s, i, units) < s.len() ==> utf16_len(s.take(fit_from(s, i, units) + 1)) > QUOTED_MAX_UNITS,
    decreases s.len() - i,
{
    if i < s.len() {
        assert(s.take(i + 1).drop_last() =~= s.take(i));
        if units + utf16_width(s[i]) <= QUOTED_MAX_UNITS {
            lemma_fit_from(s, i + 1, units + utf16_width(s[i]));
        }
    }
}

/// A quote is never longer than the budget plus its one-unit ellipsis, and text that fits is
/// passed through untouched.
pub proof fn lemma_quote_fits(s: Seq<char>)
    ensures
        utf16_len(quote(s)) <= QUOTED_MAX_UNITS + 1,
        utf16_len(s) <= QUOTED_MAX_UNITS ==> quote(s) == s,
{
    assert(s.take(0) =~= Seq::<char>::empty());
    lemma_fit_from(s, 0, 0);
    let k = fit_from(s, 0, 0);
    if k < s.len() {
        assert(s.take(k).push('…').drop_last() =~= s.take(k));
        lemma_take_utf16_monotone(s, k + 1);
    } else {
        assert(s.take(k) =~= s);
    }
}

proof fn lemma_take_utf16_monotone(s: Seq<char>, j: int)
    requires
        0 <= j <= s.len(),
    ensures
        forall|i: int| 0 <= i <= j ==> utf16_len(#[trigger] s.take(i)) <= utf16_len(s.take(j)),
        utf16_len(s.take(j)) <= utf16_len(s),
    decreases s.len() - j,
{
    if j < s.len() {
        lemma_take_utf16_monotone(s, j + 1);
        assert(s.take(j + 1).drop_last() =~= s.take(j));
    } else {
        assert(s.take(j) =~= s);
    }
    assert forall|i: int| 0 <= i <= j implies utf16_len(#[trigger] s.take(i)) <= utf16_len(s.take(j)) by {
        lemma_take_utf16_step(s, i, j);
    }
}

proof fn lemma_take_utf16_step(s: Seq<char>, i: int, j: int)
    requires
        0 <= i <= j <= s.len(),
    ensures
        utf16_len(s.take(i)) <= utf16_len(s.take(j)),
    decreases j - i,
{
    if i < j {
        lemma_take_utf16_step(s, i, j - 1);
        assert(s.take(j).drop_last() =~= s.take(j - 1));
    }
}

/// Quotes someone else's text, cut to what a tooltip can afford. The budget is counted in
/// UTF-16 units, the shell's own ruler: characters would let astral text through at twice
/// the budget, and bytes would cut inside a character.
fn quote_str(s: &str) -> (q: String)
    ensures
        q@ == quote(s@),
{
    let cs = str_chars(s);
    let mut i: usize = 0;
    let mut units: usize = 0;
    while i < cs.len()
        invariant_except_break
            cs@ == s@,
            i <= cs@.len(),
            units <= QUOTED_MAX_UNITS,
            fit_from(s@, 0, 0) == fit_from(s@, i as int, units as nat),
        ensures
            cs@ == s@,
            i <= cs@.len(),
            fit_from(s@, 0, 0) == i,
        decreases cs@.len() - i,
    {
        let w = char_utf16_width(cs[i]);
        if units + w > QUOTED_MAX_UNITS {
            break;
        }
        units = units + w;
        i = i + 1;
    }
    if i >= cs.len() {
        String::from_str(s)
    } else {
        let mut q = String::from_str(s.substring_char(0, i));
        q.append("…");
        proof {
            reveal_strlit("…");
            assert(s@.subrange(0, i as int) =~= s@.take(i as int));
        }
        q
    }
}

/// The reason behind an error state, short enough to sit inside a tooltip. English in every
/// language: it is what a person quotes into a bug report.
pub open spec fn describe_cause(c: Cause) -> Seq<char> {
    match c {
        Cause::Dtr(e) => "cannot assert DTR: "@ + quote(e@),
        Cause::Enumerate(e) => "cannot list serial ports: "@ + quote(e@),
        Cause::Open(e) => quote(e@),
        Cause::Io(e) => quote(e@),
        Cause::PortClosed => "port closed"@,
        Cause::NoReply { detail, unusable } => match detail {
            Some(e) => if unusable == 0 {
                quote(e@)
            } else {
                quote(e@) + " ("@ + decimal(unusable as nat) + " bytes unusable)"@
            },
            None => if unusable == 0 {
                "no reply"@
            } else {
                "no usable reply ("@ + decimal(unusable as nat) + " bytes)"@
            },
        },
        Cause::EmptyReply => "empty reply"@,
        Cause::UnknownLink(v) => "unknown link state 0x"@ + hex2(v),
        Cause::PollerStopped => "poller stopped"@,
    }
}

impl Cause {
    /// The reason, in a form short enough to sit inside a tooltip.
    pub fn describe(&self) -> (s: String)
        ensures
            s@ == describe_cause(*self),
    {
        match self {
            Cause::Dtr(e) => {
                let mut s = String::from_str("cannot assert DTR: ");
                let q = quote_str(e.as_str());
                s.append(q.as_str());
                s
            },
            Cause::Enumerate(e) => {
                let mut s = String::from_str("cannot list serial ports: ");
                let q = quote_str(e.as_str());
                s.append(q.as_str());
                s
            },
            Cause::Open(e) => quote_str(e.as_str()),
            Cause::Io(e) => quote_str(e.as_str()),
            Cause::PortClosed => String::from_str("port closed"),
            Cause::NoReply { detail, unusable } => match detail {
                Some(e) => {
                    let mut s = quote_str(e.as_str());
                    if *unusable != 0 {
                        s.append(" (");
                        push_decimal(&mut s, *unusable as u64);
                        s.append(" bytes unusable)");
                    }
                    s
                },
                None => {
                    if *unusable == 0 {
                        String::from_str("no reply")
                    } else {
                        let mut s = String::from_str("no usable reply (");
                        push_decimal(&mut s, *unusable as u64);
                        s.append(" bytes)");
                        s
                    }
                },
            },
            Cause::EmptyReply => String::from_str("empty reply"),
            Cause::UnknownLink(v) => {
                let mut s = String::from_str("unknown link state 0x");
                push_hex2(&mut s, *v);
                s
            },
            Cause::PollerStopped => String::from_str("poller stopped"),
        }
    }
}

/// The Bluetooth clause of the tooltip.
pub open spec fn bt_text(lang: Lang, bt: Bt) -> Seq<char> {
    match bt {
        Bt::Connected => bluetooth_connected_text(lang),
        Bt::Pairing => bluetooth_pairing_text(lang),
        Bt::Unconnected => bluetooth_unconnected_text(lang),
        Bt::Off => bluetooth_off_text(lang),
    }
}

/// The tooltip for a state.
pub open spec fn tooltip_text(s: State, lang: Lang) -> Seq<char> {
    match s {
        State::Off => tip_off_text(lang),
        State::Pairing => tip_pairing_text(lang),
        State::On { battery, charging, bt } => tip_on_text(
            lang,
            battery,
            charging,
            match bt {
                Some(b) => Some(bt_text(lang, b)),
                None => None,
            },
        ),
        State::HubBusy => tip_hub_busy_text(lang),
        State::NoDongle { unidentified } => tip_no_dongle_text(lang, unidentified),
        State::Error(c) => tip_error_text(lang, describe_cause(c)),
    }
}

/// The badge for a state: only a Bluetooth answer puts a mark on the icon, so an absent mark
/// is never a claim that Bluetooth is off.
pub open spec fn badge_of(s: State) -> Badge {
    match s {
        State::On { bt: Some(Bt::Connected), .. } => Badge::Filled,
        State::On { bt: Some(Bt::Unconnected), .. } => Badge::Hollow,
        State::On { bt: Some(Bt::Pairing), .. } => Badge::Hollow,
        _ => Badge::Absent,
    }
}

/// Whether the headset is powered, where the receiver actually told us.
pub open spec fn powered_of(s: State) -> Option<bool> {
    match s {
        State::On { .. } => Some(true),
        State::Pairing => Some(true),
        State::Off => Some(false),
        _ => None,
    }
}

/// Whether the icon is drawn as a ring: the states where we have no real answer.
pub open spec fn hollow_of(s: State) -> bool {
    match s {
        State::NoDongle { .. } => true,
        State::Error(_) => true,
        State::HubBusy => true,
        _ => false,
    }
}

/// Battery levels at or below these announce, and they are the same two the icon turns
/// amber and red on.
pub const BATTERY_LOW: u8 = 35;
pub const BATTERY_CRITICAL: u8 = 15;
/// How far above a threshold the level has to climb before that warning can fire again.
pub const BATTERY_HYSTERESIS: u8 = 5;

pub const GREEN: [u8; 3] = [0x22, 0xC5, 0x5E];
pub const AMBER: [u8; 3] = [0xF5, 0x9E, 0x0B];
pub const RED: [u8; 3] = [0xEF, 0x44, 0x44];
pub const BLUE: [u8; 3] = [0x3B, 0x82, 0xF6];
pub const GRAY: [u8; 3] = [0x8A, 0x8A, 0x94];
pub const VIOLET: [u8; 3] = [0xA7, 0x8B, 0xFA];
pub const DIM_GRAY: [u8; 3] = [0x71, 0x71, 0x7A];
/// What a charging color is washed towards.
pub const PAPER: [u8; 3] = [0xF8, 0xFA, 0xFC];
/// The Bluetooth badge.
pub const BT_BLUE: [u8; 3] = [0x2E, 0x9B, 0xFF];

/// 0 is fine, 1 is low, 2 is nearly flat. `slack` raises both thresholds, which is how a
/// band is held on to until the level has clearly escaped it.
pub open spec fn severity_of(level: u8, slack: u8) -> u8 {
    if level as int <= BATTERY_CRITICAL as int + slack as int {
        2
    } else if level as int <= BATTERY_LOW as int + slack as int {
        1
    } else {
        0
    }
}

pub fn severity(level: u8, slack: u8) -> (s: u8)
    ensures
        s == severity_of(level, slack),
{
    if (level as u16) <= BATTERY_CRITICAL as u16 + slack as u16 {
        2
    } else if (level as u16) <= BATTERY_LOW as u16 + slack as u16 {
        1
    } else {
        0
    }
}

/// The band a level falls in, on the same two thresholds the warning uses.
pub open spec fn band_of(battery: Option<u8>) -> [u8; 3] {
    match battery {
        Some(b) => if b <= BATTERY_CRITICAL {
            RED
        } else if b <= BATTERY_LOW {
            AMBER
        } else {
            GREEN
        },
        None => GREEN,
    }
}

pub fn band_color(battery: Option<u8>) -> (c: [u8; 3])
    ensures
        c == band_of(battery),
{
    match battery {
        Some(b) => if b <= BATTERY_CRITICAL {
            RED
        } else if b <= BATTERY_LOW {
            AMBER
        } else {
            GREEN
        },
        None => GREEN,
    }
}

/// One channel washed 60% of the way towards paper, rounded to the nearest integer:
/// `c + (p - c) * 0.6 = (2c + 3p) / 5`, whose fraction is a fifth and so never a tie.
pub open spec fn wash(c: u8, p: u8) -> u8 {
    ((2 * c as int + 3 * p as int + 2) / 5) as u8
}

/// How a charging color is lit: every channel washed towards `PAPER`, which measured
/// against every band keeps a contrast ratio of 1.5 or better from the band it came from.
pub fn lighten(color: [u8; 3]) -> (c: [u8; 3])
    ensures
        c@ == seq![wash(color[0], PAPER[0]), wash(color[1], PAPER[1]), wash(color[2], PAPER[2])],
{
    let r = ((2 * color[0] as u16 + 3 * PAPER[0] as u16 + 2) / 5) as u8;
    let g = ((2 * color[1] as u16 + 3 * PAPER[1] as u16 + 2) / 5) as u8;
    let b = ((2 * color[2] as u16 + 3 * PAPER[2] as u16 + 2) / 5) as u8;
    let c = [r, g, b];
    assert(c@ =~= seq![wash(color[0], PAPER[0]), wash(color[1], PAPER[1]), wash(color[2], PAPER[2])]);
    c
}

/// The icon's fill color: the battery band while on (lit while charging, except at full),
/// and a fixed color for every other state.
pub open spec fn color_of(s: State) -> Seq<u8> {
    match s {
        State::On { battery, charging, .. } => if charging && battery != Some(100u8) {
            seq![
                wash(band_of(battery)[0], PAPER[0]),
                wash(band_of(battery)[1], PAPER[1]),
                wash(band_of(battery)[2], PAPER[2]),
            ]
        } else {
            band_of(battery)@
        },
        State::Pairing => BLUE@,
        State::Off => GRAY@,
        State::HubBusy => VIOLET@,
        _ => DIM_GRAY@,
    }
}

/// What part of the notification a state announces, when it is one we announce at all.
pub open spec fn notification_body_text(s: State, lang: Lang) -> Option<Seq<char>> {
    match s {
        State::On { battery: Some(b), .. } => Some(notify_on_with_battery_text(lang, b)),
        State::On { battery: None, .. } => Some(notify_on_text(lang)),
        State::Pairing => Some(notify_pairing_text(lang)),
        State::Off => Some(notify_off_text(lang)),
        _ => None,
    }
}

impl State {
    pub fn tooltip(&self, lang: Lang) -> (s: String)
        ensures
            s@ == tooltip_text(*self, lang),
    {
        match self {
            State::Off => tip_off(lang),
            State::Pairing => tip_pairing(lang),
            State::On { battery, charging, bt } => {
                let bluetooth: Option<&str> = match bt {
                    Some(Bt::Connected) => Some(bluetooth_connected(lang)),
                    Some(Bt::Pairing) => Some(bluetooth_pairing(lang)),
                    Some(Bt::Unconnected) => Some(bluetooth_unconnected(lang)),
                    Some(Bt::Off) => Some(bluetooth_off(lang)),
                    None => None,
                };
                tip_on(lang, *battery, *charging, bluetooth)
            },
            State::HubBusy => tip_hub_busy(lang),
            State::NoDongle { unidentified } => tip_no_dongle(lang, *unidentified),
            State::Error(cause) => {
                let reason = cause.describe();
                tip_error(lang, reason.as_str())
            },
        }
    }

    /// Bluetooth off and "we never asked" both mean no badge.
    pub fn badge(&self) -> (b: Badge)
        ensures
            b == badge_of(*self),
    {
        match self {
            State::On { bt: Some(Bt::Connected), .. } => Badge::Filled,
            State::On { bt: Some(Bt::Unconnected), .. } => Badge::Hollow,
            State::On { bt: Some(Bt::Pairing), .. } => Badge::Hollow,
            _ => Badge::Absent,
        }
    }

    /// Icon fill color, on a traffic-light reading, so a flat headset is visible without
    /// opening the tooltip.
    pub fn color(&self) -> (c: [u8; 3])
        ensures
            c@ == color_of(*self),
    {
        match self {
            State::On { battery, charging, .. } => {
                let band = band_color(*battery);
                let full = match battery {
                    Some(b) => *b == 100,
                    None => false,
                };
                if *charging && !full {
                    lighten(band)
                } else {
                    band
                }
            },
            State::Pairing => BLUE,
            State::Off => GRAY,
            State::HubBusy => VIOLET,
            _ => DIM_GRAY,
        }
    }

    /// The battery level as a share of the disc to fill, so remaining charge survives the
    /// loss of hue. `None` leaves the disc whole, the honest shape for "unknown".
    pub fn battery_arc(&self) -> (arc: Option<u8>)
        ensures
            arc == match *self {
                State::On { battery, .. } => battery,
                _ => None,
            },
    {
        match self {
            State::On { battery: Some(b), .. } => Some(*b),
            _ => None,
        }
    }

    /// A hollow ring rather than a solid disc, for the states where we have no real answer.
    pub fn hollow(&self) -> (h: bool)
        ensures
            h == hollow_of(*self),
    {
        match self {
            State::NoDongle { .. } => true,
            State::Error(_) => true,
            State::HubBusy => true,
            _ => false,
        }
    }

    /// Whether the headset is powered, for states where we actually know.
    pub fn powered(&self) -> (p: Option<bool>)
        ensures
            p == powered_of(*self),
    {
        match self {
            State::On { .. } => Some(true),
            State::Pairing => Some(true),
            State::Off => Some(false),
            _ => None,
        }
    }

    pub fn notification_body(&self, lang: Lang) -> (body: Option<String>)
        ensures
            match (body, notification_body_text(*self, lang)) {
                (Some(b), Some(t)) => b@ == t,
                (None, None) => true,
                _ => false,
            },
    {
        match self {
            State::On { battery: Some(b), .. } => Some(notify_on_with_battery(lang, *b)),
            State::On { battery: None, .. } => Some(notify_on(lang)),
            State::Pairing => Some(notify_pairing(lang)),
            State::Off => Some(notify_off(lang)),
            _ => None,
        }
    }
}

/// The notification text for a state change, or `None` to stay silent. Only a transition
/// between two power states the receiver actually reported is news: the first poll after
/// launch, and any trip through a state that tells us nothing, stay silent.
pub fn notification_for(lang: Lang, prev: Option<&State>, next: &State) -> (body: Option<String>)
    ensures
        match prev {
            Some(p) => match (powered_of(*p), powered_of(*next)) {
                (Some(before), Some(now)) => if before != now {
                    match (body, notification_body_text(*next, lang)) {
                        (Some(b), Some(t)) => b@ == t,
                        _ => false,
                    }
                } else {
                    body is None
                },
                _ => body is None,
            },
            None => body is None,
        },
{
    let p = match prev {
        Some(p) => p,
        None => return None,
    };
    let before = match p.powered() {
        Some(b) => b,
        None => return None,
    };
    let now = match next.powered() {
        Some(n) => n,
        None => return None,
    };
    if before == now {
        return None;
    }
    next.notification_body(lang)
}

/// What a BATTERY_INFO payload says: (level, charging).
pub open spec fn battery_reading(params: Seq<u8>) -> (Option<u8>, bool) {
    if params.len() >= 2 && (params[0] == BATT_DISCHARGING || params[0] == BATT_CHARGING) {
        (if params[1] <= 100 { Some(params[1]) } else { None }, params[0] == BATT_CHARGING)
    } else {
        (None, false)
    }
}

/// What a BT_STATUS payload says.
pub open spec fn bt_reading(params: Seq<u8>) -> Option<Bt> {
    if params.len() >= 1 && params[0] == BT_OFF {
        Some(Bt::Off)
    } else if params.len() >= 2 && params[0] == BT_ON {
        if params[1] == BT_CONN_UNCONNECTED {
            Some(Bt::Unconnected)
        } else if params[1] == BT_CONN_CONNECTED {
            Some(Bt::Connected)
        } else if params[1] == BT_CONN_PAIRING {
            Some(Bt::Pairing)
        } else {
            None
        }
    } else {
        None
    }
}

/// Reads a BATTERY_INFO payload into (level, charging). Every way of not understanding the
/// reply collapses to "level unknown": a level above 100 is not a percentage, and a status
/// other than discharging or charging is the device distrusting its own reading.
pub fn interpret_battery(params: &[u8]) -> (r: (Option<u8>, bool))
    ensures
        r == battery_reading(params@),
{
    if params.len() >= 2 && (params[0] == BATT_DISCHARGING || params[0] == BATT_CHARGING) {
        let level = params[1];
        (if level <= 100 { Some(level) } else { None }, params[0] == BATT_CHARGING)
    } else {
        (None, false)
    }
}

/// Reads a BT_STATUS payload. `None` means no answer we understand, which stays distinct
/// from a confident "Bluetooth is off": a one-byte reply saying *on* is not an answer.
pub fn interpret_bt(params: &[u8]) -> (r: Option<Bt>)
    ensures
        r == bt_reading(params@),
{
    if params.len() >= 1 && params[0] == BT_OFF {
        Some(Bt::Off)
    } else if params.len() >= 2 && params[0] == BT_ON {
        if params[1] == BT_CONN_UNCONNECTED {
            Some(Bt::Unconnected)
        } else if params[1] == BT_CONN_CONNECTED {
            Some(Bt::Connected)
        } else if params[1] == BT_CONN_PAIRING {
            Some(Bt::Pairing)
        } else {
            None
        }
    } else {
        None
    }
}

/// One reading fed to the battery watch, given the severity already announced: the
/// severity remembered afterwards, and the crossing to announce as (severity, level).
///
/// Only a reading with a level moves the watch. The first one seeds it silently. A fall
/// into a worse band announces, unless the pack is charging, in which case nothing is
/// written down, so the warning is still owed when the cable comes out. Rising only gives a
/// band up once the level has cleared its threshold by more than the hysteresis.
pub open spec fn watch_step(announced: Option<u8>, s: State) -> (Option<u8>, Option<(u8, u8)>) {
    match s {
        State::On { battery: Some(level), charging, .. } => {
            let now = severity_of(level, 0);
            let held = severity_of(level, BATTERY_HYSTERESIS);
            match announced {
                None => (Some(now), None),
                Some(a) => if now <= a {
                    (Some(if a <= held { a } else { held }), None)
                } else if charging {
                    (announced, None)
                } else {
                    (Some(now), Some((now, level)))
                },
            }
        },
        _ => (announced, None),
    }
}

/// The words for a crossing.
pub open spec fn crossing_text(lang: Lang, crossing: (u8, u8)) -> Seq<char> {
    if crossing.0 == 2 {
        notify_battery_critical_text(lang, crossing.1)
    } else {
        notify_battery_low_text(lang, crossing.1)
    }
}

/// Watches the battery for a threshold crossed downward. A reading we failed to take leaves
/// the watch exactly as it was, and the first known reading after launch seeds it instead
/// of firing.
#[derive(Debug)]
pub struct BatteryWatch {
    /// Severity already announced, or `None` before the first reading we understood.
    announced: Option<u8>,
}

impl View for BatteryWatch {
    type V = Option<u8>;

    closed spec fn view(&self) -> Option<u8> {
        self.announced
    }
}

impl Default for BatteryWatch {
    fn default() -> (w: Self)
        ensures
            w@ == None::<u8>,
    {
        BatteryWatch { announced: None }
    }
}

impl BatteryWatch {
    pub fn new() -> (w: Self)
        ensures
            w@ == None::<u8>,
    {
        BatteryWatch { announced: None }
    }

    /// Feeds one reading in and returns the text to announce, or `None` to stay silent.
    pub fn observe(&mut self, lang: Lang, state: &State) -> (said: Option<String>)
        ensures
            final(self)@ == watch_step(old(self)@, *state).0,
            match (said, watch_step(old(self)@, *state).1) {
                (Some(t), Some(c)) => t@ == crossing_text(lang, c),
                (None, None) => true,
                _ => false,
            },
    {
        let (level, charging) = match state {
            State::On { battery: Some(level), charging, .. } => (*level, *charging),
            _ => return None,
        };
        let now = severity(level, 0);
        let held = severity(level, BATTERY_HYSTERESIS);
        let announced = match self.announced {
            Some(a) => a,
            None => {
                self.announced = Some(now);
                return None;
            },
        };
        if now <= announced {
            self.announced = Some(if announced <= held { announced } else { held });
            return None;
        }
        if charging {
            return None;
        }
        self.announced = Some(now);
        if now == 2 {
            Some(notify_battery_critical(lang, level))
        } else {
            Some(notify_battery_low(lang, level))
        }
    }
}

/// The warning and the color cannot come to disagree: a level is in the red band exactly
/// when it is nearly flat, and in the amber band exactly when it is low.
pub proof fn lemma_band_matches_severity(b: u8)
    ensures
        band_of(Some(b)) == RED <==> severity_of(b, 0) == 2,
        band_of(Some(b)) == AMBER <==> severity_of(b, 0) == 1,
        band_of(Some(b)) == GREEN <==> severity_of(b, 0) == 0,
{
    assert(RED != AMBER && RED != GREEN && AMBER != GREEN) by {
        assert(RED[0] != AMBER[0] && RED[0] != GREEN[0] && AMBER[0] != GREEN[0]);
    }
}

/// The icon is a ring exactly when the receiver did not tell us whether the headset is on.
pub proof fn lemma_hollow_means_unknown_power(s: State)
    ensures
        hollow_of(s) <==> powered_of(s) is None,
{
}

/// An absent Bluetooth answer never puts a mark on the icon.
pub proof fn lemma_no_answer_no_badge(s: State)
    ensures
        (match s {
            State::On { bt: None, .. } => true,
            State::On { bt: Some(Bt::Off), .. } => true,
            State::On { .. } => false,
            _ => true,
        }) ==> badge_of(s) == Badge::Absent,
{
}

/// A reading without a level is never a crossing, and leaves the watch as it was.
pub proof fn lemma_missed_reading_changes_nothing(announced: Option<u8>, s: State)
    requires
        !(s matches State::On { battery: Some(_), .. }),
    ensures
        watch_step(announced, s) == (announced, None::<(u8, u8)>),
{
}

/// A crossing is announced once: the same reading again says nothing.
pub proof fn lemma_announced_once(announced: Option<u8>, s: State)
    requires
        watch_step(announced, s).1 is Some,
    ensures
        watch_step(watch_step(announced, s).0, s).1 is None,
{
}

/// Climbing back out of an announced band by no more than the hysteresis does not give the
/// band up: falling into it again from there is the same crossing, not a new one.
pub proof fn lemma_hysteresis_holds_the_band(k: u8, up: State, down: State)
    requires
        up matches State::On { battery: Some(l), .. } && severity_of(l, 0) <= k
            && severity_of(l, BATTERY_HYSTERESIS) >= k,
        down matches State::On { battery: Some(l), .. } && severity_of(l, 0) <= k,
    ensures
        watch_step(Some(k), up).1 is None,
        watch_step(watch_step(Some(k), up).0, down).1 is None,
{
}

/// Staying quiet while charging does not spend the crossing: with the cable out at the
/// same level, the warning arrives.
pub proof fn lemma_charging_keeps_the_warning_owed(k: u8, level: u8, bt: Option<Bt>)
    requires
        severity_of(level, 0) > k,
    ensures
        watch_step(Some(k), State::On { battery: Some(level), charging: true, bt }).1 is None,
        watch_step(
            watch_step(Some(k), State::On { battery: Some(level), charging: true, bt }).0,
            State::On { battery: Some(level), charging: false, bt },
        ).1 == Some((severity_of(level, 0), level)),
{
}

/// The size of the shell's tooltip buffer in UTF-16 units, terminator included.
pub const TOOLTIP_UNITS: usize = 128;

proof fn lemma_units_of_bmp(s: Seq<char>)
    requires
        in_bmp(s),
    ensures
        utf16_len(s) == s.len(),
{
    lemma_bmp_len(s);
}

proof fn lemma_units3(a: Seq<char>, b: Seq<char>, c: Seq<char>)
    ensures
        utf16_len(a + b + c) == utf16_len(a) + utf16_len(b) + utf16_len(c),
{
    lemma_utf16_len_concat(a, b);
    lemma_utf16_len_concat(a + b, c);
}

proof fn lemma_decimal_units(n: nat, max_len: nat)
    requires
        decimal(n).len() <= max_len,
    ensures
        utf16_len(decimal(n)) <= max_len,
{
    lemma_decimal_bmp(n);
    lemma_bmp_len(decimal(n));
}

/// Every reason the error tooltip can quote, in UTF-16 units.
proof fn lemma_cause_units(c: Cause)
    ensures
        utf16_len(describe_cause(c)) <= 99,
{
    match c {
        Cause::Dtr(e) => {
            reveal_strlit("cannot assert DTR: ");
            lemma_units_of_bmp("cannot assert DTR: "@);
            lemma_quote_fits(e@);
            lemma_utf16_len_concat("cannot assert DTR: "@, quote(e@));
        },
        Cause::Enumerate(e) => {
            reveal_strlit("cannot list serial ports: ");
            lemma_units_of_bmp("cannot list serial ports: "@);
            lemma_quote_fits(e@);
            lemma_utf16_len_concat("cannot list serial ports: "@, quote(e@));
        },
        Cause::Open(e) => {
            lemma_quote_fits(e@);
        },
        Cause::Io(e) => {
            lemma_quote_fits(e@);
        },
        Cause::PortClosed => {
            reveal_strlit("port closed");
            lemma_units_of_bmp("port closed"@);
        },
        Cause::NoReply { detail, unusable } => {
            lemma_decimal_u64_len(unusable as u64);
            lemma_decimal_units(unusable as nat, 20);
            match detail {
                Some(e) => {
                    lemma_quote_fits(e@);
                    if unusable != 0 {
                        reveal_strlit(" (");
                        reveal_strlit(" bytes unusable)");
                        lemma_units_of_bmp(" ("@);
                        lemma_units_of_bmp(" bytes unusable)"@);
                        lemma_units3(quote(e@), " ("@, decimal(unusable as nat));
                        lemma_utf16_len_concat(quote(e@) + " ("@ + decimal(unusable as nat), " bytes unusable)"@);
                    }
                },
                None => {
                    if unusable == 0 {
                        reveal_strlit("no reply");
                        lemma_units_of_bmp("no reply"@);
                    } else {
                        reveal_strlit("no usable reply (");
                        reveal_strlit(" bytes)");
                        lemma_units_of_bmp("no usable reply ("@);
                        lemma_units_of_bmp(" bytes)"@);
                        lemma_units3("no usable reply ("@, decimal(unusable as nat), " bytes)"@);
                    }
                },
            }
        },
        Cause::EmptyReply => {
            reveal_strlit("empty reply");
            lemma_units_of_bmp("empty reply"@);
        },
        Cause::UnknownLink(v) => {
            reveal_strlit("unknown link state 0x");
            lemma_units_of_bmp("unknown link state 0x"@);
            lemma_hex2_bmp(v);
            lemma_units_of_bmp(hex2(v));
            lemma_utf16_len_concat("unknown link state 0x"@, hex2(v));
        },
        Cause::PollerStopped => {
            reveal_strlit("poller stopped");
            lemma_units_of_bmp("poller stopped"@);
        },
    }
}

proof fn lemma_bt_units(lang: Lang, bt: Bt)
    ensures
        in_bmp(bt_text(lang, bt)),
        bt_text(lang, bt).len() <= 27,
{
    reveal_strlit("Bluetooth 接続済み");
    reveal_strlit("Bluetooth connected");
    reveal_strlit("Bluetooth ペアリング中");
    reveal_strlit("Bluetooth pairing");
    reveal_strlit("Bluetooth オン（未接続）");
    reveal_strlit("Bluetooth on, not connected");
    reveal_strlit("Bluetooth オフ");
    reveal_strlit("Bluetooth off");
}

proof fn lemma_power_units(lang: Lang, battery: Option<u8>, charging: bool)
    ensures
        in_bmp(power_text(lang, battery, charging)),
        power_text(lang, battery, charging).len() <= 19,
{
    reveal_strlit("オン（充電中 ");
    reveal_strlit("%）");
    reveal_strlit("On (charging, ");
    reveal_strlit("%)");
    reveal_strlit("オン（バッテリー ");
    reveal_strlit("On (battery ");
    reveal_strlit("オン（充電中）");
    reveal_strlit("On (charging)");
    reveal_strlit("オン");
    reveal_strlit("On");
    match battery {
        Some(b) => {
            lemma_decimal_bmp(b as nat);
            lemma_decimal_u8_len(b);
            let d = decimal(b as nat);
            match (lang, charging) {
                (Lang::Ja, true) => {
                    lemma_bmp_concat("オン（充電中 "@, d);
                    lemma_bmp_concat("オン（充電中 "@ + d, "%）"@);
                },
                (Lang::En, true) => {
                    lemma_bmp_concat("On (charging, "@, d);
                    lemma_bmp_concat("On (charging, "@ + d, "%)"@);
                },
                (Lang::Ja, false) => {
                    lemma_bmp_concat("オン（バッテリー "@, d);
                    lemma_bmp_concat("オン（バッテリー "@ + d, "%）"@);
                },
                (Lang::En, false) => {
                    lemma_bmp_concat("On (battery "@, d);
                    lemma_bmp_concat("On (battery "@ + d, "%)"@);
                },
            }
        },
        None => {},
    }
}

/// Every tooltip fits the shell's tooltip buffer whole, terminator included, in every
/// language and for every cause however long the text it quotes: a reason is cut before
/// the shell could cut the sentence around it.
pub proof fn lemma_tooltip_fits(s: State, lang: Lang)
    ensures
        utf16_len(tooltip_text(s, lang)) < TOOLTIP_UNITS,
{
    let t = tooltip_text(s, lang);
    match s {
        State::Off => {
            reveal_strlit("INZONE: ヘッドセット電源オフ");
            reveal_strlit("INZONE: headset off");
            lemma_utf16_len_bounds(t);
        },
        State::Pairing => {
            reveal_strlit("INZONE: ペアリング中");
            reveal_strlit("INZONE: pairing");
            lemma_utf16_len_bounds(t);
        },
        State::HubBusy => {
            reveal_strlit("INZONE: ポートが使用中（INZONE Hub を閉じると復帰します）");
            reveal_strlit("INZONE: port in use (close INZONE Hub to resume)");
            lemma_utf16_len_bounds(t);
        },
        State::On { battery, charging, bt } => {
            reveal_strlit("INZONE: ");
            reveal_strlit("、");
            reveal_strlit(", ");
            lemma_power_units(lang, battery, charging);
            let p = "INZONE: "@ + power_text(lang, battery, charging);
            lemma_bmp_concat("INZONE: "@, power_text(lang, battery, charging));
            match bt {
                Some(b) => {
                    lemma_bt_units(lang, b);
                    let sep = match lang {
                        Lang::Ja => "、"@,
                        Lang::En => ", "@,
                    };
                    lemma_bmp_concat(p, sep);
                    lemma_bmp_concat(p + sep, bt_text(lang, b));
                    assert(t == p + sep + bt_text(lang, b));
                },
                None => {
                    assert(t == p);
                },
            }
            lemma_bmp_len(t);
        },
        State::NoDongle { unidentified } => {
            reveal_strlit("INZONE: レシーバーが見つかりません");
            reveal_strlit("INZONE: レシーバーが見つかりません（判別できないポートが ");
            reveal_strlit(" 個あります）");
            reveal_strlit("INZONE: receiver not found");
            reveal_strlit("INZONE: receiver not found (could not identify ");
            reveal_strlit(" of the ports)");
            lemma_decimal_bmp(unidentified as nat);
            lemma_decimal_u64_len(unidentified as u64);
            let d = decimal(unidentified as nat);
            if unidentified != 0 {
                match lang {
                    Lang::Ja => {
                        lemma_bmp_concat("INZONE: レシーバーが見つかりません（判別できないポートが "@, d);
                        lemma_bmp_concat("INZONE: レシーバーが見つかりません（判別できないポートが "@ + d, " 個あります）"@);
                    },
                    Lang::En => {
                        lemma_bmp_concat("INZONE: receiver not found (could not identify "@, d);
                        lemma_bmp_concat("INZONE: receiver not found (could not identify "@ + d, " of the ports)"@);
                    },
                }
            }
            lemma_bmp_len(t);
        },
        State::Error(c) => {
            reveal_strlit("INZONE: エラー（");
            reveal_strlit("）");
            reveal_strlit("INZONE: error (");
            reveal_strlit(")");
            lemma_cause_units(c);
            match lang {
                Lang::Ja => {
                    lemma_units_of_bmp("INZONE: エラー（"@);
                    lemma_units_of_bmp("）"@);
                    lemma_units3("INZONE: エラー（"@, describe_cause(c), "）"@);
                },
                Lang::En => {
                    lemma_units_of_bmp("INZONE: error ("@);
                    lemma_units_of_bmp(")"@);
                    lemma_units3("INZONE: error ("@, describe_cause(c), ")"@);
                },
            }
        },
    }
}

/// The first level the watch ever gets seeds it and is never itself announced, however low:
/// a fall that happened before anything could be seen is not news.
pub proof fn lemma_first_reading_seeds(s: State)
    ensures
        watch_step(None, s).1 is None,
{
}

/// Every character is ASCII.
pub open spec fn all_ascii(s: Seq<char>) -> bool {
    forall|i: int| 0 <= i < s.len() ==> (#[trigger] s[i] as u32) < 0x80
}

proof fn lemma_ascii_concat(a: Seq<char>, b: Seq<char>)
    requires
        all_ascii(a),
        all_ascii(b),
    ensures
        all_ascii(a + b),
{
    assert forall|i: int| 0 <= i < (a + b).len() implies ((#[trigger] (a + b)[i]) as u32) < 0x80 by {
        if i < a.len() {
            assert((a + b)[i] == a[i]);
        } else {
            assert((a + b)[i] == b[i - a.len()]);
        }
    }
}

proof fn lemma_decimal_ascii(n: nat)
    ensures
        all_ascii(decimal(n)),
    decreases n,
{
    if n >= 10 {
        lemma_decimal_ascii(n / 10);
        let s = decimal(n);
        assert forall|i: int| 0 <= i < s.len() implies (#[trigger] s[i] as u32) < 0x80 by {
            if i < s.len() - 1 {
                assert(s[i] == decimal(n / 10)[i]);
            }
        }
    }
}

/// What a cause quotes, when there is anything.
pub open spec fn quoted_text(c: Cause) -> Option<Seq<char>> {
    match c {
        Cause::Dtr(e) => Some(e@),
        Cause::Enumerate(e) => Some(e@),
        Cause::Open(e) => Some(e@),
        Cause::Io(e) => Some(e@),
        Cause::NoReply { detail: Some(e), .. } => Some(e@),
        _ => None,
    }
}

/// A cause composes only English: whatever it says around the text it quotes is plain
/// ASCII, so a reason is non-English only where the quoted message itself is.
pub proof fn lemma_cause_composes_english(c: Cause)
    requires
        quoted_text(c) matches Some(q) ==> all_ascii(q) && utf16_len(q) <= QUOTED_MAX_UNITS,
    ensures
        all_ascii(describe_cause(c)),
        (quoted_text(c) matches Some(q) ==> q.len() > 0) ==> describe_cause(c).len() > 0,
{
    match quoted_text(c) {
        Some(q) => lemma_quote_fits(q),
        None => {},
    }
    match c {
        Cause::Dtr(e) => {
            reveal_strlit("cannot assert DTR: ");
            lemma_ascii_concat("cannot assert DTR: "@, e@);
        },
        Cause::Enumerate(e) => {
            reveal_strlit("cannot list serial ports: ");
            lemma_ascii_concat("cannot list serial ports: "@, e@);
        },
        Cause::PortClosed => {
            reveal_strlit("port closed");
        },
        Cause::NoReply { detail, unusable } => {
            lemma_decimal_ascii(unusable as nat);
            let d = decimal(unusable as nat);
            match detail {
                Some(e) => {
                    if unusable != 0 {
                        reveal_strlit(" (");
                        reveal_strlit(" bytes unusable)");
                        lemma_ascii_concat(e@, " ("@);
                        lemma_ascii_concat(e@ + " ("@, d);
                        lemma_ascii_concat(e@ + " ("@ + d, " bytes unusable)"@);
                    }
                },
                None => {
                    reveal_strlit("no reply");
                    reveal_strlit("no usable reply (");
                    reveal_strlit(" bytes)");
                    if unusable != 0 {
                        lemma_ascii_concat("no usable reply ("@, d);
                        lemma_ascii_concat("no usable reply ("@ + d, " bytes)"@);
                    }
                },
            }
        },
        Cause::EmptyReply => {
            reveal_strlit("empty reply");
        },
        Cause::UnknownLink(v) => {
            reveal_strlit("unknown link state 0x");
            lemma_ascii_concat("unknown link state 0x"@, hex2(v));
        },
        Cause::PollerStopped => {
            reveal_strlit("poller stopped");
        },
        _ => {},
    }
}

pub open spec fn is_open_bracket(c: char) -> bool {
    c == '(' || c == '（'
}

pub open spec fn is_close_bracket(c: char) -> bool {
    c == ')' || c == '）'
}

/// No bracket of either width anywhere in `s`.
pub open spec fn bracket_free(s: Seq<char>) -> bool {
    forall|i: int| 0 <= i < s.len() ==> !is_open_bracket(#[trigger] s[i]) && !is_close_bracket(s[i])
}

/// `s` holds no empty pair of brackets, half-width `()` or full-width `（）`.
pub open spec fn no_empty_brackets(s: Seq<char>) -> bool {
    forall|i: int|
        0 <= i < s.len() - 1 ==> !((#[trigger] s[i] == '(' && s[i + 1] == ')') || (s[i] == '（' && s[i + 1] == '）'))
}

proof fn lemma_bracket_free_piece(s: Seq<char>)
    requires
        bracket_free(s),
    ensures
        no_empty_brackets(s),
{
    assert forall|i: int| 0 <= i < s.len() - 1 implies !((#[trigger] s[i] == '(' && s[i + 1] == ')') || (s[i] == '（'
        && s[i + 1] == '）')) by {
        assert(!is_open_bracket(s[i]));
    }
}

proof fn lemma_brackets_concat(a: Seq<char>, b: Seq<char>)
    requires
        a.len() > 0,
        b.len() > 0,
        no_empty_brackets(a),
        no_empty_brackets(b),
        !(is_open_bracket(a[a.len() - 1]) && is_close_bracket(b[0])),
    ensures
        no_empty_brackets(a + b),
        (a + b).len() > 0,
        (a + b)[0] == a[0],
        (a + b)[(a + b).len() - 1] == b[b.len() - 1],
{
    let c = a + b;
    assert forall|i: int| 0 <= i < c.len() - 1 implies !((#[trigger] c[i] == '(' && c[i + 1] == ')') || (c[i] == '（'
        && c[i + 1] == '）')) by {
        if i < a.len() - 1 {
            assert(c[i] == a[i] && c[i + 1] == a[i + 1]);
        } else if i == a.len() - 1 {
            assert(c[i] == a[i] && c[i + 1] == b[0]);
        } else {
            assert(c[i] == b[i - a.len()] && c[i + 1] == b[i + 1 - a.len()]);
        }
    }
}

proof fn lemma_bracket_free_concat(a: Seq<char>, b: Seq<char>)
    requires
        bracket_free(a),
        bracket_free(b),
    ensures
        bracket_free(a + b),
{
    assert forall|i: int| 0 <= i < (a + b).len() implies !is_open_bracket(#[trigger] (a + b)[i]) && !is_close_bracket(
        (a + b)[i],
    ) by {
        if i < a.len() {
            assert((a + b)[i] == a[i]);
        } else {
            assert((a + b)[i] == b[i - a.len()]);
        }
    }
}

proof fn lemma_decimal_bracket_free(n: nat)
    ensures
        bracket_free(decimal(n)),
        decimal(n).len() > 0,
    decreases n,
{
    if n >= 10 {
        lemma_decimal_bracket_free(n / 10);
        let s = decimal(n);
        assert forall|i: int| 0 <= i < s.len() implies !is_open_bracket(#[trigger] s[i]) && !is_close_bracket(s[i]) by {
            if i < s.len() - 1 {
                assert(s[i] == decimal(n / 10)[i]);
            }
        }
    }
}

/// A quote of bracket-free text is bracket-free, and a quote of something says something.
proof fn lemma_quote_bracket_free(s: Seq<char>)
    requires
        bracket_free(s),
        s.len() > 0,
    ensures
        bracket_free(quote(s)),
        quote(s).len() > 0,
{
    let k = fit_from(s, 0, 0);
    assert(s.take(1).drop_last() =~= Seq::<char>::empty());
    assert(s.take(0) =~= Seq::<char>::empty());
    assert(s.take(1).len() == 1 && s.take(1)[0] == s[0]);
    assert(utf16_len(s.take(1).drop_last()) == 0);
    assert(utf16_len(s.take(1)) == utf16_width(s[0]));
    lemma_fit_from(s, 1, utf16_width(s[0]));
    if k < s.len() {
        let q = s.take(k).push('…');
        assert forall|i: int| 0 <= i < q.len() implies !is_open_bracket(#[trigger] q[i]) && !is_close_bracket(q[i]) by {
            if i < k {
                assert(q[i] == s[i]);
            }
        }
    }
}

/// The reason of an error tooltip says something, holds no empty pair of brackets, and
/// neither opens with a closing bracket nor ends on an opening one.
proof fn lemma_cause_reads_whole(c: Cause)
    requires
        quoted_text(c) matches Some(q) ==> q.len() > 0 && bracket_free(q),
    ensures
        describe_cause(c).len() > 0,
        no_empty_brackets(describe_cause(c)),
        !is_close_bracket(describe_cause(c)[0]),
        !is_open_bracket(describe_cause(c)[describe_cause(c).len() - 1]),
{
    let r = describe_cause(c);
    match quoted_text(c) {
        Some(q) => {
            lemma_quote_bracket_free(q);
            lemma_bracket_free_piece(quote(q));
        },
        None => {},
    }
    match c {
        Cause::Dtr(e) => {
            reveal_strlit("cannot assert DTR: ");
            lemma_brackets_concat("cannot assert DTR: "@, quote(e@));
        },
        Cause::Enumerate(e) => {
            reveal_strlit("cannot list serial ports: ");
            lemma_brackets_concat("cannot list serial ports: "@, quote(e@));
        },
        Cause::Open(e) => {},
        Cause::Io(e) => {},
        Cause::PortClosed => {
            reveal_strlit("port closed");
        },
        Cause::NoReply { detail, unusable } => {
            let d = decimal(unusable as nat);
            lemma_decimal_bracket_free(unusable as nat);
            lemma_bracket_free_piece(d);
            match detail {
                Some(e) => {
                    if unusable != 0 {
                        reveal_strlit(" (");
                        reveal_strlit(" bytes unusable)");
                        let q = quote(e@);
                        lemma_brackets_concat(q, " ("@);
                        lemma_brackets_concat(q + " ("@, d);
                        lemma_brackets_concat(q + " ("@ + d, " bytes unusable)"@);
                    }
                },
                None => {
                    reveal_strlit("no reply");
                    reveal_strlit("no usable reply (");
                    reveal_strlit(" bytes)");
                    if unusable != 0 {
                        lemma_brackets_concat("no usable reply ("@, d);
                        lemma_brackets_concat("no usable reply ("@ + d, " bytes)"@);
                    }
                },
            }
        },
        Cause::EmptyReply => {
            reveal_strlit("empty reply");
        },
        Cause::UnknownLink(v) => {
            reveal_strlit("unknown link state 0x");
            assert(bracket_free(hex2(v)));
            lemma_bracket_free_piece(hex2(v));
            lemma_brackets_concat("unknown link state 0x"@, hex2(v));
        },
        Cause::PollerStopped => {
            reveal_strlit("poller stopped");
        },
    }
}

/// An error tooltip reads as one whole sentence: it opens with the tag, and wherever the
/// reason came from, the brackets around it are never left empty. Quoted text is taken to
/// say something and to bring no brackets of its own.
pub proof fn lemma_error_tooltip_reads_whole(c: Cause, lang: Lang)
    requires
        quoted_text(c) matches Some(q) ==> q.len() > 0 && bracket_free(q),
    ensures
        tooltip_text(State::Error(c), lang).len() >= 8,
        tooltip_text(State::Error(c), lang).take(8) == "INZONE: "@,
        no_empty_brackets(tooltip_text(State::Error(c), lang)),
{
    reveal_strlit("INZONE: ");
    reveal_strlit("INZONE: エラー（");
    reveal_strlit("）");
    reveal_strlit("INZONE: error (");
    reveal_strlit(")");
    lemma_cause_reads_whole(c);
    let r = describe_cause(c);
    match lang {
        Lang::Ja => {
            lemma_brackets_concat("INZONE: エラー（"@, r);
            lemma_brackets_concat("INZONE: エラー（"@ + r, "）"@);
            let t = "INZONE: エラー（"@ + r + "）"@;
            assert(t.take(8) =~= "INZONE: "@);
        },
        Lang::En => {
            lemma_brackets_concat("INZONE: error ("@, r);
            lemma_brackets_concat("INZONE: error ("@ + r, ")"@);
            let t = "INZONE: error ("@ + r + ")"@;
            assert(t.take(8) =~= "INZONE: "@);
        },
    }
}

/// A warning names the band the level fell into. A level at 15% or below that crosses is
/// announced as nearly empty; a level above 15% can only cross into the low band (35% or
/// below) and is announced as low, in words that differ from the nearly-empty warning. The
/// crossing is a fall while unplugged, carrying the level read.
pub proof fn lemma_warning_names_the_band(announced: Option<u8>, s: State, lang: Lang)
    requires
        watch_step(announced, s).1 is Some,
    ensures
        s matches State::On { battery: Some(level), charging: false, .. } && ({
            let c = watch_step(announced, s).1.unwrap();
            &&& c.1 == level
            &&& level <= 35
            &&& announced is Some && c.0 > announced.unwrap()
            &&& (level <= 15 ==> c.0 == 2 && crossing_text(lang, c) == notify_battery_critical_text(lang, level))
            &&& (level > 15 ==> c.0 == 1 && crossing_text(lang, c) == notify_battery_low_text(lang, level)
                && crossing_text(lang, c) != notify_battery_critical_text(lang, level))
        }),
{
    if let State::On { battery: Some(level), .. } = s {
        lemma_battery_warnings_differ(lang, level);
    }
}

/// In English, falling from above 35% to a level between 16% and 35% reads "Battery is down
/// to N%", and falling to 15% or below reads "Battery is nearly empty (N%)".
pub proof fn lemma_warning_words_in_english(announced: u8, level: u8, bt: Option<Bt>)
    requires
        announced == 0,
        level <= 35,
    ensures
        ({
            let c = watch_step(Some(announced), State::On { battery: Some(level), charging: false, bt }).1;
            &&& c is Some
            &&& (level > 15 ==> crossing_text(Lang::En, c.unwrap())
                == "Battery is down to "@ + decimal(level as nat) + "%"@)
            &&& (level <= 15 ==> crossing_text(Lang::En, c.unwrap())
                == "Battery is nearly empty ("@ + decimal(level as nat) + "%)"@)
        }),
{
}

/// Every level from 0 to 100 is a percentage: a discharging (0x00) or charging (0x01)
/// reply carries its level through, whatever follows it, and says charging exactly for
/// 0x01. A level above 100 is no percentage.
pub proof fn lemma_every_percentage_reads(params: Seq<u8>)
    requires
        params.len() >= 2,
        params[0] == 0x00u8 || params[0] == 0x01u8,
    ensures
        params[1] <= 100 ==> battery_reading(params) == (Some(params[1]), params[0] == 0x01u8),
        params[1] > 100 ==> battery_reading(params) == (None::<u8>, params[0] == 0x01u8),
{
}

/// A headset that is off is drawn gray, and no state the receiver reports as powered on is
/// ever drawn in that color, whatever its level or charging.
pub proof fn lemma_off_is_gray(s: State)
    ensures
        color_of(State::Off) == seq![0x8Au8, 0x8Au8, 0x94u8],
        powered_of(s) == Some(true) ==> color_of(s) != color_of(State::Off),
{
    assert(color_of(State::Off) =~= seq![0x8Au8, 0x8Au8, 0x94u8]);
    if powered_of(s) == Some(true) {
        assert(color_of(s)[0] != 0x8Au8);
    }
}

/// Which of the looks a state takes: on, pairing, off, port held by the Hub, or no answer.
pub open spec fn look_kind(s: State) -> int {
    match s {
        State::On { .. } => 0,
        State::Pairing => 1,
        State::Off => 2,
        State::HubBusy => 3,
        _ => 4,
    }
}

/// The icon tells the kinds of state apart by color alone: blue for pairing, gray for off,
/// violet for a port held by INZONE Hub, dim gray when there is no answer, and a battery
/// band, plain or lit, while on. No two kinds ever share a color.
pub proof fn lemma_colors_tell_states_apart(s: State, t: State)
    ensures
        color_of(State::Pairing) == seq![0x3Bu8, 0x82u8, 0xF6u8],
        color_of(State::HubBusy) == seq![0xA7u8, 0x8Bu8, 0xFAu8],
        (s matches State::NoDongle { .. }) || (s matches State::Error(_)) ==> color_of(s)
            == seq![0x71u8, 0x71u8, 0x7Au8],
        look_kind(s) != look_kind(t) ==> color_of(s) != color_of(t),
{
    assert(color_of(State::Pairing) =~= seq![0x3Bu8, 0x82u8, 0xF6u8]);
    assert(color_of(State::HubBusy) =~= seq![0xA7u8, 0x8Bu8, 0xFAu8]);
    if (s matches State::NoDongle { .. }) || (s matches State::Error(_)) {
        assert(color_of(s) =~= seq![0x71u8, 0x71u8, 0x7Au8]);
    }
    if look_kind(s) != look_kind(t) {
        assert(color_of(s)[0] != color_of(t)[0]);
    }
}

/// While on, the color follows the level: red at 15% or below, amber up to 35%, green above
/// that or when the level is unknown. On the cable the same band is lit (every channel
/// washed towards paper, so it reads paler and never as the plain band), except at 100%,
/// where nothing is filling and the plain band comes back.
pub proof fn lemma_color_follows_level(battery: Option<u8>, charging: bool, bt: Option<Bt>)
    ensures
        ({
            let band = match battery {
                Some(l) => if l <= 15 {
                    seq![0xEFu8, 0x44u8, 0x44u8]
                } else if l <= 35 {
                    seq![0xF5u8, 0x9Eu8, 0x0Bu8]
                } else {
                    seq![0x22u8, 0xC5u8, 0x5Eu8]
                },
                None => seq![0x22u8, 0xC5u8, 0x5Eu8],
            };
            let c = color_of(State::On { battery, charging, bt });
            &&& c.len() == 3
            &&& (!charging || battery == Some(100u8)) ==> c == band
            &&& (charging && battery != Some(100u8)) ==> c != band
                && forall|i: int| 0 <= i < 3 ==> band[i] <= #[trigger] c[i] <= PAPER[i]
        }),
{
    let band = match battery {
        Some(l) => if l <= 15 {
            seq![0xEFu8, 0x44u8, 0x44u8]
        } else if l <= 35 {
            seq![0xF5u8, 0x9Eu8, 0x0Bu8]
        } else {
            seq![0x22u8, 0xC5u8, 0x5Eu8]
        },
        None => seq![0x22u8, 0xC5u8, 0x5Eu8],
    };
    assert(band_of(battery)@ =~= band);
    let c = color_of(State::On { battery, charging, bt });
    if charging && battery != Some(100u8) {
        assert(c[0] != band[0]);
    }
}

/// Only a Bluetooth answer marks the icon: a filled badge exactly when a device is
/// connected, a hollow one when Bluetooth is on with nothing connected or pairing, and none
/// otherwise.
pub proof fn lemma_badge_reads_bluetooth(s: State)
    ensures
        badge_of(s) == Badge::Filled <==> (s matches State::On { bt: Some(Bt::Connected), .. }),
        badge_of(s) == Badge::Hollow <==> ((s matches State::On { bt: Some(Bt::Unconnected), .. })
            || (s matches State::On { bt: Some(Bt::Pairing), .. })),
{
}

/// How far the level has to climb before a warning is given up. The low warning (35%) is
/// held up to 40% and given up above it; the nearly-empty warning (15%) is held up to 20%,
/// gives way to the low one up to 40%, and to none above. Climbing never announces.
pub proof fn lemma_warning_rearms(announced: u8, level: u8, charging: bool, bt: Option<Bt>)
    ensures
        ({
            let r = watch_step(Some(announced), State::On { battery: Some(level), charging, bt });
            &&& announced == 1 && 35 < level <= 40 ==> r == (Some(1u8), None::<(u8, u8)>)
            &&& announced == 1 && 40 < level ==> r == (Some(0u8), None::<(u8, u8)>)
            &&& announced == 2 && 15 < level <= 20 ==> r == (Some(2u8), None::<(u8, u8)>)
            &&& announced == 2 && 20 < level <= 40 ==> r == (Some(1u8), None::<(u8, u8)>)
            &&& announced == 2 && 40 < level ==> r == (Some(0u8), None::<(u8, u8)>)
            &&& announced == 0 && 35 < level ==> r == (Some(0u8), None::<(u8, u8)>)
        }),
{
}

/// A battery reply that is too short, or whose status byte is neither discharging (0x00) nor
/// charging (0x01), such as the device's own 0x02 "error", reads as level unknown and not
/// charging.
pub proof fn lemma_unreadable_battery_is_unknown(params: Seq<u8>)
    requires
        params.len() < 2 || (params[0] != 0x00u8 && params[0] != 0x01u8),
    ensures
        battery_reading(params) == (None::<u8>, false),
{
}

/// The Bluetooth reply: 0x00 first means Bluetooth is off; 0x01 first, then 0x00, 0x01 or
/// 0x02, means on with nothing connected, connected, or pairing. Anything else, a one-byte
/// "on" among it, is no answer, which stays apart from a confident "off".
pub proof fn lemma_bluetooth_reading(params: Seq<u8>)
    ensures
        params.len() >= 1 && params[0] == 0x00u8 ==> bt_reading(params) == Some(Bt::Off),
        params.len() >= 2 && params[0] == 0x01u8 ==> bt_reading(params) == (if params[1] == 0x00u8 {
            Some(Bt::Unconnected)
        } else if params[1] == 0x01u8 {
            Some(Bt::Connected)
        } else if params[1] == 0x02u8 {
            Some(Bt::Pairing)
        } else {
            None
        }),
        params.len() == 1 && params[0] == 0x01u8 ==> bt_reading(params) is None,
        (params.len() == 0 || (params[0] != 0x00u8 && params[0] != 0x01u8)) ==> bt_reading(params) is None,
{
}

/// Which of the tooltip's messages a state takes.
pub open spec fn tip_kind(s: State) -> int {
    match s {
        State::On { .. } => 0,
        State::Pairing => 1,
        State::Off => 2,
        State::HubBusy => 3,
        State::NoDongle { .. } => 4,
        State::Error(_) => 5,
    }
}

/// The two characters that open a tooltip's message, right after "INZONE: ".
pub open spec fn tip_mark(s: State, lang: Lang) -> (char, char) {
    match (lang, s) {
        (Lang::En, State::On { .. }) => ('O', 'n'),
        (Lang::En, State::Pairing) => ('p', 'a'),
        (Lang::En, State::Off) => ('h', 'e'),
        (Lang::En, State::HubBusy) => ('p', 'o'),
        (Lang::En, State::NoDongle { .. }) => ('r', 'e'),
        (Lang::En, State::Error(_)) => ('e', 'r'),
        (Lang::Ja, State::On { .. }) => ('オ', 'ン'),
        (Lang::Ja, State::Pairing) => ('ペ', 'ア'),
        (Lang::Ja, State::Off) => ('ヘ', 'ッ'),
        (Lang::Ja, State::HubBusy) => ('ポ', 'ー'),
        (Lang::Ja, State::NoDongle { .. }) => ('レ', 'シ'),
        (Lang::Ja, State::Error(_)) => ('エ', 'ラ'),
    }
}

proof fn lemma_tooltip_opens(s: State, lang: Lang)
    ensures
        tooltip_text(s, lang).len() >= 10,
        tooltip_text(s, lang).take(8) == "INZONE: "@,
        tooltip_text(s, lang)[8] == tip_mark(s, lang).0,
        tooltip_text(s, lang)[9] == tip_mark(s, lang).1,
{
    reveal_strlit("INZONE: ");
    reveal_strlit("INZONE: ヘッドセット電源オフ");
    reveal_strlit("INZONE: headset off");
    reveal_strlit("INZONE: ペアリング中");
    reveal_strlit("INZONE: pairing");
    reveal_strlit("INZONE: ポートが使用中（INZONE Hub を閉じると復帰します）");
    reveal_strlit("INZONE: port in use (close INZONE Hub to resume)");
    reveal_strlit("INZONE: レシーバーが見つかりません");
    reveal_strlit("INZONE: レシーバーが見つかりません（判別できないポートが ");
    reveal_strlit("INZONE: receiver not found");
    reveal_strlit("INZONE: receiver not found (could not identify ");
    reveal_strlit("INZONE: エラー（");
    reveal_strlit("INZONE: error (");
    reveal_strlit("オン（充電中 ");
    reveal_strlit("On (charging, ");
    reveal_strlit("オン（バッテリー ");
    reveal_strlit("On (battery ");
    reveal_strlit("オン（充電中）");
    reveal_strlit("On (charging)");
    reveal_strlit("オン");
    reveal_strlit("On");
    let t = tooltip_text(s, lang);
    assert(t.take(8) =~= "INZONE: "@);
}

/// A tooltip names its kind of state in its first words: on, pairing, off, port held by
/// the Hub, receiver not found and error never read alike, in either language; and the
/// Japanese and English tooltips for one state differ from the first word on.
pub proof fn lemma_tooltip_tells_states_apart(s: State, t: State, lang: Lang)
    ensures
        tooltip_text(s, lang).take(8) == "INZONE: "@,
        tip_kind(s) != tip_kind(t) ==> tooltip_text(s, lang) != tooltip_text(t, lang),
        tooltip_text(s, Lang::Ja) != tooltip_text(s, Lang::En),
{
    lemma_tooltip_opens(s, lang);
    lemma_tooltip_opens(t, lang);
    lemma_tooltip_opens(s, Lang::Ja);
    lemma_tooltip_opens(s, Lang::En);
}

proof fn lemma_bt_texts_differ(lang: Lang, x: Bt, y: Bt)
    requires
        x != y,
    ensures
        bt_text(lang, x) != bt_text(lang, y),
{
    reveal_strlit("Bluetooth 接続済み");
    reveal_strlit("Bluetooth connected");
    reveal_strlit("Bluetooth ペアリング中");
    reveal_strlit("Bluetooth pairing");
    reveal_strlit("Bluetooth オン（未接続）");
    reveal_strlit("Bluetooth on, not connected");
    reveal_strlit("Bluetooth オフ");
    reveal_strlit("Bluetooth off");
    let a = bt_text(lang, x);
    let b = bt_text(lang, y);
    assert(a[10] != b[10] || a[11] != b[11]);
}

/// The Bluetooth clause of an on-tooltip, separator included.
pub open spec fn bt_tail(lang: Lang, bt: Option<Bt>) -> Seq<char> {
    match (lang, bt) {
        (_, None) => Seq::empty(),
        (Lang::Ja, Some(b)) => "、"@ + bt_text(lang, b),
        (Lang::En, Some(b)) => ", "@ + bt_text(lang, b),
    }
}

proof fn lemma_on_tooltip_parts(lang: Lang, battery: Option<u8>, charging: bool, bt: Option<Bt>)
    ensures
        tooltip_text(State::On { battery, charging, bt }, lang) == "INZONE: "@ + power_text(lang, battery, charging)
            + bt_tail(lang, bt),
{
    let t = tooltip_text(State::On { battery, charging, bt }, lang);
    let p = "INZONE: "@ + power_text(lang, battery, charging);
    match (lang, bt) {
        (_, None) => assert(p + bt_tail(lang, bt) =~= p),
        (Lang::Ja, Some(b)) => assert(p + bt_tail(lang, bt) =~= p + "、"@ + bt_text(lang, b)),
        (Lang::En, Some(b)) => assert(p + bt_tail(lang, bt) =~= p + ", "@ + bt_text(lang, b)),
    }
}

/// An on-tooltip reads back what was read from the headset: two levels, or a level and
/// none, never give the same tooltip, nor do two different Bluetooth answers, or an answer
/// and none.
pub proof fn lemma_tooltip_tells_level_and_bluetooth(
    lang: Lang,
    a: Option<u8>,
    b: Option<u8>,
    charging: bool,
    x: Option<Bt>,
    y: Option<Bt>,
)
    ensures
        a != b ==> tooltip_text(State::On { battery: a, charging, bt: x }, lang) != tooltip_text(
            State::On { battery: b, charging, bt: x },
            lang,
        ),
        x != y ==> tooltip_text(State::On { battery: a, charging, bt: x }, lang) != tooltip_text(
            State::On { battery: a, charging, bt: y },
            lang,
        ),
{
    reveal_strlit("INZONE: ");
    reveal_strlit("オン（充電中 ");
    reveal_strlit("On (charging, ");
    reveal_strlit("オン（バッテリー ");
    reveal_strlit("On (battery ");
    reveal_strlit("オン（充電中）");
    reveal_strlit("On (charging)");
    reveal_strlit("オン");
    reveal_strlit("On");
    reveal_strlit("%）");
    reveal_strlit("%)");
    reveal_strlit("、");
    reveal_strlit(", ");
    lemma_on_tooltip_parts(lang, a, charging, x);
    lemma_on_tooltip_parts(lang, b, charging, x);
    lemma_on_tooltip_parts(lang, a, charging, y);
    let tail = bt_tail(lang, x);
    if a != b {
        let ta = "INZONE: "@ + power_text(lang, a, charging) + tail;
        let tb = "INZONE: "@ + power_text(lang, b, charging) + tail;
        match (a, b) {
            (Some(p), Some(q)) => {
                let (lead, rest) = match (lang, charging) {
                    (Lang::Ja, true) => ("INZONE: "@ + "オン（充電中 "@, "%）"@),
                    (Lang::En, true) => ("INZONE: "@ + "On (charging, "@, "%)"@),
                    (Lang::Ja, false) => ("INZONE: "@ + "オン（バッテリー "@, "%）"@),
                    (Lang::En, false) => ("INZONE: "@ + "On (battery "@, "%)"@),
                };
                assert(ta =~= lead + decimal(p as nat) + (rest + tail));
                assert(tb =~= lead + decimal(q as nat) + (rest + tail));
                if ta == tb {
                    lemma_number_reads_back(lead, p as nat, rest + tail, q as nat, rest + tail);
                }
            },
            (Some(p), None) => {
                lemma_some_level_differs(lang, p, charging, tail);
            },
            (None, Some(q)) => {
                lemma_some_level_differs(lang, q, charging, tail);
            },
            (None, None) => {},
        }
    }
    if x != y {
        let p = "INZONE: "@ + power_text(lang, a, charging);
        let tx = p + bt_tail(lang, x);
        let ty = p + bt_tail(lang, y);
        match (x, y) {
            (Some(bx), Some(by)) => {
                lemma_bt_texts_differ(lang, bx, by);
                let n: int = p.len() + (if lang == Lang::Ja { 1int } else { 2int });
                assert(tx.skip(n) =~= bt_text(lang, bx));
                assert(ty.skip(n) =~= bt_text(lang, by));
            },
            _ => {
                assert(tx.len() != ty.len());
            },
        }
    }
}

proof fn lemma_some_level_differs(lang: Lang, p: u8, charging: bool, tail: Seq<char>)
    requires
        tail.len() == 0 || tail[0] == '、' || tail[0] == ',',
    ensures
        "INZONE: "@ + power_text(lang, Some(p), charging) + tail != "INZONE: "@ + power_text(lang, None, charging)
            + tail,
{
    reveal_strlit("INZONE: ");
    reveal_strlit("オン（充電中 ");
    reveal_strlit("On (charging, ");
    reveal_strlit("オン（バッテリー ");
    reveal_strlit("On (battery ");
    reveal_strlit("オン（充電中）");
    reveal_strlit("On (charging)");
    reveal_strlit("オン");
    reveal_strlit("On");
    reveal_strlit("%）");
    reveal_strlit("%)");
    lemma_decimal_digits(p as nat);
    let s1 = "INZONE: "@ + power_text(lang, Some(p), charging) + tail;
    let s0 = "INZONE: "@ + power_text(lang, None, charging) + tail;
    match (lang, charging) {
        (Lang::Ja, true) => assert(s1[14] != s0[14]),
        (Lang::En, true) => assert(s1[20] != s0[20]),
        (Lang::Ja, false) => if tail.len() == 0 {
            assert(s1.len() != s0.len());
        } else {
            assert(s1[10] != s0[10]);
        },
        (Lang::En, false) => if tail.len() == 0 {
            assert(s1.len() != s0.len());
        } else {
            assert(s1[10] != s0[10]);
        },
    }
}

} // verus!
