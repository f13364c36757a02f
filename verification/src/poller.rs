//! The decisions of the tray's two loops: how long the poller waits between polls, which
//! transaction ids it spends, and what the tray does with each reading it is handed. The
//! threads, the timers and the drawing belong to the program.

use vstd::prelude::*;

use crate::settings::Settings;
use crate::state::{
    crossing_text, notification_body_text, powered_of, watch_step, BatteryWatch, Bt, Cause, State,
};
use crate::text::Lang;

verus! {

/// The state is read this often, in seconds.
pub const POLL_INTERVAL_SECS: u64 = 15;
/// Failures stretch the interval up to this, so an absent or wedged receiver is not opened
/// every fifteen seconds forever.
pub const POLL_BACKOFF_MAX_SECS: u64 = 120;

/// Whether a reading is an answer worth the normal interval. A port held by INZONE Hub is:
/// polling on at the normal pace is what brings the display back the moment the Hub closes.
pub open spec fn healthy_spec(s: State) -> bool {
    !(s matches State::Error(_)) && !(s matches State::NoDongle { .. })
}

pub fn healthy(s: &State) -> (h: bool)
    ensures
        h == healthy_spec(*s),
{
    match s {
        State::Error(_) => false,
        State::NoDongle { .. } => false,
        _ => true,
    }
}

/// The wait before the next poll: the normal interval after a healthy reading, and twice
/// the last wait, capped, after a failed one.
pub open spec fn next_wait_spec(wait: u64, healthy: bool) -> u64 {
    if healthy {
        POLL_INTERVAL_SECS
    } else if 2 * wait as int >= POLL_BACKOFF_MAX_SECS as int {
        POLL_BACKOFF_MAX_SECS
    } else {
        (2 * wait) as u64
    }
}

pub fn next_wait(wait: u64, healthy: bool) -> (w: u64)
    ensures
        w == next_wait_spec(wait, healthy),
{
    if healthy {
        POLL_INTERVAL_SECS
    } else if wait >= POLL_BACKOFF_MAX_SECS / 2 {
        POLL_BACKOFF_MAX_SECS
    } else {
        2 * wait
    }
}

/// The wait never leaves the normal interval and the cap: a run of failures stretches it
/// to 30, 60 and then 120 seconds, and one healthy reading puts it back.
pub proof fn lemma_wait_stays_in_bounds(wait: u64, healthy: bool)
    requires
        POLL_INTERVAL_SECS <= wait <= POLL_BACKOFF_MAX_SECS,
    ensures
        POLL_INTERVAL_SECS <= next_wait_spec(wait, healthy) <= POLL_BACKOFF_MAX_SECS,
        healthy ==> next_wait_spec(wait, healthy) == POLL_INTERVAL_SECS,
        !healthy ==> next_wait_spec(wait, healthy) >= wait,
{
}

/// A failed reading doubles the wait up to two minutes, so from the normal fifteen seconds a
/// run of failures waits 30, 60, 120 and then 120 seconds again; a healthy one goes back to
/// fifteen at once.
pub proof fn lemma_backoff_doubles(wait: u64)
    ensures
        next_wait_spec(wait, true) == 15,
        wait <= 60 ==> next_wait_spec(wait, false) == 2 * wait,
        wait >= 60 ==> next_wait_spec(wait, false) == 120,
        next_wait_spec(15, false) == 30,
        next_wait_spec(next_wait_spec(15, false), false) == 60,
        next_wait_spec(next_wait_spec(next_wait_spec(15, false), false), false) == 120,
        next_wait_spec(120, false) == 120,
{
}

/// The wait after the device set changed: whatever the backoff was measuring is no longer
/// the situation, so a receiver that just came back is read again at the normal pace.
pub fn wait_after_wake() -> (w: u64)
    ensures
        w == POLL_INTERVAL_SECS,
{
    POLL_INTERVAL_SECS
}

/// A poll spends three transaction ids (link, battery, Bluetooth); stepping by four keeps
/// the next round clear of them. Wraps at sixteen bits.
pub fn next_tid(tid: u16) -> (t: u16)
    ensures
        t as int == (tid as int + 4) % 65536,
{
    if tid >= 65532 {
        tid - 65532
    } else {
        tid + 4
    }
}

/// Two readings that say the same thing, comparing quoted text by its characters.
pub open spec fn same_cause(a: Cause, b: Cause) -> bool {
    match (a, b) {
        (Cause::Dtr(x), Cause::Dtr(y)) => x@ == y@,
        (Cause::Enumerate(x), Cause::Enumerate(y)) => x@ == y@,
        (Cause::Open(x), Cause::Open(y)) => x@ == y@,
        (Cause::Io(x), Cause::Io(y)) => x@ == y@,
        (Cause::PortClosed, Cause::PortClosed) => true,
        (Cause::NoReply { detail: d1, unusable: u1 }, Cause::NoReply { detail: d2, unusable: u2 }) => u1 == u2
            && match (d1, d2) {
            (Some(x), Some(y)) => x@ == y@,
            (None, None) => true,
            _ => false,
        },
        (Cause::EmptyReply, Cause::EmptyReply) => true,
        (Cause::UnknownLink(x), Cause::UnknownLink(y)) => x == y,
        (Cause::PollerStopped, Cause::PollerStopped) => true,
        _ => false,
    }
}

pub open spec fn same_reading(a: State, b: State) -> bool {
    match (a, b) {
        (State::Off, State::Off) => true,
        (State::Pairing, State::Pairing) => true,
        (
            State::On { battery: b1, charging: c1, bt: t1 },
            State::On { battery: b2, charging: c2, bt: t2 },
        ) => b1 == b2 && c1 == c2 && t1 == t2,
        (State::HubBusy, State::HubBusy) => true,
        (State::NoDongle { unidentified: u1 }, State::NoDongle { unidentified: u2 }) => u1 == u2,
        (State::Error(x), State::Error(y)) => same_cause(x, y),
        _ => false,
    }
}

fn same_text(a: &String, b: &String) -> (r: bool)
    ensures
        r == (a@ == b@),
{
    <String as PartialEq>::eq(a, b)
}

fn same_cause_exec(a: &Cause, b: &Cause) -> (r: bool)
    ensures
        r == same_cause(*a, *b),
{
    match (a, b) {
        (Cause::Dtr(x), Cause::Dtr(y)) => same_text(x, y),
        (Cause::Enumerate(x), Cause::Enumerate(y)) => same_text(x, y),
        (Cause::Open(x), Cause::Open(y)) => same_text(x, y),
        (Cause::Io(x), Cause::Io(y)) => same_text(x, y),
        (Cause::PortClosed, Cause::PortClosed) => true,
        (Cause::NoReply { detail: d1, unusable: u1 }, Cause::NoReply { detail: d2, unusable: u2 }) => {
            *u1 == *u2 && match (d1, d2) {
                (Some(x), Some(y)) => same_text(x, y),
                (None, None) => true,
                _ => false,
            }
        },
        (Cause::EmptyReply, Cause::EmptyReply) => true,
        (Cause::UnknownLink(x), Cause::UnknownLink(y)) => *x == *y,
        (Cause::PollerStopped, Cause::PollerStopped) => true,
        _ => false,
    }
}

fn same_bt(a: Option<Bt>, b: Option<Bt>) -> (r: bool)
    ensures
        r == (a == b),
{
    match (a, b) {
        (Some(x), Some(y)) => x == y,
        (None, None) => true,
        _ => false,
    }
}

fn same_level(a: Option<u8>, b: Option<u8>) -> (r: bool)
    ensures
        r == (a == b),
{
    match (a, b) {
        (Some(x), Some(y)) => x == y,
        (None, None) => true,
        _ => false,
    }
}

/// Whether two readings say the same thing.
pub fn same_state(a: &State, b: &State) -> (r: bool)
    ensures
        r == same_reading(*a, *b),
{
    match (a, b) {
        (State::Off, State::Off) => true,
        (State::Pairing, State::Pairing) => true,
        (
            State::On { battery: b1, charging: c1, bt: t1 },
            State::On { battery: b2, charging: c2, bt: t2 },
        ) => same_level(*b1, *b2) && *c1 == *c2 && same_bt(*t1, *t2),
        (State::HubBusy, State::HubBusy) => true,
        (State::NoDongle { unidentified: u1 }, State::NoDongle { unidentified: u2 }) => *u1 == *u2,
        (State::Error(x), State::Error(y)) => same_cause_exec(x, y),
        _ => false,
    }
}

/// What the tray does about one new reading: the notifications to show (each only if its
/// switch is on) and that the icon is to be redrawn.
pub struct Reaction {
    pub power: Option<String>,
    pub battery: Option<String>,
}

/// What the tray has told the user, and whether the shell took the last drawing.
pub struct Tray {
    shown: Option<State>,
    painted: bool,
    watch: BatteryWatch,
}

impl Tray {
    /// The reading on screen, if any.
    pub closed spec fn shown_spec(&self) -> Option<State> {
        self.shown
    }

    /// Whether the shell accepted the last drawing.
    pub closed spec fn painted_spec(&self) -> bool {
        self.painted
    }

    /// The battery warning's memory.
    pub closed spec fn watch_spec(&self) -> Option<u8> {
        self.watch@
    }

    pub fn new() -> (t: Tray)
        ensures
            t.shown_spec() is None,
            !t.painted_spec(),
            t.watch_spec() is None,
    {
        Tray { shown: None, painted: false, watch: BatteryWatch::new() }
    }

    pub fn shown(&self) -> (s: Option<&State>)
        ensures
            match (s, self.shown_spec()) {
                (Some(a), Some(b)) => *a == b,
                (None, None) => true,
                _ => false,
            },
    {
        match &self.shown {
            Some(s) => Some(s),
            None => None,
        }
    }

    /// Takes one reading from the poller. A reading identical to what is on screen is not
    /// news and changes nothing (`None`). Otherwise the battery watch sees it whether or not
    /// its warning is wanted, so switching the warning back on does not fire for a fall
    /// that happened while it was off; the power notification follows `notification_for`;
    /// and the reading becomes what is shown, to be drawn.
    pub fn receive(&mut self, lang: Lang, settings: &Settings, state: State) -> (r: Option<Reaction>)
        ensures
            match old(self).shown_spec() {
                Some(p) => same_reading(p, state),
                None => false,
            } ==> (r is None && final(self).shown_spec() == old(self).shown_spec()
                && final(self).painted_spec() == old(self).painted_spec()
                && final(self).watch_spec() == old(self).watch_spec()),
            !match old(self).shown_spec() {
                Some(p) => same_reading(p, state),
                None => false,
            } ==> ({
                let step = watch_step(old(self).watch_spec(), state);
                &&& final(self).shown_spec() == Some(state)
                &&& final(self).painted_spec() == old(self).painted_spec()
                &&& final(self).watch_spec() == step.0
                &&& r matches Some(re)
                &&& match (re.battery, step.1) {
                    (Some(t), Some(c)) => settings.notify_battery && t@ == crossing_text(lang, c),
                    (None, Some(_)) => !settings.notify_battery,
                    (None, None) => true,
                    _ => false,
                }
                &&& match old(self).shown_spec() {
                    Some(p) => match (powered_of(p), powered_of(state)) {
                        (Some(before), Some(now)) => if before != now && settings.notify_power {
                            match (re.power, notification_body_text(state, lang)) {
                                (Some(b), Some(t)) => b@ == t,
                                _ => false,
                            }
                        } else {
                            re.power is None
                        },
                        _ => re.power is None,
                    },
                    None => re.power is None,
                }
            }),
    {
        let unchanged = match &self.shown {
            Some(p) => same_state(p, &state),
            None => false,
        };
        if unchanged {
            return None;
        }
        let low = self.watch.observe(lang, &state);
        let power = match crate::state::notification_for(lang, self.shown.as_ref(), &state) {
            Some(body) => if settings.notify_power {
                Some(body)
            } else {
                None
            },
            None => None,
        };
        let battery = match low {
            Some(body) => if settings.notify_battery {
                Some(body)
            } else {
                None
            },
            None => None,
        };
        self.shown = Some(state);
        Some(Reaction { power, battery })
    }

    /// Records whether the shell accepted the drawing just made.
    pub fn set_painted(&mut self, ok: bool)
        ensures
            final(self).painted_spec() == ok,
            final(self).shown_spec() == old(self).shown_spec(),
            final(self).watch_spec() == old(self).watch_spec(),
    {
        self.painted = ok;
    }

    /// Whether the reading on screen has to be drawn again: the icon size changed, or the
    /// shell refused the last drawing (it can, while Explorer restarts), and the reading that
    /// failed will not be sent again while the headset stays as it is.
    pub fn needs_repaint(&self, resized: bool) -> (r: bool)
        ensures
            r == (self.shown_spec() is Some && (resized || !self.painted_spec())),
    {
        self.shown.is_some() && (resized || !self.painted)
    }
}

} // verus!
