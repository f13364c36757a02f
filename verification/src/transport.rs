//! The decisions around one poll of the receiver: which serial port is the receiver, what a
//! refused open means, how the bytes of one request and reply are gathered, and what the
//! answers add up to. Opening the port, reading and writing it, and the clock belong to the
//! program, which hands the results to the functions here.

use vstd::prelude::*;

use crate::protocol::{
    describe_decode_error, lemma_scan_extends, lemma_scan_shift, scan, scan_from, take_answer, DecodeError,
    Scan, CONN_CONNECTED, CONN_PAIRING, CONN_UNCONNECTED,
};
use crate::state::{battery_reading, bt_reading, interpret_battery, interpret_bt, Bt, Cause, State};

verus! {

/// The receiver's USB vendor and product ids.
pub const VID: u16 = 0x054C;
pub const PID: u16 = 0x0E53;

/// What the port listing says a serial port is.
#[derive(PartialEq, Eq, Clone, Copy, Debug, Structural)]
pub enum PortKind {
    /// A USB device with these ids.
    Usb { vid: u16, pid: u16 },
    /// A port that could not be identified at all: a composite device whose parent would not
    /// resolve, or a port found only in the registry. The receiver may be one of these.
    Unknown,
    /// Identified, and not USB.
    Other,
}

/// One entry of the port listing.
#[derive(PartialEq, Eq, Clone, Debug)]
pub struct PortInfo {
    pub port_name: String,
    pub kind: PortKind,
}

/// The first entry that is the receiver, if any, and how many entries before it could not
/// be identified.
pub open spec fn choose_from(ports: Seq<PortInfo>, i: int, unidentified: nat) -> (Option<Seq<char>>, nat)
    decreases ports.len() - i,
{
    if i < 0 || i >= ports.len() {
        (None, unidentified)
    } else {
        match ports[i].kind {
            PortKind::Usb { vid, pid } => if vid == VID && pid == PID {
                (Some(ports[i].port_name@), unidentified)
            } else {
                choose_from(ports, i + 1, unidentified)
            },
            PortKind::Unknown => choose_from(ports, i + 1, unidentified + 1),
            PortKind::Other => choose_from(ports, i + 1, unidentified),
        }
    }
}

/// Whether a port is the receiver: a USB device with both of its ids.
pub open spec fn is_receiver(kind: PortKind) -> bool {
    kind == (PortKind::Usb { vid: 0x054C, pid: 0x0E53 })
}

/// How many entries of a listing could not be identified at all.
pub open spec fn unknown_count(ports: Seq<PortInfo>) -> nat
    decreases ports.len(),
{
    if ports.len() == 0 {
        0
    } else {
        (if ports[0].kind == PortKind::Unknown { 1nat } else { 0nat }) + unknown_count(ports.skip(1))
    }
}

proof fn lemma_choose_from_outcome(ports: Seq<PortInfo>, i: int, u: nat)
    requires
        0 <= i <= ports.len(),
    ensures
        ({
            let c = choose_from(ports, i, u);
            match c.0 {
                Some(n) => exists|k: int|
                    i <= k < ports.len() && #[trigger] is_receiver(ports[k].kind) && n == ports[k].port_name@
                        && (forall|j: int| i <= j < k ==> !is_receiver(#[trigger] ports[j].kind))
                        && c.1 == u + unknown_count(ports.subrange(i, k)),
                None => (forall|j: int| i <= j < ports.len() ==> !is_receiver(#[trigger] ports[j].kind))
                    && c.1 == u + unknown_count(ports.subrange(i, ports.len() as int)),
            }
        }),
    decreases ports.len() - i,
{
    if i < ports.len() {
        let add: nat = if ports[i].kind == PortKind::Unknown { 1nat } else { 0nat };
        if is_receiver(ports[i].kind) {
            assert(unknown_count(ports.subrange(i, i)) == 0);
        } else {
            lemma_choose_from_outcome(ports, i + 1, u + add);
            assert(choose_from(ports, i, u) == choose_from(ports, i + 1, u + add));
            let c = choose_from(ports, i, u);
            match c.0 {
                Some(n) => {
                    let k = choose|k: int|
                        i + 1 <= k < ports.len() && #[trigger] is_receiver(ports[k].kind)
                            && n == ports[k].port_name@
                            && (forall|j: int| i + 1 <= j < k ==> !is_receiver(#[trigger] ports[j].kind))
                            && c.1 == u + add + unknown_count(ports.subrange(i + 1, k));
                    assert(ports.subrange(i, k).skip(1) =~= ports.subrange(i + 1, k));
                    assert(is_receiver(ports[k].kind));
                },
                None => {
                    assert(ports.subrange(i, ports.len() as int).skip(1) =~= ports.subrange(i + 1, ports.len() as int));
                },
            }
        }
    }
}

/// The receiver is the first entry on the listing with both of its ids, and the count is
/// the entries ahead of it that could not be identified at all (of the whole listing when
/// the receiver is not on it). A port identified as not USB, or as some other USB device,
/// is never counted.
pub proof fn lemma_choose_port_counts_unknown(ports: Seq<PortInfo>)
    ensures
        ({
            let c = choose_from(ports, 0, 0);
            match c.0 {
                Some(n) => exists|k: int|
                    0 <= k < ports.len() && #[trigger] is_receiver(ports[k].kind) && n == ports[k].port_name@
                        && (forall|j: int| 0 <= j < k ==> !is_receiver(#[trigger] ports[j].kind))
                        && c.1 == unknown_count(ports.take(k)),
                None => (forall|j: int| 0 <= j < ports.len() ==> !is_receiver(#[trigger] ports[j].kind))
                    && c.1 == unknown_count(ports),
            }
        }),
{
    lemma_choose_from_outcome(ports, 0, 0);
    assert(ports.subrange(0, ports.len() as int) =~= ports);
    let c = choose_from(ports, 0, 0);
    if let Some(n) = c.0 {
        let k = choose|k: int|
            0 <= k < ports.len() && #[trigger] is_receiver(ports[k].kind) && n == ports[k].port_name@
                && (forall|j: int| 0 <= j < k ==> !is_receiver(#[trigger] ports[j].kind))
                && c.1 == unknown_count(ports.subrange(0, k));
        assert(ports.subrange(0, k) =~= ports.take(k));
    }
}

/// The receiver's port if it is on the list, and how many entries could not be identified.
/// Both halves of the id are checked: a vendor id alone would take any other serial device
/// Sony makes.
pub fn choose_port(ports: &[PortInfo]) -> (r: (Option<String>, usize))
    ensures
        ({
            let c = choose_from(ports@, 0, 0);
            &&& r.1 == c.1
            &&& match (r.0, c.0) {
                (Some(n), Some(m)) => n@ == m,
                (None, None) => true,
                _ => false,
            }
        }),
{
    let mut unidentified: usize = 0;
    let mut i: usize = 0;
    while i < ports.len()
        invariant
            i <= ports@.len(),
            unidentified <= i,
            choose_from(ports@, 0, 0) == choose_from(ports@, i as int, unidentified as nat),
        decreases ports@.len() - i,
    {
        match ports[i].kind {
            PortKind::Usb { vid, pid } => {
                if vid == VID && pid == PID {
                    return (Some(ports[i].port_name.clone()), unidentified);
                }
            },
            PortKind::Unknown => {
                unidentified = unidentified + 1;
            },
            PortKind::Other => {},
        }
        i = i + 1;
    }
    (None, unidentified)
}

/// What a failed open means. The port listing named this port a moment earlier, and the
/// serial layer folds "access denied" into the same "no device" kind as "gone", so a refusal
/// means another process holds it: in practice INZONE Hub. Anything else is a fault and
/// keeps its message. An unplug inside that window is corrected by the next poll.
pub fn classify_open_error(no_device: bool, description: String) -> (s: State)
    ensures
        no_device ==> s == State::HubBusy,
        !no_device ==> (s matches State::Error(Cause::Open(d)) && d@ == description@),
{
    if no_device {
        State::HubBusy
    } else {
        State::Error(Cause::Open(description))
    }
}

/// The bytes of one request and reply, gathered as they arrive. The program writes the
/// request, then feeds each read here until an answer comes back or its deadline passes.
pub struct Exchange {
    event_id: u8,
    tid: u16,
    buf: Vec<u8>,
    last_err: Option<DecodeError>,
    /// Every byte received, including those the scan drained as unusable.
    received: usize,
    /// All the bytes received, in order.
    all: Ghost<Seq<u8>>,
    /// How many of them the scans have consumed.
    consumed: Ghost<nat>,
}

impl Exchange {
    pub closed spec fn event_id(&self) -> u8 {
        self.event_id
    }

    pub closed spec fn tid(&self) -> u16 {
        self.tid
    }

    /// The bytes still held, not yet consumed by the scan.
    pub closed spec fn pending(&self) -> Seq<u8> {
        self.buf@
    }

    /// The first decode failure met so far.
    pub closed spec fn first_error(&self) -> Option<DecodeError> {
        self.last_err
    }

    /// Bytes received so far, saturating at the top of `usize`.
    pub closed spec fn received(&self) -> usize {
        self.received
    }

    /// Every byte received so far, in order.
    pub closed spec fn received_bytes(&self) -> Seq<u8> {
        self.all@
    }

    /// The exchange so far agrees with scanning everything received at once: what is still
    /// held is what follows the consumed bytes, and however the stream goes on, scanning all
    /// of it once it ends finds what the pending scan will, behind the failures already met.
    pub closed spec fn faithful(&self) -> bool {
        &&& self.consumed@ <= self.all@.len()
        &&& self.buf@ == self.all@.skip(self.consumed@ as int)
        &&& self.received == (if self.all@.len() > usize::MAX { usize::MAX as int } else { self.all@.len() as int })
        &&& forall|ext: Seq<u8>|
            #![trigger scan(self.all@ + ext, self.event_id, self.tid, Scan::StreamEnded)]
            {
                let f = scan(self.all@ + ext, self.event_id, self.tid, Scan::StreamEnded);
                let t = scan_from(self.all@ + ext, self.consumed@ as int, self.event_id, self.tid, Scan::StreamEnded);
                &&& f.0 == t.0
                &&& f.1 == t.1
                &&& f.2 == (if self.last_err is Some { self.last_err } else { t.2 })
            }
    }

    pub fn new(event_id: u8, tid: u16) -> (e: Exchange)
        ensures
            e.event_id() == event_id,
            e.tid() == tid,
            e.pending() == Seq::<u8>::empty(),
            e.first_error() is None,
            e.received() == 0,
            e.received_bytes() == Seq::<u8>::empty(),
            e.faithful(),
    {
        let e = Exchange {
            event_id,
            tid,
            buf: Vec::new(),
            last_err: None,
            received: 0,
            all: Ghost(Seq::empty()),
            consumed: Ghost(0),
        };
        assert forall|ext: Seq<u8>| #![trigger scan(e.all@ + ext, e.event_id, e.tid, Scan::StreamEnded)]
            e.all@ + ext == ext by {
            assert(e.all@ + ext =~= ext);
        }
        assert(e.buf@ =~= e.all@.skip(0));
        e
    }

    /// Takes in one read's worth of bytes and scans for the answer, waiting on an incomplete
    /// frame because more may come.
    pub fn receive(&mut self, chunk: &[u8]) -> (answer: Option<Vec<u8>>)
        ensures
            final(self).event_id() == old(self).event_id(),
            final(self).tid() == old(self).tid(),
            final(self).received() == if old(self).received() + chunk@.len() > usize::MAX {
                usize::MAX as int
            } else {
                old(self).received() + chunk@.len()
            },
            ({
                let all = old(self).pending() + chunk@;
                let r = scan(all, old(self).event_id(), old(self).tid(), Scan::MoreMayCome);
                &&& final(self).pending() == all.skip(r.0 as int)
                &&& match (answer, r.1) {
                    (Some(a), Some(p)) => a@ == p,
                    (None, None) => true,
                    _ => false,
                }
                &&& final(self).first_error() == if old(self).first_error() is Some {
                    old(self).first_error()
                } else {
                    r.2
                }
            }),
            final(self).received_bytes() == old(self).received_bytes() + chunk@,
            old(self).faithful() && answer is None ==> final(self).faithful(),
            old(self).faithful() ==> match answer {
                Some(a) => scan(final(self).received_bytes(), old(self).event_id(), old(self).tid(), Scan::StreamEnded).1
                    == Some(a@),
                None => true,
            },
    {
        let ghost old_all = self.all@;
        let ghost c0 = self.consumed@;
        let ghost p = self.buf@;
        let ghost was_faithful = self.faithful();
        let ghost old_err = self.last_err;
        self.buf.extend_from_slice(chunk);
        assert(self.buf@ =~= old(self).buf@ + chunk@);
        self.received = if self.received > usize::MAX - chunk.len() {
            usize::MAX
        } else {
            self.received + chunk.len()
        };
        let ghost b = p + chunk@;
        let answer = take_answer(&mut self.buf, self.event_id, self.tid, &mut self.last_err, Scan::MoreMayCome);
        let ghost r = scan(b, self.event_id, self.tid, Scan::MoreMayCome);
        self.all = Ghost(old_all + chunk@);
        self.consumed = Ghost(c0 + r.0);
        proof {
            if was_faithful {
                let all2 = old_all + chunk@;
                assert(all2.skip(c0 as int) =~= b);
                assert(self.buf@ =~= all2.skip((c0 + r.0) as int));
                assert forall|ext: Seq<u8>|
                    #![trigger scan(all2 + ext, self.event_id, self.tid, Scan::StreamEnded)]
                    answer is None ==> {
                        let f = scan(all2 + ext, self.event_id, self.tid, Scan::StreamEnded);
                        let t = scan_from(all2 + ext, (c0 + r.0) as int, self.event_id, self.tid, Scan::StreamEnded);
                        &&& f.0 == t.0
                        &&& f.1 == t.1
                        &&& f.2 == (if self.last_err is Some { self.last_err } else { t.2 })
                    } by {
                    let x = all2 + ext;
                    assert(old_all + (chunk@ + ext) =~= x);
                    assert(scan(old_all + (chunk@ + ext), self.event_id, self.tid, Scan::StreamEnded)
                        == scan(x, self.event_id, self.tid, Scan::StreamEnded));
                    assert(x.skip(c0 as int) =~= b + ext);
                    lemma_scan_shift(x, c0 as int, 0, self.event_id, self.tid, Scan::StreamEnded);
                    lemma_scan_extends(b, ext, 0, self.event_id, self.tid);
                    lemma_scan_consumed_le(b, self.event_id, self.tid);
                    lemma_scan_shift(x, c0 as int, r.0 as int, self.event_id, self.tid, Scan::StreamEnded);
                }
                if answer is Some {
                    let x = all2 + Seq::<u8>::empty();
                    assert(x =~= all2);
                    assert(old_all + (chunk@ + Seq::<u8>::empty()) =~= all2);
                    assert(scan(old_all + (chunk@ + Seq::<u8>::empty()), self.event_id, self.tid, Scan::StreamEnded)
                        == scan(all2, self.event_id, self.tid, Scan::StreamEnded));
                    assert(all2.skip(c0 as int) =~= b + Seq::<u8>::empty());
                    lemma_scan_shift(all2, c0 as int, 0, self.event_id, self.tid, Scan::StreamEnded);
                    lemma_scan_extends(b, Seq::<u8>::empty(), 0, self.event_id, self.tid);
                }
            }
        }
        answer
    }

    /// Nothing more is coming. Rescans without the benefit of the doubt, since an answer may
    /// sit behind a length that will never be satisfied, and otherwise says that nothing
    /// usable arrived: the first decode failure, if there was one, and how many bytes came.
    pub fn give_up(&mut self) -> (r: Result<Vec<u8>, Cause>)
        ensures
            ({
                let s = scan(old(self).pending(), old(self).event_id(), old(self).tid(), Scan::StreamEnded);
                let first = if old(self).first_error() is Some { old(self).first_error() } else { s.2 };
                match (r, s.1) {
                    (Ok(a), Some(p)) => a@ == p,
                    (Err(Cause::NoReply { detail, unusable }), None) => unusable == old(self).received()
                        && match (detail, first) {
                        (Some(d), Some(e)) => d@ == crate::protocol::describe_decode_error(e),
                        (None, None) => true,
                        _ => false,
                    },
                    _ => false,
                }
            }),
            old(self).faithful() ==> ({
                let s = scan(old(self).received_bytes(), old(self).event_id(), old(self).tid(), Scan::StreamEnded);
                match (r, s.1) {
                    (Ok(a), Some(p)) => a@ == p,
                    (Err(Cause::NoReply { detail, unusable }), None) => unusable == (if old(self).received_bytes().len()
                        > usize::MAX { usize::MAX as int } else { old(self).received_bytes().len() as int })
                        && match (detail, s.2) {
                        (Some(d), Some(e)) => d@ == describe_decode_error(e),
                        (None, None) => true,
                        _ => false,
                    },
                    _ => false,
                }
            }),
    {
        proof {
            if self.faithful() {
                let a = self.all@;
                assert(a + Seq::<u8>::empty() =~= a);
                assert(scan(a + Seq::<u8>::empty(), self.event_id, self.tid, Scan::StreamEnded)
                    == scan(a, self.event_id, self.tid, Scan::StreamEnded));
                lemma_scan_shift(a, self.consumed@ as int, 0, self.event_id, self.tid, Scan::StreamEnded);
            }
        }
        match take_answer(&mut self.buf, self.event_id, self.tid, &mut self.last_err, Scan::StreamEnded) {
            Some(p) => Ok(p),
            None => {
                let detail = match self.last_err {
                    Some(e) => Some(e.describe()),
                    None => None,
                };
                Err(Cause::NoReply { detail, unusable: self.received })
            },
        }
    }
}

proof fn lemma_scan_consumed_le(b: Seq<u8>, event_id: u8, tid: u16)
    ensures
        scan(b, event_id, tid, Scan::MoreMayCome).0 <= b.len(),
{
    crate::protocol::lemma_take_answer_outcome(b, event_id, tid, Scan::MoreMayCome);
}

/// What the link query's reply says. `Connected` means the headset is on and its battery and
/// Bluetooth are worth asking about next.
#[derive(PartialEq, Eq, Clone, Debug)]
pub enum Link {
    Known(State),
    Connected,
}

/// What a link reply's payload says.
pub open spec fn link_reading(params: Seq<u8>) -> Link {
    if params.len() == 0 {
        Link::Known(State::Error(Cause::EmptyReply))
    } else if params[0] == CONN_UNCONNECTED {
        Link::Known(State::Off)
    } else if params[0] == CONN_PAIRING {
        Link::Known(State::Pairing)
    } else if params[0] == CONN_CONNECTED {
        Link::Connected
    } else {
        Link::Known(State::Error(Cause::UnknownLink(params[0])))
    }
}

/// The link byte is the whole answer: 0x00 means the headset is off, 0x02 that it is
/// pairing, 0x01 that it is on and worth asking further; any other byte is an error that
/// quotes it, and an empty reply is an error of its own. Whatever follows the first byte
/// does not matter.
pub proof fn lemma_link_byte_decides(params: Seq<u8>, more: Seq<u8>)
    ensures
        params.len() == 0 ==> link_reading(params) == Link::Known(State::Error(Cause::EmptyReply)),
        params.len() > 0 ==> link_reading(params + more) == link_reading(params.take(1)),
        params.len() > 0 ==> link_reading(params) == (if params[0] == 0x00u8 {
            Link::Known(State::Off)
        } else if params[0] == 0x02u8 {
            Link::Known(State::Pairing)
        } else if params[0] == 0x01u8 {
            Link::Connected
        } else {
            Link::Known(State::Error(Cause::UnknownLink(params[0])))
        }),
{
}

pub fn read_link(params: &[u8]) -> (l: Link)
    ensures
        l == link_reading(params@),
{
    if params.len() == 0 {
        return Link::Known(State::Error(Cause::EmptyReply));
    }
    let conn = params[0];
    if conn == CONN_UNCONNECTED {
        Link::Known(State::Off)
    } else if conn == CONN_PAIRING {
        Link::Known(State::Pairing)
    } else if conn == CONN_CONNECTED {
        Link::Connected
    } else {
        Link::Known(State::Error(Cause::UnknownLink(conn)))
    }
}

/// The state of a headset that is on, from its battery and Bluetooth replies. Both are
/// addressed to the headset, so a missing reply means "it did not tell us", never "no".
pub fn headset_on(battery: Option<&[u8]>, bt: Option<&[u8]>) -> (s: State)
    ensures
        s == (State::On {
            battery: match battery {
                Some(b) => battery_reading(b@).0,
                None => None,
            },
            charging: match battery {
                Some(b) => battery_reading(b@).1,
                None => false,
            },
            bt: match bt {
                Some(p) => bt_reading(p@),
                None => None,
            },
        }),
{
    let empty: [u8; 0] = [];
    let (level, charging) = match battery {
        Some(b) => interpret_battery(b),
        None => interpret_battery(&empty),
    };
    let b: Option<Bt> = match bt {
        Some(p) => interpret_bt(p),
        None => None,
    };
    State::On { battery: level, charging, bt: b }
}

} // verus!
