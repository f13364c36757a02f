//! The Sony HCI frame format the receiver speaks, and the vocabulary of its payloads.
//!
//! Command (PC -> receiver), 4-byte HCI header then data:
//!   01 | 00 FC | param_len | 96 C3 | (dst<<4)|src | event_id | event_type | tid_lo tid_hi | checksum
//! Event (receiver -> PC), 3-byte HCI header then data:
//!   04 | FF | param_len | 00 | 96 C3 | (dst<<4)|src | event_id | event_type | tid_lo tid_hi | params.. | checksum
//! checksum = sum of every data byte (after the HCI header) modulo 256, checksum slot excluded.

use vstd::prelude::*;
use vstd::slice::slice_subrange;

use crate::numfmt::{decimal, hex2, push_decimal, push_hex2};


verus! {

pub const SRC_PC: u8 = 0x01;
/// The receiver.
pub const DST_TX: u8 = 0x02;
/// The headset itself.
pub const DST_RX: u8 = 0x04;

/// The two fixed bytes that open every frame's body in both directions.
pub const KEY_0: u8 = 0x96;
pub const KEY_1: u8 = 0xC3;

pub const EV_2GHZ_CONNECT_STATUS: u8 = 0x01;
pub const EV_BATTERY_INFO: u8 = 0x04;
pub const EV_BT_STATUS: u8 = 0x61;

pub const TYPE_GET: u8 = 0x01;
pub const TYPE_RET: u8 = 0x10;

/// dummy + key + address + event id + event type + transaction id + checksum: nothing
/// shorter than this is an event body.
pub const HEADSET_DATA_LENGTH_MIN: u8 = 9;

/// The receiver's link to the headset.
pub const CONN_UNCONNECTED: u8 = 0x00;
pub const CONN_CONNECTED: u8 = 0x01;
pub const CONN_PAIRING: u8 = 0x02;

/// The charge state byte. `0x02` (the device's own "error") is deliberately absent: it is
/// handled by not matching, which drops the level to unknown.
pub const BATT_DISCHARGING: u8 = 0x00;
pub const BATT_CHARGING: u8 = 0x01;

/// The first byte of an EV_BT_STATUS reply: whether Bluetooth itself is on.
pub const BT_OFF: u8 = 0x00;
pub const BT_ON: u8 = 0x01;
/// The second byte: whether anything is connected over it.
pub const BT_CONN_UNCONNECTED: u8 = 0x00;
pub const BT_CONN_CONNECTED: u8 = 0x01;
pub const BT_CONN_PAIRING: u8 = 0x02;

/// The sum of a byte sequence, as an integer.
pub open spec fn byte_sum(s: Seq<u8>) -> nat
    decreases s.len(),
{
    if s.len() == 0 {
        0
    } else {
        byte_sum(s.drop_last()) + s.last() as nat
    }
}

/// The frame checksum of `s`: its byte sum modulo 256.
pub open spec fn spec_checksum(s: Seq<u8>) -> u8 {
    (byte_sum(s) % 256) as u8
}

/// The data of a GET command, between the HCI header and the checksum.
pub open spec fn get_data(dst: u8, event_id: u8, tid: u16) -> Seq<u8> {
    seq![
        KEY_0,
        KEY_1,
        ((dst << 4u8) | SRC_PC) as u8,
        event_id,
        TYPE_GET,
        (tid % 256) as u8,
        (tid / 256) as u8,
    ]
}

/// A whole GET command frame: the HCI command header, the data, and its checksum.
pub open spec fn get_frame(dst: u8, event_id: u8, tid: u16) -> Seq<u8> {
    seq![0x01u8, 0x00u8, 0xFCu8, 0x08u8] + get_data(dst, event_id, tid) + seq![
        spec_checksum(get_data(dst, event_id, tid)),
    ]
}

/// Sum of every byte, wrapping at 256.
pub fn checksum(data: &[u8]) -> (cs: u8)
    ensures
        cs == spec_checksum(data@),
{
    let mut acc: u8 = 0;
    let mut i: usize = 0;
    while i < data.len()
        invariant
            i <= data@.len(),
            acc == spec_checksum(data@.take(i as int)),
        decreases data@.len() - i,
    {
        assert(data@.take(i + 1).drop_last() =~= data@.take(i as int));
        acc = ((acc as u16 + data[i] as u16) % 256) as u8;
        i = i + 1;
    }
    assert(data@.take(i as int) =~= data@);
    acc
}

/// A GET request for `event_id`, addressed to `dst`, under transaction id `tid`.
pub fn encode_get(dst: u8, event_id: u8, tid: u16) -> (frame: Vec<u8>)
    ensures
        frame@ == get_frame(dst, event_id, tid),
{
    let data: [u8; 7] = [
        KEY_0,
        KEY_1,
        (dst << 4u8) | SRC_PC,
        event_id,
        TYPE_GET,
        (tid % 256) as u8,
        (tid / 256) as u8,
    ];
    assert(data@ =~= get_data(dst, event_id, tid));
    let cs = checksum(&data);
    let mut frame: Vec<u8> = Vec::new();
    frame.push(0x01);
    frame.push(0x00);
    frame.push(0xFC);
    frame.push(0x08);
    let mut i: usize = 0;
    while i < 7
        invariant
            i <= 7,
            data@ == get_data(dst, event_id, tid),
            frame@ == seq![0x01u8, 0x00u8, 0xFCu8, 0x08u8] + data@.take(i as int),
        decreases 7 - i,
    {
        frame.push(data[i]);
        assert(data@.take(i + 1) =~= data@.take(i as int).push(data@[i as int]));
        i = i + 1;
    }
    frame.push(cs);
    assert(data@.take(7) =~= data@);
    assert(frame@ =~= get_frame(dst, event_id, tid));
    frame
}

/// Why a buffer is not the reply that was asked for.
#[derive(PartialEq, Eq, Clone, Copy, Debug)]
pub enum DecodeError {
    /// Fewer than the three bytes of an HCI event header.
    Short { len: usize },
    /// The first two bytes are not `04 FF`.
    NotVendorEvent { first: u8, second: u8 },
    /// The length byte is below the smallest body a frame can have.
    BelowMinimum { param_len: u8 },
    /// The length byte promises more than the buffer holds.
    Truncated { want: usize, have: usize },
    ChecksumMismatch,
    /// The body does not open with the Sony key.
    NotSony { first: u8, second: u8 },
    WrongEvent { got_event: u8, want_event: u8 },
    /// The event type is not RET.
    NotRet { event_type: u8 },
    WrongTransaction { got_tid: u16, want_tid: u16 },
}

/// What a buffer decodes to as the RET event for `event_id` under `tid`: the parameter
/// bytes, or the first check it fails. The checks run in this order; the address byte is
/// deliberately not checked.
pub open spec fn spec_decode(buf: Seq<u8>, event_id: u8, tid: u16) -> Result<Seq<u8>, DecodeError> {
    if buf.len() < 3 {
        Err(DecodeError::Short { len: buf.len() as usize })
    } else if buf[0] != 0x04u8 || buf[1] != 0xFFu8 {
        Err(DecodeError::NotVendorEvent { first: buf[0], second: buf[1] })
    } else if buf[2] < HEADSET_DATA_LENGTH_MIN {
        Err(DecodeError::BelowMinimum { param_len: buf[2] })
    } else if buf.len() < 3 + buf[2] {
        Err(DecodeError::Truncated { want: (3 + buf[2]) as usize, have: buf.len() as usize })
    } else {
        let end = 3 + buf[2] as int;
        let body = buf.subrange(3, end - 1);
        let cs = buf[end - 1];
        if spec_checksum(body) != cs {
            Err(DecodeError::ChecksumMismatch)
        } else if body[1] != KEY_0 || body[2] != KEY_1 {
            Err(DecodeError::NotSony { first: body[1], second: body[2] })
        } else if body[4] != event_id {
            Err(DecodeError::WrongEvent { got_event: body[4], want_event: event_id })
        } else if body[5] != TYPE_RET {
            Err(DecodeError::NotRet { event_type: body[5] })
        } else if body[6] as int + 256 * body[7] as int != tid as int {
            Err(DecodeError::WrongTransaction { got_tid: (body[6] as int + 256 * body[7] as int) as u16, want_tid: tid })
        } else {
            Ok(body.subrange(8, body.len() as int))
        }
    }
}

/// Returns the parameter bytes of a matching RET event, or why the buffer is not one.
/// Total on every input: the length byte comes off the wire and is checked before it is
/// believed.
pub fn decode_ret(buf: &[u8], event_id: u8, tid: u16) -> (res: Result<&[u8], DecodeError>)
    ensures
        match (res, spec_decode(buf@, event_id, tid)) {
            (Ok(p), Ok(q)) => p@ == q,
            (Err(e), Err(f)) => e == f,
            _ => false,
        },
{
    if buf.len() < 3 {
        return Err(DecodeError::Short { len: buf.len() });
    }
    if buf[0] != 0x04 || buf[1] != 0xFF {
        return Err(DecodeError::NotVendorEvent { first: buf[0], second: buf[1] });
    }
    let param_len = buf[2];
    if param_len < HEADSET_DATA_LENGTH_MIN {
        return Err(DecodeError::BelowMinimum { param_len });
    }
    let end: usize = 3 + param_len as usize;
    if buf.len() < end {
        return Err(DecodeError::Truncated { want: end, have: buf.len() });
    }
    let body = slice_subrange(buf, 3, end - 1);
    let cs = buf[end - 1];
    if checksum(body) != cs {
        return Err(DecodeError::ChecksumMismatch);
    }
    if body[1] != KEY_0 || body[2] != KEY_1 {
        return Err(DecodeError::NotSony { first: body[1], second: body[2] });
    }
    if body[4] != event_id {
        return Err(DecodeError::WrongEvent { got_event: body[4], want_event: event_id });
    }
    if body[5] != TYPE_RET {
        return Err(DecodeError::NotRet { event_type: body[5] });
    }
    let got_tid: u16 = body[6] as u16 + 256 * (body[7] as u16);
    if got_tid != tid {
        return Err(DecodeError::WrongTransaction { got_tid, want_tid: tid });
    }
    Ok(slice_subrange(body, 8, body.len()))
}

/// Whether an incomplete frame at the front of the buffer is still worth waiting for.
#[derive(PartialEq, Eq, Clone, Copy, Debug)]
pub enum Scan {
    MoreMayCome,
    StreamEnded,
}

/// The scan of `b` from position `i`: how far the buffer is consumed, the answer found
/// (if any), and the first decode failure met on a frame boundary candidate on the way.
///
/// A position is a frame candidate only once both header bytes agree; otherwise the scan
/// steps one byte. A candidate whose claimed length is not all there stops the scan while
/// bytes may still arrive, and is stepped past once the stream has ended. A candidate that
/// decodes is the answer and everything up to its end is consumed; one that does not is
/// stepped past by a single byte, never by its claimed length.
pub open spec fn scan_from(b: Seq<u8>, i: int, event_id: u8, tid: u16, mode: Scan) -> (nat, Option<Seq<u8>>, Option<DecodeError>)
    recommends
        0 <= i <= b.len(),
    decreases b.len() - i,
{
    if i < 0 || b.len() - i < 3 {
        (if i < 0 { 0 } else { i as nat }, None, None)
    } else if b[i] != 0x04u8 || b[i + 1] != 0xFFu8 {
        scan_from(b, i + 1, event_id, tid, mode)
    } else if b.len() < i + 3 + b[i + 2] {
        if mode == Scan::MoreMayCome {
            (i as nat, None, None)
        } else {
            scan_from(b, i + 1, event_id, tid, mode)
        }
    } else {
        let end = i + 3 + b[i + 2];
        match spec_decode(b.subrange(i, end), event_id, tid) {
            Ok(p) => (end as nat, Some(p), None),
            Err(e) => {
                let r = scan_from(b, i + 1, event_id, tid, mode);
                (r.0, r.1, Some(e))
            },
        }
    }
}

/// The scan of a whole buffer.
pub open spec fn scan(b: Seq<u8>, event_id: u8, tid: u16, mode: Scan) -> (nat, Option<Seq<u8>>, Option<DecodeError>) {
    scan_from(b, 0, event_id, tid, mode)
}

proof fn lemma_scan_consumed_bounds(b: Seq<u8>, i: int, event_id: u8, tid: u16, mode: Scan)
    requires
        0 <= i <= b.len(),
    ensures
        i <= scan_from(b, i, event_id, tid, mode).0 <= b.len(),
    decreases b.len() - i,
{
    if b.len() - i >= 3 {
        if b[i] != 0x04u8 || b[i + 1] != 0xFFu8 {
            lemma_scan_consumed_bounds(b, i + 1, event_id, tid, mode);
        } else if b.len() < i + 3 + b[i + 2] {
            if mode != Scan::MoreMayCome {
                lemma_scan_consumed_bounds(b, i + 1, event_id, tid, mode);
            }
        } else {
            lemma_scan_consumed_bounds(b, i + 1, event_id, tid, mode);
        }
    }
}

/// Pulls complete frames off the front of `buf` until one answers the request, consuming
/// everything it rejects. Returns `None` when more bytes are needed. Frames that fail to
/// decode leave their reason in `last_err` (the first one, if it held none) rather than
/// ending the exchange, because something we did not ask for can land ahead of the answer.
pub fn take_answer(
    buf: &mut Vec<u8>,
    event_id: u8,
    tid: u16,
    last_err: &mut Option<DecodeError>,
    mode: Scan,
) -> (answer: Option<Vec<u8>>)
    ensures
        ({
            let r = scan(old(buf)@, event_id, tid, mode);
            &&& r.0 <= old(buf)@.len()
            &&& final(buf)@ == old(buf)@.skip(r.0 as int)
            &&& match (answer, r.1) {
                (Some(a), Some(p)) => a@ == p,
                (None, None) => true,
                _ => false,
            }
            &&& *final(last_err) == if old(last_err).is_some() { *old(last_err) } else { r.2 }
        }),
{
    let ghost b = buf@;
    proof { lemma_scan_consumed_bounds(b, 0, event_id, tid, mode); }
    let mut pos: usize = 0;
    let mut found: Option<Vec<u8>> = None;
    loop
        invariant_except_break
            buf@ == b,
            pos <= b.len(),
            found.is_none(),
            ({
                let whole = scan(b, event_id, tid, mode);
                let here = scan_from(b, pos as int, event_id, tid, mode);
                &&& whole.0 == here.0
                &&& whole.1 == here.1
                &&& (if old(last_err).is_some() { *last_err == *old(last_err) }
                     else if last_err.is_some() { *last_err == whole.2 }
                     else { here.2 == whole.2 })
            }),
        ensures
            buf@ == b,
            ({
                let whole = scan(b, event_id, tid, mode);
                &&& pos == whole.0
                &&& match (found, whole.1) {
                    (Some(a), Some(p)) => a@ == p,
                    (None, None) => true,
                    _ => false,
                }
                &&& *last_err == if old(last_err).is_some() { *old(last_err) } else { whole.2 }
            }),
        decreases b.len() - pos,
    {
        if buf.len() - pos < 3 {
            break;
        }
        if buf[pos] != 0x04 || buf[pos + 1] != 0xFF {
            pos = pos + 1;
            continue;
        }
        let want: usize = 3 + buf[pos + 2] as usize;
        if buf.len() - pos < want {
            match mode {
                Scan::MoreMayCome => {
                    break;
                },
                Scan::StreamEnded => {
                    pos = pos + 1;
                    continue;
                },
            }
        }
        let end: usize = pos + want;
        let frame = slice_subrange(buf.as_slice(), pos, end);
        match decode_ret(frame, event_id, tid) {
            Ok(params) => {
                let mut v: Vec<u8> = Vec::new();
                v.extend_from_slice(params);
                assert(v@ =~= params@);
                found = Some(v);
                pos = end;
                break;
            },
            Err(e) => {
                if last_err.is_none() {
                    *last_err = Some(e);
                }
                pos = pos + 1;
            },
        }
    }
    let rest = buf.split_off(pos);
    *buf = rest;
    found
}

/// The English sentence for a decode failure. Diagnostic text, quoted into bug reports.
pub open spec fn describe_decode_error(e: DecodeError) -> Seq<char> {
    match e {
        DecodeError::Short { len } => "short reply ("@ + decimal(len as nat) + " bytes)"@,
        DecodeError::NotVendorEvent { first, second } =>
            "not a vendor HCI event: "@ + hex2(first) + " "@ + hex2(second),
        DecodeError::BelowMinimum { param_len } =>
            "param_len "@ + decimal(param_len as nat) + " below the 9 byte minimum"@,
        DecodeError::Truncated { want, have } =>
            "truncated: want "@ + decimal(want as nat) + " bytes, have "@ + decimal(have as nat),
        DecodeError::ChecksumMismatch => "checksum mismatch"@,
        DecodeError::NotSony { first, second } => "not a Sony frame: "@ + hex2(first) + " "@ + hex2(second),
        DecodeError::WrongEvent { got_event, want_event } =>
            "event id "@ + hex2(got_event) + " != "@ + hex2(want_event),
        DecodeError::NotRet { event_type } => "event type "@ + hex2(event_type) + " is not RET"@,
        DecodeError::WrongTransaction { got_tid, want_tid } =>
            "transaction id "@ + decimal(got_tid as nat) + " != "@ + decimal(want_tid as nat),
    }
}

impl DecodeError {
    /// The failure as a sentence.
    pub fn describe(&self) -> (s: String)
        ensures
            s@ == describe_decode_error(*self),
    {
        match *self {
            DecodeError::Short { len } => {
                let mut s = String::from_str("short reply (");
                push_decimal(&mut s, len as u64);
                s.append(" bytes)");
                s
            },
            DecodeError::NotVendorEvent { first, second } => {
                let mut s = String::from_str("not a vendor HCI event: ");
                push_hex2(&mut s, first);
                s.append(" ");
                push_hex2(&mut s, second);
                s
            },
            DecodeError::BelowMinimum { param_len } => {
                let mut s = String::from_str("param_len ");
                push_decimal(&mut s, param_len as u64);
                s.append(" below the 9 byte minimum");
                s
            },
            DecodeError::Truncated { want, have } => {
                let mut s = String::from_str("truncated: want ");
                push_decimal(&mut s, want as u64);
                s.append(" bytes, have ");
                push_decimal(&mut s, have as u64);
                s
            },
            DecodeError::ChecksumMismatch => String::from_str("checksum mismatch"),
            DecodeError::NotSony { first, second } => {
                let mut s = String::from_str("not a Sony frame: ");
                push_hex2(&mut s, first);
                s.append(" ");
                push_hex2(&mut s, second);
                s
            },
            DecodeError::WrongEvent { got_event, want_event } => {
                let mut s = String::from_str("event id ");
                push_hex2(&mut s, got_event);
                s.append(" != ");
                push_hex2(&mut s, want_event);
                s
            },
            DecodeError::NotRet { event_type } => {
                let mut s = String::from_str("event type ");
                push_hex2(&mut s, event_type);
                s.append(" is not RET");
                s
            },
            DecodeError::WrongTransaction { got_tid, want_tid } => {
                let mut s = String::from_str("transaction id ");
                push_decimal(&mut s, got_tid as u64);
                s.append(" != ");
                push_decimal(&mut s, want_tid as u64);
                s
            },
        }
    }
}

proof fn lemma_byte_sum_update(s: Seq<u8>, j: int, v: u8)
    requires
        0 <= j < s.len(),
    ensures
        byte_sum(s.update(j, v)) + s[j] as int == byte_sum(s) + v as int,
    decreases s.len(),
{
    let t = s.update(j, v);
    if j == s.len() - 1 {
        assert(t.drop_last() =~= s.drop_last());
    } else {
        lemma_byte_sum_update(s.drop_last(), j, v);
        assert(t.drop_last() =~= s.drop_last().update(j, v));
    }
}

/// A valid reply with any one byte other than its length byte changed is refused: the
/// header bytes are fixed, and the checksum covers every byte of the body, payload
/// included, so no single corrupted byte can slip through as a different answer.
pub proof fn lemma_single_byte_corruption_is_refused(f: Seq<u8>, event_id: u8, tid: u16, i: int, v: u8)
    requires
        f.len() >= 3,
        f.len() == 3 + f[2],
        spec_decode(f, event_id, tid) is Ok,
        0 <= i < f.len(),
        i != 2,
        v != f[i],
    ensures
        spec_decode(f.update(i, v), event_id, tid) is Err,
{
    let g = f.update(i, v);
    let end = 3 + f[2] as int;
    if i >= 3 {
        assert(g[2] == f[2]);
        let body = f.subrange(3, end - 1);
        let gbody = g.subrange(3, end - 1);
        if i < end - 1 {
            assert(gbody =~= body.update(i - 3, v));
            lemma_byte_sum_update(body, i - 3, v);
            assert(g[end - 1] == f[end - 1]);
            assert(spec_checksum(gbody) != g[end - 1]);
        } else {
            assert(gbody =~= body);
        }
    }
}

/// A reply that arrives in pieces is kept, untouched, for as long as more bytes may come,
/// and answered once it is whole, whichever way the stream is then scanned.
pub proof fn lemma_partial_reply_waits(f: Seq<u8>, event_id: u8, tid: u16, cut: int, mode: Scan)
    requires
        f.len() >= 3,
        f.len() == 3 + f[2],
        spec_decode(f, event_id, tid) is Ok,
        3 <= cut < f.len(),
    ensures
        scan(f.take(cut), event_id, tid, Scan::MoreMayCome) == (0nat, None::<Seq<u8>>, None::<DecodeError>),
        scan(f, event_id, tid, mode) == (f.len(), Some(spec_decode(f, event_id, tid)->Ok_0), None::<DecodeError>),
{
    assert(f.subrange(0, f.len() as int) =~= f);
}

/// Whether a complete frame starting at `j` in `b` decodes as the requested answer.
pub open spec fn answers_at(b: Seq<u8>, j: int, event_id: u8, tid: u16) -> bool {
    &&& 0 <= j
    &&& b.len() - j >= 3
    &&& b[j] == 0x04u8
    &&& b[j + 1] == 0xFFu8
    &&& b.len() >= j + 3 + b[j + 2]
    &&& spec_decode(b.subrange(j, j + 3 + b[j + 2]), event_id, tid) is Ok
}

proof fn lemma_reply_after_junk_from(p: Seq<u8>, r: Seq<u8>, i: int, event_id: u8, tid: u16)
    requires
        r.len() >= 3,
        r.len() == 3 + r[2],
        spec_decode(r, event_id, tid) is Ok,
        0 <= i <= p.len(),
        forall|j: int| 0 <= j < p.len() ==> !#[trigger] answers_at(p + r, j, event_id, tid),
    ensures
        scan_from(p + r, i, event_id, tid, Scan::StreamEnded).0 == (p + r).len(),
        scan_from(p + r, i, event_id, tid, Scan::StreamEnded).1 == Some(spec_decode(r, event_id, tid)->Ok_0),
    decreases p.len() - i,
{
    let b = p + r;
    if i == p.len() {
        assert(b.subrange(i, i + 3 + b[i + 2]) =~= r);
    } else {
        assert(!answers_at(b, i, event_id, tid));
        lemma_reply_after_junk_from(p, r, i + 1, event_id, tid);
    }
}

/// Once the stream has gone quiet, no run of bytes ahead of a complete reply can swallow
/// it: unless something in front of it is itself a valid answer, the reply is found and
/// the whole buffer consumed, whatever length the junk ahead of it claimed.
pub proof fn lemma_reply_after_junk_is_found(p: Seq<u8>, r: Seq<u8>, event_id: u8, tid: u16)
    requires
        r.len() >= 3,
        r.len() == 3 + r[2],
        spec_decode(r, event_id, tid) is Ok,
        forall|j: int| 0 <= j < p.len() ==> !#[trigger] answers_at(p + r, j, event_id, tid),
    ensures
        scan(p + r, event_id, tid, Scan::StreamEnded).0 == p.len() + r.len(),
        scan(p + r, event_id, tid, Scan::StreamEnded).1 == Some(spec_decode(r, event_id, tid)->Ok_0),
{
    lemma_reply_after_junk_from(p, r, 0, event_id, tid);
}

proof fn lemma_scan_shape(b: Seq<u8>, i: int, event_id: u8, tid: u16, mode: Scan)
    requires
        0 <= i <= b.len(),
    ensures
        ({
            let r = scan_from(b, i, event_id, tid, mode);
            &&& i <= r.0 <= b.len()
            &&& match r.1 {
                Some(p) => exists|k: int|
                    #![trigger answers_at(b, k, event_id, tid)]
                    i <= k && answers_at(b, k, event_id, tid) && r.0 == k + 3 + b[k + 2]
                        && spec_decode(b.subrange(k, r.0 as int), event_id, tid) == Ok::<Seq<u8>, DecodeError>(p)
                        && forall|j: int| i <= j < k ==> !#[trigger] answers_at(b, j, event_id, tid),
                None => (b.len() - r.0 < 3 || (mode == Scan::MoreMayCome && b[r.0 as int] == 0x04u8
                    && b[r.0 as int + 1] == 0xFFu8 && b.len() < r.0 + 3 + b[r.0 as int + 2]))
                    && forall|j: int| i <= j < r.0 ==> !#[trigger] answers_at(b, j, event_id, tid),
            }
        }),
    decreases b.len() - i,
{
    if b.len() - i >= 3 {
        if b[i] != 0x04u8 || b[i + 1] != 0xFFu8 {
            lemma_scan_shape(b, i + 1, event_id, tid, mode);
        } else if b.len() < i + 3 + b[i + 2] {
            if mode != Scan::MoreMayCome {
                lemma_scan_shape(b, i + 1, event_id, tid, mode);
            }
        } else {
            let end = i + 3 + b[i + 2];
            match spec_decode(b.subrange(i, end), event_id, tid) {
                Ok(p) => {
                    assert(answers_at(b, i, event_id, tid));
                },
                Err(e) => {
                    lemma_scan_shape(b, i + 1, event_id, tid, mode);
                },
            }
        }
    }
}

/// What one `take_answer` can come back with. The buffer left behind is a suffix of the one
/// handed in. An answer is the first position in the old buffer where a complete frame
/// decodes as the requested reply, and what is left is exactly what follows that frame.
/// No answer means the buffer is down to fewer than three bytes, or, while more may come,
/// that it opens with a header whose frame is not all there yet; and nothing consumed was
/// an answer.
pub proof fn lemma_take_answer_outcome(b: Seq<u8>, event_id: u8, tid: u16, mode: Scan)
    ensures
        ({
            let r = scan(b, event_id, tid, mode);
            let rest = b.skip(r.0 as int);
            &&& r.0 <= b.len()
            &&& match r.1 {
                Some(p) => exists|k: int|
                    #![trigger answers_at(b, k, event_id, tid)]
                    0 <= k && answers_at(b, k, event_id, tid) && rest == b.skip(k + 3 + b[k + 2])
                        && spec_decode(b.subrange(k, k + 3 + b[k + 2]), event_id, tid) == Ok::<Seq<u8>, DecodeError>(p)
                        && forall|j: int| 0 <= j < k ==> !#[trigger] answers_at(b, j, event_id, tid),
                None => (rest.len() < 3 || (mode == Scan::MoreMayCome && rest[0] == 0x04u8 && rest[1] == 0xFFu8
                    && rest.len() < 3 + rest[2])) && forall|j: int|
                    0 <= j < r.0 ==> !#[trigger] answers_at(b, j, event_id, tid),
            }
        }),
{
    lemma_scan_shape(b, 0, event_id, tid, mode);
}

/// A scan shifted into a buffer: scanning `b` from `c0 + i` is scanning what follows `c0`
/// from `i`, with positions moved by `c0`.
pub proof fn lemma_scan_shift(b: Seq<u8>, c0: int, i: int, event_id: u8, tid: u16, mode: Scan)
    requires
        0 <= c0 <= b.len(),
        0 <= i <= b.len() - c0,
    ensures
        scan_from(b, c0 + i, event_id, tid, mode).0 == scan_from(b.skip(c0), i, event_id, tid, mode).0 + c0,
        scan_from(b, c0 + i, event_id, tid, mode).1 == scan_from(b.skip(c0), i, event_id, tid, mode).1,
        scan_from(b, c0 + i, event_id, tid, mode).2 == scan_from(b.skip(c0), i, event_id, tid, mode).2,
    decreases b.len() - c0 - i,
{
    let t = b.skip(c0);
    if b.len() - (c0 + i) >= 3 {
        assert(t[i] == b[c0 + i] && t[i + 1] == b[c0 + i + 1] && t[i + 2] == b[c0 + i + 2]);
        if b[c0 + i] != 0x04u8 || b[c0 + i + 1] != 0xFFu8 {
            lemma_scan_shift(b, c0, i + 1, event_id, tid, mode);
        } else if b.len() < c0 + i + 3 + b[c0 + i + 2] {
            if mode != Scan::MoreMayCome {
                lemma_scan_shift(b, c0, i + 1, event_id, tid, mode);
            }
        } else {
            let end = i + 3 + t[i + 2];
            assert(t.subrange(i, end) =~= b.subrange(c0 + i, c0 + end));
            lemma_scan_shift(b, c0, i + 1, event_id, tid, mode);
        }
    }
}

/// What a scan that may still wait has settled stays settled once more bytes arrive and the
/// stream ends: the same answer at the same place, or the same failures up to where it
/// stopped, after which the longer buffer is scanned as if from there.
pub proof fn lemma_scan_extends(b: Seq<u8>, ext: Seq<u8>, i: int, event_id: u8, tid: u16)
    requires
        0 <= i <= b.len(),
    ensures
        ({
            let r = scan_from(b, i, event_id, tid, Scan::MoreMayCome);
            let f = scan_from(b + ext, i, event_id, tid, Scan::StreamEnded);
            let g = scan_from(b + ext, r.0 as int, event_id, tid, Scan::StreamEnded);
            &&& r.1 is Some ==> f == r
            &&& r.1 is None ==> f.0 == g.0 && f.1 == g.1 && f.2 == (if r.2 is Some { r.2 } else { g.2 })
        }),
    decreases b.len() - i,
{
    let be = b + ext;
    if b.len() - i >= 3 {
        assert(be[i] == b[i] && be[i + 1] == b[i + 1] && be[i + 2] == b[i + 2]);
        if b[i] != 0x04u8 || b[i + 1] != 0xFFu8 {
            lemma_scan_extends(b, ext, i + 1, event_id, tid);
        } else if b.len() < i + 3 + b[i + 2] {
        } else {
            let end = i + 3 + b[i + 2];
            assert(be.subrange(i, end) =~= b.subrange(i, end));
            lemma_scan_extends(b, ext, i + 1, event_id, tid);
        }
    }
}

} // verus!
