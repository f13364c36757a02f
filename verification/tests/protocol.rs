use inzone_h9_gen1_headset_status::protocol::{
    checksum, decode_ret, encode_get, take_answer, Scan, BT_CONN_CONNECTED, BT_ON, CONN_CONNECTED,
    CONN_UNCONNECTED, DST_RX, DST_TX, EV_2GHZ_CONNECT_STATUS, EV_BATTERY_INFO, EV_BT_STATUS,
    HEADSET_DATA_LENGTH_MIN,
};


/// Reference frames, and a real reply captured from the dongle. If the encoder or
/// the field order ever drifts, these fail.
#[test]
fn encodes_the_reference_frames() {
    assert_eq!(
        encode_get(DST_TX, EV_2GHZ_CONNECT_STATUS, 1),
        vec![0x01, 0x00, 0xFC, 0x08, 0x96, 0xC3, 0x21, 0x01, 0x01, 0x01, 0x00, 0x7D]
    );
    assert_eq!(
        encode_get(DST_RX, EV_BATTERY_INFO, 3),
        vec![0x01, 0x00, 0xFC, 0x08, 0x96, 0xC3, 0x41, 0x04, 0x01, 0x03, 0x00, 0xA2]
    );
    // A transaction id past 255, which the poller reaches after about sixteen minutes:
    // it steps by four every fifteen seconds and wraps at sixteen bits. The high byte is
    // the one field the two frames above cannot exercise, and losing it is not a quiet
    // failure. `decode_ret` checks the id the dongle echoes against the whole `u16` it
    // was handed, so a high byte written as zero makes every reply from that point on
    // look like somebody else's and the tray stops moving.
    assert_eq!(
        encode_get(DST_TX, EV_2GHZ_CONNECT_STATUS, 0x1234),
        vec![0x01, 0x00, 0xFC, 0x08, 0x96, 0xC3, 0x21, 0x01, 0x01, 0x34, 0x12, 0xC2]
    );
}

#[test]
fn decodes_a_real_reply() {
    let connected = [
        0x04, 0xFF, 0x0A, 0x00, 0x96, 0xC3, 0x12, 0x01, 0x10, 0x01, 0x00, 0x01, 0x7E,
    ];
    assert_eq!(
        decode_ret(&connected, EV_2GHZ_CONNECT_STATUS, 1),
        Ok(&[CONN_CONNECTED][..])
    );

    // Captured with the headset powered off: same frame, last param 0x00.
    let off = [
        0x04, 0xFF, 0x0A, 0x00, 0x96, 0xC3, 0x12, 0x01, 0x10, 0x01, 0x00, 0x00, 0x7D,
    ];
    assert_eq!(decode_ret(&off, EV_2GHZ_CONNECT_STATUS, 1), Ok(&[CONN_UNCONNECTED][..]));

    let battery = [
        0x04, 0xFF, 0x0B, 0x00, 0x96, 0xC3, 0x14, 0x04, 0x10, 0x03, 0x00, 0x00, 0x64, 0xE8,
    ];
    assert_eq!(decode_ret(&battery, EV_BATTERY_INFO, 3), Ok(&[0x00, 100][..]));

    // Bluetooth on and connected. Two bytes: BT_STATUS then BT_CONNECTION_STATUS.
    let bt = [
        0x04, 0xFF, 0x0B, 0x00, 0x96, 0xC3, 0x14, 0x61, 0x10, 0x02, 0x00, 0x01, 0x01, 0xE2,
    ];
    assert_eq!(decode_ret(&bt, EV_BT_STATUS, 2), Ok(&[BT_ON, BT_CONN_CONNECTED][..]));
}

/// `decode_ret` runs on bytes straight off the wire, so it has to be total. A
/// `param_len` of 0 used to reach `split_last().unwrap()` and panic, which under
/// `panic = "abort"` kills the process and leaves a ghost icon in the tray.
#[test]
fn survives_any_length_byte() {
    for param_len in 0u8..=255 {
        for extra in [0usize, 1, 12, 40] {
            let mut frame = vec![0x04u8, 0xFF, param_len];
            frame.resize(3 + extra, 0xAA);
            // Filler can never be a legal reply: even where the sum happens to match,
            // body[4] is 0xAA and never the event id. So nothing here may decode.
            assert!(
                decode_ret(&frame, EV_2GHZ_CONNECT_STATUS, 1).is_err(),
                "param_len {param_len} extra {extra} decoded from filler"
            );
        }
    }
    // Below the protocol minimum it must refuse rather than reach for a body.
    for param_len in 0u8..HEADSET_DATA_LENGTH_MIN {
        let mut frame = vec![0x04u8, 0xFF, param_len];
        frame.resize(32, 0);
        assert!(
            decode_ret(&frame, EV_2GHZ_CONNECT_STATUS, 1).is_err(),
            "param_len {param_len}"
        );
    }
}

/// Every truncation and single-byte mutation of a known-good frame must come back as an
/// error, never a panic and never a wrong success.
#[test]
fn survives_truncation_and_mutation() {
    let good = [
        0x04u8, 0xFF, 0x0A, 0x00, 0x96, 0xC3, 0x12, 0x01, 0x10, 0x01, 0x00, 0x01, 0x7E,
    ];
    assert!(decode_ret(&good, EV_2GHZ_CONNECT_STATUS, 1).is_ok());

    for cut in 0..good.len() {
        let _ = decode_ret(&good[..cut], EV_2GHZ_CONNECT_STATUS, 1);
    }
    // The checksum covers the whole body, payload included, so today every single-bit
    // flip is rejected. This is a tripwire rather than a demonstration: if the checksum
    // ever stops covering part of the frame, some flip will start decoding and this
    // fires with the byte that slipped through.
    for i in 0..good.len() {
        for bit in 0..8 {
            let mut bad = good;
            bad[i] ^= 1 << bit;
            assert!(
                decode_ret(&bad, EV_2GHZ_CONNECT_STATUS, 1).is_err(),
                "byte {i} bit {bit} still decoded"
            );
        }
    }
}

/// A frame we did not ask for must not sink the whole exchange: the scan drops it and
/// keeps looking for the answer behind it.
#[test]
fn skips_frames_that_are_not_the_answer() {
    // A well-formed BT_STATUS notification: right shape, right checksum, wrong event.
    // This is the frame the resync exists for, so its checksum has to be correct or the
    // test proves nothing beyond "bad checksums are dropped".
    let ntfy = [
        0x04u8, 0xFF, 0x0A, 0x00, 0x96, 0xC3, 0x12, 0x61, 0x20, 0x09, 0x00, 0x01, 0xF6,
    ];
    // It must be rejected for being a notification, not for being malformed. If the
    // checksum were wrong the test would only prove that bad frames get dropped.
    let why = decode_ret(&ntfy, EV_BT_STATUS, 9).unwrap_err().describe();
    assert!(why.contains("RET"), "the noise frame must be well formed, but: {why}");

    let wanted = [
        0x04u8, 0xFF, 0x0A, 0x00, 0x96, 0xC3, 0x12, 0x01, 0x10, 0x01, 0x00, 0x01, 0x7E,
    ];
    let mut buf = Vec::new();
    buf.push(0x5A); // a stray byte, so the scan has to resynchronize before anything else
    buf.extend_from_slice(&[0x04, 0xFF, 0x00]); // the length byte that used to panic
    buf.extend_from_slice(&ntfy);
    buf.extend_from_slice(&wanted);

    let mut last_err = None;
    let found = take_answer(&mut buf, EV_2GHZ_CONNECT_STATUS, 1, &mut last_err, Scan::MoreMayCome);
    assert_eq!(
        found,
        Some(vec![CONN_CONNECTED]),
        "the real reply must survive the noise"
    );
    assert!(buf.is_empty(), "the answer and everything before it must be consumed");
    assert!(last_err.is_some(), "the skipped frames must leave a reason behind");
}

/// A misaligned stream must not let a garbage length byte eat the reply behind it.
#[test]
fn resynchronizes_a_byte_at_a_time() {
    let wanted = [
        0x04u8, 0xFF, 0x0A, 0x00, 0x96, 0xC3, 0x12, 0x01, 0x10, 0x01, 0x00, 0x01, 0x7E,
    ];
    // A well-formed frame for a different event, whose payload happens to contain a
    // header-shaped pair followed by a large byte. Byte-stepping walks through frames
    // it rejects, so a payload is a scan position too.
    let foreign = [
        0x04u8, 0xFF, 0x0C, 0x00, 0x96, 0xC3, 0x12, 0x61, 0x10, 0x09, 0x00, 0x04, 0xFF, 0xF0, 0xD8,
    ];
    assert!(
        decode_ret(&foreign, EV_BT_STATUS, 9).is_ok(),
        "the decoy must itself be valid"
    );

    let prefixes: [Vec<u8>; 6] = [
        vec![0xFFu8],
        vec![0x04, 0xFF],
        vec![0x00; 5],
        vec![0x04, 0x04, 0xFF],
        // The genuinely nasty one: a false header whose length slot claims 240 bytes
        // that will never arrive. Waiting for it strands the answer sitting behind it.
        vec![0x04, 0xFF, 0xF0],
        foreign.to_vec(),
    ];
    for prefix in prefixes {
        let mut buf = prefix.clone();
        buf.extend_from_slice(&wanted);
        let mut last_err = None;
        assert_eq!(
            take_answer(&mut buf, EV_2GHZ_CONNECT_STATUS, 1, &mut last_err, Scan::StreamEnded),
            Some(vec![CONN_CONNECTED]),
            "prefix {prefix:02X?} swallowed the reply"
        );
    }

    // *Both* header bytes have to agree before the length byte means anything, and the
    // cases above do not prove it: once the stream is over, a length nothing satisfies
    // gets stepped past anyway and the answer is found regardless. It is while bytes may
    // still arrive that a half-matching header costs the reply. `04 AA` is not a header,
    // so the scan must walk past it rather than wait out the 240 bytes the next byte
    // claims, which nothing is going to send.
    let mut buf = vec![0x04u8, 0xAA, 0xF0];
    buf.extend_from_slice(&wanted);
    let mut last_err = None;
    assert_eq!(
        take_answer(&mut buf, EV_2GHZ_CONNECT_STATUS, 1, &mut last_err, Scan::MoreMayCome),
        Some(vec![CONN_CONNECTED]),
        "a header that matches on one byte must not be trusted for its length"
    );
}

/// The two scan modes have to disagree exactly where it matters: while bytes may still
/// arrive an incomplete frame is kept, and once the port is quiet it is disproved.
#[test]
fn waits_for_an_incomplete_frame_instead_of_dropping_it() {
    let wanted = [
        0x04u8, 0xFF, 0x0A, 0x00, 0x96, 0xC3, 0x12, 0x01, 0x10, 0x01, 0x00, 0x01, 0x7E,
    ];
    for cut in 3..wanted.len() {
        let mut buf = wanted[..cut].to_vec();
        let mut last_err = None;
        let waiting = take_answer(&mut buf, EV_2GHZ_CONNECT_STATUS, 1, &mut last_err, Scan::MoreMayCome);
        assert_eq!(waiting, None);
        assert_eq!(buf.len(), cut, "a partial frame must be kept, not consumed");
        buf.extend_from_slice(&wanted[cut..]);
        assert_eq!(
            take_answer(&mut buf, EV_2GHZ_CONNECT_STATUS, 1, &mut last_err, Scan::MoreMayCome),
            Some(vec![CONN_CONNECTED])
        );
    }

    // A phantom length is only refuted once the stream stops.
    let mut buf = vec![0x04u8, 0xFF, 0xF0];
    buf.extend_from_slice(&wanted);
    let mut last_err = None;
    assert_eq!(
        take_answer(&mut buf, EV_2GHZ_CONNECT_STATUS, 1, &mut last_err, Scan::MoreMayCome),
        None,
        "while bytes may still come, the claimed length gets the benefit of the doubt"
    );
    assert_eq!(
        take_answer(&mut buf, EV_2GHZ_CONNECT_STATUS, 1, &mut last_err, Scan::StreamEnded),
        Some(vec![CONN_CONNECTED]),
        "once quiet, the reply behind the phantom must be salvaged"
    );
}

#[test]
fn rejects_corrupt_and_mismatched_replies() {
    let mut bad = [
        0x04, 0xFF, 0x0A, 0x00, 0x96, 0xC3, 0x12, 0x01, 0x10, 0x01, 0x00, 0x01, 0x7E,
    ];
    bad[11] = 0x00; // flip a payload byte, leave the checksum stale
    assert!(decode_ret(&bad, EV_2GHZ_CONNECT_STATUS, 1).is_err());

    let good = [
        0x04, 0xFF, 0x0A, 0x00, 0x96, 0xC3, 0x12, 0x01, 0x10, 0x01, 0x00, 0x01, 0x7E,
    ];
    assert!(
        decode_ret(&good, EV_BATTERY_INFO, 1).is_err(),
        "wrong event id must not pass"
    );
    assert!(
        decode_ret(&good, EV_2GHZ_CONNECT_STATUS, 9).is_err(),
        "stale transaction must not pass"
    );

    // The key is what says a frame is Sony's at all, so the checksum is recomputed
    // here: the frame has to be turned away for the key rather than for arithmetic.
    let mut foreign = good;
    foreign[4] = 0x00;
    foreign[12] = checksum(&foreign[3..12]);
    assert!(
        decode_ret(&foreign, EV_2GHZ_CONNECT_STATUS, 1).is_err(),
        "a frame carrying someone else's key must not pass on its own checksum"
    );
}
