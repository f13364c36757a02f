use inzone_h9_gen1_headset_status::protocol::{
    encode_get, take_answer, Scan, BATT_CHARGING, BT_CONN_CONNECTED, BT_ON, CONN_CONNECTED, CONN_PAIRING, CONN_UNCONNECTED,
    EV_2GHZ_CONNECT_STATUS,
};
use inzone_h9_gen1_headset_status::state::{Bt, Cause, State};
use inzone_h9_gen1_headset_status::transport::{
    choose_port, classify_open_error, headset_on, read_link, Exchange, Link, PortInfo, PortKind, PID, VID,
};

/// A port we could not identify must not be counted as the receiver's absence.
#[test]
fn a_port_we_could_not_identify_is_not_an_absent_dongle() {
    let usb = |vid, pid| PortKind::Usb { vid, pid };
    let port = |name: &str, kind| PortInfo {
        port_name: name.into(),
        kind,
    };

    assert_eq!(
        choose_port(&[port("COM10", usb(VID, PID))]),
        (Some("COM10".into()), 0)
    );
    // Every entry identified, none of them ours: the receiver really is not there.
    assert_eq!(choose_port(&[port("COM3", usb(0x0403, 0x6001))]), (None, 0));
    // Half the pair is not the pair.
    assert_eq!(choose_port(&[port("COM3", usb(VID, 0x0001))]), (None, 0));
    assert_eq!(choose_port(&[port("COM3", usb(0x0001, PID))]), (None, 0));
    assert_eq!(choose_port(&[]), (None, 0));
    // The one this test exists for.
    assert_eq!(choose_port(&[port("COM10", PortKind::Unknown)]), (None, 1));
    assert_eq!(
        choose_port(&[
            port("COM3", usb(0x0403, 0x6001)),
            port("COM10", PortKind::Unknown),
            port("COM11", PortKind::Unknown),
        ]),
        (None, 2)
    );
    // A port we did identify as the receiver settles it, whatever else is on the list.
    assert_eq!(
        choose_port(&[port("COM10", PortKind::Unknown), port("COM11", usb(VID, PID))]),
        (Some("COM11".into()), 1)
    );
}

/// A refused open reads as "the Hub has it", not as an error.
#[test]
fn a_refused_port_reads_as_hub_busy() {
    assert_eq!(classify_open_error(true, "アクセスが拒否されました。".into()), State::HubBusy);
    // Anything else is a genuine fault and must keep its message.
    assert_eq!(
        classify_open_error(false, "bad baud".into()),
        State::Error(Cause::Open("bad baud".into()))
    );
    assert!(matches!(classify_open_error(false, "?".into()), State::Error(_)));
}

#[test]
fn an_exchange_gathers_a_reply_split_across_reads() {
    let reply = [0x04u8, 0xFF, 0x0A, 0x00, 0x96, 0xC3, 0x12, 0x01, 0x10, 0x01, 0x00, 0x01, 0x7E];
    let mut ex = Exchange::new(EV_2GHZ_CONNECT_STATUS, 1);
    assert_eq!(ex.receive(&reply[..2]), None);
    assert_eq!(ex.receive(&reply[2..7]), None);
    assert_eq!(ex.receive(&reply[7..]), Some(vec![CONN_CONNECTED]));
}

#[test]
fn an_exchange_that_hears_nothing_says_so() {
    let mut ex = Exchange::new(EV_2GHZ_CONNECT_STATUS, 1);
    assert_eq!(
        ex.give_up(),
        Err(Cause::NoReply {
            detail: None,
            unusable: 0
        })
    );
}

#[test]
fn an_exchange_counts_every_byte_it_could_not_use() {
    // A reply for another transaction: well formed, and not ours.
    let stale = [0x04u8, 0xFF, 0x0A, 0x00, 0x96, 0xC3, 0x12, 0x01, 0x10, 0x01, 0x00, 0x01, 0x7E];
    let mut ex = Exchange::new(EV_2GHZ_CONNECT_STATUS, 9);
    assert_eq!(ex.receive(&stale), None);
    assert_eq!(
        ex.give_up(),
        Err(Cause::NoReply {
            detail: Some("transaction id 1 != 9".into()),
            unusable: 13
        })
    );
}

#[test]
fn a_phantom_length_is_refuted_once_the_port_is_quiet() {
    let reply = [0x04u8, 0xFF, 0x0A, 0x00, 0x96, 0xC3, 0x12, 0x01, 0x10, 0x01, 0x00, 0x01, 0x7E];
    let mut ex = Exchange::new(EV_2GHZ_CONNECT_STATUS, 1);
    assert_eq!(ex.receive(&[0x04, 0xFF, 0xF0]), None);
    assert_eq!(ex.receive(&reply), None);
    assert_eq!(ex.give_up(), Ok(vec![CONN_CONNECTED]));
}

#[test]
fn the_link_reply_decides_what_to_ask_next() {
    assert_eq!(read_link(&[CONN_UNCONNECTED]), Link::Known(State::Off));
    assert_eq!(read_link(&[CONN_PAIRING]), Link::Known(State::Pairing));
    assert_eq!(read_link(&[CONN_CONNECTED]), Link::Connected);
    assert_eq!(read_link(&[0xAB]), Link::Known(State::Error(Cause::UnknownLink(0xAB))));
    assert_eq!(read_link(&[]), Link::Known(State::Error(Cause::EmptyReply)));
}

#[test]
fn a_headset_that_did_not_answer_is_on_with_nothing_known() {
    assert_eq!(
        headset_on(None, None),
        State::On {
            battery: None,
            charging: false,
            bt: None
        }
    );
    assert_eq!(
        headset_on(Some(&[BATT_CHARGING, 72]), Some(&[BT_ON, BT_CONN_CONNECTED])),
        State::On {
            battery: Some(72),
            charging: true,
            bt: Some(Bt::Connected)
        }
    );
}

#[test]
fn the_request_is_the_frame_the_receiver_expects() {
    assert_eq!(encode_get(0x02, 0x61, 2)[..4], [0x01, 0x00, 0xFC, 0x08]);
}

#[test]
fn an_exchange_finds_what_scanning_everything_at_once_finds() {
    let reply = [0x04u8, 0xFF, 0x0A, 0x00, 0x96, 0xC3, 0x12, 0x01, 0x10, 0x01, 0x00, 0x01, 0x7E];
    let mut all = vec![0x5Au8, 0x04, 0xFF, 0x00, 0x04, 0xFF, 0xF0];
    all.extend_from_slice(&reply);
    for cut in 0..all.len() {
        let mut ex = Exchange::new(EV_2GHZ_CONNECT_STATUS, 1);
        let early = ex.receive(&all[..cut]);
        let got = match early {
            Some(p) => Ok(p),
            None => match ex.receive(&all[cut..]) {
                Some(p) => Ok(p),
                None => ex.give_up(),
            },
        };
        let mut whole = all.clone();
        let mut err = None;
        let want = take_answer(&mut whole, EV_2GHZ_CONNECT_STATUS, 1, &mut err, Scan::StreamEnded);
        assert_eq!(got.ok(), want, "split at {cut}");
    }
}
