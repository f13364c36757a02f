use inzone_h9_gen1_headset_status::cli::{parse_args, usage_error, Args, Command};
use inzone_h9_gen1_headset_status::devices::is_settled_change;
use inzone_h9_gen1_headset_status::icon::{tray_icon_size, REF_N};
use inzone_h9_gen1_headset_status::numfmt::{push_decimal, push_hex2};
use inzone_h9_gen1_headset_status::poller::{
    healthy, next_tid, next_wait, same_state, wait_after_wake, Tray, POLL_INTERVAL_SECS,
};
use inzone_h9_gen1_headset_status::protocol::{decode_ret, DecodeError};
use inzone_h9_gen1_headset_status::settings::Settings;
use inzone_h9_gen1_headset_status::state::{band_color, lighten, severity, Cause, State, PAPER};
use inzone_h9_gen1_headset_status::text::{self, Lang};

#[test]
fn numbers_are_written_plainly() {
    let mut s = String::new();
    push_decimal(&mut s, 0);
    assert_eq!(s, "0");
    let mut s = String::from("n=");
    push_decimal(&mut s, 18446744073709551615);
    assert_eq!(s, "n=18446744073709551615");
    let mut s = String::new();
    push_hex2(&mut s, 0x0A);
    push_hex2(&mut s, 0xFF);
    assert_eq!(s, "0AFF");
}

#[test]
fn the_language_spelling_reads_back() {
    for lang in [Lang::Ja, Lang::En] {
        assert_eq!(Lang::parse(lang.as_str()), Some(lang));
    }
    assert_eq!(Lang::parse("fr"), None);
    assert_eq!(Lang::parse("JA"), None);
}

#[test]
fn windows_japanese_is_the_only_japanese() {
    assert_eq!(Lang::from_windows(0x0411), Lang::Ja);
    assert_eq!(Lang::from_windows(0x0011), Lang::Ja);
    assert_eq!(Lang::from_windows(0x0409), Lang::En);
    assert_eq!(Lang::from_windows(0x0809), Lang::En);
    assert_eq!(Lang::from_windows(0), Lang::En);
}

#[test]
fn every_message_exists_in_both_languages() {
    for lang in [Lang::Ja, Lang::En] {
        for s in [
            text::notify_test(lang),
            text::notify_startup_failed(lang),
            text::notify_browser_failed(lang),
            text::notify_settings_unsaved(lang),
            text::menu_starting(lang),
            text::menu_notify_power(lang),
            text::menu_notify_battery(lang),
            text::menu_run_at_logon(lang),
            text::menu_check_for_updates(lang),
            text::menu_quit(lang),
            text::already_running(lang),
            text::help(lang),
            text::settings_file_header(lang),
        ] {
            assert!(!s.is_empty());
        }
        assert!(text::tip_starting(lang).starts_with("INZONE: "));
    }
    assert_eq!(text::unknown_option(Lang::En, "-x"), "unknown option: -x");
    assert_eq!(text::unknown_option(Lang::Ja, "-x"), "不明なオプション: -x");
    assert_eq!(text::tip_no_dongle(Lang::En, 3), "INZONE: receiver not found (could not identify 3 of the ports)");
    assert_eq!(text::notify_battery_critical(Lang::En, 9), "Battery is nearly empty (9%)");
    assert_eq!(text::notify_battery_low(Lang::Ja, 30), "バッテリーが残り 30% です");
    assert!(text::help(Lang::En).contains("--test-toast"));
    assert!(text::help(Lang::Ja).contains("--test-toast"));
}

#[test]
fn the_command_line_decides_once() {
    let args = |v: &[&str]| v.iter().map(|s| s.to_string()).collect::<Vec<String>>();
    assert_eq!(parse_args(&args(&[])), Command::Run(Args { test_toast: false }));
    assert_eq!(parse_args(&args(&["--test-toast"])), Command::Run(Args { test_toast: true }));
    assert_eq!(parse_args(&args(&["-h"])), Command::Help);
    assert_eq!(parse_args(&args(&["--test-toast", "--version"])), Command::Version);
    assert_eq!(parse_args(&args(&["-V", "--bogus"])), Command::Version);
    assert_eq!(parse_args(&args(&["--bogus", "-h"])), Command::Unknown("--bogus".into()));
    let msg = usage_error(Lang::En, "--bogus");
    assert!(msg.starts_with("unknown option: --bogus\n\n"));
    assert!(msg.ends_with(text::help(Lang::En)));
}

#[test]
fn the_tray_size_falls_back_rather_than_guessing() {
    assert_eq!(tray_icon_size(false, 24), REF_N);
    assert_eq!(tray_icon_size(true, 24), 24);
    assert_eq!(tray_icon_size(true, 16), 16);
    assert_eq!(tray_icon_size(true, 256), 256);
    assert_eq!(tray_icon_size(true, 0), REF_N);
    assert_eq!(tray_icon_size(true, 15), REF_N);
    assert_eq!(tray_icon_size(true, 257), REF_N);
}

#[test]
fn only_settled_device_changes_wake_the_poller() {
    assert!(is_settled_change(0));
    assert!(is_settled_change(1));
    assert!(!is_settled_change(2));
    assert!(!is_settled_change(3));
}

#[test]
fn failures_stretch_the_interval_to_two_minutes() {
    let mut wait = POLL_INTERVAL_SECS;
    let mut seen = Vec::new();
    for _ in 0..5 {
        wait = next_wait(wait, false);
        seen.push(wait);
    }
    assert_eq!(seen, vec![30, 60, 120, 120, 120]);
    assert_eq!(next_wait(120, true), 15);
    assert!(healthy(&State::HubBusy), "the Hub holding the port keeps the normal pace");
    assert!(!healthy(&State::NoDongle { unidentified: 0 }));
    assert!(!healthy(&State::Error(Cause::PortClosed)));
    assert!(healthy(&State::Off));
}

#[test]
fn transaction_ids_step_by_four_and_wrap() {
    assert_eq!(next_tid(1), 5);
    assert_eq!(next_tid(65532), 0);
    assert_eq!(next_tid(65535), 3);
}

#[test]
fn the_tray_announces_news_once() {
    let settings = Settings::default();
    let on = State::On {
        battery: Some(80),
        charging: false,
        bt: None,
    };
    let mut tray = Tray::new();
    let first = tray.receive(Lang::En, &settings, State::Off).expect("the first reading is drawn");
    assert!(first.power.is_none(), "launching must not fire a toast");
    tray.set_painted(true);
    assert!(tray.receive(Lang::En, &settings, State::Off).is_none(), "an unchanged reading is not news");
    let switched = tray.receive(Lang::En, &settings, on.clone()).expect("a change is drawn");
    assert_eq!(switched.power.as_deref(), Some("Headset switched on (battery 80%)"));
    assert!(!tray.needs_repaint(false));
    tray.set_painted(false);
    assert!(tray.needs_repaint(false), "a refused drawing is retried");

    let quiet = Settings {
        notify_power: false,
        ..Settings::default()
    };
    let off = tray.receive(Lang::En, &quiet, State::Off).expect("a change is drawn");
    assert!(off.power.is_none(), "the switch is off");
    assert_eq!(tray.shown(), Some(&State::Off));

    let stopped = State::Error(Cause::PollerStopped);
    assert!(tray.receive(Lang::En, &settings, stopped.clone()).is_some());
    assert!(tray.receive(Lang::En, &settings, stopped).is_none(), "a stopped poller is said once");
}

#[test]
fn same_state_compares_what_the_readings_say() {
    assert!(same_state(&State::Error(Cause::Io("x".into())), &State::Error(Cause::Io("x".into()))));
    assert!(!same_state(&State::Error(Cause::Io("x".into())), &State::Error(Cause::Open("x".into()))));
    assert!(!same_state(&State::NoDongle { unidentified: 1 }, &State::NoDongle { unidentified: 2 }));
}

#[test]
fn the_integer_wash_is_the_float_one() {
    // The charging wash is `c + (p - c) * 0.6` rounded: checked against the float formula
    // for every channel value, towards every paper channel.
    for p in PAPER {
        for c in 0..=255u8 {
            let float = (c as f32 + (p as f32 - c as f32) * 0.60f32).round() as u8;
            let washed = lighten([c, c, c]);
            let i = PAPER.iter().position(|&q| q == p).unwrap();
            assert_eq!(washed[i], float, "channel {c} towards {p}");
        }
    }
}

#[test]
fn the_bands_follow_the_thresholds() {
    assert_eq!(band_color(Some(15)), [0xEF, 0x44, 0x44]);
    assert_eq!(band_color(Some(16)), [0xF5, 0x9E, 0x0B]);
    assert_eq!(band_color(Some(35)), [0xF5, 0x9E, 0x0B]);
    assert_eq!(band_color(Some(36)), [0x22, 0xC5, 0x5E]);
    assert_eq!(band_color(None), [0x22, 0xC5, 0x5E]);
    assert_eq!(severity(15, 0), 2);
    assert_eq!(severity(20, 5), 2);
    assert_eq!(severity(21, 5), 1);
    assert_eq!(severity(41, 5), 0);
    assert_eq!(severity(255, 255), 2);
}

#[test]
fn every_decode_failure_has_a_sentence() {
    assert_eq!(decode_ret(&[0x04], 1, 1).unwrap_err(), DecodeError::Short { len: 1 });
    assert_eq!(DecodeError::Short { len: 1 }.describe(), "short reply (1 bytes)");
    assert_eq!(
        DecodeError::NotVendorEvent { first: 0x01, second: 0xFC }.describe(),
        "not a vendor HCI event: 01 FC"
    );
    assert_eq!(
        DecodeError::BelowMinimum { param_len: 0 }.describe(),
        "param_len 0 below the 9 byte minimum"
    );
    assert_eq!(
        DecodeError::Truncated { want: 13, have: 5 }.describe(),
        "truncated: want 13 bytes, have 5"
    );
    assert_eq!(DecodeError::ChecksumMismatch.describe(), "checksum mismatch");
    assert_eq!(DecodeError::NotSony { first: 0, second: 0xC3 }.describe(), "not a Sony frame: 00 C3");
    assert_eq!(
        DecodeError::WrongEvent { got_event: 0x61, want_event: 0x01 }.describe(),
        "event id 61 != 01"
    );
    assert_eq!(DecodeError::NotRet { event_type: 0x20 }.describe(), "event type 20 is not RET");
    assert_eq!(
        DecodeError::WrongTransaction { got_tid: 1, want_tid: 300 }.describe(),
        "transaction id 1 != 300"
    );
}

#[test]
fn a_cause_reads_as_plain_words() {
    assert_eq!(Cause::UnknownLink(0xAB).describe(), "unknown link state 0xAB");
    assert_eq!(
        Cause::NoReply {
            detail: None,
            unusable: 12
        }
        .describe(),
        "no usable reply (12 bytes)"
    );
    assert_eq!(
        Cause::NoReply {
            detail: Some("checksum mismatch".into()),
            unusable: 12
        }
        .describe(),
        "checksum mismatch (12 bytes unusable)"
    );
    assert_eq!(Cause::Dtr("busy".into()).describe(), "cannot assert DTR: busy");
    let long = "x".repeat(61);
    assert_eq!(Cause::Io(long).describe(), format!("{}…", "x".repeat(60)));
    let exact = "y".repeat(60);
    assert_eq!(Cause::Io(exact.clone()).describe(), exact);
    let astral = "🎧".repeat(31);
    assert_eq!(Cause::Io(astral).describe(), format!("{}…", "🎧".repeat(30)));
}

#[test]
fn settings_load_without_a_file_is_the_defaults() {
    assert_eq!(Settings::load(None), Settings::default());
    assert_eq!(
        Settings::load(Some("notify_battery=off\r\nlanguage=ja\r\n")),
        Settings {
            notify_power: true,
            notify_battery: false,
            language: Some(Lang::Ja)
        }
    );
}

#[test]
fn a_device_change_puts_the_interval_back() {
    let mut wait = POLL_INTERVAL_SECS;
    for _ in 0..4 {
        wait = next_wait(wait, false);
    }
    assert_eq!(wait, 120);
    assert_eq!(wait_after_wake(), 15);
}
