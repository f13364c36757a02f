use inzone_h9_gen1_headset_status::settings::Settings;
use inzone_h9_gen1_headset_status::text::Lang;


/// What we write has to be what we read back, or a toggle survives the session it was
/// made in and then quietly reverts on the next launch.
#[test]
fn a_saved_setting_reads_back_the_same() {
    for notify_power in [true, false] {
        for notify_battery in [true, false] {
            for language in [None, Some(Lang::Ja), Some(Lang::En)] {
                let want = Settings {
                    notify_power,
                    notify_battery,
                    language,
                };
                assert_eq!(Settings::parse(&want.as_text(Lang::Ja)), want);
            }
        }
    }
}

/// A file we cannot fully understand must leave every preference it did not speak
/// about alone, rather than resetting the lot or flipping one.
#[test]
fn a_damaged_file_never_flips_a_preference() {
    let default = Settings::default();
    assert_eq!(Settings::parse(""), default);
    assert_eq!(Settings::parse("# comment only\n\n   \n"), default);
    assert_eq!(Settings::parse("garbage without an equals sign"), default);
    assert_eq!(Settings::parse("notify_power=maybe"), default, "an unknown value");
    // A real language code, because that is what someone will actually type. It has to
    // leave the interface where it was rather than half-applying.
    assert_eq!(Settings::parse("language=fr"), default, "a language we do not speak");
    // A language we do understand, and the word that means "ask Windows".
    assert_eq!(Settings::parse("language=en").language, Some(Lang::En));
    assert_eq!(Settings::parse("language=auto").language, None);
    // An unreadable value leaves an earlier good one alone, rather than resetting it.
    assert_eq!(Settings::parse("language=ja\nlanguage=zz").language, Some(Lang::Ja));

    // The header is the only prose in the file, and it is the only place `language`'s
    // other values are written down. It has been wrong once already, when it still
    // claimed every value was on or off.
    for lang in [Lang::Ja, Lang::En] {
        let header = Settings::default().as_text(lang).lines().next().unwrap().to_string();
        assert!(header.starts_with('#'), "{lang:?} header must be a comment: {header}");
        for value in ["auto", "ja", "en"] {
            assert!(header.contains(value), "{lang:?} header omits {value}: {header}");
        }
        assert!(!header.contains('\n'), "{lang:?} header must stay one line");
    }
    // An explicit `on` has to be read as a decision, and the only way to see that is over
    // a line that said otherwise. Both preferences default to on, so a parser that
    // dropped the word entirely would still satisfy every round trip above.
    assert!(Settings::parse("notify_power=off\nnotify_power=on").notify_power);
    assert!(Settings::parse("notify_battery=off\nnotify_battery=on").notify_battery);
    assert_eq!(Settings::parse("notify_power="), default, "an empty value");
    assert_eq!(Settings::parse("unknown_key=off"), default, "a key from the future");

    // Truncated halfway through: the key that did arrive is honored, the one that did
    // not keeps its default rather than being read as off.
    let half = Settings::parse("notify_power=off\nnotify_bat");
    assert!(!half.notify_power);
    assert!(half.notify_battery, "a line that never arrived is not a decision");

    // Whitespace and a trailing comment block are ordinary, not damage.
    let spaced = Settings::parse("  notify_power = off  \n#note\n\tnotify_battery\t=\toff\t");
    assert_eq!(
        spaced,
        Settings {
            notify_power: false,
            notify_battery: false,
            language: None
        }
    );
}
