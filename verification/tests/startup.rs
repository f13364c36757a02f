use inzone_h9_gen1_headset_status::startup::{
    command_for, edit_succeeded, is_enabled, read_command, set_enabled, units_to_le, value_is_readable, wide,
    RunEdit, ERROR_FILE_NOT_FOUND, ERROR_SUCCESS, REG_SZ, VALUE_MAX_BYTES,
};

fn utf16(s: &str) -> Vec<u16> {
    s.encode_utf16().collect()
}

#[test]
fn wide_is_nul_terminated_utf16() {
    assert_eq!(wide("ab"), vec![0x61, 0x62, 0]);
    assert_eq!(wide(""), vec![0]);
    let astral = "🎧x";
    let mut want: Vec<u16> = astral.encode_utf16().collect();
    want.push(0);
    assert_eq!(wide(astral), want);
    assert_eq!(wide("設定"), vec![0x8A2D, 0x5B9A, 0]);
}

#[test]
fn the_entry_is_the_quoted_path() {
    let exe = utf16(r"C:\Program Files\app.exe");
    let mut want = vec![u16::from(b'"')];
    want.extend(&exe);
    want.push(u16::from(b'"'));
    want.push(0);
    assert_eq!(command_for(&exe), want);
}

#[test]
fn an_entry_reads_back_as_enabled_only_for_this_exe() {
    let exe = utf16(r"C:\tools\inzone-h9-gen1-headset-status.exe");
    let ours = command_for(&exe);
    assert!(is_enabled(Some(&ours), Some(&exe)));
    assert!(!is_enabled(None, Some(&exe)));
    assert!(!is_enabled(Some(&ours), None));

    let elsewhere = wide(r#""C:\nowhere\inzone-h9-gen1-headset-status.exe""#);
    assert!(!is_enabled(Some(&elsewhere), Some(&exe)));

    // Same length, one character different: the comparison has to reach the characters.
    let mut same_length = ours.clone();
    let last = same_length.len() - 3;
    same_length[last] = if same_length[last] == u16::from(b'x') {
        u16::from(b'y')
    } else {
        u16::from(b'x')
    };
    assert!(!is_enabled(Some(&same_length), Some(&exe)));
}

#[test]
fn the_same_path_in_another_case_is_still_this_exe() {
    let exe = utf16(r"c:\tools\app.exe");
    let shouted: Vec<u16> = command_for(&exe)
        .iter()
        .map(|u| match u {
            0x61..=0x7A => u - 0x20,
            _ => *u,
        })
        .collect();
    assert!(is_enabled(Some(&shouted), Some(&exe)));
}

#[test]
fn only_a_string_of_whole_units_within_the_cap_is_read() {
    assert!(value_is_readable(REG_SZ, 10));
    assert!(!value_is_readable(3, 10), "REG_BINARY is not a string we were handed");
    assert!(!value_is_readable(REG_SZ, 11), "an odd byte count is not UTF-16");
    assert!(value_is_readable(REG_SZ, VALUE_MAX_BYTES));
    assert!(!value_is_readable(REG_SZ, VALUE_MAX_BYTES + 2), "a value past the cap must not be read");
}

#[test]
fn what_is_written_reads_back() {
    let exe = utf16(r"C:\tools\app.exe");
    let command = command_for(&exe);
    let bytes = units_to_le(&command);
    assert_eq!(bytes.len(), command.len() * 2);
    assert_eq!(read_command(REG_SZ, bytes.len() as u32, &bytes), Some(command.clone()));
    assert_eq!(read_command(3, bytes.len() as u32, &bytes), None);
    assert_eq!(read_command(REG_SZ, bytes.len() as u32 - 1, &bytes), None);
    assert_eq!(read_command(REG_SZ, bytes.len() as u32 + 2, &bytes), None);
}

#[test]
fn a_toggle_asks_for_the_right_edit() {
    let exe = utf16(r"C:\tools\app.exe");
    assert_eq!(set_enabled(true, Some(&exe)), Some(RunEdit::Write(command_for(&exe))));
    assert_eq!(set_enabled(true, None), None);
    assert_eq!(set_enabled(false, Some(&exe)), Some(RunEdit::Delete));
    assert_eq!(set_enabled(false, None), Some(RunEdit::Delete));

    assert!(edit_succeeded(false, ERROR_SUCCESS));
    assert!(!edit_succeeded(false, ERROR_FILE_NOT_FOUND));
    assert!(edit_succeeded(true, ERROR_FILE_NOT_FOUND), "removing an absent entry must not fail");
    assert!(!edit_succeeded(true, 5));
}
