//! Starting with Windows, through the `Run` key under `HKCU`: what the entry for this exe
//! has to hold, how a value read back is judged, and which edit a toggle asks for. The
//! registry calls themselves belong to the program.
//!
//! The entry is judged against this exe's own path, so an entry left behind by a copy that
//! has since moved does not tick the menu; ticking it rewrites the entry, which is the
//! repair.

use vstd::prelude::*;

use crate::chars::str_chars;

verus! {

/// `REG_SZ`, the only value type Windows launches a `Run` command from.
pub const REG_SZ: u32 = 1;
pub const ERROR_SUCCESS: u32 = 0;
pub const ERROR_FILE_NOT_FOUND: u32 = 2;

/// Longest value worth reading, in bytes: twice what a Windows path can hold. The size comes
/// from the registry, so it is bounded before it is believed.
pub const VALUE_MAX_BYTES: u32 = 128 * 1024;

/// A character in UTF-16: one unit in the basic plane, a surrogate pair outside it.
pub open spec fn utf16_units(c: char) -> Seq<u16> {
    let u = c as u32;
    if u < 0x10000 {
        seq![u as u16]
    } else {
        seq![(0xD800 + (u - 0x10000) / 1024) as u16, (0xDC00 + (u - 0x10000) % 1024) as u16]
    }
}

/// A string in UTF-16.
pub open spec fn utf16_encode(s: Seq<char>) -> Seq<u16>
    decreases s.len(),
{
    if s.len() == 0 {
        Seq::empty()
    } else {
        utf16_encode(s.drop_last()) + utf16_units(s.last())
    }
}

/// `s` in UTF-16 with a terminating nul, the form the registry functions take.
pub fn wide(s: &str) -> (w: Vec<u16>)
    ensures
        w@ == utf16_encode(s@).push(0u16),
{
    let cs = str_chars(s);
    let mut w: Vec<u16> = Vec::new();
    let mut i: usize = 0;
    while i < cs.len()
        invariant
            cs@ == s@,
            i <= cs@.len(),
            w@ == utf16_encode(s@.take(i as int)),
        decreases cs@.len() - i,
    {
        assert(s@.take(i + 1).drop_last() =~= s@.take(i as int));
        let u = cs[i] as u32;
        if u < 0x10000 {
            w.push(u as u16);
        } else {
            let v = u - 0x10000;
            w.push((0xD800 + v / 1024) as u16);
            w.push((0xDC00 + v % 1024) as u16);
        }
        assert(w@ =~= utf16_encode(s@.take(i + 1)));
        i = i + 1;
    }
    assert(s@.take(i as int) =~= s@);
    w.push(0);
    w
}

pub open spec fn quote_unit() -> u16 {
    0x22u16
}

/// The command the entry has to hold for an exe: its path in quotes, nul terminated. The
/// quotes are not decoration: Windows splits an unquoted `Run` command on spaces.
pub open spec fn command_spec(exe: Seq<u16>) -> Seq<u16> {
    seq![quote_unit()] + exe + seq![quote_unit(), 0u16]
}

/// The command for the exe at `exe_path`, given as the path's own UTF-16, which need not be
/// valid Unicode.
pub fn command_for(exe_path: &[u16]) -> (c: Vec<u16>)
    requires
        exe_path@.len() + 3 <= usize::MAX,
    ensures
        c@ == command_spec(exe_path@),
{
    let mut c: Vec<u16> = Vec::new();
    c.push(0x22);
    let mut i: usize = 0;
    while i < exe_path.len()
        invariant
            i <= exe_path@.len(),
            c@ == seq![quote_unit()] + exe_path@.take(i as int),
        decreases exe_path@.len() - i,
    {
        c.push(exe_path[i]);
        assert(exe_path@.take(i + 1) =~= exe_path@.take(i as int).push(exe_path@[i as int]));
        i = i + 1;
    }
    c.push(0x22);
    c.push(0);
    assert(exe_path@.take(i as int) =~= exe_path@);
    assert(c@ =~= command_spec(exe_path@));
    c
}

/// Case folding for the comparison: only ASCII, which covers the drive letter and everything
/// else two Windows paths for one file have been seen to differ in.
pub open spec fn fold(u: u16) -> u16 {
    if 0x41 <= u <= 0x5A { (u + 0x20) as u16 } else { u }
}

/// Whether a stored value names the same command, ignoring ASCII case.
pub open spec fn same_command(stored: Seq<u16>, ours: Seq<u16>) -> bool {
    &&& stored.len() == ours.len()
    &&& forall|i: int| 0 <= i < stored.len() ==> fold(#[trigger] stored[i]) == fold(ours[i])
}

fn fold_unit(u: u16) -> (f: u16)
    ensures
        f == fold(u),
{
    if 0x41 <= u && u <= 0x5A { u + 0x20 } else { u }
}

/// Whether the `Run` value read back (if any) is the command for this exe (if its path is
/// known). A value naming another copy, or anything not read, is not this exe enabled.
pub fn is_enabled(stored: Option<&[u16]>, exe_path: Option<&[u16]>) -> (on: bool)
    requires
        exe_path matches Some(p) ==> p@.len() + 3 <= usize::MAX,
    ensures
        on == match (stored, exe_path) {
            (Some(s), Some(p)) => same_command(s@, command_spec(p@)),
            _ => false,
        },
{
    let (st, ep) = match (stored, exe_path) {
        (Some(s), Some(p)) => (s, p),
        _ => return false,
    };
    let ours = command_for(ep);
    if st.len() != ours.len() {
        return false;
    }
    let mut i: usize = 0;
    while i < st.len()
        invariant
            stored == Some(st),
            exe_path == Some(ep),
            ours@ == command_spec(ep@),
            st@.len() == ours@.len(),
            i <= st@.len(),
            forall|j: int| 0 <= j < i ==> fold(#[trigger] st@[j]) == fold(ours@[j]),
        decreases st@.len() - i,
    {
        if fold_unit(st[i]) != fold_unit(ours[i]) {
            assert(fold(st@[i as int]) != fold(ours@[i as int]));
            assert(!same_command(st@, ours@));
            return false;
        }
        i = i + 1;
    }
    true
}

/// Whether a value the registry describes (its type and size in bytes) is worth reading as a
/// command: a string, within the cap, and a whole number of UTF-16 units.
pub fn value_is_readable(kind: u32, size: u32) -> (ok: bool)
    ensures
        ok == (kind == REG_SZ && size <= VALUE_MAX_BYTES && size % 2 == 0),
{
    kind == REG_SZ && size <= VALUE_MAX_BYTES && size % 2 == 0
}

/// Little-endian UTF-16 units, two bytes each.
pub open spec fn units_of_le(bytes: Seq<u8>) -> Seq<u16> {
    Seq::new(bytes.len() / 2, |i: int| (bytes[2 * i] as int + 256 * bytes[2 * i + 1] as int) as u16)
}

/// The bytes a command is written as: each unit little-endian.
pub open spec fn le_of_units(units: Seq<u16>) -> Seq<u8> {
    Seq::new(2 * units.len(), |i: int| if i % 2 == 0 { (units[i / 2] % 256) as u8 } else { (units[i / 2] / 256) as u8 })
}

/// The command as the bytes the registry stores for it.
pub fn units_to_le(units: &[u16]) -> (bytes: Vec<u8>)
    requires
        2 * units@.len() <= usize::MAX,
    ensures
        bytes@ == le_of_units(units@),
{
    let mut bytes: Vec<u8> = Vec::new();
    let mut i: usize = 0;
    while i < units.len()
        invariant
            i <= units@.len(),
            bytes@.len() == 2 * i,
            forall|j: int| 0 <= j < 2 * i ==> #[trigger] bytes@[j] == le_of_units(units@)[j],
        decreases units@.len() - i,
    {
        bytes.push((units[i] % 256) as u8);
        bytes.push((units[i] / 256) as u8);
        i = i + 1;
    }
    assert(bytes@ =~= le_of_units(units@));
    bytes
}

/// What a second read of the value yields: the units, if it is still a string, still fits
/// the buffer it was read into, and is still a whole number of units. A value rewritten
/// between the size query and the read comes back with the type or length it has now.
pub fn read_command(kind: u32, size: u32, bytes: &[u8]) -> (units: Option<Vec<u16>>)
    ensures
        units matches Some(u) ==> kind == REG_SZ && size as int <= bytes@.len() && size % 2 == 0
            && u@ == units_of_le(bytes@.take(size as int)),
        (kind == REG_SZ && size as int <= bytes@.len() && size % 2 == 0) ==> units is Some,
{
    if !(kind == REG_SZ && (size as usize) <= bytes.len() && size % 2 == 0) {
        return None;
    }
    let n: usize = size as usize / 2;
    let ghost b = bytes@.take(size as int);
    let mut u: Vec<u16> = Vec::new();
    let mut i: usize = 0;
    while i < n
        invariant
            n == size / 2,
            size % 2 == 0,
            size as int <= bytes@.len(),
            b == bytes@.take(size as int),
            i <= n,
            u@.len() == i,
            forall|j: int| 0 <= j < i ==> #[trigger] u@[j] == units_of_le(b)[j],
        decreases n - i,
    {
        u.push(bytes[2 * i] as u16 + 256 * (bytes[2 * i + 1] as u16));
        i = i + 1;
    }
    assert(u@ =~= units_of_le(b));
    Some(u)
}

/// The edit a startup toggle asks of the registry.
#[derive(PartialEq, Eq, Clone, Debug)]
pub enum RunEdit {
    /// Write this command under the value name.
    Write(Vec<u16>),
    /// Delete the value, whatever it holds: one name means one entry.
    Delete,
}

/// The edit for switching startup on or off. On needs this exe's path, re-read on every
/// enable so moving the exe and toggling again repairs the entry; without a path there is
/// nothing to write.
pub fn set_enabled(on: bool, exe_path: Option<&[u16]>) -> (edit: Option<RunEdit>)
    requires
        exe_path matches Some(p) ==> p@.len() + 3 <= usize::MAX,
    ensures
        !on ==> edit == Some(RunEdit::Delete),
        on ==> match (exe_path, edit) {
            (Some(p), Some(RunEdit::Write(c))) => c@ == command_spec(p@),
            (None, None) => true,
            _ => false,
        },
{
    if !on {
        return Some(RunEdit::Delete);
    }
    match exe_path {
        Some(p) => Some(RunEdit::Write(command_for(p))),
        None => None,
    }
}

/// Whether the registry did what was asked. Deleting what was never there is the state the
/// caller asked for.
pub fn edit_succeeded(edit_was_delete: bool, err: u32) -> (ok: bool)
    ensures
        ok == (err == ERROR_SUCCESS || (edit_was_delete && err == ERROR_FILE_NOT_FOUND)),
{
    err == ERROR_SUCCESS || (edit_was_delete && err == ERROR_FILE_NOT_FOUND)
}

/// A written entry reads back as enabled: the bytes written for this exe's command, read
/// back as a string of that size, name this exe.
pub proof fn lemma_written_entry_reads_back(exe: Seq<u16>)
    ensures
        units_of_le(le_of_units(command_spec(exe))) == command_spec(exe),
        same_command(command_spec(exe), command_spec(exe)),
{
    let c = command_spec(exe);
    let b = le_of_units(c);
    assert forall|i: int| 0 <= i < c.len() implies #[trigger] units_of_le(b)[i] == c[i] by {
        assert(b[2 * i] == (c[i] % 256) as u8);
        assert(b[2 * i + 1] == (c[i] / 256) as u8);
    }
    assert(units_of_le(b) =~= c);
}

/// Case is not what tells two Windows paths apart: the same command with any of its ASCII
/// letters raised to upper case still names this exe.
pub proof fn lemma_case_does_not_matter(stored: Seq<u16>, ours: Seq<u16>)
    requires
        stored.len() == ours.len(),
        forall|i: int| 0 <= i < ours.len() ==> #[trigger] stored[i] == ours[i]
            || (0x61 <= ours[i] <= 0x7A && stored[i] == ours[i] - 0x20),
    ensures
        same_command(stored, ours),
{
}

/// UTF-16 takes one unit per character in the basic plane and two outside it.
pub proof fn lemma_wide_len(s: Seq<char>)
    ensures
        utf16_encode(s).len() == crate::chars::utf16_len(s),
    decreases s.len(),
{
    if s.len() > 0 {
        lemma_wide_len(s.drop_last());
    }
}

} // verus!
