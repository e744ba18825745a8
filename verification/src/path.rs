//! Device paths: how physical drives and logical volumes are addressed, as
//! text and as the NUL-terminated UTF-16 strings that the platform takes.

use vstd::prelude::*;
use vstd::string::StringExecFns;
use vstd::string::StrSliceExecFns;
use crate::text::{decimal, is_digit, lemma_decimal_shape, push_decimal};

verus! {

/// The UTF-16 code units of one character: the code point itself inside the
/// basic plane, a surrogate pair above it.
pub open spec fn utf16_units(c: char) -> Seq<u16> {
    let v = c as u32;
    if v < 0x1_0000 {
        seq![v as u16]
    } else {
        seq![
            (0xD800 + (v - 0x1_0000) / 0x400) as u16,
            (0xDC00 + (v - 0x1_0000) % 0x400) as u16,
        ]
    }
}

/// The UTF-16 encoding of a text.
pub open spec fn utf16(s: Seq<char>) -> Seq<u16>
    decreases s.len(),
{
    if s.len() == 0 {
        Seq::<u16>::empty()
    } else {
        utf16(s.drop_last()) + utf16_units(s.last())
    }
}

/// The NUL-terminated UTF-16 string of a text. There is none for a text with a
/// NUL before its last code unit. A text that already ends in NUL is taken as
/// it is; every other text gets a NUL appended.
pub open spec fn wide_c_string(s: Seq<char>) -> Option<Seq<u16>> {
    let units = utf16(s);
    if exists|i: int| 0 <= i < units.len() - 1 && units[i] == 0 {
        None
    } else if units.len() > 0 && units.last() == 0 {
        Some(units)
    } else {
        Some(units.push(0))
    }
}

/// Converts a text with `widestring::U16CString::from_str` and hands out the
/// units with their terminator. The crate encodes the text as UTF-16, fails on
/// a NUL anywhere but in the last position, and makes sure that the result
/// ends in exactly one NUL.
#[verifier::external_body]
pub(crate) fn to_wide_c_string(s: &str) -> (wide: Option<Vec<u16>>)
    ensures
        match wide {
            Some(v) => wide_c_string(s@) == Some(v@),
            None => wide_c_string(s@) is None,
        },
{
    match widestring::U16CString::from_str(s) {
        Ok(w) => Some(w.into_vec_with_nul()),
        Err(_) => None,
    }
}

/// A text whose characters all lie in the basic plane and of which none is NUL.
pub open spec fn is_plain(s: Seq<char>) -> bool {
    forall|i: int| 0 <= i < s.len() ==> 0 < #[trigger] s[i] as u32 && (s[i] as u32) < 0x1_0000
}

/// One code unit for each character of a plain text, and a NUL behind them.
pub open spec fn plain_wide(s: Seq<char>) -> Seq<u16> {
    Seq::new(s.len() + 1, |i: int| if i < s.len() { s[i] as u32 as u16 } else { 0u16 })
}

/// A plain text encodes unit by unit and has a NUL-terminated form.
pub proof fn lemma_plain_wide(s: Seq<char>)
    requires
        is_plain(s),
    ensures
        utf16(s) == plain_wide(s).drop_last(),
        wide_c_string(s) == Some(plain_wide(s)),
    decreases s.len(),
{
    if s.len() == 0 {
        assert(utf16(s) =~= plain_wide(s).drop_last());
    } else {
        let front = s.drop_last();
        assert(is_plain(front)) by {
            assert forall|i: int| 0 <= i < front.len() implies 0 < #[trigger] front[i] as u32 && (
            front[i] as u32) < 0x1_0000 by {
                assert(front[i] == s[i]);
            }
        }
        lemma_plain_wide(front);
        assert(0 < s[s.len() - 1] as u32 && (s[s.len() - 1] as u32) < 0x1_0000);
        assert(utf16(s) =~= plain_wide(s).drop_last());
    }
    let units = utf16(s);
    assert forall|i: int| 0 <= i < units.len() implies units[i] != 0 by {
        assert(0 < s[i] as u32 && (s[i] as u32) < 0x1_0000);
    }
    assert(units.push(0) =~= plain_wide(s));
}

/// Encodes a path as the NUL-terminated UTF-16 string that the platform's open
/// call takes. A plain path always has one, made of its characters one by one.
pub fn encode_wide(path: &str) -> (wide: Option<Vec<u16>>)
    ensures
        match wide {
            Some(v) => wide_c_string(path@) == Some(v@),
            None => wide_c_string(path@) is None,
        },
        is_plain(path@) ==> wide is Some && wide->Some_0@ == plain_wide(path@),
{
    proof {
        if is_plain(path@) {
            lemma_plain_wide(path@);
        }
    }
    to_wide_c_string(path)
}

/// The device path of the physical drive with the given index.
pub open spec fn physical_drive_path_text(index: nat) -> Seq<char> {
    "\\\\.\\PHYSICALDRIVE"@ + decimal(index)
}

/// The device path of the logical volume with the given drive letter.
pub open spec fn volume_device_path_text(letter: char) -> Seq<char> {
    "\\\\.\\"@.push(letter).push(':')
}

/// The root path of the logical volume with the given drive letter.
pub open spec fn volume_root_path_text(letter: char) -> Seq<char> {
    seq![letter, ':', '\\']
}

/// The device path of the physical drive with the given index.
pub fn physical_drive_path(index: u64) -> (path: String)
    ensures
        path@ == physical_drive_path_text(index as nat),
{
    let mut path = String::from_str("\\\\.\\PHYSICALDRIVE");
    push_decimal(&mut path, index);
    path
}

/// The device path of the logical volume with the given drive letter.
pub fn volume_device_path(letter: char) -> (path: String)
    ensures
        path@ == volume_device_path_text(letter),
{
    let mut path = String::from_str("\\\\.\\");
    path.push(letter);
    path.push(':');
    path
}

/// The root path of the logical volume with the given drive letter, as the
/// free-space query takes it.
pub fn volume_root_path(letter: char) -> (path: String)
    ensures
        path@ == volume_root_path_text(letter),
{
    let mut path = String::new();
    path.push(letter);
    path.push(':');
    path.push('\\');
    assert(path@ =~= volume_root_path_text(letter));
    path
}

/// The drive letter of a volume device path, where the text is one.
pub fn volume_letter(path: &str) -> (letter: Option<char>)
    ensures
        match letter {
            Some(c) => path@ == volume_device_path_text(c),
            None => forall|c: char| path@ != volume_device_path_text(c),
        },
{
    proof {
        reveal_strlit("\\\\.\\");
    }
    if path.unicode_len() != 6 {
        return None;
    }
    if path.get_char(0) == '\\' && path.get_char(1) == '\\' && path.get_char(2) == '.'
        && path.get_char(3) == '\\' && path.get_char(5) == ':' {
        let c = path.get_char(4);
        assert(path@ =~= volume_device_path_text(c));
        Some(c)
    } else {
        None
    }
}

/// Device paths are plain, so each of them has a NUL-terminated wide form.
pub proof fn lemma_device_paths_plain(index: nat, letter: char)
    ensures
        is_plain(physical_drive_path_text(index)),
        0 < letter as u32 && (letter as u32) < 0x1_0000 ==> is_plain(
            volume_device_path_text(letter),
        ) && is_plain(volume_root_path_text(letter)),
{
    reveal_strlit("\\\\.\\PHYSICALDRIVE");
    reveal_strlit("\\\\.\\");
    lemma_decimal_shape(index);
    let p = physical_drive_path_text(index);
    assert forall|i: int| 0 <= i < p.len() implies 0 < #[trigger] p[i] as u32 && (p[i] as u32)
        < 0x1_0000 by {
        if i >= 17 {
            assert(p[i] == decimal(index)[i - 17]);
            assert(is_digit(decimal(index)[i - 17]));
        }
    }
}

} // verus!
