//! The permission column of a long listing.

use vstd::prelude::*;

verus! {

/// The bit that lets the owner read.
pub const OWNER_READ: u32 = 0o400;

/// The bit that lets the owner write.
pub const OWNER_WRITE: u32 = 0o200;

/// The bit that lets the owner execute.
pub const OWNER_EXECUTE: u32 = 0o100;

/// The bit that lets the group read.
pub const GROUP_READ: u32 = 0o040;

/// The bit that lets the group write.
pub const GROUP_WRITE: u32 = 0o020;

/// The bit that lets the group execute.
pub const GROUP_EXECUTE: u32 = 0o010;

/// The bit that lets all others read.
pub const OTHERS_READ: u32 = 0o004;

/// The bit that lets all others write.
pub const OTHERS_WRITE: u32 = 0o002;

/// The bit that lets all others execute.
pub const OTHERS_EXECUTE: u32 = 0o001;

/// The set-user-id bit.
pub const SET_USER_ID: u32 = 0o4000;

/// The set-group-id bit.
pub const SET_GROUP_ID: u32 = 0o2000;

/// The sticky bit.
pub const STICKY: u32 = 0o1000;

/// The bits that let anybody execute.
pub const ANY_EXECUTE: u32 = 0o111;

/// `mode` has a bit of `bits` set.
pub open spec fn has_bit(mode: u32, bits: u32) -> bool {
    mode & bits != 0
}

/// `letter` where `mode` has the bit, a dash where it has not.
pub open spec fn letter_or_dash(mode: u32, bit: u32, letter: char) -> char {
    if has_bit(mode, bit) {
        letter
    } else {
        '-'
    }
}

/// The character in an execute position: `x` or a dash by the execute bit;
/// where the special bit of the position is set, `set` with the execute bit
/// and `unset` without it.
pub open spec fn execute_char(mode: u32, execute: u32, special: u32, set: char, unset: char) -> char {
    if has_bit(mode, special) {
        if has_bit(mode, execute) {
            set
        } else {
            unset
        }
    } else {
        letter_or_dash(mode, execute, 'x')
    }
}

/// The permission column for `mode`: three characters each for the owner, the
/// group and all others, and a `+` behind them where the file has extended
/// attributes.
pub open spec fn permission_text(mode: u32, extended: bool) -> Seq<char> {
    let nine = seq![
        letter_or_dash(mode, OWNER_READ, 'r'),
        letter_or_dash(mode, OWNER_WRITE, 'w'),
        execute_char(mode, OWNER_EXECUTE, SET_USER_ID, 's', 'S'),
        letter_or_dash(mode, GROUP_READ, 'r'),
        letter_or_dash(mode, GROUP_WRITE, 'w'),
        execute_char(mode, GROUP_EXECUTE, SET_GROUP_ID, 's', 'S'),
        letter_or_dash(mode, OTHERS_READ, 'r'),
        letter_or_dash(mode, OTHERS_WRITE, 'w'),
        execute_char(mode, OTHERS_EXECUTE, STICKY, 't', 'T'),
    ];
    if extended {
        nine.push('+')
    } else {
        nine
    }
}

/// `letter` where `mode` has the bit, a dash where it has not.
fn letter(mode: u32, bit: u32, shown: char) -> (c: char)
    ensures
        c == letter_or_dash(mode, bit, shown),
{
    if mode & bit != 0 {
        shown
    } else {
        '-'
    }
}

/// The character in an execute position.
fn execute(mode: u32, bit: u32, special: u32, set: char, unset: char) -> (c: char)
    ensures
        c == execute_char(mode, bit, special, set, unset),
{
    if mode & special != 0 {
        if mode & bit != 0 {
            set
        } else {
            unset
        }
    } else {
        letter(mode, bit, 'x')
    }
}

/// Whether `mode` lets anybody execute the file.
pub fn is_executable(mode: u32) -> (executable: bool)
    ensures
        executable == has_bit(mode, ANY_EXECUTE),
{
    mode & ANY_EXECUTE != 0
}

/// Writes the permission column for `mode`; `extended` says that the file has
/// extended attributes.
pub fn format_permissions(mode: u32, extended: bool) -> (text: String)
    ensures
        text@ == permission_text(mode, extended),
{
    let mut text = String::new();
    text.push(letter(mode, OWNER_READ, 'r'));
    text.push(letter(mode, OWNER_WRITE, 'w'));
    text.push(execute(mode, OWNER_EXECUTE, SET_USER_ID, 's', 'S'));
    text.push(letter(mode, GROUP_READ, 'r'));
    text.push(letter(mode, GROUP_WRITE, 'w'));
    text.push(execute(mode, GROUP_EXECUTE, SET_GROUP_ID, 's', 'S'));
    text.push(letter(mode, OTHERS_READ, 'r'));
    text.push(letter(mode, OTHERS_WRITE, 'w'));
    text.push(execute(mode, OTHERS_EXECUTE, STICKY, 't', 'T'));
    if extended {
        text.push('+');
    }
    text
}

} // verus!
