//! Building text: numbers in base ten, alignment in columns, and the listing
//! of the history.

use vstd::prelude::*;
use vstd::string::StringExecFns;
use crate::command::texts;
use crate::numbers::all_digits;
use crate::numbers::decimal_value;

verus! {

/// The character that writes the digit `d`.
pub open spec fn digit_char(d: int) -> char {
    if d == 0 {
        '0'
    } else if d == 1 {
        '1'
    } else if d == 2 {
        '2'
    } else if d == 3 {
        '3'
    } else if d == 4 {
        '4'
    } else if d == 5 {
        '5'
    } else if d == 6 {
        '6'
    } else if d == 7 {
        '7'
    } else if d == 8 {
        '8'
    } else {
        '9'
    }
}

/// `n` written in base ten, without leading zeros.
pub open spec fn decimal_text(n: nat) -> Seq<char>
    decreases n,
{
    if n < 10 {
        seq![digit_char(n as int)]
    } else {
        decimal_text(n / 10).push(digit_char((n % 10) as int))
    }
}

/// `n` spaces.
pub open spec fn spaces(n: nat) -> Seq<char> {
    Seq::new(n, |i: int| ' ')
}

/// `text` moved to the right end of a column of `width` characters; text that
/// is wider than the column stays as it is.
pub open spec fn right_aligned(text: Seq<char>, width: nat) -> Seq<char> {
    if text.len() < width {
        spaces((width - text.len()) as nat) + text
    } else {
        text
    }
}

/// `text` at the left end of a column of `width` characters; text that is
/// wider than the column stays as it is.
pub open spec fn left_aligned(text: Seq<char>, width: nat) -> Seq<char> {
    if text.len() < width {
        text + spaces((width - text.len()) as nat)
    } else {
        text
    }
}

/// The first `n` entries of a history as it is listed: each entry behind its
/// number, counted from 1 and right-aligned in `width` characters, and two
/// spaces. The entries bring their own line ends.
pub open spec fn numbered(history: Seq<Seq<char>>, width: nat, n: nat) -> Seq<char>
    decreases n,
{
    if n == 0 {
        Seq::empty()
    } else {
        numbered(history, width, (n - 1) as nat) + right_aligned(decimal_text(n), width) + seq![
            ' ',
            ' ',
        ] + history[n - 1]
    }
}

/// The listing of a history: every entry with its number, the numbers as wide
/// as the number of entries is.
pub open spec fn history_text(history: Seq<Seq<char>>) -> Seq<char> {
    numbered(history, decimal_text(history.len()).len(), history.len())
}

/// What `decimal_text` writes is read back as the same number, and it is made
/// of digits.
pub proof fn lemma_decimal_text_reads_back(n: nat)
    ensures
        decimal_text(n).len() > 0,
        all_digits(decimal_text(n)),
        decimal_value(decimal_text(n)) == n,
    decreases n,
{
    if n < 10 {
        let text = decimal_text(n);
        assert(decimal_value(text.drop_last()) == 0);
    } else {
        lemma_decimal_text_reads_back(n / 10);
        let text = decimal_text(n);
        assert(text.drop_last() =~= decimal_text(n / 10));
    }
}

/// The digit `d` as a character.
fn digit(d: u128) -> (c: char)
    requires
        d < 10,
    ensures
        c == digit_char(d as int),
{
    if d == 0 {
        '0'
    } else if d == 1 {
        '1'
    } else if d == 2 {
        '2'
    } else if d == 3 {
        '3'
    } else if d == 4 {
        '4'
    } else if d == 5 {
        '5'
    } else if d == 6 {
        '6'
    } else if d == 7 {
        '7'
    } else if d == 8 {
        '8'
    } else {
        '9'
    }
}

/// Writes `n` in base ten.
pub fn decimal_wide(n: u128) -> (text: String)
    ensures
        text@ == decimal_text(n as nat),
    decreases n,
{
    if n < 10 {
        let mut text = String::new();
        text.push(digit(n));
        text
    } else {
        let mut text = decimal_wide(n / 10);
        text.push(digit(n % 10));
        text
    }
}

/// Writes `n` in base ten.
pub fn decimal(n: u64) -> (text: String)
    ensures
        text@ == decimal_text(n as nat),
{
    decimal_wide(n as u128)
}

/// The number of characters of `text`.
pub fn width_of(text: &str) -> (width: usize)
    ensures
        width == text@.len(),
{
    text.unicode_len()
}

/// Appends `n` spaces to `text`.
pub fn push_spaces(text: &mut String, n: usize)
    ensures
        final(text)@ == old(text)@ + spaces(n as nat),
{
    let mut i: usize = 0;
    while i < n
        invariant
            i <= n,
            text@ == old(text)@ + spaces(i as nat),
        decreases n - i,
    {
        text.push(' ');
        i += 1;
    }
}

/// Appends `item` to `text`, right-aligned in a column of `width` characters.
pub fn push_right_aligned(text: &mut String, item: &str, width: usize)
    ensures
        final(text)@ == old(text)@ + right_aligned(item@, width as nat),
{
    let have = width_of(item);
    if have < width {
        push_spaces(text, width - have);
    }
    text.append(item);
}

/// Appends `item` to `text`, left-aligned in a column of `width` characters.
pub fn push_left_aligned(text: &mut String, item: &str, width: usize)
    ensures
        final(text)@ == old(text)@ + left_aligned(item@, width as nat),
{
    let have = width_of(item);
    text.append(item);
    if have < width {
        push_spaces(text, width - have);
    }
}

/// Lists a history: every entry behind its number.
pub fn history_listing(history: &Vec<String>) -> (listing: String)
    ensures
        listing@ == history_text(texts(history@)),
{
    let n = history.len();
    let width = width_of(decimal(n as u64).as_str());
    let mut listing = String::new();
    let mut i: usize = 0;
    while i < n
        invariant
            n == history.len(),
            i <= n,
            width == decimal_text(n as nat).len(),
            listing@ == numbered(texts(history@), width as nat, i as nat),
        decreases n - i,
    {
        let ghost before = listing@;
        let number = decimal((i + 1) as u64);
        push_right_aligned(&mut listing, number.as_str(), width);
        listing.append("  ");
        listing.append(history[i].as_str());
        proof {
            reveal_strlit("  ");
            assert(listing@ =~= before + right_aligned(decimal_text((i + 1) as nat), width as nat)
                + seq![' ', ' '] + texts(history@)[i as int]);
        }
        i += 1;
    }
    listing
}

} // verus!
