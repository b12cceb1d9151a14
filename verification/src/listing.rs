//! The decisions of a directory listing: its options, how a name is shown,
//! and how the names are laid out in columns.

use vstd::prelude::*;
use vstd::string::StringExecFns;
use crate::command::texts;
use crate::render::decimal;
use crate::render::decimal_wide;
use crate::render::decimal_text;
use crate::permissions::format_permissions;
use crate::permissions::permission_text;
use crate::render::left_aligned;
use crate::render::push_left_aligned;
use crate::render::push_right_aligned;
use crate::render::right_aligned;
use crate::text::chars_of;

verus! {

/// Status of a listing that was given an option it does not know.
pub const STATUS_INVALID_OPTION: i32 = 2;

/// The options of a listing.
#[derive(Debug, PartialEq, Eq, Clone, Copy, Structural)]
pub struct ListOptions {
    /// `-a`: entries whose names start with a dot are listed too.
    pub all: bool,
    /// `-F`: a character behind the name tells the kind of the entry.
    pub classify: bool,
    /// `-l`: one entry a line, with its details.
    pub long: bool,
}

/// What kind of file an entry is.
#[derive(Debug, PartialEq, Eq, Clone, Copy, Structural)]
pub enum FileKind {
    Directory,
    Symlink,
    Regular,
    Fifo,
    Socket,
    CharDevice,
    BlockDevice,
    Other,
}

/// How a name is quoted in a listing.
#[derive(Debug, PartialEq, Eq, Clone, Copy, Structural)]
pub enum Quoting {
    Bare,
    Single,
    Double,
}

/// `arg` is an option: it starts with a dash.
pub open spec fn is_option(arg: Seq<char>) -> bool {
    arg.len() > 0 && arg[0] == '-'
}

/// `c` is a letter that a listing knows as an option.
pub open spec fn is_option_letter(c: char) -> bool {
    c == 'a' || c == 'F' || c == 'l'
}

/// Every character behind the dash of `arg` is a known option letter.
pub open spec fn is_known_option(arg: Seq<char>) -> bool {
    forall|i: int| 1 <= i < arg.len() ==> is_option_letter(arg[i])
}

/// One of the first `n` arguments is an option that holds `letter` behind its
/// dash.
pub open spec fn option_given(args: Seq<Seq<char>>, n: int, letter: char) -> bool {
    exists|k: int, i: int|
        0 <= k < n && is_option(args[k]) && 1 <= i < args[k].len() && #[trigger] args[k][i]
            == letter
}

/// Every option among the first `n` arguments is known.
pub open spec fn options_known(args: Seq<Seq<char>>, n: int) -> bool {
    forall|k: int| 0 <= k < n && is_option(#[trigger] args[k]) ==> is_known_option(args[k])
}

/// The arguments that are no options, in their order.
pub open spec fn operands(args: Seq<Seq<char>>) -> Seq<Seq<char>>
    decreases args.len(),
{
    if args.len() == 0 {
        Seq::empty()
    } else if is_option(args.last()) {
        operands(args.drop_last())
    } else {
        operands(args.drop_last()).push(args.last())
    }
}

/// The options that `args` give, or `None` where an option holds a letter
/// that is not known.
pub open spec fn options_of(args: Seq<Seq<char>>) -> Option<ListOptions> {
    if options_known(args, args.len() as int) {
        Some(
            ListOptions {
                all: option_given(args, args.len() as int, 'a'),
                classify: option_given(args, args.len() as int, 'F'),
                long: option_given(args, args.len() as int, 'l'),
            },
        )
    } else {
        None
    }
}

/// Reads the options of a listing out of its arguments. `None` says that an
/// option letter is not known.
pub fn parse_list_options(args: &Vec<String>) -> (options: Option<ListOptions>)
    ensures
        options == options_of(texts(args@)),
{
    let ghost all_args = texts(args@);
    let mut options = ListOptions { all: false, classify: false, long: false };
    let mut k: usize = 0;
    while k < args.len()
        invariant
            k <= args.len(),
            all_args == texts(args@),
            options_known(all_args, k as int),
            options.all == option_given(all_args, k as int, 'a'),
            options.classify == option_given(all_args, k as int, 'F'),
            options.long == option_given(all_args, k as int, 'l'),
        decreases args.len() - k,
    {
        let arg = chars_of(args[k].as_str());
        if arg.len() > 0 && arg[0] == '-' {
            let mut i: usize = 1;
            while i < arg.len()
                invariant
                    1 <= i <= arg.len(),
                    k < args.len(),
                    all_args == texts(args@),
                    arg@ == all_args[k as int],
                    is_option(arg@),
                    options_known(all_args, k as int),
                    forall|j: int| 1 <= j < i ==> is_option_letter(arg[j]),
                    options.all == (option_given(all_args, k as int, 'a') || exists|j: int|
                        1 <= j < i && arg[j] == 'a'),
                    options.classify == (option_given(all_args, k as int, 'F') || exists|j: int|
                        1 <= j < i && arg[j] == 'F'),
                    options.long == (option_given(all_args, k as int, 'l') || exists|j: int|
                        1 <= j < i && arg[j] == 'l'),
                decreases arg.len() - i,
            {
                let c = arg[i];
                if c == 'a' {
                    options.all = true;
                } else if c == 'F' {
                    options.classify = true;
                } else if c == 'l' {
                    options.long = true;
                } else {
                    return None;
                }
                i += 1;
            }
        }
        k += 1;
    }
    Some(options)
}

/// The arguments of a listing that are no options, in their order.
pub fn list_operands(args: &Vec<String>) -> (names: Vec<String>)
    ensures
        texts(names@) == operands(texts(args@)),
{
    let ghost all_args = texts(args@);
    let mut names: Vec<String> = Vec::new();
    let mut k: usize = 0;
    while k < args.len()
        invariant
            k <= args.len(),
            all_args == texts(args@),
            texts(names@) == operands(all_args.take(k as int)),
        decreases args.len() - k,
    {
        let arg = args[k].as_str();
        assert(all_args.take(k + 1).drop_last() =~= all_args.take(k as int));
        let option = match first_char(arg) {
            Some(c) => c == '-',
            None => false,
        };
        if !option {
            names.push(args[k].clone());
        }
        k += 1;
    }
    assert(all_args.take(args.len() as int) =~= all_args);
    names
}

/// The first character of `text`, if it has one.
pub fn first_char(text: &str) -> (first: Option<char>)
    ensures
        first == if text@.len() > 0 {
            Some(text@[0])
        } else {
            None
        },
{
    if text.unicode_len() > 0 {
        Some(text.get_char(0))
    } else {
        None
    }
}

/// A name is shown as hidden where it starts with a dot.
pub open spec fn is_hidden_name(name: Seq<char>) -> bool {
    name.len() > 0 && name[0] == '.'
}

/// Whether an entry of this name is hidden.
pub fn is_hidden(name: &str) -> (hidden: bool)
    ensures
        hidden == is_hidden_name(name@),
{
    match first_char(name) {
        Some(c) => c == '.',
        None => false,
    }
}

/// `c` is a character that a shell would act on.
pub open spec fn is_shell_character(c: char) -> bool {
    c == '*' || c == '?' || c == '[' || c == ']' || c == '$' || c == '!' || c == '"' || c == '\\'
        || c == ';' || c == '&' || c == '|' || c == '<' || c == '>' || c == ' ' || c == '('
        || c == ')' || c == '`' || c == '~' || c == '#' || c == '='
}

/// How the part of `name` from position `from` on asks for the name to be
/// quoted: the first character that a shell would act on asks for single
/// quotes, a single quote before any such character asks for double quotes.
pub open spec fn quoting_from(name: Seq<char>, from: int) -> Quoting
    decreases name.len() - from,
{
    if from < 0 || from >= name.len() {
        Quoting::Bare
    } else if is_shell_character(name[from]) {
        Quoting::Single
    } else if name[from] == '\'' {
        Quoting::Double
    } else {
        quoting_from(name, from + 1)
    }
}

/// `name` as a listing shows it: between quotes where it needs them.
pub open spec fn quoted(name: Seq<char>) -> Seq<char> {
    match quoting_from(name, 0) {
        Quoting::Bare => name,
        Quoting::Single => seq!['\''] + name + seq!['\''],
        Quoting::Double => seq!['"'] + name + seq!['"'],
    }
}

/// Whether a shell would act on `c`.
fn shell_character(c: char) -> (b: bool)
    ensures
        b == is_shell_character(c),
{
    c == '*' || c == '?' || c == '[' || c == ']' || c == '$' || c == '!' || c == '"' || c == '\\'
        || c == ';' || c == '&' || c == '|' || c == '<' || c == '>' || c == ' ' || c == '('
        || c == ')' || c == '`' || c == '~' || c == '#' || c == '='
}

/// Decides how `name` is quoted in a listing.
pub fn quoting(name: &str) -> (how: Quoting)
    ensures
        how == quoting_from(name@, 0),
{
    let chars = chars_of(name);
    let mut i: usize = 0;
    while i < chars.len()
        invariant
            chars@ == name@,
            i <= chars.len(),
            quoting_from(name@, 0) == quoting_from(name@, i as int),
        decreases chars.len() - i,
    {
        let c = chars[i];
        if shell_character(c) {
            return Quoting::Single;
        } else if c == '\'' {
            return Quoting::Double;
        }
        i += 1;
    }
    Quoting::Bare
}

/// Writes `name` as a listing shows it.
pub fn quote_name(name: &str) -> (shown: String)
    ensures
        shown@ == quoted(name@),
{
    let mut shown = String::new();
    match quoting(name) {
        Quoting::Bare => {
            shown.append(name);
        },
        Quoting::Single => {
            shown.push('\'');
            shown.append(name);
            shown.push('\'');
        },
        Quoting::Double => {
            shown.push('"');
            shown.append(name);
            shown.push('"');
        },
    }
    shown
}

/// The character that a classified listing puts behind a name, if any: a
/// slash for a directory, an at sign for a symbolic link unless the listing
/// is long, a star for a regular file that can be executed, a bar for a fifo
/// and an equals sign for a socket.
pub open spec fn kind_mark(kind: FileKind, executable: bool, long: bool) -> Option<char> {
    match kind {
        FileKind::Directory => Some('/'),
        FileKind::Symlink => if long {
            None
        } else {
            Some('@')
        },
        FileKind::Regular => if executable {
            Some('*')
        } else {
            None
        },
        FileKind::Fifo => Some('|'),
        FileKind::Socket => Some('='),
        _ => None,
    }
}

/// The character that a classified listing puts behind a name, if any.
pub fn classify(kind: FileKind, executable: bool, long: bool) -> (mark: Option<char>)
    ensures
        mark == kind_mark(kind, executable, long),
{
    match kind {
        FileKind::Directory => Some('/'),
        FileKind::Symlink => if long {
            None
        } else {
            Some('@')
        },
        FileKind::Regular => if executable {
            Some('*')
        } else {
            None
        },
        FileKind::Fifo => Some('|'),
        FileKind::Socket => Some('='),
        _ => None,
    }
}

/// The first character of a long listing's line: the kind of the entry.
pub open spec fn kind_letter(kind: FileKind) -> char {
    match kind {
        FileKind::Directory => 'd',
        FileKind::Symlink => 'l',
        FileKind::Socket => 's',
        FileKind::Fifo => 'p',
        FileKind::CharDevice => 'c',
        FileKind::BlockDevice => 'b',
        FileKind::Regular => '-',
        FileKind::Other => '?',
    }
}

/// The first character of a long listing's line.
pub fn type_char(kind: FileKind) -> (letter: char)
    ensures
        letter == kind_letter(kind),
{
    match kind {
        FileKind::Directory => 'd',
        FileKind::Symlink => 'l',
        FileKind::Socket => 's',
        FileKind::Fifo => 'p',
        FileKind::CharDevice => 'c',
        FileKind::BlockDevice => 'b',
        FileKind::Regular => '-',
        FileKind::Other => '?',
    }
}

/// The columns and rows of a short listing.
#[derive(Debug, PartialEq, Eq, Clone, Copy, Structural)]
pub struct Grid {
    pub columns: usize,
    pub rows: usize,
}

/// The width of one column for names of at most `widest` characters.
pub open spec fn column_width(widest: nat) -> nat {
    widest + 2
}

/// The width that `count` names need side by side: `count` columns without
/// the two spaces behind the last one.
pub open spec fn row_width(count: nat, widest: nat) -> nat {
    if count * column_width(widest) >= 2 {
        (count * column_width(widest) - 2) as nat
    } else {
        0
    }
}

/// The columns of a listing of `count` names on a terminal `terminal`
/// characters wide: all names in one row where they fit, else as many
/// columns as fit, and one at least.
pub open spec fn grid_columns(count: nat, widest: nat, terminal: nat) -> nat {
    if row_width(count, widest) <= terminal {
        count
    } else if terminal / column_width(widest) >= 1 {
        terminal / column_width(widest)
    } else {
        1
    }
}

/// The rows of that listing: one where all names fit in a row, else as many
/// as the columns need to hold every name.
pub open spec fn grid_rows(count: nat, widest: nat, terminal: nat) -> nat {
    if row_width(count, widest) <= terminal {
        1
    } else {
        let columns = grid_columns(count, widest, terminal);
        (count + columns - 1) as nat / columns
    }
}

/// Every name has its cell inside the grid: the names fill the grid column by
/// column, name `i` stands in row `i % rows` and column `i / rows`, and that
/// column exists.
pub proof fn lemma_cell_in_grid(count: nat, widest: nat, terminal: nat, i: nat)
    requires
        i < count,
    ensures
        grid_rows(count, widest, terminal) > 0,
        i % grid_rows(count, widest, terminal) < grid_rows(count, widest, terminal),
        i / grid_rows(count, widest, terminal) < grid_columns(count, widest, terminal),
{
    let columns = grid_columns(count, widest, terminal);
    let rows = grid_rows(count, widest, terminal);
    if row_width(count, widest) <= terminal {
    } else {
        lemma_rows_hold_all(count, columns);
        assert(i / rows < columns) by (nonlinear_arith)
            requires
                i < count,
                count <= rows * columns,
                rows >= 1,
        {
        }
    }
}

/// `(count + columns - 1) / columns` rows of `columns` cells hold `count`
/// names, and there is a row where there is a name.
proof fn lemma_rows_hold_all(count: nat, columns: nat)
    requires
        columns >= 1,
    ensures
        count <= ((count + columns - 1) as nat / columns) * columns,
        count > 0 ==> (count + columns - 1) as nat / columns >= 1,
        (count + columns - 1) as nat / columns == count / columns + if count % columns == 0 {
            0nat
        } else {
            1nat
        },
        count % columns != 0 ==> count / columns < count,
{
    let total = (count + columns - 1) as nat;
    let q = count / columns;
    let r = count % columns;
    assert(count == q * columns + r && 0 <= r < columns && q >= 0) by (nonlinear_arith)
        requires
            q == count / columns,
            r == count % columns,
            columns >= 1,
    {
    }
    assert((q + 1) * columns == q * columns + columns) by (nonlinear_arith);
    if r == 0 {
        assert(total / columns == q) by (nonlinear_arith)
            requires
                total == q * columns + (columns - 1),
                columns >= 1,
                q >= 0,
        {
        }
        if count > 0 {
            assert(q >= 1) by (nonlinear_arith)
                requires
                    count == q * columns,
                    count > 0,
                    q >= 0,
                    columns >= 1,
            {
            }
        }
    } else {
        assert(total / columns == q + 1) by (nonlinear_arith)
            requires
                total == (q + 1) * columns + (r - 1),
                0 <= r - 1 < columns,
                columns >= 1,
                q >= 0,
        {
        }
        assert(q < count) by (nonlinear_arith)
            requires
                count == q * columns + r,
                r > 0,
                q >= 0,
                columns >= 1,
        {
        }
    }
}

/// Lays out `count` names, the widest `widest` characters wide, on a terminal
/// `terminal` characters wide.
pub fn grid(count: usize, widest: usize, terminal: usize) -> (grid: Grid)
    ensures
        grid.columns == grid_columns(count as nat, widest as nat, terminal as nat),
        grid.rows == grid_rows(count as nat, widest as nat, terminal as nat),
{
    let column: u128 = widest as u128 + 2;
    assert(count * column <= 0xffff_ffff_ffff_ffff * 0x1_0000_0000_0000_0001) by (nonlinear_arith)
        requires
            count <= 0xffff_ffff_ffff_ffff,
            column <= 0x1_0000_0000_0000_0001,
    {
    }
    let product: u128 = (count as u128) * column;
    let total: u128 = if product >= 2 {
        product - 2
    } else {
        0
    };
    if total <= terminal as u128 {
        Grid { columns: count, rows: 1 }
    } else {
        let quotient: u128 = terminal as u128 / column;
        assert(quotient <= terminal) by (nonlinear_arith)
            requires
                quotient == terminal as u128 / column,
                column >= 1,
        {
        }
        let columns: usize = if quotient >= 1 {
            quotient as usize
        } else {
            1
        };
        proof {
            lemma_rows_hold_all(count as nat, columns as nat);
        }
        let rows = if count % columns == 0 {
            count / columns
        } else {
            count / columns + 1
        };
        Grid { columns, rows }
    }
}

/// The major number of a device as `libc::major` takes it out of a Linux
/// device number.
pub open spec fn major_number(device: u64) -> u64 {
    ((device & 0x0000_0000_000f_ff00) >> 8) | ((device & 0xffff_f000_0000_0000) >> 32)
}

/// The minor number of a device as `libc::minor` takes it out of a Linux
/// device number.
pub open spec fn minor_number(device: u64) -> u64 {
    (device & 0x0000_0000_0000_00ff) | ((device & 0x0000_0fff_fff0_0000) >> 12)
}

/// `libc::major`, as the crate defines it for Linux: bits 8 to 19 of the
/// device number, and above them its bits 44 to 63.
#[verifier::external_body]
fn device_major(device: u64) -> (major: u32)
    ensures
        major as u64 == major_number(device),
{
    libc::major(device)
}

/// `libc::minor`, as the crate defines it for Linux: bits 0 to 7 of the
/// device number, and above them its bits 20 to 43.
#[verifier::external_body]
fn device_minor(device: u64) -> (minor: u32)
    ensures
        minor as u64 == minor_number(device),
{
    libc::minor(device)
}

/// The size column of a device: its major and minor number, right-aligned in
/// their widths, with a comma and a space between them.
pub open spec fn device_text(device: u64, major_width: nat, minor_width: nat) -> Seq<char> {
    right_aligned(decimal_text(major_number(device) as nat), major_width) + seq![','] + seq![' ']
        + right_aligned(decimal_text(minor_number(device) as nat), minor_width)
}

/// The size column of an entry: for a character or block device the numbers
/// of the device, for every other entry its size in bytes.
pub open spec fn size_text(
    kind: FileKind,
    size: u64,
    device: u64,
    major_width: nat,
    minor_width: nat,
) -> Seq<char> {
    if kind == FileKind::CharDevice || kind == FileKind::BlockDevice {
        device_text(device, major_width, minor_width)
    } else {
        decimal_text(size as nat)
    }
}

/// The widths of the major and the minor number of a device, in characters.
pub fn device_widths(device: u64) -> (widths: (usize, usize))
    ensures
        widths.0 == decimal_text(major_number(device) as nat).len(),
        widths.1 == decimal_text(minor_number(device) as nat).len(),
{
    let major = decimal(device_major(device) as u64);
    let minor = decimal(device_minor(device) as u64);
    (major.as_str().unicode_len(), minor.as_str().unicode_len())
}

/// Writes the size column of an entry.
pub fn size_field(
    kind: FileKind,
    size: u64,
    device: u64,
    major_width: usize,
    minor_width: usize,
) -> (field: String)
    ensures
        field@ == size_text(kind, size, device, major_width as nat, minor_width as nat),
{
    let is_device = match kind {
        FileKind::CharDevice => true,
        FileKind::BlockDevice => true,
        _ => false,
    };
    if is_device {
        let major = decimal(device_major(device) as u64);
        let minor = decimal(device_minor(device) as u64);
        let mut field = String::new();
        push_right_aligned(&mut field, major.as_str(), major_width);
        field.push(',');
        field.push(' ');
        push_right_aligned(&mut field, minor.as_str(), minor_width);
        field
    } else {
        decimal(size)
    }
}

/// The colour in which a listing shows a name: directories, symbolic links
/// and files that can be executed have their own, in this order of
/// precedence; everything else has none.
pub open spec fn colour_of(kind: FileKind, executable: bool) -> Seq<char> {
    if kind == FileKind::Directory {
        "\x1b[1;34m"@
    } else if kind == FileKind::Symlink {
        "\x1b[1;36m"@
    } else if executable {
        "\x1b[1;32m"@
    } else {
        "\x1b[0m"@
    }
}

/// The escape sequence of the colour in which a listing shows a name.
pub fn colour(kind: FileKind, executable: bool) -> (code: &'static str)
    ensures
        code@ == colour_of(kind, executable),
{
    match kind {
        FileKind::Directory => "\x1b[1;34m",
        FileKind::Symlink => "\x1b[1;36m",
        _ => if executable {
            "\x1b[1;32m"
        } else {
            "\x1b[0m"
        },
    }
}

/// One cell of a short listing: the name in its colour. In a listing of one
/// row a space follows the name; in a listing of several rows the name is
/// filled up to the width of a column.
pub open spec fn short_cell_text(
    name: Seq<char>,
    kind: FileKind,
    executable: bool,
    one_row: bool,
    width: nat,
) -> Seq<char> {
    colour_of(kind, executable) + if one_row {
        name.push(' ')
    } else {
        left_aligned(name, width)
    } + "\x1b[0m"@
}

/// Writes one cell of a short listing.
pub fn short_cell(name: &str, kind: FileKind, executable: bool, one_row: bool, width: usize) -> (cell:
    String)
    ensures
        cell@ == short_cell_text(name@, kind, executable, one_row, width as nat),
{
    let mut cell = String::new();
    cell.append(colour(kind, executable));
    if one_row {
        cell.append(name);
        cell.push(' ');
    } else {
        push_left_aligned(&mut cell, name, width);
    }
    cell.append("\x1b[0m");
    cell
}

/// What a long listing shows of one entry.
#[derive(Debug)]
pub struct LongEntry {
    /// The kind of the entry.
    pub kind: FileKind,
    /// Its permission bits.
    pub mode: u32,
    /// It has extended attributes.
    pub extended: bool,
    /// It can be executed.
    pub executable: bool,
    /// The number of its hard links, written out.
    pub links: String,
    /// The name of its owner.
    pub user: String,
    /// The name of its group.
    pub group: String,
    /// Its size column.
    pub size: String,
    /// Its time column.
    pub time: String,
    /// Its name as it is shown.
    pub name: String,
}

/// The widths of the columns of a long listing.
#[derive(Debug, PartialEq, Eq, Clone, Copy, Structural)]
pub struct Widths {
    pub links: usize,
    pub user: usize,
    pub group: usize,
    pub size: usize,
    pub time: usize,
}

/// The width of the link column of an entry: where the permission column
/// carries the mark of extended attributes, the link column gives up a
/// character for it.
pub open spec fn links_width(extended: bool, width: nat) -> nat {
    if extended && width > 0 {
        (width - 1) as nat
    } else {
        width
    }
}

/// The mathematical content of a [`LongEntry`].
pub struct LongEntryView {
    pub kind: FileKind,
    pub mode: u32,
    pub extended: bool,
    pub executable: bool,
    pub links: Seq<char>,
    pub user: Seq<char>,
    pub group: Seq<char>,
    pub size: Seq<char>,
    pub time: Seq<char>,
    pub name: Seq<char>,
}

impl View for LongEntry {
    type V = LongEntryView;

    open spec fn view(&self) -> LongEntryView {
        LongEntryView {
            kind: self.kind,
            mode: self.mode,
            extended: self.extended,
            executable: self.executable,
            links: self.links@,
            user: self.user@,
            group: self.group@,
            size: self.size@,
            time: self.time@,
            name: self.name@,
        }
    }
}

/// The line of a long listing for `entry`: kind and permissions, then the
/// links right-aligned, owner and group left-aligned, the size right-aligned,
/// the time left-aligned, and the name in its colour, with one space between
/// the columns. Every line but the last one ends with a line feed.
pub open spec fn long_line_text(entry: LongEntryView, widths: Widths, last: bool) -> Seq<char> {
    let line = Seq::<char>::empty().push(kind_letter(entry.kind)) + permission_text(
        entry.mode,
        entry.extended,
    );
    let line = line.push(' ') + right_aligned(
        entry.links,
        links_width(entry.extended, widths.links as nat),
    );
    let line = line.push(' ') + left_aligned(entry.user, widths.user as nat);
    let line = line.push(' ') + left_aligned(entry.group, widths.group as nat);
    let line = line.push(' ') + right_aligned(entry.size, widths.size as nat);
    let line = line.push(' ') + left_aligned(entry.time, widths.time as nat);
    let line = line.push(' ') + colour_of(entry.kind, entry.executable) + entry.name + "\x1b[0m"@;
    if last {
        line
    } else {
        line.push('\n')
    }
}

/// Writes the line of a long listing for `entry`.
pub fn long_line(entry: &LongEntry, widths: Widths, last: bool) -> (line: String)
    ensures
        line@ == long_line_text(entry@, widths, last),
{
    let mut line = String::new();
    line.push(type_char(entry.kind));
    let permissions = format_permissions(entry.mode, entry.extended);
    line.append(permissions.as_str());
    line.push(' ');
    let links = if entry.extended && widths.links > 0 {
        widths.links - 1
    } else {
        widths.links
    };
    push_right_aligned(&mut line, entry.links.as_str(), links);
    line.push(' ');
    push_left_aligned(&mut line, entry.user.as_str(), widths.user);
    line.push(' ');
    push_left_aligned(&mut line, entry.group.as_str(), widths.group);
    line.push(' ');
    push_right_aligned(&mut line, entry.size.as_str(), widths.size);
    line.push(' ');
    push_left_aligned(&mut line, entry.time.as_str(), widths.time);
    line.push(' ');
    line.append(colour(entry.kind, entry.executable));
    line.append(entry.name.as_str());
    line.append("\x1b[0m");
    if !last {
        line.push('\n');
    }
    line
}

/// What a long listing shows of the target of a symbolic link.
#[derive(Debug, PartialEq, Eq, Clone, Copy, Structural)]
pub enum LinkTarget {
    /// The target is a directory.
    Directory,
    /// The target is a regular file that can be executed.
    Program,
    /// The target is something else.
    Plain,
    /// The target cannot be reached.
    Broken,
}

/// The name column of a symbolic link in a long listing: the name, an arrow,
/// and the target in the colour of its kind; a classified listing marks a
/// directory and a program behind the target. A link whose target cannot be
/// reached is shown in red on both sides of the arrow.
pub open spec fn link_name_text(
    name: Seq<char>,
    target: Seq<char>,
    kind: LinkTarget,
    classified: bool,
) -> Seq<char> {
    match kind {
        LinkTarget::Broken => "\x1b[1;31m"@ + name + "\x1b[0m -> \x1b[1;31m"@ + target + "\x1b[0m"@,
        LinkTarget::Directory => name + "\x1b[0m -> "@ + "\x1b[1;34m"@ + target + if classified {
            seq!['/']
        } else {
            Seq::<char>::empty()
        } + "\x1b[0m"@,
        LinkTarget::Program => name + "\x1b[0m -> "@ + "\x1b[1;32m"@ + target + if classified {
            seq!['*']
        } else {
            Seq::<char>::empty()
        } + "\x1b[0m"@,
        LinkTarget::Plain => name + "\x1b[0m -> "@ + "\x1b[0m"@ + target + "\x1b[0m"@,
    }
}

/// Writes the name column of a symbolic link in a long listing.
pub fn link_name(name: &str, target: &str, kind: LinkTarget, classified: bool) -> (shown: String)
    ensures
        shown@ == link_name_text(name@, target@, kind, classified),
{
    let mut shown = String::new();
    match kind {
        LinkTarget::Broken => {
            shown.append("\x1b[1;31m");
            shown.append(name);
            shown.append("\x1b[0m -> \x1b[1;31m");
            shown.append(target);
            shown.append("\x1b[0m");
        },
        LinkTarget::Directory => {
            shown.append(name);
            shown.append("\x1b[0m -> ");
            shown.append("\x1b[1;34m");
            shown.append(target);
            if classified {
                shown.push('/');
            }
            shown.append("\x1b[0m");
        },
        LinkTarget::Program => {
            shown.append(name);
            shown.append("\x1b[0m -> ");
            shown.append("\x1b[1;32m");
            shown.append(target);
            if classified {
                shown.push('*');
            }
            shown.append("\x1b[0m");
        },
        LinkTarget::Plain => {
            shown.append(name);
            shown.append("\x1b[0m -> ");
            shown.append("\x1b[0m");
            shown.append(target);
            shown.append("\x1b[0m");
        },
    }
    shown
}

/// The first `n` cells of row `row` of a listing with `rows` rows, side by
/// side: the names fill the grid column by column, so the row holds every
/// `rows`-th cell from cell `row` on.
pub open spec fn row_text(cells: Seq<Seq<char>>, rows: nat, row: nat, n: nat) -> Seq<char>
    decreases n,
{
    if n == 0 {
        Seq::empty()
    } else {
        row_text(cells, rows, row, (n - 1) as nat) + cells[row + (n - 1) * rows]
    }
}

/// The number of cells in row `row` of a listing of `count` cells in `rows`
/// rows.
pub open spec fn cells_in_row(count: nat, rows: nat, row: nat) -> nat {
    if row < count && rows > 0 {
        ((count - row - 1) / (rows as int) + 1) as nat
    } else {
        0
    }
}

/// The whole of row `row`.
pub open spec fn full_row_text(cells: Seq<Seq<char>>, rows: nat, row: nat) -> Seq<char> {
    row_text(cells, rows, row, cells_in_row(cells.len(), rows, row))
}

/// The first `n` rows of a listing, one below the other, with a line feed
/// between two rows.
pub open spec fn rows_text(cells: Seq<Seq<char>>, rows: nat, n: nat) -> Seq<char>
    decreases n,
{
    if n == 0 {
        Seq::empty()
    } else if n == 1 {
        full_row_text(cells, rows, 0)
    } else {
        rows_text(cells, rows, (n - 1) as nat).push('\n') + full_row_text(
            cells,
            rows,
            (n - 1) as nat,
        )
    }
}

/// A short listing of `cells` in `rows` rows: as many rows as hold a cell.
pub open spec fn arranged(cells: Seq<Seq<char>>, rows: nat) -> Seq<char> {
    rows_text(
        cells,
        rows,
        if cells.len() < rows {
            cells.len()
        } else {
            rows
        },
    )
}

/// Lays the cells of a short listing out in `rows` rows, column by column.
pub fn arrange(cells: &Vec<String>, rows: usize) -> (listing: String)
    ensures
        listing@ == arranged(texts(cells@), rows as nat),
{
    let count = cells.len();
    let shown = if count < rows {
        count
    } else {
        rows
    };
    let ghost all = texts(cells@);
    let mut listing = String::new();
    let mut row: usize = 0;
    while row < shown
        invariant
            row <= shown,
            shown <= rows,
            shown <= count,
            count == cells.len(),
            all == texts(cells@),
            listing@ == rows_text(all, rows as nat, row as nat),
        decreases shown - row,
    {
        if row > 0 {
            listing.push('\n');
        }
        let ghost start = listing@;
        let mut i: usize = row;
        let mut n: usize = 0;
        while i < count
            invariant
                rows > 0,
                row < rows,
                row < count,
                count == cells.len(),
                all == texts(cells@),
                i <= count,
                i < count ==> i == row + n * rows,
                i == count ==> n == cells_in_row(count as nat, rows as nat, row as nat),
                listing@ == start + row_text(all, rows as nat, row as nat, n as nat),
            decreases count - i,
        {
            listing.append(cells[i].as_str());
            proof {
                lemma_next_in_row(count as nat, rows as nat, row as nat, n as nat);
            }
            if count - i <= rows {
                n += 1;
                i = count;
            } else {
                n += 1;
                i += rows;
            }
        }
        row += 1;
    }
    listing
}

/// Cell `row + n * rows` is in the row where it is below `count`; the cell
/// behind it is the next of the row where it is below `count` too, and the
/// row ends with this cell where it is not.
proof fn lemma_next_in_row(count: nat, rows: nat, row: nat, n: nat)
    requires
        rows > 0,
        row < rows,
        row + n * rows < count,
    ensures
        n < cells_in_row(count, rows, row),
        row + (n + 1) * rows == row + n * rows + rows,
        row + (n + 1) * rows >= count ==> n + 1 == cells_in_row(count, rows, row),
{
    let span = (count - row - 1) as int;
    let r = rows as int;
    assert((n + 1) * rows == n * rows + rows) by (nonlinear_arith);
    assert(n <= span / r) by (nonlinear_arith)
        requires
            n * r <= span,
            r > 0,
            n >= 0,
    {
    }
    if row + (n + 1) * rows >= count {
        assert(span / r < n + 1) by (nonlinear_arith)
            requires
                span < (n + 1) * r,
                r > 0,
                span >= 0,
        {
        }
    }
}

/// The owner or group column: the name where the system knows one for the
/// id, and the id written out where it knows none.
pub open spec fn name_or_id(known: Option<Seq<char>>, id: u32) -> Seq<char> {
    match known {
        Some(name) => name,
        None => decimal_text(id as nat),
    }
}

/// Writes the owner or group column.
pub fn owner_name(known: Option<String>, id: u32) -> (name: String)
    ensures
        name@ == name_or_id(
            match known {
                Some(text) => Some(text@),
                None => None,
            },
            id,
        ),
{
    match known {
        Some(text) => text,
        None => decimal(id as u64),
    }
}

/// The pattern of the time column: month, day and time of day for a file
/// changed in the current year, month, day and year for any other.
pub open spec fn time_pattern_of(changed_year: i32, current_year: i32) -> Seq<char> {
    if changed_year == current_year {
        "%b %e %H:%M"@
    } else {
        "%b %e  %Y"@
    }
}

/// Picks the pattern of the time column.
pub fn time_pattern(changed_year: i32, current_year: i32) -> (pattern: &'static str)
    ensures
        pattern@ == time_pattern_of(changed_year, current_year),
{
    if changed_year == current_year {
        "%b %e %H:%M"
    } else {
        "%b %e  %Y"
    }
}

/// The heading of one directory in a listing of several: its name and a
/// colon on a line of their own. A listing of one directory has no heading.
pub open spec fn heading_text(name: Seq<char>, several: bool) -> Seq<char> {
    if several {
        name + seq![':', '\n']
    } else {
        Seq::empty()
    }
}

/// Writes the heading of one directory.
pub fn heading(name: &str, several: bool) -> (text: String)
    ensures
        text@ == heading_text(name@, several),
{
    let mut text = String::new();
    if several {
        text.append(name);
        text.push(':');
        text.push('\n');
    }
    text
}

/// The line that opens a long listing of a directory: the number of blocks
/// that its entries take.
pub open spec fn total_text(blocks: nat) -> Seq<char> {
    "total "@ + decimal_text(blocks) + seq!['\n']
}

/// Writes the line that opens a long listing of a directory.
pub fn total_line(blocks: u128) -> (text: String)
    ensures
        text@ == total_text(blocks as nat),
{
    let mut text = String::new();
    text.append("total ");
    text.append(decimal_wide(blocks).as_str());
    text.push('\n');
    text
}

} // verus!
