//! The listing of one directory as a whole, made from what was read of its
//! entries: which of them are shown, how wide the columns are, in which order
//! the entries stand, and the text of the listing.

use vstd::prelude::*;
use vstd::string::StringExecFns;
use vstd::utf8::encode_utf8;
use crate::command::texts;
use crate::listing::arrange;
use crate::listing::arranged;
use crate::listing::classify;
use crate::listing::device_widths;
use crate::listing::grid;
use crate::listing::grid_rows;
use crate::listing::heading;
use crate::listing::heading_text;
use crate::listing::is_hidden;
use crate::listing::is_hidden_name;
use crate::listing::kind_mark;
use crate::listing::link_name;
use crate::listing::link_name_text;
use crate::listing::long_line;
use crate::listing::long_line_text;
use crate::listing::major_number;
use crate::listing::minor_number;
use crate::listing::quote_name;
use crate::listing::quoted;
use crate::listing::short_cell;
use crate::listing::short_cell_text;
use crate::listing::size_field;
use crate::listing::size_text;
use crate::listing::total_line;
use crate::listing::total_text;
use crate::listing::FileKind;
use crate::listing::LinkTarget;
use crate::listing::ListOptions;
use crate::listing::LongEntry;
use crate::listing::LongEntryView;
use crate::listing::Widths;
use crate::render::decimal;
use crate::render::decimal_text;
use crate::render::width_of;
use crate::sorting::lemma_ordered_holds_each_position;
use crate::sorting::keys_of;
use crate::sorting::listing_order;
use crate::sorting::order_names;
use crate::sorting::positions;

verus! {

/// Where a symbolic link points.
#[derive(Debug)]
pub struct Link {
    /// The target as text.
    pub target: String,
    /// What looking through the link finds.
    pub kind: LinkTarget,
}

/// What was read of one entry of a directory.
#[derive(Debug)]
pub struct Entry {
    /// The name of the entry.
    pub name: String,
    /// The entry is the directory itself or its parent, `.` or `..`.
    pub dot: bool,
    /// The kind of the entry.
    pub kind: FileKind,
    /// The kind by which the entry is classified, where it could be read.
    pub classified: Option<FileKind>,
    /// The permission bits.
    pub mode: u32,
    /// The entry has extended attributes.
    pub extended: bool,
    /// The entry can be executed.
    pub executable: bool,
    /// The number of hard links.
    pub links: u64,
    /// The name of the owner.
    pub user: String,
    /// The name of the group.
    pub group: String,
    /// The size in bytes.
    pub size: u64,
    /// The device number, for a device.
    pub device: u64,
    /// The number of 512-byte blocks.
    pub blocks: u64,
    /// The time column.
    pub time: String,
    /// The target, for a symbolic link that could be read.
    pub link: Option<Link>,
}

/// What was measured of the entries of a directory: the widths of the
/// columns, of the widest name, and of the widest major and minor number.
#[derive(Debug, PartialEq, Eq, Clone, Copy, Structural)]
pub struct Measures {
    pub widths: Widths,
    pub name: usize,
    pub major: usize,
    pub minor: usize,
}

/// The number of bytes that `text` takes in UTF-8.
pub open spec fn byte_length(text: Seq<char>) -> nat {
    encode_utf8(text).len()
}

/// The larger of a width and a length.
pub open spec fn larger(width: usize, length: nat) -> usize {
    if length > width {
        length as usize
    } else {
        width
    }
}

/// `kind` is a character or block device.
pub open spec fn is_device(kind: FileKind) -> bool {
    kind == FileKind::CharDevice || kind == FileKind::BlockDevice
}

/// Nothing measured yet.
pub open spec fn no_measures() -> Measures {
    Measures {
        widths: Widths { links: 0, user: 0, group: 0, size: 0, time: 0 },
        name: 0,
        major: 0,
        minor: 0,
    }
}

/// The measures with the entry `e` taken in. Every entry that was read
/// counts, shown or not; `.` and `..` count where they are shown, and for the
/// link column only. The size column of a device is as wide as the numbers
/// of the devices up to this one make it.
pub open spec fn measured(m: Measures, e: Entry, options: ListOptions, whole: bool) -> Measures {
    if e.dot {
        if options.all && whole {
            Measures {
                widths: Widths {
                    links: larger(m.widths.links, decimal_text(e.links as nat).len()),
                    ..m.widths
                },
                ..m
            }
        } else {
            m
        }
    } else {
        let major = if is_device(e.kind) {
            larger(m.major, decimal_text(major_number(e.device) as nat).len())
        } else {
            m.major
        };
        let minor = if is_device(e.kind) {
            larger(m.minor, decimal_text(minor_number(e.device) as nat).len())
        } else {
            m.minor
        };
        Measures {
            widths: Widths {
                links: larger(m.widths.links, decimal_text(e.links as nat).len()),
                user: larger(m.widths.user, byte_length(e.user@)),
                group: larger(m.widths.group, byte_length(e.group@)),
                size: larger(
                    m.widths.size,
                    size_text(e.kind, e.size, e.device, major as nat, minor as nat).len(),
                ),
                time: larger(m.widths.time, byte_length(e.time@)),
            },
            name: larger(m.name, byte_length(quoted(e.name@))),
            major,
            minor,
        }
    }
}

/// The measures of the first `n` entries.
pub open spec fn measures_of(entries: Seq<Entry>, options: ListOptions, whole: bool, n: nat) -> Measures
    decreases n,
{
    if n == 0 {
        no_measures()
    } else {
        measured(measures_of(entries, options, whole, (n - 1) as nat), entries[n - 1], options, whole)
    }
}

/// Whether the entry `e` is shown. `.` and `..` are shown in a listing of a
/// whole directory with `-a`. Any other entry is shown unless it is hidden
/// and `-a` is not given; a classified listing leaves out an entry whose kind
/// could not be read.
pub open spec fn is_listed(e: Entry, options: ListOptions, whole: bool) -> bool {
    if e.dot {
        options.all && whole
    } else {
        (options.classify ==> e.classified is Some) && (options.all || !is_hidden_name(e.name@))
    }
}

/// The name of the entry `e` as the listing shows it: quoted where it needs
/// quotes, and in a classified listing with the mark of its kind behind it.
/// `.` and `..` are never quoted, and a classified listing marks them as
/// directories.
pub open spec fn shown_name(e: Entry, options: ListOptions) -> Seq<char> {
    if e.dot {
        if options.classify {
            e.name@.push('/')
        } else {
            e.name@
        }
    } else if options.classify {
        match e.classified {
            Some(kind) => match kind_mark(kind, e.executable, options.long) {
                Some(mark) => quoted(e.name@).push(mark),
                None => quoted(e.name@),
            },
            None => quoted(e.name@),
        }
    } else {
        quoted(e.name@)
    }
}

/// The positions of the entries among the first `n` that are shown, in their
/// order.
pub open spec fn listed(entries: Seq<Entry>, options: ListOptions, whole: bool, n: nat) -> Seq<int>
    decreases n,
{
    if n == 0 {
        Seq::empty()
    } else if is_listed(entries[n - 1], options, whole) {
        listed(entries, options, whole, (n - 1) as nat).push(n - 1)
    } else {
        listed(entries, options, whole, (n - 1) as nat)
    }
}

/// The names of the entries at the positions `picked`, as they are shown.
pub open spec fn names_of(entries: Seq<Entry>, options: ListOptions, picked: Seq<int>) -> Seq<
    Seq<char>,
> {
    Seq::new(picked.len(), |k: int| shown_name(entries[picked[k]], options))
}

/// The positions of the entries that are shown, in the order of the listing.
pub open spec fn sources_of(entries: Seq<Entry>, options: ListOptions, whole: bool) -> Seq<int> {
    let picked = listed(entries, options, whole, entries.len());
    let order = listing_order(names_of(entries, options, picked));
    Seq::new(order.len(), |k: int| picked[order[k]])
}

/// What a long listing shows of the entry `e`. The name of a symbolic link
/// that could be read is followed by its target.
pub open spec fn line_of(e: Entry, options: ListOptions, m: Measures) -> LongEntryView {
    LongEntryView {
        kind: e.kind,
        mode: e.mode,
        extended: e.extended,
        executable: e.executable,
        links: decimal_text(e.links as nat),
        user: e.user@,
        group: e.group@,
        size: size_text(e.kind, e.size, e.device, m.major as nat, m.minor as nat),
        time: e.time@,
        name: match e.link {
            Some(link) => if e.kind == FileKind::Symlink {
                link_name_text(shown_name(e, options), link.target@, link.kind, options.classify)
            } else {
                shown_name(e, options)
            },
            None => shown_name(e, options),
        },
    }
}

/// The first `n` lines of a long listing of the entries at `sources`.
pub open spec fn long_lines(
    entries: Seq<Entry>,
    sources: Seq<int>,
    options: ListOptions,
    m: Measures,
    n: nat,
) -> Seq<char>
    decreases n,
{
    if n == 0 {
        Seq::empty()
    } else {
        long_lines(entries, sources, options, m, (n - 1) as nat) + long_line_text(
            line_of(entries[sources[n - 1]], options, m),
            m.widths,
            n == sources.len(),
        )
    }
}

/// The blocks that the first `n` entries at `sources` take, counted in
/// kilobytes: half the number of its 512-byte blocks for each.
pub open spec fn blocks_of(entries: Seq<Entry>, sources: Seq<int>, n: nat) -> nat
    decreases n,
{
    if n == 0 {
        0
    } else {
        blocks_of(entries, sources, (n - 1) as nat) + (entries[sources[n - 1]].blocks / 2) as nat
    }
}

/// The width of a column of a short listing: the widest name and two more,
/// as far as the machine can count.
pub open spec fn cell_width(name: usize) -> usize {
    if name + 2 <= usize::MAX {
        (name + 2) as usize
    } else {
        usize::MAX
    }
}

/// The cells of a short listing of the entries at `sources`.
pub open spec fn short_cells(
    entries: Seq<Entry>,
    sources: Seq<int>,
    options: ListOptions,
    m: Measures,
    one_row: bool,
) -> Seq<Seq<char>> {
    Seq::new(
        sources.len(),
        |k: int|
            short_cell_text(
                shown_name(entries[sources[k]], options),
                entries[sources[k]].kind,
                entries[sources[k]].executable,
                one_row,
                cell_width(m.name) as nat,
            ),
    )
}

/// The listing of a directory. `whole` says that `entries` are all that the
/// directory holds; `title` is set above the listing where `titled` says so;
/// `terminal` is the width of the terminal.
///
/// A long listing has a line for each entry that is shown, below the total
/// of their blocks where the listing is of a whole directory. A short
/// listing lays the names out in columns. Either way the entries stand in the
/// order of their names.
pub open spec fn listing_text(
    entries: Seq<Entry>,
    options: ListOptions,
    whole: bool,
    title: Seq<char>,
    titled: bool,
    terminal: nat,
) -> Seq<char> {
    let m = measures_of(entries, options, whole, entries.len());
    let sources = sources_of(entries, options, whole);
    if options.long {
        heading_text(title, titled) + if whole {
            total_text(blocks_of(entries, sources, sources.len()))
        } else {
            Seq::<char>::empty()
        } + long_lines(entries, sources, options, m, sources.len())
    } else {
        let rows = grid_rows(sources.len(), m.name as nat, terminal);
        heading_text(title, titled) + arranged(
            short_cells(entries, sources, options, m, rows == 1),
            rows,
        )
    }
}

/// The number of bytes that `text` takes.
pub fn bytes_in(text: &str) -> (n: usize)
    ensures
        n == byte_length(text@),
{
    text.as_bytes().len()
}

/// The larger of a width and a length.
fn wider(width: usize, length: usize) -> (w: usize)
    ensures
        w == larger(width, length as nat),
{
    if length > width {
        length
    } else {
        width
    }
}

/// Whether `kind` is a character or block device.
fn device_kind(kind: FileKind) -> (b: bool)
    ensures
        b == is_device(kind),
{
    match kind {
        FileKind::CharDevice => true,
        FileKind::BlockDevice => true,
        _ => false,
    }
}

/// Measures the entries of a directory.
pub fn measure(entries: &Vec<Entry>, options: ListOptions, whole: bool) -> (m: Measures)
    ensures
        m == measures_of(entries@, options, whole, entries.len() as nat),
{
    let mut m = Measures {
        widths: Widths { links: 0, user: 0, group: 0, size: 0, time: 0 },
        name: 0,
        major: 0,
        minor: 0,
    };
    let mut i: usize = 0;
    while i < entries.len()
        invariant
            i <= entries.len(),
            m == measures_of(entries@, options, whole, i as nat),
        decreases entries.len() - i,
    {
        let e = &entries[i];
        let links = width_of(decimal(e.links).as_str());
        if e.dot {
            if options.all && whole {
                m.widths.links = wider(m.widths.links, links);
            }
        } else {
            if device_kind(e.kind) {
                let (major, minor) = device_widths(e.device);
                m.major = wider(m.major, major);
                m.minor = wider(m.minor, minor);
            }
            let size = size_field(e.kind, e.size, e.device, m.major, m.minor);
            m.widths.links = wider(m.widths.links, links);
            m.widths.user = wider(m.widths.user, bytes_in(e.user.as_str()));
            m.widths.group = wider(m.widths.group, bytes_in(e.group.as_str()));
            m.widths.size = wider(m.widths.size, width_of(size.as_str()));
            m.widths.time = wider(m.widths.time, bytes_in(e.time.as_str()));
            m.name = wider(m.name, bytes_in(quote_name(e.name.as_str()).as_str()));
        }
        i += 1;
    }
    m
}

/// Whether the entry `e` is shown.
pub fn listed_entry(e: &Entry, options: ListOptions, whole: bool) -> (shown: bool)
    ensures
        shown == is_listed(*e, options, whole),
{
    if e.dot {
        options.all && whole
    } else {
        let classified = match e.classified {
            Some(_) => true,
            None => !options.classify,
        };
        classified && (options.all || !is_hidden(e.name.as_str()))
    }
}

/// Writes the name of the entry `e` as the listing shows it.
pub fn display_name(e: &Entry, options: ListOptions) -> (name: String)
    ensures
        name@ == shown_name(*e, options),
{
    if e.dot {
        let mut name = e.name.clone();
        if options.classify {
            name.push('/');
        }
        name
    } else {
        let mut name = quote_name(e.name.as_str());
        if options.classify {
            match e.classified {
                Some(kind) => match classify(kind, e.executable, options.long) {
                    Some(mark) => name.push(mark),
                    None => {},
                },
                None => {},
            }
        }
        name
    }
}

/// The positions of the entries that are shown, in the order of the listing.
pub fn arrange_entries(entries: &Vec<Entry>, options: ListOptions, whole: bool) -> (sources: Vec<
    usize,
>)
    ensures
        positions(sources@) == sources_of(entries@, options, whole),
        forall|k: int| 0 <= k < sources.len() ==> (#[trigger] sources[k]) < entries.len(),
{
    let mut picked: Vec<usize> = Vec::new();
    let mut names: Vec<String> = Vec::new();
    let mut i: usize = 0;
    while i < entries.len()
        invariant
            i <= entries.len(),
            picked.len() == names.len(),
            positions(picked@) == listed(entries@, options, whole, i as nat),
            texts(names@) == names_of(entries@, options, positions(picked@)),
            forall|k: int| 0 <= k < picked.len() ==> (#[trigger] picked[k]) < entries.len(),
        decreases entries.len() - i,
    {
        let ghost names_before = texts(names@);
        if listed_entry(&entries[i], options, whole) {
            let name = display_name(&entries[i], options);
            picked.push(i);
            names.push(name);
            assert(texts(names@) =~= names_before.push(name@));
        }
        i += 1;
    }
    let order = order_names(&names);
    let ghost all_names = texts(names@);
    let ghost placed_order = listing_order(all_names);
    let mut sources: Vec<usize> = Vec::new();
    let mut k: usize = 0;
    proof {
        lemma_ordered_holds_each_position(keys_of(all_names), all_names.len(), 0);
    }
    while k < order.len()
        invariant
            k <= order.len(),
            order.len() == names.len(),
            picked.len() == names.len(),
            all_names == texts(names@),
            placed_order == listing_order(all_names),
            positions(order@) == placed_order,
            sources.len() == k,
            forall|j: int| 0 <= j < picked.len() ==> (#[trigger] picked[j]) < entries.len(),
            forall|j: int| 0 <= j < k ==> (#[trigger] sources[j]) < entries.len(),
            forall|j: int| 0 <= j < k ==> 0 <= #[trigger] placed_order[j] < picked.len(),
            forall|j: int| 0 <= j < k ==> (#[trigger] sources[j]) == picked[placed_order[j]],
        decreases order.len() - k,
    {
        proof {
            lemma_ordered_holds_each_position(
                keys_of(all_names),
                all_names.len(),
                placed_order[k as int],
            );
        }
        sources.push(picked[order[k]]);
        k += 1;
    }
    assert(positions(sources@) =~= sources_of(entries@, options, whole)) by {
        let wanted = sources_of(entries@, options, whole);
        assert forall|j: int| 0 <= j < sources.len() implies positions(sources@)[j] == wanted[j] by {
        }
    }
    sources
}

/// What a long listing shows of the entry `e`.
pub fn line_entry(e: &Entry, options: ListOptions, m: Measures) -> (line: LongEntry)
    ensures
        line@ == line_of(*e, options, m),
{
    let shown = display_name(e, options);
    let name = match &e.link {
        Some(link) => match e.kind {
            FileKind::Symlink => link_name(
                shown.as_str(),
                link.target.as_str(),
                link.kind,
                options.classify,
            ),
            _ => shown,
        },
        None => shown,
    };
    LongEntry {
        kind: e.kind,
        mode: e.mode,
        extended: e.extended,
        executable: e.executable,
        links: decimal(e.links),
        user: e.user.clone(),
        group: e.group.clone(),
        size: size_field(e.kind, e.size, e.device, m.major, m.minor),
        time: e.time.clone(),
        name,
    }
}

/// The width of a column of a short listing.
fn column_for(name: usize) -> (width: usize)
    ensures
        width == cell_width(name),
{
    if name <= usize::MAX - 2 {
        name + 2
    } else {
        usize::MAX
    }
}

/// Writes the listing of a directory.
pub fn render_listing(
    entries: &Vec<Entry>,
    options: ListOptions,
    whole: bool,
    title: &str,
    titled: bool,
    terminal: usize,
) -> (listing: String)
    ensures
        listing@ == listing_text(entries@, options, whole, title@, titled, terminal as nat),
{
    let m = measure(entries, options, whole);
    let sources = arrange_entries(entries, options, whole);
    let ghost wanted = sources_of(entries@, options, whole);
    let count = sources.len();
    let mut listing = heading(title, titled);
    if options.long {
        let mut lines = String::new();
        let mut blocks: u128 = 0;
        let mut k: usize = 0;
        while k < count
            invariant
                k <= count,
                count == sources.len(),
                wanted == positions(sources@),
                forall|j: int| 0 <= j < sources.len() ==> (#[trigger] sources[j]) < entries.len(),
                lines@ == long_lines(entries@, wanted, options, m, k as nat),
                blocks == blocks_of(entries@, wanted, k as nat),
                blocks <= k * 0x8000_0000_0000_0000,
            decreases count - k,
        {
            let e = &entries[sources[k]];
            let line = long_line(&line_entry(e, options, m), m.widths, k == count - 1);
            lines.append(line.as_str());
            assert(k * 0x8000_0000_0000_0000 + 0x8000_0000_0000_0000 == (k + 1)
                * 0x8000_0000_0000_0000) by (nonlinear_arith);
            assert(k * 0x8000_0000_0000_0000 <= 0xffff_ffff_ffff_ffff * 0x8000_0000_0000_0000)
                by (nonlinear_arith)
                requires
                    k <= 0xffff_ffff_ffff_ffff,
            {
            }
            blocks = blocks + (e.blocks / 2) as u128;
            k += 1;
        }
        if whole {
            listing.append(total_line(blocks).as_str());
        }
        listing.append(lines.as_str());
        assert(listing@ =~= listing_text(
            entries@,
            options,
            whole,
            title@,
            titled,
            terminal as nat,
        ));
    } else {
        let layout = grid(count, m.name, terminal);
        let one_row = layout.rows == 1;
        let width = column_for(m.name);
        let mut cells: Vec<String> = Vec::new();
        let mut k: usize = 0;
        while k < count
            invariant
                k <= count,
                count == sources.len(),
                cells.len() == k,
                wanted == positions(sources@),
                width == cell_width(m.name),
                forall|j: int| 0 <= j < sources.len() ==> (#[trigger] sources[j]) < entries.len(),
                forall|j: int|
                    0 <= j < k ==> (#[trigger] cells[j])@ == short_cells(
                        entries@,
                        wanted,
                        options,
                        m,
                        one_row,
                    )[j],
            decreases count - k,
        {
            let e = &entries[sources[k]];
            let name = display_name(e, options);
            cells.push(short_cell(name.as_str(), e.kind, e.executable, one_row, width));
            k += 1;
        }
        assert(texts(cells@) =~= short_cells(entries@, wanted, options, m, one_row));
        listing.append(arrange(&cells, layout.rows).as_str());
    }
    listing
}

/// What looking through a symbolic link finds: nothing where the target
/// cannot be reached, else a directory, a regular file that can be executed,
/// or something else.
pub open spec fn target_kind_of(reached: bool, directory: bool, regular: bool, executable: bool) -> LinkTarget {
    if !reached {
        LinkTarget::Broken
    } else if directory {
        LinkTarget::Directory
    } else if regular && executable {
        LinkTarget::Program
    } else {
        LinkTarget::Plain
    }
}

/// Decides what looking through a symbolic link finds.
pub fn target_kind(reached: bool, directory: bool, regular: bool, executable: bool) -> (kind:
    LinkTarget)
    ensures
        kind == target_kind_of(reached, directory, regular, executable),
{
    if !reached {
        LinkTarget::Broken
    } else if directory {
        LinkTarget::Directory
    } else if regular && executable {
        LinkTarget::Program
    } else {
        LinkTarget::Plain
    }
}

/// Whether the listing of a directory gets its name as a title: where the
/// directory was named, and the listing has `targets` things to list that are
/// more than one.
pub open spec fn is_titled(named: bool, targets: nat) -> bool {
    named && targets > 1
}

/// Decides whether the listing of a directory gets its name as a title.
pub fn titled(named: bool, targets: usize) -> (title: bool)
    ensures
        title == is_titled(named, targets as nat),
{
    named && targets > 1
}

/// One part of the output of a listing of several directories.
#[derive(Debug)]
pub struct Part {
    /// The listing of the directory, or the message that it cannot be listed.
    pub text: String,
    /// The directory could be listed.
    pub listed: bool,
}

/// The output up to part `n`: every part but the last is followed by a line
/// feed, and by one more where the part is a listing.
pub open spec fn parts_text(parts: Seq<Part>, n: nat) -> Seq<char>
    decreases n,
{
    if n == 0 {
        Seq::empty()
    } else {
        let part = parts[n - 1];
        let text = parts_text(parts, (n - 1) as nat) + part.text@;
        let text = if part.listed && n != parts.len() {
            text.push('\n')
        } else {
            text
        };
        if parts.len() > 1 && n != parts.len() {
            text.push('\n')
        } else {
            text
        }
    }
}

/// The whole output of a listing: the listing of the files that were named,
/// where there are any, an empty line where directories follow, and the
/// parts for the directories.
pub open spec fn output_text(files: Option<Seq<char>>, parts: Seq<Part>) -> Seq<char> {
    let start = match files {
        Some(text) => if parts.len() > 0 {
            text.push('\n').push('\n')
        } else {
            text
        },
        None => Seq::<char>::empty(),
    };
    start + parts_text(parts, parts.len())
}

/// Puts the output of a listing together.
pub fn join_parts(files: Option<String>, parts: &Vec<Part>) -> (output: String)
    ensures
        output@ == output_text(
            match files {
                Some(text) => Some(text@),
                None => None,
            },
            parts@,
        ),
{
    let mut output = match files {
        Some(text) => {
            let mut start = text;
            if parts.len() > 0 {
                start.push('\n');
                start.push('\n');
            }
            start
        },
        None => String::new(),
    };
    let ghost start = output@;
    let mut n: usize = 0;
    while n < parts.len()
        invariant
            n <= parts.len(),
            output@ == start + parts_text(parts@, n as nat),
        decreases parts.len() - n,
    {
        output.append(parts[n].text.as_str());
        if parts[n].listed && n + 1 != parts.len() {
            output.push('\n');
        }
        if parts.len() > 1 && n + 1 != parts.len() {
            output.push('\n');
        }
        n += 1;
    }
    output
}

} // verus!
