use shell::files::any_step_down;
use shell::files::cd_target;
use shell::files::parse_remove_arguments;
use shell::files::path_steps;
use shell::files::removal;
use shell::files::transfer_check;
use shell::files::CdTarget;
use shell::files::PathStep;
use shell::files::Removal;
use shell::files::TransferCheck;
use shell::listing::arrange;
use shell::listing::classify;
use shell::listing::colour;
use shell::listing::device_widths;
use shell::listing::first_char;
use shell::listing::grid;
use shell::listing::heading;
use shell::listing::is_hidden;
use shell::listing::link_name;
use shell::listing::list_operands;
use shell::listing::long_line;
use shell::listing::owner_name;
use shell::listing::parse_list_options;
use shell::listing::quote_name;
use shell::listing::quoting;
use shell::listing::short_cell;
use shell::listing::size_field;
use shell::listing::time_pattern;
use shell::listing::total_line;
use shell::listing::type_char;
use shell::listing::FileKind;
use shell::listing::Grid;
use shell::listing::LinkTarget;
use shell::listing::ListOptions;
use shell::listing::LongEntry;
use shell::listing::Quoting;
use shell::listing::Widths;
use shell::permissions::format_permissions;
use shell::permissions::is_executable;
use shell::render::decimal;
use shell::render::history_listing;
use shell::render::push_left_aligned;
use shell::render::push_right_aligned;
use shell::render::push_spaces;
use shell::render::width_of;
use shell::sorting::key_not_behind;
use shell::sorting::key_of;
use shell::sorting::order_names;
use shell::text::chars_of;

fn strings(items: &[&str]) -> Vec<String> {
    items.iter().map(|s| s.to_string()).collect()
}

#[test]
fn chars_of_gives_every_character() {
    assert_eq!(chars_of(""), Vec::<char>::new());
    assert_eq!(chars_of("aé越\n"), vec!['a', 'é', '越', '\n']);
}

#[test]
fn decimal_writes_numbers() {
    assert_eq!(decimal(0), "0");
    assert_eq!(decimal(7), "7");
    assert_eq!(decimal(10), "10");
    assert_eq!(decimal(1234567890), "1234567890");
    assert_eq!(decimal(u64::MAX), u64::MAX.to_string());
}

#[test]
fn alignment_fills_with_spaces() {
    let mut t = "[".to_string();
    push_right_aligned(&mut t, "ab", 5);
    assert_eq!(t, "[   ab");
    push_left_aligned(&mut t, "cd", 4);
    assert_eq!(t, "[   abcd  ");
    push_right_aligned(&mut t, "toolong", 3);
    push_left_aligned(&mut t, "é", 3);
    assert_eq!(t, "[   abcd  toolongé  ");
    push_spaces(&mut t, 0);
    push_spaces(&mut t, 2);
    assert_eq!(t, "[   abcd  toolongé    ");
    assert_eq!(width_of("é越a"), 3);
}

#[test]
fn history_listing_numbers_entries() {
    assert_eq!(history_listing(&Vec::new()), "");
    assert_eq!(history_listing(&strings(&["ls\n", "pwd\n"])), "1  ls\n2  pwd\n");
    let many: Vec<String> = (0..12).map(|i| format!("cmd{}\n", i)).collect();
    let expected: String =
        many.iter().enumerate().map(|(i, c)| format!("{:>2}  {}", i + 1, c)).collect();
    assert_eq!(history_listing(&many), expected);
    assert!(expected.starts_with(" 1  cmd0\n"));
}

#[test]
fn permissions_of_common_modes() {
    assert_eq!(format_permissions(0o755, false), "rwxr-xr-x");
    assert_eq!(format_permissions(0o644, false), "rw-r--r--");
    assert_eq!(format_permissions(0o000, false), "---------");
    assert_eq!(format_permissions(0o777, true), "rwxrwxrwx+");
    assert_eq!(format_permissions(0o100644, false), "rw-r--r--");
}

#[test]
fn permissions_with_special_bits() {
    assert_eq!(format_permissions(0o4755, false), "rwsr-xr-x");
    assert_eq!(format_permissions(0o4655, false), "rwSr-xr-x");
    assert_eq!(format_permissions(0o2755, false), "rwxr-sr-x");
    assert_eq!(format_permissions(0o2745, false), "rwxr-Sr-x");
    assert_eq!(format_permissions(0o1777, false), "rwxrwxrwt");
    assert_eq!(format_permissions(0o1776, true), "rwxrwxrwT+");
}

#[test]
fn executable_by_anybody() {
    assert!(is_executable(0o100));
    assert!(is_executable(0o010));
    assert!(is_executable(0o001));
    assert!(is_executable(0o755));
    assert!(!is_executable(0o644));
    assert!(!is_executable(0o4000));
}

#[test]
fn list_options_are_read_from_every_option() {
    let none = ListOptions { all: false, classify: false, long: false };
    assert_eq!(parse_list_options(&Vec::new()), Some(none));
    assert_eq!(parse_list_options(&strings(&["dir", "-"])), Some(none));
    assert_eq!(
        parse_list_options(&strings(&["-l", "dir", "-aF"])),
        Some(ListOptions { all: true, classify: true, long: true })
    );
    assert_eq!(
        parse_list_options(&strings(&["-la"])),
        Some(ListOptions { all: true, classify: false, long: true })
    );
    assert_eq!(
        parse_list_options(&strings(&["a-F", "-F"])),
        Some(ListOptions { all: false, classify: true, long: false })
    );
}

#[test]
fn unknown_list_option_is_refused() {
    assert_eq!(parse_list_options(&strings(&["-lx"])), None);
    assert_eq!(parse_list_options(&strings(&["-l", "--all"])), None);
    assert_eq!(parse_list_options(&strings(&["dir", "-L"])), None);
}

#[test]
fn list_operands_are_the_other_arguments() {
    assert_eq!(list_operands(&strings(&["-l", "b", "-a", "a", "", "-"])), strings(&["b", "a", ""]));
    assert_eq!(list_operands(&Vec::new()), Vec::<String>::new());
}

#[test]
fn first_character_and_hidden_names() {
    assert_eq!(first_char(""), None);
    assert_eq!(first_char("éa"), Some('é'));
    assert!(is_hidden(".git"));
    assert!(is_hidden("."));
    assert!(!is_hidden("a.b"));
    assert!(!is_hidden(""));
}

#[test]
fn names_are_quoted_by_their_first_special_character() {
    assert_eq!(quoting("plain.txt"), Quoting::Bare);
    assert_eq!(quoting("a b"), Quoting::Single);
    assert_eq!(quoting("it's"), Quoting::Double);
    assert_eq!(quoting("it's a"), Quoting::Double);
    assert_eq!(quoting("a b's"), Quoting::Single);
    assert_eq!(quote_name("plain.txt"), "plain.txt");
    assert_eq!(quote_name("a b"), "'a b'");
    assert_eq!(quote_name("it's"), "\"it's\"");
    assert_eq!(quote_name(""), "");
    for c in "*?[]$!\"\\;&|<> ()`~#=".chars() {
        let name = format!("x{}y", c);
        assert_eq!(quote_name(&name), format!("'{}'", name));
    }
}

#[test]
fn kinds_have_their_marks_and_letters() {
    assert_eq!(classify(FileKind::Directory, false, true), Some('/'));
    assert_eq!(classify(FileKind::Symlink, true, false), Some('@'));
    assert_eq!(classify(FileKind::Symlink, true, true), None);
    assert_eq!(classify(FileKind::Regular, true, false), Some('*'));
    assert_eq!(classify(FileKind::Regular, false, false), None);
    assert_eq!(classify(FileKind::Fifo, false, false), Some('|'));
    assert_eq!(classify(FileKind::Socket, false, false), Some('='));
    assert_eq!(classify(FileKind::CharDevice, true, false), None);
    let kinds = [
        (FileKind::Directory, 'd'),
        (FileKind::Symlink, 'l'),
        (FileKind::Socket, 's'),
        (FileKind::Fifo, 'p'),
        (FileKind::CharDevice, 'c'),
        (FileKind::BlockDevice, 'b'),
        (FileKind::Regular, '-'),
        (FileKind::Other, '?'),
    ];
    for (kind, letter) in kinds {
        assert_eq!(type_char(kind), letter);
    }
}

#[test]
fn grid_puts_everything_in_one_row_where_it_fits() {
    assert_eq!(grid(3, 4, 80), Grid { columns: 3, rows: 1 });
    assert_eq!(grid(0, 0, 80), Grid { columns: 0, rows: 1 });
    assert_eq!(grid(10, 6, 78), Grid { columns: 10, rows: 1 });
}

#[test]
fn grid_uses_as_many_columns_as_fit() {
    assert_eq!(grid(10, 6, 77), Grid { columns: 9, rows: 2 });
    assert_eq!(grid(10, 8, 25), Grid { columns: 2, rows: 5 });
    assert_eq!(grid(7, 8, 30), Grid { columns: 3, rows: 3 });
    assert_eq!(grid(5, 100, 20), Grid { columns: 1, rows: 5 });
    assert_eq!(grid(2, usize::MAX, usize::MAX), Grid { columns: 1, rows: 2 });
}

#[test]
fn every_cell_lies_in_the_grid() {
    for count in 0..40usize {
        for widest in [0usize, 1, 5, 20] {
            for terminal in [0usize, 1, 10, 40, 80] {
                let g = grid(count, widest, terminal);
                assert!(g.rows > 0);
                for i in 0..count {
                    assert!(i % g.rows < g.rows);
                    assert!(i / g.rows < g.columns);
                }
            }
        }
    }
}

#[test]
fn cells_are_arranged_column_by_column() {
    let cells = strings(&["a ", "b ", "c ", "d ", "e ", "f ", "g "]);
    assert_eq!(arrange(&cells, 3), "a d g \nb e \nc f ");
    assert_eq!(arrange(&cells, 1), "a b c d e f g ");
    assert_eq!(arrange(&cells, 7), "a \nb \nc \nd \ne \nf \ng ");
    assert_eq!(arrange(&cells, 9), "a \nb \nc \nd \ne \nf \ng ");
    assert_eq!(arrange(&cells, 0), "");
    assert_eq!(arrange(&Vec::new(), 1), "");
    assert_eq!(arrange(&cells, 4), "a e \nb f \nc g \nd ");
}

#[test]
fn device_numbers_come_from_libc() {
    let devices = [0u64, 0x0801, 0x8800, 0xfd00, 0x1234_5678_9abc_def0, u64::MAX];
    for device in devices {
        let major = libc::major(device).to_string();
        let minor = libc::minor(device).to_string();
        assert_eq!(device_widths(device), (major.len(), minor.len()));
        assert_eq!(
            size_field(FileKind::CharDevice, 99, device, 5, 4),
            format!("{:>5}, {:>4}", major, minor)
        );
    }
    assert_eq!(size_field(FileKind::BlockDevice, 99, 0x0801, 3, 3), "  8,   1");
    assert_eq!(size_field(FileKind::CharDevice, 99, 0x8800, 0, 0), "136, 0");
}

#[test]
fn device_numbers_are_taken_from_the_bits_of_the_device() {
    let devices = [0u64, 0x0801, 0x8800, 0xfd00, 0x1234_5678_9abc_def0, 0xffff_f000_0000_0000, u64::MAX];
    for device in devices {
        let major = ((device & 0x0000_0000_000f_ff00) >> 8) | ((device & 0xffff_f000_0000_0000) >> 32);
        let minor = (device & 0x0000_0000_0000_00ff) | ((device & 0x0000_0fff_fff0_0000) >> 12);
        assert_eq!(
            size_field(FileKind::BlockDevice, 0, device, 0, 0),
            format!("{}, {}", major, minor)
        );
    }
    assert_eq!(device_widths(u64::MAX), (10, 10));
    assert_eq!(size_field(FileKind::CharDevice, 0, u64::MAX, 0, 0), "4294967295, 4294967295");
}

#[test]
fn size_of_other_entries_is_their_length() {
    assert_eq!(size_field(FileKind::Regular, 4096, 0x0801, 3, 3), "4096");
    assert_eq!(size_field(FileKind::Directory, 0, 0, 3, 3), "0");
}

#[test]
fn colours_by_kind() {
    assert_eq!(colour(FileKind::Directory, true), "\x1b[1;34m");
    assert_eq!(colour(FileKind::Symlink, true), "\x1b[1;36m");
    assert_eq!(colour(FileKind::Regular, true), "\x1b[1;32m");
    assert_eq!(colour(FileKind::Fifo, true), "\x1b[1;32m");
    assert_eq!(colour(FileKind::Regular, false), "\x1b[0m");
}

#[test]
fn short_cells() {
    assert_eq!(short_cell("a", FileKind::Regular, false, true, 9), "\x1b[0ma \x1b[0m");
    assert_eq!(short_cell("a", FileKind::Directory, false, false, 4), "\x1b[1;34ma   \x1b[0m");
    assert_eq!(short_cell("abcdef", FileKind::Regular, true, false, 4), "\x1b[1;32mabcdef\x1b[0m");
}

fn entry(kind: FileKind, extended: bool, executable: bool, name: &str) -> LongEntry {
    LongEntry {
        kind,
        mode: 0o755,
        extended,
        executable,
        links: "2".to_string(),
        user: "root".to_string(),
        group: "wheel".to_string(),
        size: "4096".to_string(),
        time: "Mar 10 15:04".to_string(),
        name: name.to_string(),
    }
}

#[test]
fn long_lines() {
    let widths = Widths { links: 3, user: 6, group: 5, size: 6, time: 12 };
    assert_eq!(
        long_line(&entry(FileKind::Directory, false, true, "src"), widths, false),
        "drwxr-xr-x   2 root   wheel   4096 Mar 10 15:04 \x1b[1;34msrc\x1b[0m\n"
    );
    assert_eq!(
        long_line(&entry(FileKind::Regular, true, true, "run"), widths, true),
        "-rwxr-xr-x+  2 root   wheel   4096 Mar 10 15:04 \x1b[1;32mrun\x1b[0m"
    );
    let narrow = Widths { links: 0, user: 0, group: 0, size: 0, time: 0 };
    assert_eq!(
        long_line(&entry(FileKind::Fifo, true, false, "p"), narrow, true),
        "prwxr-xr-x+ 2 root wheel 4096 Mar 10 15:04 \x1b[0mp\x1b[0m"
    );
}

#[test]
fn link_names() {
    assert_eq!(
        link_name("l", "t", LinkTarget::Broken, true),
        "\x1b[1;31ml\x1b[0m -> \x1b[1;31mt\x1b[0m"
    );
    assert_eq!(link_name("l", "t", LinkTarget::Directory, true), "l\x1b[0m -> \x1b[1;34mt/\x1b[0m");
    assert_eq!(link_name("l", "t", LinkTarget::Directory, false), "l\x1b[0m -> \x1b[1;34mt\x1b[0m");
    assert_eq!(link_name("l", "t", LinkTarget::Program, true), "l\x1b[0m -> \x1b[1;32mt*\x1b[0m");
    assert_eq!(link_name("l", "t", LinkTarget::Plain, true), "l\x1b[0m -> \x1b[0mt\x1b[0m");
}

#[test]
fn owner_is_name_or_number() {
    assert_eq!(owner_name(Some("alice".to_string()), 1000), "alice");
    assert_eq!(owner_name(None, 1000), "1000");
    assert_eq!(owner_name(None, 0), "0");
}

#[test]
fn time_pattern_depends_on_the_year() {
    assert_eq!(time_pattern(2024, 2024), "%b %e %H:%M");
    assert_eq!(time_pattern(2023, 2024), "%b %e  %Y");
}

#[test]
fn headings_and_totals() {
    assert_eq!(heading("src", true), "src:\n");
    assert_eq!(heading("src", false), "");
    assert_eq!(total_line(0), "total 0\n");
    assert_eq!(total_line(128), "total 128\n");
}

#[test]
fn sort_keys_keep_letters_and_digits_in_lower_case() {
    assert_eq!(key_of(".Git-Hub_2"), chars_of("github2"));
    assert_eq!(key_of("'a b'/"), chars_of("ab"));
    assert_eq!(key_of("ÉCOLE"), chars_of("École"));
    assert_eq!(key_of("---"), Vec::<char>::new());
}

#[test]
fn keys_are_compared_as_strings() {
    let samples = ["", "a", "ab", "b", "abc", "abd", "é", "z", "10", "9", "a1", "越"];
    for a in samples {
        for b in samples {
            assert_eq!(key_not_behind(&chars_of(a), &chars_of(b)), a <= b, "{:?} {:?}", a, b);
        }
    }
}

fn std_order(names: &[String]) -> Vec<usize> {
    let mut order: Vec<usize> = (0..names.len()).collect();
    order.sort_by(|a, b| {
        let ka = names[*a].chars().filter(|c| c.is_alphanumeric()).collect::<String>();
        let kb = names[*b].chars().filter(|c| c.is_alphanumeric()).collect::<String>();
        ka.to_ascii_lowercase().cmp(&kb.to_ascii_lowercase())
    });
    order
}

#[test]
fn names_are_ordered_as_a_stable_sort_orders_them() {
    let lists = [
        strings(&[]),
        strings(&["b", "a"]),
        strings(&["b", "A", ".a", "a", "_B", "c", "C.", "10", "9", "a-1"]),
        strings(&["Makefile", "src", ".git", "README.md", "Cargo.toml", "cargo.lock", "'a b'"]),
        strings(&["z", "y", "x", "w", "v", "u"]),
        strings(&["same", "SAME", "s.a.m.e", "Same"]),
        strings(&["é", "e", "f", "É", "越", "a"]),
    ];
    for names in lists {
        assert_eq!(order_names(&names), std_order(&names), "{:?}", names);
    }
    assert_eq!(order_names(&strings(&["b", "A", ".a", "c"])), vec![1, 2, 0, 3]);
}

#[test]
fn cd_goes_home_without_argument() {
    assert_eq!(cd_target(&Vec::new(), "/home/u"), CdTarget::Path("/home/u".to_string()));
    assert_eq!(cd_target(&Vec::new(), ""), CdTarget::Stay);
}

#[test]
fn cd_targets() {
    assert_eq!(cd_target(&strings(&["-"]), "/home/u"), CdTarget::Previous);
    assert_eq!(cd_target(&strings(&["-", "x"]), "/home/u"), CdTarget::Previous);
    assert_eq!(cd_target(&strings(&[""]), "/home/u"), CdTarget::Stay);
    assert_eq!(cd_target(&strings(&["/tmp", "x"]), "/home/u"), CdTarget::Path("/tmp".to_string()));
    assert_eq!(cd_target(&strings(&["~"]), "/home/u"), CdTarget::Path("/home/u".to_string()));
    assert_eq!(cd_target(&strings(&["~/a/b"]), "/home/u"), CdTarget::Path("/home/u/a/b".to_string()));
    assert_eq!(cd_target(&strings(&["a~"]), "/home/u"), CdTarget::Path("a~".to_string()));
    assert_eq!(cd_target(&strings(&["--"]), "/home/u"), CdTarget::Path("--".to_string()));
    assert_eq!(cd_target(&strings(&["écart"]), "/home/u"), CdTarget::Path("écart".to_string()));
}

#[test]
fn remove_arguments() {
    let r = parse_remove_arguments(&strings(&["a", "-r", "b", "-r", "-R", "-rf"]));
    assert!(r.recursive);
    assert_eq!(r.paths, strings(&["a", "b", "-R", "-rf"]));
    let r = parse_remove_arguments(&strings(&["a"]));
    assert!(!r.recursive);
    assert_eq!(r.paths, strings(&["a"]));
    let r = parse_remove_arguments(&strings(&["-r"]));
    assert!(r.recursive);
    assert!(r.paths.is_empty());
    let r = parse_remove_arguments(&Vec::new());
    assert!(!r.recursive);
    assert!(r.paths.is_empty());
}

fn std_steps(path: &str) -> Vec<PathStep> {
    path.split('/')
        .map(|part| match part {
            "." => PathStep::Stay,
            ".." => PathStep::Up,
            other => PathStep::Down(other.to_string()),
        })
        .collect()
}

#[test]
fn path_steps_follow_the_parts_of_the_path() {
    for path in ["", ".", "..", "a", "a/b", "./a/../b", "/", "//", "a/", "/a", "../..", "...", "a//b", "é/."] {
        assert_eq!(path_steps(path), std_steps(path), "{:?}", path);
    }
    assert_eq!(
        path_steps("./a/.."),
        vec![PathStep::Stay, PathStep::Down("a".to_string()), PathStep::Up]
    );
}

#[test]
fn dots_alone_name_nothing() {
    assert!(!any_step_down(&path_steps(".")));
    assert!(!any_step_down(&path_steps("..")));
    assert!(!any_step_down(&path_steps("./../.")));
    assert!(any_step_down(&path_steps("./a")));
    assert!(any_step_down(&path_steps("")));
    assert!(any_step_down(&path_steps("../")));
    assert!(!any_step_down(&Vec::new()));
}

#[test]
fn removal_decisions() {
    assert_eq!(removal(true, true), Removal::Tree);
    assert_eq!(removal(true, false), Removal::RefuseDirectory);
    assert_eq!(removal(false, true), Removal::File);
    assert_eq!(removal(false, false), Removal::File);
}

#[test]
fn transfer_checks() {
    assert_eq!(transfer_check(0, true), TransferCheck::MissingOperand);
    assert_eq!(transfer_check(1, true), TransferCheck::MissingDestination);
    assert_eq!(transfer_check(2, false), TransferCheck::Proceed);
    assert_eq!(transfer_check(3, false), TransferCheck::NotADirectory);
    assert_eq!(transfer_check(3, true), TransferCheck::Proceed);
}
