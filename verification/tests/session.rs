use shell::dispatch::dispatch;
use shell::dispatch::find_builtin;
use shell::dispatch::not_found_message;
use shell::dispatch::Builtin;
use shell::dispatch::Dispatch;
use shell::numbers::parse_i32;
use shell::session::Action;
use shell::session::Session;
use shell::text::is_blank_text;

fn session() -> Session {
    Session::new("/home/u/work".to_string(), "/home/u".to_string())
}

fn strings(items: &[&str]) -> Vec<String> {
    items.iter().map(|s| s.to_string()).collect()
}

#[test]
fn new_session_starts_clean() {
    let s = session();
    assert_eq!(s.current_directory, "/home/u/work");
    assert_eq!(s.previous_directory, "/home/u/work");
    assert_eq!(s.home_directory, "/home/u");
    assert!(s.history.is_empty());
    assert_eq!(s.last_status, 0);
    assert_eq!(s.buffer, "");
    assert!(!s.continuing);
}

#[test]
fn builtin_is_handed_out_and_recorded_on_completion() {
    let mut s = session();
    match s.feed_line("ls -l /tmp\n") {
        Action::Run(pending, args) => {
            assert_eq!(pending.builtin(), Builtin::Ls);
            assert_eq!(pending.entry(), "ls -l /tmp\n");
            assert_eq!(args, strings(&["-l", "/tmp"]));
            assert!(s.history.is_empty());
            s.complete(pending, 3);
        }
        other => panic!("unexpected action {:?}", other),
    }
    assert_eq!(s.last_status, 3);
    assert_eq!(s.history, strings(&["ls -l /tmp\n"]));
    assert!(!s.continuing);
    assert_eq!(s.buffer, "");
}

#[test]
fn unknown_command_gives_127_and_keeps_directories() {
    let mut s = session();
    match s.feed_line("frobnicate now\n") {
        Action::NotFound(name) => assert_eq!(name, "frobnicate"),
        other => panic!("unexpected action {:?}", other),
    }
    assert_eq!(s.last_status, 127);
    assert_eq!(s.current_directory, "/home/u/work");
    assert_eq!(s.previous_directory, "/home/u/work");
    assert_eq!(s.home_directory, "/home/u");
    assert_eq!(s.history, strings(&["frobnicate now\n"]));
}

#[test]
fn history_keeps_raw_entries_in_order() {
    let mut s = session();
    assert!(matches!(s.feed_line("nope\n"), Action::NotFound(_)));
    match s.feed_line("echo  \"a b\"\n") {
        Action::Run(pending, args) => {
            assert_eq!(args, strings(&["a b"]));
            s.complete(pending, 0);
        }
        other => panic!("unexpected action {:?}", other),
    }
    assert!(matches!(s.feed_line("clear\n"), Action::Clear));
    assert_eq!(s.history, strings(&["nope\n", "echo  \"a b\"\n", "clear\n"]));
    assert_eq!(s.last_status, 0);
}

#[test]
fn blank_entry_is_skipped_and_not_recorded() {
    let mut s = session();
    assert!(matches!(s.feed_line("\n"), Action::Skip));
    assert!(matches!(s.feed_line("   \t\n"), Action::Skip));
    assert!(s.history.is_empty());
    assert_eq!(s.last_status, 0);
}

#[test]
fn unterminated_entry_asks_for_more_and_is_tokenized_whole() {
    let mut s = session();
    assert!(matches!(s.feed_line("echo \"abc\n"), Action::ReadMore));
    assert!(s.continuing);
    assert_eq!(s.buffer, "echo \"abc\n");
    assert!(matches!(s.feed_line("still open\n"), Action::ReadMore));
    match s.feed_line("def\"\n") {
        Action::Run(pending, args) => {
            assert_eq!(pending.builtin(), Builtin::Echo);
            assert_eq!(args, strings(&["abc\nstill open\ndef"]));
            assert_eq!(pending.entry(), "echo \"abc\nstill open\ndef\"\n");
            s.complete(pending, 0);
        }
        other => panic!("unexpected action {:?}", other),
    }
    assert_eq!(s.history, strings(&["echo \"abc\nstill open\ndef\"\n"]));
}

#[test]
fn backslash_continuation_splices_lines() {
    let mut s = session();
    assert!(matches!(s.feed_line("echo foo\\\n"), Action::ReadMore));
    match s.feed_line("bar\n") {
        Action::Run(pending, args) => {
            assert_eq!(args, strings(&["foobar"]));
            s.complete(pending, 0);
        }
        other => panic!("unexpected action {:?}", other),
    }
}

#[test]
fn end_of_stream_inside_an_entry_is_a_syntax_error() {
    let mut s = session();
    assert!(matches!(s.feed_line("echo 'abc\n"), Action::ReadMore));
    assert!(matches!(s.end_of_stream(), Action::SyntaxError));
    assert!(!s.continuing);
    assert_eq!(s.buffer, "");
    assert!(s.history.is_empty());
    assert_eq!(s.last_status, 0);
    match s.feed_line("pwd\n") {
        Action::Run(pending, args) => {
            assert_eq!(pending.builtin(), Builtin::Pwd);
            assert_eq!(pending.entry(), "pwd\n");
            assert!(args.is_empty());
        }
        other => panic!("unexpected action {:?}", other),
    }
}

#[test]
fn end_of_stream_between_entries_leaves_with_last_status() {
    let mut s = session();
    assert!(matches!(s.end_of_stream(), Action::Exit(0)));
    assert!(matches!(s.feed_line("nope\n"), Action::NotFound(_)));
    assert!(matches!(s.end_of_stream(), Action::Exit(127)));
}

#[test]
fn exit_without_argument_uses_last_status() {
    let mut s = session();
    assert!(matches!(s.feed_line("exit\n"), Action::Exit(0)));
    assert!(matches!(s.feed_line("nope\n"), Action::NotFound(_)));
    assert!(matches!(s.feed_line("exit\n"), Action::Exit(127)));
    assert_eq!(s.history, strings(&["nope\n"]));
}

#[test]
fn exit_with_number_uses_it() {
    let mut s = session();
    assert!(matches!(s.feed_line("exit 42\n"), Action::Exit(42)));
    assert!(matches!(s.feed_line("exit -1 junk\n"), Action::Exit(-1)));
}

#[test]
fn exit_with_illegal_number_gives_status_2() {
    let mut s = session();
    assert!(matches!(s.feed_line("exit abc\n"), Action::IllegalNumber));
    assert_eq!(s.last_status, 2);
    assert_eq!(s.history, strings(&["exit abc\n"]));
    assert!(matches!(s.feed_line("exit 99999999999\n"), Action::IllegalNumber));
}

#[test]
fn entering_a_directory_remembers_the_one_left() {
    let mut s = session();
    s.enter_directory("/tmp".to_string());
    assert_eq!(s.current_directory, "/tmp");
    assert_eq!(s.previous_directory, "/home/u/work");
    s.enter_directory("/home/u/work".to_string());
    assert_eq!(s.current_directory, "/home/u/work");
    assert_eq!(s.previous_directory, "/tmp");
    assert_eq!(s.home_directory, "/home/u");
}

#[test]
fn table_holds_the_ten_builtins() {
    let names = ["echo", "pwd", "cd", "mv", "cp", "ls", "cat", "rm", "mkdir", "history"];
    let builtins = [
        Builtin::Echo,
        Builtin::Pwd,
        Builtin::Cd,
        Builtin::Mv,
        Builtin::Cp,
        Builtin::Ls,
        Builtin::Cat,
        Builtin::Rm,
        Builtin::Mkdir,
        Builtin::History,
    ];
    for i in 0..names.len() {
        assert_eq!(find_builtin(names[i]), Some(builtins[i]));
        assert_eq!(dispatch(names[i], &Vec::new(), 5), Dispatch::Run(builtins[i]));
    }
    assert_eq!(find_builtin("exit"), None);
    assert_eq!(find_builtin("Echo"), None);
    assert_eq!(find_builtin(""), None);
    assert_eq!(find_builtin("lss"), None);
}

#[test]
fn dispatch_of_pseudo_commands() {
    assert_eq!(dispatch("exit", &Vec::new(), 7), Dispatch::Exit(7));
    assert_eq!(dispatch("exit", &strings(&["3"]), 7), Dispatch::Exit(3));
    assert_eq!(dispatch("exit", &strings(&["x", "3"]), 7), Dispatch::IllegalNumber);
    assert_eq!(dispatch("clear", &strings(&["x"]), 7), Dispatch::Clear);
    assert_eq!(dispatch("sudo", &Vec::new(), 7), Dispatch::NotFound);
}

#[test]
fn not_found_message_names_the_command() {
    assert_eq!(not_found_message("foo"), "Command <foo\x1b[31m> not found");
}

#[test]
fn parse_i32_agrees_with_the_standard_library() {
    let samples = [
        "", "0", "7", "42", "-1", "+5", "-0", "+0", "007", "-007", "2147483647", "2147483648",
        "-2147483648", "-2147483649", "99999999999999999999999", "-99999999999999999999999",
        "0000000000000000000000000012", "+", "-", "+-1", "--1", "1 ", " 1", "1_000", "12a", "a12",
        "1.5", "0x10", "١٢", "１２",
    ];
    for s in samples {
        assert_eq!(parse_i32(s), s.parse::<i32>().ok(), "input {:?}", s);
    }
}

#[test]
fn parse_i32_exact_values() {
    assert_eq!(parse_i32("2147483647"), Some(i32::MAX));
    assert_eq!(parse_i32("-2147483648"), Some(i32::MIN));
    assert_eq!(parse_i32("2147483648"), None);
    assert_eq!(parse_i32("-12"), Some(-12));
}

#[test]
fn blank_text_is_whitespace_only() {
    assert!(is_blank_text(""));
    assert!(is_blank_text(" \t\r\n"));
    assert!(is_blank_text("\u{a0}\u{3000}"));
    assert!(!is_blank_text("  x "));
    assert!(!is_blank_text("\\"));
}

#[test]
fn follow_up_text_closes_an_open_quote() {
    let mut s = session();
    assert!(matches!(s.feed_line("\"abc"), Action::ReadMore));
    assert_eq!(s.buffer, "\"abc");
    match s.feed_line("def\"") {
        Action::NotFound(name) => assert_eq!(name, "abcdef"),
        other => panic!("unexpected action {:?}", other),
    }
    assert_eq!(s.history, strings(&["\"abcdef\""]));
    assert_eq!(s.last_status, 127);
}

#[test]
fn entry_that_is_settled_at_once_is_recorded_once() {
    let mut s = session();
    assert!(matches!(s.feed_line("clear\n"), Action::Clear));
    assert!(matches!(s.feed_line("\n"), Action::Skip));
    assert!(matches!(s.feed_line("exit\n"), Action::Exit(0)));
    assert!(matches!(s.end_of_stream(), Action::Exit(0)));
    assert_eq!(s.history, strings(&["clear\n"]));
}
