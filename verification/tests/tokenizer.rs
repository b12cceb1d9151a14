use shell::Command;
use shell::tokenizer::QuoteState;
use shell::tokenizer::Scanner;
use shell::CostumSplit;

fn split(text: &str) -> (Command, bool) {
    text.to_string().custom_split()
}

fn command(name: &str, args: &[&str]) -> Command {
    Command { name: name.to_string(), args: args.iter().map(|a| a.to_string()).collect() }
}

#[test]
fn plain_words_split_on_whitespace() {
    assert_eq!(split("ls -l  /tmp"), (command("ls", &["-l", "/tmp"]), false));
    assert_eq!(split("  echo\ta b  "), (command("echo", &["a", "b"]), false));
    assert_eq!(split("ls\n"), (command("ls", &[]), false));
}

#[test]
fn empty_and_blank_input_give_an_empty_command() {
    assert_eq!(split(""), (command("", &[]), false));
    assert_eq!(split("   \t "), (command("", &[]), false));
    assert_eq!(split("\n"), (command("", &[]), false));
}

#[test]
fn double_quoted_word_alone() {
    assert_eq!(split("\"abc\""), (command("abc", &[]), false));
}

#[test]
fn open_double_quote_is_unterminated_until_closed() {
    assert_eq!(split("\"abc"), (command("abc", &[]), true));
    assert_eq!(split("\"abcdef\""), (command("abcdef", &[]), false));
}

#[test]
fn open_quote_keeps_the_line_feed_of_a_following_line() {
    assert_eq!(split("\"abc\n"), (command("abc\n", &[]), true));
    assert_eq!(split("\"abc\ndef\"\n"), (command("abc\ndef", &[]), false));
    assert_eq!(split("echo 'a\nb'"), (command("echo", &["a\nb"]), false));
}

#[test]
fn quoted_whitespace_stays_in_one_argument() {
    assert_eq!(split("echo \"a b\""), (command("echo", &["a b"]), false));
    assert_eq!(split("echo 'a  b' c"), (command("echo", &["a  b", "c"]), false));
}

#[test]
fn escaped_whitespace_joins_words() {
    assert_eq!(split("echo a\\ b"), (command("echo", &["a b"]), false));
}

#[test]
fn backslash_before_a_line_feed_splices_lines() {
    assert_eq!(split("echo foo\\\n"), (command("echo", &["foo"]), true));
    assert_eq!(split("echo foo\\\nbar\n"), (command("echo", &["foobar"]), false));
}

#[test]
fn trailing_backslash_is_unterminated() {
    assert_eq!(split("echo foo\\"), (command("echo", &["foo"]), true));
    assert_eq!(split("\\"), (command("", &[]), true));
}

#[test]
fn escape_pending_into_the_last_line_applies_to_its_first_character() {
    assert_eq!(split("a\\\n b"), (command("a b", &[]), false));
    assert_eq!(split("a\\\n b\n"), (command("a", &["b"]), false));
}

#[test]
fn reopened_single_quote_merges_into_one_word() {
    assert_eq!(split("'it''s'"), (command("its", &[]), false));
}

#[test]
fn quote_followed_by_text_continues_the_word() {
    assert_eq!(split("\"ab\"cd"), (command("abcd", &[]), false));
    assert_eq!(split("ab\"cd\"ef gh"), (command("abcdef", &["gh"]), false));
}

#[test]
fn empty_quotes_before_whitespace_give_an_empty_argument() {
    assert_eq!(split("echo \"\" x"), (command("echo", &["", "x"]), false));
    assert_eq!(split("echo '' x"), (command("echo", &["", "x"]), false));
    assert_eq!(split("echo \"\""), (command("echo", &[]), false));
    assert_eq!(split("\"\" x"), (command("x", &[]), false));
}

#[test]
fn double_quote_escapes() {
    assert_eq!(split("echo \"a\\\"b\""), (command("echo", &["a\"b"]), false));
    assert_eq!(split("echo \"a\\\\b\""), (command("echo", &["a\\b"]), false));
    assert_eq!(split("echo \"a\\$b\\`c\""), (command("echo", &["a$b`c"]), false));
    assert_eq!(split("echo \"a\\nb\""), (command("echo", &["a\\nb"]), false));
}

#[test]
fn single_quotes_take_backslashes_literally() {
    assert_eq!(split("echo 'a\\'"), (command("echo", &["a\\"]), false));
    assert_eq!(split("echo 'a\"b'"), (command("echo", &["a\"b"]), false));
}

#[test]
fn escaped_quote_outside_quotes_is_literal() {
    assert_eq!(split("echo \\\"a"), (command("echo", &["\"a"]), false));
    assert_eq!(split("echo \\\\"), (command("echo", &["\\"]), false));
}

#[test]
fn line_feed_outside_quotes_separates_nothing() {
    assert_eq!(split("echo a\nb"), (command("echo", &["ab"]), false));
    assert_eq!(split("echo a\n b"), (command("echo", &["a", "b"]), false));
}

#[test]
fn add_string_skips_empty_words() {
    let mut c = Command { name: String::new(), args: Vec::new() };
    c.add_string(&String::new());
    assert_eq!(c, command("", &[]));
    c.add_string(&"ls".to_string());
    c.add_string(&String::new());
    c.add_string(&"-l".to_string());
    assert_eq!(c, command("ls", &["-l"]));
}

#[test]
fn add_string_whatever_keeps_empty_words() {
    let mut c = Command { name: "echo".to_string(), args: Vec::new() };
    c.add_string_whatever(&String::new());
    c.add_string_whatever(&"x".to_string());
    assert_eq!(c, command("echo", &["", "x"]));
    let mut d = Command::new();
    d.add_string_whatever(&String::new());
    d.add_string_whatever(&"x".to_string());
    assert_eq!(d, command("x", &[]));
}

fn tokens(command: &Command) -> Vec<String> {
    if command.name.is_empty() {
        Vec::new()
    } else {
        let mut all = vec![command.name.clone()];
        all.extend(command.args.iter().cloned());
        all
    }
}

#[test]
fn appended_lines_keep_the_words_that_were_closed() {
    let buffers = ["", "echo a b\n", "echo \"a b\n", "echo a\\\n", "ls -l 'x' \n", "echo 'a' \"b\n"];
    let lines = ["c d\n", "c\" d\n", "' e\n", "\n", "x\\\n", "tail"];
    for buffer in buffers {
        let (before, _) = split(buffer);
        let mut closed = tokens(&before);
        closed.pop();
        for line in lines {
            let whole = format!("{}{}", buffer, line);
            let (after, _) = split(&whole);
            let all = tokens(&after);
            assert!(all.len() >= closed.len(), "{:?} {:?}", buffer, line);
            assert_eq!(&all[..closed.len()], &closed[..], "{:?} {:?}", buffer, line);
            assert_eq!(split(&whole), split(&whole));
        }
    }
}

#[test]
fn tokenizer_never_gives_arguments_without_a_name() {
    for text in ["", "\"\"", "'' ''", "\"\" \"\" x", "\\", "a", "'' a ''"] {
        let (command, _) = split(text);
        assert!(!command.name.is_empty() || command.args.is_empty(), "{:?}", text);
    }
    assert_eq!(split("'' a ''"), (command("a", &[]), false));
    assert_eq!(split("'' a '' b"), (command("a", &["", "b"]), false));
}

#[test]
fn scanner_takes_whitespace_as_it_is_told() {
    let mut scanner = Scanner::new();
    assert_eq!(scanner.state, QuoteState::Normal);
    scanner.feed('a', false);
    scanner.feed('_', true);
    scanner.feed('b', false);
    scanner.feed(' ', false);
    scanner.feed('c', false);
    assert_eq!(scanner.word, "b c");
    assert_eq!(scanner.command, command("a", &[]));
    assert_eq!(scanner.finish(), (command("a", &["b c"]), false));
}

#[test]
fn scanner_steps_through_quotes_and_line_breaks() {
    let mut scanner = Scanner::new();
    scanner.feed('"', false);
    assert_eq!(scanner.state, QuoteState::InDoubleQuote);
    scanner.feed('x', false);
    scanner.break_line(false);
    assert_eq!(scanner.word, "x\n");
    scanner.feed('\\', false);
    assert!(scanner.pending_escape);
    scanner.break_line(true);
    assert!(scanner.pending_escape);
    assert_eq!(scanner.word, "x\n");
    scanner.break_line(false);
    assert!(!scanner.pending_escape);
    scanner.feed('"', false);
    assert_eq!(scanner.state, QuoteState::Normal);
    assert!(scanner.after_quote);
    scanner.feed(' ', true);
    assert!(!scanner.after_quote);
    assert_eq!(scanner.command, command("x\n", &[]));
    scanner.feed('\'', false);
    assert_eq!(scanner.state, QuoteState::InSingleQuote);
    scanner.feed('\'', false);
    scanner.break_line(true);
    assert!(!scanner.after_quote);
    scanner.feed(' ', true);
    assert_eq!(scanner.finish(), (command("x\n", &[]), false));
}
