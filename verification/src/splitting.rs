//! Text without quotes and backslashes: tokenizing it is splitting it at
//! whitespace.

use vstd::prelude::*;
use crate::command::CommandView;
use crate::text::is_white_space;
use crate::tokenizer::scan;
use crate::tokenizer::tokenize;
use crate::tokenizer::QuoteState;

verus! {

/// `text` holds no quote character and no backslash.
pub open spec fn is_plain(text: Seq<char>) -> bool {
    forall|i: int|
        0 <= i < text.len() ==> text[i] != '"' && text[i] != '\'' && text[i] != '\\'
}

/// The words of `text`: its maximal runs of characters that are not
/// whitespace, from left to right. A character that is not whitespace
/// lengthens the last word where it follows such a character, and starts a
/// word where it does not.
pub open spec fn words(text: Seq<char>) -> Seq<Seq<char>>
    decreases text.len(),
{
    if text.len() == 0 {
        Seq::empty()
    } else {
        let front = text.drop_last();
        let c = text.last();
        if is_white_space(c) {
            words(front)
        } else if ends_in_word(front) {
            words(front).drop_last().push(words(front).last().push(c))
        } else {
            words(front).push(seq![c])
        }
    }
}

/// The last character of `text` belongs to a word.
pub open spec fn ends_in_word(text: Seq<char>) -> bool {
    text.len() > 0 && !is_white_space(text.last())
}

/// `text` without its line feeds.
pub open spec fn joined_lines(text: Seq<char>) -> Seq<char>
    decreases text.len(),
{
    if text.len() == 0 {
        Seq::empty()
    } else if text.last() == '\n' {
        joined_lines(text.drop_last())
    } else {
        joined_lines(text.drop_last()).push(text.last())
    }
}

/// The command made of `tokens`: the first is the name, the rest are the
/// arguments.
pub open spec fn command_of(tokens: Seq<Seq<char>>) -> CommandView {
    if tokens.len() == 0 {
        CommandView::empty()
    } else {
        CommandView { name: tokens[0], args: tokens.skip(1) }
    }
}

/// The characters of `text` from `from` up to `to` are line feeds.
pub open spec fn only_line_feeds(text: Seq<char>, from: int, to: int) -> bool {
    forall|k: int| from <= k < to ==> text[k] == '\n'
}

/// No run of line feeds stands between two characters that are both not
/// whitespace: wherever line feeds alone separate two characters, one of the
/// two is whitespace.
pub open spec fn no_line_feed_joins_words(text: Seq<char>) -> bool {
    forall|from: int, to: int|
        0 < from < to < text.len() && #[trigger] only_line_feeds(text, from, to)
            ==> is_white_space(text[from - 1]) || is_white_space(text[to])
}

/// A well-formed command is the command of its tokens.
pub proof fn lemma_command_of_tokens(command: CommandView)
    requires
        command.well_formed(),
    ensures
        command_of(command.tokens()) == command,
{
    if command.name.len() > 0 {
        assert(command.tokens().skip(1) =~= command.args);
    } else {
        assert(command.name =~= Seq::empty());
        assert(command.args =~= Seq::empty());
    }
}

/// While a plain text is scanned, the scanner stays outside quotes with no
/// escape pending, and the words closed so far together with the word under
/// construction are the words of the text read so far, line feeds left out.
proof fn lemma_plain_scan(text: Seq<char>, n: nat)
    requires
        is_plain(text),
        n <= text.len(),
    ensures
        ({
            let at = scan(text, n);
            let read = joined_lines(text.take(n as int));
            &&& at.state == QuoteState::Normal
            &&& !at.pending_escape
            &&& !at.after_quote
            &&& at.command.well_formed()
            &&& at.word.len() > 0 <==> ends_in_word(read)
            &&& words(read) == if at.word.len() > 0 {
                at.command.tokens().push(at.word)
            } else {
                at.command.tokens()
            }
        }),
    decreases n,
{
    if n == 0 {
        assert(text.take(0) =~= Seq::empty());
        assert(scan(text, 0).command.tokens() =~= Seq::empty());
    } else {
        lemma_plain_scan(text, (n - 1) as nat);
        let before = scan(text, (n - 1) as nat);
        let at = scan(text, n);
        let c = text[n - 1];
        let read_before = joined_lines(text.take(n - 1));
        let read = joined_lines(text.take(n as int));
        assert(text.take(n as int).drop_last() =~= text.take(n - 1));
        assert(text.take(n as int).last() == c);
        if c == '\n' {
            assert(at == before);
            assert(read == read_before);
        } else {
            assert(read == read_before.push(c));
            assert(read.drop_last() =~= read_before);
            assert(read.last() == c);
            let tokens = before.command.tokens();
            if is_white_space(c) {
                if before.word.len() > 0 {
                    if before.command.name.len() != 0 {
                        assert(at.command.tokens() =~= tokens.push(before.word));
                    } else {
                        assert(at.command.tokens() =~= tokens.push(before.word));
                    }
                }
            } else {
                assert(at.word == before.word.push(c));
                assert(at.command == before.command);
                if before.word.len() > 0 {
                    let all = tokens.push(before.word);
                    assert(all.drop_last() =~= tokens);
                    assert(all.last() == before.word);
                } else {
                    assert(at.word =~= seq![c]);
                }
            }
        }
    }
}

/// Plain text with its line feeds left out tokenizes to its words: the first
/// word is the name, the others are the arguments, and the text is
/// terminated. A line feed outside quotes separates nothing by itself.
pub proof fn lemma_plain_text_tokenizes_to_joined_words(text: Seq<char>)
    requires
        is_plain(text),
    ensures
        tokenize(text) == (command_of(words(joined_lines(text))), false),
{
    lemma_plain_scan(text, text.len());
    assert(text.take(text.len() as int) =~= text);
    let end = scan(text, text.len());
    let command = end.finished_command();
    if end.word.len() > 0 {
        assert(command.tokens() =~= end.command.tokens().push(end.word));
        assert(command.name.len() > 0);
    }
    lemma_command_of_tokens(command);
}

/// The start of the run of line feeds that ends before position `n`.
pub open spec fn run_start(text: Seq<char>, n: nat) -> nat
    decreases n,
{
    if n > 0 && text[n - 1] == '\n' {
        run_start(text, (n - 1) as nat)
    } else {
        n
    }
}

/// From `run_start` up to `n` there are line feeds only, the character before
/// them is none, and leaving out line feeds up to either place gives the same.
proof fn lemma_run_start(text: Seq<char>, n: nat)
    requires
        n <= text.len(),
    ensures
        run_start(text, n) <= n,
        only_line_feeds(text, run_start(text, n) as int, n as int),
        run_start(text, n) > 0 ==> text[run_start(text, n) - 1] != '\n',
        joined_lines(text.take(n as int)) == joined_lines(text.take(run_start(text, n) as int)),
        run_start(text, n) > 0 ==> joined_lines(text.take(n as int)).len() > 0 && joined_lines(
            text.take(n as int),
        ).last() == text[run_start(text, n) - 1],
        run_start(text, n) == 0 ==> joined_lines(text.take(n as int)).len() == 0,
    decreases n,
{
    if n > 0 {
        assert(text.take(n as int).drop_last() =~= text.take(n - 1));
        assert(text.take(n as int).last() == text[n - 1]);
        if text[n - 1] == '\n' {
            lemma_run_start(text, (n - 1) as nat);
        }
    } else {
        assert(text.take(0) =~= Seq::empty());
    }
}

/// Where no line feed joins two words, leaving out the line feeds of the first
/// `n` characters leaves their words as they are.
proof fn lemma_line_feeds_left_out(text: Seq<char>, n: nat)
    requires
        no_line_feed_joins_words(text),
        n <= text.len(),
    ensures
        words(joined_lines(text.take(n as int))) == words(text.take(n as int)),
    decreases n,
{
    if n > 0 {
        lemma_line_feeds_left_out(text, (n - 1) as nat);
        let c = text[n - 1];
        let front = text.take(n - 1);
        let whole = text.take(n as int);
        assert(whole.drop_last() =~= front);
        assert(whole.last() == c);
        if c != '\n' {
            let read = joined_lines(whole);
            assert(read.drop_last() =~= joined_lines(front));
            assert(read.last() == c);
            if !is_white_space(c) {
                lemma_run_start(text, (n - 1) as nat);
                let from = run_start(text, (n - 1) as nat);
                if from < n - 1 {
                    assert(front.last() == '\n');
                    if from > 0 {
                        assert(only_line_feeds(text, from as int, n - 1));
                        assert(is_white_space(text[from - 1]));
                    }
                    assert(!ends_in_word(joined_lines(front)));
                    assert(!ends_in_word(front));
                } else if n - 1 > 0 {
                    assert(front.last() == text[from - 1]);
                }
            }
        }
    } else {
        assert(text.take(0) =~= Seq::empty());
    }
}

/// Tokenizing text without quotes and backslashes is splitting it at
/// whitespace: the first word becomes the name, the others the arguments in
/// their order, and the text is terminated. This holds where no run of line
/// feeds stands directly between two words; such a run joins the two into one
/// token.
pub proof fn lemma_plain_text_splits_at_whitespace(text: Seq<char>)
    requires
        is_plain(text),
        no_line_feed_joins_words(text),
    ensures
        tokenize(text) == (command_of(words(text)), false),
{
    lemma_plain_text_tokenizes_to_joined_words(text);
    lemma_line_feeds_left_out(text, text.len());
    assert(text.take(text.len() as int) =~= text);
}

} // verus!
