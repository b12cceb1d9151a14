//! What holds of the tokenizer when text is appended to a buffer: the words
//! that the scanner has closed stay as they are, and tokenizing the longer
//! buffer from its start gives what resuming the scan behind the old buffer
//! gives.

use vstd::prelude::*;
use crate::command::CommandView;
use crate::text::is_white_space;
use crate::tokenizer::no_line_feed_behind;
use crate::tokenizer::resume;
use crate::tokenizer::scan;
use crate::tokenizer::tokenize;
use crate::tokenizer::ScannerView;

verus! {

/// The scanner saved at the end of a buffer, as it stands once `more` is
/// appended: where `more` holds a line feed, the line that was the buffer's
/// last is so no longer, and an escape that was pending into it is dropped.
pub open spec fn carried(saved: ScannerView, more: Seq<char>) -> ScannerView {
    if no_line_feed_behind(more, -1) {
        saved
    } else {
        ScannerView { pending_escape: false, ..saved }
    }
}

/// Adding a token keeps the tokens that are there, in their order.
pub proof fn lemma_token_added_behind(command: CommandView, word: Seq<char>)
    ensures
        command.tokens().is_prefix_of(command.with_token(word).tokens()),
        command.tokens().is_prefix_of(command.with_word(word).tokens()),
        command.well_formed() ==> command.with_token(word).well_formed(),
        command.well_formed() ==> command.with_word(word).well_formed(),
{
}

/// A prefix of a prefix is a prefix.
proof fn lemma_prefix_chain(a: Seq<Seq<char>>, b: Seq<Seq<char>>, c: Seq<Seq<char>>)
    requires
        a.is_prefix_of(b),
        b.is_prefix_of(c),
    ensures
        a.is_prefix_of(c),
{
}

/// One character, or one line break, keeps the closed words.
pub proof fn lemma_step_keeps_closed_words(before: ScannerView, c: char, whitespace: bool, last: bool)
    ensures
        before.command.tokens().is_prefix_of(before.feed(c, whitespace).command.tokens()),
        before.command.tokens().is_prefix_of(before.break_line(last).command.tokens()),
        before.command.well_formed() ==> before.feed(c, whitespace).command.well_formed(),
        before.command.well_formed() ==> before.break_line(last).command.well_formed(),
{
}

/// However far a scan goes on, the words it has closed stay: the tokens of
/// the command at the start are the first tokens of the command after any
/// number of characters.
pub proof fn lemma_resume_keeps_closed_words(from: ScannerView, text: Seq<char>, n: nat)
    ensures
        from.command.tokens().is_prefix_of(resume(from, text, n).command.tokens()),
        from.command.well_formed() ==> resume(from, text, n).command.well_formed(),
    decreases n,
{
    if n > 0 {
        let before = resume(from, text, (n - 1) as nat);
        let c = text[n - 1];
        lemma_resume_keeps_closed_words(from, text, (n - 1) as nat);
        lemma_step_keeps_closed_words(
            before,
            c,
            is_white_space(c),
            no_line_feed_behind(text, n - 1),
        );
        lemma_prefix_chain(
            from.command.tokens(),
            before.command.tokens(),
            resume(from, text, n).command.tokens(),
        );
    }
}

/// A command that the tokenizer returns has arguments only behind a name.
pub proof fn lemma_tokenized_command_is_well_formed(text: Seq<char>)
    ensures
        tokenize(text).0.well_formed(),
{
    lemma_resume_keeps_closed_words(ScannerView::start(), text, text.len());
}

/// Before the last character of a buffer that ends with a line feed, the scan
/// of the buffer with `more` appended is the scan of the buffer alone.
proof fn lemma_same_scan_inside_buffer(buffer: Seq<char>, more: Seq<char>, n: nat)
    requires
        buffer.len() > 0,
        buffer.last() == '\n',
        n < buffer.len(),
    ensures
        scan(buffer + more, n) == scan(buffer, n),
    decreases n,
{
    if n > 0 {
        lemma_same_scan_inside_buffer(buffer, more, (n - 1) as nat);
        let end = buffer.len() - 1;
        assert((buffer + more)[end] == '\n');
    }
}

/// Whether a line feed follows a position of `more` does not depend on the
/// buffer in front of it.
proof fn lemma_line_feeds_behind_shift(buffer: Seq<char>, more: Seq<char>, k: int)
    requires
        -1 <= k < more.len(),
    ensures
        no_line_feed_behind(buffer + more, buffer.len() + k) == no_line_feed_behind(more, k),
{
    let whole = buffer + more;
    if no_line_feed_behind(more, k) {
        assert forall|j: int| buffer.len() + k < j < whole.len() implies whole[j] != '\n' by {
        }
    }
    if no_line_feed_behind(whole, buffer.len() + k) {
        assert forall|j: int| k < j < more.len() implies more[j] != '\n' by {
            assert(whole[j + buffer.len()] == more[j]);
        }
    }
}

/// Behind the buffer, the scan of the buffer with `more` appended goes on as
/// a scan of `more` alone does from the same scanner.
proof fn lemma_scan_behind_buffer(buffer: Seq<char>, more: Seq<char>, k: nat)
    requires
        k <= more.len(),
    ensures
        scan(buffer + more, buffer.len() + k) == resume(
            scan(buffer + more, buffer.len()),
            more,
            k,
        ),
    decreases k,
{
    if k > 0 {
        lemma_scan_behind_buffer(buffer, more, (k - 1) as nat);
        lemma_line_feeds_behind_shift(buffer, more, k - 1);
    }
}

/// Tokenizing a buffer again after text was appended to it changes nothing
/// of what the buffer had settled. For a buffer made of whole lines (empty, or
/// ending with a line feed) and any text `more`:
/// the scan of `buffer + more` from its start ends where the scan of `more`
/// ends that resumes from the scanner saved at the end of `buffer`; so the
/// result for the longer buffer, its `unterminated` flag included, depends on
/// the buffer only through that scanner, and the words that the buffer had
/// closed are the first words of the longer buffer's command.
pub proof fn lemma_continuation_resumes_scan(buffer: Seq<char>, more: Seq<char>)
    requires
        buffer.len() == 0 || buffer.last() == '\n',
    ensures
        scan(buffer + more, (buffer + more).len()) == resume(
            carried(scan(buffer, buffer.len()), more),
            more,
            more.len(),
        ),
        tokenize(buffer + more).0 == resume(
            carried(scan(buffer, buffer.len()), more),
            more,
            more.len(),
        ).finished_command(),
        tokenize(buffer + more).1 == resume(
            carried(scan(buffer, buffer.len()), more),
            more,
            more.len(),
        ).unterminated(),
        scan(buffer, buffer.len()).command.tokens().is_prefix_of(
            tokenize(buffer + more).0.tokens(),
        ),
{
    let saved = scan(buffer, buffer.len());
    lemma_scan_behind_buffer(buffer, more, more.len());
    if buffer.len() > 0 {
        let end = (buffer.len() - 1) as nat;
        lemma_same_scan_inside_buffer(buffer, more, end);
        lemma_line_feeds_behind_shift(buffer, more, -1);
    }
    lemma_resume_keeps_closed_words(carried(saved, more), more, more.len());
}

} // verus!
