//! What the session keeps of an entry: when the history grows, and what an
//! unknown command leaves behind.

use vstd::prelude::*;
use crate::dispatch::dispatch_of;
use crate::dispatch::Dispatch;
use crate::session::ActionView;
use crate::session::PendingView;
use crate::session::SessionView;
use crate::text::is_blank;
use crate::tokenizer::tokenize;

verus! {

/// `history` with the raw entry `entry` behind it, or `history` itself where
/// the entry is blank.
pub open spec fn history_with(history: Seq<Seq<char>>, entry: Seq<char>) -> Seq<Seq<char>> {
    if is_blank(entry) {
        history
    } else {
        history.push(entry)
    }
}

/// A line that is fed changes the history in one way only: an entry that is
/// settled by that line (an illegal `exit`, `clear`, an unknown command) is
/// added once, raw, at the end, unless it is blank. A line that leaves the
/// entry unterminated, a blank entry, an `exit` that is obeyed and a built-in
/// command that is handed out add nothing; the pending entry of a built-in
/// command holds the raw text that was gathered.
pub proof fn lemma_line_records_once(session: SessionView, line: Seq<char>)
    ensures
        ({
            let (after, action) = session.after_line(line);
            let entry = session.gathered(line);
            &&& session.history.is_prefix_of(after.history)
            &&& match action {
                ActionView::IllegalNumber | ActionView::Clear | ActionView::NotFound(_) => {
                    after.history == history_with(session.history, entry)
                },
                ActionView::Run(pending, _) => {
                    after.history == session.history && pending.entry == entry
                },
                _ => after.history == session.history,
            }
        }),
{
}

/// A built-in command that ends adds its entry to the history once, raw, at
/// the end, unless the entry is blank; what was recorded before stays in its
/// order. The status is kept whatever it is, and the directories stay.
pub proof fn lemma_completion_records_once(
    session: SessionView,
    pending: PendingView,
    status: i32,
)
    ensures
        ({
            let after = session.completed(pending, status);
            &&& after.history == history_with(session.history, pending.entry)
            &&& session.history.is_prefix_of(after.history)
            &&& after.last_status == status
            &&& after.current_directory == session.current_directory
            &&& after.previous_directory == session.previous_directory
            &&& after.home_directory == session.home_directory
        }),
{
}

/// The end of the input and a change of directory add nothing to the history:
/// an entry that ends in a syntax error is dropped, not recorded.
pub proof fn lemma_nothing_else_records(session: SessionView, directory: Seq<char>)
    ensures
        session.after_end_of_stream().0.history == session.history,
        session.entered(directory).history == session.history,
{
}

/// A complete entry whose name the command table does not hold ends with
/// status 127 at once: the action reports the name, the last status becomes
/// 127, the three directories stay as they are, and the history is the old
/// one with at most this entry behind it.
pub proof fn lemma_unknown_command_gives_127(session: SessionView, line: Seq<char>)
    requires
        !tokenize(session.gathered(line)).1,
        tokenize(session.gathered(line)).0.name.len() > 0,
        dispatch_of(
            tokenize(session.gathered(line)).0.name,
            tokenize(session.gathered(line)).0.args,
            session.last_status,
        ) == Dispatch::NotFound,
    ensures
        ({
            let (after, action) = session.after_line(line);
            &&& action == ActionView::NotFound(tokenize(session.gathered(line)).0.name)
            &&& after.last_status == 127
            &&& after.current_directory == session.current_directory
            &&& after.previous_directory == session.previous_directory
            &&& after.home_directory == session.home_directory
            &&& after.history == history_with(session.history, session.gathered(line))
            &&& !after.continuing
        }),
{
}

/// No line that is fed and no end of the input moves the session to another
/// directory or changes the home directory.
pub proof fn lemma_input_keeps_directories(session: SessionView, line: Seq<char>)
    ensures
        ({
            let after = session.after_line(line).0;
            &&& after.current_directory == session.current_directory
            &&& after.previous_directory == session.previous_directory
            &&& after.home_directory == session.home_directory
        }),
        ({
            let after = session.after_end_of_stream().0;
            &&& after.current_directory == session.current_directory
            &&& after.previous_directory == session.previous_directory
            &&& after.home_directory == session.home_directory
        }),
{
}

/// The home directory is fixed at the start: no line, no end of the input, no
/// command that ends and no change of directory gives the session another.
pub proof fn lemma_home_is_fixed(
    session: SessionView,
    line: Seq<char>,
    pending: PendingView,
    status: i32,
    directory: Seq<char>,
)
    ensures
        session.after_line(line).0.home_directory == session.home_directory,
        session.after_end_of_stream().0.home_directory == session.home_directory,
        session.completed(pending, status).home_directory == session.home_directory,
        session.entered(directory).home_directory == session.home_directory,
{
}

} // verus!
