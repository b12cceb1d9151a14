//! The interactive loop as a state machine. The session owns the state of the
//! loop; the driver around it reads lines, shows prompts and carries out
//! built-in commands, and tells the session what happened.
//!
//! One logical command: the driver feeds a line; while the accumulated text is
//! unterminated the session asks for more; once it is complete the session
//! says what to do, and where that is a built-in command the driver reports
//! its status back with the pending entry it was given.

use vstd::prelude::*;
use vstd::string::StringExecFns;
use crate::command::texts;
use crate::dispatch::dispatch;
use crate::dispatch::dispatch_of;
use crate::dispatch::Builtin;
use crate::dispatch::Dispatch;
use crate::dispatch::STATUS_ILLEGAL_NUMBER;
use crate::dispatch::STATUS_NOT_FOUND;
use crate::text::is_blank;
use crate::text::is_blank_text;
use crate::tokenizer::tokenize;
use crate::tokenizer::CostumSplit;

verus! {

/// The state that the interactive loop owns.
#[derive(Debug)]
pub struct Session {
    /// The directory the interpreter stands in.
    pub current_directory: String,
    /// The directory it stood in before the last change of directory.
    pub previous_directory: String,
    /// The user's home directory, fixed at the start.
    pub home_directory: String,
    /// The raw text of every recorded entry, oldest first.
    pub history: Vec<String>,
    /// The status of the last command.
    pub last_status: i32,
    /// The raw text gathered for an entry that is still unterminated.
    pub buffer: String,
    /// The next line continues the text in `buffer`.
    pub continuing: bool,
}

/// The mathematical content of a [`Session`].
pub struct SessionView {
    pub current_directory: Seq<char>,
    pub previous_directory: Seq<char>,
    pub home_directory: Seq<char>,
    pub history: Seq<Seq<char>>,
    pub last_status: i32,
    pub buffer: Seq<char>,
    pub continuing: bool,
}

impl View for Session {
    type V = SessionView;

    open spec fn view(&self) -> SessionView {
        SessionView {
            current_directory: self.current_directory@,
            previous_directory: self.previous_directory@,
            home_directory: self.home_directory@,
            history: texts(self.history@),
            last_status: self.last_status,
            buffer: self.buffer@,
            continuing: self.continuing,
        }
    }
}

/// An entry whose built-in command has been handed out and whose status is
/// still to come. It is made by [`Session::feed_line`] and used up by
/// [`Session::complete`].
#[derive(Debug)]
pub struct Pending {
    builtin: Builtin,
    entry: String,
}

/// The mathematical content of a [`Pending`].
pub struct PendingView {
    /// The built-in command to carry out.
    pub builtin: Builtin,
    /// The raw text of the entry.
    pub entry: Seq<char>,
}

impl View for Pending {
    type V = PendingView;

    closed spec fn view(&self) -> PendingView {
        PendingView { builtin: self.builtin, entry: self.entry@ }
    }
}

impl Pending {
    /// The built-in command to carry out.
    pub fn builtin(&self) -> (builtin: Builtin)
        ensures
            builtin == self@.builtin,
    {
        self.builtin
    }

    /// The raw text of the entry.
    pub fn entry(&self) -> (entry: &String)
        ensures
            entry@ == self@.entry,
    {
        &self.entry
    }
}

/// What the driver has to do next.
#[derive(Debug)]
pub enum Action {
    /// The text is unterminated: show the continuation prompt and feed
    /// another line.
    ReadMore,
    /// The entry was blank: nothing to do.
    Skip,
    /// The input ended inside an unterminated entry: report the syntax error.
    SyntaxError,
    /// Carry out the built-in command of the pending entry with these
    /// arguments, then hand the entry back with the status.
    Run(Pending, Vec<String>),
    /// Clear the terminal.
    Clear,
    /// Leave the interpreter with this code.
    Exit(i32),
    /// Report that `exit` was given an argument that is no number.
    IllegalNumber,
    /// Report that there is no command of this name.
    NotFound(String),
}

/// The mathematical content of an [`Action`].
pub enum ActionView {
    ReadMore,
    Skip,
    SyntaxError,
    Run(PendingView, Seq<Seq<char>>),
    Clear,
    Exit(i32),
    IllegalNumber,
    NotFound(Seq<char>),
}

impl View for Action {
    type V = ActionView;

    open spec fn view(&self) -> ActionView {
        match self {
            Action::ReadMore => ActionView::ReadMore,
            Action::Skip => ActionView::Skip,
            Action::SyntaxError => ActionView::SyntaxError,
            Action::Run(pending, args) => ActionView::Run(pending@, texts(args@)),
            Action::Clear => ActionView::Clear,
            Action::Exit(code) => ActionView::Exit(*code),
            Action::IllegalNumber => ActionView::IllegalNumber,
            Action::NotFound(name) => ActionView::NotFound(name@),
        }
    }
}

impl SessionView {
    /// A session at its start: no history, status 0, and the previous
    /// directory is the current one.
    pub open spec fn start(current_directory: Seq<char>, home_directory: Seq<char>) -> SessionView {
        SessionView {
            current_directory,
            previous_directory: current_directory,
            home_directory,
            history: Seq::empty(),
            last_status: 0,
            buffer: Seq::empty(),
            continuing: false,
        }
    }

    /// The raw text of the entry once `line` has come in: behind what was
    /// gathered where the line continues an entry, alone where it begins one.
    pub open spec fn gathered(self, line: Seq<char>) -> Seq<char> {
        if self.continuing {
            self.buffer + line
        } else {
            line
        }
    }

    /// The session with no entry under way.
    pub open spec fn idle(self) -> SessionView {
        SessionView { buffer: Seq::empty(), continuing: false, ..self }
    }

    /// The session after the entry `entry` ended with `status`: the status is
    /// kept, and the raw entry goes to the end of the history unless it is
    /// blank.
    pub open spec fn recorded(self, entry: Seq<char>, status: i32) -> SessionView {
        SessionView {
            last_status: status,
            history: if is_blank(entry) {
                self.history
            } else {
                self.history.push(entry)
            },
            ..self
        }
    }

    /// The session and the action after `line` was fed.
    ///
    /// The entry gathered so far is tokenized from its start. Unterminated, it
    /// is kept and more is asked for. Complete and without a name, it is
    /// dropped. Otherwise its command is dispatched: a built-in command is
    /// handed out as a pending entry; `exit` with a usable code leaves; an
    /// illegal `exit`, `clear` and an unknown name are settled at once with
    /// their status and recorded.
    pub open spec fn after_line(self, line: Seq<char>) -> (SessionView, ActionView) {
        let entry = self.gathered(line);
        let (command, unterminated) = tokenize(entry);
        if unterminated {
            (SessionView { buffer: entry, continuing: true, ..self }, ActionView::ReadMore)
        } else if command.name.len() == 0 {
            (self.idle(), ActionView::Skip)
        } else {
            match dispatch_of(command.name, command.args, self.last_status) {
                Dispatch::Run(builtin) => (
                    self.idle(),
                    ActionView::Run(PendingView { builtin, entry }, command.args),
                ),
                Dispatch::Exit(code) => (self.idle(), ActionView::Exit(code)),
                Dispatch::IllegalNumber => (
                    self.idle().recorded(entry, STATUS_ILLEGAL_NUMBER),
                    ActionView::IllegalNumber,
                ),
                Dispatch::Clear => (self.idle().recorded(entry, 0), ActionView::Clear),
                Dispatch::NotFound => (
                    self.idle().recorded(entry, STATUS_NOT_FOUND),
                    ActionView::NotFound(command.name),
                ),
            }
        }
    }

    /// The session and the action after the input ended. Inside an
    /// unterminated entry that is a syntax error, and the entry is dropped;
    /// between entries the interpreter leaves with the last status.
    pub open spec fn after_end_of_stream(self) -> (SessionView, ActionView) {
        if self.continuing {
            (self.idle(), ActionView::SyntaxError)
        } else {
            (self, ActionView::Exit(self.last_status))
        }
    }

    /// The session after the built-in command of `pending` ended with `status`.
    pub open spec fn completed(self, pending: PendingView, status: i32) -> SessionView {
        self.recorded(pending.entry, status)
    }

    /// The session after a change of directory to `directory`: the directory
    /// left behind becomes the previous one.
    pub open spec fn entered(self, directory: Seq<char>) -> SessionView {
        SessionView {
            previous_directory: self.current_directory,
            current_directory: directory,
            ..self
        }
    }
}

impl Session {
    /// A session that starts in `current_directory`.
    pub fn new(current_directory: String, home_directory: String) -> (session: Session)
        ensures
            session@ == SessionView::start(current_directory@, home_directory@),
    {
        let session = Session {
            previous_directory: current_directory.clone(),
            current_directory,
            home_directory,
            history: Vec::new(),
            last_status: 0,
            buffer: String::new(),
            continuing: false,
        };
        assert(texts(session.history@) =~= Seq::empty());
        session
    }

    /// Keeps the status of an entry that has ended, and its raw text in the
    /// history unless it is blank.
    fn record(&mut self, entry: String, status: i32)
        ensures
            final(self)@ == old(self)@.recorded(entry@, status),
    {
        self.last_status = status;
        if !is_blank_text(entry.as_str()) {
            self.history.push(entry);
            assert(texts(self.history@) =~= texts(old(self).history@).push(entry@));
        }
    }

    /// Takes one physical line of input and says what to do next.
    pub fn feed_line(&mut self, line: &str) -> (action: Action)
        ensures
            (final(self)@, action@) == old(self)@.after_line(line@),
    {
        let mut entry = String::new();
        if self.continuing {
            entry.append(self.buffer.as_str());
        }
        entry.append(line);
        let (command, unterminated) = entry.custom_split();
        if unterminated {
            self.buffer = entry;
            self.continuing = true;
            return Action::ReadMore;
        }
        self.buffer = String::new();
        self.continuing = false;
        if command.name.as_str().is_empty() {
            return Action::Skip;
        }
        match dispatch(command.name.as_str(), &command.args, self.last_status) {
            Dispatch::Run(builtin) => Action::Run(Pending { builtin, entry }, command.args),
            Dispatch::Exit(code) => Action::Exit(code),
            Dispatch::IllegalNumber => {
                self.record(entry, STATUS_ILLEGAL_NUMBER);
                Action::IllegalNumber
            },
            Dispatch::Clear => {
                self.record(entry, 0);
                Action::Clear
            },
            Dispatch::NotFound => {
                self.record(entry, STATUS_NOT_FOUND);
                Action::NotFound(command.name)
            },
        }
    }

    /// Takes the end of the input and says what to do next.
    pub fn end_of_stream(&mut self) -> (action: Action)
        ensures
            (final(self)@, action@) == old(self)@.after_end_of_stream(),
    {
        if self.continuing {
            self.buffer = String::new();
            self.continuing = false;
            Action::SyntaxError
        } else {
            Action::Exit(self.last_status)
        }
    }

    /// Takes the status with which the built-in command of `pending` ended.
    pub fn complete(&mut self, pending: Pending, status: i32)
        ensures
            final(self)@ == old(self)@.completed(pending@, status),
    {
        self.record(pending.entry, status);
    }

    /// Takes a change of directory that has succeeded.
    pub fn enter_directory(&mut self, directory: String)
        ensures
            final(self)@ == old(self)@.entered(directory@),
    {
        let mut left = directory;
        core::mem::swap(&mut self.current_directory, &mut left);
        self.previous_directory = left;
    }
}

} // verus!
