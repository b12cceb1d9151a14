//! The parsed unit of work: a command name and its ordered arguments.

use vstd::prelude::*;

verus! {

/// A parsed command: the first token is the name, every later token an argument.
#[derive(Debug, PartialEq, Clone)]
pub struct Command {
    pub name: String,
    pub args: Vec<String>,
}

/// The mathematical content of a [`Command`].
pub struct CommandView {
    pub name: Seq<char>,
    pub args: Seq<Seq<char>>,
}

/// The character sequences held by a list of strings, in order.
pub open spec fn texts(list: Seq<String>) -> Seq<Seq<char>> {
    Seq::new(list.len(), |i: int| list[i]@)
}

impl CommandView {
    /// The command that holds no token.
    pub open spec fn empty() -> CommandView {
        CommandView { name: Seq::empty(), args: Seq::empty() }
    }

    /// The command after `word` was added as a token, whatever it holds: it
    /// becomes the name while the name is empty, and the last argument after
    /// that.
    pub open spec fn with_token(self, word: Seq<char>) -> CommandView {
        if self.name.len() == 0 {
            CommandView { name: word, args: self.args }
        } else {
            CommandView { name: self.name, args: self.args.push(word) }
        }
    }

    /// The command after `word` was offered as an unquoted token: an empty
    /// word adds nothing.
    pub open spec fn with_word(self, word: Seq<char>) -> CommandView {
        if word.len() == 0 {
            self
        } else {
            self.with_token(word)
        }
    }

    /// All tokens in the order in which they were added.
    pub open spec fn tokens(self) -> Seq<Seq<char>> {
        if self.name.len() == 0 {
            Seq::empty()
        } else {
            seq![self.name] + self.args
        }
    }

    /// Arguments exist only behind a name.
    pub open spec fn well_formed(self) -> bool {
        self.name.len() == 0 ==> self.args.len() == 0
    }
}

impl View for Command {
    type V = CommandView;

    open spec fn view(&self) -> CommandView {
        CommandView { name: self.name@, args: texts(self.args@) }
    }
}

impl Command {
    /// A command without a name and without arguments.
    pub fn new() -> (command: Command)
        ensures
            command@ == CommandView::empty(),
    {
        let command = Command { name: String::new(), args: Vec::new() };
        assert(texts(command.args@) =~= Seq::empty());
        command
    }

    /// Adds an unquoted token. An empty `word` is dropped; otherwise the word
    /// becomes the name if there is none yet, and the last argument if there is.
    pub fn add_string(&mut self, word: &String)
        ensures
            final(self)@ == old(self)@.with_word(word@),
    {
        if word.as_str().is_empty() {
            return ;
        }
        self.add_string_whatever(word);
    }

    /// Adds a token that came out of a quoted section, even an empty one: it
    /// becomes the name while the name is empty, and the last argument after
    /// that.
    pub fn add_string_whatever(&mut self, word: &String)
        ensures
            final(self)@ == old(self)@.with_token(word@),
    {
        if self.name.as_str().is_empty() {
            self.name = word.clone();
        } else {
            self.args.push(word.clone());
            assert(texts(self.args@) =~= texts(old(self).args@).push(word@));
        }
    }
}

} // verus!
