//! The tokenizer: raw text to a command and an `unterminated` flag.
//!
//! The text is read as physical lines separated by line feeds. Within a line a
//! three-state scanner with a pending-escape flag consumes one character at a
//! time; between two lines a line break is applied. Single and double quotes
//! group characters into one word, a backslash escapes the next character, and
//! an open quote or a trailing backslash leaves the text unterminated.

use vstd::prelude::*;
use crate::command::Command;
use crate::command::CommandView;
use crate::continuation::lemma_tokenized_command_is_well_formed;
use crate::text::chars_of;
use crate::text::is_white_space;

verus! {

/// Where the scanner stands with respect to quotes.
#[derive(Debug, PartialEq, Eq, Clone, Copy, Structural)]
pub enum QuoteState {
    Normal,
    InDoubleQuote,
    InSingleQuote,
}

/// The scanner between two characters.
#[derive(Debug)]
pub struct Scanner {
    /// The quoting state.
    pub state: QuoteState,
    /// An unescaped backslash was consumed and still waits for its character.
    pub pending_escape: bool,
    /// The character just consumed closed a quote.
    pub after_quote: bool,
    /// The word under construction.
    pub word: String,
    /// The words finalized so far.
    pub command: Command,
}

/// The mathematical content of a [`Scanner`].
pub struct ScannerView {
    pub state: QuoteState,
    pub pending_escape: bool,
    pub after_quote: bool,
    pub word: Seq<char>,
    pub command: CommandView,
}

impl View for Scanner {
    type V = ScannerView;

    open spec fn view(&self) -> ScannerView {
        ScannerView {
            state: self.state,
            pending_escape: self.pending_escape,
            after_quote: self.after_quote,
            word: self.word@,
            command: self.command@,
        }
    }
}

/// Inside double quotes a backslash escapes these characters and no others.
pub open spec fn escapable_in_double_quotes(c: char) -> bool {
    c == '"' || c == '\\' || c == '`' || c == '$'
}

impl ScannerView {
    /// The scanner before the first character.
    pub open spec fn start() -> ScannerView {
        ScannerView {
            state: QuoteState::Normal,
            pending_escape: false,
            after_quote: false,
            word: Seq::empty(),
            command: CommandView::empty(),
        }
    }

    /// The scanner after it consumed `c` under the rules of its quoting state.
    /// `whitespace` says whether `c` is a whitespace character.
    pub open spec fn consume(self, c: char, whitespace: bool) -> ScannerView {
        match self.state {
            QuoteState::Normal => {
                if self.pending_escape {
                    ScannerView { word: self.word.push(c), pending_escape: false, ..self }
                } else if c == '\\' {
                    ScannerView { pending_escape: true, ..self }
                } else if whitespace {
                    ScannerView {
                        word: Seq::empty(),
                        command: self.command.with_word(self.word),
                        ..self
                    }
                } else if c == '"' {
                    ScannerView { state: QuoteState::InDoubleQuote, ..self }
                } else if c == '\'' {
                    ScannerView { state: QuoteState::InSingleQuote, ..self }
                } else {
                    ScannerView { word: self.word.push(c), ..self }
                }
            },
            QuoteState::InDoubleQuote => {
                if self.pending_escape {
                    if escapable_in_double_quotes(c) {
                        ScannerView { word: self.word.push(c), pending_escape: false, ..self }
                    } else {
                        ScannerView {
                            word: self.word.push('\\').push(c),
                            pending_escape: false,
                            ..self
                        }
                    }
                } else if c == '"' {
                    ScannerView { state: QuoteState::Normal, after_quote: true, ..self }
                } else if c == '\\' {
                    ScannerView { pending_escape: true, ..self }
                } else {
                    ScannerView { word: self.word.push(c), ..self }
                }
            },
            QuoteState::InSingleQuote => {
                if c == '\'' {
                    ScannerView { state: QuoteState::Normal, after_quote: true, ..self }
                } else {
                    ScannerView { word: self.word.push(c), ..self }
                }
            },
        }
    }

    /// The scanner after the character `c` of a line. Directly behind a closing
    /// quote a whitespace character ends the word, even an empty one, and is
    /// used up as the separator; any other character is consumed as usual.
    pub open spec fn feed(self, c: char, whitespace: bool) -> ScannerView {
        if self.after_quote {
            if whitespace {
                ScannerView {
                    after_quote: false,
                    word: Seq::empty(),
                    command: self.command.with_token(self.word),
                    ..self
                }
            } else {
                ScannerView { after_quote: false, ..self }.consume(c, whitespace)
            }
        } else {
            self.consume(c, whitespace)
        }
    }

    /// The scanner at the start of the line behind a line feed. `last` says
    /// that no further line feed follows. Inside a quote, with no escape
    /// pending, the line feed becomes part of the word. A pending escape is
    /// dropped together with the line feed, unless the line that begins is the
    /// last one: there it stays pending.
    pub open spec fn break_line(self, last: bool) -> ScannerView {
        ScannerView {
            word: if self.state != QuoteState::Normal && !self.pending_escape {
                self.word.push('\n')
            } else {
                self.word
            },
            pending_escape: self.pending_escape && last,
            after_quote: false,
            ..self
        }
    }

    /// The command once the scan has ended: a word still under construction is
    /// finalized unless it is empty.
    pub open spec fn finished_command(self) -> CommandView {
        self.command.with_word(self.word)
    }

    /// The scan ended inside a quote or behind an unresolved backslash.
    pub open spec fn unterminated(self) -> bool {
        self.state != QuoteState::Normal || self.pending_escape
    }
}

/// No line feed stands behind position `at` of `text`.
pub open spec fn no_line_feed_behind(text: Seq<char>, at: int) -> bool {
    forall|j: int| at < j < text.len() ==> text[j] != '\n'
}

/// The scanner that stood at `from`, after the first `n` characters of `text`:
/// a line feed breaks the line, every other character is fed.
pub open spec fn resume(from: ScannerView, text: Seq<char>, n: nat) -> ScannerView
    decreases n,
{
    if n == 0 {
        from
    } else {
        let before = resume(from, text, (n - 1) as nat);
        let c = text[n - 1];
        if c == '\n' {
            before.break_line(no_line_feed_behind(text, n - 1))
        } else {
            before.feed(c, is_white_space(c))
        }
    }
}

/// The scanner after the first `n` characters of `text`.
pub open spec fn scan(text: Seq<char>, n: nat) -> ScannerView {
    resume(ScannerView::start(), text, n)
}

/// What tokenizing `text` gives: the command, and whether the text is
/// unterminated.
pub open spec fn tokenize(text: Seq<char>) -> (CommandView, bool) {
    let end = scan(text, text.len());
    (end.finished_command(), end.unterminated())
}

impl Scanner {
    /// The scanner before the first character.
    pub fn new() -> (scanner: Scanner)
        ensures
            scanner@ == ScannerView::start(),
    {
        Scanner {
            state: QuoteState::Normal,
            pending_escape: false,
            after_quote: false,
            word: String::new(),
            command: Command::new(),
        }
    }

    /// Consumes the character `c` of a line; `whitespace` says whether `c` is a
    /// whitespace character.
    pub fn feed(&mut self, c: char, whitespace: bool)
        ensures
            final(self)@ == old(self)@.feed(c, whitespace),
    {
        if self.after_quote {
            self.after_quote = false;
            if whitespace {
                self.command.add_string_whatever(&self.word);
                self.word = String::new();
                return ;
            }
        }
        match self.state {
            QuoteState::Normal => {
                if self.pending_escape {
                    self.word.push(c);
                    self.pending_escape = false;
                } else if c == '\\' {
                    self.pending_escape = true;
                } else if whitespace {
                    self.command.add_string(&self.word);
                    self.word = String::new();
                } else if c == '"' {
                    self.state = QuoteState::InDoubleQuote;
                } else if c == '\'' {
                    self.state = QuoteState::InSingleQuote;
                } else {
                    self.word.push(c);
                }
            },
            QuoteState::InDoubleQuote => {
                if self.pending_escape {
                    if !(c == '"' || c == '\\' || c == '`' || c == '$') {
                        self.word.push('\\');
                    }
                    self.word.push(c);
                    self.pending_escape = false;
                } else if c == '"' {
                    self.state = QuoteState::Normal;
                    self.after_quote = true;
                } else if c == '\\' {
                    self.pending_escape = true;
                } else {
                    self.word.push(c);
                }
            },
            QuoteState::InSingleQuote => {
                if c == '\'' {
                    self.state = QuoteState::Normal;
                    self.after_quote = true;
                } else {
                    self.word.push(c);
                }
            },
        }
    }

    /// Passes a line feed; `last` says that no further line feed follows.
    pub fn break_line(&mut self, last: bool)
        ensures
            final(self)@ == old(self)@.break_line(last),
    {
        let in_quote = match self.state {
            QuoteState::Normal => false,
            _ => true,
        };
        if in_quote && !self.pending_escape {
            self.word.push('\n');
        }
        if !last {
            self.pending_escape = false;
        }
        self.after_quote = false;
    }

    /// Ends the scan: the command with the open word finalized, and whether the
    /// text was unterminated.
    pub fn finish(self) -> (result: (Command, bool))
        ensures
            result.0@ == self@.finished_command(),
            result.1 == self@.unterminated(),
    {
        let in_quote = match self.state {
            QuoteState::Normal => false,
            _ => true,
        };
        let unterminated = in_quote || self.pending_escape;
        let mut command = self.command;
        command.add_string(&self.word);
        (command, unterminated)
    }
}

/// The position of the last line feed of `chars`, or the length of `chars`
/// where there is none.
fn last_line_feed(chars: &Vec<char>) -> (at: usize)
    ensures
        at <= chars.len(),
        at < chars.len() ==> chars[at as int] == '\n',
        no_line_feed_behind(chars@, at as int),
        at == chars.len() ==> no_line_feed_behind(chars@, -1),
{
    let n = chars.len();
    let mut at = n;
    let mut i: usize = 0;
    while i < n
        invariant
            n == chars.len(),
            i <= n,
            at == n || at < i,
            at < n ==> chars[at as int] == '\n',
            forall|j: int| (if at < n { at as int } else { -1 }) < j < i ==> chars[j] != '\n',
        decreases n - i,
    {
        if chars[i] == '\n' {
            at = i;
        }
        i += 1;
    }
    at
}

/// Splits text into a command and tells whether it is unterminated.
pub trait CostumSplit {
    /// The characters that are split.
    spec fn text(&self) -> Seq<char>;

    /// Tokenizes the text: the command's name and arguments, and `true` where a
    /// quote is left open or a backslash is left unresolved at the end.
    fn custom_split(&self) -> (result: (Command, bool))
        ensures
            result.0@ == tokenize(self.text()).0,
            result.1 == tokenize(self.text()).1,
            result.0@.well_formed(),
    ;
}

impl CostumSplit for String {
    open spec fn text(&self) -> Seq<char> {
        self@
    }

    fn custom_split(&self) -> (result: (Command, bool)) {
        let chars = chars_of(self.as_str());
        let n = chars.len();
        let last = last_line_feed(&chars);
        let mut scanner = Scanner::new();
        let mut i: usize = 0;
        while i < n
            invariant
                n == chars.len(),
                i <= n,
                last <= n,
                last < n ==> chars[last as int] == '\n',
                no_line_feed_behind(chars@, last as int),
                last == n ==> no_line_feed_behind(chars@, -1),
                scanner@ == scan(chars@, i as nat),
            decreases n - i,
        {
            let c = chars[i];
            if c == '\n' {
                assert((i == last) == no_line_feed_behind(chars@, i as int));
                scanner.break_line(i == last);
            } else {
                scanner.feed(c, c.is_whitespace());
            }
            i += 1;
        }
        proof {
            lemma_tokenized_command_is_well_formed(chars@);
        }
        scanner.finish()
    }
}

} // verus!
