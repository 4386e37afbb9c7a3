//! Putting the lines of a script together into commands.
//!
//! A command may run over several lines: it ends with the line on which
//! as many round brackets have been closed as were opened.

use vstd::prelude::*;
use vstd::string::StrSliceExecFns;
use vstd::string::StringExecFns;

verus! {

/// The balance of brackets after one more character. The count stays
/// where it is at the ends of the range of `i64`.
pub open spec fn balance_step(balance: int, c: char) -> int {
    if c == '(' && balance < i64::MAX {
        balance + 1
    } else if c == ')' && balance > i64::MIN {
        balance - 1
    } else {
        balance
    }
}

/// The balance of brackets after the first `n` characters of a text,
/// counted on from a balance: opened less closed.
pub open spec fn balance_after(balance: int, s: Seq<char>, n: int) -> int
    decreases n,
{
    if n <= 0 {
        balance
    } else {
        balance_step(balance_after(balance, s, n - 1), s[n - 1])
    }
}

/// The text of a command in hand after one more line: the lines are
/// joined by single blanks.
pub open spec fn joined(current: Seq<char>, line: Seq<char>) -> Seq<char> {
    if current.len() == 0 {
        line
    } else {
        current + seq![' '] + line
    }
}

/// A reader of commands, line by line.
#[derive(Debug)]
pub struct CommandReader {
    current: String,
    start_line: usize,
    balance: i64,
}

/// Mathematical model of a [`CommandReader`].
pub struct CommandReaderView {
    /// The text of the command in hand; empty between commands.
    pub current: Seq<char>,
    /// The number of the line on which the command in hand began.
    pub start_line: usize,
    /// Brackets opened less brackets closed in the command in hand.
    pub balance: int,
}

impl CommandReaderView {
    /// The reader after one more line, whether or not the line ends the
    /// command.
    pub open spec fn fed(self, line: Seq<char>, line_no: usize) -> CommandReaderView {
        CommandReaderView {
            current: joined(self.current, line),
            start_line: if self.current.len() == 0 {
                line_no
            } else {
                self.start_line
            },
            balance: balance_after(self.balance, line, line.len() as int),
        }
    }
}

impl View for CommandReader {
    type V = CommandReaderView;

    closed spec fn view(&self) -> CommandReaderView {
        CommandReaderView {
            current: self.current@,
            start_line: self.start_line,
            balance: self.balance as int,
        }
    }
}

impl CommandReader {
    /// A reader that has read nothing.
    pub fn new() -> (r: Self)
        ensures
            r@.current.len() == 0,
            r@.balance == 0,
    {
        CommandReader { current: String::new(), start_line: 0, balance: 0 }
    }

    /// Whether a command has been begun and not ended.
    pub fn is_open(&self) -> (r: bool)
        ensures
            r == (self@.current.len() > 0),
    {
        self.current.as_str().unicode_len() > 0
    }

    /// The number of the line on which the command in hand began.
    pub fn start_line(&self) -> (r: usize)
        ensures
            r == self@.start_line,
    {
        self.start_line
    }

    /// Whether as many brackets have been closed as were opened.
    pub fn is_balanced(&self) -> (r: bool)
        ensures
            r == (self@.balance == 0),
    {
        self.balance == 0
    }

    /// Forgets the command in hand.
    pub fn clear(&mut self)
        ensures
            final(self)@.current.len() == 0,
            final(self)@.balance == 0,
            final(self)@.start_line == old(self)@.start_line,
    {
        self.current = String::new();
        self.balance = 0;
    }

    /// Takes in one line with its number. When the line brings the
    /// brackets into balance it ends the command: the result is the text
    /// of the command with the number of the line on which it began, and
    /// the reader is ready for the next command. Otherwise the line is
    /// kept and the result is `None`.
    pub fn feed(&mut self, line: &str, line_no: usize) -> (r: Option<(String, usize)>)
        ensures
            ({
                let fed = old(self)@.fed(line@, line_no);
                if fed.balance == 0 {
                    &&& r matches Some((command, start))
                    &&& command@ == fed.current
                    &&& start == fed.start_line
                    &&& final(self)@ == (CommandReaderView { current: Seq::empty(), ..fed })
                } else {
                    &&& r is None
                    &&& final(self)@ == fed
                }
            }),
    {
        if self.current.as_str().unicode_len() == 0 {
            self.start_line = line_no;
            self.current = line.to_owned();
        } else {
            proof {
                reveal_strlit(" ");
            }
            self.current.append(" ");
            self.current.append(line);
        }
        proof {
            assert(self.current@ =~= joined(old(self).current@, line@));
        }
        let count = line.unicode_len();
        let mut i: usize = 0;
        while i < count
            invariant
                count == line@.len(),
                i <= count,
                self.current@ == joined(old(self).current@, line@),
                self.start_line == old(self)@.fed(line@, line_no).start_line,
                self.balance == balance_after(old(self).balance as int, line@, i as int),
            decreases count - i,
        {
            let c = line.get_char(i);
            if c == '(' && self.balance < i64::MAX {
                self.balance = self.balance + 1;
            } else if c == ')' && self.balance > i64::MIN {
                self.balance = self.balance - 1;
            }
            i += 1;
        }
        if self.balance == 0 {
            let mut command = String::new();
            core::mem::swap(&mut self.current, &mut command);
            Some((command, self.start_line))
        } else {
            None
        }
    }
}

} // verus!
