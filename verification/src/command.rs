//! The command line: collecting its input and parsing a finished command
//! into the action it asks for.  Whatever the action touches outside the
//! core (files, quitting) is the shell's to carry out.

use vstd::prelude::*;
use crate::buffer::{is_space_char, trim_start_spec, is_space};
use crate::cursor::{skip_non_space, skip_space};
use crate::key::{Key, KeyInput};
use crate::text::{chars_eq_str, chars_to_string, copy_range, str_to_chars};

verus! {

/// A sequence with its trailing whitespace removed.
pub open spec fn trim_end_spec(s: Seq<char>) -> Seq<char>
    decreases s.len(),
{
    if s.len() > 0 && is_space_char(s.last()) {
        trim_end_spec(s.drop_last())
    } else {
        s
    }
}

/// A sequence with whitespace removed from both ends.
pub open spec fn trim_spec(s: Seq<char>) -> Seq<char> {
    trim_end_spec(trim_start_spec(s))
}

/// Whether `p` is a prefix of `s`.
pub open spec fn starts_with(s: Seq<char>, p: Seq<char>) -> bool {
    s.len() >= p.len() && s.take(p.len() as int) == p
}

/// The second whitespace-separated word of `s` (empty when there is
/// none).
pub open spec fn second_token_spec(s: Seq<char>) -> Seq<char> {
    let a = skip_non_space(s, 0);
    let b = skip_space(s, a);
    let c = skip_non_space(s, b);
    s.subrange(b, c)
}

/// What the command interpreter hands back for the raw command text.
pub ghost enum CommandActionView {
    NoOp,
    Quit,
    ForceQuit,
    Write,
    WriteQuit,
    WriteAs(Seq<char>),
    Edit(Seq<char>),
    SplitHorizontal(Option<Seq<char>>),
    SplitVertical(Option<Seq<char>>),
    CloseWindow,
    CloseOtherWindows,
    Error(Seq<char>),
}

/// The action a command asks for.  Saving and quitting are actions for
/// the shell: `Write`, `WriteQuit` and `WriteAs` report what to save
/// rather than touching any file here.
pub enum CommandAction {
    NoOp,
    Quit,
    ForceQuit,
    Write,
    WriteQuit,
    WriteAs(String),
    Edit(String),
    SplitHorizontal(Option<String>),
    SplitVertical(Option<String>),
    CloseWindow,
    CloseOtherWindows,
    Error(String),
}

impl View for CommandAction {
    type V = CommandActionView;

    open spec fn view(&self) -> CommandActionView {
        match self {
            CommandAction::NoOp => CommandActionView::NoOp,
            CommandAction::Quit => CommandActionView::Quit,
            CommandAction::ForceQuit => CommandActionView::ForceQuit,
            CommandAction::Write => CommandActionView::Write,
            CommandAction::WriteQuit => CommandActionView::WriteQuit,
            CommandAction::WriteAs(p) => CommandActionView::WriteAs(p@),
            CommandAction::Edit(p) => CommandActionView::Edit(p@),
            CommandAction::SplitHorizontal(p) => CommandActionView::SplitHorizontal(
                match p {
                    Some(q) => Some(q@),
                    None => None,
                },
            ),
            CommandAction::SplitVertical(p) => CommandActionView::SplitVertical(
                match p {
                    Some(q) => Some(q@),
                    None => None,
                },
            ),
            CommandAction::CloseWindow => CommandActionView::CloseWindow,
            CommandAction::CloseOtherWindows => CommandActionView::CloseOtherWindows,
            CommandAction::Error(m) => CommandActionView::Error(m@),
        }
    }
}

/// The exact mapping from command text to action, after trimming: the
/// exact names first, then the forms that carry a file path, and an
/// error naming the command otherwise.
pub open spec fn parse_command_spec(s: Seq<char>) -> CommandActionView {
    let t = trim_spec(s);
    if t.len() == 0 {
        CommandActionView::NoOp
    } else if t == "q"@ || t == "quit"@ {
        CommandActionView::Quit
    } else if t == "q!"@ || t == "quit!"@ {
        CommandActionView::ForceQuit
    } else if t == "w"@ || t == "write"@ {
        CommandActionView::Write
    } else if t == "wq"@ || t == "x"@ {
        CommandActionView::WriteQuit
    } else if starts_with(t, "w "@) {
        CommandActionView::WriteAs(trim_spec(t.skip(2)))
    } else if starts_with(t, "e "@) {
        CommandActionView::Edit(trim_spec(t.skip(2)))
    } else if t == "split"@ || t == "sp"@ {
        CommandActionView::SplitHorizontal(None)
    } else if t == "vsplit"@ || t == "vs"@ {
        CommandActionView::SplitVertical(None)
    } else if t == "close"@ || t == "clo"@ {
        CommandActionView::CloseWindow
    } else if t == "only"@ || t == "on"@ {
        CommandActionView::CloseOtherWindows
    } else if starts_with(t, "split "@) || starts_with(t, "sp "@) {
        CommandActionView::SplitHorizontal(Some(second_token_spec(t)))
    } else if starts_with(t, "vsplit "@) || starts_with(t, "vs "@) {
        CommandActionView::SplitVertical(Some(second_token_spec(t)))
    } else {
        CommandActionView::Error("Unknown command: "@ + t)
    }
}

/// Parses one command into the action it asks for.
pub fn execute_command(cmd: &str) -> (r: CommandAction)
    ensures
        r@ == parse_command_spec(cmd@),
{
    let chars = str_to_chars(cmd);
    let t = trim_chars(&chars);

    if t.len() == 0 {
        CommandAction::NoOp
    } else if chars_eq_str(&t, "q") || chars_eq_str(&t, "quit") {
        CommandAction::Quit
    } else if chars_eq_str(&t, "q!") || chars_eq_str(&t, "quit!") {
        CommandAction::ForceQuit
    } else if chars_eq_str(&t, "w") || chars_eq_str(&t, "write") {
        CommandAction::Write
    } else if chars_eq_str(&t, "wq") || chars_eq_str(&t, "x") {
        CommandAction::WriteQuit
    } else if chars_starts_with_str(&t, "w ") {
        proof {
            reveal_strlit("w ");
        }
        let rest = copy_range(&t, 2, t.len());
        let path = trim_chars(&rest);
        proof {
            assert(rest@ =~= t@.skip(2));
        }
        CommandAction::WriteAs(chars_to_string(&path))
    } else if chars_starts_with_str(&t, "e ") {
        proof {
            reveal_strlit("e ");
        }
        let rest = copy_range(&t, 2, t.len());
        let path = trim_chars(&rest);
        proof {
            assert(rest@ =~= t@.skip(2));
        }
        CommandAction::Edit(chars_to_string(&path))
    } else if chars_eq_str(&t, "split") || chars_eq_str(&t, "sp") {
        CommandAction::SplitHorizontal(None)
    } else if chars_eq_str(&t, "vsplit") || chars_eq_str(&t, "vs") {
        CommandAction::SplitVertical(None)
    } else if chars_eq_str(&t, "close") || chars_eq_str(&t, "clo") {
        CommandAction::CloseWindow
    } else if chars_eq_str(&t, "only") || chars_eq_str(&t, "on") {
        CommandAction::CloseOtherWindows
    } else if chars_starts_with_str(&t, "split ") || chars_starts_with_str(&t, "sp ") {
        let token = second_token(&t);
        CommandAction::SplitHorizontal(Some(chars_to_string(&token)))
    } else if chars_starts_with_str(&t, "vsplit ") || chars_starts_with_str(&t, "vs ") {
        let token = second_token(&t);
        CommandAction::SplitVertical(Some(chars_to_string(&token)))
    } else {
        let mut message = str_to_chars("Unknown command: ");
        let ghost prefix = message@;
        let mut i: usize = 0;
        while i < t.len()
            invariant
                i <= t@.len(),
                message@ == prefix + t@.subrange(0, i as int),
            decreases t@.len() - i,
        {
            message.push(t[i]);
            proof {
                assert(message@ =~= prefix + t@.subrange(0, i as int + 1));
            }
            i += 1;
        }
        proof {
            assert(message@ =~= "Unknown command: "@ + t@);
        }
        CommandAction::Error(chars_to_string(&message))
    }
}

/// Whether the characters start with the given prefix.
fn chars_starts_with_str(v: &Vec<char>, p: &str) -> (r: bool)
    ensures
        r == starts_with(v@, p@),
{
    let n = p.unicode_len();
    if v.len() < n {
        return false;
    }
    let mut i: usize = 0;
    while i < n
        invariant
            i <= n,
            n == p@.len(),
            n <= v@.len(),
            forall|j: int| 0 <= j < i ==> v@[j] == p@[j],
        decreases n - i,
    {
        if v[i] != p.get_char(i) {
            proof {
                assert(v@.take(p@.len() as int)[i as int] == v@[i as int]);
            }
            return false;
        }
        i += 1;
    }
    proof {
        assert(v@.take(p@.len() as int) =~= p@);
    }
    true
}

/// Whitespace removed from both ends.
fn trim_chars(v: &Vec<char>) -> (r: Vec<char>)
    ensures
        r@ == trim_spec(v@),
{
    let mut start: usize = 0;
    proof {
        assert(v@.skip(0) =~= v@);
    }
    while start < v.len() && is_space(v[start])
        invariant
            start <= v@.len(),
            trim_start_spec(v@) == trim_start_spec(v@.skip(start as int)),
        decreases v@.len() - start,
    {
        proof {
            reveal_with_fuel(trim_start_spec, 2);
            assert(v@.skip(start as int).drop_first() =~= v@.skip(start as int + 1));
        }
        start += 1;
    }
    proof {
        reveal_with_fuel(trim_start_spec, 1);
        assert(trim_start_spec(v@) =~= v@.subrange(start as int, v@.len() as int));
    }
    let mut end: usize = v.len();
    while end > start && is_space(v[end - 1])
        invariant
            start <= end <= v@.len(),
            trim_start_spec(v@) == v@.subrange(start as int, v@.len() as int),
            trim_end_spec(v@.subrange(start as int, v@.len() as int))
                == trim_end_spec(v@.subrange(start as int, end as int)),
        decreases end,
    {
        proof {
            reveal_with_fuel(trim_end_spec, 2);
            assert(v@.subrange(start as int, end as int).drop_last()
                =~= v@.subrange(start as int, end as int - 1));
            assert(v@.subrange(start as int, end as int).last() == v@[end - 1]);
        }
        end -= 1;
    }
    proof {
        reveal_with_fuel(trim_end_spec, 1);
        if end > start {
            assert(v@.subrange(start as int, end as int).last() == v@[end - 1]);
        }
        assert(trim_end_spec(v@.subrange(start as int, end as int))
            =~= v@.subrange(start as int, end as int));
    }
    copy_range(v, start, end)
}

/// The second whitespace-separated word (empty when there is none).
fn second_token(v: &Vec<char>) -> (r: Vec<char>)
    ensures
        r@ == second_token_spec(v@),
{
    let ghost s = v@;
    let mut a: usize = 0;
    while a < v.len() && !is_space(v[a])
        invariant
            a <= s.len(),
            s == v@,
            skip_non_space(s, 0) == skip_non_space(s, a as int),
        decreases s.len() - a,
    {
        a += 1;
    }
    proof {
        assert(skip_non_space(s, a as int) == a);
    }
    let mut b: usize = a;
    while b < v.len() && is_space(v[b])
        invariant
            a <= b <= s.len(),
            s == v@,
            skip_space(s, skip_non_space(s, 0)) == skip_space(s, b as int),
        decreases s.len() - b,
    {
        b += 1;
    }
    proof {
        assert(skip_space(s, b as int) == b);
    }
    let mut c: usize = b;
    while c < v.len() && !is_space(v[c])
        invariant
            b <= c <= s.len(),
            s == v@,
            skip_non_space(s, b as int) == skip_non_space(s, c as int),
        decreases s.len() - c,
    {
        c += 1;
    }
    proof {
        assert(skip_non_space(s, c as int) == c);
    }
    copy_range(v, b, c)
}

/// What finishing a key press in command mode asks the caller to do.
pub enum CommandResult {
    Execute(String),
    Cancel,
}

/// The command line under construction.
pub struct CommandMode {
    input: Vec<char>,
}

impl View for CommandMode {
    type V = Seq<char>;

    closed spec fn view(&self) -> Seq<char> {
        self.input@
    }
}

impl CommandMode {
    pub fn new() -> (m: CommandMode)
        ensures
            m@.len() == 0,
    {
        CommandMode { input: Vec::new() }
    }

    /// Collects one key press: printable characters extend the line,
    /// backspace shortens it, enter hands the line out for execution and
    /// escape cancels.
    pub fn handle_key(&mut self, key: KeyInput) -> (r: Option<CommandResult>)
        ensures
            match key.code {
                Key::Esc => {
                    &&& final(self)@ == old(self)@
                    &&& r matches Some(CommandResult::Cancel)
                },
                Key::Enter => {
                    &&& final(self)@ == old(self)@
                    &&& (r matches Some(CommandResult::Execute(cmd)) && cmd@ == old(self)@)
                },
                Key::Char(c) => {
                    &&& final(self)@ == old(self)@.push(c)
                    &&& r is None
                },
                Key::Backspace => {
                    &&& final(self)@ == if old(self)@.len() > 0 {
                        old(self)@.drop_last()
                    } else {
                        old(self)@
                    }
                    &&& r is None
                },
                _ => {
                    &&& final(self)@ == old(self)@
                    &&& r is None
                },
            },
    {
        match key.code {
            Key::Esc => Some(CommandResult::Cancel),
            Key::Enter => Some(CommandResult::Execute(chars_to_string(&self.input))),
            Key::Char(c) => {
                self.input.push(c);
                None
            },
            Key::Backspace => {
                if self.input.len() > 0 {
                    let _last = self.input.pop();
                }
                None
            },
            _ => None,
        }
    }

    /// The line as typed so far.
    pub fn input(&self) -> (r: String)
        ensures
            r@ == self@,
    {
        chars_to_string(&self.input)
    }

    pub fn clear(&mut self)
        ensures
            final(self)@.len() == 0,
    {
        self.input = Vec::new();
    }
}

impl Default for CommandMode {
    fn default() -> (m: CommandMode)
        ensures
            m@.len() == 0,
    {
        CommandMode::new()
    }
}

} // verus!
