//! The commands of the launcher, and the one decision of its loop.
//!
//! A line of input becomes a [`Command`]; a command is carried out on the
//! table of instances and answered with a [`Reply`], which tells the caller
//! what is left for it to do: print, reconcile, or leave.

use crate::firefox::{mode_label, mode_of_text, state_label, FirefoxView, Mode};
use crate::fleet::{all_wf, place, sorted, Fleet};
use crate::help::{help, help_text};
use crate::text::{
    lemma_name_order, name_before, pad_right, padded, same_text, split_whitespace, widest, words,
};
use vstd::prelude::*;
use vstd::string::*;

verus! {

/// A command, as read from a line of input.
#[derive(Debug, Clone, PartialEq, Eq)]
pub enum Command {
    /// `set <profile> <mode>`: want another mode of a profile.
    SetMode { name: String, mode: String },
    /// `list`: show every profile with its mode and state.
    List,
    /// `shutdown`: want every profile off.
    Shutdown,
    /// `exit` or `quit`: leave.
    Exit,
    /// `help`: show the help text.
    Help,
    /// Anything else; holds the line.
    Unknown(String),
}

/// A command as plain text.
pub enum CommandView {
    SetMode { name: Seq<char>, mode: Seq<char> },
    List,
    Shutdown,
    Exit,
    Help,
    Unknown(Seq<char>),
}

impl View for Command {
    type V = CommandView;

    open spec fn view(&self) -> CommandView {
        match *self {
            Command::SetMode { name, mode } => CommandView::SetMode { name: name@, mode: mode@ },
            Command::List => CommandView::List,
            Command::Shutdown => CommandView::Shutdown,
            Command::Exit => CommandView::Exit,
            Command::Help => CommandView::Help,
            Command::Unknown(line) => CommandView::Unknown(line@),
        }
    }
}

/// What the caller is to do after a command.
#[derive(Debug, Clone, PartialEq, Eq)]
pub enum Reply {
    /// Observe afresh and reconcile the instance at this place of the table.
    Reconcile(usize),
    /// Observe afresh and reconcile every instance.
    ReconcileAll,
    /// Leave.
    Exit,
    /// Print these lines.
    Say(Vec<String>),
}

/// A reply as plain text.
pub enum ReplyView {
    Reconcile(usize),
    ReconcileAll,
    Exit,
    Say(Seq<Seq<char>>),
}

impl View for Reply {
    type V = ReplyView;

    open spec fn view(&self) -> ReplyView {
        match *self {
            Reply::Reconcile(i) => ReplyView::Reconcile(i),
            Reply::ReconcileAll => ReplyView::ReconcileAll,
            Reply::Exit => ReplyView::Exit,
            Reply::Say(lines) => ReplyView::Say(lines.deep_view()),
        }
    }
}

/// The command that the words of a line spell. `line` is kept for the case
/// that they spell none.
pub open spec fn command_of(words: Seq<Seq<char>>, line: Seq<char>) -> CommandView {
    if words.len() == 3 && words[0] == "set"@ {
        CommandView::SetMode { name: words[1], mode: words[2] }
    } else if words.len() == 1 && words[0] == "list"@ {
        CommandView::List
    } else if words.len() == 1 && words[0] == "shutdown"@ {
        CommandView::Shutdown
    } else if words.len() == 1 && (words[0] == "exit"@ || words[0] == "quit"@) {
        CommandView::Exit
    } else if words.len() == 1 && words[0] == "help"@ {
        CommandView::Help
    } else {
        CommandView::Unknown(line)
    }
}

/// One line of the listing: the name in a column of `width`, five spaces,
/// the mode in a column of six, two spaces, the state.
pub open spec fn row(v: FirefoxView, width: nat) -> Seq<char> {
    padded(v.name, width) + "     "@ + padded(mode_label(v.mode), 6) + "  "@ + state_label(v.state)
}

/// The listing of a table: an empty line, then one line per instance in the
/// order of the table, the names padded to the widest of them.
pub open spec fn listing(s: Seq<FirefoxView>) -> Seq<Seq<char>> {
    seq![Seq::<char>::empty()] + s.map_values(
        |v: FirefoxView| row(v, widest(s.map_values(|x: FirefoxView| x.name))),
    )
}

/// The listing shows every instance of the table once, in the order of the
/// table: after the empty line, line `i` is the row of instance `i`. In an
/// ordered table that is the order of the names, and no name comes twice.
pub proof fn lemma_listing(s: Seq<FirefoxView>)
    requires
        sorted(s),
    ensures
        listing(s).len() == s.len() + 1,
        listing(s)[0] == Seq::<char>::empty(),
        forall|i: int|
            0 <= i < s.len() ==> #[trigger] listing(s)[i + 1] == row(
                s[i],
                widest(s.map_values(|x: FirefoxView| x.name)),
            ),
        forall|i: int, j: int|
            0 <= i < j < s.len() ==> name_before((#[trigger] s[i]).name, (#[trigger] s[j]).name)
                && s[i].name != s[j].name,
{
    assert forall|i: int, j: int| 0 <= i < j < s.len() implies name_before(
        (#[trigger] s[i]).name,
        (#[trigger] s[j]).name,
    ) && s[i].name != s[j].name by {
        lemma_name_order(s[i].name, s[j].name, s[j].name);
    }
}

/// The table with every instance wanted off.
pub open spec fn all_off(s: Seq<FirefoxView>) -> Seq<FirefoxView> {
    s.map_values(|v: FirefoxView| FirefoxView { mode: Mode::Off, ..v })
}

/// What a command does to the table, and the reply to it.
///
/// `set` changes the mode of the named instance and asks for it to be
/// reconciled; it changes nothing and says why where no instance has the
/// name or, the name being known, the mode is none. `shutdown` wants every
/// instance off and asks for all to be reconciled. The other commands leave
/// the table as it is.
pub open spec fn executed(command: CommandView, s: Seq<FirefoxView>) -> (
    ReplyView,
    Seq<FirefoxView>,
) {
    match command {
        CommandView::SetMode { name, mode } => match place(s, name) {
            Some(i) => match mode_of_text(mode) {
                Some(m) => (
                    ReplyView::Reconcile(i as usize),
                    s.update(i, FirefoxView { mode: m, ..s[i] }),
                ),
                None => (ReplyView::Say(seq!["No such mode "@ + mode]), s),
            },
            None => (ReplyView::Say(seq!["No profile name "@ + name + " found"@]), s),
        },
        CommandView::List => (ReplyView::Say(listing(s)), s),
        CommandView::Shutdown => (ReplyView::ReconcileAll, all_off(s)),
        CommandView::Exit => (ReplyView::Exit, s),
        CommandView::Help => (ReplyView::Say(help_text()), s),
        CommandView::Unknown(_) => (ReplyView::Say(seq!["Unknown command"@]), s),
    }
}

/// Tells which command the words of a line spell.
pub fn command_from_words(words: &Vec<String>, line: &str) -> (r: Command)
    ensures
        r@ == command_of(words.deep_view(), line@),
{
    proof {
        assert(words.deep_view().len() == words@.len());
    }
    if words.len() == 3 && same_text(words[0].as_str(), "set") {
        assert(words.deep_view()[1] == words@[1]@);
        assert(words.deep_view()[2] == words@[2]@);
        return Command::SetMode { name: words[1].clone(), mode: words[2].clone() };
    }
    if words.len() == 1 {
        let word = words[0].as_str();
        assert(words.deep_view()[0] == word@);
        if same_text(word, "list") {
            return Command::List;
        }
        if same_text(word, "shutdown") {
            return Command::Shutdown;
        }
        if same_text(word, "exit") || same_text(word, "quit") {
            return Command::Exit;
        }
        if same_text(word, "help") {
            return Command::Help;
        }
    }
    Command::Unknown(String::from_str(line))
}

/// Reads a command from a line of input.
pub fn parse_command(line: &str) -> (r: Command)
    ensures
        r@ == command_of(words(line@), line@),
{
    let words = split_whitespace(line);
    command_from_words(&words, line)
}

/// The lines that show every instance with its mode and state.
pub fn list(firefoxes: &Fleet) -> (r: Vec<String>)
    ensures
        r.deep_view() == listing(firefoxes@),
{
    let ghost s = firefoxes@;
    let ghost names = s.map_values(|x: FirefoxView| x.name);
    let n: usize = firefoxes.len();
    let mut width: usize = 0;
    let mut i: usize = 0;
    while i < n
        invariant
            i <= n,
            n == s.len(),
            s == firefoxes@,
            names == s.map_values(|x: FirefoxView| x.name),
            width == widest(names.take(i as int)),
        decreases n - i,
    {
        proof {
            assert(names.take(i + 1).drop_last() =~= names.take(i as int));
            assert(names.take(i + 1).last() == s[i as int].name);
        }
        if let Some(firefox) = firefoxes.get(i) {
            let name_len: usize = firefox.name().as_bytes().len();
            if name_len > width {
                width = name_len;
            }
        }
        i = i + 1;
    }
    proof {
        assert(names.take(i as int) =~= names);
    }
    let ghost rows = s.map_values(|v: FirefoxView| row(v, widest(names)));
    let mut lines: Vec<String> = Vec::new();
    lines.push(String::new());
    proof {
        assert(lines.deep_view() =~= seq![Seq::<char>::empty()] + rows.take(0));
    }
    let mut k: usize = 0;
    while k < n
        invariant
            k <= n,
            n == s.len(),
            s == firefoxes@,
            names == s.map_values(|x: FirefoxView| x.name),
            rows == s.map_values(|v: FirefoxView| row(v, widest(names))),
            width == widest(names),
            lines.deep_view() == seq![Seq::<char>::empty()] + rows.take(k as int),
        decreases n - k,
    {
        let ghost before = lines.deep_view();
        if let Some(firefox) = firefoxes.get(k) {
            let mut line = pad_right(firefox.name(), width);
            line.append("     ");
            let mode = pad_right(firefox.mode().label(), 6);
            line.append(mode.as_str());
            line.append("  ");
            line.append(firefox.state().label());
            lines.push(line);
            proof {
                assert(rows[k as int] == line@);
                assert(lines.deep_view() =~= before.push(line@));
                assert(seq![Seq::<char>::empty()] + rows.take(k + 1) =~= (seq![
                    Seq::<char>::empty(),
                ] + rows.take(k as int)).push(line@));
            }
        }
        k = k + 1;
    }
    proof {
        assert(rows.take(k as int) =~= rows);
    }
    lines
}

/// Wants every instance of the table off.
pub fn shutdown(firefoxes: &mut Fleet)
    ensures
        final(firefoxes)@ == all_off(old(firefoxes)@),
        sorted(final(firefoxes)@),
        all_wf(final(firefoxes)@),
{
    let ghost before = firefoxes@;
    let n: usize = firefoxes.len();
    let mut i: usize = 0;
    while i < n
        invariant
            i <= n,
            n == before.len(),
            firefoxes@.len() == n,
            sorted(firefoxes@),
            all_wf(firefoxes@),
            forall|k: int| 0 <= k < i ==> #[trigger] firefoxes@[k] == all_off(before)[k],
            forall|k: int| i <= k < n ==> #[trigger] firefoxes@[k] == before[k],
        decreases n - i,
    {
        firefoxes.set_mode_at(i, Mode::Off);
        i = i + 1;
    }
    proof {
        assert(firefoxes@ =~= all_off(before));
    }
}

/// Carries out a command on the table of instances.
pub fn execute(command: &Command, firefoxes: &mut Fleet) -> (r: Reply)
    ensures
        (r@, final(firefoxes)@) == executed(command@, old(firefoxes)@),
        sorted(final(firefoxes)@),
        all_wf(final(firefoxes)@),
{
    proof {
        use_type_invariant(&*firefoxes);
    }
    match command {
        Command::SetMode { name, mode } => {
            match firefoxes.position(name.as_str()) {
                Some(i) => {
                    match Mode::from_str(mode.as_str()) {
                        Some(m) => {
                            firefoxes.set_mode_at(i, m);
                            Reply::Reconcile(i)
                        },
                        None => {
                            let mut message = String::from_str("No such mode ");
                            message.append(mode.as_str());
                            let mut lines: Vec<String> = Vec::new();
                            lines.push(message);
                            assert(lines.deep_view() =~= seq!["No such mode "@ + mode@]);
                            Reply::Say(lines)
                        },
                    }
                },
                None => {
                    let mut message = String::from_str("No profile name ");
                    message.append(name.as_str());
                    message.append(" found");
                    let mut lines: Vec<String> = Vec::new();
                    lines.push(message);
                    assert(lines.deep_view() =~= seq!["No profile name "@ + name@ + " found"@]);
                    Reply::Say(lines)
                },
            }
        },
        Command::List => Reply::Say(list(firefoxes)),
        Command::Shutdown => {
            shutdown(firefoxes);
            Reply::ReconcileAll
        },
        Command::Exit => Reply::Exit,
        Command::Help => Reply::Say(help()),
        Command::Unknown(_) => {
            let mut lines: Vec<String> = Vec::new();
            lines.push(String::from_str("Unknown command"));
            assert(lines.deep_view() =~= seq!["Unknown command"@]);
            Reply::Say(lines)
        },
    }
}

/// Reads a command from a line of input and carries it out on the table of instances.
pub fn cmd_exec(cmd: &str, firefoxes: &mut Fleet) -> (r: Reply)
    ensures
        (r@, final(firefoxes)@) == executed(command_of(words(cmd@), cmd@), old(firefoxes)@),
        sorted(final(firefoxes)@),
        all_wf(final(firefoxes)@),
{
    let command = parse_command(cmd);
    execute(&command, firefoxes)
}

/// The decision of one turn of the loop: the instances are observed and
/// reconciled on every turn, whether the focus has moved or not, so that a
/// browser that vanished or woke up is seen within one turn. The focus seen
/// now is remembered for the next turn.
pub fn run(prev_top_pid: &mut Option<i32>, top_pid: Option<i32>) -> (reconcile: bool)
    ensures
        reconcile,
        *final(prev_top_pid) == top_pid,
{
    *prev_top_pid = top_pid;
    true
}

} // verus!
