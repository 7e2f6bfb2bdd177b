//! The help text of the command line.

use crate::text::{pad_right, padded, widest};
use vstd::prelude::*;
use vstd::string::*;

verus! {

/// One line of help: what to type, and what it does.
#[derive(Debug, Clone, Copy)]
pub struct Help<'a> {
    pub text: &'a str,
    pub description: &'a str,
}

/// The commands, each with its description.
pub open spec fn command_table() -> Seq<(Seq<char>, Seq<char>)> {
    seq![
        ("exit"@, "Exit from the launcher"@),
        ("quit"@, "Exit from the launcher"@),
        ("list"@, "Show profiles, configs and statuses"@),
        ("set <profile> <mode>"@, "Set mode"@),
        ("shutdown"@, "Shutdown all firefoxes"@),
    ]
}

/// The modes, each with its description.
pub open spec fn mode_table() -> Seq<(Seq<char>, Seq<char>)> {
    seq![
        ("auto"@, "Auto mode"@),
        ("on"@, "Always on"@),
        ("off"@, "Always off"@),
        ("suspend"@, "Always suspend"@),
        ("asis"@, "Leave it as is"@),
    ]
}

/// A table as plain text: each entry's text and description.
pub open spec fn table_of(helps: Seq<Help>) -> Seq<(Seq<char>, Seq<char>)> {
    helps.map_values(|h: Help| (h.text@, h.description@))
}

/// A table set in two columns: every text padded to the widest text, two
/// spaces, every description padded to the widest description.
pub open spec fn columns(table: Seq<(Seq<char>, Seq<char>)>) -> Seq<Seq<char>> {
    table.map_values(
        |entry: (Seq<char>, Seq<char>)|
            padded(entry.0, widest(table.map_values(|e: (Seq<char>, Seq<char>)| e.0))) + "  "@
                + padded(entry.1, widest(table.map_values(|e: (Seq<char>, Seq<char>)| e.1))),
    )
}

/// The whole help text, line by line: the commands, an empty line, a
/// heading, and the modes.
pub open spec fn help_text() -> Seq<Seq<char>> {
    columns(command_table()) + seq![Seq::<char>::empty(), "modes"@, "----------------------"@]
        + columns(mode_table())
}

/// Sets a table of help lines in two columns.
pub fn print_help(helps: &Vec<Help>) -> (r: Vec<String>)
    ensures
        r.deep_view() == columns(table_of(helps@)),
{
    let ghost table = table_of(helps@);
    let ghost texts = table.map_values(|e: (Seq<char>, Seq<char>)| e.0);
    let ghost descriptions = table.map_values(|e: (Seq<char>, Seq<char>)| e.1);
    let mut text_width: usize = 0;
    let mut desc_width: usize = 0;
    let mut i: usize = 0;
    while i < helps.len()
        invariant
            i <= helps.len(),
            table == table_of(helps@),
            texts == table.map_values(|e: (Seq<char>, Seq<char>)| e.0),
            descriptions == table.map_values(|e: (Seq<char>, Seq<char>)| e.1),
            text_width == widest(texts.take(i as int)),
            desc_width == widest(descriptions.take(i as int)),
        decreases helps.len() - i,
    {
        proof {
            assert(texts.take(i + 1).drop_last() =~= texts.take(i as int));
            assert(descriptions.take(i + 1).drop_last() =~= descriptions.take(i as int));
            assert(texts.take(i + 1).last() == helps@[i as int].text@);
            assert(descriptions.take(i + 1).last() == helps@[i as int].description@);
        }
        let text_len: usize = helps[i].text.as_bytes().len();
        let desc_len: usize = helps[i].description.as_bytes().len();
        if text_len > text_width {
            text_width = text_len;
        }
        if desc_len > desc_width {
            desc_width = desc_len;
        }
        i = i + 1;
    }
    proof {
        assert(texts.take(i as int) =~= texts);
        assert(descriptions.take(i as int) =~= descriptions);
    }
    let mut lines: Vec<String> = Vec::new();
    let mut k: usize = 0;
    while k < helps.len()
        invariant
            k <= helps.len(),
            table == table_of(helps@),
            texts == table.map_values(|e: (Seq<char>, Seq<char>)| e.0),
            descriptions == table.map_values(|e: (Seq<char>, Seq<char>)| e.1),
            text_width == widest(texts),
            desc_width == widest(descriptions),
            lines.deep_view() == columns(table).take(k as int),
        decreases helps.len() - k,
    {
        let ghost before = lines.deep_view();
        let mut line = pad_right(helps[k].text, text_width);
        line.append("  ");
        let tail = pad_right(helps[k].description, desc_width);
        line.append(tail.as_str());
        lines.push(line);
        proof {
            assert(columns(table)[k as int] == line@);
            assert(lines.deep_view() =~= before.push(line@));
            assert(columns(table).take(k + 1) =~= columns(table).take(k as int).push(line@));
        }
        k = k + 1;
    }
    proof {
        assert(columns(table).take(k as int) =~= columns(table));
    }
    lines
}

/// The help text, line by line.
pub fn help() -> (r: Vec<String>)
    ensures
        r.deep_view() == help_text(),
{
    let mut commands: Vec<Help> = Vec::new();
    commands.push(Help { text: "exit", description: "Exit from the launcher" });
    commands.push(Help { text: "quit", description: "Exit from the launcher" });
    commands.push(Help { text: "list", description: "Show profiles, configs and statuses" });
    commands.push(Help { text: "set <profile> <mode>", description: "Set mode" });
    commands.push(Help { text: "shutdown", description: "Shutdown all firefoxes" });
    let mut modes: Vec<Help> = Vec::new();
    modes.push(Help { text: "auto", description: "Auto mode" });
    modes.push(Help { text: "on", description: "Always on" });
    modes.push(Help { text: "off", description: "Always off" });
    modes.push(Help { text: "suspend", description: "Always suspend" });
    modes.push(Help { text: "asis", description: "Leave it as is" });
    proof {
        assert(table_of(commands@) =~= command_table());
        assert(table_of(modes@) =~= mode_table());
    }
    let mut lines = print_help(&commands);
    let ghost first = lines.deep_view();
    lines.push(String::new());
    lines.push(String::from_str("modes"));
    lines.push(String::from_str("----------------------"));
    let ghost middle = lines.deep_view();
    proof {
        assert(middle =~= first + seq![
            Seq::<char>::empty(),
            "modes"@,
            "----------------------"@,
        ]);
    }
    let mut rest = print_help(&modes);
    let ghost last = rest.deep_view();
    lines.append(&mut rest);
    proof {
        assert(lines.deep_view() =~= middle + last);
    }
    lines
}

} // verus!
