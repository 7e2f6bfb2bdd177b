use firefox_launcher::config::Config;
use firefox_launcher::firefox::{Action, Mode, Profile, State};
use firefox_launcher::fleet::{firefoxes, Fleet};
use firefox_launcher::help::help;
use firefox_launcher::launcher::{
    cmd_exec, command_from_words, execute, list, parse_command, run, shutdown, Command, Reply,
};
use firefox_launcher::probe::ProcessFacts;
use firefox_launcher::xwindow::XWindow;
use std::collections::HashMap;

fn profile(name: &str) -> Profile {
    Profile { name: name.to_string(), path: format!("dir.{}", name), is_relative: true }
}

fn fleet_of(entries: &[(&str, Mode)]) -> Fleet {
    let profiles = entries.iter().map(|(n, _)| profile(n)).collect();
    let configs = entries.iter().map(|(n, m)| Config { name: n.to_string(), mode: *m }).collect();
    firefoxes(profiles, &configs, "/home/u")
}

fn modes(fleet: &Fleet) -> Vec<Mode> {
    (0..fleet.len()).map(|i| fleet.get(i).unwrap().mode()).collect()
}

/// Ticks with every process leading a group of its own.
fn tick_at(
    fleet: &mut Fleet,
    i: usize,
    pid: Option<i32>,
    facts: &Option<ProcessFacts>,
    xwin: &XWindow,
) -> Option<Action> {
    fleet.tick_at(i, pid, facts, pid, xwin.top_pid, xwin)
}

fn running(name: &str, uptime: u64, letter: char) -> Option<ProcessFacts> {
    Some(ProcessFacts {
        alive: true,
        cmdline: Some(vec!["/usr/bin/firefox".to_string(), "-P".to_string(), name.to_string()]),
        starttime: 0,
        ticks_per_second: 100,
        now: 1_000 + uptime,
        boot_time: Some(1_000),
        stat_state: Some(letter),
    })
}

fn set(name: &str, mode: &str) -> Command {
    Command::SetMode { name: name.to_string(), mode: mode.to_string() }
}

fn say(line: &str) -> Reply {
    Reply::Say(vec![line.to_string()])
}

fn words(list: &[&str]) -> Vec<String> {
    list.iter().map(|w| w.to_string()).collect()
}

#[test]
fn parse_reads_each_command() {
    assert_eq!(parse_command("set work off"), set("work", "off"));
    assert_eq!(parse_command("list"), Command::List);
    assert_eq!(parse_command("shutdown"), Command::Shutdown);
    assert_eq!(parse_command("exit"), Command::Exit);
    assert_eq!(parse_command("quit"), Command::Exit);
    assert_eq!(parse_command("help"), Command::Help);
}

#[test]
fn parse_passes_over_white_space() {
    assert_eq!(parse_command("  set\twork   off \n"), set("work", "off"));
    assert_eq!(parse_command(" list "), Command::List);
    assert_eq!(parse_command("\texit\r\n"), Command::Exit);
    assert_eq!(parse_command("set\u{a0}work\u{3000}auto"), set("work", "auto"));
}

#[test]
fn parse_keeps_the_words_of_set_as_written() {
    assert_eq!(parse_command("set Work OFF"), set("Work", "OFF"));
    assert_eq!(parse_command("set set set"), set("set", "set"));
    assert_eq!(parse_command("set é \u{1f600}"), set("é", "\u{1f600}"));
}

#[test]
fn parse_keeps_the_line_of_an_unknown_command() {
    for line in [
        "", "   ", "set", "set work", "set work off now", "list all", "Exit", "LIST", "bye",
        "shutdown now", "exit exit", "help me", "sett work off", "setwork off x",
    ] {
        assert_eq!(parse_command(line), Command::Unknown(line.to_string()), "{:?}", line);
    }
}

#[test]
fn command_from_words_goes_by_the_words_alone() {
    assert_eq!(command_from_words(&words(&["set", "a", "b"]), "whatever"), set("a", "b"));
    assert_eq!(command_from_words(&words(&["list"]), ""), Command::List);
    assert_eq!(command_from_words(&words(&["quit"]), ""), Command::Exit);
    assert_eq!(command_from_words(&words(&[]), "x"), Command::Unknown("x".to_string()));
    assert_eq!(command_from_words(&words(&["list", "x"]), "y"), Command::Unknown("y".to_string()));
    assert_eq!(command_from_words(&words(&["set", "a"]), "z"), Command::Unknown("z".to_string()));
}

#[test]
fn set_changes_the_mode_and_asks_to_reconcile() {
    let mut fleet = fleet_of(&[("work", Mode::Auto), ("home", Mode::On)]);
    assert_eq!(cmd_exec("set work off", &mut fleet), Reply::Reconcile(1));
    assert_eq!(modes(&fleet), vec![Mode::On, Mode::Off]);
    assert_eq!(cmd_exec("set home suspend", &mut fleet), Reply::Reconcile(0));
    assert_eq!(modes(&fleet), vec![Mode::Suspend, Mode::Off]);
    assert_eq!(cmd_exec("set home asis", &mut fleet), Reply::Reconcile(0));
    assert_eq!(cmd_exec("set work auto", &mut fleet), Reply::Reconcile(1));
    assert_eq!(cmd_exec("set work on", &mut fleet), Reply::Reconcile(1));
    assert_eq!(modes(&fleet), vec![Mode::AsIs, Mode::On]);
}

#[test]
fn set_of_an_unknown_profile_changes_nothing() {
    let mut fleet = fleet_of(&[("work", Mode::Auto)]);
    assert_eq!(cmd_exec("set play off", &mut fleet), say("No profile name play found"));
    assert_eq!(cmd_exec("set play nonsense", &mut fleet), say("No profile name play found"));
    assert_eq!(cmd_exec("set Work off", &mut fleet), say("No profile name Work found"));
    assert_eq!(modes(&fleet), vec![Mode::Auto]);
}

#[test]
fn set_of_an_unknown_mode_changes_nothing() {
    let mut fleet = fleet_of(&[("work", Mode::Auto)]);
    assert_eq!(cmd_exec("set work maybe", &mut fleet), say("No such mode maybe"));
    assert_eq!(cmd_exec("set work Off", &mut fleet), say("No such mode Off"));
    assert_eq!(cmd_exec("set work none", &mut fleet), say("No such mode none"));
    assert_eq!(modes(&fleet), vec![Mode::Auto]);
}

#[test]
fn unknown_command_is_answered_and_changes_nothing() {
    let mut fleet = fleet_of(&[("work", Mode::Auto)]);
    assert_eq!(cmd_exec("dance", &mut fleet), say("Unknown command"));
    assert_eq!(cmd_exec("", &mut fleet), say("Unknown command"));
    assert_eq!(cmd_exec("set work", &mut fleet), say("Unknown command"));
    assert_eq!(modes(&fleet), vec![Mode::Auto]);
}

#[test]
fn exit_and_quit_ask_to_leave() {
    let mut fleet = fleet_of(&[("work", Mode::Auto)]);
    assert_eq!(cmd_exec("exit", &mut fleet), Reply::Exit);
    assert_eq!(cmd_exec(" quit ", &mut fleet), Reply::Exit);
    assert_eq!(modes(&fleet), vec![Mode::Auto]);
}

#[test]
fn help_command_answers_with_the_help_text() {
    let mut fleet = fleet_of(&[]);
    assert_eq!(cmd_exec("help", &mut fleet), Reply::Say(help()));
}

#[test]
fn shutdown_wants_every_instance_off() {
    let mut fleet = fleet_of(&[("a", Mode::Auto), ("b", Mode::On), ("c", Mode::AsIs), ("d", Mode::Off)]);
    assert_eq!(cmd_exec("shutdown", &mut fleet), Reply::ReconcileAll);
    assert_eq!(modes(&fleet), vec![Mode::Off; 4]);
    let mut empty = fleet_of(&[]);
    assert_eq!(cmd_exec("shutdown", &mut empty), Reply::ReconcileAll);
    let mut other = fleet_of(&[("a", Mode::Suspend)]);
    shutdown(&mut other);
    assert_eq!(modes(&other), vec![Mode::Off]);
}

#[test]
fn execute_carries_out_a_parsed_command() {
    let mut fleet = fleet_of(&[("work", Mode::Auto)]);
    assert_eq!(execute(&set("work", "on"), &mut fleet), Reply::Reconcile(0));
    assert_eq!(execute(&Command::Unknown("list".to_string()), &mut fleet), say("Unknown command"));
    assert_eq!(execute(&Command::Exit, &mut fleet), Reply::Exit);
    assert_eq!(execute(&Command::List, &mut fleet), Reply::Say(list(&fleet)));
}

#[test]
fn set_off_while_suspended_resumes_then_closes() {
    let mut fleet = fleet_of(&[("home", Mode::On), ("work", Mode::Suspend)]);
    let xwin = XWindow { windows: HashMap::new(), top_pid: None };
    assert_eq!(
        tick_at(&mut fleet, 1, Some(4242), &running("work", 900, 'T'), &xwin),
        Some(Action::Nothing)
    );
    assert_eq!(fleet.get(1).unwrap().state(), State::Suspended);
    let reply = cmd_exec("set work off", &mut fleet);
    assert_eq!(reply, Reply::Reconcile(1));
    let action = tick_at(&mut fleet, 1, Some(4242), &running("work", 901, 'T'), &xwin);
    assert_eq!(action, Some(Action::ResumeThenClose));
    assert_eq!(fleet.get(1).unwrap().state(), State::ShuttingDown);
    assert_eq!(fleet.get(1).unwrap().pid(), Some(4242));
    assert_eq!(fleet.get(1).unwrap().resume().unwrap().target, -4242);
    assert_eq!(fleet.get(0).unwrap().state(), State::Down);
}

#[test]
fn list_shows_each_profile_once_in_name_order() {
    let mut fleet = fleet_of(&[("work", Mode::Auto), ("personal", Mode::Off), ("dev", Mode::AsIs)]);
    let xwin = XWindow { windows: HashMap::new(), top_pid: None };
    tick_at(&mut fleet, 2, Some(50), &running("work", 1000, 'S'), &xwin);
    let lines = match cmd_exec("list", &mut fleet) {
        Reply::Say(lines) => lines,
        other => panic!("{:?}", other),
    };
    assert_eq!(
        lines,
        vec![
            "",
            "dev          AsIs    Down",
            "personal     Off     Down",
            "work         Auto    Suspended",
        ]
    );
}

#[test]
fn list_pads_names_and_modes_as_the_formatter_does() {
    let entries = [("b", Mode::Suspend), ("a-long-name", Mode::On), ("é", Mode::Auto), ("", Mode::AsIs)];
    let fleet = fleet_of(&entries);
    let width = "a-long-name".len();
    let mut expected = vec![String::new()];
    for i in 0..fleet.len() {
        let f = fleet.get(i).unwrap();
        expected.push(format!(
            "{:<w$}     {:<6}  {}",
            f.name(),
            f.mode().label(),
            f.state().label(),
            w = width
        ));
    }
    assert_eq!(list(&fleet), expected);
    assert_eq!(list(&fleet)[4], "é               Auto    Down");
}

#[test]
fn list_measures_the_widest_name_in_bytes() {
    let fleet = fleet_of(&[("éé", Mode::On), ("abc", Mode::On)]);
    assert_eq!(list(&fleet), vec!["", "abc      On      Down", "éé       On      Down"]);
}

#[test]
fn list_of_no_instances_is_an_empty_line() {
    assert_eq!(list(&fleet_of(&[])), vec![""]);
}

#[test]
fn run_reconciles_on_every_turn() {
    let mut prev = None;
    assert!(run(&mut prev, None));
    assert_eq!(prev, None);
    assert!(run(&mut prev, Some(7)));
    assert_eq!(prev, Some(7));
    assert!(run(&mut prev, Some(7)));
    assert_eq!(prev, Some(7));
    assert!(run(&mut prev, Some(8)));
    assert_eq!(prev, Some(8));
    assert!(run(&mut prev, None));
    assert_eq!(prev, None);
}

#[test]
fn a_browser_that_vanished_is_launched_again_though_the_focus_stayed() {
    let mut fleet = fleet_of(&[("work", Mode::Auto)]);
    let xwin = XWindow { windows: HashMap::new(), top_pid: Some(4242) };
    let mut prev = Some(4242);
    assert!(run(&mut prev, Some(4242)));
    assert_eq!(
        fleet.tick_at(0, Some(4242), &running("work", 900, 'S'), Some(4242), Some(4242), &xwin),
        Some(Action::Nothing)
    );
    assert_eq!(fleet.get(0).unwrap().state(), State::Warmed);
    assert!(run(&mut prev, Some(4242)));
    assert_eq!(
        fleet.tick_at(0, Some(4242), &None, None, Some(4242), &xwin),
        Some(Action::Launch)
    );
    assert_eq!(fleet.get(0).unwrap().state(), State::StartingUp);
    assert_eq!(fleet.get(0).unwrap().pid(), None);
    assert_eq!(
        fleet.get(0).unwrap().launch(),
        vec!["setsid", "-f", "firefox", "--no-remote", "-P", "work"]
    );
}
