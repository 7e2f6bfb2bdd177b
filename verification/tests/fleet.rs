use firefox_launcher::config::{mode_for, Config};
use firefox_launcher::firefox::{Action, Firefox, Mode, Profile, State};
use firefox_launcher::fleet::{firefoxes, Fleet};
use firefox_launcher::probe::ProcessFacts;
use firefox_launcher::xwindow::XWindow;
use std::collections::HashMap;

fn profile(name: &str) -> Profile {
    Profile { name: name.to_string(), path: format!("dir.{}", name), is_relative: true }
}

fn config(name: &str, mode: Mode) -> Config {
    Config { name: name.to_string(), mode }
}

fn names(fleet: &Fleet) -> Vec<String> {
    (0..fleet.len()).map(|i| fleet.get(i).unwrap().name().to_string()).collect()
}

/// Ticks with every process leading a group of its own.
fn tick_at(
    fleet: &mut Fleet,
    i: usize,
    pid: Option<i32>,
    facts: &Option<ProcessFacts>,
    xwin: &XWindow,
) -> Option<Action> {
    fleet.tick_at(i, pid, facts, pid, xwin.top_pid, xwin)
}

fn running(name: &str, uptime: u64, letter: char) -> Option<ProcessFacts> {
    Some(ProcessFacts {
        alive: true,
        cmdline: Some(vec!["/usr/bin/firefox".to_string(), "-P".to_string(), name.to_string()]),
        starttime: 0,
        ticks_per_second: 100,
        now: 1_000 + uptime,
        boot_time: Some(1_000),
        stat_state: Some(letter),
    })
}

#[test]
fn mode_for_finds_the_first_record_of_a_name() {
    let configs = vec![config("work", Mode::Auto), config("home", Mode::Off), config("work", Mode::On)];
    assert_eq!(mode_for(&configs, "work"), Mode::Auto);
    assert_eq!(mode_for(&configs, "home"), Mode::Off);
}

#[test]
fn mode_for_defaults_to_asis() {
    let configs = vec![config("work", Mode::Auto)];
    assert_eq!(mode_for(&configs, "home"), Mode::AsIs);
    assert_eq!(mode_for(&configs, "Work"), Mode::AsIs);
    assert_eq!(mode_for(&configs, ""), Mode::AsIs);
    assert_eq!(mode_for(&vec![], "work"), Mode::AsIs);
}

#[test]
fn mode_for_reads_unspecified_as_asis() {
    let configs = vec![config("work", Mode::Unspecified), config("work", Mode::On)];
    assert_eq!(mode_for(&configs, "work"), Mode::AsIs);
}

#[test]
fn new_fleet_is_empty() {
    let fleet = Fleet::new();
    assert_eq!(fleet.len(), 0);
    assert_eq!(fleet.position("work"), None);
}

#[test]
fn firefoxes_builds_one_instance_per_profile_in_name_order() {
    let profiles = vec![profile("work"), profile("home"), profile("zoo"), profile("alpha")];
    let configs = vec![config("home", Mode::Off), config("work", Mode::Auto)];
    let fleet = firefoxes(profiles, &configs, "/home/u");
    assert_eq!(names(&fleet), vec!["alpha", "home", "work", "zoo"]);
    let modes: Vec<Mode> = (0..fleet.len()).map(|i| fleet.get(i).unwrap().mode()).collect();
    assert_eq!(modes, vec![Mode::AsIs, Mode::Off, Mode::Auto, Mode::AsIs]);
    for i in 0..fleet.len() {
        let f = fleet.get(i).unwrap();
        assert_eq!(f.state(), State::Down);
        assert_eq!(f.pid(), None);
        assert!(!f.is_top());
        assert_eq!(f.pidlink(), format!("/home/u/.mozilla/firefox/dir.{}/lock", f.name()));
    }
}

#[test]
fn firefoxes_keeps_the_later_of_two_profiles_with_one_name() {
    let mut second = profile("work");
    second.path = "/elsewhere".to_string();
    second.is_relative = false;
    let fleet = firefoxes(vec![profile("work"), profile("home"), second], &vec![], "/home/u");
    assert_eq!(names(&fleet), vec!["home", "work"]);
    assert_eq!(fleet.get(1).unwrap().pidlink(), "/elsewhere/lock");
}

#[test]
fn firefoxes_of_no_profiles_is_empty() {
    assert_eq!(firefoxes(vec![], &vec![config("work", Mode::On)], "/home/u").len(), 0);
}

#[test]
fn fleet_orders_names_as_strings_are_ordered() {
    let given = ["b", "a", "B", "ab", "", "aa", "é", "z", "a b", "a-b", "10", "9", "\u{1f600}", "zz"];
    let fleet = firefoxes(given.iter().map(|n| profile(n)).collect(), &vec![], "/h");
    let mut expected: Vec<String> = given.iter().map(|n| n.to_string()).collect();
    expected.sort();
    assert_eq!(names(&fleet), expected);
}

#[test]
fn insert_replaces_the_instance_of_the_same_name() {
    let mut fleet = Fleet::new();
    fleet.insert(Firefox::new(profile("work"), Mode::Auto, "/h"));
    fleet.insert(Firefox::new(profile("home"), Mode::On, "/h"));
    fleet.insert(Firefox::new(profile("work"), Mode::Off, "/h"));
    assert_eq!(names(&fleet), vec!["home", "work"]);
    assert_eq!(fleet.get(1).unwrap().mode(), Mode::Off);
}

#[test]
fn position_finds_each_name() {
    let fleet = firefoxes(vec![profile("work"), profile("home"), profile("zoo")], &vec![], "/h");
    assert_eq!(fleet.position("home"), Some(0));
    assert_eq!(fleet.position("work"), Some(1));
    assert_eq!(fleet.position("zoo"), Some(2));
    assert_eq!(fleet.position("wor"), None);
    assert_eq!(fleet.position("works"), None);
    assert_eq!(fleet.position(""), None);
    assert_eq!(fleet.position("aaa"), None);
    assert_eq!(fleet.position("zzz"), None);
}

#[test]
fn set_mode_at_changes_one_instance() {
    let mut fleet = firefoxes(vec![profile("a"), profile("b"), profile("c")], &vec![], "/h");
    assert!(fleet.set_mode_at(1, Mode::Suspend));
    let modes: Vec<Mode> = (0..fleet.len()).map(|i| fleet.get(i).unwrap().mode()).collect();
    assert_eq!(modes, vec![Mode::AsIs, Mode::Suspend, Mode::AsIs]);
    assert!(fleet.set_mode_at(1, Mode::Unspecified));
    assert_eq!(fleet.get(1).unwrap().mode(), Mode::AsIs);
    assert_eq!(names(&fleet), vec!["a", "b", "c"]);
}

#[test]
fn tick_at_reconciles_one_instance() {
    let configs = vec![config("a", Mode::Auto), config("b", Mode::Auto), config("c", Mode::On)];
    let mut fleet = firefoxes(vec![profile("a"), profile("b"), profile("c")], &configs, "/h");
    let xwin = XWindow { windows: HashMap::new(), top_pid: Some(5) };
    assert_eq!(tick_at(&mut fleet, 1, Some(77), &running("b", 400, 'S'), &xwin), Some(Action::Suspend));
    assert_eq!(fleet.get(1).unwrap().state(), State::Suspended);
    assert_eq!(fleet.get(1).unwrap().pid(), Some(77));
    assert_eq!(fleet.get(0).unwrap().state(), State::Down);
    assert_eq!(fleet.get(2).unwrap().state(), State::Down);
    assert_eq!(tick_at(&mut fleet, 0, None, &None, &xwin), Some(Action::Launch));
    assert_eq!(fleet.get(0).unwrap().state(), State::StartingUp);
    assert_eq!(tick_at(&mut fleet, 2, Some(5), &running("c", 400, 'T'), &xwin), Some(Action::Resume));
    assert_eq!(fleet.get(2).unwrap().state(), State::Warmed);
    assert!(fleet.get(2).unwrap().is_top());
    assert_eq!(names(&fleet), vec!["a", "b", "c"]);
}

#[test]
fn places_beyond_the_table_hold_nothing() {
    let mut fleet = firefoxes(vec![profile("a"), profile("b")], &vec![], "/h");
    let xwin = XWindow::new();
    assert!(fleet.get(2).is_none());
    assert!(fleet.get(usize::MAX).is_none());
    assert!(!fleet.set_mode_at(2, Mode::Off));
    assert_eq!(tick_at(&mut fleet, 2, Some(5), &running("a", 400, 'S'), &xwin), None);
    assert_eq!(names(&fleet), vec!["a", "b"]);
    for i in 0..fleet.len() {
        assert_eq!(fleet.get(i).unwrap().mode(), Mode::AsIs);
        assert_eq!(fleet.get(i).unwrap().state(), State::Down);
    }
    let mut empty = Fleet::new();
    assert!(empty.get(0).is_none());
    assert!(!empty.set_mode_at(0, Mode::On));
    assert_eq!(tick_at(&mut empty, 0, None, &None, &xwin), None);
}

#[test]
fn update_at_observes_without_deciding() {
    let configs = vec![config("a", Mode::Auto), config("b", Mode::Off)];
    let mut fleet = firefoxes(vec![profile("a"), profile("b")], &configs, "/h");
    let xwin = XWindow { windows: HashMap::new(), top_pid: Some(900) };
    assert!(fleet.update_at(0, Some(77), &running("a", 400, 'S'), Some(77), Some(12), &xwin));
    assert!(fleet.update_at(1, Some(78), &running("b", 400, 'T'), Some(12), Some(12), &xwin));
    let a = fleet.get(0).unwrap();
    assert_eq!((a.pid(), a.state(), a.is_top(), a.mode()), (Some(77), State::Warmed, false, Mode::Auto));
    let b = fleet.get(1).unwrap();
    assert_eq!((b.pid(), b.state(), b.is_top(), b.mode()), (Some(78), State::Suspended, true, Mode::Off));
    assert!(fleet.update_at(0, None, &None, None, None, &xwin));
    let a = fleet.get(0).unwrap();
    assert_eq!((a.pid(), a.state(), a.is_top()), (None, State::Down, false));
    assert!(!fleet.update_at(2, Some(77), &running("a", 400, 'S'), Some(77), Some(77), &xwin));
    assert_eq!(names(&fleet), vec!["a", "b"]);
}

#[test]
fn apply_mode_at_decides_on_what_was_observed() {
    let configs = vec![config("a", Mode::Auto), config("b", Mode::Off)];
    let mut fleet = firefoxes(vec![profile("a"), profile("b"), profile("c")], &configs, "/h");
    let xwin = XWindow { windows: HashMap::new(), top_pid: Some(900) };
    fleet.update_at(0, Some(77), &running("a", 400, 'S'), Some(77), Some(12), &xwin);
    fleet.update_at(1, Some(78), &running("b", 400, 'T'), Some(12), Some(12), &xwin);
    assert_eq!(fleet.apply_mode_at(0), Some(Action::Suspend));
    assert_eq!(fleet.apply_mode_at(1), Some(Action::ResumeThenClose));
    assert_eq!(fleet.apply_mode_at(2), Some(Action::Nothing));
    assert_eq!(fleet.apply_mode_at(3), None);
    assert_eq!(fleet.get(0).unwrap().state(), State::Suspended);
    assert_eq!(fleet.get(1).unwrap().state(), State::ShuttingDown);
    assert_eq!(fleet.get(2).unwrap().state(), State::Down);
    assert_eq!(fleet.apply_mode_at(0), Some(Action::Nothing));
}

#[test]
fn first_observation_then_first_decision_is_one_tick() {
    let configs = vec![config("a", Mode::Auto)];
    let xwin = XWindow { windows: HashMap::new(), top_pid: Some(900) };
    let mut one = firefoxes(vec![profile("a")], &configs, "/h");
    let mut two = firefoxes(vec![profile("a")], &configs, "/h");
    one.update_at(0, Some(77), &running("a", 400, 'T'), Some(5), Some(5), &xwin);
    let first = one.apply_mode_at(0);
    let second = two.tick_at(0, Some(77), &running("a", 400, 'T'), Some(5), Some(5), &xwin);
    assert_eq!(first, Some(Action::Resume));
    assert_eq!(first, second);
    assert_eq!(one.get(0).unwrap().state(), two.get(0).unwrap().state());
}
