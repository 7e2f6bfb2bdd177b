//! One managed browser instance per profile, and the state machine that
//! keeps it in the mode its user asked for.
//!
//! An instance is level-triggered: [`Firefox::update`] derives its state
//! afresh from what was just observed, and [`Firefox::apply_mode`] decides
//! from that state and the wanted mode what is to be done now. The instance
//! does nothing by itself; the caller carries the decided [`Action`] out.

use crate::probe::{get_state, state_of, ProcessFacts, ProcessFactsView};
use crate::proc::{launch_command, launch_firefox};
use crate::text::{join_path, joined, same_text};
use crate::xwindow::{in_focus, XWindow};
use vstd::prelude::*;

verus! {

/// Where the browser keeps its profiles, below the home directory.
pub const FIREFOX_DIR: &'static str = ".mozilla/firefox";

/// What the user wants of a profile.
#[derive(Debug, Clone, Copy, PartialEq, Eq, Structural)]
pub enum Mode {
    /// Run while focused, stop while not.
    Auto,
    /// Keep running.
    On,
    /// Keep closed.
    Off,
    /// Keep stopped.
    Suspend,
    /// Leave alone.
    AsIs,
    /// Nothing was said; stands for `AsIs` and is never the mode of an instance.
    Unspecified,
}

/// What was observed of a profile's browser.
#[derive(Debug, Clone, Copy, PartialEq, Eq, Structural)]
pub enum State {
    /// Launched a moment ago; the process has not been seen yet.
    StartingUp,
    /// Asked to close a moment ago.
    ShuttingDown,
    /// Not running.
    Down,
    /// Running, but too fresh to be touched.
    Warming,
    /// Running and ready.
    Warmed,
    /// Stopped.
    Suspended,
}

/// What the caller is to do for an instance after a decision.
#[derive(Debug, Clone, Copy, PartialEq, Eq, Structural)]
pub enum Action {
    /// Nothing.
    Nothing,
    /// Start the browser: see [`Firefox::launch`].
    Launch,
    /// Stop the process group: see [`Firefox::suspend`].
    Suspend,
    /// Let the process group run again: see [`Firefox::resume`].
    Resume,
    /// Ask the window of the process to close.
    Close,
    /// First let the process group run again, then ask its window to close.
    ResumeThenClose,
}

/// A signal for a whole process group.
#[derive(Debug, Clone, Copy, PartialEq, Eq, Structural)]
pub enum Signal {
    /// Freeze every process of the group.
    Stop,
    /// Thaw every process of the group.
    Continue,
}

/// A signal and where to send it. A negative `target` addresses the process
/// group whose id is its absolute value.
#[derive(Debug, Clone, Copy, PartialEq, Eq, Structural)]
pub struct Kill {
    pub target: i32,
    pub signal: Signal,
}

/// A profile as the browser's registry lists it.
#[derive(Debug, Clone, PartialEq, Eq)]
pub struct Profile {
    pub name: String,
    pub path: String,
    pub is_relative: bool,
}

/// The mode that a word of a command names, if it names one.
pub open spec fn mode_of_text(s: Seq<char>) -> Option<Mode> {
    if s == "auto"@ {
        Some(Mode::Auto)
    } else if s == "on"@ {
        Some(Mode::On)
    } else if s == "off"@ {
        Some(Mode::Off)
    } else if s == "suspend"@ {
        Some(Mode::Suspend)
    } else if s == "asis"@ {
        Some(Mode::AsIs)
    } else {
        None
    }
}

/// How a mode is shown.
pub open spec fn mode_label(mode: Mode) -> Seq<char> {
    match mode {
        Mode::Auto => "Auto"@,
        Mode::On => "On"@,
        Mode::Off => "Off"@,
        Mode::Suspend => "Suspend"@,
        Mode::AsIs => "AsIs"@,
        Mode::Unspecified => "Unspecified"@,
    }
}

/// How a state is shown.
pub open spec fn state_label(state: State) -> Seq<char> {
    match state {
        State::StartingUp => "StartingUp"@,
        State::ShuttingDown => "ShuttingDown"@,
        State::Down => "Down"@,
        State::Warming => "Warming"@,
        State::Warmed => "Warmed"@,
        State::Suspended => "Suspended"@,
    }
}

impl State {
    /// The text that shows this state.
    pub fn label(self) -> (r: &'static str)
        ensures
            r@ == state_label(self),
    {
        match self {
            State::StartingUp => "StartingUp",
            State::ShuttingDown => "ShuttingDown",
            State::Down => "Down",
            State::Warming => "Warming",
            State::Warmed => "Warmed",
            State::Suspended => "Suspended",
        }
    }
}

/// A profile as plain text.
pub struct ProfileView {
    pub name: Seq<char>,
    pub path: Seq<char>,
    pub is_relative: bool,
}

impl DeepView for Profile {
    type V = ProfileView;

    open spec fn deep_view(&self) -> ProfileView {
        ProfileView { name: self.name@, path: self.path@, is_relative: self.is_relative }
    }
}

impl Mode {
    /// Reads a mode from a word of a command: `auto`, `on`, `off`,
    /// `suspend` or `asis`. Any other word names no mode.
    pub fn from_str(s: &str) -> (r: Option<Mode>)
        ensures
            r == mode_of_text(s@),
            r != Some(Mode::Unspecified),
    {
        if same_text(s, "auto") {
            Some(Mode::Auto)
        } else if same_text(s, "on") {
            Some(Mode::On)
        } else if same_text(s, "off") {
            Some(Mode::Off)
        } else if same_text(s, "suspend") {
            Some(Mode::Suspend)
        } else if same_text(s, "asis") {
            Some(Mode::AsIs)
        } else {
            None
        }
    }

    /// The text that shows this mode.
    pub fn label(self) -> (r: &'static str)
        ensures
            r@ == mode_label(self),
    {
        match self {
            Mode::Auto => "Auto",
            Mode::On => "On",
            Mode::Off => "Off",
            Mode::Suspend => "Suspend",
            Mode::AsIs => "AsIs",
            Mode::Unspecified => "Unspecified",
        }
    }

    /// The mode with "unspecified" read as `AsIs`.
    pub open spec fn normalized(self) -> Mode {
        if self == Mode::Unspecified {
            Mode::AsIs
        } else {
            self
        }
    }

    /// Reads "unspecified" as `AsIs`.
    pub fn normalize(self) -> (r: Mode)
        ensures
            r == self.normalized(),
            r != Mode::Unspecified,
    {
        match self {
            Mode::Unspecified => Mode::AsIs,
            other => other,
        }
    }
}

/// The transition table: what to do in `state` when `mode` is wanted, and
/// the state to book afterwards.
pub open spec fn decide(state: State, mode: Mode, is_top: bool) -> (Action, State) {
    match state {
        State::Down => match mode {
            Mode::Auto | Mode::On | Mode::Suspend => (Action::Launch, State::StartingUp),
            _ => (Action::Nothing, State::Down),
        },
        State::Warming => match mode {
            Mode::Off => (Action::Close, State::ShuttingDown),
            _ => (Action::Nothing, State::Warming),
        },
        State::Warmed => match mode {
            Mode::Auto => if is_top {
                (Action::Nothing, State::Warmed)
            } else {
                (Action::Suspend, State::Suspended)
            },
            Mode::Off => (Action::Close, State::ShuttingDown),
            Mode::Suspend => (Action::Suspend, State::Suspended),
            _ => (Action::Nothing, State::Warmed),
        },
        State::Suspended => match mode {
            Mode::Auto => if is_top {
                (Action::Resume, State::Warmed)
            } else {
                (Action::Nothing, State::Suspended)
            },
            Mode::On => (Action::Resume, State::Warmed),
            Mode::Off => (Action::ResumeThenClose, State::ShuttingDown),
            _ => (Action::Nothing, State::Suspended),
        },
        State::StartingUp => (Action::Nothing, State::StartingUp),
        State::ShuttingDown => (Action::Nothing, State::ShuttingDown),
    }
}

/// Deciding again on unchanged facts does nothing more.
///
/// Whatever the state, the mode and the focus: once the table has been
/// applied, applying it to the state it booked asks for nothing and books
/// the same state. So an action is never issued twice in a row, and an
/// action that was issued has changed the state.
pub proof fn lemma_decide_settles(state: State, mode: Mode, is_top: bool)
    ensures
        decide(decide(state, mode, is_top).1, mode, is_top) == (
            Action::Nothing,
            decide(state, mode, is_top).1,
        ),
        decide(state, mode, is_top).0 != Action::Nothing ==> decide(state, mode, is_top).1
            != state,
        decide(state, mode, is_top).0 != Action::Nothing ==> decide(
            decide(state, mode, is_top).1,
            mode,
            is_top,
        ).0 != decide(state, mode, is_top).0,
        decide(state, mode, is_top).0 == Action::Nothing ==> decide(state, mode, is_top).1
            == state,
{
}

/// Deciding again for an instance on unchanged facts does nothing more: the
/// second decision asks for nothing and leaves the instance as the first
/// left it.
pub proof fn lemma_apply_mode_settles(v: FirefoxView)
    ensures
        applied(applied(v).1) == (Action::Nothing, applied(v).1),
        applied(v).0 != Action::Nothing ==> applied(v).1.state != v.state,
        applied(v).0 == Action::Nothing ==> applied(v).1 == v,
{
    lemma_decide_settles(v.state, v.mode, v.is_top);
}

/// The observed part of an instance, changed as one.
#[derive(Debug, Clone, Copy)]
struct Status {
    pid: Option<i32>,
    state: State,
    is_top: bool,
}

/// A managed instance: the browser of one profile.
#[derive(Debug)]
pub struct Firefox {
    name: String,
    status: Status,
    mode: Mode,
    pidlink: String,
}

/// An instance as a plain record.
pub struct FirefoxView {
    /// The profile's name.
    pub name: Seq<char>,
    /// The browser's process, while one is known.
    pub pid: Option<i32>,
    /// The state last derived or booked.
    pub state: State,
    /// Whether the browser was in focus when last observed: its process was
    /// of the process group of the focused window's owner.
    pub is_top: bool,
    /// The mode wanted.
    pub mode: Mode,
    /// Path of the profile's lock link.
    pub pidlink: Seq<char>,
}

impl FirefoxView {
    /// What holds of every instance at all times.
    ///
    /// A process is known exactly in the states that were derived from one.
    /// In `Down` none is known; in `StartingUp`, booked right after a
    /// launch, none is known yet. A known process id is positive, only a
    /// known process is focused, and the mode is never "unspecified".
    pub open spec fn wf(self) -> bool {
        &&& self.pid is None <==> self.state == State::Down || self.state == State::StartingUp
        &&& self.is_top ==> self.pid is Some
        &&& self.pid is Some ==> self.pid->0 > 0
        &&& self.mode != Mode::Unspecified
    }

    /// Whether the instance is as `update` leaves it: in a state derived
    /// from an observation.
    pub open spec fn observed(self) -> bool {
        &&& self.wf()
        &&& self.state != State::StartingUp
        &&& self.state != State::ShuttingDown
    }
}

/// In every state but `StartingUp` an instance is `Down` exactly if it knows
/// no process, and an instance that knows no process is never focused.
/// (`StartingUp` is booked right after a launch, before the new process can
/// be known.)
pub proof fn lemma_down_means_no_process(v: FirefoxView)
    requires
        v.wf(),
    ensures
        v.state != State::StartingUp ==> (v.state == State::Down <==> v.pid is None),
        v.state == State::Down ==> v.pid is None,
        v.pid is None ==> !v.is_top,
{
}

/// Path of the browser's directory for the user whose home directory is `home`.
pub open spec fn home_of(home: Seq<char>) -> Seq<char> {
    joined(home, FIREFOX_DIR@)
}

/// Path of a profile's lock link: `lock` in the profile's directory, which
/// lies below the browser's directory where the profile's path is relative.
pub open spec fn lock_of(profile: ProfileView, home: Seq<char>) -> Seq<char> {
    if profile.is_relative {
        joined(joined(home_of(home), profile.path), "lock"@)
    } else {
        joined(profile.path, "lock"@)
    }
}

/// The browser's directory for the user whose home directory is `home`.
pub fn firefox_home(home: &str) -> (r: String)
    ensures
        r@ == home_of(home@),
{
    join_path(home, FIREFOX_DIR)
}

/// The instance after an observation.
///
/// `pid` is what the lock link named, `facts` what the process table said
/// of that process and `group` its process group; `top_pid` is the owner of
/// the focused window and `top_group` that owner's process group. Unless
/// `pid` and `facts` show the profile's own browser, the instance is
/// `Down`, knows no process and is not focused. Otherwise it takes the
/// state derived, remembers the process, and is focused exactly if the
/// process is of the process group of the focused window's owner: the
/// browser is in focus also while one of its helpers owns the window.
pub open spec fn observe(
    before: FirefoxView,
    pid: Option<i32>,
    facts: Option<ProcessFactsView>,
    group: Option<i32>,
    top_group: Option<i32>,
    top_pid: Option<i32>,
) -> FirefoxView {
    if pid is Some && pid->0 > 0 && state_of(facts, before.name) != State::Down {
        FirefoxView {
            pid: pid,
            state: state_of(facts, before.name),
            is_top: in_focus(top_pid, group, top_group),
            ..before
        }
    } else {
        FirefoxView { pid: None, state: State::Down, is_top: false, ..before }
    }
}

/// An instance for `profile` that has not been observed yet: `Down`, with no
/// process and no focus.
pub open spec fn fresh(profile: ProfileView, mode: Mode, home: Seq<char>) -> FirefoxView {
    FirefoxView {
        name: profile.name,
        pid: None,
        state: State::Down,
        is_top: false,
        mode: mode.normalized(),
        pidlink: lock_of(profile, home),
    }
}

/// The action decided for an instance, and the instance with the state that
/// the action leads to booked.
pub open spec fn applied(before: FirefoxView) -> (Action, FirefoxView) {
    let (action, state) = decide(before.state, before.mode, before.is_top);
    (action, FirefoxView { state: state, ..before })
}

/// One turn of the reconciler: the observation taken in, then the decision.
pub open spec fn ticked(
    before: FirefoxView,
    pid: Option<i32>,
    facts: Option<ProcessFactsView>,
    group: Option<i32>,
    top_group: Option<i32>,
    top_pid: Option<i32>,
) -> (Action, FirefoxView) {
    applied(observe(before, pid, facts, group, top_group, top_pid))
}

impl View for Firefox {
    type V = FirefoxView;

    closed spec fn view(&self) -> FirefoxView {
        FirefoxView {
            name: self.name@,
            pid: self.status.pid,
            state: self.status.state,
            is_top: self.status.is_top,
            mode: self.mode,
            pidlink: self.pidlink@,
        }
    }
}

impl Firefox {
    /// Every instance is well-formed, at all times.
    #[verifier::type_invariant]
    pub open spec fn inv(self) -> bool {
        self@.wf()
    }

    /// An instance for `profile`, not yet observed: `Down`, with no process
    /// and no focus. `home` is the user's home directory.
    pub fn new(profile: Profile, mode: Mode, home: &str) -> (r: Self)
        ensures
            r@ == fresh(profile.deep_view(), mode, home@),
            r@.wf(),
    {
        let pidlink = if profile.is_relative {
            let home_dir = firefox_home(home);
            let profile_dir = join_path(home_dir.as_str(), profile.path.as_str());
            join_path(profile_dir.as_str(), "lock")
        } else {
            join_path(profile.path.as_str(), "lock")
        };
        Firefox {
            name: profile.name,
            status: Status { pid: None, state: State::Down, is_top: false },
            mode: mode.normalize(),
            pidlink,
        }
    }

    /// Takes in a fresh observation: the process that the lock link names,
    /// what the process table says of it, its process group, the process
    /// group of the focused window's owner, and the window snapshot.
    ///
    /// Nothing of the instance's earlier state enters the result.
    pub fn update(
        &mut self,
        pid: Option<i32>,
        facts: &Option<ProcessFacts>,
        group: Option<i32>,
        top_group: Option<i32>,
        xwin: &XWindow,
    )
        ensures
            final(self)@ == observe(
                old(self)@,
                pid,
                facts.deep_view(),
                group,
                top_group,
                xwin@.top_pid,
            ),
            final(self)@.observed(),
            final(self)@.state == State::Down <==> final(self)@.pid is None,
            final(self)@.is_top <==> final(self)@.pid is Some && in_focus(
                xwin@.top_pid,
                group,
                top_group,
            ),
            state_of(facts.deep_view(), old(self)@.name) == State::Down ==> final(self)@.state
                == State::Down && final(self)@.pid is None,
    {
        proof {
            use_type_invariant(&*self);
        }
        let state = get_state(facts, self.name.as_str());
        self.status = match pid {
            Some(p) => {
                if p > 0 && !matches!(state, State::Down) {
                    let is_top = xwin.is_top(group, top_group);
                    Status { pid: Some(p), state, is_top }
                } else {
                    Status { pid: None, state: State::Down, is_top: false }
                }
            },
            None => Status { pid: None, state: State::Down, is_top: false },
        };
    }

    /// Decides what is to be done for the instance now, and books the state
    /// that the action leads to. The caller carries the action out.
    pub fn apply_mode(&mut self) -> (action: Action)
        ensures
            (action, final(self)@) == applied(old(self)@),
            final(self)@.wf(),
            final(self)@.state != State::StartingUp ==> (final(self)@.state == State::Down
                <==> final(self)@.pid is None),
            action == Action::Launch <==> final(self)@.pid is None && final(self)@.state
                == State::StartingUp && old(self)@.state == State::Down,
    {
        proof {
            use_type_invariant(&*self);
        }
        let status = self.status;
        let (action, state) = match status.state {
            State::Down => match self.mode {
                Mode::Auto | Mode::On | Mode::Suspend => (Action::Launch, State::StartingUp),
                _ => (Action::Nothing, State::Down),
            },
            State::Warming => match self.mode {
                Mode::Off => (Action::Close, State::ShuttingDown),
                _ => (Action::Nothing, State::Warming),
            },
            State::Warmed => match self.mode {
                Mode::Auto => {
                    if status.is_top {
                        (Action::Nothing, State::Warmed)
                    } else {
                        (Action::Suspend, State::Suspended)
                    }
                },
                Mode::Off => (Action::Close, State::ShuttingDown),
                Mode::Suspend => (Action::Suspend, State::Suspended),
                _ => (Action::Nothing, State::Warmed),
            },
            State::Suspended => match self.mode {
                Mode::Auto => {
                    if status.is_top {
                        (Action::Resume, State::Warmed)
                    } else {
                        (Action::Nothing, State::Suspended)
                    }
                },
                Mode::On => (Action::Resume, State::Warmed),
                Mode::Off => (Action::ResumeThenClose, State::ShuttingDown),
                _ => (Action::Nothing, State::Suspended),
            },
            State::StartingUp => (Action::Nothing, State::StartingUp),
            State::ShuttingDown => (Action::Nothing, State::ShuttingDown),
        };
        self.status = Status { pid: status.pid, state, is_top: status.is_top };
        action
    }

    /// One turn of the reconciler for this instance: takes the observation
    /// in, then decides.
    pub fn tick(
        &mut self,
        pid: Option<i32>,
        facts: &Option<ProcessFacts>,
        group: Option<i32>,
        top_group: Option<i32>,
        xwin: &XWindow,
    ) -> (action: Action)
        ensures
            (action, final(self)@) == ticked(
                old(self)@,
                pid,
                facts.deep_view(),
                group,
                top_group,
                xwin@.top_pid,
            ),
            final(self)@.wf(),
            final(self)@.state != State::StartingUp ==> (final(self)@.state == State::Down
                <==> final(self)@.pid is None),
            final(self)@.is_top ==> final(self)@.pid is Some && in_focus(
                xwin@.top_pid,
                group,
                top_group,
            ),
    {
        self.update(pid, facts, group, top_group, xwin);
        self.apply_mode()
    }

    /// Changes the mode wanted; "unspecified" is taken as `AsIs`.
    pub fn set_mode(&mut self, mode: Mode)
        ensures
            final(self)@ == (FirefoxView { mode: mode.normalized(), ..old(self)@ }),
            final(self)@.wf(),
    {
        proof {
            use_type_invariant(&*self);
        }
        self.mode = mode.normalize();
    }

    /// The signal that suspends the instance: `Stop`, to the group of its
    /// process. `None` where no process is known.
    pub fn suspend(&self) -> (r: Option<Kill>)
        ensures
            r == match self@.pid {
                Some(pid) => Some(Kill { target: (-pid) as i32, signal: Signal::Stop }),
                None => None,
            },
            r is Some ==> r->0.target < 0,
    {
        proof {
            use_type_invariant(self);
        }
        match self.status.pid {
            Some(pid) => Some(Kill { target: -pid, signal: Signal::Stop }),
            None => None,
        }
    }

    /// The signal that resumes the instance: `Continue`, to the group of its
    /// process. `None` where no process is known.
    pub fn resume(&self) -> (r: Option<Kill>)
        ensures
            r == match self@.pid {
                Some(pid) => Some(Kill { target: (-pid) as i32, signal: Signal::Continue }),
                None => None,
            },
            r is Some ==> r->0.target < 0,
    {
        proof {
            use_type_invariant(self);
        }
        match self.status.pid {
            Some(pid) => Some(Kill { target: -pid, signal: Signal::Continue }),
            None => None,
        }
    }

    /// The command that starts the browser for this instance's profile.
    pub fn launch(&self) -> (r: Vec<String>)
        ensures
            r.deep_view() == launch_command(self@.name),
    {
        launch_firefox(self.name.as_str())
    }

    /// The profile's name.
    pub fn name(&self) -> (r: &str)
        ensures
            r@ == self@.name,
    {
        self.name.as_str()
    }

    /// The browser's process, while one is known.
    pub fn pid(&self) -> (r: Option<i32>)
        ensures
            r == self@.pid,
            self@.wf(),
    {
        proof {
            use_type_invariant(self);
        }
        self.status.pid
    }

    /// The state last derived or booked.
    pub fn state(&self) -> (r: State)
        ensures
            r == self@.state,
            self@.wf(),
    {
        proof {
            use_type_invariant(self);
        }
        self.status.state
    }

    /// Whether the browser was in focus when last observed.
    pub fn is_top(&self) -> (r: bool)
        ensures
            r == self@.is_top,
            self@.wf(),
    {
        proof {
            use_type_invariant(self);
        }
        self.status.is_top
    }

    /// The mode wanted.
    pub fn mode(&self) -> (r: Mode)
        ensures
            r == self@.mode,
            self@.wf(),
    {
        proof {
            use_type_invariant(self);
        }
        self.mode
    }

    /// Path of the profile's lock link.
    pub fn pidlink(&self) -> (r: &str)
        ensures
            r@ == self@.pidlink,
    {
        self.pidlink.as_str()
    }
}

} // verus!
