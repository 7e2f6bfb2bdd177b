//! The windowing system as the reconciler sees it: which process owns which
//! top-level window, and which process owns the focused one.
//!
//! Talking to the display is the caller's business. The caller hands over
//! the properties it read; what they mean is decided here.

use std::collections::HashMap;
use vstd::prelude::*;
use x11rb::protocol::xproto::GetPropertyReply;

verus! {

/// Handle of a window.
pub type Window = u32;

/// A window property as the display returned it: the width of its values in
/// bits, and the bytes of its values.
#[derive(Debug, Clone, PartialEq, Eq)]
pub struct Property {
    pub format: u8,
    pub value: Vec<u8>,
}

/// The number that the four bytes from place `at` on make: the first byte
/// counts least where `little`, and most where not.
pub open spec fn word_at(bytes: Seq<u8>, at: int, little: bool) -> u32 {
    if little {
        (bytes[at] + bytes[at + 1] * 0x100 + bytes[at + 2] * 0x1_0000 + bytes[at + 3]
            * 0x100_0000) as u32
    } else {
        (bytes[at + 3] + bytes[at + 2] * 0x100 + bytes[at + 1] * 0x1_0000 + bytes[at]
            * 0x100_0000) as u32
    }
}

/// The 32-bit values that some bytes hold in one byte order: one for every
/// four whole bytes; bytes left over at the end count for nothing.
pub open spec fn words_of(bytes: Seq<u8>, little: bool) -> Seq<u32> {
    Seq::new((bytes.len() / 4) as nat, |k: int| word_at(bytes, 4 * k, little))
}

/// What the values of a property may be: none unless the format is 32, and
/// else the values that its bytes hold in one of the two byte orders.
pub open spec fn may_hold(property: PropertyView, values: Option<Seq<u32>>) -> bool {
    match values {
        Some(v) => property.format == 32 && (v == words_of(property.value, true) || v
            == words_of(property.value, false)),
        None => property.format != 32,
    }
}

/// Calls `GetPropertyReply::value32` of `x11rb` on a reply that has the
/// format and the bytes of `property`, and collects what the iterator
/// yields. By its source the method gives a result exactly for the format
/// 32, and the iterator then takes four bytes at a time, as long as there
/// are four, and makes one value of them in the byte order of the machine.
/// Which of the two orders that is, the contract leaves open.
#[verifier::external_body]
fn value32(property: &Property) -> (r: Option<Vec<u32>>)
    ensures
        may_hold(property.deep_view(), r.deep_view()),
{
    let reply = GetPropertyReply {
        format: property.format,
        value: property.value.clone(),
        ..Default::default()
    };
    reply.value32().map(|values| values.collect())
}

/// One top-level client window and what was read of its process-id property:
/// the property's 32-bit values, or `None` where it could not be read.
#[derive(Debug, Clone, PartialEq, Eq)]
pub struct Client {
    pub window: Window,
    pub pid_property: Option<Vec<u32>>,
}

/// A snapshot of the windowing system.
#[derive(Debug)]
pub struct XWindow {
    /// The window of each process that owns a top-level client window.
    pub windows: HashMap<i32, Window>,
    /// The process that owns the focused window, if that could be told.
    pub top_pid: Option<i32>,
}

/// A property as plain values.
pub struct PropertyView {
    pub format: u8,
    pub value: Seq<u8>,
}

/// A client as plain values.
pub struct ClientView {
    pub window: Window,
    pub pid_property: Option<Seq<u32>>,
}

/// A snapshot as a plain record.
pub struct XWindowView {
    pub windows: Map<i32, Window>,
    pub top_pid: Option<i32>,
}

impl DeepView for Property {
    type V = PropertyView;

    open spec fn deep_view(&self) -> PropertyView {
        PropertyView { format: self.format, value: self.value@ }
    }
}

impl DeepView for Client {
    type V = ClientView;

    open spec fn deep_view(&self) -> ClientView {
        ClientView { window: self.window, pid_property: self.pid_property.deep_view() }
    }
}

impl View for XWindow {
    type V = XWindowView;

    open spec fn view(&self) -> XWindowView {
        XWindowView { windows: self.windows@, top_pid: self.top_pid }
    }
}

/// The process id that a process-id property names: its first value, where
/// there is one and it is a number from 1 to `i32::MAX`.
pub open spec fn pid_of_property(property: Option<Seq<u32>>) -> Option<i32> {
    match property {
        Some(values) => if values.len() > 0 && 0 < values[0] <= i32::MAX {
            Some(values[0] as i32)
        } else {
            None
        },
        None => None,
    }
}

/// The window that an active-window property names: its first value, where there is one.
pub open spec fn window_of_property(property: Option<Seq<u32>>) -> Option<Window> {
    match property {
        Some(values) => if values.len() > 0 {
            Some(values[0])
        } else {
            None
        },
        None => None,
    }
}

/// The process that owns the focused window: the one that `owner` names,
/// provided `active` names a window at all.
pub open spec fn focused(active: Option<Seq<u32>>, owner: Option<Seq<u32>>) -> Option<i32> {
    if window_of_property(active) is Some {
        pid_of_property(owner)
    } else {
        None
    }
}

/// Whether a process is in focus: a process owns the focused window, and
/// the process asked about is of that owner's process group. `group` and
/// `top_group` are the two process groups, each `None` where it could not
/// be read.
pub open spec fn in_focus(top_pid: Option<i32>, group: Option<i32>, top_group: Option<i32>) -> bool {
    top_pid is Some && group is Some && group == top_group
}

/// The map from process to window that a client list gives. Clients whose
/// process id cannot be told are left out; where two clients belong to one
/// process, the later one in the list stays.
pub open spec fn clients_of(list: Seq<ClientView>) -> Map<i32, Window>
    decreases list.len(),
{
    if list.len() == 0 {
        Map::empty()
    } else {
        let before = clients_of(list.drop_last());
        match pid_of_property(list.last().pid_property) {
            Some(pid) => before.insert(pid, list.last().window),
            None => before,
        }
    }
}

impl XWindow {
    /// A snapshot that knows of no window yet.
    pub fn new() -> (r: Self)
        ensures
            r@ == (XWindowView { windows: Map::empty(), top_pid: None }),
    {
        XWindow { windows: HashMap::new(), top_pid: None }
    }

    /// The 32-bit values of a property that was read: there are some exactly
    /// if the property is there and its format is 32, and then they are the
    /// values that its bytes hold in the byte order of the machine, one for
    /// every four whole bytes. `None` stands for a property that could not
    /// be read.
    pub fn values(property: &Option<Property>) -> (r: Option<Vec<u32>>)
        ensures
            match property.deep_view() {
                Some(p) => may_hold(p, r.deep_view()),
                None => r is None,
            },
    {
        match property {
            Some(p) => value32(p),
            None => None,
        }
    }

    /// The windows that the root window's client-list property names: its
    /// values in their order, and none where the property could not be read.
    pub fn client_list(property: &Option<Vec<u32>>) -> (r: Vec<Window>)
        ensures
            r@ == match property.deep_view() {
                Some(windows) => windows,
                None => Seq::empty(),
            },
    {
        let mut list: Vec<Window> = Vec::new();
        if let Some(windows) = property {
            let mut i: usize = 0;
            while i < windows.len()
                invariant
                    i <= windows.len(),
                    list@ == windows@.take(i as int),
                decreases windows.len() - i,
            {
                list.push(windows[i]);
                assert(list@ =~= windows@.take(i + 1));
                i = i + 1;
            }
            assert(windows@.take(i as int) =~= windows@);
            assert(windows.deep_view() =~= windows@);
        }
        list
    }

    /// Replaces the whole snapshot by what was just read: the client list
    /// with each client's process-id property, the active-window property of
    /// the root window, and the process-id property of the window that the
    /// latter names (`None` where it names none).
    pub fn update(
        &mut self,
        list: &Vec<Client>,
        active: &Option<Vec<u32>>,
        owner: &Option<Vec<u32>>,
    )
        ensures
            final(self)@ == (XWindowView {
                windows: clients_of(list.deep_view()),
                top_pid: focused(active.deep_view(), owner.deep_view()),
            }),
    {
        self.windows = Self::clients(list);
        self.top_pid = Self::top_pid(active, owner);
    }

    /// Whether a process shares its process group with the owner of the
    /// focused window. `group` is the process group of the process asked
    /// about and `top_group` that of the focused window's owner, each `None`
    /// where it could not be read.
    pub fn is_top(&self, group: Option<i32>, top_group: Option<i32>) -> (r: bool)
        ensures
            r == in_focus(self@.top_pid, group, top_group),
    {
        match self.top_pid {
            Some(_) => match (group, top_group) {
                (Some(own), Some(top)) => own == top,
                _ => false,
            },
            None => false,
        }
    }

    /// Resolves the focused window to the process that owns it. `active` is
    /// the active-window property of the root window, `owner` the
    /// process-id property of the window that it names.
    pub fn top_pid(active: &Option<Vec<u32>>, owner: &Option<Vec<u32>>) -> (r: Option<i32>)
        ensures
            r == focused(active.deep_view(), owner.deep_view()),
    {
        match Self::active_window(active) {
            Some(_) => Self::pid(owner),
            None => None,
        }
    }

    /// Builds the map from process to window out of the client list.
    pub fn clients(list: &Vec<Client>) -> (r: HashMap<i32, Window>)
        ensures
            r@ == clients_of(list.deep_view()),
    {
        let ghost all = list.deep_view();
        let mut clients: HashMap<i32, Window> = HashMap::new();
        let mut i: usize = 0;
        while i < list.len()
            invariant
                i <= list.len(),
                all == list.deep_view(),
                clients@ == clients_of(all.take(i as int)),
            decreases list.len() - i,
        {
            proof {
                assert(all.take(i + 1).drop_last() =~= all.take(i as int));
                assert(all.take(i + 1).last() == list@[i as int].deep_view());
            }
            if let Some(pid) = Self::pid(&list[i].pid_property) {
                clients.insert(pid, list[i].window);
            }
            i = i + 1;
        }
        proof {
            assert(all.take(i as int) =~= all);
        }
        clients
    }

    /// The process that a window's process-id property names.
    pub fn pid(property: &Option<Vec<u32>>) -> (r: Option<i32>)
        ensures
            r == pid_of_property(property.deep_view()),
    {
        match property {
            Some(values) => {
                proof {
                    assert(values.deep_view().len() == values@.len());
                    if values@.len() > 0 {
                        assert(values.deep_view()[0] == values@[0]);
                    }
                }
                if values.len() > 0 && 0 < values[0] && values[0] <= 0x7fff_ffff {
                    Some(values[0] as i32)
                } else {
                    None
                }
            },
            None => None,
        }
    }

    /// The window that the root window's active-window property names.
    pub fn active_window(property: &Option<Vec<u32>>) -> (r: Option<Window>)
        ensures
            r == window_of_property(property.deep_view()),
    {
        match property {
            Some(values) => {
                proof {
                    assert(values.deep_view().len() == values@.len());
                    if values@.len() > 0 {
                        assert(values.deep_view()[0] == values@[0]);
                    }
                }
                if values.len() > 0 {
                    Some(values[0])
                } else {
                    None
                }
            },
            None => None,
        }
    }

    /// The window to ask to close on behalf of process `pid`: the one the
    /// snapshot holds for it, or `None` where it holds none (a process that
    /// is still starting has not mapped a window yet).
    pub fn close_pid(&self, pid: i32) -> (r: Option<Window>)
        ensures
            r == if self@.windows.contains_key(pid) {
                Some(self@.windows[pid])
            } else {
                None
            },
    {
        match self.windows.get(&pid) {
            Some(w) => Some(*w),
            None => None,
        }
    }
}

} // verus!
