//! The table of managed instances, one per profile name, kept in the order of the names.

use crate::config::{mode_for, mode_of, Config, ConfigView};
use crate::firefox::{
    applied, fresh, observe, ticked, Action, Firefox, FirefoxView, Mode, Profile, ProfileView,
};
use crate::probe::ProcessFacts;
use crate::text::{lemma_name_order, name_before, precedes, same_text};
use crate::xwindow::XWindow;
use vstd::prelude::*;

verus! {

/// Whether the instances stand in the strict order of their names; then no name occurs twice.
pub open spec fn sorted(s: Seq<FirefoxView>) -> bool {
    forall|i: int, j: int|
        0 <= i < j < s.len() ==> name_before((#[trigger] s[i]).name, (#[trigger] s[j]).name)
}

/// Whether every instance of the table is well-formed.
pub open spec fn all_wf(s: Seq<FirefoxView>) -> bool {
    forall|i: int| 0 <= i < s.len() ==> (#[trigger] s[i]).wf()
}

/// The table with `e` put in at the place of its name: in place of the
/// instance that has the name, or, where none has it, before the first
/// instance whose name comes later.
pub open spec fn put(s: Seq<FirefoxView>, e: FirefoxView) -> Seq<FirefoxView>
    decreases s.len(),
{
    if s.len() == 0 {
        seq![e]
    } else if name_before(s[0].name, e.name) {
        seq![s[0]] + put(s.drop_first(), e)
    } else if s[0].name == e.name {
        seq![e] + s.drop_first()
    } else {
        seq![e] + s
    }
}

/// The fresh instance of a profile, with the mode that the configuration asks for its name.
pub open spec fn entry_of(
    profile: ProfileView,
    configs: Seq<ConfigView>,
    home: Seq<char>,
) -> FirefoxView {
    fresh(profile, mode_of(configs, profile.name), home)
}

/// The table that a list of profiles gives: the fresh instance of each
/// profile, put in one after the other.
pub open spec fn fleet_of(
    profiles: Seq<ProfileView>,
    configs: Seq<ConfigView>,
    home: Seq<char>,
) -> Seq<FirefoxView>
    decreases profiles.len(),
{
    if profiles.len() == 0 {
        Seq::empty()
    } else {
        put(
            fleet_of(profiles.drop_last(), configs, home),
            entry_of(profiles.last(), configs, home),
        )
    }
}

/// Whether profile `i` of the list is the last one of its name.
pub open spec fn last_of_its_name(profiles: Seq<ProfileView>, i: int) -> bool {
    &&& 0 <= i < profiles.len()
    &&& forall|j: int| i < j < profiles.len() ==> (#[trigger] profiles[j]).name != profiles[i].name
}

/// Where `put` puts an instance, told by position.
proof fn lemma_put_at(s: Seq<FirefoxView>, e: FirefoxView, i: int)
    requires
        0 <= i <= s.len(),
        forall|k: int| 0 <= k < i ==> name_before((#[trigger] s[k]).name, e.name),
        i == s.len() || !name_before(s[i].name, e.name),
    ensures
        put(s, e) == if i < s.len() && s[i].name == e.name {
            s.update(i, e)
        } else {
            s.insert(i, e)
        },
    decreases i,
{
    if i == 0 {
        if s.len() == 0 {
            assert(seq![e] =~= s.insert(0, e));
        } else if s[0].name == e.name {
            assert(seq![e] + s.drop_first() =~= s.update(0, e));
        } else {
            assert(seq![e] + s =~= s.insert(0, e));
        }
    } else {
        let rest = s.drop_first();
        assert(name_before(s[0].name, e.name));
        assert forall|k: int| 0 <= k < i - 1 implies name_before((#[trigger] rest[k]).name, e.name) by {
            assert(rest[k] == s[k + 1]);
        }
        lemma_put_at(rest, e, i - 1);
        if i < s.len() && s[i].name == e.name {
            assert(seq![s[0]] + rest.update(i - 1, e) =~= s.update(i, e));
        } else {
            assert(seq![s[0]] + rest.insert(i - 1, e) =~= s.insert(i, e));
        }
    }
}

/// How many instances at the start of the table have a name before `name`.
/// In an ordered table these are all that have one.
pub open spec fn rank(s: Seq<FirefoxView>, name: Seq<char>) -> int
    decreases s.len(),
{
    if s.len() > 0 && name_before(s[0].name, name) {
        1 + rank(s.drop_first(), name)
    } else {
        0
    }
}

/// The place of the instance named `name` in an ordered table, if it holds one.
pub open spec fn place(s: Seq<FirefoxView>, name: Seq<char>) -> Option<int> {
    if rank(s, name) < s.len() && s[rank(s, name)].name == name {
        Some(rank(s, name))
    } else {
        None
    }
}

/// In an ordered table, `place` finds the instance of a name wherever one stands.
pub proof fn lemma_place(s: Seq<FirefoxView>, name: Seq<char>)
    requires
        sorted(s),
    ensures
        match place(s, name) {
            Some(i) => 0 <= i < s.len() && s[i].name == name,
            None => forall|k: int| 0 <= k < s.len() ==> (#[trigger] s[k]).name != name,
        },
        forall|k: int| 0 <= k < s.len() && (#[trigger] s[k]).name == name ==> place(s, name) == Some(k),
{
    let i = rank(s, name);
    lemma_rank(s, name);
    assert forall|k: int| 0 <= k < s.len() && (#[trigger] s[k]).name == name implies i == k by {
        lemma_name_order(name, name, name);
        if k < i {
            assert(name_before(s[k].name, name));
        } else if k > i {
            assert(name_before(s[i].name, s[k].name));
        }
    }
}

proof fn lemma_rank(s: Seq<FirefoxView>, name: Seq<char>)
    ensures
        0 <= rank(s, name) <= s.len(),
        forall|k: int| 0 <= k < rank(s, name) ==> name_before((#[trigger] s[k]).name, name),
        rank(s, name) == s.len() || !name_before(s[rank(s, name)].name, name),
    decreases s.len(),
{
    if s.len() > 0 && name_before(s[0].name, name) {
        let rest = s.drop_first();
        lemma_rank(rest, name);
        assert forall|k: int| 0 <= k < rank(s, name) implies name_before(
            (#[trigger] s[k]).name,
            name,
        ) by {
            if k > 0 {
                assert(rest[k - 1] == s[k]);
            }
        }
        if rank(s, name) < s.len() {
            assert(rest[rank(rest, name)] == s[rank(s, name)]);
        }
    }
}

/// Putting an instance into an ordered table leaves it ordered, and the
/// table then holds exactly the new instance and the old ones of other names.
pub proof fn lemma_put(s: Seq<FirefoxView>, e: FirefoxView)
    requires
        sorted(s),
    ensures
        sorted(put(s, e)),
        forall|x: FirefoxView|
            #[trigger] put(s, e).contains(x) <==> x == e || (s.contains(x) && x.name != e.name),
{
    let r = put(s, e);
    let i = rank(s, e.name);
    lemma_rank(s, e.name);
    lemma_put_at(s, e, i);
    if i < s.len() && s[i].name == e.name {
        assert forall|a: int, b: int| 0 <= a < b < r.len() implies name_before(
            (#[trigger] r[a]).name,
            (#[trigger] r[b]).name,
        ) by {
            assert(r[a].name == s[a].name && r[b].name == s[b].name);
        }
        assert forall|x: FirefoxView| #[trigger] r.contains(x) <==> x == e || (s.contains(x)
            && x.name != e.name) by {
            if r.contains(x) && x != e {
                let k = choose|k: int| 0 <= k < r.len() && r[k] == x;
                assert(s[k] == x);
                lemma_name_order(e.name, e.name, e.name);
                if k < i {
                    assert(name_before(s[k].name, s[i].name));
                } else {
                    assert(name_before(s[i].name, s[k].name));
                }
            }
            if x == e {
                assert(r[i] == e);
            }
            if s.contains(x) && x.name != e.name {
                let m = choose|m: int| 0 <= m < s.len() && s[m] == x;
                assert(r[m] == x);
            }
        }
    } else {
        assert forall|k: int| i <= k < s.len() implies name_before(
            e.name,
            (#[trigger] s[k]).name,
        ) by {
            lemma_name_order(s[i].name, e.name, s[k].name);
            lemma_name_order(e.name, s[i].name, s[k].name);
            if k > i {
                assert(name_before(s[i].name, s[k].name));
            }
        }
        assert forall|a: int, b: int| 0 <= a < b < r.len() implies name_before(
            (#[trigger] r[a]).name,
            (#[trigger] r[b]).name,
        ) by {
            if b < i {
                assert(r[a] == s[a] && r[b] == s[b]);
            } else if b == i {
                assert(r[a] == s[a]);
            } else if a == i {
                assert(r[b] == s[b - 1]);
            } else if a > i {
                assert(r[a] == s[a - 1] && r[b] == s[b - 1]);
            } else {
                assert(r[a] == s[a] && r[b] == s[b - 1]);
            }
        }
        assert forall|x: FirefoxView| #[trigger] r.contains(x) <==> x == e || (s.contains(x)
            && x.name != e.name) by {
            lemma_name_order(e.name, e.name, e.name);
            if r.contains(x) && x != e {
                let k = choose|k: int| 0 <= k < r.len() && r[k] == x;
                if k < i {
                    assert(s[k] == x);
                } else {
                    assert(s[k - 1] == x);
                }
            }
            if x == e {
                assert(r[i] == e);
            }
            if s.contains(x) && x.name != e.name {
                let m = choose|m: int| 0 <= m < s.len() && s[m] == x;
                if m < i {
                    assert(r[m] == x);
                } else {
                    assert(r[m + 1] == x);
                }
            }
        }
    }
}

/// Replacing an instance by one of the same name keeps the order of the table.
proof fn lemma_update_keeps_order(s: Seq<FirefoxView>, i: int, v: FirefoxView)
    requires
        sorted(s),
        0 <= i < s.len(),
        v.name == s[i].name,
    ensures
        sorted(s.update(i, v)),
{
    let r = s.update(i, v);
    assert forall|a: int, b: int| 0 <= a < b < r.len() implies name_before(
        (#[trigger] r[a]).name,
        (#[trigger] r[b]).name,
    ) by {
        assert(r[a].name == s[a].name && r[b].name == s[b].name);
    }
}

/// The plain records of a row of instances.
spec fn views(items: Seq<Firefox>) -> Seq<FirefoxView> {
    Seq::new(items.len(), |i: int| items[i]@)
}

/// The table that a list of profiles gives is in the order of the names and
/// holds exactly the fresh instances of the profiles that are the last of
/// their name: one instance per name, and of two profiles with one name the
/// later one.
pub proof fn lemma_fleet_of(
    profiles: Seq<ProfileView>,
    configs: Seq<ConfigView>,
    home: Seq<char>,
)
    ensures
        sorted(fleet_of(profiles, configs, home)),
        forall|x: FirefoxView| #[trigger]
            fleet_of(profiles, configs, home).contains(x) <==> exists|i: int| #[trigger]
                last_of_its_name(profiles, i) && x == entry_of(profiles[i], configs, home),
    decreases profiles.len(),
{
    let table = fleet_of(profiles, configs, home);
    if profiles.len() > 0 {
        let front = profiles.drop_last();
        let earlier = fleet_of(front, configs, home);
        let n = profiles.len() - 1;
        let e = entry_of(profiles[n], configs, home);
        lemma_fleet_of(front, configs, home);
        lemma_put(earlier, e);
        assert(last_of_its_name(profiles, n));
        assert forall|x: FirefoxView| #[trigger]
            table.contains(x) <==> exists|i: int| #[trigger]
                last_of_its_name(profiles, i) && x == entry_of(profiles[i], configs, home) by {
            if table.contains(x) && x != e {
                assert(earlier.contains(x));
                let i = choose|i: int| #[trigger]
                    last_of_its_name(front, i) && x == entry_of(front[i], configs, home);
                assert(front[i] == profiles[i]);
                assert forall|j: int| i < j < profiles.len() implies (#[trigger] profiles[j]).name
                    != profiles[i].name by {
                    if j < n {
                        assert(front[j] == profiles[j]);
                    }
                }
                assert(last_of_its_name(profiles, i));
            }
            if exists|i: int| #[trigger]
                last_of_its_name(profiles, i) && x == entry_of(profiles[i], configs, home) {
                let i = choose|i: int| #[trigger]
                    last_of_its_name(profiles, i) && x == entry_of(profiles[i], configs, home);
                if i < n {
                    assert(front[i] == profiles[i]);
                    assert forall|j: int| i < j < front.len() implies (#[trigger] front[j]).name
                        != front[i].name by {
                        assert(front[j] == profiles[j]);
                    }
                    assert(last_of_its_name(front, i));
                    assert(earlier.contains(x));
                    assert(profiles[n].name != profiles[i].name);
                }
            }
        }
    } else {
        assert forall|x: FirefoxView| #[trigger]
            table.contains(x) <==> exists|i: int| #[trigger]
                last_of_its_name(profiles, i) && x == entry_of(profiles[i], configs, home) by {}
    }
}

/// The table of managed instances.
#[derive(Debug)]
pub struct Fleet {
    items: Vec<Firefox>,
}

impl View for Fleet {
    type V = Seq<FirefoxView>;

    closed spec fn view(&self) -> Seq<FirefoxView> {
        views(self.items@)
    }
}

impl Fleet {
    /// The table is in the order of its names, and each instance is well-formed.
    #[verifier::type_invariant]
    pub open spec fn inv(self) -> bool {
        sorted(self@) && all_wf(self@)
    }

    /// The empty table.
    pub fn new() -> (r: Self)
        ensures
            r@ == Seq::<FirefoxView>::empty(),
    {
        let r = Fleet { items: Vec::new() };
        assert(r@ =~= Seq::<FirefoxView>::empty());
        r
    }

    /// How many instances the table holds.
    pub fn len(&self) -> (n: usize)
        ensures
            n == self@.len(),
            sorted(self@),
            all_wf(self@),
    {
        proof {
            use_type_invariant(self);
        }
        self.items.len()
    }

    /// The instance at place `i` in the order of the names, if there is one.
    pub fn get(&self, i: usize) -> (r: Option<&Firefox>)
        ensures
            r is Some <==> i < self@.len(),
            r is Some ==> r->0@ == self@[i as int] && r->0@.wf(),
    {
        proof {
            use_type_invariant(self);
        }
        if i < self.items.len() {
            assert(self@[i as int] == self.items@[i as int]@);
            Some(&self.items[i])
        } else {
            None
        }
    }

    /// The place of the instance named `name`, if the table holds one.
    pub fn position(&self, name: &str) -> (r: Option<usize>)
        ensures
            match r {
                Some(i) => i < self@.len() && self@[i as int].name == name@,
                None => forall|k: int| 0 <= k < self@.len() ==> (#[trigger] self@[k]).name != name@,
            },
            place(self@, name@) == match r {
                Some(i) => Some(i as int),
                None => None,
            },
    {
        proof {
            use_type_invariant(self);
        }
        let mut i: usize = 0;
        while i < self.items.len()
            invariant
                i <= self.items.len(),
                self.items@.len() == self@.len(),
                sorted(self@),
                forall|k: int| 0 <= k < i ==> (#[trigger] self@[k]).name != name@,
            decreases self.items.len() - i,
        {
            if same_text(self.items[i].name(), name) {
                proof {
                    lemma_place(self@, name@);
                }
                return Some(i);
            }
            i = i + 1;
        }
        proof {
            lemma_place(self@, name@);
        }
        None
    }

    /// Takes the instances out, to work on them; the table is empty meanwhile.
    fn take(&mut self) -> (items: Vec<Firefox>)
        ensures
            views(items@) == old(self)@,
            items@.len() == old(self)@.len(),
            sorted(old(self)@),
            all_wf(old(self)@),
    {
        proof {
            use_type_invariant(&*self);
        }
        let mut items: Vec<Firefox> = Vec::new();
        std::mem::swap(&mut self.items, &mut items);
        items
    }

    /// Puts back the instances that `take` took out.
    fn restore(&mut self, items: Vec<Firefox>)
        requires
            sorted(views(items@)),
            all_wf(views(items@)),
        ensures
            final(self)@ == views(items@),
    {
        self.items = items;
    }

    /// Puts an instance into the table, in place of the one that has its name if there is one.
    pub fn insert(&mut self, firefox: Firefox)
        ensures
            final(self)@ == put(old(self)@, firefox@),
            sorted(final(self)@),
            all_wf(final(self)@),
    {
        let ghost before = self@;
        let ghost entry = firefox@;
        proof {
            use_type_invariant(&firefox);
        }
        let mut items = self.take();
        let mut i: usize = 0;
        while i < items.len() && precedes(items[i].name(), firefox.name())
            invariant
                i <= items.len(),
                views(items@) == before,
                firefox@ == entry,
                forall|k: int| 0 <= k < i ==> name_before((#[trigger] before[k]).name, entry.name),
            decreases items.len() - i,
        {
            assert(before[i as int] == items@[i as int]@);
            i = i + 1;
        }
        if i < items.len() && same_text(items[i].name(), firefox.name()) {
            assert(before[i as int] == items@[i as int]@);
            items[i] = firefox;
            assert(views(items@) =~= before.update(i as int, entry));
        } else {
            assert(i < items.len() ==> before[i as int] == items@[i as int]@);
            items.insert(i, firefox);
            assert(views(items@) =~= before.insert(i as int, entry));
        }
        proof {
            lemma_put_at(before, entry, i as int);
            lemma_put(before, entry);
            let after = views(items@);
            assert forall|k: int| 0 <= k < after.len() implies (#[trigger] after[k]).wf() by {
                assert(after.contains(after[k]));
                if after[k] != entry {
                    let m = choose|m: int| 0 <= m < before.len() && before[m] == after[k];
                }
            }
        }
        self.restore(items);
    }

    /// Changes the mode wanted of the instance at place `i`. Tells whether
    /// there is such an instance; where there is none, nothing changes.
    pub fn set_mode_at(&mut self, i: usize, mode: Mode) -> (done: bool)
        ensures
            done == (i < old(self)@.len()),
            final(self)@ == if done {
                old(self)@.update(
                    i as int,
                    FirefoxView { mode: mode.normalized(), ..old(self)@[i as int] },
                )
            } else {
                old(self)@
            },
            sorted(final(self)@),
            all_wf(final(self)@),
    {
        let ghost before = self@;
        let mut items = self.take();
        let done = i < items.len();
        if done {
            assert(before[i as int] == items@[i as int]@);
            items[i].set_mode(mode);
            proof {
                let changed = FirefoxView { mode: mode.normalized(), ..before[i as int] };
                assert(views(items@) =~= before.update(i as int, changed));
                lemma_update_keeps_order(before, i as int, changed);
            }
        }
        self.restore(items);
        done
    }

    /// Takes a fresh observation in for the instance at place `i`, and
    /// decides nothing: see [`Firefox::update`]. Tells whether there is such
    /// an instance; where there is none, nothing changes.
    pub fn update_at(
        &mut self,
        i: usize,
        pid: Option<i32>,
        facts: &Option<ProcessFacts>,
        group: Option<i32>,
        top_group: Option<i32>,
        xwin: &XWindow,
    ) -> (done: bool)
        ensures
            done == (i < old(self)@.len()),
            final(self)@ == if done {
                old(self)@.update(
                    i as int,
                    observe(
                        old(self)@[i as int],
                        pid,
                        facts.deep_view(),
                        group,
                        top_group,
                        xwin@.top_pid,
                    ),
                )
            } else {
                old(self)@
            },
            sorted(final(self)@),
            all_wf(final(self)@),
    {
        let ghost before = self@;
        let mut items = self.take();
        let done = i < items.len();
        if done {
            assert(before[i as int] == items@[i as int]@);
            items[i].update(pid, facts, group, top_group, xwin);
            proof {
                let changed = observe(
                    before[i as int],
                    pid,
                    facts.deep_view(),
                    group,
                    top_group,
                    xwin@.top_pid,
                );
                assert(views(items@) =~= before.update(i as int, changed));
                lemma_update_keeps_order(before, i as int, changed);
            }
        }
        self.restore(items);
        done
    }

    /// Decides what is to be done for the instance at place `i` as it was
    /// last observed, and books the state that the action leads to: see
    /// [`Firefox::apply_mode`]. Where there is no such instance, nothing
    /// changes and nothing is handed back.
    pub fn apply_mode_at(&mut self, i: usize) -> (action: Option<Action>)
        ensures
            action is Some <==> i < old(self)@.len(),
            action is Some ==> action->0 == applied(old(self)@[i as int]).0,
            final(self)@ == if i < old(self)@.len() {
                old(self)@.update(i as int, applied(old(self)@[i as int]).1)
            } else {
                old(self)@
            },
            sorted(final(self)@),
            all_wf(final(self)@),
    {
        let ghost before = self@;
        let mut items = self.take();
        let action = if i < items.len() {
            assert(before[i as int] == items@[i as int]@);
            let action = items[i].apply_mode();
            proof {
                let changed = applied(before[i as int]).1;
                assert(views(items@) =~= before.update(i as int, changed));
                lemma_update_keeps_order(before, i as int, changed);
            }
            Some(action)
        } else {
            None
        };
        self.restore(items);
        action
    }

    /// One turn of the reconciler for the instance at place `i`: takes the
    /// observation in, decides, and hands back what is to be done. Where
    /// there is no such instance, nothing changes and nothing is handed back.
    pub fn tick_at(
        &mut self,
        i: usize,
        pid: Option<i32>,
        facts: &Option<ProcessFacts>,
        group: Option<i32>,
        top_group: Option<i32>,
        xwin: &XWindow,
    ) -> (action: Option<Action>)
        ensures
            action is Some <==> i < old(self)@.len(),
            action is Some ==> action->0 == ticked(
                old(self)@[i as int],
                pid,
                facts.deep_view(),
                group,
                top_group,
                xwin@.top_pid,
            ).0,
            final(self)@ == if i < old(self)@.len() {
                old(self)@.update(
                    i as int,
                    ticked(
                        old(self)@[i as int],
                        pid,
                        facts.deep_view(),
                        group,
                        top_group,
                        xwin@.top_pid,
                    ).1,
                )
            } else {
                old(self)@
            },
            sorted(final(self)@),
            all_wf(final(self)@),
    {
        let ghost before = self@;
        let mut items = self.take();
        let action = if i < items.len() {
            assert(before[i as int] == items@[i as int]@);
            let action = items[i].tick(pid, facts, group, top_group, xwin);
            proof {
                let changed = ticked(
                    before[i as int],
                    pid,
                    facts.deep_view(),
                    group,
                    top_group,
                    xwin@.top_pid,
                ).1;
                assert(views(items@) =~= before.update(i as int, changed));
                lemma_update_keeps_order(before, i as int, changed);
            }
            Some(action)
        } else {
            None
        };
        self.restore(items);
        action
    }
}

/// Builds the table: one instance per profile, each with the mode that
/// `configs` asks for it. `home` is the user's home directory.
///
/// The instances are not observed yet: each is `Down`, without process and
/// focus, and holds the path of its lock link. The caller reads that link
/// and hands the first observation in with [`Fleet::update_at`], which
/// decides nothing.
pub fn firefoxes(profiles: Vec<Profile>, configs: &Vec<Config>, home: &str) -> (r: Fleet)
    ensures
        r@ == fleet_of(profiles.deep_view(), configs.deep_view(), home@),
        sorted(r@),
        all_wf(r@),
{
    let mut fleet = Fleet::new();
    let ghost all = profiles.deep_view();
    for p in it: profiles
        invariant
            it.seq().len() == all.len(),
            forall|k: int| 0 <= k < all.len() ==> all[k] == (#[trigger] it.seq()[k]).deep_view(),
            fleet@ == fleet_of(all.take(it.index() as int), configs.deep_view(), home@),
    {
        proof {
            let k = it.index() as int;
            assert(all.take(k + 1).drop_last() =~= all.take(k));
            assert(all.take(k + 1).last() == p.deep_view());
        }
        let mode = mode_for(configs, p.name.as_str());
        fleet.insert(Firefox::new(p, mode, home));
    }
    proof {
        assert(all.take(all.len() as int) =~= all);
        use_type_invariant(&fleet);
    }
    fleet
}

} // verus!
