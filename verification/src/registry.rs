//! The browser's registry of profiles: an INI document with one section per profile.
//!
//! The `ini` crate reads the document. Which sections are profiles, and what
//! their keys mean, is decided here.

use crate::firefox::{Profile, ProfileView};
use crate::text::{same_text, starts_with};
use ini::Ini;
use vstd::prelude::*;
use vstd::string::*;

verus! {

/// One section of an INI document: its name (`None` for what stands before
/// the first header) and its key-value pairs in the order written.
#[derive(Debug, Clone, PartialEq, Eq)]
pub struct Section {
    pub name: Option<String>,
    pub entries: Vec<(String, String)>,
}

/// Why a registry could not be read: the place in the text and the reader's message.
#[derive(Debug, Clone, PartialEq, Eq)]
pub struct RegistryError {
    pub line: usize,
    pub col: usize,
    pub message: String,
}

/// A section as plain text.
pub struct SectionView {
    pub name: Option<Seq<char>>,
    pub entries: Seq<(Seq<char>, Seq<char>)>,
}

/// A registry error as plain text.
pub struct RegistryErrorView {
    pub line: usize,
    pub col: usize,
    pub message: Seq<char>,
}

impl DeepView for Section {
    type V = SectionView;

    open spec fn deep_view(&self) -> SectionView {
        SectionView { name: self.name.deep_view(), entries: self.entries.deep_view() }
    }
}

impl DeepView for RegistryError {
    type V = RegistryErrorView;

    open spec fn deep_view(&self) -> RegistryErrorView {
        RegistryErrorView { line: self.line, col: self.col, message: self.message@ }
    }
}

/// What `ini::Ini::load_from_str` makes of a text: the sections it yields
/// when iterated, or the error it reports.
pub uninterp spec fn ini_document(text: Seq<char>) -> Result<Seq<SectionView>, RegistryErrorView>;

/// Calls `ini::Ini::load_from_str` and copies out what it found: every
/// section that `Ini::iter` yields, in that order, each with the pairs that
/// `Properties::iter` yields; or the position and message of the parse
/// error. The contract only gives that outcome a name.
#[verifier::external_body]
fn load_sections(text: &str) -> (r: Result<Vec<Section>, RegistryError>)
    ensures
        match r {
            Ok(sections) => ini_document(text@) == Ok::<Seq<SectionView>, RegistryErrorView>(
                sections.deep_view(),
            ),
            Err(error) => ini_document(text@) == Err::<Seq<SectionView>, RegistryErrorView>(
                error.deep_view(),
            ),
        },
{
    match Ini::load_from_str(text) {
        Ok(ini) => Ok(ini
            .iter()
            .map(|(name, properties)| Section {
                name: name.map(String::from),
                entries: properties.iter().map(|(k, v)| (k.to_string(), v.to_string())).collect(),
            })
            .collect()),
        Err(e) => Err(RegistryError { line: e.line, col: e.col, message: e.msg.into_owned() }),
    }
}

/// The text without a byte-order mark at its start.
pub open spec fn without_mark(text: Seq<char>) -> Seq<char> {
    if text.len() > 0 && text[0] == '\u{feff}' {
        text.skip(1)
    } else {
        text
    }
}

/// Drops a byte-order mark from the start of a text.
pub fn strip_mark(text: &str) -> (r: &str)
    ensures
        r@ == without_mark(text@),
{
    let n: usize = text.unicode_len();
    if n > 0 && text.get_char(0) == '\u{feff}' {
        let rest = text.substring_char(1, n);
        assert(rest@ =~= text@.skip(1));
        rest
    } else {
        text
    }
}

/// Whether a section describes a profile: its name begins with `Profile`.
pub open spec fn is_profile_section(section: SectionView) -> bool {
    section.name is Some && "Profile"@.is_prefix_of(section.name->0)
}

/// The value of the last pair with key `key`, if there is such a pair.
pub open spec fn last_value(entries: Seq<(Seq<char>, Seq<char>)>, key: Seq<char>) -> Option<
    Seq<char>,
>
    decreases entries.len(),
{
    if entries.len() == 0 {
        None
    } else if entries.last().0 == key {
        Some(entries.last().1)
    } else {
        last_value(entries.drop_last(), key)
    }
}

/// The profile that a section's pairs describe. `Name` and `Path` give the
/// name and the path, each empty where the key is missing. The path is
/// relative unless `IsRelative` is there with a value other than `1`. Where
/// a key stands more than once, its last value counts.
pub open spec fn profile_of(entries: Seq<(Seq<char>, Seq<char>)>) -> ProfileView {
    ProfileView {
        name: match last_value(entries, "Name"@) {
            Some(v) => v,
            None => Seq::empty(),
        },
        path: match last_value(entries, "Path"@) {
            Some(v) => v,
            None => Seq::empty(),
        },
        is_relative: match last_value(entries, "IsRelative"@) {
            Some(v) => v == "1"@,
            None => true,
        },
    }
}

/// The profiles of a document: one for each profile section, in the order of the sections.
pub open spec fn profiles_of(sections: Seq<SectionView>) -> Seq<ProfileView>
    decreases sections.len(),
{
    if sections.len() == 0 {
        Seq::empty()
    } else if is_profile_section(sections.last()) {
        profiles_of(sections.drop_last()).push(profile_of(sections.last().entries))
    } else {
        profiles_of(sections.drop_last())
    }
}

/// Reads one profile out of the pairs of its section.
pub fn profile_from_entries(entries: &Vec<(String, String)>) -> (r: Profile)
    ensures
        r.deep_view() == profile_of(entries.deep_view()),
{
    let mut profile = Profile { name: String::new(), path: String::new(), is_relative: true };
    let ghost all = entries.deep_view();
    let mut i: usize = 0;
    proof {
        reveal_strlit("Name");
        reveal_strlit("Path");
        reveal_strlit("IsRelative");
        assert("Name"@[0] != "Path"@[0]);
        assert("Name"@.len() != "IsRelative"@.len());
        assert("Path"@.len() != "IsRelative"@.len());
    }
    while i < entries.len()
        invariant
            i <= entries.len(),
            all == entries.deep_view(),
            "Name"@ != "Path"@,
            "Name"@ != "IsRelative"@,
            "Path"@ != "IsRelative"@,
            profile.deep_view() == profile_of(all.take(i as int)),
        decreases entries.len() - i,
    {
        proof {
            assert(all.take(i + 1).drop_last() =~= all.take(i as int));
            assert(all.take(i + 1).last() == all[i as int]);
            assert(all[i as int] == entries@[i as int].deep_view());
        }
        let key = entries[i].0.as_str();
        let value = entries[i].1.as_str();
        if same_text(key, "Name") {
            profile.name = String::from_str(value);
        } else if same_text(key, "Path") {
            profile.path = String::from_str(value);
        } else if same_text(key, "IsRelative") {
            profile.is_relative = same_text(value, "1");
        }
        i = i + 1;
    }
    proof {
        assert(all.take(i as int) =~= all);
    }
    profile
}

/// Picks the profiles out of the sections of a document.
pub fn profiles_from_sections(sections: &Vec<Section>) -> (r: Vec<Profile>)
    ensures
        r.deep_view() == profiles_of(sections.deep_view()),
{
    let mut profiles: Vec<Profile> = Vec::new();
    let ghost all = sections.deep_view();
    let mut i: usize = 0;
    proof {
        assert(profiles.deep_view() =~= profiles_of(all.take(0)));
    }
    while i < sections.len()
        invariant
            i <= sections.len(),
            all == sections.deep_view(),
            profiles.deep_view() == profiles_of(all.take(i as int)),
        decreases sections.len() - i,
    {
        proof {
            assert(all.take(i + 1).drop_last() =~= all.take(i as int));
            assert(all.take(i + 1).last() == sections@[i as int].deep_view());
        }
        let is_profile = match &sections[i].name {
            Some(name) => starts_with(name.as_str(), "Profile"),
            None => false,
        };
        if is_profile {
            let ghost before = profiles.deep_view();
            let profile = profile_from_entries(&sections[i].entries);
            profiles.push(profile);
            proof {
                assert(profiles.deep_view() =~= before.push(profile.deep_view()));
            }
        }
        i = i + 1;
    }
    proof {
        assert(all.take(i as int) =~= all);
    }
    profiles
}

/// Reads the profiles out of the text of a registry.
///
/// A byte-order mark at the start of the text is passed over. A text that
/// is no INI document is refused, with the place of the fault.
pub fn profiles(text: &str) -> (r: Result<Vec<Profile>, RegistryError>)
    ensures
        match ini_document(without_mark(text@)) {
            Ok(sections) => r is Ok && r->Ok_0.deep_view() == profiles_of(sections),
            Err(error) => r is Err && r->Err_0.deep_view() == error,
        },
{
    match load_sections(strip_mark(text)) {
        Ok(sections) => Ok(profiles_from_sections(&sections)),
        Err(error) => Err(error),
    }
}

} // verus!
