//! The modes that the user's configuration asks for.

use crate::firefox::Mode;
use crate::text::same_text;
use vstd::prelude::*;

verus! {

/// One record of the configuration: the mode wanted for the profile of that name.
#[derive(Debug, Clone, PartialEq, Eq)]
pub struct Config {
    pub name: String,
    pub mode: Mode,
}

/// A record as plain text.
pub struct ConfigView {
    pub name: Seq<char>,
    pub mode: Mode,
}

impl DeepView for Config {
    type V = ConfigView;

    open spec fn deep_view(&self) -> ConfigView {
        ConfigView { name: self.name@, mode: self.mode }
    }
}

/// The mode that `configs` asks for profile `name`: that of the first record
/// with this name, with "unspecified" read as `AsIs`; `AsIs` where no record
/// has the name.
pub open spec fn mode_of(configs: Seq<ConfigView>, name: Seq<char>) -> Mode
    decreases configs.len(),
{
    if configs.len() == 0 {
        Mode::AsIs
    } else if configs[0].name == name {
        configs[0].mode.normalized()
    } else {
        mode_of(configs.drop_first(), name)
    }
}

/// Looks up the mode wanted for profile `name`.
pub fn mode_for(configs: &Vec<Config>, name: &str) -> (r: Mode)
    ensures
        r == mode_of(configs.deep_view(), name@),
        r != Mode::Unspecified,
{
    let ghost all = configs.deep_view();
    let mut i: usize = 0;
    proof {
        assert(all.skip(0) =~= all);
    }
    while i < configs.len()
        invariant
            i <= configs.len(),
            all == configs.deep_view(),
            mode_of(all, name@) == mode_of(all.skip(i as int), name@),
        decreases configs.len() - i,
    {
        proof {
            assert(all.skip(i as int).drop_first() =~= all.skip(i + 1));
            assert(all.skip(i as int)[0] == configs@[i as int].deep_view());
        }
        if same_text(configs[i].name.as_str(), name) {
            return configs[i].mode.normalize();
        }
        i = i + 1;
    }
    Mode::AsIs
}

} // verus!
