//! Persistent state: the active profile and the pinned package versions.

use vstd::prelude::*;

verus! {

use crate::dict::Dict;

/// The state remembered across invocations.
pub struct State {
    /// The currently active profile, if one was chosen.
    pub active_profile: Option<String>,
    /// Package name to pinned version.
    pub pinned_versions: Dict<String>,
}

/// The abstract value of a `State`.
pub struct StateView {
    pub active_profile: Option<Seq<char>>,
    pub pinned_versions: Map<Seq<char>, Seq<char>>,
}

impl View for State {
    type V = StateView;

    open spec fn view(&self) -> StateView {
        StateView {
            active_profile: self.active_profile.deep_view(),
            pinned_versions: self.pinned_versions@,
        }
    }
}

impl Default for State {
    /// The state of a fresh installation: no profile, no pins.
    fn default() -> (r: Self)
        ensures
            r@.active_profile is None,
            r@.pinned_versions =~= Map::<Seq<char>, Seq<char>>::empty(),
            r.wf(),
    {
        State { active_profile: None, pinned_versions: Dict::new() }
    }
}

impl State {
    /// Well-formed: the pin table holds distinct keys.
    pub open spec fn wf(&self) -> bool {
        self.pinned_versions.wf()
    }

    /// Makes `name` the active profile.
    pub fn set_active_profile(&mut self, name: String)
        ensures
            final(self)@.active_profile == Some(name@),
            final(self)@.pinned_versions == old(self)@.pinned_versions,
            final(self).wf() == old(self).wf(),
    {
        self.active_profile = Some(name);
    }

    /// Pins `version` for the package called `name`, replacing any earlier
    /// pin.
    pub fn set_pin(&mut self, name: String, version: String)
        requires
            old(self).wf(),
        ensures
            final(self).wf(),
            final(self)@.active_profile == old(self)@.active_profile,
            final(self)@.pinned_versions =~= old(self)@.pinned_versions.insert(name@, version@),
    {
        self.pinned_versions.insert(name, version);
    }
}

} // verus!
