//! Feature flags a scope may hold, and the per-feature settings types.
//!
//! A scope's capabilities form a fixed set of independent booleans. On the
//! wire they travel as a list of lower-case names; the mapping between the
//! flag set and the names lives here and nowhere else.

use vstd::prelude::*;

use crate::strutil::str_eq;

verus! {

/// The set of independent capabilities a scope may hold.
#[derive(Clone, Copy, Debug, PartialEq, Eq, Structural)]
pub struct FeatureFlags {
    /// Plain tunnel management.
    pub basic: bool,
    /// Automatic eviction of tunnels whose remote fails health probes.
    pub pingfall: bool,
}

/// The wire names of the flags held by `f`, in the fixed order of the
/// feature table: `basic` first, then `pingfall`.
pub open spec fn feature_name_seq(f: FeatureFlags) -> Seq<Seq<char>> {
    let s = Seq::<Seq<char>>::empty();
    let s = if f.basic { s.push("basic"@) } else { s };
    if f.pingfall { s.push("pingfall"@) } else { s }
}

/// The flag set named by a list of wire names; unknown names are ignored.
pub open spec fn parse_features(names: Seq<Seq<char>>) -> FeatureFlags {
    FeatureFlags { basic: names.contains("basic"@), pingfall: names.contains("pingfall"@) }
}

impl FeatureFlags {
    /// No capabilities at all.
    pub fn empty() -> (r: FeatureFlags)
        ensures
            r == (FeatureFlags { basic: false, pingfall: false }),
    {
        FeatureFlags { basic: false, pingfall: false }
    }

    /// Plain tunnel management only.
    pub fn basic_only() -> (r: FeatureFlags)
        ensures
            r == (FeatureFlags { basic: true, pingfall: false }),
    {
        FeatureFlags { basic: true, pingfall: false }
    }

    /// The wire names of the flags held, in the fixed feature-table order.
    pub fn as_feature_vec(&self) -> (r: Vec<&'static str>)
        ensures
            r@.map_values(|x: &'static str| x@) == feature_name_seq(*self),
    {
        let mut flags: Vec<&'static str> = Vec::new();
        if self.basic {
            flags.push("basic");
        }
        if self.pingfall {
            flags.push("pingfall");
        }
        proof {
            assert(flags@.map_values(|x: &'static str| x@) =~= feature_name_seq(*self));
        }
        flags
    }

    /// The flag set named by a list of wire names; unknown names are ignored.
    pub fn from_feature_names(names: &Vec<String>) -> (r: FeatureFlags)
        ensures
            r == parse_features(names@.map_values(|s: String| s@)),
    {
        let mut basic = false;
        let mut pingfall = false;
        let mut i: usize = 0;
        while i < names.len()
            invariant
                0 <= i <= names@.len(),
                basic == (exists|j: int| 0 <= j < i && names@[j]@ == "basic"@),
                pingfall == (exists|j: int| 0 <= j < i && names@[j]@ == "pingfall"@),
            decreases names@.len() - i,
        {
            if str_eq(names[i].as_str(), "basic") {
                basic = true;
            }
            if str_eq(names[i].as_str(), "pingfall") {
                pingfall = true;
            }
            i += 1;
        }
        proof {
            let mapped = names@.map_values(|s: String| s@);
            assert(basic == mapped.contains("basic"@)) by {
                if basic {
                    let j = choose|j: int| 0 <= j < names@.len() && names@[j]@ == "basic"@;
                    assert(mapped[j] == "basic"@);
                } else {
                    if mapped.contains("basic"@) {
                        let j = choose|j: int| 0 <= j < mapped.len() && mapped[j] == "basic"@;
                        assert(names@[j]@ == "basic"@);
                    }
                }
            }
            assert(pingfall == mapped.contains("pingfall"@)) by {
                if pingfall {
                    let j = choose|j: int| 0 <= j < names@.len() && names@[j]@ == "pingfall"@;
                    assert(mapped[j] == "pingfall"@);
                } else {
                    if mapped.contains("pingfall"@) {
                        let j = choose|j: int| 0 <= j < mapped.len() && mapped[j] == "pingfall"@;
                        assert(names@[j]@ == "pingfall"@);
                    }
                }
            }
        }
        FeatureFlags { basic, pingfall }
    }
}

/// Naming a flag set and parsing the names back yields the same set.
pub proof fn lemma_feature_names_roundtrip(f: FeatureFlags)
    ensures
        parse_features(feature_name_seq(f)) == f,
{
    reveal_strlit("basic");
    reveal_strlit("pingfall");
    assert("basic"@.len() == 5);
    assert("pingfall"@.len() == 8);
    let names = feature_name_seq(f);
    if f.basic {
        assert(names[0] == "basic"@);
        assert(names.contains("basic"@));
    }
    if f.pingfall {
        assert(names[names.len() - 1] == "pingfall"@);
        assert(names.contains("pingfall"@));
    }
    if !f.basic && names.contains("basic"@) {
        let j = choose|j: int| 0 <= j < names.len() && names[j] == "basic"@;
        assert(names[j].len() == 8);
    }
    if !f.pingfall && names.contains("pingfall"@) {
        let j = choose|j: int| 0 <= j < names.len() && names[j] == "pingfall"@;
        assert(names[j].len() == 5);
    }
}

/// Settings body for the `basic` feature; it carries nothing today.
#[derive(Clone, Copy, Debug)]
pub struct BasicSettings {}

/// Settings body for the `pingfall` feature.
pub struct PingFallSettings {
    /// Probe response status codes that trigger eviction; empty means any
    /// non-success status does.
    pub fail_status: Vec<u16>,
    /// Whether a transport-level probe failure (no status at all) evicts.
    pub drop_unknown: bool,
}

/// Mathematical image of [`PingFallSettings`].
pub ghost struct PingFallSettingsView {
    pub fail_status: Seq<u16>,
    pub drop_unknown: bool,
}

impl View for PingFallSettings {
    type V = PingFallSettingsView;

    open spec fn view(&self) -> PingFallSettingsView {
        PingFallSettingsView { fail_status: self.fail_status@, drop_unknown: self.drop_unknown }
    }
}

impl Clone for PingFallSettings {
    fn clone(&self) -> (r: Self)
        ensures
            r@ == self@,
    {
        PingFallSettings { fail_status: self.fail_status.clone(), drop_unknown: self.drop_unknown }
    }
}

impl PingFallSettings {
    /// The default policy: no status code is singled out, transport
    /// failures do not evict.
    pub fn new_default() -> (r: PingFallSettings)
        ensures
            r@.fail_status == Seq::<u16>::empty(),
            !r@.drop_unknown,
    {
        PingFallSettings { fail_status: Vec::new(), drop_unknown: false }
    }

    /// Whether `code` is one of the configured fail statuses.
    pub fn contains_status(&self, code: u16) -> (r: bool)
        ensures
            r == self@.fail_status.contains(code),
    {
        let mut i: usize = 0;
        while i < self.fail_status.len()
            invariant
                0 <= i <= self.fail_status@.len(),
                forall|j: int| 0 <= j < i ==> self.fail_status@[j] != code,
            decreases self.fail_status@.len() - i,
        {
            if self.fail_status[i] == code {
                return true;
            }
            i += 1;
        }
        false
    }
}

} // verus!
