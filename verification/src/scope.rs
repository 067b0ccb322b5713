//! The access-control plane: the state machine over scopes.
//!
//! A scope is a remote origin that may request, and once approved manage,
//! its own tunnels. Each scope progresses Pending → Allowed and never back;
//! revocation is deletion. At most one record exists per host, and every
//! operation here preserves that.

use vstd::prelude::*;
use vstd::string::StringExecFns;

use crate::errors::Error;
use crate::flags::{FeatureFlags, PingFallSettings, PingFallSettingsView};
use crate::strutil::{is_suffix_of, str_eq, str_ends_with};

verus! {

/// Where a scope stands in its lifecycle.
#[derive(Clone, Copy, Debug, PartialEq, Eq, Structural)]
pub enum ScopeState {
    /// Access was requested and awaits operator approval.
    Pending,
    /// An operator approved the scope; it may manage its tunnels.
    Allowed,
}

/// `a` precedes or equals `b` in the one-way scope lifecycle.
pub open spec fn state_le(a: ScopeState, b: ScopeState) -> bool {
    a == b || (a is Pending && b is Allowed)
}

/// The free-form per-scope settings, reduced to the shapes the core reads.
pub struct ScopeSettings {
    /// The declared pingfall policy, if the scope declared one.
    pub pingfall: Option<PingFallSettings>,
}

/// Mathematical image of [`ScopeSettings`].
pub ghost struct ScopeSettingsView {
    pub pingfall: Option<PingFallSettingsView>,
}

impl View for ScopeSettings {
    type V = ScopeSettingsView;

    open spec fn view(&self) -> ScopeSettingsView {
        ScopeSettingsView {
            pingfall: match self.pingfall {
                Some(p) => Some(p@),
                None => None,
            },
        }
    }
}

impl Clone for ScopeSettings {
    fn clone(&self) -> (r: Self)
        ensures
            r@ == self@,
    {
        ScopeSettings {
            pingfall: match &self.pingfall {
                Some(p) => Some(p.clone()),
                None => None,
            },
        }
    }
}

impl ScopeSettings {
    /// Settings that declare nothing.
    pub fn none() -> (r: ScopeSettings)
        ensures
            r@.pingfall is None,
    {
        ScopeSettings { pingfall: None }
    }
}

/// One registered scope: a remote origin together with its display name,
/// lifecycle state, capabilities and settings.
pub struct ScopeData {
    /// The origin string; the primary key.
    pub host: String,
    /// A display name for operators.
    pub name: String,
    /// Where the scope stands in its lifecycle.
    pub state: ScopeState,
    /// The capabilities the scope holds.
    pub features: FeatureFlags,
    /// The scope's declared settings.
    pub settings: ScopeSettings,
}

/// Mathematical image of [`ScopeData`].
pub ghost struct ScopeView {
    pub host: Seq<char>,
    pub name: Seq<char>,
    pub state: ScopeState,
    pub features: FeatureFlags,
    pub settings: ScopeSettingsView,
}

impl View for ScopeData {
    type V = ScopeView;

    open spec fn view(&self) -> ScopeView {
        ScopeView {
            host: self.host@,
            name: self.name@,
            state: self.state,
            features: self.features,
            settings: self.settings@,
        }
    }
}

impl Clone for ScopeData {
    fn clone(&self) -> (r: Self)
        ensures
            r@ == self@,
    {
        ScopeData {
            host: self.host.clone(),
            name: self.name.clone(),
            state: self.state,
            features: self.features,
            settings: self.settings.clone(),
        }
    }
}

/// No two records share a host.
pub open spec fn hosts_unique(s: Seq<ScopeView>) -> bool {
    forall|i: int, j: int| 0 <= i < j < s.len() ==> s[i].host != s[j].host
}

/// Some record has this host.
pub open spec fn has_host(s: Seq<ScopeView>, host: Seq<char>) -> bool {
    exists|i: int| 0 <= i < s.len() && s[i].host == host
}

/// The index of the record with this host; meaningful only under
/// [`has_host`] and [`hosts_unique`].
pub open spec fn host_index(s: Seq<ScopeView>, host: Seq<char>) -> int {
    choose|i: int| 0 <= i < s.len() && s[i].host == host
}

/// The record with this host; meaningful only under [`has_host`].
pub open spec fn scope_of(s: Seq<ScopeView>, host: Seq<char>) -> ScopeView {
    s[host_index(s, host)]
}

/// What `check` answers for an origin.
#[derive(Clone, Copy, Debug, PartialEq, Eq, Structural)]
pub enum CheckResult {
    /// The origin has an approved scope.
    Allowed,
    /// The origin's scope still awaits approval.
    Pending,
    /// The origin has no scope at all.
    Forbidden,
}

/// What `request` found or did.
#[derive(Clone, Copy, Debug, PartialEq, Eq, Structural)]
pub enum RequestOutcome {
    /// A fresh Pending record was created.
    Created,
    /// A record already existed and still awaits approval.
    AlreadyPending,
    /// A record already existed and is approved.
    AlreadyAllowed,
}

/// The authorization answer for an origin: Allowed or Pending after its
/// record's state, Forbidden when no record exists.
pub open spec fn spec_check(s: Seq<ScopeView>, origin: Seq<char>) -> CheckResult {
    if has_host(s, origin) {
        if scope_of(s, origin).state is Allowed {
            CheckResult::Allowed
        } else {
            CheckResult::Pending
        }
    } else {
        CheckResult::Forbidden
    }
}

/// The table after a request: unchanged when the origin already has a
/// record, extended by a fresh Pending record otherwise. An empty display
/// name defaults to the origin itself.
pub open spec fn spec_request(
    s: Seq<ScopeView>,
    origin: Seq<char>,
    name: Seq<char>,
    features: FeatureFlags,
    settings: ScopeSettingsView,
) -> Seq<ScopeView> {
    if has_host(s, origin) {
        s
    } else {
        s.push(
            ScopeView {
                host: origin,
                name: if name.len() == 0 { origin } else { name },
                state: ScopeState::Pending,
                features,
                settings,
            },
        )
    }
}

/// The table after an approval: the origin's record moved to Allowed,
/// everything else untouched; unchanged when no record exists.
pub open spec fn spec_approve(s: Seq<ScopeView>, origin: Seq<char>) -> Seq<ScopeView> {
    if has_host(s, origin) {
        let i = host_index(s, origin);
        s.update(i, ScopeView { state: ScopeState::Allowed, ..s[i] })
    } else {
        s
    }
}

/// The table after a metadata update: the origin's record carries the new
/// name, features and settings but keeps its state; unchanged when no
/// record exists.
pub open spec fn spec_update(
    s: Seq<ScopeView>,
    origin: Seq<char>,
    name: Seq<char>,
    features: FeatureFlags,
    settings: ScopeSettingsView,
) -> Seq<ScopeView> {
    if has_host(s, origin) {
        let i = host_index(s, origin);
        s.update(i, ScopeView { name, features, settings, ..s[i] })
    } else {
        s
    }
}

/// The table after a revocation: the origin's record removed, order of the
/// rest kept; unchanged when no record exists.
pub open spec fn spec_revoke(s: Seq<ScopeView>, origin: Seq<char>) -> Seq<ScopeView> {
    if has_host(s, origin) {
        s.remove(host_index(s, origin))
    } else {
        s
    }
}

/// The CORS gate for origin-scoped mutations: the origin must end with the
/// host of some Allowed scope.
pub open spec fn spec_cors_allows(s: Seq<ScopeView>, origin: Seq<char>) -> bool {
    exists|i: int|
        0 <= i < s.len() && s[i].state is Allowed && is_suffix_of(#[trigger] s[i].host, origin)
}

/// The access-control plane: one table of scopes, one record per host.
pub struct AccessControlPlane {
    scopes: Vec<ScopeData>,
}

impl View for AccessControlPlane {
    type V = Seq<ScopeView>;

    closed spec fn view(&self) -> Seq<ScopeView> {
        self.scopes@.map_values(|sc: ScopeData| sc@)
    }
}

impl AccessControlPlane {
    /// The table is well formed: no two records share a host.
    pub open spec fn wf(&self) -> bool {
        hosts_unique(self@)
    }

    /// An empty plane: nobody is known, everything is Forbidden.
    pub fn new() -> (r: AccessControlPlane)
        ensures
            r.wf(),
            r@ == Seq::<ScopeView>::empty(),
    {
        let r = AccessControlPlane { scopes: Vec::new() };
        proof {
            assert(r@ =~= Seq::<ScopeView>::empty());
        }
        r
    }

    /// The index of the record whose host equals `origin`.
    fn find(&self, origin: &str) -> (r: Option<usize>)
        ensures
            r matches Some(i) ==> 0 <= i < self@.len() && self@[i as int].host == origin@,
            r is None ==> !has_host(self@, origin@),
    {
        let mut i: usize = 0;
        while i < self.scopes.len()
            invariant
                0 <= i <= self.scopes@.len(),
                forall|j: int| 0 <= j < i ==> self.scopes@[j]@.host != origin@,
            decreases self.scopes@.len() - i,
        {
            if str_eq(self.scopes[i].host.as_str(), origin) {
                return Some(i);
            }
            i += 1;
        }
        proof {
            assert(forall|j: int| 0 <= j < self@.len() ==> self@[j].host != origin@);
        }
        None
    }

    /// Under uniqueness, any index holding `origin` is the chosen one.
    proof fn lemma_found_index(s: Seq<ScopeView>, origin: Seq<char>, i: int)
        requires
            hosts_unique(s),
            0 <= i < s.len(),
            s[i].host == origin,
        ensures
            has_host(s, origin),
            host_index(s, origin) == i,
    {
        assert(has_host(s, origin));
        let k = host_index(s, origin);
        if k != i {
            if k < i {
                assert(s[k].host != s[i].host);
            } else {
                assert(s[i].host != s[k].host);
            }
        }
    }

    /// Appending a record with a fresh host keeps hosts unique.
    proof fn lemma_unique_push(s: Seq<ScopeView>, v: ScopeView)
        requires
            hosts_unique(s),
            !has_host(s, v.host),
        ensures
            hosts_unique(s.push(v)),
    {
        let out = s.push(v);
        assert forall|a: int, b: int| 0 <= a < b < out.len() implies out[a].host
            != out[b].host by {
            if b < s.len() {
            } else {
                assert(out[b].host == v.host);
                assert(out[a] == s[a]);
            }
        }
    }

    /// Replacing a record by one with the same host keeps hosts unique.
    proof fn lemma_unique_update(s: Seq<ScopeView>, i: int, v: ScopeView)
        requires
            hosts_unique(s),
            0 <= i < s.len(),
            v.host == s[i].host,
        ensures
            hosts_unique(s.update(i, v)),
    {
        let out = s.update(i, v);
        assert forall|a: int, b: int| 0 <= a < b < out.len() implies out[a].host
            != out[b].host by {
            assert(out[a].host == s[a].host);
            assert(out[b].host == s[b].host);
        }
    }

    /// Deleting a record keeps hosts unique.
    proof fn lemma_unique_remove(s: Seq<ScopeView>, i: int)
        requires
            hosts_unique(s),
            0 <= i < s.len(),
        ensures
            hosts_unique(s.remove(i)),
    {
        let out = s.remove(i);
        assert forall|a: int, b: int| 0 <= a < b < out.len() implies out[a].host
            != out[b].host by {
            let pa = if a < i { a } else { a + 1 };
            let pb = if b < i { b } else { b + 1 };
            assert(out[a] == s[pa]);
            assert(out[b] == s[pb]);
        }
    }

    /// Authorization for an origin: Allowed, Pending, or Forbidden when no
    /// record exists.
    pub fn check(&self, origin: &str) -> (r: CheckResult)
        requires
            self.wf(),
        ensures
            r == spec_check(self@, origin@),
    {
        match self.find(origin) {
            Some(i) => {
                proof {
                    Self::lemma_found_index(self@, origin@, i as int);
                }
                match self.scopes[i].state {
                    ScopeState::Allowed => CheckResult::Allowed,
                    ScopeState::Pending => CheckResult::Pending,
                }
            }
            None => CheckResult::Forbidden,
        }
    }

    /// Idempotently requests access for an origin: creates a Pending record
    /// when none exists, reports the existing record's state otherwise and
    /// changes nothing.
    pub fn request(
        &mut self,
        origin: &str,
        name: String,
        features: FeatureFlags,
        settings: ScopeSettings,
    ) -> (r: RequestOutcome)
        requires
            old(self).wf(),
        ensures
            final(self).wf(),
            final(self)@ == spec_request(old(self)@, origin@, name@, features, settings@),
            r is Created <==> !has_host(old(self)@, origin@),
            r is AlreadyAllowed <==> (has_host(old(self)@, origin@) && scope_of(
                old(self)@,
                origin@,
            ).state is Allowed),
            r is AlreadyPending <==> (has_host(old(self)@, origin@) && scope_of(
                old(self)@,
                origin@,
            ).state is Pending),
    {
        match self.find(origin) {
            Some(i) => {
                proof {
                    Self::lemma_found_index(self@, origin@, i as int);
                }
                match self.scopes[i].state {
                    ScopeState::Allowed => RequestOutcome::AlreadyAllowed,
                    ScopeState::Pending => RequestOutcome::AlreadyPending,
                }
            }
            None => {
                let record_name = if name.as_str().unicode_len() == 0 {
                    String::from_str(origin)
                } else {
                    name
                };
                let record = ScopeData {
                    host: String::from_str(origin),
                    name: record_name,
                    state: ScopeState::Pending,
                    features,
                    settings,
                };
                self.scopes.push(record);
                proof {
                    let prev = old(self)@;
                    assert(self@ =~= spec_request(prev, origin@, name@, features, settings@));
                    Self::lemma_unique_push(prev, self@.last());
                }
                RequestOutcome::Created
            }
        }
    }

    /// Approves an origin's scope: Pending moves to Allowed, an already
    /// Allowed scope stays Allowed, an unknown origin is an error and
    /// nothing changes.
    pub fn approve(&mut self, origin: &str) -> (r: Result<(), Error>)
        requires
            old(self).wf(),
        ensures
            final(self).wf(),
            final(self)@ == spec_approve(old(self)@, origin@),
            r is Ok <==> has_host(old(self)@, origin@),
            r matches Err(e) ==> e == Error::UnknownScope,
    {
        match self.find(origin) {
            Some(i) => {
                proof {
                    Self::lemma_found_index(self@, origin@, i as int);
                }
                self.scopes[i].state = ScopeState::Allowed;
                proof {
                    let prev = old(self)@;
                    let k = host_index(prev, origin@);
                    assert(self@ =~= prev.update(
                        k,
                        ScopeView { state: ScopeState::Allowed, ..prev[k] },
                    ));
                    Self::lemma_unique_update(prev, k, self@[k]);
                }
                Ok(())
            }
            None => Err(Error::UnknownScope),
        }
    }

    /// Revises an origin's declared metadata without changing its state;
    /// an unknown origin is an error and nothing changes.
    pub fn update(
        &mut self,
        origin: &str,
        name: String,
        features: FeatureFlags,
        settings: ScopeSettings,
    ) -> (r: Result<(), Error>)
        requires
            old(self).wf(),
        ensures
            final(self).wf(),
            final(self)@ == spec_update(old(self)@, origin@, name@, features, settings@),
            r is Ok <==> has_host(old(self)@, origin@),
            r matches Err(e) ==> e == Error::UnknownScope,
    {
        match self.find(origin) {
            Some(i) => {
                proof {
                    Self::lemma_found_index(self@, origin@, i as int);
                }
                self.scopes[i].name = name;
                self.scopes[i].features = features;
                self.scopes[i].settings = settings;
                proof {
                    let prev = old(self)@;
                    let k = host_index(prev, origin@);
                    assert(self@ =~= prev.update(
                        k,
                        ScopeView { name: name@, features, settings: settings@, ..prev[k] },
                    ));
                    Self::lemma_unique_update(prev, k, self@[k]);
                }
                Ok(())
            }
            None => Err(Error::UnknownScope),
        }
    }

    /// Deletes an origin's scope and hands the removed record back; an
    /// unknown origin is an error and nothing changes. The caller owes the
    /// cascade: every tunnel of the removed scope must be torn down.
    pub fn revoke(&mut self, origin: &str) -> (r: Result<ScopeData, Error>)
        requires
            old(self).wf(),
        ensures
            final(self).wf(),
            final(self)@ == spec_revoke(old(self)@, origin@),
            r matches Ok(sc) ==> has_host(old(self)@, origin@) && sc@ == scope_of(
                old(self)@,
                origin@,
            ),
            r is Err <==> !has_host(old(self)@, origin@),
            r matches Err(e) ==> e == Error::UnknownScope,
    {
        match self.find(origin) {
            Some(i) => {
                proof {
                    Self::lemma_found_index(self@, origin@, i as int);
                }
                let removed = self.scopes.remove(i);
                proof {
                    let prev = old(self)@;
                    let k = host_index(prev, origin@);
                    assert(self@ =~= prev.remove(k));
                    Self::lemma_unique_remove(prev, k);
                }
                Ok(removed)
            }
            None => Err(Error::UnknownScope),
        }
    }

    /// The CORS gate for origin-scoped mutations: the origin must end with
    /// the host of some Allowed scope. The comparison is a suffix match,
    /// mirroring the control plane's deliberately permissive policy.
    pub fn cors_allows(&self, origin: &str) -> (r: bool)
        ensures
            r == spec_cors_allows(self@, origin@),
    {
        let mut i: usize = 0;
        while i < self.scopes.len()
            invariant
                0 <= i <= self.scopes@.len(),
                forall|j: int| #![trigger self.scopes@[j]]
                    0 <= j < i ==> !(self.scopes@[j]@.state is Allowed && is_suffix_of(
                        self.scopes@[j]@.host,
                        origin@,
                    )),
            decreases self.scopes@.len() - i,
        {
            let allowed = match self.scopes[i].state {
                ScopeState::Allowed => true,
                ScopeState::Pending => false,
            };
            if allowed && str_ends_with(origin, self.scopes[i].host.as_str()) {
                proof {
                    let k = i as int;
                    assert(self@[k] == self.scopes@[k]@);
                    assert(self@[k].state is Allowed && is_suffix_of(self@[k].host, origin@));
                }
                return true;
            }
            i += 1;
        }
        false
    }

    /// The record for an origin, if one exists.
    pub fn get(&self, origin: &str) -> (r: Option<ScopeData>)
        requires
            self.wf(),
        ensures
            r matches Some(sc) ==> has_host(self@, origin@) && sc@ == scope_of(self@, origin@),
            r is None <==> !has_host(self@, origin@),
    {
        match self.find(origin) {
            Some(i) => {
                proof {
                    Self::lemma_found_index(self@, origin@, i as int);
                }
                Some(self.scopes[i].clone())
            }
            None => None,
        }
    }

    /// A snapshot of the whole table, for listings and for the persistence
    /// collaborator at shutdown.
    pub fn snapshot(&self) -> (r: Vec<ScopeData>)
        ensures
            r@.map_values(|sc: ScopeData| sc@) == self@,
    {
        let mut out: Vec<ScopeData> = Vec::new();
        let mut i: usize = 0;
        while i < self.scopes.len()
            invariant
                0 <= i <= self.scopes@.len(),
                out@.len() == i,
                forall|j: int| 0 <= j < i ==> out@[j]@ == self.scopes@[j]@,
            decreases self.scopes@.len() - i,
        {
            out.push(self.scopes[i].clone());
            i += 1;
        }
        proof {
            assert(out@.map_values(|sc: ScopeData| sc@) =~= self@);
        }
        out
    }

    /// Builds a plane from records supplied by the persistence collaborator
    /// at startup, keeping the first record for each host and dropping any
    /// later duplicate.
    pub fn from_scopes(list: Vec<ScopeData>) -> (r: AccessControlPlane)
        ensures
            r.wf(),
            r@ == spec_load(list@.map_values(|sc: ScopeData| sc@)),
    {
        let ghost all = list@.map_values(|sc: ScopeData| sc@);
        let mut plane = AccessControlPlane::new();
        let mut i: usize = 0;
        proof {
            assert(all.subrange(0, 0) =~= Seq::<ScopeView>::empty());
            assert(plane@ == spec_load(all.subrange(0, 0)));
        }
        while i < list.len()
            invariant
                0 <= i <= list@.len(),
                all == list@.map_values(|sc: ScopeData| sc@),
                plane.wf(),
                plane@ == spec_load(all.subrange(0, i as int)),
            decreases list@.len() - i,
        {
            let item = list[i].clone();
            proof {
                let step = all.subrange(0, i + 1);
                assert(step.drop_last() =~= all.subrange(0, i as int));
                assert(step.last() == item@);
            }
            if plane.find(item.host.as_str()).is_none() {
                let ghost prev = plane@;
                plane.scopes.push(item);
                proof {
                    assert(plane@ =~= prev.push(all[i as int]));
                    Self::lemma_unique_push(prev, all[i as int]);
                    assert(plane@ =~= spec_add_scope(prev, all[i as int]));
                }
            } else {
                proof {
                    assert(plane@ =~= spec_add_scope(plane@, all[i as int]));
                }
            }
            i += 1;
        }
        proof {
            assert(all.subrange(0, list@.len() as int) =~= all);
        }
        plane
    }
}

/// One step of [`spec_load`]: keep the table when the host is taken,
/// append the record otherwise.
pub open spec fn spec_add_scope(s: Seq<ScopeView>, sc: ScopeView) -> Seq<ScopeView> {
    if has_host(s, sc.host) {
        s
    } else {
        s.push(sc)
    }
}

/// The table built from a startup list, first record per host winning.
pub open spec fn spec_load(list: Seq<ScopeView>) -> Seq<ScopeView>
    decreases list.len(),
{
    if list.len() == 0 {
        Seq::empty()
    } else {
        spec_add_scope(spec_load(list.drop_last()), list.last())
    }
}

/// Law: approving twice is the same as approving once.
pub proof fn lemma_approve_idempotent(s: Seq<ScopeView>, origin: Seq<char>)
    requires
        hosts_unique(s),
    ensures
        spec_approve(spec_approve(s, origin), origin) == spec_approve(s, origin),
{
    if has_host(s, origin) {
        let k = host_index(s, origin);
        let once = spec_approve(s, origin);
        assert(once[k].host == origin);
        assert(has_host(once, origin));
        let k2 = host_index(once, origin);
        assert(once[k2].host == origin);
        assert(s[k2].host == origin);
        if k2 != k {
            if k2 < k {
                assert(s[k2].host != s[k].host);
            } else {
                assert(s[k].host != s[k2].host);
            }
        }
        assert(spec_approve(once, origin) =~= once);
    }
}

/// Law: a scope's state only ever moves forward, Pending to Allowed.
/// Approval promotes at most the named scope and touches no other field;
/// a metadata update never changes any state; a request leaves every
/// existing record untouched — in particular it cannot demote an Allowed
/// scope back to Pending.
pub proof fn lemma_state_monotone(
    s: Seq<ScopeView>,
    origin: Seq<char>,
    name: Seq<char>,
    features: FeatureFlags,
    settings: ScopeSettingsView,
)
    requires
        hosts_unique(s),
    ensures
        spec_approve(s, origin).len() == s.len(),
        forall|j: int| #![auto]
            0 <= j < s.len() ==> state_le(s[j].state, spec_approve(s, origin)[j].state),
        forall|j: int| #![auto]
            0 <= j < s.len() ==> spec_approve(s, origin)[j].host == s[j].host,
        spec_update(s, origin, name, features, settings).len() == s.len(),
        forall|j: int| #![auto]
            0 <= j < s.len() ==> spec_update(s, origin, name, features, settings)[j].state
                == s[j].state,
        forall|j: int| #![auto]
            0 <= j < s.len() ==> spec_request(s, origin, name, features, settings)[j] == s[j],
{
}

/// Law: requesting access for an origin that already has a record changes
/// nothing, whatever state the record is in.
pub proof fn lemma_request_existing_identity(
    s: Seq<ScopeView>,
    origin: Seq<char>,
    name: Seq<char>,
    features: FeatureFlags,
    settings: ScopeSettingsView,
)
    requires
        has_host(s, origin),
    ensures
        spec_request(s, origin, name, features, settings) == s,
{
}

} // verus!
