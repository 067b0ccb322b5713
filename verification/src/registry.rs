//! The tunnel registry: every live tunnel, keyed by its resolved local
//! address and partitioned by owning scope.
//!
//! Local addresses are unique across all live tunnels; registering a taken
//! address is refused before any state changes. Creation is idempotent per
//! `(scope, remote)` pair, removal tears the tunnel down, and removing a
//! scope's tunnels removes exactly those.

use vstd::prelude::*;
use vstd::seq_lib::*;
use vstd::string::StringExecFns;

use crate::errors::Error;
use crate::strutil::str_eq;
use crate::tunnel::Tunnel;

verus! {

/// The public face of one live tunnel: what listings and the control API
/// hand out. `latency` is an estimate in milliseconds; `-1` means unknown
/// or failed.
pub struct InstanceData {
    /// The display name.
    pub label: String,
    /// The remote WebSocket URL.
    pub remote: String,
    /// The resolved local bind address; the registry key.
    pub local: String,
    /// One-way latency estimate in milliseconds, `-1` when unknown.
    pub latency: i32,
    /// The owning scope's host.
    pub scope_host: String,
}

/// Mathematical image of [`InstanceData`].
pub ghost struct InstanceView {
    pub label: Seq<char>,
    pub remote: Seq<char>,
    pub local: Seq<char>,
    pub latency: i32,
    pub scope_host: Seq<char>,
}

impl View for InstanceData {
    type V = InstanceView;

    open spec fn view(&self) -> InstanceView {
        InstanceView {
            label: self.label@,
            remote: self.remote@,
            local: self.local@,
            latency: self.latency,
            scope_host: self.scope_host@,
        }
    }
}

impl Clone for InstanceData {
    fn clone(&self) -> (r: Self)
        ensures
            r@ == self@,
    {
        InstanceData {
            label: self.label.clone(),
            remote: self.remote.clone(),
            local: self.local.clone(),
            latency: self.latency,
            scope_host: self.scope_host.clone(),
        }
    }
}

/// One live tunnel as the registry owns it: its public data plus the tunnel
/// whose accept loop serves it.
pub struct ProxyInstance {
    /// The public data of the tunnel.
    pub data: InstanceData,
    tunnel: Tunnel,
}

impl View for ProxyInstance {
    type V = InstanceView;

    closed spec fn view(&self) -> InstanceView {
        self.data@
    }
}

impl ProxyInstance {
    /// Pairs the public data with the live tunnel serving it.
    pub fn new(data: InstanceData, tunnel: Tunnel) -> (r: ProxyInstance)
        ensures
            r@ == data@,
    {
        ProxyInstance { data, tunnel }
    }

    /// Tears the underlying tunnel down; idempotent and non-blocking.
    pub fn close(&self) {
        self.tunnel.close();
    }
}

/// No two instances share a local address.
pub open spec fn locals_unique(s: Seq<InstanceView>) -> bool {
    forall|i: int, j: int| 0 <= i < j < s.len() ==> s[i].local != s[j].local
}

/// Some instance is bound to this local address.
pub open spec fn has_local(s: Seq<InstanceView>, local: Seq<char>) -> bool {
    exists|i: int| 0 <= i < s.len() && s[i].local == local
}

/// The index of the instance bound to this local address; meaningful only
/// under [`has_local`] and [`locals_unique`].
pub open spec fn local_index(s: Seq<InstanceView>, local: Seq<char>) -> int {
    choose|i: int| 0 <= i < s.len() && s[i].local == local
}

/// The instance bound to this local address; meaningful only under
/// [`has_local`].
pub open spec fn instance_at(s: Seq<InstanceView>, local: Seq<char>) -> InstanceView {
    s[local_index(s, local)]
}

/// The instance serves this scope-and-remote pair.
pub open spec fn pair_matches(t: InstanceView, scope: Seq<char>, remote: Seq<char>) -> bool {
    t.scope_host == scope && t.remote == remote
}

/// Some instance serves this scope-and-remote pair.
pub open spec fn has_pair(s: Seq<InstanceView>, scope: Seq<char>, remote: Seq<char>) -> bool {
    exists|i: int| 0 <= i < s.len() && pair_matches(#[trigger] s[i], scope, remote)
}

/// The index of the first instance serving this pair; meaningful only under
/// [`has_pair`].
pub open spec fn first_pair_index(s: Seq<InstanceView>, scope: Seq<char>, remote: Seq<char>) -> int {
    choose|i: int|
        0 <= i < s.len() && pair_matches(#[trigger] s[i], scope, remote) && (forall|j: int|
            0 <= j < i ==> !pair_matches(#[trigger] s[j], scope, remote))
}

/// The listing for one scope: exactly its instances, in registry order.
pub open spec fn spec_list(s: Seq<InstanceView>, scope: Seq<char>) -> Seq<InstanceView> {
    s.filter(|t: InstanceView| t.scope_host == scope)
}

/// The registry after an idempotent-create probe: when the pair exists its
/// first instance takes the new label, otherwise nothing changes.
pub open spec fn spec_relabel(
    s: Seq<InstanceView>,
    scope: Seq<char>,
    remote: Seq<char>,
    label: Seq<char>,
) -> Seq<InstanceView> {
    if has_pair(s, scope, remote) {
        let i = first_pair_index(s, scope, remote);
        s.update(i, InstanceView { label, ..s[i] })
    } else {
        s
    }
}

/// The registry after registering a freshly bound instance: refused without
/// a change when the local address is taken, appended otherwise.
pub open spec fn spec_register(s: Seq<InstanceView>, v: InstanceView) -> Seq<InstanceView> {
    if has_local(s, v.local) {
        s
    } else {
        s.push(v)
    }
}

/// The registry after removing the instance at this local address; order of
/// the rest kept, unchanged when the address is unknown.
pub open spec fn spec_remove(s: Seq<InstanceView>, local: Seq<char>) -> Seq<InstanceView> {
    if has_local(s, local) {
        s.remove(local_index(s, local))
    } else {
        s
    }
}

/// The registry after removing every instance of one scope.
pub open spec fn spec_remove_all(s: Seq<InstanceView>, scope: Seq<char>) -> Seq<InstanceView> {
    s.filter(|t: InstanceView| t.scope_host != scope)
}

/// The registry after the health monitor recorded a probe result for the
/// instance at this local address.
pub open spec fn spec_set_latency(
    s: Seq<InstanceView>,
    local: Seq<char>,
    latency: i32,
) -> Seq<InstanceView> {
    if has_local(s, local) {
        let i = local_index(s, local);
        s.update(i, InstanceView { latency, ..s[i] })
    } else {
        s
    }
}

/// The registry of live tunnels.
pub struct TunnelRegistry {
    instances: Vec<ProxyInstance>,
}

impl View for TunnelRegistry {
    type V = Seq<InstanceView>;

    closed spec fn view(&self) -> Seq<InstanceView> {
        self.instances@.map_values(|p: ProxyInstance| p@)
    }
}

impl TunnelRegistry {
    /// The registry is well formed: local addresses are unique.
    pub open spec fn wf(&self) -> bool {
        locals_unique(self@)
    }

    /// An empty registry.
    pub fn new() -> (r: TunnelRegistry)
        ensures
            r.wf(),
            r@ == Seq::<InstanceView>::empty(),
    {
        let r = TunnelRegistry { instances: Vec::new() };
        proof {
            assert(r@ =~= Seq::<InstanceView>::empty());
        }
        r
    }

    /// The index of the instance bound to `local`.
    fn find_local(&self, local: &str) -> (r: Option<usize>)
        ensures
            r matches Some(i) ==> 0 <= i < self@.len() && self@[i as int].local == local@,
            r is None ==> !has_local(self@, local@),
    {
        let mut i: usize = 0;
        while i < self.instances.len()
            invariant
                0 <= i <= self.instances@.len(),
                forall|j: int| 0 <= j < i ==> self.instances@[j]@.local != local@,
            decreases self.instances@.len() - i,
        {
            if str_eq(self.instances[i].data.local.as_str(), local) {
                return Some(i);
            }
            i += 1;
        }
        proof {
            assert(forall|j: int| 0 <= j < self@.len() ==> self@[j].local != local@);
        }
        None
    }

    /// The index of the first instance serving `(scope, remote)`.
    fn find_pair(&self, scope: &str, remote: &str) -> (r: Option<usize>)
        ensures
            r matches Some(i) ==> 0 <= i < self@.len() && pair_matches(
                self@[i as int],
                scope@,
                remote@,
            ) && (forall|j: int| 0 <= j < i ==> !pair_matches(self@[j], scope@, remote@)),
            r is None ==> !has_pair(self@, scope@, remote@),
    {
        let mut i: usize = 0;
        while i < self.instances.len()
            invariant
                0 <= i <= self.instances@.len(),
                forall|j: int| 0 <= j < i ==> !pair_matches(#[trigger] self@[j], scope@, remote@),
            decreases self.instances@.len() - i,
        {
            proof {
                assert(self@[i as int] == self.instances@[i as int]@);
            }
            if str_eq(self.instances[i].data.scope_host.as_str(), scope) && str_eq(
                self.instances[i].data.remote.as_str(),
                remote,
            ) {
                return Some(i);
            }
            i += 1;
        }
        None
    }

    /// Under uniqueness, any index holding `local` is the chosen one.
    proof fn lemma_local_found(s: Seq<InstanceView>, local: Seq<char>, i: int)
        requires
            locals_unique(s),
            0 <= i < s.len(),
            s[i].local == local,
        ensures
            has_local(s, local),
            local_index(s, local) == i,
    {
        assert(has_local(s, local));
        let k = local_index(s, local);
        if k != i {
            if k < i {
                assert(s[k].local != s[i].local);
            } else {
                assert(s[i].local != s[k].local);
            }
        }
    }

    /// An index that matches the pair with no earlier match is the first.
    proof fn lemma_first_pair_found(s: Seq<InstanceView>, scope: Seq<char>, remote: Seq<char>, i: int)
        requires
            0 <= i < s.len(),
            pair_matches(s[i], scope, remote),
            forall|j: int| 0 <= j < i ==> !pair_matches(#[trigger] s[j], scope, remote),
        ensures
            has_pair(s, scope, remote),
            first_pair_index(s, scope, remote) == i,
    {
        assert(has_pair(s, scope, remote));
        let k = first_pair_index(s, scope, remote);
        assert(0 <= k < s.len() && pair_matches(s[k], scope, remote) && (forall|j: int|
            0 <= j < k ==> !pair_matches(#[trigger] s[j], scope, remote)));
        if k < i {
            assert(!pair_matches(s[k], scope, remote));
        }
        if i < k {
            assert(!pair_matches(s[i], scope, remote));
        }
    }

    /// Appending an instance with a fresh local address keeps locals unique.
    proof fn lemma_unique_push(s: Seq<InstanceView>, v: InstanceView)
        requires
            locals_unique(s),
            !has_local(s, v.local),
        ensures
            locals_unique(s.push(v)),
    {
        let out = s.push(v);
        assert forall|a: int, b: int| 0 <= a < b < out.len() implies out[a].local
            != out[b].local by {
            if b < s.len() {
            } else {
                assert(out[b].local == v.local);
                assert(out[a] == s[a]);
            }
        }
    }

    /// Replacing an instance by one with the same local address keeps
    /// locals unique.
    proof fn lemma_unique_update(s: Seq<InstanceView>, i: int, v: InstanceView)
        requires
            locals_unique(s),
            0 <= i < s.len(),
            v.local == s[i].local,
        ensures
            locals_unique(s.update(i, v)),
    {
        let out = s.update(i, v);
        assert forall|a: int, b: int| 0 <= a < b < out.len() implies out[a].local
            != out[b].local by {
            assert(out[a].local == s[a].local);
            assert(out[b].local == s[b].local);
        }
    }

    /// Deleting an instance keeps locals unique.
    proof fn lemma_unique_remove(s: Seq<InstanceView>, i: int)
        requires
            locals_unique(s),
            0 <= i < s.len(),
        ensures
            locals_unique(s.remove(i)),
    {
        let out = s.remove(i);
        assert forall|a: int, b: int| 0 <= a < b < out.len() implies out[a].local
            != out[b].local by {
            let pa = if a < i { a } else { a + 1 };
            let pb = if b < i { b } else { b + 1 };
            assert(out[a] == s[pa]);
            assert(out[b] == s[pb]);
        }
    }

    /// The idempotent-create probe: when an instance for `(scope, remote)`
    /// already exists, its label is revised and its public data returned,
    /// and no new tunnel may be created; otherwise nothing changes and the
    /// caller may bind and register a fresh tunnel.
    pub fn create_plan(&mut self, scope: &str, remote: &str, label: &str) -> (r: Option<
        InstanceData,
    >)
        requires
            old(self).wf(),
        ensures
            final(self).wf(),
            final(self)@ == spec_relabel(old(self)@, scope@, remote@, label@),
            r is Some <==> has_pair(old(self)@, scope@, remote@),
            r matches Some(d) ==> d@ == spec_relabel(old(self)@, scope@, remote@, label@)[
                first_pair_index(old(self)@, scope@, remote@)],
    {
        match self.find_pair(scope, remote) {
            Some(i) => {
                proof {
                    Self::lemma_first_pair_found(self@, scope@, remote@, i as int);
                }
                self.instances[i].data.label = String::from_str(label);
                let updated = self.instances[i].data.clone();
                proof {
                    let prev = old(self)@;
                    let k = first_pair_index(prev, scope@, remote@);
                    assert(self@ =~= prev.update(k, InstanceView { label: label@, ..prev[k] }));
                    Self::lemma_unique_update(prev, k, self@[k]);
                }
                Some(updated)
            }
            None => None,
        }
    }

    /// Registers a freshly bound tunnel. A taken local address is refused
    /// with `BindConflict`: the registry is unchanged and the new tunnel is
    /// torn down before any caller sees it. Otherwise the instance joins
    /// the registry and its public data is returned.
    pub fn register(&mut self, inst: ProxyInstance) -> (r: Result<InstanceData, Error>)
        requires
            old(self).wf(),
        ensures
            final(self).wf(),
            final(self)@ == spec_register(old(self)@, inst@),
            r is Ok <==> !has_local(old(self)@, inst@.local),
            r matches Ok(d) ==> d@ == inst@ && final(self)@ == old(self)@.push(inst@),
            r matches Err(e) ==> e == Error::BindConflict && final(self)@ == old(self)@,
    {
        match self.find_local(inst.data.local.as_str()) {
            Some(_) => {
                inst.close();
                Err(Error::BindConflict)
            }
            None => {
                let data = inst.data.clone();
                let ghost prev = self@;
                self.instances.push(inst);
                proof {
                    assert(self@ =~= prev.push(inst@));
                    Self::lemma_unique_push(prev, inst@);
                }
                Ok(data)
            }
        }
    }

    /// Removes and tears down the tunnel bound to `local`; an unknown
    /// address is an error and nothing changes.
    pub fn remove(&mut self, local: &str) -> (r: Result<InstanceData, Error>)
        requires
            old(self).wf(),
        ensures
            final(self).wf(),
            final(self)@ == spec_remove(old(self)@, local@),
            r is Ok <==> has_local(old(self)@, local@),
            r matches Ok(d) ==> d@ == instance_at(old(self)@, local@),
            r matches Err(e) ==> e == Error::UnknownTunnel,
    {
        match self.find_local(local) {
            Some(i) => {
                proof {
                    Self::lemma_local_found(self@, local@, i as int);
                }
                let inst = self.instances.remove(i);
                inst.close();
                proof {
                    let prev = old(self)@;
                    let k = local_index(prev, local@);
                    assert(self@ =~= prev.remove(k));
                    Self::lemma_unique_remove(prev, k);
                }
                Ok(inst.data)
            }
            None => Err(Error::UnknownTunnel),
        }
    }

    /// Removes the tunnel bound to `local` only when `scope` owns it: an
    /// unknown address is `UnknownTunnel`, a tunnel of another scope is
    /// `Unauthorized`, and in both cases the registry is unchanged and the
    /// tunnel, if any, stays listed for its true owner.
    pub fn remove_scoped(&mut self, local: &str, scope: &str) -> (r: Result<InstanceData, Error>)
        requires
            old(self).wf(),
        ensures
            final(self).wf(),
            r is Ok <==> (has_local(old(self)@, local@) && instance_at(old(self)@, local@)
                .scope_host == scope@),
            r matches Ok(d) ==> d@ == instance_at(old(self)@, local@) && final(self)@
                == spec_remove(old(self)@, local@),
            r is Err ==> final(self)@ == old(self)@,
            !has_local(old(self)@, local@) ==> r == Err::<InstanceData, Error>(
                Error::UnknownTunnel,
            ),
            has_local(old(self)@, local@) && instance_at(old(self)@, local@).scope_host != scope@
                ==> r == Err::<InstanceData, Error>(Error::Unauthorized),
    {
        match self.find_local(local) {
            Some(i) => {
                proof {
                    Self::lemma_local_found(self@, local@, i as int);
                }
                if !str_eq(self.instances[i].data.scope_host.as_str(), scope) {
                    return Err(Error::Unauthorized);
                }
                self.remove(local)
            }
            None => Err(Error::UnknownTunnel),
        }
    }

    /// Removes and tears down every tunnel owned by `scope`, returning the
    /// public data of the removed tunnels; everything else keeps its order.
    pub fn remove_all(&mut self, scope: &str) -> (r: Vec<InstanceData>)
        requires
            old(self).wf(),
        ensures
            final(self).wf(),
            final(self)@ == spec_remove_all(old(self)@, scope@),
            r@.map_values(|d: InstanceData| d@) == spec_list(old(self)@, scope@),
    {
        let mut drain: Vec<ProxyInstance> = Vec::new();
        std::mem::swap(&mut self.instances, &mut drain);
        let ghost orig = drain@.map_values(|p: ProxyInstance| p@);
        let mut removed: Vec<InstanceData> = Vec::new();
        proof {
            assert(orig == old(self)@);
            assert(self@ =~= Seq::<InstanceView>::empty());
            assert(orig.subrange(0, 0) =~= Seq::<InstanceView>::empty());
            reveal(Seq::filter);
            assert(self@ + drain@.map_values(|p: ProxyInstance| p@) =~= orig);
        }
        let ghost mut done: int = 0;
        while drain.len() > 0
            invariant
                0 <= done <= orig.len(),
                orig.len() - done == drain@.len(),
                drain@.map_values(|p: ProxyInstance| p@) =~= orig.subrange(done, orig.len() as int),
                self@ == orig.subrange(0, done).filter(|t: InstanceView| t.scope_host != scope@),
                removed@.map_values(|d: InstanceData| d@) == orig.subrange(0, done).filter(
                    |t: InstanceView| t.scope_host == scope@,
                ),
                locals_unique(self@ + drain@.map_values(|p: ProxyInstance| p@)),
            decreases drain@.len(),
        {
            let ghost dv = drain@.map_values(|p: ProxyInstance| p@);
            let ghost kept_pre = self@;
            let ghost removed_pre = removed@.map_values(|d: InstanceData| d@);
            let inst = drain.remove(0);
            proof {
                assert(dv[0] == orig[done]);
                assert(drain@.map_values(|p: ProxyInstance| p@) =~= dv.subrange(1, dv.len() as int));
                assert(drain@.map_values(|p: ProxyInstance| p@) =~= orig.subrange(
                    done + 1,
                    orig.len() as int,
                ));
                let pre = orig.subrange(0, done);
                let nxt = orig.subrange(0, done + 1);
                assert(nxt.drop_last() =~= pre);
                assert(nxt.last() == orig[done]);
                reveal(Seq::filter);
            }
            if str_eq(inst.data.scope_host.as_str(), scope) {
                inst.close();
                removed.push(inst.data);
                proof {
                    assert(removed@.map_values(|d: InstanceData| d@) =~= removed_pre.push(
                        orig[done],
                    ));
                    let combined_pre = kept_pre + dv;
                    let combined = kept_pre + dv.subrange(1, dv.len() as int);
                    assert(combined =~= combined_pre.remove(kept_pre.len() as int));
                    Self::lemma_unique_remove(combined_pre, kept_pre.len() as int);
                }
            } else {
                let ghost prev = self@;
                self.instances.push(inst);
                proof {
                    assert(self@ =~= prev.push(orig[done]));
                    let combined_pre = kept_pre + dv;
                    let combined = self@ + dv.subrange(1, dv.len() as int);
                    assert(combined =~= combined_pre);
                }
            }
            proof {
                done = done + 1;
            }
        }
        proof {
            assert(orig.subrange(0, orig.len() as int) =~= orig);
            assert(self@ + drain@.map_values(|p: ProxyInstance| p@) =~= self@);
        }
        removed
    }

    /// The public data of the tunnel bound to `local`, if one exists.
    pub fn get(&self, local: &str) -> (r: Option<InstanceData>)
        requires
            self.wf(),
        ensures
            r matches Some(d) ==> has_local(self@, local@) && d@ == instance_at(self@, local@),
            r is None <==> !has_local(self@, local@),
    {
        match self.find_local(local) {
            Some(i) => {
                proof {
                    Self::lemma_local_found(self@, local@, i as int);
                }
                Some(self.instances[i].data.clone())
            }
            None => None,
        }
    }

    /// The listing for one scope: the public data of exactly its tunnels,
    /// in registry order. A scope never sees another scope's tunnels.
    pub fn list(&self, scope: &str) -> (r: Vec<InstanceData>)
        ensures
            r@.map_values(|d: InstanceData| d@) == spec_list(self@, scope@),
    {
        let mut out: Vec<InstanceData> = Vec::new();
        let mut i: usize = 0;
        proof {
            reveal(Seq::filter);
            assert(self@.subrange(0, 0) =~= Seq::<InstanceView>::empty());
        }
        while i < self.instances.len()
            invariant
                0 <= i <= self.instances@.len(),
                self@.len() == self.instances@.len(),
                out@.map_values(|d: InstanceData| d@) == self@.subrange(0, i as int).filter(
                    |t: InstanceView| t.scope_host == scope@,
                ),
            decreases self.instances@.len() - i,
        {
            let ghost out_pre = out@.map_values(|d: InstanceData| d@);
            proof {
                let pre = self@.subrange(0, i as int);
                let nxt = self@.subrange(0, i + 1);
                assert(nxt.drop_last() =~= pre);
                assert(nxt.last() == self@[i as int]);
                assert(self@[i as int] == self.instances@[i as int]@);
                reveal(Seq::filter);
            }
            if str_eq(self.instances[i].data.scope_host.as_str(), scope) {
                out.push(self.instances[i].data.clone());
                proof {
                    assert(out@.map_values(|d: InstanceData| d@) =~= out_pre.push(
                        self@[i as int],
                    ));
                }
            }
            i += 1;
        }
        proof {
            assert(self@.subrange(0, self@.len() as int) =~= self@);
        }
        out
    }

    /// The public data of every live tunnel, in registry order; the health
    /// monitor's per-tick snapshot.
    pub fn all(&self) -> (r: Vec<InstanceData>)
        ensures
            r@.map_values(|d: InstanceData| d@) == self@,
    {
        let mut out: Vec<InstanceData> = Vec::new();
        let mut i: usize = 0;
        while i < self.instances.len()
            invariant
                0 <= i <= self.instances@.len(),
                out@.len() == i,
                forall|j: int| 0 <= j < i ==> out@[j]@ == self@[j],
            decreases self.instances@.len() - i,
        {
            out.push(self.instances[i].data.clone());
            i += 1;
        }
        proof {
            assert(out@.map_values(|d: InstanceData| d@) =~= self@);
        }
        out
    }

    /// Records a probe result for the tunnel bound to `local`; reports
    /// whether such a tunnel exists. Nothing else changes.
    pub fn set_latency(&mut self, local: &str, latency: i32) -> (r: bool)
        requires
            old(self).wf(),
        ensures
            final(self).wf(),
            final(self)@ == spec_set_latency(old(self)@, local@, latency),
            r == has_local(old(self)@, local@),
    {
        match self.find_local(local) {
            Some(i) => {
                proof {
                    Self::lemma_local_found(self@, local@, i as int);
                }
                self.instances[i].data.latency = latency;
                proof {
                    let prev = old(self)@;
                    let k = local_index(prev, local@);
                    assert(self@ =~= prev.update(k, InstanceView { latency, ..prev[k] }));
                    Self::lemma_unique_update(prev, k, self@[k]);
                }
                true
            }
            None => false,
        }
    }
}

/// Law: local addresses never collide. A registration succeeds exactly when
/// its local address is free, a successful registration keeps all local
/// addresses distinct, and a refused registration changes nothing.
pub proof fn lemma_local_addresses_unique(s: Seq<InstanceView>, v: InstanceView)
    requires
        locals_unique(s),
    ensures
        has_local(s, v.local) ==> spec_register(s, v) == s,
        !has_local(s, v.local) ==> spec_register(s, v) == s.push(v),
        locals_unique(spec_register(s, v)),
{
    if !has_local(s, v.local) {
        let out = spec_register(s, v);
        assert forall|a: int, b: int| 0 <= a < b < out.len() implies out[a].local
            != out[b].local by {
            if b < s.len() {
            } else {
                assert(out[b].local == v.local);
            }
        }
    }
}

/// Law: creation is idempotent per `(scope, remote)` pair. Once an instance
/// for the pair is registered, a second creation probe finds it first, hands
/// back the same local address, and grows nothing — no second tunnel, hence
/// no second accept loop, comes to exist.
pub proof fn lemma_create_idempotent(s: Seq<InstanceView>, v: InstanceView, label: Seq<char>)
    requires
        locals_unique(s),
        !has_pair(s, v.scope_host, v.remote),
        !has_local(s, v.local),
    ensures
        has_pair(spec_register(s, v), v.scope_host, v.remote),
        spec_relabel(spec_register(s, v), v.scope_host, v.remote, label).len() == spec_register(
            s,
            v,
        ).len(),
        spec_relabel(spec_register(s, v), v.scope_host, v.remote, label)[first_pair_index(
            spec_register(s, v),
            v.scope_host,
            v.remote,
        )].local == v.local,
{
    let s1 = spec_register(s, v);
    assert(s1 == s.push(v));
    assert(s1[s.len() as int] == v);
    assert(pair_matches(s1[s.len() as int], v.scope_host, v.remote));
    assert forall|j: int| 0 <= j < s.len() implies !pair_matches(
        #[trigger] s1[j],
        v.scope_host,
        v.remote,
    ) by {
        assert(s1[j] == s[j]);
        if pair_matches(s[j], v.scope_host, v.remote) {
            assert(has_pair(s, v.scope_host, v.remote));
        }
    }
    assert(has_pair(s1, v.scope_host, v.remote));
    let k = first_pair_index(s1, v.scope_host, v.remote);
    assert(0 <= k < s1.len() && pair_matches(s1[k], v.scope_host, v.remote));
    assert(s1[k].local == v.local || k < s.len());
    if k < s.len() {
        assert(pair_matches(s1[k], v.scope_host, v.remote));
        assert(!pair_matches(s1[k], v.scope_host, v.remote));
    }
}

/// Law: removing a scope removes every tunnel whose owner it is, and the
/// listing for that scope afterwards is empty.
pub proof fn lemma_remove_all_clears_scope(s: Seq<InstanceView>, scope: Seq<char>)
    ensures
        spec_list(spec_remove_all(s, scope), scope) == Seq::<InstanceView>::empty(),
    decreases s.len(),
{
    reveal(Seq::filter);
    let keep = |t: InstanceView| t.scope_host != scope;
    let pick = |t: InstanceView| t.scope_host == scope;
    if s.len() == 0 {
        assert(s.filter(keep) =~= Seq::<InstanceView>::empty());
        assert(s.filter(keep).filter(pick) =~= Seq::<InstanceView>::empty());
    } else {
        lemma_remove_all_clears_scope(s.drop_last(), scope);
        let inner_pre = s.drop_last().filter(keep);
        if keep(s.last()) {
            assert(s.filter(keep) == inner_pre.push(s.last()));
            assert(inner_pre.push(s.last()).drop_last() =~= inner_pre);
            assert(inner_pre.push(s.last()).last() == s.last());
            assert(!pick(s.last()));
            assert(s.filter(keep).filter(pick) == inner_pre.filter(pick));
        } else {
            assert(s.filter(keep) == inner_pre);
        }
    }
}

} // verus!
