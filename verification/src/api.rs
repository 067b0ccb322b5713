//! The control-API decision layer: routing, status codes, and the
//! composite operations the HTTP boundary performs on the two tables.
//!
//! The unverified shell parses HTTP and JSON, then calls one function here
//! per request; everything the request decides — authorization, status
//! code, table changes, cascades — is decided in this module or in the
//! tables it delegates to.

use vstd::prelude::*;

use crate::errors::Error;
use crate::flags::FeatureFlags;
use crate::registry::{
    spec_list, spec_register, spec_remove_all, InstanceData, InstanceView, TunnelRegistry,
};
use crate::scope::{
    has_host, hosts_unique, scope_of, spec_check, spec_request, spec_revoke, spec_update,
    AccessControlPlane, CheckResult, RequestOutcome, ScopeData, ScopeSettings, ScopeSettingsView,
    ScopeView,
};
use crate::strutil::str_eq;

verus! {

/// The HTTP methods the control API routes.
#[derive(Clone, Copy, Debug, PartialEq, Eq, Structural)]
pub enum HttpMethod {
    Get,
    Post,
    Patch,
    Delete,
}

/// The endpoints of the control API.
#[derive(Clone, Copy, Debug, PartialEq, Eq, Structural)]
pub enum Endpoint {
    /// GET `/pool`: list the caller's tunnels.
    PoolList,
    /// POST `/pool`: create or idempotently fetch a tunnel.
    PoolCreate,
    /// DELETE `/pool`: close one of the caller's tunnels.
    PoolDelete,
    /// GET `/connect`: poll the caller's authorization state.
    ConnectStatus,
    /// POST `/connect`: request access.
    ConnectRequest,
    /// PATCH `/connect`: update the caller's scope metadata.
    ConnectUpdate,
    /// GET `/version`: the process version string.
    Version,
    /// POST `/popup`: ask the presentation layer to surface its window.
    Popup,
}

/// Which cross-origin policy guards an endpoint: the `/pool` family is
/// reachable only from origins that suffix-match an Allowed scope, the
/// discovery endpoints from any origin.
#[derive(Clone, Copy, Debug, PartialEq, Eq, Structural)]
pub enum CorsClass {
    Scoped,
    AnyOrigin,
}

/// The routing table: which endpoint and CORS policy serve a method and
/// path, if any.
pub open spec fn spec_route(m: HttpMethod, p: Seq<char>) -> Option<(Endpoint, CorsClass)> {
    if p == "/pool"@ {
        match m {
            HttpMethod::Get => Some((Endpoint::PoolList, CorsClass::Scoped)),
            HttpMethod::Post => Some((Endpoint::PoolCreate, CorsClass::Scoped)),
            HttpMethod::Delete => Some((Endpoint::PoolDelete, CorsClass::Scoped)),
            HttpMethod::Patch => None,
        }
    } else if p == "/connect"@ {
        match m {
            HttpMethod::Get => Some((Endpoint::ConnectStatus, CorsClass::AnyOrigin)),
            HttpMethod::Post => Some((Endpoint::ConnectRequest, CorsClass::AnyOrigin)),
            HttpMethod::Patch => Some((Endpoint::ConnectUpdate, CorsClass::AnyOrigin)),
            HttpMethod::Delete => None,
        }
    } else if p == "/version"@ {
        match m {
            HttpMethod::Get => Some((Endpoint::Version, CorsClass::AnyOrigin)),
            _ => None,
        }
    } else if p == "/popup"@ {
        match m {
            HttpMethod::Post => Some((Endpoint::Popup, CorsClass::AnyOrigin)),
            _ => None,
        }
    } else {
        None
    }
}

/// Routes one request line to its endpoint and CORS policy.
pub fn route(method: HttpMethod, path: &str) -> (r: Option<(Endpoint, CorsClass)>)
    ensures
        r == spec_route(method, path@),
{
    if str_eq(path, "/pool") {
        match method {
            HttpMethod::Get => Some((Endpoint::PoolList, CorsClass::Scoped)),
            HttpMethod::Post => Some((Endpoint::PoolCreate, CorsClass::Scoped)),
            HttpMethod::Delete => Some((Endpoint::PoolDelete, CorsClass::Scoped)),
            HttpMethod::Patch => None,
        }
    } else if str_eq(path, "/connect") {
        match method {
            HttpMethod::Get => Some((Endpoint::ConnectStatus, CorsClass::AnyOrigin)),
            HttpMethod::Post => Some((Endpoint::ConnectRequest, CorsClass::AnyOrigin)),
            HttpMethod::Patch => Some((Endpoint::ConnectUpdate, CorsClass::AnyOrigin)),
            HttpMethod::Delete => None,
        }
    } else if str_eq(path, "/version") {
        match method {
            HttpMethod::Get => Some((Endpoint::Version, CorsClass::AnyOrigin)),
            _ => None,
        }
    } else if str_eq(path, "/popup") {
        match method {
            HttpMethod::Post => Some((Endpoint::Popup, CorsClass::AnyOrigin)),
            _ => None,
        }
    } else {
        None
    }
}

/// The HTTP status each error is reported with: request-local faults are
/// client errors, a failed bind or transport fault is a server error.
pub open spec fn spec_error_status(e: Error) -> u16 {
    match e {
        Error::AddressParse => 400,
        Error::BindConflict => 400,
        Error::BindFailure => 500,
        Error::ConnectFailure => 502,
        Error::Transport(_) => 500,
        Error::UnknownScope => 403,
        Error::UnknownTunnel => 400,
        Error::Unauthorized => 400,
    }
}

/// Maps an error to the HTTP status it is reported with.
pub fn error_status(e: &Error) -> (r: u16)
    ensures
        r == spec_error_status(*e),
{
    match e {
        Error::AddressParse => 400,
        Error::BindConflict => 400,
        Error::BindFailure => 500,
        Error::ConnectFailure => 502,
        Error::Transport(_) => 500,
        Error::UnknownScope => 403,
        Error::UnknownTunnel => 400,
        Error::Unauthorized => 400,
    }
}

/// Everything the control API holds: the tunnel registry and the
/// access-control plane. The shell guards this with one writer lock and
/// passes it to the functions below.
pub struct ServerState {
    /// The live tunnels.
    pub instances: TunnelRegistry,
    /// The scope table.
    pub scopes: AccessControlPlane,
}

impl ServerState {
    /// Both tables are well formed.
    pub open spec fn wf(&self) -> bool {
        self.instances.wf() && self.scopes.wf()
    }

    /// A fresh state: no tunnels, no scopes.
    pub fn new() -> (r: ServerState)
        ensures
            r.wf(),
            r.instances@ == Seq::<crate::registry::InstanceView>::empty(),
            r.scopes@ == Seq::<crate::scope::ScopeView>::empty(),
    {
        ServerState { instances: TunnelRegistry::new(), scopes: AccessControlPlane::new() }
    }
}

/// GET `/pool`: the caller's own tunnels, and never another scope's.
pub fn get_pool(state: &ServerState, origin: &str) -> (r: (u16, Vec<InstanceData>))
    ensures
        r.0 == 200,
        r.1@.map_values(|d: InstanceData| d@) == spec_list(state.instances@, origin@),
{
    (200, state.instances.list(origin))
}

/// DELETE `/pool`: closes the caller's tunnel at `local`. A tunnel that
/// does not exist, or that belongs to another scope, is refused with a
/// client error and stays as it was.
pub fn delete_pool(state: &mut ServerState, origin: &str, local: &str) -> (r: (
    u16,
    Result<InstanceData, Error>,
))
    requires
        old(state).wf(),
    ensures
        final(state).wf(),
        final(state).scopes@ == old(state).scopes@,
        r.1 matches Ok(d) ==> r.0 == 200 && final(state).instances@ == crate::registry::spec_remove(
            old(state).instances@,
            local@,
        ) && d@ == crate::registry::instance_at(old(state).instances@, local@),
        r.1 is Err ==> final(state).instances@ == old(state).instances@,
        r.1 matches Err(e) ==> r.0 == spec_error_status(e) && r.0 == 400,
        r.1 is Ok <==> (crate::registry::has_local(old(state).instances@, local@)
            && crate::registry::instance_at(old(state).instances@, local@).scope_host == origin@),
        !crate::registry::has_local(old(state).instances@, local@) ==> r.1 == Err::<
            InstanceData,
            Error,
        >(Error::UnknownTunnel),
        crate::registry::has_local(old(state).instances@, local@) && crate::registry::instance_at(
            old(state).instances@,
            local@,
        ).scope_host != origin@ ==> r.1 == Err::<InstanceData, Error>(Error::Unauthorized),
{
    let res = state.instances.remove_scoped(local, origin);
    match &res {
        Ok(_) => (200, res),
        Err(e) => (error_status(e), res),
    }
}

/// GET `/connect`: the caller's authorization state as a status code —
/// 201 while Pending, 202 once Allowed, 403 for an unknown origin.
pub fn get_connect(state: &ServerState, origin: &str) -> (r: u16)
    requires
        state.wf(),
    ensures
        spec_check(state.scopes@, origin@) is Pending ==> r == 201,
        spec_check(state.scopes@, origin@) is Allowed ==> r == 202,
        spec_check(state.scopes@, origin@) is Forbidden ==> r == 403,
{
    match state.scopes.check(origin) {
        CheckResult::Pending => 201,
        CheckResult::Allowed => 202,
        CheckResult::Forbidden => 403,
    }
}

/// POST `/connect`: requests access for the caller's origin. Always a
/// success: a fresh Pending record is created when none exists, and an
/// existing record of either state is left untouched.
pub fn post_connect(
    state: &mut ServerState,
    origin: &str,
    name: String,
    features: FeatureFlags,
    settings: ScopeSettings,
) -> (r: (u16, RequestOutcome))
    requires
        old(state).wf(),
    ensures
        final(state).wf(),
        final(state).instances@ == old(state).instances@,
        final(state).scopes@ == spec_request(old(state).scopes@, origin@, name@, features,
            settings@),
        r.0 == 200,
        r.1 is Created <==> !has_host(old(state).scopes@, origin@),
        r.1 is AlreadyAllowed <==> (has_host(old(state).scopes@, origin@) && scope_of(
            old(state).scopes@,
            origin@,
        ).state is Allowed),
        r.1 is AlreadyPending <==> (has_host(old(state).scopes@, origin@) && scope_of(
            old(state).scopes@,
            origin@,
        ).state is Pending),
{
    let outcome = state.scopes.request(origin, name, features, settings);
    (200, outcome)
}

/// POST `/connect` whose body is missing or unparsable: the scope is
/// requested with the defaults the control plane owes such a caller — the
/// origin itself as display name, the Basic capability alone, and no
/// declared settings.
pub fn post_connect_defaults(state: &mut ServerState, origin: &str) -> (r: (u16, RequestOutcome))
    requires
        old(state).wf(),
    ensures
        final(state).wf(),
        final(state).instances@ == old(state).instances@,
        final(state).scopes@ == spec_request(
            old(state).scopes@,
            origin@,
            Seq::<char>::empty(),
            FeatureFlags { basic: true, pingfall: false },
            ScopeSettingsView { pingfall: None },
        ),
        r.0 == 200,
        r.1 is Created <==> !has_host(old(state).scopes@, origin@),
        r.1 is Created ==> {
            let created = final(state).scopes@.last();
            &&& created.host == origin@
            &&& created.name == origin@
            &&& created.state is Pending
            &&& created.features == (FeatureFlags { basic: true, pingfall: false })
            &&& created.settings.pingfall is None
        },
{
    post_connect(state, origin, String::new(), FeatureFlags::basic_only(), ScopeSettings::none())
}

/// PATCH `/connect`: updates the caller's scope metadata without touching
/// its state; an unknown origin gets 403 and nothing changes.
pub fn patch_connect(
    state: &mut ServerState,
    origin: &str,
    name: String,
    features: FeatureFlags,
    settings: ScopeSettings,
) -> (r: u16)
    requires
        old(state).wf(),
    ensures
        final(state).wf(),
        final(state).instances@ == old(state).instances@,
        final(state).scopes@ == spec_update(old(state).scopes@, origin@, name@, features,
            settings@),
        has_host(old(state).scopes@, origin@) ==> r == 200,
        !has_host(old(state).scopes@, origin@) ==> r == 403,
{
    match state.scopes.update(origin, name, features, settings) {
        Ok(()) => 200,
        Err(e) => error_status(&e),
    }
}

/// The operator approves a scope; unknown origins are an error and nothing
/// changes.
pub fn approve_scope(state: &mut ServerState, origin: &str) -> (r: Result<(), Error>)
    requires
        old(state).wf(),
    ensures
        final(state).wf(),
        final(state).instances@ == old(state).instances@,
        final(state).scopes@ == crate::scope::spec_approve(old(state).scopes@, origin@),
        r is Ok <==> has_host(old(state).scopes@, origin@),
{
    state.scopes.approve(origin)
}

/// The operator revokes a scope: the record is deleted and every tunnel the
/// scope owned is removed and torn down — the cascade that keeps tunnels
/// from outliving their scope. Returns the removed record and the removed
/// tunnels' data; an unknown origin is an error and nothing changes.
pub fn revoke_scope(state: &mut ServerState, origin: &str) -> (r: Result<
    (ScopeData, Vec<InstanceData>),
    Error,
>)
    requires
        old(state).wf(),
    ensures
        final(state).wf(),
        r matches Ok(out) ==> {
            &&& has_host(old(state).scopes@, origin@)
            &&& out.0@ == scope_of(old(state).scopes@, origin@)
            &&& final(state).scopes@ == spec_revoke(old(state).scopes@, origin@)
            &&& final(state).instances@ == spec_remove_all(old(state).instances@, origin@)
            &&& out.1@.map_values(|d: InstanceData| d@) == spec_list(
                old(state).instances@,
                origin@,
            )
        },
        r is Err <==> !has_host(old(state).scopes@, origin@),
        r is Err ==> final(state).scopes@ == old(state).scopes@ && final(state).instances@ == old(
            state,
        ).instances@,
{
    match state.scopes.revoke(origin) {
        Ok(record) => {
            let removed = state.instances.remove_all(origin);
            Ok((record, removed))
        }
        Err(e) => Err(e),
    }
}

/// Every tunnel's owning scope is a record the access-control plane knows.
pub open spec fn tunnels_scoped(instances: Seq<InstanceView>, scopes: Seq<ScopeView>) -> bool {
    forall|i: int|
        0 <= i < instances.len() ==> has_host(scopes, #[trigger] instances[i].scope_host)
}

/// Every element of a filtered sequence is an element of the original.
proof fn lemma_filter_subset(s: Seq<InstanceView>, pred: spec_fn(InstanceView) -> bool)
    ensures
        forall|i: int| 0 <= i < s.filter(pred).len() ==> s.contains(#[trigger] s.filter(pred)[i]),
    decreases s.len(),
{
    reveal(Seq::filter);
    if s.len() != 0 {
        lemma_filter_subset(s.drop_last(), pred);
        assert forall|i: int| 0 <= i < s.filter(pred).len() implies s.contains(
            #[trigger] s.filter(pred)[i],
        ) by {
            let sub = s.drop_last().filter(pred);
            if i < sub.len() {
                assert(s.filter(pred)[i] == sub[i]);
                let j = choose|j: int| 0 <= j < s.drop_last().len() && s.drop_last()[j] == sub[i];
                assert(s[j] == sub[i]);
            } else {
                assert(s.filter(pred)[i] == s.last());
                assert(s[s.len() - 1] == s.last());
            }
        }
    }
}

/// Law: a tunnel cannot outlive its scope. When every tunnel's owner is a
/// known scope, the revocation cascade — deleting the scope's record and
/// removing every tunnel it owned — leaves every remaining tunnel owned by
/// a scope that still exists; and registering a tunnel for a known scope
/// keeps the property too.
pub proof fn lemma_tunnels_never_outlive_their_scope(
    instances: Seq<InstanceView>,
    scopes: Seq<ScopeView>,
    origin: Seq<char>,
    v: InstanceView,
)
    requires
        hosts_unique(scopes),
        tunnels_scoped(instances, scopes),
    ensures
        tunnels_scoped(spec_remove_all(instances, origin), spec_revoke(scopes, origin)),
        has_host(scopes, v.scope_host) ==> tunnels_scoped(spec_register(instances, v), scopes),
{
    let keep = |t: InstanceView| t.scope_host != origin;
    let remaining = spec_remove_all(instances, origin);
    let shrunk = spec_revoke(scopes, origin);
    lemma_filter_subset(instances, keep);
    broadcast use vstd::seq_lib::group_filter_ensures;

    assert forall|i: int| 0 <= i < remaining.len() implies has_host(
        shrunk,
        #[trigger] remaining[i].scope_host,
    ) by {
        let t = remaining[i];
        assert(keep(t));
        assert(instances.contains(t));
        let j = choose|j: int| 0 <= j < instances.len() && instances[j] == t;
        assert(has_host(scopes, t.scope_host));
        if has_host(scopes, origin) {
            let k = crate::scope::host_index(scopes, origin);
            let w = choose|w: int| 0 <= w < scopes.len() && scopes[w].host == t.scope_host;
            if w < k {
                assert(shrunk[w] == scopes[w]);
            } else {
                assert(w != k);
                assert(shrunk[w - 1] == scopes[w]);
            }
        }
    }

    if has_host(scopes, v.scope_host) {
        let grown = spec_register(instances, v);
        assert forall|i: int| 0 <= i < grown.len() implies has_host(
            scopes,
            #[trigger] grown[i].scope_host,
        ) by {
            if i < instances.len() {
                assert(grown[i] == instances[i]);
            } else {
                assert(grown[i] == v);
            }
        }
    }
}

} // verus!

