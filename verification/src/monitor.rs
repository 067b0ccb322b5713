//! The health-monitor policy: what one probe outcome does to a tunnel.
//!
//! Every tick, the unverified shell sends one lightweight round-trip probe
//! per live tunnel to the tunnel's remote, with the URL scheme rewritten
//! from WebSocket to HTTP. What the outcome means — the recorded latency,
//! and whether the scope's pingfall policy evicts the tunnel — is decided
//! here.

use vstd::prelude::*;
use vstd::string::StrSliceExecFns;
use vstd::string::StringExecFns;

use crate::registry::{
    has_local, instance_at, spec_remove, spec_set_latency, TunnelRegistry,
};
use crate::scope::{has_host, scope_of, AccessControlPlane, ScopeView};
use crate::strutil::is_prefix_of;

verus! {

/// Why a probe failed: a response with a non-success status, or no usable
/// response at all.
#[derive(Clone, Copy, Debug, PartialEq, Eq, Structural)]
pub enum ProbeFailure {
    /// The remote answered with this non-success status code.
    Status(u16),
    /// The request failed at the transport level.
    Transport,
}

/// The status codes a probe counts as success.
pub open spec fn status_success(status: u16) -> bool {
    200 <= status < 300
}

/// The one-way latency recorded for a successful probe: half the measured
/// round trip, saturated into the latency field's range.
pub open spec fn spec_probe_latency(elapsed_ms: u64) -> i32 {
    if elapsed_ms / 2 > i32::MAX as u64 {
        i32::MAX
    } else {
        (elapsed_ms / 2) as i32
    }
}

/// Classifies a probe response: a success status yields half the round-trip
/// time as the one-way latency estimate, anything else is a status failure.
pub fn probe_latency(status: u16, elapsed_ms: u64) -> (r: Result<i32, ProbeFailure>)
    ensures
        r is Ok <==> status_success(status),
        r matches Ok(l) ==> l == spec_probe_latency(elapsed_ms) && l >= 0,
        r matches Err(f) ==> f == ProbeFailure::Status(status),
{
    if 200 <= status && status < 300 {
        let half = elapsed_ms / 2;
        if half > i32::MAX as u64 {
            Ok(i32::MAX)
        } else {
            Ok(half as i32)
        }
    } else {
        Err(ProbeFailure::Status(status))
    }
}

/// Whether a scope's pingfall policy evicts a tunnel after this failure:
/// only with the pingfall feature, and then after the declared settings —
/// a status failure evicts when the fail-status set names the code or is
/// empty, a transport failure evicts when `drop_unknown` is set, and a
/// scope that declared no settings evicts on any failure.
pub open spec fn spec_should_evict(sc: ScopeView, f: ProbeFailure) -> bool {
    sc.features.pingfall && match sc.settings.pingfall {
        Some(ps) => match f {
            ProbeFailure::Status(code) => ps.fail_status.len() == 0 || ps.fail_status.contains(
                code,
            ),
            ProbeFailure::Transport => ps.drop_unknown,
        },
        None => true,
    }
}

/// Decides eviction for one probe failure under one scope's policy.
pub fn should_evict(sc: &crate::scope::ScopeData, f: &ProbeFailure) -> (r: bool)
    ensures
        r == spec_should_evict(sc@, *f),
{
    if !sc.features.pingfall {
        return false;
    }
    match &sc.settings.pingfall {
        Some(ps) => match f {
            ProbeFailure::Status(code) => ps.fail_status.len() == 0 || ps.contains_status(*code),
            ProbeFailure::Transport => ps.drop_unknown,
        },
        None => true,
    }
}

/// Records one probe outcome for the tunnel bound to `local` and applies
/// the pingfall policy: a success stores the measured latency; a failure
/// stores `-1` and, when the owning scope's policy says so, evicts the
/// tunnel from the registry. Returns whether the tunnel was evicted.
pub fn apply_probe(
    reg: &mut TunnelRegistry,
    scopes: &AccessControlPlane,
    local: &str,
    outcome: &Result<i32, ProbeFailure>,
) -> (evicted: bool)
    requires
        old(reg).wf(),
        scopes.wf(),
    ensures
        final(reg).wf(),
        !has_local(old(reg)@, local@) ==> final(reg)@ == old(reg)@ && !evicted,
        outcome matches Ok(l) ==> final(reg)@ == spec_set_latency(old(reg)@, local@, *l)
            && !evicted,
        outcome matches Err(f) ==> {
            let owner = instance_at(old(reg)@, local@).scope_host;
            let marked = spec_set_latency(old(reg)@, local@, -1i32);
            &&& evicted == (has_local(old(reg)@, local@) && has_host(scopes@, owner)
                && spec_should_evict(scope_of(scopes@, owner), *f))
            &&& final(reg)@ == (if evicted {
                spec_remove(marked, local@)
            } else {
                marked
            })
        },
{
    let inst = match reg.get(local) {
        Some(inst) => inst,
        None => {
            return false;
        }
    };
    match outcome {
        Ok(l) => {
            reg.set_latency(local, *l);
            false
        }
        Err(f) => {
            reg.set_latency(local, -1i32);
            let evict = match scopes.get(inst.scope_host.as_str()) {
                Some(sc) => should_evict(&sc, f),
                None => false,
            };
            if evict {
                let ghost marked = reg@;
                proof {
                    assert(marked == spec_set_latency(old(reg)@, local@, -1i32));
                    let k = crate::registry::local_index(old(reg)@, local@);
                    assert(marked[k].local == local@);
                    assert(has_local(marked, local@));
                }
                let removed = reg.remove(local);
                proof {
                    assert(removed is Ok);
                }
                true
            } else {
                false
            }
        }
    }
}

/// The probe URL for a tunnel's remote: the WebSocket scheme rewritten to
/// the matching HTTP scheme, anything else left untouched.
pub open spec fn spec_probe_url(s: Seq<char>) -> Seq<char> {
    if is_prefix_of("wss://"@, s) {
        "https://"@ + s.subrange(6, s.len() as int)
    } else if is_prefix_of("ws://"@, s) {
        "http://"@ + s.subrange(5, s.len() as int)
    } else {
        s
    }
}

/// Rewrites a remote WebSocket URL into the URL the health probe targets.
pub fn probe_url(remote: &str) -> (r: String)
    ensures
        r@ == spec_probe_url(remote@),
{
    if crate::strutil::str_starts_with(remote, "wss://") {
        proof {
            reveal_strlit("wss://");
            assert("wss://"@.len() == 6);
        }
        let rest = remote.substring_char(6, remote.unicode_len());
        let mut out = String::from_str("https://");
        out.append(rest);
        proof {
            assert(rest@ =~= remote@.subrange(6, remote@.len() as int));
        }
        out
    } else if crate::strutil::str_starts_with(remote, "ws://") {
        proof {
            reveal_strlit("ws://");
            assert("ws://"@.len() == 5);
        }
        let rest = remote.substring_char(5, remote.unicode_len());
        let mut out = String::from_str("http://");
        out.append(rest);
        proof {
            assert(rest@ =~= remote@.subrange(5, remote@.len() as int));
        }
        out
    } else {
        String::from_str(remote)
    }
}

/// Whether the control process missed its heartbeat: more than `interval`
/// seconds passed between the last heartbeat and now.
pub fn heartbeat_expired(last: i64, now: i64, interval: u64) -> (r: bool)
    ensures
        r == (now - last > interval),
{
    let diff: i128 = (now as i128) - (last as i128);
    diff > interval as i128
}

/// Whether a remote URL carries a WebSocket scheme; only such URLs may be
/// tunneled to.
pub fn is_ws_scheme(remote: &str) -> (r: bool)
    ensures
        r == (is_prefix_of("ws://"@, remote@) || is_prefix_of("wss://"@, remote@)),
{
    crate::strutil::str_starts_with(remote, "ws://") || crate::strutil::str_starts_with(
        remote,
        "wss://",
    )
}

/// Relies on chrono's Utc::now: the current time as whole seconds since the
/// Unix epoch. The value depends on the system clock, so nothing is promised
/// of it.
#[verifier::external_body]
fn now_unix_seconds() -> i64 {
    chrono::Utc::now().timestamp()
}

/// Reads the clock and decides whether the heartbeat expired: the returned
/// flag holds exactly when more than `interval` seconds passed between
/// `last` and the returned current time.
pub fn heartbeat_check(last: i64, interval: u64) -> (r: (bool, i64))
    ensures
        r.0 == (r.1 - last > interval),
{
    let now = now_unix_seconds();
    (heartbeat_expired(last, now, interval), now)
}

} // verus!

