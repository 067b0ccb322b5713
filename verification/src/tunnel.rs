//! One tunnel: a bound local TCP listener paired with a remote WebSocket
//! target, plus the lifecycle of the accept loop that serves it.
//!
//! The accept loop itself runs as a background task outside this crate; what
//! lives here is everything it decides: the lifecycle state machine, the
//! decision taken for every accepted connection, and the idempotent teardown
//! that cancels the loop and aborts its task.

use vstd::prelude::*;
use vstd::string::StringExecFns;

use crate::strutil::{hex6, is_prefix_of, push_hex6};

verus! {

/// The configuration of one tunnel. `local` is the resolved bound address,
/// not necessarily what the caller asked for (port 0 means any free port);
/// `remote` is the WebSocket URL the tunnel connects out to.
pub struct TunnelConfig {
    pub local: String,
    pub remote: String,
}

/// Mathematical image of [`TunnelConfig`].
pub ghost struct TunnelConfigView {
    pub local: Seq<char>,
    pub remote: Seq<char>,
}

impl View for TunnelConfig {
    type V = TunnelConfigView;

    open spec fn view(&self) -> TunnelConfigView {
        TunnelConfigView { local: self.local@, remote: self.remote@ }
    }
}

impl Clone for TunnelConfig {
    fn clone(&self) -> (r: Self)
        ensures
            r@ == self@,
    {
        TunnelConfig { local: self.local.clone(), remote: self.remote.clone() }
    }
}

#[verifier::external_type_specification]
#[verifier::external_body]
pub struct ExCancellationToken(tokio_util::sync::CancellationToken);

#[verifier::external_type_specification]
#[verifier::external_body]
#[verifier::reject_recursive_types(T)]
pub struct ExJoinHandle<T>(tokio::task::JoinHandle<T>);

#[verifier::external_type_specification]
#[verifier::external_body]
pub struct ExJoinError(tokio::task::JoinError);

/// Relies on tokio_util's CancellationToken::cancel: asks every clone of the
/// token to stop, and may be called any number of times.
#[verifier::external_body]
fn cancel_token(token: &tokio_util::sync::CancellationToken) {
    token.cancel()
}

/// Relies on tokio's JoinHandle::abort: asks the runtime to stop the task,
/// and may be called any number of times, also after the task finished.
#[verifier::external_body]
fn abort_task(task: &tokio::task::JoinHandle<()>) {
    task.abort()
}

/// Relies on rand::random: an arbitrary value of the requested type.
pub assume_specification<T>[ rand::random::<T> ]() -> (r: T)
    where
        rand::distributions::Standard: rand::distributions::Distribution<T>,
;

/// The display name a tunnel gets when its creator supplies none: a fixed
/// prefix followed by the six low-order hexadecimal digits of `n`.
pub fn default_label_for(n: u32) -> (r: String)
    ensures
        r@ == "inst-"@ + hex6(n as nat),
{
    let mut label = String::from_str("inst-");
    push_hex6(&mut label, n);
    label
}

/// A freshly drawn default display name for a tunnel.
pub fn fresh_label() -> (r: String)
    ensures
        exists|n: nat| r@ == "inst-"@ + #[trigger] hex6(n),
        r@.len() == 11,
        is_prefix_of("inst-"@, r@),
{
    let n: u32 = rand::random();
    let label = default_label_for(n);
    proof {
        reveal_strlit("inst-");
        assert(hex6(n as nat).len() == 6);
        assert(label@ == "inst-"@ + hex6(n as nat));
        assert(label@.subrange(0, 5) =~= "inst-"@);
    }
    label
}

/// Where a tunnel stands in its life: it is constructed `Starting`, serves
/// connections while `Running`, observes cooperative cancellation as
/// `Cancelling`, and ends `Stopped`, a terminal state.
#[derive(Clone, Copy, Debug, PartialEq, Eq, Structural)]
pub enum TunnelState {
    Starting,
    Running,
    Cancelling,
    Stopped,
}

/// The position of a state in the one-way lifecycle order.
pub open spec fn phase_index(s: TunnelState) -> int {
    match s {
        TunnelState::Starting => 0,
        TunnelState::Running => 1,
        TunnelState::Cancelling => 2,
        TunnelState::Stopped => 3,
    }
}

/// `a` precedes or equals `b` in the lifecycle order.
pub open spec fn phase_le(a: TunnelState, b: TunnelState) -> bool {
    phase_index(a) <= phase_index(b)
}

/// What the accept loop does with one accept outcome.
#[derive(Clone, Copy, Debug, PartialEq, Eq, Structural)]
pub enum AcceptDecision {
    /// Serve the new connection: open a WebSocket to the remote and bridge.
    Bridge,
    /// Stop accepting; cancellation was observed.
    Stop,
    /// The listener failed: signal cancellation for the whole tunnel, then
    /// stop.
    CancelAndStop,
}

/// The lifecycle state machine of one tunnel's accept loop. The unverified
/// shell holds one of these per tunnel task and obeys the returned
/// decisions; every transition here only ever moves the state forward.
pub struct TunnelLifecycle {
    pub state: TunnelState,
}

impl TunnelLifecycle {
    /// A tunnel begins `Starting`.
    pub fn new() -> (r: TunnelLifecycle)
        ensures
            r.state is Starting,
    {
        TunnelLifecycle { state: TunnelState::Starting }
    }

    /// Construction is synchronous: once the accept loop is spawned the
    /// tunnel is `Running`.
    pub fn launch(&mut self)
        requires
            old(self).state is Starting,
        ensures
            final(self).state is Running,
    {
        self.state = TunnelState::Running;
    }

    /// The decision for one accept outcome. A listener failure cancels the
    /// whole tunnel and stops the loop; an accepted connection is dropped
    /// when cancellation was already signaled, and bridged otherwise.
    pub fn on_accept(&mut self, accept_ok: bool, cancelled: bool) -> (r: AcceptDecision)
        requires
            old(self).state is Running || old(self).state is Cancelling,
        ensures
            !accept_ok ==> r is CancelAndStop && final(self).state is Stopped,
            accept_ok && (cancelled || old(self).state is Cancelling) ==> r is Stop
                && final(self).state is Stopped,
            accept_ok && !cancelled && old(self).state is Running ==> r is Bridge
                && final(self).state == old(self).state,
            phase_le(old(self).state, final(self).state),
    {
        if !accept_ok {
            self.state = TunnelState::Stopped;
            AcceptDecision::CancelAndStop
        } else {
            let observed = cancelled || match self.state {
                TunnelState::Cancelling => true,
                _ => false,
            };
            if observed {
                self.state = TunnelState::Stopped;
                AcceptDecision::Stop
            } else {
                AcceptDecision::Bridge
            }
        }
    }

    /// A per-connection task failed to open its outbound WebSocket: the
    /// remote is treated as terminally broken and the whole tunnel is
    /// cancelled, deliberately and without retry.
    pub fn on_connect_failure(&mut self)
        ensures
            old(self).state is Stopped ==> final(self).state is Stopped,
            !(old(self).state is Stopped) ==> final(self).state is Cancelling,
            phase_le(old(self).state, final(self).state),
    {
        match self.state {
            TunnelState::Stopped => {}
            _ => {
                self.state = TunnelState::Cancelling;
            }
        }
    }

    /// External teardown: the tunnel is `Stopped`, whatever came before.
    pub fn close(&mut self)
        ensures
            final(self).state is Stopped,
            phase_le(old(self).state, final(self).state),
    {
        self.state = TunnelState::Stopped;
    }
}

/// Law: the lifecycle never moves backwards, and teardown is idempotent:
/// a second `close` finds the tunnel already `Stopped` and every transition
/// out of `Stopped` stays `Stopped`.
pub proof fn lemma_lifecycle_terminal(a: TunnelState, b: TunnelState, c: TunnelState)
    ensures
        a is Stopped && phase_le(a, b) ==> b is Stopped,
        phase_le(a, b) && phase_le(b, c) ==> phase_le(a, c),
        phase_le(a, a),
{
}

/// One live tunnel: its configuration plus the cancellation token and the
/// background task handle of its accept loop.
pub struct Tunnel {
    /// The resolved local address and the remote URL.
    pub config: TunnelConfig,
    token: tokio_util::sync::CancellationToken,
    task: tokio::task::JoinHandle<()>,
}

impl View for Tunnel {
    type V = TunnelConfigView;

    closed spec fn view(&self) -> TunnelConfigView {
        self.config@
    }
}

impl Tunnel {
    /// Adopts an accept loop the shell has bound and spawned: the tunnel
    /// owns its cancellation token and task handle from here on.
    pub fn attach(
        config: TunnelConfig,
        token: tokio_util::sync::CancellationToken,
        task: tokio::task::JoinHandle<()>,
    ) -> (r: Tunnel)
        ensures
            r@ == config@,
    {
        Tunnel { config, token, task }
    }

    /// Tears the tunnel down: signals cancellation and aborts the accept
    /// loop's task. Safe to call any number of times, and never blocks.
    pub fn close(&self) {
        cancel_token(&self.token);
        abort_task(&self.task);
    }
}

} // verus!
