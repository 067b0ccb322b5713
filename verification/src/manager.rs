//! The client-mode connection table: the lightweight bookkeeping a plain
//! client keeps for the WebSocket endpoints it exposes locally.
//!
//! Each connection pairs a remote URL with the local port serving it, under
//! an identifier built from the remote's host and that port. Endpoints whose
//! remote stops answering are moved to a dead list rather than forgotten.

use vstd::prelude::*;
use vstd::string::StringExecFns;

use crate::strutil::{dec_digits, push_u16_decimal, str_eq};

verus! {

/// One exposed endpoint: a remote URL and the local port bridged to it.
pub struct Connection {
    /// The identifier: the remote's host, `#`, and the local port.
    pub id: String,
    /// The remote WebSocket URL.
    pub url: String,
    /// The local port serving the endpoint.
    pub port: u16,
    /// The last measured round-trip latency in milliseconds.
    pub latency: u32,
}

/// Mathematical image of [`Connection`].
pub ghost struct ConnectionView {
    pub id: Seq<char>,
    pub url: Seq<char>,
    pub port: u16,
    pub latency: u32,
}

impl View for Connection {
    type V = ConnectionView;

    open spec fn view(&self) -> ConnectionView {
        ConnectionView { id: self.id@, url: self.url@, port: self.port, latency: self.latency }
    }
}

impl Clone for Connection {
    fn clone(&self) -> (r: Self)
        ensures
            r@ == self@,
    {
        Connection {
            id: self.id.clone(),
            url: self.url.clone(),
            port: self.port,
            latency: self.latency,
        }
    }
}

/// One runtime log line handed to the presentation layer.
pub struct Log {
    /// The severity, such as `info` or `error`.
    pub level: String,
    /// The address the line is about.
    pub addr: String,
    /// The message text.
    pub message: String,
}

/// Mathematical image of [`Log`].
pub ghost struct LogView {
    pub level: Seq<char>,
    pub addr: Seq<char>,
    pub message: Seq<char>,
}

impl View for Log {
    type V = LogView;

    open spec fn view(&self) -> LogView {
        LogView { level: self.level@, addr: self.addr@, message: self.message@ }
    }
}

impl Clone for Log {
    fn clone(&self) -> (r: Self)
        ensures
            r@ == self@,
    {
        Log { level: self.level.clone(), addr: self.addr.clone(), message: self.message.clone() }
    }
}

/// The identifier of a connection: the remote's host, `#`, and the port.
pub fn make_conn_id(host: &str, port: u16) -> (r: String)
    ensures
        r@ == host@ + "#"@ + dec_digits(port as nat),
{
    let mut id = String::from_str(host);
    id.append("#");
    push_u16_decimal(&mut id, port);
    id
}

/// No two connections share an identifier.
pub open spec fn ids_unique(s: Seq<ConnectionView>) -> bool {
    forall|i: int, j: int| 0 <= i < j < s.len() ==> s[i].id != s[j].id
}

/// Some connection has this identifier.
pub open spec fn has_id(s: Seq<ConnectionView>, id: Seq<char>) -> bool {
    exists|i: int| 0 <= i < s.len() && s[i].id == id
}

/// The index of the connection with this identifier; meaningful only under
/// [`has_id`] and [`ids_unique`].
pub open spec fn id_index(s: Seq<ConnectionView>, id: Seq<char>) -> int {
    choose|i: int| 0 <= i < s.len() && s[i].id == id
}

/// A list after removing the connection with this identifier; unchanged
/// when none has it.
pub open spec fn spec_drop_id(s: Seq<ConnectionView>, id: Seq<char>) -> Seq<ConnectionView> {
    if has_id(s, id) {
        s.remove(id_index(s, id))
    } else {
        s
    }
}

/// The table of a client's exposed endpoints: the live ones and those whose
/// remote went dead.
pub struct ConnectionManager {
    connections: Vec<Connection>,
    dead_connections: Vec<Connection>,
}

impl View for ConnectionManager {
    type V = (Seq<ConnectionView>, Seq<ConnectionView>);

    closed spec fn view(&self) -> (Seq<ConnectionView>, Seq<ConnectionView>) {
        (
            self.connections@.map_values(|c: Connection| c@),
            self.dead_connections@.map_values(|c: Connection| c@),
        )
    }
}

impl ConnectionManager {
    /// Identifiers are unique within each list.
    pub open spec fn wf(&self) -> bool {
        ids_unique(self@.0) && ids_unique(self@.1)
    }

    /// An empty table.
    pub fn new() -> (r: ConnectionManager)
        ensures
            r.wf(),
            r@.0 == Seq::<ConnectionView>::empty(),
            r@.1 == Seq::<ConnectionView>::empty(),
    {
        let r = ConnectionManager { connections: Vec::new(), dead_connections: Vec::new() };
        proof {
            assert(r@.0 =~= Seq::<ConnectionView>::empty());
            assert(r@.1 =~= Seq::<ConnectionView>::empty());
        }
        r
    }

    /// The index of the live connection with this identifier.
    fn find_alive(&self, id: &str) -> (r: Option<usize>)
        ensures
            r matches Some(i) ==> 0 <= i < self@.0.len() && self@.0[i as int].id == id@,
            r is None ==> !has_id(self@.0, id@),
    {
        let mut i: usize = 0;
        while i < self.connections.len()
            invariant
                0 <= i <= self.connections@.len(),
                forall|j: int| 0 <= j < i ==> self.connections@[j]@.id != id@,
            decreases self.connections@.len() - i,
        {
            if str_eq(self.connections[i].id.as_str(), id) {
                return Some(i);
            }
            i += 1;
        }
        None
    }

    /// The index of the dead connection with this identifier.
    fn find_dead(&self, id: &str) -> (r: Option<usize>)
        ensures
            r matches Some(i) ==> 0 <= i < self@.1.len() && self@.1[i as int].id == id@,
            r is None ==> !has_id(self@.1, id@),
    {
        let mut i: usize = 0;
        while i < self.dead_connections.len()
            invariant
                0 <= i <= self.dead_connections@.len(),
                forall|j: int| 0 <= j < i ==> self.dead_connections@[j]@.id != id@,
            decreases self.dead_connections@.len() - i,
        {
            if str_eq(self.dead_connections[i].id.as_str(), id) {
                return Some(i);
            }
            i += 1;
        }
        None
    }

    /// Under uniqueness, any index holding `id` is the chosen one.
    proof fn lemma_id_found(s: Seq<ConnectionView>, id: Seq<char>, i: int)
        requires
            ids_unique(s),
            0 <= i < s.len(),
            s[i].id == id,
        ensures
            has_id(s, id),
            id_index(s, id) == i,
    {
        assert(has_id(s, id));
        let k = id_index(s, id);
        if k != i {
            if k < i {
                assert(s[k].id != s[i].id);
            } else {
                assert(s[i].id != s[k].id);
            }
        }
    }

    /// Appending a connection with a fresh identifier keeps ids unique.
    proof fn lemma_unique_push(s: Seq<ConnectionView>, v: ConnectionView)
        requires
            ids_unique(s),
            !has_id(s, v.id),
        ensures
            ids_unique(s.push(v)),
    {
        let out = s.push(v);
        assert forall|a: int, b: int| 0 <= a < b < out.len() implies out[a].id != out[b].id by {
            if b < s.len() {
            } else {
                assert(out[b].id == v.id);
                assert(out[a] == s[a]);
            }
        }
    }

    /// Replacing a connection by one with the same identifier keeps ids
    /// unique.
    proof fn lemma_unique_update(s: Seq<ConnectionView>, i: int, v: ConnectionView)
        requires
            ids_unique(s),
            0 <= i < s.len(),
            v.id == s[i].id,
        ensures
            ids_unique(s.update(i, v)),
    {
        let out = s.update(i, v);
        assert forall|a: int, b: int| 0 <= a < b < out.len() implies out[a].id != out[b].id by {
            assert(out[a].id == s[a].id);
            assert(out[b].id == s[b].id);
        }
    }

    /// Deleting a connection keeps ids unique.
    proof fn lemma_unique_remove(s: Seq<ConnectionView>, i: int)
        requires
            ids_unique(s),
            0 <= i < s.len(),
        ensures
            ids_unique(s.remove(i)),
    {
        let out = s.remove(i);
        assert forall|a: int, b: int| 0 <= a < b < out.len() implies out[a].id != out[b].id by {
            let pa = if a < i { a } else { a + 1 };
            let pb = if b < i { b } else { b + 1 };
            assert(out[a] == s[pa]);
            assert(out[b] == s[pb]);
        }
    }

    /// Adds a live connection; refused without a change when its identifier
    /// is already taken.
    pub fn add_connection(&mut self, conn: Connection) -> (r: bool)
        requires
            old(self).wf(),
        ensures
            final(self).wf(),
            final(self)@.1 == old(self)@.1,
            r == !has_id(old(self)@.0, conn@.id),
            r ==> final(self)@.0 == old(self)@.0.push(conn@),
            !r ==> final(self)@.0 == old(self)@.0,
    {
        match self.find_alive(conn.id.as_str()) {
            Some(_) => false,
            None => {
                let ghost prev = self@.0;
                self.connections.push(conn);
                proof {
                    assert(self@.0 =~= prev.push(conn@));
                    Self::lemma_unique_push(prev, self@.0.last());
                }
                true
            }
        }
    }

    /// Forgets the connection with this identifier, from the live and the
    /// dead list alike.
    pub fn remove_ws_connection(&mut self, id: &str)
        requires
            old(self).wf(),
        ensures
            final(self).wf(),
            final(self)@.0 == spec_drop_id(old(self)@.0, id@),
            final(self)@.1 == spec_drop_id(old(self)@.1, id@),
    {
        match self.find_alive(id) {
            Some(i) => {
                proof {
                    Self::lemma_id_found(self@.0, id@, i as int);
                }
                self.connections.remove(i);
                proof {
                    let prev = old(self)@.0;
                    let k = id_index(prev, id@);
                    assert(self@.0 =~= prev.remove(k));
                    Self::lemma_unique_remove(prev, k);
                }
            }
            None => {}
        }
        match self.find_dead(id) {
            Some(i) => {
                proof {
                    Self::lemma_id_found(self@.1, id@, i as int);
                }
                self.dead_connections.remove(i);
                proof {
                    let prev = old(self)@.1;
                    let k = id_index(prev, id@);
                    assert(self@.1 =~= prev.remove(k));
                    Self::lemma_unique_remove(prev, k);
                }
            }
            None => {}
        }
    }

    /// Moves the live connection with this identifier to the dead list;
    /// reports whether one was moved.
    pub fn mark_dead(&mut self, id: &str) -> (r: bool)
        requires
            old(self).wf(),
        ensures
            final(self).wf(),
            r == has_id(old(self)@.0, id@),
            r ==> final(self)@.0 == spec_drop_id(old(self)@.0, id@) && final(self)@.1
                == spec_drop_id(old(self)@.1, id@).push(old(self)@.0[id_index(old(self)@.0, id@)]),
            !r ==> final(self)@.0 == old(self)@.0 && final(self)@.1 == old(self)@.1,
    {
        match self.find_alive(id) {
            Some(i) => {
                proof {
                    Self::lemma_id_found(self@.0, id@, i as int);
                }
                let conn = self.connections.remove(i);
                proof {
                    let prev = old(self)@.0;
                    let k = id_index(prev, id@);
                    assert(self@.0 =~= prev.remove(k));
                    Self::lemma_unique_remove(prev, k);
                }
                match self.find_dead(id) {
                    Some(j) => {
                        proof {
                            Self::lemma_id_found(self@.1, id@, j as int);
                        }
                        self.dead_connections.remove(j);
                        proof {
                            let prev = old(self)@.1;
                            let k = id_index(prev, id@);
                            assert(self@.1 =~= prev.remove(k));
                            Self::lemma_unique_remove(prev, k);
                        }
                    }
                    None => {
                        proof {
                            assert(self@.1 =~= spec_drop_id(old(self)@.1, id@));
                        }
                    }
                }
                let ghost mid = self@.1;
                self.dead_connections.push(conn);
                proof {
                    assert(self@.1 =~= mid.push(old(self)@.0[id_index(old(self)@.0, id@)]));
                    assert(!has_id(mid, id@));
                    Self::lemma_unique_push(mid, self@.1.last());
                }
                true
            }
            None => false,
        }
    }

    /// Records a measured latency for the live connection with this
    /// identifier; reports whether one exists.
    pub fn set_latency(&mut self, id: &str, latency: u32) -> (r: bool)
        requires
            old(self).wf(),
        ensures
            final(self).wf(),
            final(self)@.1 == old(self)@.1,
            r == has_id(old(self)@.0, id@),
            r ==> final(self)@.0 == old(self)@.0.update(
                id_index(old(self)@.0, id@),
                ConnectionView { latency, ..old(self)@.0[id_index(old(self)@.0, id@)] },
            ),
            !r ==> final(self)@.0 == old(self)@.0,
    {
        match self.find_alive(id) {
            Some(i) => {
                proof {
                    Self::lemma_id_found(self@.0, id@, i as int);
                }
                self.connections[i].latency = latency;
                proof {
                    let prev = old(self)@.0;
                    let k = id_index(prev, id@);
                    assert(self@.0 =~= prev.update(k, ConnectionView { latency, ..prev[k] }));
                    Self::lemma_unique_update(prev, k, self@.0[k]);
                }
                true
            }
            None => false,
        }
    }

    /// The live connections, in table order.
    pub fn get_alive_ws_connections(&self) -> (r: Vec<Connection>)
        ensures
            r@.map_values(|c: Connection| c@) == self@.0,
    {
        let mut out: Vec<Connection> = Vec::new();
        let mut i: usize = 0;
        while i < self.connections.len()
            invariant
                0 <= i <= self.connections@.len(),
                out@.len() == i,
                forall|j: int| 0 <= j < i ==> out@[j]@ == self@.0[j],
            decreases self.connections@.len() - i,
        {
            out.push(self.connections[i].clone());
            i += 1;
        }
        proof {
            assert(out@.map_values(|c: Connection| c@) =~= self@.0);
        }
        out
    }

    /// The dead connections, in table order.
    pub fn get_dead_ws_connections(&self) -> (r: Vec<Connection>)
        ensures
            r@.map_values(|c: Connection| c@) == self@.1,
    {
        let mut out: Vec<Connection> = Vec::new();
        let mut i: usize = 0;
        while i < self.dead_connections.len()
            invariant
                0 <= i <= self.dead_connections@.len(),
                out@.len() == i,
                forall|j: int| 0 <= j < i ==> out@[j]@ == self@.1[j],
            decreases self.dead_connections@.len() - i,
        {
            out.push(self.dead_connections[i].clone());
            i += 1;
        }
        proof {
            assert(out@.map_values(|c: Connection| c@) =~= self@.1);
        }
        out
    }
}

} // verus!
