//! The tunnel server's state: its settings and the tunnel connections it
//! is waiting for, each known by the id the client was told to present.

use vstd::prelude::*;
use crate::protocol::{
    connection_id_bytes, connection_id_of, framed_line, lemma_connection_id_round_trip, ClientHello,
};
use crate::server::config::GeneralConfig;
use std::collections::HashMap;

verus! {

broadcast use vstd::std_specs::hash::group_hash_axioms;

/// What a new connection is, by its first byte.
#[derive(Debug, Clone, Copy, PartialEq, Eq, Structural)]
pub enum ConnectionKind {
    Control,
    Tunnel,
    Unknown,
}

/// The kind of connection that opens with `hello`.
pub open spec fn kind_of_hello(hello: u8) -> ConnectionKind {
    if hello == ClientHello::INIT_CONTROL_CONNECTION {
        ConnectionKind::Control
    } else if hello == ClientHello::INIT_TUNNEL_CONNECTION {
        ConnectionKind::Tunnel
    } else {
        ConnectionKind::Unknown
    }
}

/// The kind of connection that opens with `hello`.
pub fn connection_kind(hello: u8) -> (r: ConnectionKind)
    ensures
        r == kind_of_hello(hello),
{
    if hello == ClientHello::INIT_CONTROL_CONNECTION {
        ConnectionKind::Control
    } else if hello == ClientHello::INIT_TUNNEL_CONNECTION {
        ConnectionKind::Tunnel
    } else {
        ConnectionKind::Unknown
    }
}

/// The tunnel connections that are awaited, each under its connection id.
/// A std `HashMap` holds them, behind the caller's lock: what is awaited
/// is of any type `V` the caller picks, and a concurrent map of an outside
/// crate could only be described here through a name over plain values.
pub struct PendingConnections<V> {
    entries: HashMap<u64, V>,
}

impl<V> PendingConnections<V> {
    /// The awaited connections, by id.
    pub closed spec fn view(&self) -> Map<u64, V> {
        self.entries@
    }

    /// Nothing awaited.
    pub fn new() -> (r: PendingConnections<V>)
        ensures
            r.view() == Map::<u64, V>::empty(),
    {
        PendingConnections { entries: HashMap::new() }
    }

    /// Awaits a connection under `connection_id`; an earlier entry under
    /// the same id is replaced.
    pub fn insert(&mut self, connection_id: u64, pending: V)
        ensures
            final(self).view() == old(self).view().insert(connection_id, pending),
    {
        self.entries.insert(connection_id, pending);
    }

    /// Claims the entry under `connection_id`: it is handed out and no
    /// longer awaited.
    pub fn take(&mut self, connection_id: u64) -> (r: Option<V>)
        ensures
            final(self).view() == old(self).view().remove(connection_id),
            old(self).view().contains_key(connection_id) ==> r == Some(
                old(self).view()[connection_id],
            ),
            !old(self).view().contains_key(connection_id) ==> r.is_none(),
    {
        self.entries.remove(&connection_id)
    }
}

/// The ids of open control connections with what is known of each; `ids`
/// lists each key of `entries` once.
struct Registry<C> {
    entries: HashMap<u64, C>,
    ids: Vec<u64>,
}

impl<C> Registry<C> {
    spec fn wf(&self) -> bool {
        &&& self.ids@.no_duplicates()
        &&& forall|i: int|
            0 <= i < self.ids@.len() ==> self.entries@.contains_key(#[trigger] self.ids@[i])
        &&& forall|k: u64| #[trigger] self.entries@.contains_key(k) ==> self.ids@.contains(k)
    }

    fn empty() -> (r: Registry<C>)
        ensures
            r.wf(),
            r.entries@ == Map::<u64, C>::empty(),
    {
        Registry { entries: HashMap::new(), ids: Vec::new() }
    }
}

/// Where `id` stands in `v`, if it is there.
fn position_of(v: &Vec<u64>, id: u64) -> (r: Option<usize>)
    ensures
        match r {
            Some(i) => i < v@.len() && v@[i as int] == id,
            None => !v@.contains(id),
        },
{
    let mut i: usize = 0;
    while i < v.len()
        invariant
            i <= v@.len(),
            forall|j: int| 0 <= j < i ==> v@[j] != id,
        decreases v@.len() - i,
    {
        if v[i] == id {
            return Some(i);
        }
        i = i + 1;
    }
    None
}

/// The control connections that are open, each under its id; a
/// connection counts once however often it is added. Like
/// `PendingConnections`, it holds a connection of any type `C` in std
/// collections, behind the caller's lock.
pub struct ControlConnections<C> {
    reg: Registry<C>,
}

impl<C> ControlConnections<C> {
    #[verifier::type_invariant]
    spec fn inv(&self) -> bool {
        self.reg.wf()
    }

    /// The open connections, by id.
    pub closed spec fn view(&self) -> Map<u64, C> {
        self.reg.entries@
    }

    /// No connection open.
    pub fn new() -> (r: ControlConnections<C>)
        ensures
            r.view() == Map::<u64, C>::empty(),
    {
        ControlConnections { reg: Registry::empty() }
    }

    /// Adds the connection `conn` under `id`; `false`, and nothing
    /// changed, when a connection with that id is already there.
    pub fn insert(&mut self, id: u64, conn: C) -> (r: bool)
        ensures
            r == !old(self).view().contains_key(id),
            r ==> final(self).view() == old(self).view().insert(id, conn),
            !r ==> final(self).view() == old(self).view(),
    {
        proof {
            use_type_invariant(&*self);
        }
        if self.reg.entries.contains_key(&id) {
            return false;
        }
        let mut reg = Registry::empty();
        std::mem::swap(&mut reg, &mut self.reg);
        let ghost old_ids = reg.ids@;
        let ghost old_entries = reg.entries@;
        reg.entries.insert(id, conn);
        reg.ids.push(id);
        proof {
            assert(!old_ids.contains(id)) by {
                if old_ids.contains(id) {
                    let i = choose|i: int| 0 <= i < old_ids.len() && old_ids[i] == id;
                    assert(old_entries.contains_key(old_ids[i]));
                }
            }
            assert(reg.ids@ == old_ids.push(id));
            assert forall|i: int, j: int|
                0 <= i < reg.ids@.len() && 0 <= j < reg.ids@.len() && i != j implies reg.ids@[i]
                != reg.ids@[j] by {
                if i == old_ids.len() {
                    assert(old_ids.contains(reg.ids@[j]) ==> reg.ids@[j] != id);
                    assert(old_ids[j] == reg.ids@[j]);
                } else if j == old_ids.len() {
                    assert(old_ids[i] == reg.ids@[i]);
                }
            }
            assert forall|k: u64| #[trigger] reg.entries@.contains_key(k) implies reg.ids@.contains(
                k,
            ) by {
                if k == id {
                    assert(reg.ids@[old_ids.len() as int] == id);
                } else {
                    assert(old_entries.contains_key(k));
                    let i = choose|i: int| 0 <= i < old_ids.len() && old_ids[i] == k;
                    assert(reg.ids@[i] == k);
                }
            }
        }
        self.reg = reg;
        true
    }

    /// Removes the connection under `id`, handing it back; `None` when no
    /// connection has that id.
    pub fn remove(&mut self, id: u64) -> (r: Option<C>)
        ensures
            final(self).view() == old(self).view().remove(id),
            old(self).view().contains_key(id) ==> r == Some(old(self).view()[id]),
            !old(self).view().contains_key(id) ==> r is None,
    {
        proof {
            use_type_invariant(&*self);
        }
        let mut reg = Registry::empty();
        std::mem::swap(&mut reg, &mut self.reg);
        let ghost old_ids = reg.ids@;
        let ghost old_entries = reg.entries@;
        let r = reg.entries.remove(&id);
        match position_of(&reg.ids, id) {
            Some(i) => {
                reg.ids.remove(i);
                proof {
                    old_ids.remove_ensures(i as int);
                    let n = reg.ids@;
                    assert forall|a: int, b: int|
                        0 <= a < n.len() && 0 <= b < n.len() && a != b implies n[a] != n[b] by {
                        let oa = if a < i { a } else { a + 1 };
                        let ob = if b < i { b } else { b + 1 };
                        assert(n[a] == old_ids[oa]);
                        assert(n[b] == old_ids[ob]);
                    }
                    assert forall|a: int| 0 <= a < n.len() implies reg.entries@.contains_key(
                        #[trigger] n[a],
                    ) by {
                        let oa = if a < i { a } else { a + 1 };
                        assert(n[a] == old_ids[oa]);
                        assert(old_entries.contains_key(old_ids[oa]));
                        assert(old_ids[oa] != id);
                    }
                    assert forall|k: u64| #[trigger] reg.entries@.contains_key(k) implies n.contains(k) by {
                        assert(old_entries.contains_key(k));
                        let j = choose|j: int| 0 <= j < old_ids.len() && old_ids[j] == k;
                        assert(j != i);
                        if j < i {
                            assert(n[j] == k);
                        } else {
                            assert(n[j - 1] == k);
                        }
                    }
                }
            },
            None => {
                proof {
                    assert(!old_entries.contains_key(id));
                    assert forall|k: u64| #[trigger] reg.entries@.contains_key(k) implies reg.ids@.contains(k) by {
                        assert(old_entries.contains_key(k));
                    }
                }
            },
        }
        self.reg = reg;
        r
    }

    /// The connection under `id`, if one is open.
    pub fn get(&self, id: u64) -> (r: Option<&C>)
        ensures
            self.view().contains_key(id) ==> r == Some(&self.view()[id]),
            !self.view().contains_key(id) ==> r is None,
    {
        self.reg.entries.get(&id)
    }

    /// The ids of the open connections, each once, in no promised order.
    pub fn ids(&self) -> (r: Vec<u64>)
        ensures
            r@.no_duplicates(),
            forall|k: u64| r@.contains(k) <==> self.view().contains_key(k),
    {
        proof {
            use_type_invariant(self);
        }
        self.reg.ids.clone()
    }
}

/// The server's settings and the tunnel connections it awaits; `V` is
/// what a waiting listener is handed the connection through.
pub struct TunnelServer<V> {
    pub general_config: GeneralConfig,
    pending_tunnel_conns: PendingConnections<V>,
}

impl<V> TunnelServer<V> {
    /// The awaited tunnel connections, by id.
    pub closed spec fn pending(&self) -> Map<u64, V> {
        self.pending_tunnel_conns.view()
    }

    /// The server's settings.
    pub closed spec fn settings(&self) -> GeneralConfig {
        self.general_config
    }

    /// A server awaiting nothing.
    pub fn new(general_config: GeneralConfig) -> (r: TunnelServer<V>)
        ensures
            r.settings() == general_config,
            r.pending() == Map::<u64, V>::empty(),
    {
        TunnelServer { general_config, pending_tunnel_conns: PendingConnections::new() }
    }

    /// Awaits the tunnel connection that presents `connection_id`.
    pub fn add_pending_connection(&mut self, connection_id: u64, pending_connection: V)
        ensures
            final(self).pending() == old(self).pending().insert(connection_id, pending_connection),
            final(self).settings() == old(self).settings(),
    {
        self.pending_tunnel_conns.insert(connection_id, pending_connection);
    }

    /// Claims the entry of the tunnel connection that presented
    /// `connection_id`; `None` when no such connection is awaited.
    pub fn get_pending_connection(&mut self, connection_id: u64) -> (r: Option<V>)
        ensures
            final(self).pending() == old(self).pending().remove(connection_id),
            final(self).settings() == old(self).settings(),
            old(self).pending().contains_key(connection_id) ==> r == Some(
                old(self).pending()[connection_id],
            ),
            !old(self).pending().contains_key(connection_id) ==> r.is_none(),
    {
        self.pending_tunnel_conns.take(connection_id)
    }

    /// Stops awaiting the connection `connection_id` (it did not come in
    /// time).
    pub fn remove_pending_connection(&mut self, connection_id: u64)
        ensures
            final(self).pending() == old(self).pending().remove(connection_id),
            final(self).settings() == old(self).settings(),
    {
        let _ = self.pending_tunnel_conns.take(connection_id);
    }
}

/// Law: a tunnel connection presenting the id under which a listener
/// waits is handed to that listener, and to no one after it; the entries
/// of other ids are untouched.
pub proof fn lemma_pending_claimed_once<V>(pending: Map<u64, V>, connection_id: u64, conn: V, other: u64)
    requires
        other != connection_id,
    ensures
        pending.insert(connection_id, conn).contains_key(connection_id),
        pending.insert(connection_id, conn)[connection_id] == conn,
        !pending.insert(connection_id, conn).remove(connection_id).contains_key(connection_id),
        pending.insert(connection_id, conn).remove(connection_id).contains_key(other)
            == pending.contains_key(other),
        pending.contains_key(other) ==> pending.insert(connection_id, conn).remove(
            connection_id,
        )[other] == pending[other],
{
}

/// Law: once a listener gives up waiting, a late tunnel connection with
/// its id finds nothing.
pub proof fn lemma_removed_not_claimed<V>(pending: Map<u64, V>, connection_id: u64)
    ensures
        !pending.remove(connection_id).contains_key(connection_id),
{
}

/// Law: the bytes a client sends to open a tunnel connection are taken by
/// the server as a tunnel connection presenting the very id the client was
/// given; the bytes that open a control connection are taken as one.
pub proof fn lemma_client_openings_recognized(connection_id: u64, hello_json: Seq<u8>)
    ensures
        ({
            let b = seq![ClientHello::INIT_TUNNEL_CONNECTION].add(connection_id_bytes(connection_id));
            &&& kind_of_hello(b[0]) == ConnectionKind::Tunnel
            &&& b.len() == 9
            &&& connection_id_of(b.subrange(1, 9)) == connection_id
        }),
        kind_of_hello(seq![ClientHello::INIT_CONTROL_CONNECTION].add(framed_line(hello_json))[0])
            == ConnectionKind::Control,
{
    lemma_connection_id_round_trip(connection_id);
    let b = seq![ClientHello::INIT_TUNNEL_CONNECTION].add(connection_id_bytes(connection_id));
    assert(b.subrange(1, 9) =~= connection_id_bytes(connection_id));
}

} // verus!
