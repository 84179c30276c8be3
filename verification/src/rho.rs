//! Rho connections: each iota connection with the users it serves and the
//! client connections of those users, kept in a registry keyed by iota id.

use vstd::prelude::*;

use crate::communication::CommunicationValue;
use crate::json::{spec_number_from_i64, Json, JsonNumber, JsonView};
use crate::omega::{is_notice, spec_presence_kind};
use crate::omega_connection::OmegaConnection;
use crate::user::UserStatus;
use crate::wire::{CommunicationType, DataTypes};

verus! {

/// A client connection as the registry knows it: its handle and its user.
#[derive(Debug, Clone, Copy, PartialEq, Eq, Structural)]
pub struct ClientRef {
    pub conn: u64,
    pub user_id: i64,
}

/// An iota connection, the users it serves and the connected clients.
pub struct RhoConnection {
    pub iota_id: i64,
    pub user_ids: Vec<i64>,
    pub clients: Vec<ClientRef>,
}

/// The content of a rho connection.
pub struct RhoView {
    pub iota_id: i64,
    pub user_ids: Seq<i64>,
    pub clients: Seq<ClientRef>,
}

/// The view of a rho connection.
pub open spec fn rho_view(r: RhoConnection) -> RhoView {
    RhoView { iota_id: r.iota_id, user_ids: r.user_ids@, clients: r.clients@ }
}

/// The handles of the clients of a user, in order.
pub open spec fn conns_of(cs: Seq<ClientRef>, user_id: i64) -> Seq<u64>
    decreases cs.len(),
{
    if cs.len() == 0 {
        Seq::empty()
    } else if cs.last().user_id == user_id {
        conns_of(cs.drop_last(), user_id).push(cs.last().conn)
    } else {
        conns_of(cs.drop_last(), user_id)
    }
}

/// The clients that stay when a user's clients are closed.
pub open spec fn clients_without(cs: Seq<ClientRef>, user_id: i64) -> Seq<ClientRef> {
    cs.filter(|c: ClientRef| c.user_id != user_id)
}

/// The handle of the first client of a user.
pub open spec fn first_conn_of(cs: Seq<ClientRef>, user_id: i64) -> Option<u64> {
    if conns_of(cs, user_id).len() > 0 {
        Some(conns_of(cs, user_id)[0])
    } else {
        None
    }
}

fn contains_i64(v: &Vec<i64>, x: i64) -> (r: bool)
    ensures
        r == v@.contains(x),
{
    let mut i: usize = 0;
    while i < v.len()
        invariant
            i <= v.len(),
            forall|j: int| 0 <= j < i ==> v@[j] != x,
        decreases v.len() - i,
    {
        if v[i] == x {
            return true;
        }
        i = i + 1;
    }
    false
}

impl RhoConnection {
    /// A rho connection without clients.
    pub fn new(iota_id: i64, user_ids: Vec<i64>) -> (r: RhoConnection)
        ensures
            rho_view(r) == (RhoView { iota_id, user_ids: user_ids@, clients: Seq::empty() }),
    {
        RhoConnection { iota_id, user_ids, clients: Vec::new() }
    }

    /// The iota's id.
    pub fn get_iota_id(&self) -> (r: i64)
        ensures
            r == self.iota_id,
    {
        self.iota_id
    }

    /// The users the iota serves.
    pub fn get_user_ids(&self) -> (r: &Vec<i64>)
        ensures
            r@ == self.user_ids@,
    {
        &self.user_ids
    }

    /// The connected clients.
    pub fn get_client_connections(&self) -> (r: Vec<ClientRef>)
        ensures
            r@ == self.clients@,
    {
        let mut out: Vec<ClientRef> = Vec::new();
        let mut i: usize = 0;
        while i < self.clients.len()
            invariant
                i <= self.clients.len(),
                out@ == self.clients@.subrange(0, i as int),
            decreases self.clients.len() - i,
        {
            out.push(self.clients[i]);
            i = i + 1;
        }
        assert(self.clients@.subrange(0, self.clients.len() as int) =~= self.clients@);
        out
    }

    /// The handles of a user's clients.
    pub fn get_client_connections_for_user(&self, user_id: i64) -> (r: Vec<u64>)
        ensures
            r@ == conns_of(self.clients@, user_id),
    {
        let mut out: Vec<u64> = Vec::new();
        let mut i: usize = 0;
        while i < self.clients.len()
            invariant
                i <= self.clients.len(),
                out@ == conns_of(self.clients@.subrange(0, i as int), user_id),
            decreases self.clients.len() - i,
        {
            assert(self.clients@.subrange(0, i + 1).drop_last() =~= self.clients@.subrange(
                0,
                i as int,
            ));
            if self.clients[i].user_id == user_id {
                out.push(self.clients[i].conn);
            }
            i = i + 1;
        }
        assert(self.clients@.subrange(0, self.clients.len() as int) =~= self.clients@);
        out
    }

    /// Adds a client. Returns the notice for the iota (`client_connected`
    /// with the user) and the presence notice for omega (the user is online).
    pub fn add_client_connection(&mut self, connection: ClientRef) -> (r: (
        CommunicationValue,
        CommunicationValue,
    ))
        ensures
            final(self).iota_id == old(self).iota_id,
            final(self).user_ids@ == old(self).user_ids@,
            final(self).clients@ == old(self).clients@.push(connection),
            r.0.wf(),
            is_notice(r.0@, CommunicationType::client_connected, DataTypes::user_id, connection.user_id),
            r.1.wf(),
            is_notice(
                r.1@,
                spec_presence_kind(UserStatus::user_online),
                DataTypes::user_id,
                connection.user_id,
            ),
    {
        let notification = CommunicationValue::new(CommunicationType::client_connected).add_data(
            DataTypes::user_id,
            Json::Number(JsonNumber::from_i64(connection.user_id)),
        );
        assert(notification@.data =~= seq![
            (DataTypes::user_id, JsonView::Number(spec_number_from_i64(connection.user_id))),
        ]);
        self.clients.push(connection);
        let presence = OmegaConnection::client_changed(self.iota_id, connection.user_id, UserStatus::user_online);
        (notification, presence)
    }

    /// Removes the closing connection, with every other connection of its
    /// user; the other users' connections keep their order. Returns the
    /// presence notice for omega (the user is offline).
    pub fn close_client_connection(&mut self, connection: ClientRef) -> (r: CommunicationValue)
        ensures
            final(self).iota_id == old(self).iota_id,
            final(self).user_ids@ == old(self).user_ids@,
            final(self).clients@ == clients_without(old(self).clients@, connection.user_id),
            !final(self).clients@.contains(connection),
            r.wf(),
            is_notice(
                r@,
                spec_presence_kind(UserStatus::user_offline),
                DataTypes::user_id,
                connection.user_id,
            ),
    {
        let mut kept: Vec<ClientRef> = Vec::new();
        let mut i: usize = 0;
        while i < self.clients.len()
            invariant
                i <= self.clients.len(),
                kept@ == clients_without(self.clients@.subrange(0, i as int), connection.user_id),
            decreases self.clients.len() - i,
        {
            proof {
                assert(self.clients@.subrange(0, i + 1).drop_last() =~= self.clients@.subrange(
                    0,
                    i as int,
                ));
                reveal_with_fuel(Seq::filter, 1);
            }
            if self.clients[i].user_id != connection.user_id {
                kept.push(self.clients[i]);
            }
            i = i + 1;
        }
        assert(self.clients@.subrange(0, self.clients.len() as int) =~= self.clients@);
        proof {
            broadcast use vstd::seq_lib::group_filter_ensures;
            if kept@.contains(connection) {
                let k = choose|k: int| 0 <= k < kept@.len() && kept@[k] == connection;
                assert(kept@[k].user_id != connection.user_id);
            }
        }
        self.clients = kept;
        OmegaConnection::client_changed(self.iota_id, connection.user_id, UserStatus::user_offline)
    }

    /// The handles of the clients that a message from the iota goes to: those
    /// of its receiver.
    pub fn message_to_client(&self, cv: &CommunicationValue) -> (r: Vec<u64>)
        ensures
            r@ == conns_of(self.clients@, cv@.receiver),
    {
        self.get_client_connections_for_user(cv.get_receiver())
    }

    /// The handle of the client whose interests are set for a user: the
    /// user's first client.
    pub fn set_interested(&self, user_id: i64) -> (r: Option<u64>)
        ensures
            r == first_conn_of(self.clients@, user_id),
    {
        let conns = self.get_client_connections_for_user(user_id);
        if conns.len() > 0 {
            Some(conns[0])
        } else {
            None
        }
    }

    /// Whether the iota serves a user.
    pub fn contains_user(&self, user_id: &i64) -> (r: bool)
        ensures
            r == self.user_ids@.contains(*user_id),
    {
        contains_i64(&self.user_ids, *user_id)
    }

    /// The number of connected clients.
    pub fn client_count(&self) -> (r: usize)
        ensures
            r == self.clients@.len(),
    {
        self.clients.len()
    }
}

/// The rho connections, at most one per iota.
pub struct RhoManager {
    rhos: Vec<RhoConnection>,
}

/// The index of the rho connection of an iota, searching from `i`.
pub open spec fn rho_index_from(rs: Seq<RhoView>, iota_id: i64, i: nat) -> Option<nat>
    decreases rs.len() - i,
{
    if i >= rs.len() {
        None
    } else if rs[i as int].iota_id == iota_id {
        Some(i)
    } else {
        rho_index_from(rs, iota_id, i + 1)
    }
}

/// The index of the first rho connection serving a user, searching from `i`.
pub open spec fn user_rho_index_from(rs: Seq<RhoView>, user_id: i64, i: nat) -> Option<nat>
    decreases rs.len() - i,
{
    if i >= rs.len() {
        None
    } else if rs[i as int].user_ids.contains(user_id) {
        Some(i)
    } else {
        user_rho_index_from(rs, user_id, i + 1)
    }
}

/// No two rho connections belong to the same iota.
pub open spec fn distinct_iotas(rs: Seq<RhoView>) -> bool {
    forall|i: int, j: int| 0 <= i < j < rs.len() ==> rs[i].iota_id != rs[j].iota_id
}

/// The first index found is that of the iota, and no earlier entry has it.
pub proof fn lemma_rho_index_from(rs: Seq<RhoView>, iota_id: i64, i: nat)
    ensures
        rho_index_from(rs, iota_id, i) matches Some(j) ==> i <= j < rs.len()
            && rs[j as int].iota_id == iota_id,
        rho_index_from(rs, iota_id, i) is None ==> forall|m: int|
            i <= m < rs.len() ==> rs[m].iota_id != iota_id,
    decreases rs.len() - i,
{
    if i < rs.len() {
        lemma_rho_index_from(rs, iota_id, i + 1);
    }
}

/// The first index found serves the user, and no earlier entry does.
pub proof fn lemma_user_rho_index_from(rs: Seq<RhoView>, user_id: i64, i: nat)
    ensures
        user_rho_index_from(rs, user_id, i) matches Some(j) ==> i <= j < rs.len()
            && rs[j as int].user_ids.contains(user_id),
        user_rho_index_from(rs, user_id, i) is None ==> forall|m: int|
            i <= m < rs.len() ==> !rs[m].user_ids.contains(user_id),
    decreases rs.len() - i,
{
    if i < rs.len() {
        lemma_user_rho_index_from(rs, user_id, i + 1);
    }
}

/// The registry after adding a rho connection: it replaces the one of the
/// same iota, or is appended.
pub open spec fn spec_add_rho(rs: Seq<RhoView>, r: RhoView) -> Seq<RhoView> {
    match rho_index_from(rs, r.iota_id, 0) {
        Some(i) => rs.update(i as int, r),
        None => rs.push(r),
    }
}

impl View for RhoManager {
    type V = Seq<RhoView>;

    closed spec fn view(&self) -> Seq<RhoView> {
        self.rhos@.map_values(|r: RhoConnection| rho_view(r))
    }
}

impl RhoManager {
    /// No two entries share an iota.
    pub open spec fn wf(&self) -> bool {
        distinct_iotas(self@)
    }

    /// A registry without connections.
    pub fn new() -> (r: RhoManager)
        ensures
            r.wf(),
            r@ == Seq::<RhoView>::empty(),
    {
        let r = RhoManager { rhos: Vec::new() };
        assert(r@ =~= Seq::empty());
        r
    }

    fn index_of(&self, iota_id: i64) -> (r: Option<usize>)
        ensures
            self@.len() == self.rhos.len(),
            r matches Some(i) ==> rho_index_from(self@, iota_id, 0) == Some(i as nat) && i
                < self.rhos.len(),
            r is None ==> rho_index_from(self@, iota_id, 0) is None,
    {
        let mut i: usize = 0;
        while i < self.rhos.len()
            invariant
                i <= self.rhos.len(),
                self@.len() == self.rhos.len(),
                rho_index_from(self@, iota_id, 0) == rho_index_from(self@, iota_id, i as nat),
            decreases self.rhos.len() - i,
        {
            if self.rhos[i].iota_id == iota_id {
                return Some(i);
            }
            i = i + 1;
        }
        None
    }

    /// The iota that serves a user: the first rho connection whose users
    /// include them.
    pub fn get_rho_con_for_user(&self, user_id: i64) -> (r: Option<i64>)
        ensures
            r == (match user_rho_index_from(self@, user_id, 0) {
                Some(i) => Some(self@[i as int].iota_id),
                None => None,
            }),
    {
        let mut i: usize = 0;
        while i < self.rhos.len()
            invariant
                i <= self.rhos.len(),
                self@.len() == self.rhos.len(),
                user_rho_index_from(self@, user_id, 0) == user_rho_index_from(
                    self@,
                    user_id,
                    i as nat,
                ),
            decreases self.rhos.len() - i,
        {
            let found = contains_i64(&self.rhos[i].user_ids, user_id);
            assert(self@[i as int] == rho_view(self.rhos@[i as int]));
            if found {
                return Some(self.rhos[i].iota_id);
            }
            i = i + 1;
        }
        None
    }

    /// Whether an iota is connected.
    pub fn contains_iota(&self, iota_id: i64) -> (r: bool)
        ensures
            r == rho_index_from(self@, iota_id, 0) is Some,
    {
        self.index_of(iota_id).is_some()
    }

    /// Adds a user to the users an iota serves; `false` where the iota is not
    /// connected.
    pub fn bind_user_to_iota(&mut self, user_id: i64, iota_id: i64) -> (r: bool)
        requires
            old(self).wf(),
        ensures
            final(self).wf(),
            r == rho_index_from(old(self)@, iota_id, 0) is Some,
            !r ==> final(self)@ == old(self)@,
            r ==> ({
                let i = rho_index_from(old(self)@, iota_id, 0)->0 as int;
                final(self)@ == old(self)@.update(
                    i,
                    RhoView { user_ids: old(self)@[i].user_ids.push(user_id), ..old(self)@[i] },
                )
            }),
    {
        match self.index_of(iota_id) {
            Some(i) => {
                let ghost before = self@;
                let mut rho = self.rhos.remove(i);
                rho.user_ids.push(user_id);
                self.rhos.insert(i, rho);
                proof {
                    assert(self@ =~= before.update(
                        i as int,
                        RhoView { user_ids: before[i as int].user_ids.push(user_id), ..before[i as int] },
                    ));
                    assert forall|a: int, b: int| 0 <= a < b < self@.len() implies self@[a].iota_id
                        != self@[b].iota_id by {
                        assert(self@[a].iota_id == before[a].iota_id);
                        assert(self@[b].iota_id == before[b].iota_id);
                    }
                }
                true
            },
            None => false,
        }
    }

    /// Removes and returns the rho connection of an iota.
    pub fn remove_rho(&mut self, iota_id: i64) -> (r: Option<RhoConnection>)
        requires
            old(self).wf(),
        ensures
            final(self).wf(),
            r is Some == rho_index_from(old(self)@, iota_id, 0) is Some,
            r matches Some(rho) ==> rho_view(rho) == old(self)@[rho_index_from(
                old(self)@,
                iota_id,
                0,
            )->0 as int] && final(self)@ == old(self)@.remove(
                rho_index_from(old(self)@, iota_id, 0)->0 as int,
            ),
            r is None ==> final(self)@ == old(self)@,
            rho_index_from(final(self)@, iota_id, 0) is None,
    {
        proof {
            lemma_rho_index_from(self@, iota_id, 0);
        }
        match self.index_of(iota_id) {
            Some(i) => {
                let ghost before = self@;
                let rho = self.rhos.remove(i);
                proof {
                    assert(self@ =~= before.remove(i as int));
                    assert forall|a: int, b: int| 0 <= a < b < self@.len() implies self@[a].iota_id
                        != self@[b].iota_id by {
                        let a0 = if a < i { a } else { a + 1 };
                        let b0 = if b < i { b } else { b + 1 };
                        assert(self@[a] == before[a0]);
                        assert(self@[b] == before[b0]);
                    }
                    assert forall|m: int| 0 <= m < self@.len() implies self@[m].iota_id != iota_id by {
                        let m0 = if m < i { m } else { m + 1 };
                        assert(self@[m] == before[m0]);
                    }
                    lemma_rho_index_from(self@, iota_id, 0);
                }
                Some(rho)
            },
            None => {
                proof {
                    lemma_rho_index_from(self@, iota_id, 0);
                }
                None
            },
        }
    }

    /// Closes an iota's connection: its rho connection leaves the registry,
    /// and the handles of its clients, to be closed, are returned with the
    /// notice to omega that the iota went away; `None` where the iota is not
    /// connected.
    pub fn close_iota_connection(&mut self, iota_id: i64) -> (r: Option<(Vec<u64>, CommunicationValue)>)
        requires
            old(self).wf(),
        ensures
            final(self).wf(),
            r is Some == rho_index_from(old(self)@, iota_id, 0) is Some,
            r is None ==> final(self)@ == old(self)@,
            r matches Some(out) ==> ({
                let i = rho_index_from(old(self)@, iota_id, 0)->0 as int;
                &&& final(self)@ == old(self)@.remove(i)
                &&& out.0@ == old(self)@[i].clients.map_values(|c: ClientRef| c.conn)
                &&& out.1.wf() && is_notice(out.1@, CommunicationType::iota_disconnected, DataTypes::iota_id, iota_id)
            }),
    {
        match self.remove_rho(iota_id) {
            Some(rho) => {
                let mut conns: Vec<u64> = Vec::new();
                let mut k: usize = 0;
                while k < rho.clients.len()
                    invariant
                        k <= rho.clients.len(),
                        conns@ == rho.clients@.subrange(0, k as int).map_values(|c: ClientRef| c.conn),
                    decreases rho.clients.len() - k,
                {
                    conns.push(rho.clients[k].conn);
                    proof {
                        assert(rho.clients@.subrange(0, k + 1).map_values(|c: ClientRef| c.conn)
                            =~= rho.clients@.subrange(0, k as int).map_values(|c: ClientRef| c.conn).push(rho.clients@[k as int].conn));
                    }
                    k = k + 1;
                }
                assert(rho.clients@.subrange(0, rho.clients.len() as int) =~= rho.clients@);
                Some((conns, OmegaConnection::close_iota(iota_id)))
            },
            None => None,
        }
    }

    /// Adds a rho connection, replacing the one of the same iota.
    pub fn add_rho(&mut self, rho_connection: RhoConnection)
        requires
            old(self).wf(),
        ensures
            final(self).wf(),
            final(self)@ == spec_add_rho(old(self)@, rho_view(rho_connection)),
    {
        let ghost v = rho_view(rho_connection);
        proof {
            lemma_rho_index_from(self@, v.iota_id, 0);
        }
        match self.index_of(rho_connection.iota_id) {
            Some(i) => {
                let ghost before = self@;
                self.rhos.set(i, rho_connection);
                proof {
                    assert(self@ =~= before.update(i as int, v));
                    assert forall|a: int, b: int| 0 <= a < b < self@.len() implies self@[a].iota_id
                        != self@[b].iota_id by {
                        assert(self@[a].iota_id == before[a].iota_id);
                        assert(self@[b].iota_id == before[b].iota_id);
                    }
                }
            },
            None => {
                let ghost before = self@;
                self.rhos.push(rho_connection);
                proof {
                    assert(self@ =~= before.push(v));
                }
            },
        }
    }

    /// The rho connection of an iota.
    pub fn get_rho_by_iota(&self, iota_id: i64) -> (r: Option<&RhoConnection>)
        ensures
            r is Some == rho_index_from(self@, iota_id, 0) is Some,
            r matches Some(rho) ==> rho_view(*rho) == self@[rho_index_from(self@, iota_id, 0)->0 as int],
    {
        match self.index_of(iota_id) {
            Some(i) => Some(&self.rhos[i]),
            None => None,
        }
    }

    /// The number of connected iotas.
    pub fn connection_count(&self) -> (r: usize)
        ensures
            r == self@.len(),
    {
        self.rhos.len()
    }

    /// Adds a client to an iota's connection (see
    /// `RhoConnection::add_client_connection`); `None` where the iota is not
    /// connected.
    pub fn add_client_connection(&mut self, iota_id: i64, connection: ClientRef) -> (r: Option<
        (CommunicationValue, CommunicationValue),
    >)
        requires
            old(self).wf(),
        ensures
            final(self).wf(),
            r is Some == rho_index_from(old(self)@, iota_id, 0) is Some,
            r is None ==> final(self)@ == old(self)@,
            r matches Some(msgs) ==> ({
                let i = rho_index_from(old(self)@, iota_id, 0)->0 as int;
                &&& final(self)@ == old(self)@.update(
                    i,
                    RhoView { clients: old(self)@[i].clients.push(connection), ..old(self)@[i] },
                )
                &&& msgs.0.wf() && is_notice(msgs.0@, CommunicationType::client_connected, DataTypes::user_id, connection.user_id)
                &&& msgs.1.wf() && is_notice(msgs.1@, spec_presence_kind(UserStatus::user_online), DataTypes::user_id, connection.user_id)
            }),
    {
        match self.index_of(iota_id) {
            Some(i) => {
                let ghost before = self@;
                let mut rho = self.rhos.remove(i);
                let msgs = rho.add_client_connection(connection);
                self.rhos.insert(i, rho);
                proof {
                    assert(self@ =~= before.update(
                        i as int,
                        RhoView { clients: before[i as int].clients.push(connection), ..before[i as int] },
                    ));
                    assert forall|a: int, b: int| 0 <= a < b < self@.len() implies self@[a].iota_id
                        != self@[b].iota_id by {
                        assert(self@[a].iota_id == before[a].iota_id);
                        assert(self@[b].iota_id == before[b].iota_id);
                    }
                }
                Some(msgs)
            },
            None => None,
        }
    }

    /// Removes a closing client, with its user's other clients, from an
    /// iota's connection (see `RhoConnection::close_client_connection`);
    /// `None` where the iota is not connected.
    pub fn close_client_connection(&mut self, iota_id: i64, connection: ClientRef) -> (r: Option<
        CommunicationValue,
    >)
        requires
            old(self).wf(),
        ensures
            final(self).wf(),
            r is Some == rho_index_from(old(self)@, iota_id, 0) is Some,
            r is None ==> final(self)@ == old(self)@,
            r matches Some(msg) ==> ({
                let i = rho_index_from(old(self)@, iota_id, 0)->0 as int;
                &&& final(self)@ == old(self)@.update(
                    i,
                    RhoView {
                        clients: clients_without(old(self)@[i].clients, connection.user_id),
                        ..old(self)@[i]
                    },
                )
                &&& msg.wf() && is_notice(msg@, spec_presence_kind(UserStatus::user_offline), DataTypes::user_id, connection.user_id)
            }),
    {
        match self.index_of(iota_id) {
            Some(i) => {
                let ghost before = self@;
                let mut rho = self.rhos.remove(i);
                let msg = rho.close_client_connection(connection);
                self.rhos.insert(i, rho);
                proof {
                    assert(self@ =~= before.update(
                        i as int,
                        RhoView {
                            clients: clients_without(before[i as int].clients, connection.user_id),
                            ..before[i as int]
                        },
                    ));
                    assert forall|a: int, b: int| 0 <= a < b < self@.len() implies self@[a].iota_id
                        != self@[b].iota_id by {
                        assert(self@[a].iota_id == before[a].iota_id);
                        assert(self@[b].iota_id == before[b].iota_id);
                    }
                }
                Some(msg)
            },
            None => None,
        }
    }
}

} // verus!
