//! The relay's link to omega: requests waiting for omega's answer, keyed by
//! message id; the pings the relay sends omega, and the latency measured
//! from their pongs.

use vstd::prelude::*;

use crate::communication::{with_field, CommunicationValue, MessageView};
use crate::json::{spec_number_from_i64, Json, JsonNumber, JsonView};
use crate::outgoing::{bare_reply, error_reply};
use crate::wire::{CommunicationType, DataTypes};

verus! {

/// How long a ping waits for its pong, in milliseconds.
pub const PING_TIMEOUT_MS: u64 = 30000;

/// The state of the link.
#[derive(Debug, Clone, Copy, PartialEq, Eq, Structural)]
pub enum LinkState {
    Disconnected,
    Connecting,
    Connected,
}

/// What a message from omega is for.
pub enum Inbound {
    /// The answer to a waiting request: hand it to the request's waiter.
    Answer,
    /// Omega's ping: answer with this pong.
    Pong(CommunicationValue),
    /// Nothing to do.
    Ignore,
}

/// The link to omega: the ids of the requests waiting for an answer, with
/// when each was registered; the ids of the pings sent, with when; the last
/// latency measured.
pub struct OmegaConnection {
    pub state: LinkState,
    pub waiting: Vec<(u128, u64)>,
    pub pings: Vec<(u128, u64)>,
    pub last_ping: i64,
}

/// The index of an id among entries, searching from `i`.
pub open spec fn slot_from(es: Seq<(u128, u64)>, id: u128, i: nat) -> Option<nat>
    decreases es.len() - i,
{
    if i >= es.len() {
        None
    } else if es[i as int].0 == id {
        Some(i)
    } else {
        slot_from(es, id, i + 1)
    }
}

/// No id occurs twice among entries.
pub open spec fn distinct_ids(es: Seq<(u128, u64)>) -> bool {
    forall|i: int, j: int| 0 <= i < j < es.len() ==> es[i].0 != es[j].0
}

/// Entries as a map from id to time.
pub open spec fn entries_map(es: Seq<(u128, u64)>) -> Map<u128, u64>
    decreases es.len(),
{
    if es.len() == 0 {
        Map::empty()
    } else {
        entries_map(es.drop_last()).insert(es.last().0, es.last().1)
    }
}

/// The first index found has the id, and no other entry does.
pub proof fn lemma_slot_from(es: Seq<(u128, u64)>, id: u128, i: nat)
    ensures
        slot_from(es, id, i) matches Some(j) ==> i <= j < es.len() && es[j as int].0 == id,
        slot_from(es, id, i) is None ==> forall|m: int| i <= m < es.len() ==> es[m].0 != id,
    decreases es.len() - i,
{
    if i < es.len() {
        lemma_slot_from(es, id, i + 1);
    }
}

/// The map of entries holds exactly their ids, each with its time.
pub proof fn lemma_entries_map(es: Seq<(u128, u64)>)
    requires
        distinct_ids(es),
    ensures
        forall|k: int| 0 <= k < es.len() ==> entries_map(es).dom().contains(#[trigger] es[k].0)
            && entries_map(es)[es[k].0] == es[k].1,
        forall|id: u128| #[trigger] entries_map(es).dom().contains(id) ==> exists|k: int| 0 <= k < es.len() && es[k].0 == id,
    decreases es.len(),
{
    if es.len() > 0 {
        let rest = es.drop_last();
        let last = es.last();
        assert(distinct_ids(rest)) by {
            assert forall|i: int, j: int| 0 <= i < j < rest.len() implies rest[i].0 != rest[j].0 by {
                assert(rest[i] == es[i]);
                assert(rest[j] == es[j]);
            }
        }
        lemma_entries_map(rest);
        assert forall|k: int| 0 <= k < es.len() implies entries_map(es).dom().contains(#[trigger] es[k].0)
            && entries_map(es)[es[k].0] == es[k].1 by {
            if k < es.len() - 1 {
                assert(rest[k] == es[k]);
                assert(es[k].0 != last.0);
            }
        }
        assert forall|id: u128| #[trigger] entries_map(es).dom().contains(id) implies exists|k: int| 0 <= k < es.len() && es[k].0 == id by {
            if id == last.0 {
                assert(es[es.len() - 1].0 == id);
            } else {
                assert(entries_map(rest).dom().contains(id));
                let k = choose|k: int| 0 <= k < rest.len() && rest[k].0 == id;
                assert(es[k].0 == id);
            }
        }
    }
}

/// Removes the entry of an id, where there is one, returning its time.
fn take_entry(es: &mut Vec<(u128, u64)>, id: u128) -> (r: Option<u64>)
    requires
        distinct_ids(old(es)@),
    ensures
        distinct_ids(final(es)@),
        entries_map(final(es)@) == entries_map(old(es)@).remove(id),
        r == (if entries_map(old(es)@).dom().contains(id) {
            Some(entries_map(old(es)@)[id])
        } else {
            None
        }),
{
    proof {
        lemma_entries_map(es@);
    }
    let mut i: usize = 0;
    while i < es.len()
        invariant
            i <= es.len(),
            es@ == old(es)@,
            distinct_ids(es@),
            forall|m: int| 0 <= m < i ==> es@[m].0 != id,
        decreases es.len() - i,
    {
        if es[i].0 == id {
            let ghost before = es@;
            let e = es.remove(i);
            proof {
                let after = es@;
                assert(after =~= before.remove(i as int));
                assert(distinct_ids(after)) by {
                    assert forall|a: int, b: int| 0 <= a < b < after.len() implies after[a].0 != after[b].0 by {
                        let a0 = if a < i { a } else { a + 1 };
                        let b0 = if b < i { b } else { b + 1 };
                        assert(after[a] == before[a0]);
                        assert(after[b] == before[b0]);
                    }
                }
                lemma_entries_map(before);
                lemma_entries_map(after);
                assert(before[i as int].0 == id);
                assert(entries_map(after) =~= entries_map(before).remove(id)) by {
                    assert forall|x: u128| entries_map(after).dom().contains(x) <==> entries_map(before).remove(id).dom().contains(x) by {
                        if entries_map(after).dom().contains(x) {
                            let k = choose|k: int| 0 <= k < after.len() && after[k].0 == x;
                            let k0 = if k < i { k } else { k + 1 };
                            assert(after[k] == before[k0]);
                            assert(before[k0].0 == x);
                            assert(k0 != i);
                            assert(x != id);
                        }
                        if entries_map(before).remove(id).dom().contains(x) {
                            let k = choose|k: int| 0 <= k < before.len() && before[k].0 == x;
                            assert(k != i);
                            let k1 = if k < i { k } else { k - 1 };
                            assert(after[k1] == before[k]);
                            assert(after[k1].0 == x);
                        }
                    }
                    assert forall|x: u128| #[trigger] entries_map(after).dom().contains(x) implies entries_map(after)[x]
                        == entries_map(before).remove(id)[x] by {
                        let k = choose|k: int| 0 <= k < after.len() && after[k].0 == x;
                        let k0 = if k < i { k } else { k + 1 };
                        assert(after[k] == before[k0]);
                        assert(before[k0].0 == x);
                    }
                }
            }
            return Some(e.1);
        }
        i = i + 1;
    }
    proof {
        if entries_map(es@).dom().contains(id) {
            let k = choose|k: int| 0 <= k < es@.len() && es@[k].0 == id;
            assert(es@[k].0 != id);
        }
        assert(entries_map(es@) =~= entries_map(es@).remove(id));
    }
    None
}

/// Records an id with a time, replacing an earlier entry of the id.
fn put_entry(es: &mut Vec<(u128, u64)>, id: u128, at: u64)
    requires
        distinct_ids(old(es)@),
    ensures
        distinct_ids(final(es)@),
        entries_map(final(es)@) == entries_map(old(es)@).insert(id, at),
{
    let _ = take_entry(es, id);
    let ghost before = es@;
    proof {
        lemma_entries_map(before);
    }
    es.push((id, at));
    proof {
        assert(es@.drop_last() =~= before);
        assert(distinct_ids(es@)) by {
            assert forall|a: int, b: int| 0 <= a < b < es@.len() implies es@[a].0 != es@[b].0 by {
                if b == es@.len() - 1 {
                    assert(es@[a] == before[a]);
                    assert(!entries_map(before).dom().contains(id));
                }
            }
        }
        assert(entries_map(es@) =~= entries_map(before).insert(id, at));
    }
}

/// An entry registered less than `timeout` before `now`.
pub open spec fn is_fresh(e: (u128, u64), now: u64, timeout: u64) -> bool {
    (now as int) - (e.1 as int) < timeout as int
}

/// The entries of a map registered less than `timeout` before `now`.
pub open spec fn fresh_entries(m: Map<u128, u64>, now: u64, timeout: u64) -> Map<u128, u64> {
    Map::new(|k: u128| m.dom().contains(k) && is_fresh((k, m[k]), now, timeout), |k: u128| m[k])
}

/// Drops the entries registered `timeout` or more before `now`.
fn drop_expired(es: &mut Vec<(u128, u64)>, now: u64, timeout: u64)
    requires
        distinct_ids(old(es)@),
    ensures
        distinct_ids(final(es)@),
        entries_map(final(es)@) == fresh_entries(entries_map(old(es)@), now, timeout),
{
    let mut kept: Vec<(u128, u64)> = Vec::new();
    let mut i: usize = 0;
    while i < es.len()
        invariant
            i <= es.len(),
            distinct_ids(es@),
            distinct_ids(kept@),
            forall|e: (u128, u64)| kept@.contains(e) <==> (es@.subrange(0, i as int).contains(e) && is_fresh(e, now, timeout)),
        decreases es.len() - i,
    {
        let e = es[i];
        let ghost sub1 = es@.subrange(0, i + 1);
        let ghost sub0 = es@.subrange(0, i as int);
        proof {
            assert forall|x: (u128, u64)| sub1.contains(x) <==> (sub0.contains(x) || x == e) by {
                if sub1.contains(x) {
                    let k = choose|k: int| 0 <= k < sub1.len() && sub1[k] == x;
                    if k < i {
                        assert(sub0[k] == x);
                    }
                }
                if sub0.contains(x) {
                    let k = choose|k: int| 0 <= k < sub0.len() && sub0[k] == x;
                    assert(sub1[k] == x);
                }
                if x == e {
                    assert(sub1[i as int] == x);
                }
            }
        }
        if (now as i128) - (e.1 as i128) < (timeout as i128) {
            let ghost before = kept@;
            proof {
                assert forall|a: int| 0 <= a < before.len() implies before[a].0 != e.0 by {
                    assert(before.contains(before[a]));
                    let k = choose|k: int| 0 <= k < sub0.len() && sub0[k] == before[a];
                    assert(es@[k] == before[a]);
                }
            }
            kept.push(e);
            proof {
                assert forall|x: (u128, u64)| #[trigger] kept@.contains(x) <==> (before.contains(x) || x == e) by {
                    if kept@.contains(x) {
                        let k = choose|k: int| 0 <= k < kept@.len() && kept@[k] == x;
                        if k < before.len() {
                            assert(before[k] == x);
                        }
                    }
                    if before.contains(x) {
                        let k = choose|k: int| 0 <= k < before.len() && before[k] == x;
                        assert(kept@[k] == x);
                    }
                    if x == e {
                        assert(kept@[before.len() as int] == x);
                    }
                }
                assert forall|x: (u128, u64)| #[trigger] kept@.contains(x) <==> (sub1.contains(x) && is_fresh(x, now, timeout)) by {
                    assert(before.contains(x) <==> (sub0.contains(x) && is_fresh(x, now, timeout)));
                    assert(sub1.contains(x) <==> (sub0.contains(x) || x == e));
                }
            }
        } else {
            proof {
                assert forall|x: (u128, u64)| #[trigger] kept@.contains(x) <==> (sub1.contains(x) && is_fresh(x, now, timeout)) by {
                    assert(kept@.contains(x) <==> (sub0.contains(x) && is_fresh(x, now, timeout)));
                    assert(sub1.contains(x) <==> (sub0.contains(x) || x == e));
                }
            }
        }
        i = i + 1;
    }
    proof {
        assert(es@.subrange(0, es.len() as int) =~= es@);
        lemma_entries_map(es@);
        lemma_entries_map(kept@);
        let old_m = entries_map(es@);
        assert(entries_map(kept@) =~= fresh_entries(old_m, now, timeout)) by {
            assert forall|k: u128| entries_map(kept@).dom().contains(k) <==> fresh_entries(old_m, now, timeout).dom().contains(k) by {
                if entries_map(kept@).dom().contains(k) {
                    let a = choose|a: int| 0 <= a < kept@.len() && kept@[a].0 == k;
                    assert(kept@.contains(kept@[a]));
                    let b = choose|b: int| 0 <= b < es@.len() && es@[b] == kept@[a];
                    assert(old_m[es@[b].0] == es@[b].1);
                }
                if fresh_entries(old_m, now, timeout).dom().contains(k) {
                    let b = choose|b: int| 0 <= b < es@.len() && es@[b].0 == k;
                    assert(old_m[es@[b].0] == es@[b].1);
                    assert(es@.contains(es@[b]));
                    assert(kept@.contains(es@[b]));
                    let a = choose|a: int| 0 <= a < kept@.len() && kept@[a] == es@[b];
                    assert(kept@[a].0 == k);
                }
            }
            assert forall|k: u128| #[trigger] entries_map(kept@).dom().contains(k) implies entries_map(kept@)[k] == fresh_entries(old_m, now, timeout)[k] by {
                let a = choose|a: int| 0 <= a < kept@.len() && kept@[a].0 == k;
                assert(kept@.contains(kept@[a]));
                let b = choose|b: int| 0 <= b < es@.len() && es@[b] == kept@[a];
                assert(old_m[es@[b].0] == es@[b].1);
                assert(entries_map(kept@)[kept@[a].0] == kept@[a].1);
            }
        }
    }
    *es = kept;
}

/// The identification the relay sends omega: it is an omikron.
pub open spec fn spec_omikron_identification(id: u128) -> MessageView {
    with_field(
        bare_reply(id, CommunicationType::identification),
        DataTypes::omikron,
        JsonView::Number(spec_number_from_i64(1)),
    )
}

impl OmegaConnection {
    /// The requests waiting for an answer, by id, with when each was
    /// registered.
    pub open spec fn waiting(&self) -> Map<u128, u64> {
        entries_map(self.waiting@)
    }

    /// The pings sent and not yet answered, by id, with when each was sent.
    pub open spec fn pings(&self) -> Map<u128, u64> {
        entries_map(self.pings@)
    }

    /// No id is recorded twice.
    pub open spec fn wf(&self) -> bool {
        distinct_ids(self.waiting@) && distinct_ids(self.pings@)
    }

    /// A link not connected yet, with nothing waiting and no ping measured.
    pub fn new() -> (r: OmegaConnection)
        ensures
            r.wf(),
            r.state == LinkState::Disconnected,
            r.waiting() == Map::<u128, u64>::empty(),
            r.pings() == Map::<u128, u64>::empty(),
            r.last_ping == 0,
    {
        let r = OmegaConnection { state: LinkState::Disconnected, waiting: Vec::new(), pings: Vec::new(), last_ping: 0 };
        proof {
            assert(entries_map(r.waiting@) =~= Map::empty());
        }
        r
    }

    /// The identification the relay sends omega once connected.
    pub fn identify() -> (r: CommunicationValue)
        ensures
            r.wf(),
            r@ == spec_omikron_identification(r@.id),
    {
        CommunicationValue::new(CommunicationType::identification).add_data(
            DataTypes::omikron,
            Json::Number(JsonNumber::from_i64(1)),
        )
    }

    /// A request starts waiting for omega's answer (replacing an earlier
    /// request with its id).
    pub fn await_response(&mut self, id: u128, now: u64)
        requires
            old(self).wf(),
        ensures
            final(self).wf(),
            final(self).waiting() == old(self).waiting().insert(id, now),
            final(self).pings() == old(self).pings(),
            final(self).state == old(self).state,
            final(self).last_ping == old(self).last_ping,
    {
        put_entry(&mut self.waiting, id, now);
    }

    /// A request stops waiting (its time ran out); `true` where it was
    /// waiting.
    pub fn give_up(&mut self, id: u128) -> (r: bool)
        requires
            old(self).wf(),
        ensures
            final(self).wf(),
            r == old(self).waiting().dom().contains(id),
            final(self).waiting() == old(self).waiting().remove(id),
            final(self).pings() == old(self).pings(),
            final(self).state == old(self).state,
            final(self).last_ping == old(self).last_ping,
    {
        take_entry(&mut self.waiting, id).is_some()
    }

    /// A message from omega: the answer to a waiting request (which stops
    /// waiting), else a ping to answer with a pong of the same id, else
    /// nothing.
    pub fn on_message(&mut self, cv: &CommunicationValue) -> (r: Inbound)
        requires
            old(self).wf(),
        ensures
            final(self).wf(),
            final(self).waiting() == old(self).waiting().remove(cv@.id),
            final(self).pings() == old(self).pings(),
            final(self).state == old(self).state,
            final(self).last_ping == old(self).last_ping,
            old(self).waiting().dom().contains(cv@.id) ==> r is Answer,
            !old(self).waiting().dom().contains(cv@.id) && cv@.comm_type == CommunicationType::ping ==> (r matches Inbound::Pong(p) && p.wf() && p@ == bare_reply(cv@.id, CommunicationType::pong)),
            !old(self).waiting().dom().contains(cv@.id) && cv@.comm_type != CommunicationType::ping ==> r is Ignore,
    {
        if take_entry(&mut self.waiting, cv.get_id()).is_some() {
            return Inbound::Answer;
        }
        if cv.is_type(CommunicationType::ping) {
            Inbound::Pong(error_reply(cv.get_id(), CommunicationType::pong))
        } else {
            Inbound::Ignore
        }
    }

    /// A ping is sent: pings older than the timeout are forgotten, this one
    /// is recorded, and the ping message (carrying the last latency) returned.
    pub fn send_ping(&mut self, id: u128, now: u64) -> (r: CommunicationValue)
        requires
            old(self).wf(),
        ensures
            final(self).wf(),
            final(self).pings() == fresh_entries(old(self).pings(), now, PING_TIMEOUT_MS).insert(id, now),
            final(self).waiting() == old(self).waiting(),
            final(self).last_ping == old(self).last_ping,
            r.wf(),
            r@ == with_field(
                bare_reply(id, CommunicationType::ping),
                DataTypes::last_ping,
                JsonView::Number(spec_number_from_i64(old(self).last_ping)),
            ),
    {
        drop_expired(&mut self.pings, now, PING_TIMEOUT_MS);
        put_entry(&mut self.pings, id, now);
        error_reply(id, CommunicationType::ping).add_data(
            DataTypes::last_ping,
            Json::Number(JsonNumber::from_i64(self.last_ping)),
        )
    }

    /// A pong from omega: where it answers a recorded ping, the ping is
    /// forgotten and the latency (the time since it was sent, 0 where the
    /// clock went back) becomes the last ping.
    pub fn handle_pong(&mut self, cv: &CommunicationValue, now: u64)
        requires
            old(self).wf(),
        ensures
            final(self).wf(),
            final(self).pings() == old(self).pings().remove(cv@.id),
            final(self).waiting() == old(self).waiting(),
            old(self).pings().dom().contains(cv@.id) ==> final(self).last_ping == (if now >= old(self).pings()[cv@.id] {
                (now - old(self).pings()[cv@.id]) as i64
            } else {
                0
            }),
            !old(self).pings().dom().contains(cv@.id) ==> final(self).last_ping == old(self).last_ping,
    {
        match take_entry(&mut self.pings, cv.get_id()) {
            Some(sent) => {
                let d: u64 = if now >= sent { now - sent } else { 0 };
                self.last_ping = d as i64;
            },
            None => {},
        }
    }
}

} // verus!
