//! The registry of connected WebSocket clients, keyed by client id: each
//! gets a fresh id and a channel; a broadcast sends a payload to every
//! client and drops those whose channel is closed.

use std::collections::HashMap;

use vstd::prelude::*;
use vstd::string::*;
use vstd::std_specs::hash::spec_hash_map_iter;
use vstd::std_specs::iter::IteratorSpec;

verus! {

broadcast use vstd::std_specs::hash::group_hash_axioms;

/// Declares tokio's unbounded channel sender so that the registry can hold
/// one per client.
#[verifier::external_type_specification]
#[verifier::external_body]
#[verifier::reject_recursive_types(T)]
pub struct ExUnboundedSender<T>(tokio::sync::mpsc::UnboundedSender<T>);

/// `UnboundedSender::send`: queues `msg` for the client; `false` when the
/// receiving half is closed. Whether it is closed depends on the client's
/// task, so nothing more is stated.
#[verifier::external_body]
fn send_to(sender: &tokio::sync::mpsc::UnboundedSender<String>, msg: String) -> (delivered: bool) {
    match sender.send(msg) {
        Ok(()) => true,
        Err(_) => false,
    }
}

/// Identifier of a connected client.
pub type ClientId = u64;

/// The ids whose delivery failed (`delivered[i]` is the outcome for
/// `ids[i]`), in order.
pub open spec fn stale_ids(ids: Seq<u64>, delivered: Seq<bool>) -> Seq<u64>
    decreases ids.len(),
{
    if ids.len() == 0 {
        Seq::empty()
    } else if !delivered[ids.len() - 1] {
        stale_ids(ids.drop_last(), delivered).push(ids.last())
    } else {
        stale_ids(ids.drop_last(), delivered)
    }
}

/// The text sent to each client for a broadcast of `payload`: the payload
/// itself.
pub fn client_message(payload: &str) -> (m: String)
    ensures
        m@ == payload@,
{
    String::from_str(payload)
}

/// The ids whose delivery failed, given the outcome for each id in order.
pub fn stale_from_delivery(ids: &Vec<u64>, delivered: &Vec<bool>) -> (r: Vec<u64>)
    requires
        delivered.len() == ids.len(),
    ensures
        r@ == stale_ids(ids@, delivered@),
{
    let mut stale: Vec<u64> = Vec::new();
    let mut i: usize = 0;
    while i < ids.len()
        invariant
            i <= ids.len(),
            delivered.len() == ids.len(),
            stale@ == stale_ids(ids@.take(i as int), delivered@),
        decreases ids.len() - i,
    {
        assert(ids@.take(i + 1).drop_last() =~= ids@.take(i as int));
        assert(ids@.take(i + 1).last() == ids@[i as int]);
        if !delivered[i] {
            stale.push(ids[i]);
        }
        i = i + 1;
    }
    assert(ids@.take(ids.len() as int) =~= ids@);
    stale
}

/// Every stale id is one of the ids.
proof fn lemma_stale_in(ids: Seq<u64>, delivered: Seq<bool>)
    ensures
        forall|k: int| 0 <= k < stale_ids(ids, delivered).len() ==> ids.contains(#[trigger] stale_ids(ids, delivered)[k]),
    decreases ids.len(),
{
    if ids.len() > 0 {
        let p = ids.drop_last();
        lemma_stale_in(p, delivered);
        let r = stale_ids(p, delivered);
        assert forall|k: int| 0 <= k < r.len() implies ids.contains(#[trigger] r[k]) by {
            let w = choose|w: int| 0 <= w < p.len() && p[w] == r[k];
            assert(ids[w] == r[k]);
        }
        if !delivered[ids.len() - 1] {
            let s = r.push(ids.last());
            assert forall|k: int| 0 <= k < s.len() implies ids.contains(#[trigger] s[k]) by {
                if k < r.len() {
                    assert(s[k] == r[k]);
                } else {
                    assert(ids[ids.len() - 1] == s[k]);
                }
            }
        }
    }
}

/// The connected clients, keyed by id, the id the next one gets, and (as a
/// record for proofs) every message handed to a client's channel so far,
/// with the client's id.
pub struct ClientRegistry {
    clients: HashMap<u64, tokio::sync::mpsc::UnboundedSender<String>>,
    next_client_id: u64,
    sent: Ghost<Seq<(u64, Seq<char>)>>,
}

impl ClientRegistry {
    /// Ids of the connected clients.
    pub closed spec fn ids(self) -> Set<u64> {
        self.clients@.dom()
    }

    /// The id the next client gets.
    pub closed spec fn next_id(self) -> u64 {
        self.next_client_id
    }

    /// Every message handed to a client's channel, in order, with the id of
    /// the client it was handed to.
    pub closed spec fn sent(self) -> Seq<(u64, Seq<char>)> {
        self.sent@
    }

    /// All ids lie below the next id.
    pub open spec fn wf(self) -> bool {
        &&& forall|id: u64| #[trigger] self.ids().contains(id) ==> id < self.next_id()
        &&& self.next_id() >= 1
    }

    /// No clients; the first gets id 1; nothing sent yet.
    pub fn new() -> (r: Self)
        ensures
            r.wf(),
            r.ids() == Set::<u64>::empty(),
            r.next_id() == 1,
            r.sent() == Seq::<(u64, Seq<char>)>::empty(),
    {
        ClientRegistry { clients: HashMap::new(), next_client_id: 1, sent: Ghost(Seq::empty()) }
    }

    /// Number of connected clients.
    pub fn len(&self) -> (n: usize)
        ensures
            n == self.ids().len(),
    {
        self.clients.len()
    }

    /// The id the next client will get.
    pub fn next_client_id(&self) -> (n: u64)
        ensures
            n == self.next_id(),
    {
        self.next_client_id
    }

    /// Registers a client's channel under a fresh id.
    pub fn add_client(&mut self, sender: tokio::sync::mpsc::UnboundedSender<String>) -> (id: ClientId)
        requires
            old(self).wf(),
            old(self).next_id() < u64::MAX,
        ensures
            final(self).wf(),
            id == old(self).next_id(),
            !old(self).ids().contains(id),
            final(self).ids() == old(self).ids().insert(id),
            final(self).next_id() == old(self).next_id() + 1,
            final(self).sent() == old(self).sent(),
    {
        let id = self.next_client_id;
        let ghost old_ids = self.ids();
        self.clients.insert(id, sender);
        self.next_client_id = id + 1;
        proof {
            assert forall|x: u64| #[trigger] self.ids().contains(x) implies x < self.next_id() by {
                if x != id {
                    assert(old_ids.contains(x));
                }
            }
        }
        id
    }

    /// Unregisters a client; `true` when it was registered.
    pub fn remove_client(&mut self, id: ClientId) -> (removed: bool)
        requires
            old(self).wf(),
        ensures
            final(self).wf(),
            removed == old(self).ids().contains(id),
            final(self).ids() == old(self).ids().remove(id),
            final(self).next_id() == old(self).next_id(),
            final(self).sent() == old(self).sent(),
    {
        let ghost old_ids = self.ids();
        let r = self.clients.remove(&id);
        proof {
            assert forall|x: u64| #[trigger] self.ids().contains(x) implies x < self.next_id() by {
                assert(old_ids.contains(x));
            }
        }
        r.is_some()
    }

    /// Sends `payload` to every client (in the map's order) and unregisters
    /// those whose channel is closed; returns their ids, in that order.
    pub fn broadcast(&mut self, payload: &str) -> (stale: Vec<ClientId>)
        requires
            old(self).wf(),
        ensures
            final(self).wf(),
            final(self).next_id() == old(self).next_id(),
            exists|order: Seq<u64>, delivered: Seq<bool>|
                {
                    &&& order.no_duplicates()
                    &&& order.to_set() == old(self).ids()
                    &&& delivered.len() == order.len()
                    &&& final(self).sent() == old(self).sent() + order.map_values(|id: u64| (id, payload@))
                    &&& stale@ == stale_ids(order, delivered)
                },
            final(self).ids() == old(self).ids().difference(stale@.to_set()),
    {
        let ghost old_ids = self.ids();
        let ghost m = self.clients@;
        let ghost old_sent = self.sent@;
        let ghost mut sent = old_sent;
        let mut order: Vec<u64> = Vec::new();
        let mut delivered: Vec<bool> = Vec::new();
        let ghost full = spec_hash_map_iter(&self.clients).remaining();
        for entry in it: self.clients.iter()
            invariant
                it.seq() == full,
                full.no_duplicates(),
                full.len() == m.dom().len(),
                forall|i: int| 0 <= i < full.len() ==> m.contains_key(*(#[trigger] full[i]).0) && m[*full[i].0] == *full[i].1,
                forall|k: u64| #[trigger] m.contains_key(k) ==> full.contains((&k, &m[k])),
                order.len() == it.index(),
                order@ =~= full.take(order.len() as int).map_values(|kv: (&u64, &tokio::sync::mpsc::UnboundedSender<String>)| *kv.0),
                delivered.len() == order.len(),
                sent == old_sent + order@.map_values(|i: u64| (i, payload@)),
        {
            let ghost n = order.len() as int;
            proof {
                assert(full.take(n + 1) =~= full.take(n).push(full[n]));
            }
            let (id, sender) = entry;
            let msg = client_message(payload);
            let ghost mv = msg@;
            let ok = send_to(sender, msg);
            proof {
                sent = sent.push((*id, mv));
            }
            let ghost before = order@;
            order.push(*id);
            delivered.push(ok);
            proof {
                assert(order@.map_values(|i: u64| (i, payload@)) =~= before.map_values(|i: u64| (i, payload@)).push(
                    (*id, payload@),
                ));
            }
        }
        proof {
            assert(order.len() == full.len());
            assert(full.take(full.len() as int) =~= full);
        }
        self.sent = Ghost(sent);
        proof {
            let o = order@;
            let sq = full;
            assert forall|i: int, j: int| 0 <= i < j < o.len() implies o[i] != o[j] by {
                if o[i] == o[j] {
                    assert(*sq[i].0 == *sq[j].0);
                    assert(*sq[i].1 == m[*sq[i].0]);
                    assert(*sq[j].1 == m[*sq[j].0]);
                    assert(sq[i] == sq[j]);
                }
            }
            assert forall|x: u64| o.to_set().contains(x) <==> old_ids.contains(x) by {
                if o.contains(x) {
                    let w = choose|w: int| 0 <= w < o.len() && o[w] == x;
                    assert(m.contains_key(*sq[w].0));
                }
                if old_ids.contains(x) {
                    assert(m.contains_key(x));
                    assert(sq.contains((&x, &m[x])));
                    let w = choose|w: int| 0 <= w < sq.len() && sq[w] == (&x, &m[x]);
                    assert(o[w] == x);
                }
            }
            assert(o.to_set() =~= old_ids);
        }
        let stale = stale_from_delivery(&order, &delivered);
        let mut k: usize = 0;
        while k < stale.len()
            invariant
                k <= stale.len(),
                self.next_id() == old(self).next_id(),
                self.ids() == old_ids.difference(stale@.take(k as int).to_set()),
                self.sent@ == old_sent + order@.map_values(|i: u64| (i, payload@)),
            decreases stale.len() - k,
        {
            self.clients.remove(&stale[k]);
            proof {
                let t = stale@.take(k as int);
                let e = stale@[k as int];
                assert(stale@.take(k + 1) =~= t.push(e));
                assert forall|x: u64| t.push(e).contains(x) <==> (t.contains(x) || x == e) by {
                    if t.push(e).contains(x) {
                        let w = choose|w: int| 0 <= w < t.push(e).len() && t.push(e)[w] == x;
                        if w < t.len() {
                            assert(t[w] == x);
                        }
                    }
                    if t.contains(x) {
                        let w = choose|w: int| 0 <= w < t.len() && t[w] == x;
                        assert(t.push(e)[w] == x);
                    }
                    if x == e {
                        assert(t.push(e)[t.len() as int] == x);
                    }
                }
                assert forall|x: u64| #[trigger] t.push(e).to_set().contains(x) == t.to_set().insert(e).contains(x) by {
                    assert(t.push(e).to_set().contains(x) == t.push(e).contains(x));
                    assert(t.to_set().contains(x) == t.contains(x));
                }
                assert(t.push(e).to_set() =~= t.to_set().insert(e));
                assert(self.ids() =~= old_ids.difference(stale@.take(k + 1).to_set()));
            }
            k = k + 1;
        }
        assert(stale@.take(stale.len() as int) =~= stale@);
        proof {
            assert(order@.no_duplicates());
            assert(order@.to_set() == old_ids);
            assert(self.sent() == old_sent + order@.map_values(|i: u64| (i, payload@)));
            assert(stale@ == stale_ids(order@, delivered@));
        }
        stale
    }
}

} // verus!
