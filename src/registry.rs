//! The server's connection registry and the steps of its tick: admit, receive, fan the
//! broadcasts out, send heartbeats, and drop the marked connections.
use vstd::prelude::*;
use crate::session::{
    ConnView, Connection, SessionState, heartbeat_step, receive_spec,
};
use crate::serializer::extend_bytes;

verus! {

/// Ids from this value up are kept for notices that a client shows on its own
/// (the top four bits `0xE` and `0xF`); the server never issues them.
pub const RESERVED_ID_START: u32 = 0xE000_0000;

/// The smallest id the server issues; zero stands for "no id yet" on the client side.
pub const FIRST_CLIENT_ID: u32 = 1;

/// How many random ids `Server::admit_fresh` draws before it gives up.
pub const ID_DRAW_ATTEMPTS: u32 = 64;

/// Why a connection was not admitted.
#[derive(Debug, Clone, Copy, PartialEq, Eq, Structural)]
pub enum AdmitError {
    /// The id lies outside the range the server issues.
    ReservedId,
    /// A live connection already holds the id.
    IdInUse,
    /// Every id drawn was already in use.
    NoFreeId,
}

/// Ids the server may issue to clients.
pub open spec fn is_client_id(id: u32) -> bool {
    FIRST_CLIENT_ID <= id < RESERVED_ID_START
}

/// The content of the registry: its connections in order of admission, and the
/// broadcasts collected during the current tick.
pub struct ServerView {
    pub conns: Seq<ConnView>,
    pub broadcasts: Seq<Seq<u8>>,
}

/// Whether some connection holds `id`.
pub open spec fn has_id(conns: Seq<ConnView>, id: u32) -> bool {
    exists|i: int| 0 <= i < conns.len() && conns[i].id == id
}

/// No two connections hold the same id.
pub open spec fn ids_distinct(conns: Seq<ConnView>) -> bool {
    forall|i: int, j: int|
        0 <= i < conns.len() && 0 <= j < conns.len() && i != j ==> conns[i].id != conns[j].id
}

/// The record of a connection just admitted.
pub open spec fn fresh_conn(id: u32, magic: u32, now: u64) -> ConnView {
    ConnView {
        id,
        magic,
        username: Seq::empty(),
        recv_buf: Seq::empty(),
        state: SessionState::AwaitingRegistration,
        heartbeat_skipped: 0,
        last_heartbeat_ms: now,
        last_request_ms: now,
        marked: false,
        outbox: Seq::empty(),
    }
}

/// Whether `id` can be admitted: it is issuable and free.
pub open spec fn admit_check(s: ServerView, id: u32) -> Result<(), AdmitError> {
    if !is_client_id(id) {
        Err(AdmitError::ReservedId)
    } else if has_id(s.conns, id) {
        Err(AdmitError::IdInUse)
    } else {
        Ok(())
    }
}

/// The registry after admitting a connection with the given identity.
pub open spec fn admitted(s: ServerView, id: u32, magic: u32, now: u64) -> ServerView {
    ServerView { conns: s.conns.push(fresh_conn(id, magic, now)), ..s }
}

/// Whether a connection takes this tick's broadcasts: it is registered and not marked.
pub open spec fn takes_broadcasts(c: ConnView) -> bool {
    c.state == SessionState::Active && !c.marked
}

/// Connections that stay at the end of the tick.
pub open spec fn unmarked() -> spec_fn(ConnView) -> bool {
    |c: ConnView| !c.marked
}

/// Connections dropped at the end of the tick.
pub open spec fn marked() -> spec_fn(ConnView) -> bool {
    |c: ConnView| c.marked
}

/// A connection after the fan-out of the broadcasts `all`, laid end to end.
pub open spec fn fan_out_conn(c: ConnView, all: Seq<u8>) -> ConnView {
    if takes_broadcasts(c) {
        ConnView { outbox: c.outbox + all, ..c }
    } else {
        c
    }
}

/// Relies on rand's `Rng::gen_range` with an inclusive range: the value it draws lies in
/// the range.
#[verifier::external_body]
fn random_in_range(lo: u32, hi: u32) -> (r: u32)
    requires
        lo <= hi,
    ensures
        lo <= r <= hi,
{
    rand::Rng::gen_range(&mut rand::thread_rng(), lo..=hi)
}

/// The connection registry of the server.
pub struct Server {
    conns: Vec<Connection>,
    broadcasts: Vec<Vec<u8>>,
}

impl View for Server {
    type V = ServerView;

    closed spec fn view(&self) -> ServerView {
        ServerView {
            conns: self.conns@.map_values(|c: Connection| c@),
            broadcasts: self.broadcasts.deep_view(),
        }
    }
}

impl Server {
    /// Ids are unique and every record is well formed.
    pub closed spec fn wf(&self) -> bool {
        &&& ids_distinct(self@.conns)
        &&& forall|i: int| 0 <= i < self.conns@.len() ==> #[trigger] self.conns@[i].wf()
    }

    /// An empty registry.
    pub fn new() -> (r: Server)
        ensures
            r.wf(),
            r@.conns == Seq::<ConnView>::empty(),
            r@.broadcasts == Seq::<Seq<u8>>::empty(),
    {
        let r = Server { conns: Vec::new(), broadcasts: Vec::new() };
        assert(r@.conns =~= Seq::<ConnView>::empty());
        assert(r@.broadcasts =~= Seq::<Seq<u8>>::empty());
        r
    }

    /// The number of live connections.
    pub fn len(&self) -> (r: usize)
        ensures
            r == self@.conns.len(),
    {
        self.conns.len()
    }

    /// The position of the connection holding `id`, if any.
    pub fn position(&self, id: u32) -> (r: Option<usize>)
        ensures
            r matches Some(i) ==> i < self@.conns.len() && self@.conns[i as int].id == id,
            r is None <==> !has_id(self@.conns, id),
    {
        let mut i: usize = 0;
        while i < self.conns.len()
            invariant
                i <= self.conns@.len(),
                forall|j: int| 0 <= j < i ==> self@.conns[j].id != id,
            decreases self.conns@.len() - i,
        {
            if self.conns[i].id == id {
                return Some(i);
            }
            i = i + 1;
        }
        None
    }

    /// The connection holding `id`, if any.
    pub fn get(&self, id: u32) -> (r: Option<&Connection>)
        ensures
            r matches Some(c) ==> has_id(self@.conns, id) && c.id == id && exists|i: int|
                0 <= i < self@.conns.len() && self@.conns[i] == c@,
            r is None <==> !has_id(self@.conns, id),
    {
        match self.position(id) {
            Some(i) => Some(&self.conns[i]),
            None => None,
        }
    }

    /// The ids of the live connections, in order of admission.
    pub fn ids(&self) -> (r: Vec<u32>)
        ensures
            r@ == self@.conns.map_values(|c: ConnView| c.id),
    {
        let mut r: Vec<u32> = Vec::new();
        let mut i: usize = 0;
        while i < self.conns.len()
            invariant
                i <= self.conns@.len(),
                r@ == self@.conns.take(i as int).map_values(|c: ConnView| c.id),
            decreases self.conns@.len() - i,
        {
            r.push(self.conns[i].id);
            i = i + 1;
            assert(r@ =~= self@.conns.take(i as int).map_values(|c: ConnView| c.id));
        }
        assert(self@.conns.take(i as int) =~= self@.conns);
        r
    }

    /// Admits a connection under the given identity, as `admit_check` allows.
    pub fn admit_with(&mut self, id: u32, magic: u32, now: u64) -> (r: Result<(), AdmitError>)
        requires
            old(self).wf(),
        ensures
            final(self).wf(),
            r == admit_check(old(self)@, id),
            r is Ok ==> final(self)@ == admitted(old(self)@, id, magic, now),
            r is Err ==> final(self)@ == old(self)@,
    {
        if id < FIRST_CLIENT_ID || id >= RESERVED_ID_START {
            return Err(AdmitError::ReservedId);
        }
        if self.position(id).is_some() {
            return Err(AdmitError::IdInUse);
        }
        let c = Connection::new(id, magic, now);
        self.conns.push(c);
        assert(self@.conns =~= old(self)@.conns.push(fresh_conn(id, magic, now)));
        Ok(())
    }

    /// Admits a new connection under a fresh random id and a random magic, drawing ids
    /// until one is free; gives up after `ID_DRAW_ATTEMPTS` draws.
    pub fn admit_fresh(&mut self, now: u64) -> (r: Result<u32, AdmitError>)
        requires
            old(self).wf(),
        ensures
            final(self).wf(),
            match r {
                Ok(id) => {
                    &&& is_client_id(id)
                    &&& !has_id(old(self)@.conns, id)
                    &&& final(self)@ == admitted(old(self)@, id, final(self)@.conns.last().magic, now)
                },
                Err(e) => e == AdmitError::NoFreeId && final(self)@ == old(self)@,
            },
            old(self)@.conns.len() == 0 ==> r is Ok,
    {
        let mut attempt: u32 = 0;
        while attempt < ID_DRAW_ATTEMPTS
            invariant
                self.wf(),
                self@ == old(self)@,
                old(self)@.conns.len() == 0 ==> attempt == 0,
            decreases ID_DRAW_ATTEMPTS - attempt,
        {
            let id = random_in_range(FIRST_CLIENT_ID, RESERVED_ID_START - 1);
            if self.position(id).is_none() {
                let magic = random_in_range(0, u32::MAX);
                let admitted = self.admit_with(id, magic, now);
                if admitted.is_ok() {
                    return Ok(id);
                }
            }
            attempt = attempt + 1;
        }
        Err(AdmitError::NoFreeId)
    }

    /// Feeds bytes read from the connection holding `id` through its session, as
    /// `receive_spec` says, and collects its broadcasts; `false` when no connection
    /// holds `id`.
    pub fn receive(&mut self, id: u32, bytes: &[u8], now: u64) -> (r: bool)
        requires
            old(self).wf(),
        ensures
            final(self).wf(),
            r == has_id(old(self)@.conns, id),
            !r ==> final(self)@ == old(self)@,
            forall|i: int|
                0 <= i < old(self)@.conns.len() && old(self)@.conns[i].id == id ==> final(self)@
                    == (ServerView {
                    conns: old(self)@.conns.update(
                        i,
                        receive_spec(old(self)@.conns[i], bytes@, now).0,
                    ),
                    broadcasts: old(self)@.broadcasts + receive_spec(
                        old(self)@.conns[i],
                        bytes@,
                        now,
                    ).1,
                }),
    {
        let i = match self.position(id) {
            Some(i) => i,
            None => return false,
        };
        let ghost before = self@;
        let ghost pre = self.conns@;
        let mut bs = self.conns[i].receive(bytes, now);
        proof {
            assert(self@.conns =~= before.conns.update(i as int, self.conns@[i as int]@));
            assert forall|a: int| 0 <= a < self.conns@.len() implies #[trigger] self.conns@[a].wf() by {
                if a != i {
                    assert(self.conns@[a] == pre[a]);
                }
            }
        }
        self.broadcasts.append(&mut bs);
        proof {
            assert(self@.broadcasts =~= before.broadcasts + receive_spec(
                before.conns[i as int],
                bytes@,
                now,
            ).1);
            assert forall|j: int|
                0 <= j < self@.conns.len() && j != i implies self@.conns[j].id != id by {
                assert(before.conns[j].id != before.conns[i as int].id);
            }
        }
        true
    }

    /// Marks the connection holding `id` for dropping, after a read or write on its
    /// socket failed; `false` when no connection holds `id`.
    pub fn mark_failed(&mut self, id: u32) -> (r: bool)
        requires
            old(self).wf(),
        ensures
            final(self).wf(),
            r == has_id(old(self)@.conns, id),
            !r ==> final(self)@ == old(self)@,
            forall|i: int|
                0 <= i < old(self)@.conns.len() && old(self)@.conns[i].id == id ==> final(self)@
                    == (ServerView {
                    conns: old(self)@.conns.update(i, ConnView { marked: true, ..old(self)@.conns[i] }),
                    ..old(self)@
                }),
    {
        let i = match self.position(id) {
            Some(i) => i,
            None => return false,
        };
        let ghost before = self@;
        let ghost pre = self.conns@;
        assert(pre[i as int].wf());
        self.conns[i].mark();
        proof {
            assert(self.conns@ == pre.update(i as int, self.conns@[i as int]));
            assert(self.conns@[i as int].wf());
            assert forall|a: int| 0 <= a < self.conns@.len() implies #[trigger] self.conns@[a].wf() by {
                if a != i {
                    assert(self.conns@[a] == pre[a]);
                }
            }
            assert(self@.conns =~= before.conns.update(
                i as int,
                ConnView { marked: true, ..before.conns[i as int] },
            ));
            assert forall|j: int|
                0 <= j < self@.conns.len() && j != i implies self@.conns[j].id != id by {
                assert(before.conns[j].id != before.conns[i as int].id);
            }
        }
        true
    }

    /// Queues every broadcast of the tick, in order, to every connection that takes
    /// broadcasts; the same bytes go to each. The tick's broadcasts are then cleared.
    pub fn fan_out(&mut self)
        requires
            old(self).wf(),
        ensures
            final(self).wf(),
            final(self)@.conns == old(self)@.conns.map_values(
                |c: ConnView| fan_out_conn(c, old(self)@.broadcasts.flatten()),
            ),
            final(self)@.broadcasts == Seq::<Seq<u8>>::empty(),
    {
        let ghost all_bs = self@.broadcasts;
        let mut all: Vec<u8> = Vec::new();
        let mut k: usize = 0;
        while k < self.broadcasts.len()
            invariant
                k <= self.broadcasts@.len(),
                self@.broadcasts == all_bs,
                all@ == all_bs.take(k as int).flatten(),
            decreases self.broadcasts@.len() - k,
        {
            proof {
                assert(self.broadcasts@[k as int]@ =~= all_bs[k as int]);
                all_bs.take(k as int).lemma_flatten_push(all_bs[k as int]);
                assert(all_bs.take(k + 1) =~= all_bs.take(k as int).push(all_bs[k as int]));
            }
            extend_bytes(&mut all, self.broadcasts[k].as_slice());
            k = k + 1;
        }
        assert(all_bs.take(k as int) =~= all_bs);
        let ghost before = self@.conns;
        let mut i: usize = 0;
        while i < self.conns.len()
            invariant
                i <= self.conns@.len(),
                self.conns@.len() == before.len(),
                before == old(self)@.conns,
                all@ == all_bs.flatten(),
                forall|j: int| 0 <= j < i ==> #[trigger] self.conns@[j]@ == fan_out_conn(before[j], all@),
                forall|j: int| i <= j < self.conns@.len() ==> #[trigger] self.conns@[j]@ == before[j],
                forall|j: int| 0 <= j < self.conns@.len() ==> #[trigger] self.conns@[j].wf(),
            decreases self.conns@.len() - i,
        {
            let ghost pre = self.conns@;
            if self.conns[i].state == SessionState::Active && !self.conns[i].marked {
                self.conns[i].queue(all.as_slice());
            }
            assert(forall|a: int| 0 <= a < self.conns@.len() && a != i ==> self.conns@[a] == pre[a]);
            i = i + 1;
        }
        self.broadcasts = Vec::new();
        assert(self@.conns =~= before.map_values(|c: ConnView| fan_out_conn(c, all_bs.flatten())));
        assert(self@.broadcasts =~= Seq::<Seq<u8>>::empty());
        assert(ids_distinct(self@.conns)) by {
            assert forall|a: int, b: int|
                0 <= a < self@.conns.len() && 0 <= b < self@.conns.len() && a != b implies self@.conns[a].id
                != self@.conns[b].id by {
                assert(before[a].id != before[b].id);
            }
        }
    }

    /// The heartbeat step of the tick on every connection, as `heartbeat_step` says.
    pub fn heartbeat(&mut self, now: u64)
        requires
            old(self).wf(),
        ensures
            final(self).wf(),
            final(self)@.conns == old(self)@.conns.map_values(|c: ConnView| heartbeat_step(c, now)),
            final(self)@.broadcasts == old(self)@.broadcasts,
    {
        let ghost before = self@.conns;
        let mut i: usize = 0;
        while i < self.conns.len()
            invariant
                i <= self.conns@.len(),
                self.conns@.len() == before.len(),
                self@.broadcasts == old(self)@.broadcasts,
                before == old(self)@.conns,
                forall|j: int| 0 <= j < i ==> #[trigger] self.conns@[j]@ == heartbeat_step(before[j], now),
                forall|j: int| i <= j < self.conns@.len() ==> #[trigger] self.conns@[j]@ == before[j],
                forall|j: int| 0 <= j < self.conns@.len() ==> #[trigger] self.conns@[j].wf(),
            decreases self.conns@.len() - i,
        {
            let ghost pre = self.conns@;
            self.conns[i].heartbeat(now);
            assert(forall|a: int| 0 <= a < self.conns@.len() && a != i ==> self.conns@[a] == pre[a]);
            i = i + 1;
        }
        assert(self@.conns =~= before.map_values(|c: ConnView| heartbeat_step(c, now)));
        assert(ids_distinct(self@.conns)) by {
            assert forall|a: int, b: int|
                0 <= a < self@.conns.len() && 0 <= b < self@.conns.len() && a != b implies self@.conns[a].id
                != self@.conns[b].id by {
                assert(before[a].id != before[b].id);
            }
        }
    }

    /// Hands out the bytes queued for the connection holding `id`, leaving its outbox
    /// empty; `None` when no connection holds `id`.
    pub fn take_outbox(&mut self, id: u32) -> (r: Option<Vec<u8>>)
        requires
            old(self).wf(),
        ensures
            final(self).wf(),
            r is Some <==> has_id(old(self)@.conns, id),
            r is None ==> final(self)@ == old(self)@,
            forall|i: int|
                0 <= i < old(self)@.conns.len() && old(self)@.conns[i].id == id ==> {
                    &&& r matches Some(b) && b@ == old(self)@.conns[i].outbox
                    &&& final(self)@ == (ServerView {
                        conns: old(self)@.conns.update(
                            i,
                            ConnView { outbox: Seq::empty(), ..old(self)@.conns[i] },
                        ),
                        ..old(self)@
                    })
                },
    {
        let i = match self.position(id) {
            Some(i) => i,
            None => return None,
        };
        let ghost before = self@;
        let ghost pre = self.conns@;
        let b = self.conns[i].take_outbox();
        proof {
            assert forall|a: int| 0 <= a < self.conns@.len() implies #[trigger] self.conns@[a].wf() by {
                if a != i {
                    assert(self.conns@[a] == pre[a]);
                }
            }
            assert(self@.conns =~= before.conns.update(
                i as int,
                ConnView { outbox: Seq::empty(), ..before.conns[i as int] },
            ));
            assert forall|j: int|
                0 <= j < self@.conns.len() && j != i implies self@.conns[j].id != id by {
                assert(before.conns[j].id != before.conns[i as int].id);
            }
        }
        Some(b)
    }

    /// Drops every marked connection, keeping the others in order; returns the ids
    /// dropped, in order.
    pub fn prune(&mut self) -> (r: Vec<u32>)
        requires
            old(self).wf(),
        ensures
            final(self).wf(),
            final(self)@.conns == old(self)@.conns.filter(unmarked()),
            final(self)@.broadcasts == old(self)@.broadcasts,
            r@ == old(self)@.conns.filter(marked()).map_values(|c: ConnView| c.id),
    {
        let ghost orig = self@.conns;
        let mut dropped: Vec<u32> = Vec::new();
        let mut i: usize = 0;
        let ghost mut j: int = 0;
        assert(orig.take(0) =~= Seq::<ConnView>::empty());
        assert(self@.conns =~= orig.take(0).filter(unmarked()) + orig.skip(0));
        assert(dropped@ =~= orig.take(0).filter(marked()).map_values(|c: ConnView| c.id));
        while i < self.conns.len()
            invariant
                i <= self.conns@.len(),
                0 <= j <= orig.len(),
                self@.conns == orig.take(j).filter(unmarked()) + orig.skip(j),
                i == orig.take(j).filter(unmarked()).len(),
                dropped@ == orig.take(j).filter(marked()).map_values(
                    |c: ConnView| c.id,
                ),
                self@.broadcasts == old(self)@.broadcasts,
                orig == old(self)@.conns,
                ids_distinct(self@.conns),
                forall|a: int| 0 <= a < self.conns@.len() ==> #[trigger] self.conns@[a].wf(),
            decreases self.conns@.len() - i,
        {
            let ghost kept = orig.take(j).filter(unmarked());
            let ghost gone = orig.take(j).filter(marked());
            let ghost before = self@.conns;
            reveal(Seq::filter);
            assert(j < orig.len());
            assert(before[i as int] == orig[j]);
            assert(orig.take(j + 1).drop_last() =~= orig.take(j));
            assert(orig.take(j + 1).last() == orig[j]);
            let ghost pre_conns = self.conns@;
            if self.conns[i].marked {
                let c = self.conns.remove(i);
                dropped.push(c.id);
                proof {
                    assert(orig.take(j + 1).filter(unmarked()) == kept);
                    assert(orig.take(j + 1).filter(marked()) == gone.push(orig[j]));
                    assert forall|a: int| 0 <= a < self@.conns.len() implies self@.conns[a] == (kept
                        + orig.skip(j + 1))[a] by {
                        if a < i {
                            assert(self@.conns[a] == before[a]);
                        } else {
                            assert(self@.conns[a] == before[a + 1]);
                        }
                    }
                    assert(self@.conns =~= kept + orig.skip(j + 1));
                    assert(dropped@ =~= gone.push(orig[j]).map_values(|c: ConnView| c.id));
                    assert forall|a: int, b: int|
                        0 <= a < self@.conns.len() && 0 <= b < self@.conns.len() && a != b implies self@.conns[a].id
                        != self@.conns[b].id by {
                        let a2 = if a < i { a } else { a + 1 };
                        let b2 = if b < i { b } else { b + 1 };
                        assert(self@.conns[a] == before[a2]);
                        assert(self@.conns[b] == before[b2]);
                    }
                    assert forall|a: int| 0 <= a < self.conns@.len() implies #[trigger] self.conns@[a].wf() by {
                        let a2 = if a < i { a } else { a + 1 };
                        assert(self.conns@[a] == pre_conns[a2]);
                    }
                }
            } else {
                proof {
                    assert(orig.take(j + 1).filter(unmarked()) == kept.push(orig[j]));
                    assert(orig.take(j + 1).filter(marked()) == gone);
                    assert(self@.conns =~= kept.push(orig[j]) + orig.skip(j + 1));
                }
                i = i + 1;
            }
            proof {
                j = j + 1;
            }
        }
        proof {
            assert(orig.skip(j).len() == 0);
            assert(orig.take(j) =~= orig);
            assert(self@.conns =~= orig.filter(unmarked()));
        }
        dropped
    }
}

} // verus!
