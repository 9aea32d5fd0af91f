use crate::clock::{later_of, latest, now, Timestamp};
use crate::status::Status;
use crate::ticket::{
    description_ok, title_ok, DraftView, PatchView, TicketDescription, TicketDraft, TicketPatch,
    TicketTitle,
};
use std::collections::HashMap;
use vstd::prelude::*;
use vstd::std_specs::hash::spec_keys_iter;
use vstd::std_specs::iter::IteratorSpec;

verus! {

broadcast use vstd::std_specs::hash::group_hash_axioms;

/// Identifies a ticket within its store. Ids start at 1. A 64-bit counter
/// is used so that a store never runs out of fresh ids in practice: saving
/// requires the counter to be below `u64::MAX`.
pub type TicketId = u64;

/// What a ticket holds, as plain values.
pub struct TicketView {
    pub id: u64,
    pub title: Seq<char>,
    pub description: Seq<char>,
    pub status: Status,
    pub created_at: Timestamp,
    pub updated_at: Timestamp,
}

impl TicketView {
    /// The texts meet their rules and the ticket was not updated before it
    /// was created.
    pub open spec fn valid(self) -> bool {
        &&& title_ok(self.title)
        &&& description_ok(self.description)
        &&& self.created_at.at_or_before(self.updated_at)
    }
}

/// A stored work item.
#[derive(Debug, PartialEq, Eq)]
pub struct Ticket {
    id: TicketId,
    title: TicketTitle,
    description: TicketDescription,
    status: Status,
    created_at: Timestamp,
    updated_at: Timestamp,
}

impl Clone for Ticket {
    fn clone(&self) -> (r: Ticket)
        ensures
            r@ == self@,
    {
        Ticket {
            id: self.id,
            title: self.title.clone(),
            description: self.description.clone(),
            status: self.status,
            created_at: self.created_at,
            updated_at: self.updated_at,
        }
    }
}

impl View for Ticket {
    type V = TicketView;

    closed spec fn view(&self) -> TicketView {
        TicketView {
            id: self.id,
            title: self.title@,
            description: self.description@,
            status: self.status,
            created_at: self.created_at,
            updated_at: self.updated_at,
        }
    }
}

impl Ticket {
    pub fn id(&self) -> (r: &TicketId)
        ensures
            *r == self@.id,
    {
        &self.id
    }

    pub fn title(&self) -> (r: &TicketTitle)
        ensures
            r@ == self@.title,
    {
        &self.title
    }

    pub fn description(&self) -> (r: &TicketDescription)
        ensures
            r@ == self@.description,
    {
        &self.description
    }

    pub fn status(&self) -> (r: &Status)
        ensures
            *r == self@.status,
    {
        &self.status
    }

    pub fn created_at(&self) -> (r: &Timestamp)
        ensures
            *r == self@.created_at,
    {
        &self.created_at
    }

    pub fn updated_at(&self) -> (r: &Timestamp)
        ensures
            *r == self@.updated_at,
    {
        &self.updated_at
    }
}

/// What a deletion hands back: the ticket as it was, and when it went.
#[derive(Clone, Debug, PartialEq, Eq)]
pub struct DeletedTicket {
    ticket: Ticket,
    deleted_at: Timestamp,
}

impl DeletedTicket {
    pub fn ticket(&self) -> (r: &Ticket)
        ensures
            *r == self.view_ticket(),
    {
        &self.ticket
    }

    pub fn deleted_at(&self) -> (r: &Timestamp)
        ensures
            *r == self.spec_deleted_at(),
    {
        &self.deleted_at
    }

    pub closed spec fn view_ticket(&self) -> Ticket {
        self.ticket
    }

    pub closed spec fn spec_deleted_at(&self) -> Timestamp {
        self.deleted_at
    }
}

/// The contents of a store: its tickets by id, and the last id handed out.
pub struct StoreView {
    pub tickets: Map<u64, TicketView>,
    pub current_id: u64,
}

impl StoreView {
    /// Every ticket sits under its own id, no id is above the last one
    /// handed out, and every ticket is valid.
    pub open spec fn wf(self) -> bool {
        forall|k: u64|
            #![trigger self.tickets.contains_key(k)]
            #![trigger self.tickets[k]]
            self.tickets.contains_key(k) ==> {
                &&& 1 <= k <= self.current_id
                &&& self.tickets[k].id == k
                &&& self.tickets[k].valid()
            }
    }
}

/// A new ticket made from a draft at instant `at`.
pub open spec fn fresh_ticket(id: u64, d: DraftView, at: Timestamp) -> TicketView {
    TicketView {
        id,
        title: d.title,
        description: d.description,
        status: Status::ToDo,
        created_at: at,
        updated_at: at,
    }
}

/// `b` is `a` after saving draft `d` at instant `at`, which handed out `id`.
pub open spec fn saved(a: StoreView, b: StoreView, d: DraftView, id: u64, at: Timestamp) -> bool {
    &&& id == a.current_id + 1
    &&& b.current_id == id
    &&& b.tickets == a.tickets.insert(id, fresh_ticket(id, d, at))
}

/// Ticket `t` with the fields of `p` that are present, touched at instant
/// `at` (or left at its last update, were the clock behind it).
pub open spec fn patched(t: TicketView, p: PatchView, at: Timestamp) -> TicketView {
    TicketView {
        id: t.id,
        title: match p.title {
            Some(x) => x,
            None => t.title,
        },
        description: match p.description {
            Some(x) => x,
            None => t.description,
        },
        status: match p.status {
            Some(x) => x,
            None => t.status,
        },
        created_at: t.created_at,
        updated_at: latest(t.updated_at, at),
    }
}

/// `b` is `a` after applying `p` to ticket `id` at instant `at`; an unknown
/// id changes nothing.
pub open spec fn updated(a: StoreView, b: StoreView, id: u64, p: PatchView, at: Timestamp) -> bool {
    if a.tickets.contains_key(id) {
        &&& b.current_id == a.current_id
        &&& b.tickets == a.tickets.insert(id, patched(a.tickets[id], p, at))
    } else {
        b == a
    }
}

/// `b` is `a` without ticket `id`; an unknown id changes nothing.
pub open spec fn deleted(a: StoreView, b: StoreView, id: u64) -> bool {
    if a.tickets.contains_key(id) {
        &&& b.current_id == a.current_id
        &&& b.tickets == a.tickets.remove(id)
    } else {
        b == a
    }
}

/// `r` holds every ticket of `s` once, in any order.
pub open spec fn lists(s: StoreView, r: Seq<TicketView>) -> bool {
    &&& forall|i: int|
        0 <= i < r.len() ==> s.tickets.contains_key(#[trigger] r[i].id) && r[i] == s.tickets[r[i].id]
    &&& forall|k: u64| #[trigger]
        s.tickets.contains_key(k) ==> exists|i: int| 0 <= i < r.len() && #[trigger] r[i].id == k
    &&& forall|i: int, j: int| 0 <= i < r.len() && 0 <= j < r.len() && i != j ==> r[i].id != r[j].id
}

/// The tickets of a store and the counter that hands out their ids.
pub struct TicketStore {
    data: HashMap<TicketId, Ticket>,
    current_id: TicketId,
}

impl View for TicketStore {
    type V = StoreView;

    closed spec fn view(&self) -> StoreView {
        StoreView { tickets: self.data@.map_values(|t: Ticket| t@), current_id: self.current_id }
    }
}

impl TicketStore {
    pub fn new() -> (r: TicketStore)
        ensures
            r@.wf(),
            r@.tickets == Map::<u64, TicketView>::empty(),
            r@.current_id == 0,
    {
        let r = TicketStore { data: HashMap::new(), current_id: 0 };
        assert(r@.tickets =~= Map::<u64, TicketView>::empty());
        r
    }

    /// The last id handed out, 0 before the first.
    pub fn current_id(&self) -> (r: TicketId)
        ensures
            r == self@.current_id,
    {
        self.current_id
    }

    fn generate_id(&mut self) -> (id: TicketId)
        requires
            old(self).current_id < u64::MAX,
        ensures
            id == old(self).current_id + 1,
            final(self).current_id == id,
            final(self).data == old(self).data,
    {
        self.current_id = self.current_id + 1;
        self.current_id
    }

    /// Stores a new ticket made from `draft`, with status to-do and both
    /// instants set to `at`, under the next id, which it returns.
    pub fn save_at(&mut self, draft: TicketDraft, at: Timestamp) -> (id: TicketId)
        requires
            old(self)@.wf(),
            old(self)@.current_id < u64::MAX,
        ensures
            final(self)@.wf(),
            saved(old(self)@, final(self)@, draft@, id, at),
    {
        proof {
            use_type_invariant(&draft.title);
            use_type_invariant(&draft.description);
        }
        let ghost d = draft@;
        let id = self.generate_id();
        let ticket = Ticket {
            id,
            title: draft.title,
            description: draft.description,
            status: Status::ToDo,
            created_at: at,
            updated_at: at,
        };
        assert(ticket@ == fresh_ticket(id, d, at));
        self.data.insert(id, ticket);
        assert(self@.tickets =~= old(self)@.tickets.insert(id, fresh_ticket(id, d, at)));
        id
    }

    /// Stores a new ticket made from `draft`, stamped with the current
    /// instant, under the next id, which it returns.
    pub fn save(&mut self, draft: TicketDraft) -> (id: TicketId)
        requires
            old(self)@.wf(),
            old(self)@.current_id < u64::MAX,
        ensures
            final(self)@.wf(),
            saved(old(self)@, final(self)@, draft@, id, final(self)@.tickets[id].created_at),
    {
        let at = now();
        self.save_at(draft, at)
    }

    pub fn get(&self, id: &TicketId) -> (r: Option<&Ticket>)
        ensures
            match r {
                Some(t) => self@.tickets.contains_key(*id) && t@ == self@.tickets[*id],
                None => !self@.tickets.contains_key(*id),
            },
    {
        self.data.get(id)
    }
    /// Every ticket of the store, each once, in no particular order.
    pub fn list(&self) -> (r: Vec<&Ticket>)
        requires
            self@.wf(),
        ensures
            lists(self@, r@.map_values(|t: &Ticket| t@)),
    {
        let mut r: Vec<&Ticket> = Vec::new();
        let ghost keys = spec_keys_iter(&self.data).remaining();
        let ghost ks = keys.unref();
        for k in it: self.data.keys()
            invariant
                self@.wf(),
                it.seq() == keys,
                keys == spec_keys_iter(&self.data).remaining(),
                ks == keys.unref(),
                r@.len() == it.index(),
                forall|i: int| 0 <= i < r@.len() ==> self@.tickets.contains_key(#[trigger] ks[i]),
                forall|i: int| 0 <= i < r@.len() ==> (#[trigger] r@[i])@ == self@.tickets[ks[i]],
        {
            let ghost idx = r@.len() as int;
            let ghost prev = r@;
            assert(ks[idx] == *k);
            assert(ks.to_set().contains(*k));
            match self.data.get(k) {
                Some(t) => r.push(t),
                None => {},
            }
            assert forall|i: int| 0 <= i < r@.len() implies (#[trigger] r@[i])@
                == self@.tickets[ks[i]] by {
                if i < idx {
                    assert(r@[i] == prev[i]);
                }
            }
        }
        let ghost v = r@.map_values(|t: &Ticket| t@);
        assert forall|i: int| 0 <= i < v.len() implies self@.tickets.contains_key(#[trigger] v[i].id)
            && v[i] == self@.tickets[v[i].id] by {
            assert(v[i] == r@[i]@);
        }
        assert forall|j: u64| #[trigger] self@.tickets.contains_key(j) implies exists|i: int|
            0 <= i < v.len() && #[trigger] v[i].id == j by {
            assert(ks.to_set().contains(j));
            let i = choose|i: int| 0 <= i < ks.len() && ks[i] == j;
            assert(v[i] == r@[i]@);
        }
        assert forall|i: int, j: int| 0 <= i < v.len() && 0 <= j < v.len() && i != j implies v[i].id
            != v[j].id by {
            assert(v[i] == r@[i]@);
            assert(v[j] == r@[j]@);
        }
        r
    }

    /// Applies `patch` to ticket `id` and stamps it with instant `at` (kept at
    /// its last update were `at` earlier); returns the updated ticket, or
    /// nothing, with the store untouched, when no ticket has that id.
    pub fn update_at(&mut self, id: &TicketId, patch: TicketPatch, at: Timestamp) -> (r: Option<
        &Ticket,
    >)
        requires
            old(self)@.wf(),
        ensures
            final(self)@.wf(),
            updated(old(self)@, final(self)@, *id, patch@, at),
            match r {
                Some(t) => old(self)@.tickets.contains_key(*id) && t@ == final(self)@.tickets[*id],
                None => !old(self)@.tickets.contains_key(*id),
            },
    {
        let ghost p = patch@;
        match self.data.remove(id) {
            None => {
                assert(self@.tickets =~= old(self)@.tickets);
                None
            },
            Some(t) => {
                let ghost before = t@;
                assert(old(self)@.tickets.contains_key(*id));
                assert(old(self)@.tickets[*id] == before);
                assert(before.valid());
                proof {
                    if let Some(x) = &patch.title {
                        use_type_invariant(x);
                    }
                    if let Some(x) = &patch.description {
                        use_type_invariant(x);
                    }
                }
                let title = match patch.title {
                    Some(x) => x,
                    None => t.title,
                };
                let description = match patch.description {
                    Some(x) => x,
                    None => t.description,
                };
                let status = match patch.status {
                    Some(x) => x,
                    None => t.status,
                };
                let ticket = Ticket {
                    id: t.id,
                    title,
                    description,
                    status,
                    created_at: t.created_at,
                    updated_at: later_of(t.updated_at, at),
                };
                assert(ticket@ == patched(before, p, at));
                self.data.insert(*id, ticket);
                assert(self@.tickets =~= old(self)@.tickets.insert(*id, patched(before, p, at)));
                self.data.get(id)
            },
        }
    }

    /// Applies `patch` to ticket `id` and stamps it with the current instant
    /// (kept at its last update were the clock behind it); returns the
    /// updated ticket, or nothing, with the store untouched, when no ticket
    /// has that id.
    pub fn update(&mut self, id: &TicketId, patch: TicketPatch) -> (r: Option<&Ticket>)
        requires
            old(self)@.wf(),
        ensures
            final(self)@.wf(),
            updated(old(self)@, final(self)@, *id, patch@, final(self)@.tickets[*id].updated_at),
            match r {
                Some(t) => old(self)@.tickets.contains_key(*id) && t@ == final(self)@.tickets[*id],
                None => !old(self)@.tickets.contains_key(*id),
            },
    {
        let at = now();
        self.update_at(id, patch, at)
    }

    /// Removes ticket `id` and returns it with the instant `at` of deletion,
    /// or nothing, with the store untouched, when no ticket has that id.
    pub fn delete_at(&mut self, id: &TicketId, at: Timestamp) -> (r: Option<DeletedTicket>)
        requires
            old(self)@.wf(),
        ensures
            final(self)@.wf(),
            deleted(old(self)@, final(self)@, *id),
            match r {
                Some(d) => {
                    &&& old(self)@.tickets.contains_key(*id)
                    &&& d.view_ticket()@ == old(self)@.tickets[*id]
                    &&& d.spec_deleted_at() == at
                },
                None => !old(self)@.tickets.contains_key(*id),
            },
    {
        let r = self.data.remove(id);
        assert(self@.tickets =~= old(self)@.tickets.remove(*id));
        match r {
            Some(ticket) => Some(DeletedTicket { ticket, deleted_at: at }),
            None => {
                assert(self@.tickets =~= old(self)@.tickets);
                None
            },
        }
    }

    /// Removes ticket `id` and returns it with the current instant, or
    /// nothing, with the store untouched, when no ticket has that id.
    pub fn delete(&mut self, id: &TicketId) -> (r: Option<DeletedTicket>)
        requires
            old(self)@.wf(),
        ensures
            final(self)@.wf(),
            deleted(old(self)@, final(self)@, *id),
            match r {
                Some(d) => {
                    &&& old(self)@.tickets.contains_key(*id)
                    &&& d.view_ticket()@ == old(self)@.tickets[*id]
                },
                None => !old(self)@.tickets.contains_key(*id),
            },
    {
        let at = now();
        self.delete_at(id, at)
    }
}

/// A ticket as plain values, as it is written out.
#[derive(Clone, Debug, PartialEq, Eq)]
pub struct TicketRecord {
    pub id: u64,
    pub title: String,
    pub description: String,
    pub status: Status,
    pub created_at: Timestamp,
    pub updated_at: Timestamp,
}

impl View for TicketRecord {
    type V = TicketView;

    open spec fn view(&self) -> TicketView {
        TicketView {
            id: self.id,
            title: self.title@,
            description: self.description@,
            status: self.status,
            created_at: self.created_at,
            updated_at: self.updated_at,
        }
    }
}

/// A whole store as plain values: its tickets and its id counter.
#[derive(Clone, Debug, PartialEq, Eq)]
pub struct StoreSnapshot {
    pub tickets: Vec<TicketRecord>,
    pub current_id: u64,
}

/// A snapshot that describes no store.
#[derive(Clone, Copy, Debug, PartialEq, Eq, Structural)]
pub enum SnapshotError {
    Corrupt,
}

/// The records of a snapshot, as plain values.
pub open spec fn records_of(s: StoreSnapshot) -> Seq<TicketView> {
    s.tickets@.map_values(|t: TicketRecord| t@)
}

/// The tickets that records describe, each under its id.
pub open spec fn records_map(rs: Seq<TicketView>) -> Map<u64, TicketView>
    decreases rs.len(),
{
    if rs.len() == 0 {
        Map::empty()
    } else {
        records_map(rs.drop_last()).insert(rs.last().id, rs.last())
    }
}

/// Records describe a store with counter `current_id`: each is valid, its id
/// lies between 1 and the counter, and no two share an id.
pub open spec fn snapshot_valid(rs: Seq<TicketView>, current_id: u64) -> bool {
    &&& forall|i: int|
        0 <= i < rs.len() ==> (#[trigger] rs[i]).valid() && 1 <= rs[i].id <= current_id
    &&& forall|i: int, j: int| 0 <= i < j < rs.len() ==> rs[i].id != rs[j].id
}

proof fn lemma_records_map_keys(rs: Seq<TicketView>, k: u64)
    ensures
        records_map(rs).contains_key(k) <==> exists|j: int| 0 <= j < rs.len() && rs[j].id == k,
    decreases rs.len(),
{
    if rs.len() > 0 {
        let init = rs.drop_last();
        lemma_records_map_keys(init, k);
        if records_map(rs).contains_key(k) && rs.last().id != k {
            let j = choose|j: int| 0 <= j < init.len() && init[j].id == k;
            assert(rs[j] == init[j]);
        }
        if exists|j: int| 0 <= j < rs.len() && rs[j].id == k {
            let j = choose|j: int| 0 <= j < rs.len() && rs[j].id == k;
            if j < rs.len() - 1 {
                assert(init[j] == rs[j]);
            }
        }
    }
}

proof fn lemma_records_map_value(rs: Seq<TicketView>, j: int)
    requires
        0 <= j < rs.len(),
        forall|a: int, b: int| 0 <= a < b < rs.len() ==> rs[a].id != rs[b].id,
    ensures
        records_map(rs).contains_key(rs[j].id),
        records_map(rs)[rs[j].id] == rs[j],
    decreases rs.len(),
{
    if j < rs.len() - 1 {
        let init = rs.drop_last();
        assert(init[j] == rs[j]);
        assert(rs[j].id != rs[rs.len() - 1].id);
        lemma_records_map_value(init, j);
    }
}

/// Reading back the records that list a store gives that store: every
/// ticket with all its fields, and the id counter.
pub proof fn lemma_snapshot_round_trip(s: StoreView, rs: Seq<TicketView>)
    requires
        s.wf(),
        lists(s, rs),
    ensures
        snapshot_valid(rs, s.current_id),
        records_map(rs) == s.tickets,
        (StoreView { tickets: records_map(rs), current_id: s.current_id }) == s,
{
    assert forall|i: int| 0 <= i < rs.len() implies (#[trigger] rs[i]).valid() && 1 <= rs[i].id
        <= s.current_id by {
        assert(s.tickets.contains_key(rs[i].id));
    }
    assert forall|i: int, j: int| 0 <= i < j < rs.len() implies rs[i].id != rs[j].id by {}
    assert forall|k: u64| records_map(rs).contains_key(k) <==> s.tickets.contains_key(k) by {
        lemma_records_map_keys(rs, k);
        if s.tickets.contains_key(k) {
            let j = choose|j: int| 0 <= j < rs.len() && #[trigger] rs[j].id == k;
        }
        if exists|j: int| 0 <= j < rs.len() && rs[j].id == k {
            let j = choose|j: int| 0 <= j < rs.len() && rs[j].id == k;
            assert(s.tickets.contains_key(rs[j].id));
        }
    }
    assert forall|k: u64| #[trigger] s.tickets.contains_key(k) implies records_map(rs)[k]
        == s.tickets[k] by {
        let j = choose|j: int| 0 <= j < rs.len() && #[trigger] rs[j].id == k;
        lemma_records_map_value(rs, j);
        assert(s.tickets.contains_key(rs[j].id));
    }
    assert(records_map(rs) =~= s.tickets);
}

/// A store read back from its records goes on handing out ids where the
/// original left off: the next save gives the old counter plus one, an id
/// that no ticket of the original holds.
pub proof fn lemma_restored_store_continues_ids(
    s: StoreView,
    rs: Seq<TicketView>,
    b: StoreView,
    d: DraftView,
    id: u64,
    at: Timestamp,
)
    requires
        s.wf(),
        lists(s, rs),
        saved(StoreView { tickets: records_map(rs), current_id: s.current_id }, b, d, id, at),
    ensures
        id == s.current_id + 1,
        !s.tickets.contains_key(id),
{
    lemma_snapshot_round_trip(s, rs);
}

impl TicketStore {
    /// The store as plain records, each ticket once, with its id counter.
    pub fn to_snapshot(&self) -> (r: StoreSnapshot)
        requires
            self@.wf(),
        ensures
            lists(self@, records_of(r)),
            r.current_id == self@.current_id,
    {
        let listed = self.list();
        let ghost lv = listed@.map_values(|t: &Ticket| t@);
        let mut records: Vec<TicketRecord> = Vec::new();
        let mut i: usize = 0;
        while i < listed.len()
            invariant
                i <= listed@.len(),
                lv == listed@.map_values(|t: &Ticket| t@),
                records@.len() == i,
                forall|j: int| 0 <= j < i ==> (#[trigger] records@[j])@ == lv[j],
            decreases listed@.len() - i,
        {
            let t = listed[i];
            let record = TicketRecord {
                id: t.id,
                title: t.title.as_str().to_owned(),
                description: t.description.as_str().to_owned(),
                status: t.status,
                created_at: t.created_at,
                updated_at: t.updated_at,
            };
            assert(record@ == lv[i as int]);
            records.push(record);
            i = i + 1;
        }
        let r = StoreSnapshot { tickets: records, current_id: self.current_id };
        assert(records_of(r) =~= lv);
        r
    }

    /// Rebuilds a store from plain records and an id counter, refusing
    /// records that describe no store.
    pub fn from_snapshot(snapshot: &StoreSnapshot) -> (r: Result<TicketStore, SnapshotError>)
        ensures
            match r {
                Ok(s) => {
                    &&& snapshot_valid(records_of(*snapshot), snapshot.current_id)
                    &&& s@.wf()
                    &&& s@.tickets == records_map(records_of(*snapshot))
                    &&& s@.current_id == snapshot.current_id
                },
                Err(e) => !snapshot_valid(records_of(*snapshot), snapshot.current_id),
            },
    {
        let ghost rs = records_of(*snapshot);
        let cur = snapshot.current_id;
        let mut data: HashMap<TicketId, Ticket> = HashMap::new();
        let mut i: usize = 0;
        let n = snapshot.tickets.len();
        assert(data@.map_values(|t: Ticket| t@) =~= records_map(rs.take(0)));
        while i < n
            invariant
                n == rs.len(),
                rs == records_of(*snapshot),
                cur == snapshot.current_id,
                i <= n,
                data@.map_values(|t: Ticket| t@) == records_map(rs.take(i as int)),
                snapshot_valid(rs.take(i as int), cur),
                (StoreView { tickets: data@.map_values(|t: Ticket| t@), current_id: cur }).wf(),
            decreases n - i,
        {
            let rec = &snapshot.tickets[i];
            assert(rs[i as int] == rec@);
            proof {
                lemma_records_map_keys(rs.take(i as int), rec.id);
            }
            if rec.id < 1 || rec.id > cur || data.contains_key(&rec.id) {
                proof {
                    if data@.contains_key(rec.id) {
                        assert(data@.map_values(|t: Ticket| t@).contains_key(rec.id));
                        let j = choose|j: int|
                            0 <= j < i && rs.take(i as int)[j].id == rec.id;
                        assert(rs[j] == rs.take(i as int)[j]);
                    }
                }
                return Err(SnapshotError::Corrupt);
            }
            let title = match TicketTitle::new(rec.title.clone()) {
                Ok(t) => t,
                Err(_) => {
                    return Err(SnapshotError::Corrupt);
                },
            };
            let description = match TicketDescription::new(rec.description.clone()) {
                Ok(d) => d,
                Err(_) => {
                    return Err(SnapshotError::Corrupt);
                },
            };
            if !rec.created_at.no_later_than(&rec.updated_at) {
                return Err(SnapshotError::Corrupt);
            }
            let ticket = Ticket {
                id: rec.id,
                title,
                description,
                status: rec.status,
                created_at: rec.created_at,
                updated_at: rec.updated_at,
            };
            assert(ticket@ == rs[i as int]);
            let ghost before = data@;
            data.insert(rec.id, ticket);
            proof {
                let next = rs.take(i + 1);
                assert(next.drop_last() =~= rs.take(i as int));
                assert(next.last() == rs[i as int]);
                assert(data@.map_values(|t: Ticket| t@) =~= records_map(next));
                assert forall|a: int, b: int| 0 <= a < b < next.len() implies next[a].id
                    != next[b].id by {
                    if b == i {
                        assert(rs.take(i as int)[a] == next[a]);
                        lemma_records_map_keys(rs.take(i as int), next[a].id);
                        assert(before.map_values(|t: Ticket| t@).contains_key(next[a].id));
                        assert(before.contains_key(next[a].id));
                    } else {
                        assert(rs.take(i as int)[a] == next[a]);
                        assert(rs.take(i as int)[b] == next[b]);
                    }
                }
                assert forall|a: int| 0 <= a < next.len() implies (#[trigger] next[a]).valid()
                    && 1 <= next[a].id <= cur by {
                    if a < i {
                        assert(rs.take(i as int)[a] == next[a]);
                    }
                }
            }
            i = i + 1;
        }
        assert(rs.take(n as int) =~= rs);
        Ok(TicketStore { data, current_id: cur })
    }
}

} // verus!
