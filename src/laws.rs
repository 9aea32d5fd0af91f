//! Properties of the store that span several operations.
use crate::clock::Timestamp;
use crate::store::{deleted, lists, saved, updated, StoreView, TicketView};
use crate::ticket::{DraftView, PatchView};
use vstd::prelude::*;

verus! {

/// One operation on a store, with what it was given and what it handed out.
pub enum StoreStep {
    Save(DraftView, u64, Timestamp),
    Update(u64, PatchView, Timestamp),
    Delete(u64),
}

/// `b` is `a` after `step`.
pub open spec fn performs(a: StoreView, step: StoreStep, b: StoreView) -> bool {
    match step {
        StoreStep::Save(d, id, at) => saved(a, b, d, id, at),
        StoreStep::Update(id, p, at) => updated(a, b, id, p, at),
        StoreStep::Delete(id) => deleted(a, b, id),
    }
}

proof fn lemma_counts_saves(
    stores: Seq<StoreView>,
    drafts: Seq<DraftView>,
    ids: Seq<u64>,
    instants: Seq<Timestamp>,
    n: int,
)
    requires
        stores.len() == ids.len() + 1,
        drafts.len() == ids.len(),
        instants.len() == ids.len(),
        stores[0].current_id == 0,
        forall|i: int|
            0 <= i < ids.len() ==> saved(
                #[trigger] stores[i],
                stores[i + 1],
                drafts[i],
                ids[i],
                instants[i],
            ),
        0 <= n <= ids.len(),
    ensures
        stores[n].current_id == n,
    decreases n,
{
    if n > 0 {
        lemma_counts_saves(stores, drafts, ids, instants, n - 1);
        assert(saved(stores[n - 1], stores[n], drafts[n - 1], ids[n - 1], instants[n - 1]));
    }
}

/// Saving drafts one after another into a fresh store hands out the ids
/// 1, 2, ..., n in the order of the calls.
pub proof fn lemma_ids_follow_save_order(
    stores: Seq<StoreView>,
    drafts: Seq<DraftView>,
    ids: Seq<u64>,
    instants: Seq<Timestamp>,
)
    requires
        stores.len() == ids.len() + 1,
        drafts.len() == ids.len(),
        instants.len() == ids.len(),
        stores[0].tickets == Map::<u64, TicketView>::empty(),
        stores[0].current_id == 0,
        forall|i: int|
            0 <= i < ids.len() ==> saved(
                #[trigger] stores[i],
                stores[i + 1],
                drafts[i],
                ids[i],
                instants[i],
            ),
    ensures
        forall|i: int| 0 <= i < ids.len() ==> #[trigger] ids[i] == i + 1,
{
    assert forall|i: int| 0 <= i < ids.len() implies #[trigger] ids[i] == i + 1 by {
        lemma_counts_saves(stores, drafts, ids, instants, i);
        assert(saved(stores[i], stores[i + 1], drafts[i], ids[i], instants[i]));
    }
}

proof fn lemma_counter_never_falls(stores: Seq<StoreView>, steps: Seq<StoreStep>, i: int, j: int)
    requires
        stores.len() == steps.len() + 1,
        forall|t: int| 0 <= t < steps.len() ==> performs(#[trigger] stores[t], steps[t], stores[t + 1]),
        0 <= i <= j < stores.len(),
    ensures
        stores[i].current_id <= stores[j].current_id,
    decreases j - i,
{
    if i < j {
        lemma_counter_never_falls(stores, steps, i, j - 1);
        assert(performs(stores[j - 1], steps[j - 1], stores[j]));
    }
}

/// How many saves a run of operations holds.
pub open spec fn saves_in(steps: Seq<StoreStep>) -> nat
    decreases steps.len(),
{
    if steps.len() == 0 {
        0
    } else {
        saves_in(steps.drop_last()) + if steps.last() is Save {
            1nat
        } else {
            0nat
        }
    }
}

proof fn lemma_counter_counts_saves(stores: Seq<StoreView>, steps: Seq<StoreStep>, n: int)
    requires
        stores.len() == steps.len() + 1,
        stores[0].current_id == 0,
        forall|t: int| 0 <= t < steps.len() ==> performs(#[trigger] stores[t], steps[t], stores[t + 1]),
        0 <= n <= steps.len(),
    ensures
        stores[n].current_id == saves_in(steps.take(n)),
    decreases n,
{
    if n > 0 {
        lemma_counter_counts_saves(stores, steps, n - 1);
        assert(steps.take(n).drop_last() =~= steps.take(n - 1));
        assert(steps.take(n).last() == steps[n - 1]);
        assert(performs(stores[n - 1], steps[n - 1], stores[n]));
    }
}

/// Starting from a fresh store, whatever gets, lists, updates and deletes
/// come in between, each save hands out one more than the number of saves
/// before it: the ids are 1, 2, ..., n in call order, with no gaps.
pub proof fn lemma_ids_count_saves(stores: Seq<StoreView>, steps: Seq<StoreStep>)
    requires
        stores.len() == steps.len() + 1,
        stores[0].tickets == Map::<u64, TicketView>::empty(),
        stores[0].current_id == 0,
        forall|t: int| 0 <= t < steps.len() ==> performs(#[trigger] stores[t], steps[t], stores[t + 1]),
    ensures
        forall|j: int|
            0 <= j < steps.len() ==> match #[trigger] steps[j] {
                StoreStep::Save(_, id, _) => id == saves_in(steps.take(j)) + 1,
                _ => true,
            },
{
    assert forall|j: int| 0 <= j < steps.len() implies match #[trigger] steps[j] {
        StoreStep::Save(_, id, _) => id == saves_in(steps.take(j)) + 1,
        _ => true,
    } by {
        lemma_counter_counts_saves(stores, steps, j);
        assert(performs(stores[j], steps[j], stores[j + 1]));
    }
}

/// Each save hands out an id above every id that an earlier save handed
/// out, whatever operations come in between.
pub proof fn lemma_saved_ids_increase(stores: Seq<StoreView>, steps: Seq<StoreStep>, i: int, j: int)
    requires
        stores.len() == steps.len() + 1,
        forall|t: int| 0 <= t < steps.len() ==> performs(#[trigger] stores[t], steps[t], stores[t + 1]),
        0 <= i < j < steps.len(),
        steps[i] is Save,
        steps[j] is Save,
    ensures
        match (steps[i], steps[j]) {
            (StoreStep::Save(_, a, _), StoreStep::Save(_, b, _)) => a < b,
            _ => true,
        },
{
    assert(performs(stores[i], steps[i], stores[i + 1]));
    lemma_counter_never_falls(stores, steps, i + 1, j);
    assert(performs(stores[j], steps[j], stores[j + 1]));
}

/// Once the ticket with id `k` has been deleted, no later save hands out
/// `k` again, whatever saves, updates and deletes come in between.
pub proof fn lemma_deleted_id_never_reissued(
    stores: Seq<StoreView>,
    steps: Seq<StoreStep>,
    i: int,
    j: int,
    k: u64,
)
    requires
        stores.len() == steps.len() + 1,
        forall|t: int| 0 <= t < stores.len() ==> (#[trigger] stores[t]).wf(),
        forall|t: int| 0 <= t < steps.len() ==> performs(#[trigger] stores[t], steps[t], stores[t + 1]),
        0 <= i < j < steps.len(),
        steps[i] == StoreStep::Delete(k),
        stores[i].tickets.contains_key(k),
    ensures
        match steps[j] {
            StoreStep::Save(_, id, _) => id != k && id > k,
            _ => true,
        },
{
    assert(stores[i].wf());
    assert(stores[i].tickets.contains_key(k));
    lemma_counter_never_falls(stores, steps, i, j);
    assert(performs(stores[j], steps[j], stores[j + 1]));
}

/// A save on a store whose counter has passed `k` hands out an id above
/// `k`: an id once issued and since deleted is not issued again.
pub proof fn lemma_retired_id_not_reissued(
    a: StoreView,
    b: StoreView,
    d: DraftView,
    id: u64,
    at: Timestamp,
    k: u64,
)
    requires
        a.wf(),
        1 <= k <= a.current_id,
        !a.tickets.contains_key(k),
        saved(a, b, d, id, at),
    ensures
        id > k,
        id != k,
{
}

/// In a store that holds a single ticket, listing gives exactly that ticket,
/// the one that looking up its id gives.
pub proof fn lemma_single_ticket_list_matches_get(s: StoreView, id: u64, r: Seq<TicketView>)
    requires
        s.wf(),
        s.tickets.dom() == set![id],
        lists(s, r),
    ensures
        r == seq![s.tickets[id]],
{
    assert(s.tickets.contains_key(id));
    let i = choose|i: int| 0 <= i < r.len() && #[trigger] r[i].id == id;
    if r.len() > 1 {
        assert(s.tickets.contains_key(r[0].id));
        assert(s.tickets.contains_key(r[1].id));
        assert(s.tickets.dom().contains(r[0].id));
        assert(s.tickets.dom().contains(r[1].id));
        assert(r[0].id == r[1].id);
    }
    assert(r.len() == 1);
    assert(r =~= seq![s.tickets[id]]);
}

/// An update that carries no field keeps title, description and status, and
/// moves the last update no earlier than it was.
pub proof fn lemma_empty_patch_touches_only_time(a: StoreView, b: StoreView, id: u64, at: Timestamp)
    requires
        a.tickets.contains_key(id),
        updated(a, b, id, PatchView { title: None, description: None, status: None }, at),
    ensures
        b.tickets.contains_key(id),
        b.tickets[id].title == a.tickets[id].title,
        b.tickets[id].description == a.tickets[id].description,
        b.tickets[id].status == a.tickets[id].status,
        a.tickets[id].updated_at.at_or_before(b.tickets[id].updated_at),
{
}

} // verus!
