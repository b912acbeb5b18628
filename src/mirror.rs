//! The mirrored open-order list: a snapshot of the exchange's open orders,
//! refreshed by deleting the rows no longer listed and inserting the new ones.

use vstd::prelude::*;
use crate::order::contains_id;

verus! {

/// An open order as the exchange lists it, with numbers in fixed point.
#[derive(Clone, Debug)]
pub struct MirroredOrder {
    pub order_id: u64,
    pub symbol: String,
    pub price: u64,
    pub stop_price: u64,
    pub quantity: u64,
    pub order_type: String,
    pub status: String,
    /// Creation time in milliseconds since the Unix epoch.
    pub time_ms: u64,
}

/// The changes that turn the stored mirror into the latest snapshot.
#[derive(Clone, Debug)]
pub struct MirrorChanges {
    /// Stored order ids absent from the snapshot.
    pub delete: Vec<u64>,
    /// Snapshot orders not yet stored, first listing of each id only.
    pub insert: Vec<MirroredOrder>,
}

/// The order ids of a listing, in order.
pub open spec fn ids_of(orders: Seq<MirroredOrder>) -> Seq<u64> {
    orders.map_values(|o: MirroredOrder| o.order_id)
}

/// The stored ids that the snapshot no longer lists, in stored order.
pub open spec fn stale_ids(stored: Seq<u64>, fetched: Seq<MirroredOrder>) -> Seq<u64>
    decreases stored.len(),
{
    if stored.len() == 0 {
        seq![]
    } else {
        stale_ids(stored.drop_last(), fetched) + if ids_of(fetched).contains(stored.last()) {
            seq![]
        } else {
            seq![stored.last()]
        }
    }
}

/// The snapshot orders to insert: those whose id is neither stored nor listed
/// earlier in the snapshot, in snapshot order.
pub open spec fn fresh_orders(stored: Seq<u64>, fetched: Seq<MirroredOrder>) -> Seq<MirroredOrder>
    decreases fetched.len(),
{
    if fetched.len() == 0 {
        seq![]
    } else {
        let o = fetched.last();
        let before = fetched.drop_last();
        fresh_orders(stored, before) + if stored.contains(o.order_id) || ids_of(before).contains(
            o.order_id,
        ) {
            seq![]
        } else {
            seq![o]
        }
    }
}

fn listed_before(orders: &Vec<MirroredOrder>, n: usize, id: u64) -> (r: bool)
    requires
        n <= orders@.len(),
    ensures
        r == ids_of(orders@.take(n as int)).contains(id),
{
    let mut i: usize = 0;
    while i < n
        invariant
            n <= orders@.len(),
            i <= n,
            forall|j: int| 0 <= j < i ==> orders@[j].order_id != id,
        decreases n - i,
    {
        if orders[i].order_id == id {
            assert(ids_of(orders@.take(n as int))[i as int] == id);
            return true;
        }
        i = i + 1;
    }
    assert forall|j: int| 0 <= j < n implies ids_of(orders@.take(n as int))[j] != id by {
        assert(ids_of(orders@.take(n as int))[j] == orders@[j].order_id);
    }
    false
}

fn copy_order(o: &MirroredOrder) -> (r: MirroredOrder)
    ensures
        r == *o,
{
    MirroredOrder {
        order_id: o.order_id,
        symbol: o.symbol.clone(),
        price: o.price,
        stop_price: o.stop_price,
        quantity: o.quantity,
        order_type: o.order_type.clone(),
        status: o.status.clone(),
        time_ms: o.time_ms,
    }
}

/// Compares the stored mirror with the latest snapshot of open orders.
pub fn mirror_changes(stored: &Vec<u64>, fetched: &Vec<MirroredOrder>) -> (r: MirrorChanges)
    ensures
        r.delete@ == stale_ids(stored@, fetched@),
        r.insert@ == fresh_orders(stored@, fetched@),
{
    let mut delete: Vec<u64> = Vec::new();
    let mut i: usize = 0;
    while i < stored.len()
        invariant
            i <= stored@.len(),
            delete@ == stale_ids(stored@.take(i as int), fetched@),
        decreases stored@.len() - i,
    {
        assert(stored@.take(i + 1).drop_last() == stored@.take(i as int));
        if !listed_before(fetched, fetched.len(), stored[i]) {
            delete.push(stored[i]);
        }
        proof {
            assert(fetched@.take(fetched@.len() as int) == fetched@);
        }
        i = i + 1;
    }
    assert(stored@.take(stored@.len() as int) == stored@);
    let mut insert: Vec<MirroredOrder> = Vec::new();
    let mut j: usize = 0;
    while j < fetched.len()
        invariant
            j <= fetched@.len(),
            insert@ == fresh_orders(stored@, fetched@.take(j as int)),
        decreases fetched@.len() - j,
    {
        let ghost prefix = fetched@.take(j + 1);
        assert(prefix.drop_last() == fetched@.take(j as int));
        assert(prefix.last() == fetched@[j as int]);
        let id = fetched[j].order_id;
        if !contains_id(stored, id) && !listed_before(fetched, j, id) {
            insert.push(copy_order(&fetched[j]));
        }
        j = j + 1;
    }
    assert(fetched@.take(fetched@.len() as int) == fetched@);
    MirrorChanges { delete, insert }
}


proof fn lemma_contains_concat(a: Seq<u64>, b: Seq<u64>, id: u64)
    ensures
        (a + b).contains(id) <==> a.contains(id) || b.contains(id),
{
    if (a + b).contains(id) {
        let i = choose|i: int| 0 <= i < (a + b).len() && (a + b)[i] == id;
        if i < a.len() {
            assert(a[i] == id);
        } else {
            assert(b[i - a.len()] == id);
        }
    }
    if a.contains(id) {
        let i = choose|i: int| 0 <= i < a.len() && a[i] == id;
        assert((a + b)[i] == id);
    }
    if b.contains(id) {
        let i = choose|i: int| 0 <= i < b.len() && b[i] == id;
        assert((a + b)[a.len() + i] == id);
    }
}

proof fn lemma_contains_last(s: Seq<u64>, id: u64)
    requires
        s.len() > 0,
    ensures
        s.contains(id) <==> s.drop_last().contains(id) || s.last() == id,
{
    assert(s == s.drop_last() + seq![s.last()]);
    lemma_contains_concat(s.drop_last(), seq![s.last()], id);
    if seq![s.last()].contains(id) {
        assert(seq![s.last()][0] == id);
    }
    if s.last() == id {
        assert(seq![s.last()][0] == id);
    }
}

proof fn lemma_stale_ids(stored: Seq<u64>, fetched: Seq<MirroredOrder>, id: u64)
    ensures
        stale_ids(stored, fetched).contains(id) <==> stored.contains(id) && !ids_of(fetched).contains(id),
    decreases stored.len(),
{
    if stored.len() > 0 {
        let x = stored.last();
        let tail = if ids_of(fetched).contains(x) { seq![] } else { seq![x] };
        lemma_stale_ids(stored.drop_last(), fetched, id);
        lemma_contains_concat(stale_ids(stored.drop_last(), fetched), tail, id);
        lemma_contains_last(stored, id);
        if tail.contains(id) {
            assert(tail[0] == id);
        }
        if x == id && !ids_of(fetched).contains(x) {
            assert(tail[0] == id);
        }
    }
}

proof fn lemma_ids_last(orders: Seq<MirroredOrder>)
    requires
        orders.len() > 0,
    ensures
        ids_of(orders).drop_last() == ids_of(orders.drop_last()),
        ids_of(orders).last() == orders.last().order_id,
{
    assert(ids_of(orders).drop_last() =~= ids_of(orders.drop_last()));
}

proof fn lemma_fresh_orders(stored: Seq<u64>, fetched: Seq<MirroredOrder>, id: u64)
    ensures
        ids_of(fresh_orders(stored, fetched)).contains(id) <==> ids_of(fetched).contains(id)
            && !stored.contains(id),
    decreases fetched.len(),
{
    if fetched.len() > 0 {
        let o = fetched.last();
        let before = fetched.drop_last();
        let tail = if stored.contains(o.order_id) || ids_of(before).contains(o.order_id) {
            Seq::<MirroredOrder>::empty()
        } else {
            seq![o]
        };
        lemma_fresh_orders(stored, before, id);
        assert(ids_of(fresh_orders(stored, fetched)) =~= ids_of(fresh_orders(stored, before))
            + ids_of(tail));
        lemma_contains_concat(ids_of(fresh_orders(stored, before)), ids_of(tail), id);
        lemma_ids_last(fetched);
        lemma_contains_last(ids_of(fetched), id);
        if ids_of(tail).contains(id) {
            assert(ids_of(tail)[0] == id);
        }
        if o.order_id == id && tail.len() == 1 {
            assert(ids_of(tail)[0] == id);
        }
    }
}

/// Deleting the stale rows and inserting the fresh ones leaves the mirror
/// holding exactly the order ids of the latest snapshot.
pub proof fn mirror_matches_snapshot(stored: Seq<u64>, fetched: Seq<MirroredOrder>, id: u64)
    ensures
        (stored.contains(id) && !stale_ids(stored, fetched).contains(id)) || ids_of(
            fresh_orders(stored, fetched),
        ).contains(id) <==> ids_of(fetched).contains(id),
{
    lemma_stale_ids(stored, fetched, id);
    lemma_fresh_orders(stored, fetched, id);
}

} // verus!
