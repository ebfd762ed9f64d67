//! An in-memory document store honouring the contract the engine requires of
//! its persistence layer: point lookup by primary key, and atomic
//! upsert-with-increment-and-append, over named per-tenant collections.
use vstd::prelude::*;

use crate::bucket::Bucket;
use crate::bucket::BucketView;
use crate::bucket::MergeInstruction;
use crate::bucket::MergeInstructionView;
use crate::bucket::fresh_bucket;
use crate::bucket::merge_into;
use crate::bucket::merged_bucket;
use crate::bucket::new_bucket_from;
use crate::models::Event;
use crate::models::EventView;
use crate::models::KeyPair;
use crate::models::KeyPairView;
use crate::text::find_first;
use crate::text::int_dec;
use crate::text::nat_to_decimal;
use crate::text::lemma_find_first;
use crate::text::lemma_find_first_is;
use crate::text::str_eq;

verus! {

/// Mathematical view of one named collection.
#[verifier::ext_equal]
pub struct CollectionView {
    pub name: Seq<char>,
    pub buckets: Seq<BucketView>,
    pub events: Seq<EventView>,
}

/// One named namespace: a tenant's bucket collection for one window, or its
/// raw-event log.
pub struct Collection {
    pub name: String,
    pub buckets: Vec<Bucket>,
    pub events: Vec<Event>,
}

impl View for Collection {
    type V = CollectionView;

    open spec fn view(&self) -> CollectionView {
        CollectionView {
            name: self.name@,
            buckets: self.buckets.deep_view(),
            events: self.events.deep_view(),
        }
    }
}

impl DeepView for Collection {
    type V = CollectionView;

    open spec fn deep_view(&self) -> CollectionView {
        self.view()
    }
}

/// Mathematical view of the store.
#[verifier::ext_equal]
pub struct StoreView {
    pub collections: Seq<CollectionView>,
}

impl StoreView {
    /// Every bucket in every collection is well formed.
    pub open spec fn wf(self) -> bool {
        forall|c: int, b: int|
            0 <= c < self.collections.len() && 0 <= b < self.collections[c].buckets.len()
                ==> (#[trigger] self.collections[c].buckets[b]).wf()
    }
}

/// The in-memory store: a sequence of named collections.
pub struct Store {
    pub collections: Vec<Collection>,
}

impl View for Store {
    type V = StoreView;

    open spec fn view(&self) -> StoreView {
        StoreView { collections: self.collections.deep_view() }
    }
}

/// The index of the collection named `name`, or the number of collections.
pub open spec fn find_collection(cols: Seq<CollectionView>, name: Seq<char>) -> int {
    find_first(cols, |c: CollectionView| c.name == name)
}

/// The index of the bucket keyed `id`, or the number of buckets.
pub open spec fn find_bucket(buckets: Seq<BucketView>, id: Seq<char>) -> int {
    find_first(buckets, |b: BucketView| b.hash == id)
}

/// The store with a collection named `name` present: unchanged when it already
/// exists, extended by an empty one otherwise.
pub open spec fn add_collection_spec(s: StoreView, name: Seq<char>) -> StoreView {
    if find_collection(s.collections, name) < s.collections.len() {
        s
    } else {
        StoreView {
            collections: s.collections.push(
                CollectionView { name, buckets: Seq::empty(), events: Seq::empty() },
            ),
        }
    }
}

pub proof fn lemma_add_collection_found(s: StoreView, name: Seq<char>)
    ensures
        ({
            let s1 = add_collection_spec(s, name);
            let ci = find_collection(s1.collections, name);
            0 <= ci < s1.collections.len() && s1.collections[ci].name == name
        }),
{
    let p = |c: CollectionView| c.name == name;
    lemma_find_first(s.collections, p);
    let s1 = add_collection_spec(s, name);
    if find_collection(s.collections, name) == s.collections.len() {
        lemma_find_first_is(s1.collections, p, s.collections.len() as int);
    }
    lemma_find_first(s1.collections, p);
}

/// The store after one merge: the target collection exists (created empty if
/// absent), and within it the bucket keyed by the instruction's identity is
/// merged into, or created fresh when the identity is new.
pub open spec fn apply_inst(s: StoreView, i: MergeInstructionView) -> StoreView {
    let s1 = add_collection_spec(s, i.collection);
    let ci = find_collection(s1.collections, i.collection);
    let col = s1.collections[ci];
    let bi = find_bucket(col.buckets, i.bucket_id);
    let col2 = if bi < col.buckets.len() {
        CollectionView { buckets: col.buckets.update(bi, merged_bucket(col.buckets[bi], i)), ..col }
    } else {
        CollectionView { buckets: col.buckets.push(fresh_bucket(i)), ..col }
    };
    StoreView { collections: s1.collections.update(ci, col2) }
}

/// The store after inserting one raw event into the named log, paired with
/// the id the store assigned to it.
pub open spec fn insert_event_spec(
    s: StoreView,
    name: Seq<char>,
    keys: Seq<KeyPairView>,
    ts: int,
) -> (StoreView, Seq<char>) {
    let s1 = add_collection_spec(s, name);
    let ci = find_collection(s1.collections, name);
    let col = s1.collections[ci];
    let id = int_dec(col.events.len() as int);
    let ev = EventView { id, keys, timestamp: ts };
    (
        StoreView {
            collections: s1.collections.update(ci, CollectionView { events: col.events.push(ev), ..col }),
        },
        id,
    )
}

impl Store {
    /// An empty store.
    pub fn new() -> (r: Store)
        ensures
            r@.collections.len() == 0,
            r@.wf(),
    {
        let r = Store { collections: Vec::new() };
        proof {
            assert(r@.collections =~= Seq::<CollectionView>::empty());
        }
        r
    }
}

/// The index of the collection named `name`, or the collection count.
pub(crate) fn find_collection_idx(store: &Store, name: &str) -> (r: usize)
    ensures
        r as int == find_collection(store@.collections, name@),
        r <= store@.collections.len(),
{
    let ghost cols = store@.collections;
    let ghost pred = |c: CollectionView| c.name == name@;
    let mut i: usize = 0;
    while i < store.collections.len()
        invariant
            i <= store@.collections.len(),
            cols == store@.collections,
            pred == (|c: CollectionView| c.name == name@),
            forall|k: int| 0 <= k < i ==> !pred(cols[k]),
        decreases store@.collections.len() - i,
    {
        if str_eq(store.collections[i].name.as_str(), name) {
            proof {
                lemma_find_first_is(cols, pred, i as int);
            }
            return i;
        }
        i = i + 1;
    }
    proof {
        lemma_find_first_is(cols, pred, cols.len() as int);
    }
    i
}

/// The index of the bucket keyed `id` in a collection, or the bucket count.
pub(crate) fn find_bucket_idx(col: &Collection, id: &str) -> (r: usize)
    ensures
        r as int == find_bucket(col@.buckets, id@),
        r <= col@.buckets.len(),
{
    let ghost buckets = col@.buckets;
    let ghost pred = |b: BucketView| b.hash == id@;
    let mut i: usize = 0;
    while i < col.buckets.len()
        invariant
            i <= col@.buckets.len(),
            buckets == col@.buckets,
            pred == (|b: BucketView| b.hash == id@),
            forall|k: int| 0 <= k < i ==> !pred(buckets[k]),
        decreases col@.buckets.len() - i,
    {
        if str_eq(col.buckets[i].hash.as_str(), id) {
            proof {
                lemma_find_first_is(buckets, pred, i as int);
            }
            return i;
        }
        i = i + 1;
    }
    proof {
        lemma_find_first_is(buckets, pred, buckets.len() as int);
    }
    i
}

/// Ensure a collection of the given name exists, creating it empty if absent.
pub fn add_collection_by_name(store: &mut Store, name: &String)
    ensures
        final(store)@ == add_collection_spec(old(store)@, name@),
        old(store)@.wf() ==> final(store)@.wf(),
{
    let idx = find_collection_idx(store, name.as_str());
    if idx == store.collections.len() {
        let ghost pre = store@.collections;
        store.collections.push(
            Collection { name: name.clone(), buckets: Vec::new(), events: Vec::new() },
        );
        proof {
            assert(store@.collections =~~= add_collection_spec(
                StoreView { collections: pre },
                name@,
            ).collections);
        }
    }
}

/// Apply one merge instruction to the store: upsert with increment and
/// append, atomic per key from the caller's view.
pub fn apply_instruction(store: &mut Store, inst: &MergeInstruction)
    requires
        old(store)@.wf(),
    ensures
        final(store)@ == apply_inst(old(store)@, inst@),
        final(store)@.wf(),
{
    let ghost s0 = old(store)@;
    add_collection_by_name(store, &inst.collection);
    let ghost s1 = store@;
    proof {
        lemma_add_collection_found(s0, inst@.collection);
    }
    let ci = find_collection_idx(store, inst.collection.as_str());
    let bi = find_bucket_idx(&store.collections[ci], inst.bucket_id.as_str());
    let blen = store.collections[ci].buckets.len();
    if bi < blen {
        proof {
            assert(store@.collections[ci as int] == store.collections@[ci as int]@);
            assert(store@.collections[ci as int].buckets[bi as int] == store.collections@[ci
                as int].buckets@[bi as int]@);
            assert(store@.collections[ci as int].buckets[bi as int].wf());
        }
        merge_into(&mut store.collections[ci].buckets[bi], inst);
        proof {
            assert(store@.collections =~~= apply_inst(s0, inst@).collections);
        }
    } else {
        let fresh = new_bucket_from(inst);
        store.collections[ci].buckets.push(fresh);
        proof {
            assert(store@.collections =~~= apply_inst(s0, inst@).collections);
        }
    }
    proof {
        let sf = store@;
        let si = apply_inst(s0, inst@);
        assert forall|c: int, b: int|
            0 <= c < sf.collections.len() && 0 <= b < sf.collections[c].buckets.len() implies (
        #[trigger] sf.collections[c].buckets[b]).wf() by {
            if c != ci {
                assert(sf.collections[c] == s1.collections[c]);
                if c < s0.collections.len() {
                    assert(s1.collections[c] == s0.collections[c]);
                }
            }
        }
    }
}

/// Insert one raw event into the named log; the store assigns and returns its
/// id.
pub fn insert_event(store: &mut Store, name: &String, keys: Vec<KeyPair>, timestamp: i32) -> (id:
    String)
    requires
        old(store)@.wf(),
    ensures
        final(store)@ == insert_event_spec(old(store)@, name@, keys.deep_view(), timestamp as int).0,
        id@ == insert_event_spec(old(store)@, name@, keys.deep_view(), timestamp as int).1,
        final(store)@.wf(),
{
    let ghost s0 = old(store)@;
    add_collection_by_name(store, name);
    let ghost s1 = store@;
    proof {
        lemma_add_collection_found(s0, name@);
    }
    let ci = find_collection_idx(store, name.as_str());
    let n = store.collections[ci].events.len();
    let id = nat_to_decimal(n as u64);
    let ev = Event { id: id.clone(), keys, timestamp };
    store.collections[ci].events.push(ev);
    proof {
        assert(store@.collections =~~= insert_event_spec(
            s0,
            name@,
            ev@.keys,
            timestamp as int,
        ).0.collections);
        let sf = store@;
        assert forall|c: int, b: int|
            0 <= c < sf.collections.len() && 0 <= b < sf.collections[c].buckets.len() implies (
        #[trigger] sf.collections[c].buckets[b]).wf() by {
            assert(sf.collections[c].buckets == s1.collections[c].buckets);
            if c < s0.collections.len() {
                assert(s1.collections[c] == s0.collections[c]);
            }
        }
    }
    id
}

} // verus!
