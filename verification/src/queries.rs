//! The read paths over the store: point lookup of one bucket by its keys,
//! filtered scans over a window's buckets, grouped counts over a timestamp
//! range, and the raw-event listing.
use vstd::prelude::*;

use crate::bucket::Bucket;
use crate::bucket::BucketView;
use crate::config::ConfigSnapshot;
use crate::config::find_config;
use crate::config::find_config_idx;
use crate::grouping::collection_name;
use crate::grouping::get_collection_name;
use crate::grouping::get_hash_id;
use crate::grouping::group_id;
use crate::grouping::hash_id;
use crate::grouping::lowercase_id;
use crate::models::Count;
use crate::models::CountResponse;
use crate::models::CountView;
use crate::models::EngineError;
use crate::models::Event;
use crate::models::NewKeyPair;
use crate::models::WindowType;
use crate::models::attrs_of;
use crate::store::Store;
use crate::store::StoreView;
use crate::store::find_bucket;
use crate::store::find_bucket_idx;
use crate::store::find_collection;
use crate::store::find_collection_idx as store_collection_idx;
use crate::text::find_first;
use crate::text::lower_seq;
use crate::text::str_eq;
use crate::text::to_lowercase_string;
use crate::window::get_timestamp_start;
use crate::window::window_start;

verus! {

/// The bucket stored under `id` in the collection named `cname`, if any.
pub open spec fn lookup_bucket(s: StoreView, cname: Seq<char>, id: Seq<char>) -> Option<
    BucketView,
> {
    let k = find_collection(s.collections, cname);
    if k < s.collections.len() {
        let b = find_bucket(s.collections[k].buckets, id);
        if b < s.collections[k].buckets.len() {
            Some(s.collections[k].buckets[b])
        } else {
            None
        }
    } else {
        None
    }
}

/// The buckets of the collection named `cname`, empty when it does not exist.
pub open spec fn buckets_of(s: StoreView, cname: Seq<char>) -> Seq<BucketView> {
    let k = find_collection(s.collections, cname);
    if k < s.collections.len() {
        s.collections[k].buckets
    } else {
        Seq::empty()
    }
}

/// The raw events of the collection named `cname`, empty when it does not
/// exist.
pub open spec fn events_of(s: StoreView, cname: Seq<char>) -> Seq<crate::models::EventView> {
    let k = find_collection(s.collections, cname);
    if k < s.collections.len() {
        s.collections[k].events
    } else {
        Seq::empty()
    }
}

/// Look one bucket up by the keys that define its identity: reject unknown
/// tenants; otherwise normalize the timestamp, derive the bucket id from the
/// grouping definition and the attributes, and return the bucket when it
/// exists.
pub fn bucket_by_keys(
    store: &Store,
    snapshot: &ConfigSnapshot,
    application_id: &String,
    window: &WindowType,
    timestamp: i32,
    group_def: &str,
    keypairs: &Vec<NewKeyPair>,
) -> (r: Result<Bucket, EngineError>)
    ensures
        ({
            let app = lower_seq(application_id@);
            if find_config(snapshot@, app) < snapshot@.len() {
                let cname = collection_name(application_id@, Some(*window));
                let id = hash_id(
                    *window,
                    window_start(*window, timestamp as int),
                    group_id(group_def@, keypairs.deep_view()),
                );
                match lookup_bucket(store@, cname, id) {
                    Some(b) => r is Ok && r->Ok_0@ == b,
                    None => r == Err::<Bucket, EngineError>(EngineError::NotFound),
                }
            } else {
                r == Err::<Bucket, EngineError>(EngineError::InvalidApplicationId)
            }
        }),
{
    let app_l = lowercase_id(application_id);
    let ci = find_config_idx(snapshot, app_l.as_str());
    if ci == snapshot.configs.len() {
        return Err(EngineError::InvalidApplicationId);
    }
    let cname = get_collection_name(application_id, Some(window));
    let start = get_timestamp_start(window, timestamp);
    let hash = get_hash_id(window, group_def, keypairs, start);
    proof {
        assert(attrs_of(keypairs@) =~= keypairs.deep_view());
    }
    let k = store_collection_idx(store, cname.as_str());
    if k == store.collections.len() {
        return Err(EngineError::NotFound);
    }
    let col = &store.collections[k];
    let bi = find_bucket_idx(col, hash.as_str());
    if bi < col.buckets.len() {
        Ok(col.buckets[bi].duplicate())
    } else {
        Err(EngineError::NotFound)
    }
}

/// The filter a grouped-bucket query applies: the bucket start lies in the
/// normalized range; when a grouping is given the bucket's definition equals
/// it lowercased; when a nested grouping id is given the bucket's nested ids
/// are exactly the one-element sequence of it lowercased.
pub open spec fn bucket_query_pred(
    s: int,
    e: int,
    grouping: Option<Seq<char>>,
    nested: Option<Seq<char>>,
) -> spec_fn(BucketView) -> bool {
    |b: BucketView|
        s <= b.timestamp <= e && (match grouping {
            Some(g) => b.grouping == lower_seq(g),
            None => true,
        }) && (match nested {
            Some(n) => b.nested_grouping_ids == seq![lower_seq(n)],
            None => true,
        })
}

/// List the buckets of one window whose start lies in the normalized range,
/// optionally restricted to one grouping definition and to buckets whose
/// nested grouping ids are exactly the given one.
pub fn query_event_groups(
    store: &Store,
    snapshot: &ConfigSnapshot,
    application_id: &String,
    window: &WindowType,
    start_timestamp: i32,
    end_timestamp: i32,
    grouping: &Option<String>,
    nested_grouping: &Option<String>,
) -> (r: Result<Vec<Bucket>, EngineError>)
    ensures
        ({
            let app = lower_seq(application_id@);
            if find_config(snapshot@, app) < snapshot@.len() {
                let s = window_start(*window, start_timestamp as int);
                let e = window_start(*window, end_timestamp as int);
                let pred = bucket_query_pred(s, e, grouping.deep_view(), nested_grouping.deep_view());
                r is Ok && r->Ok_0.deep_view() == buckets_of(
                    store@,
                    collection_name(application_id@, Some(*window)),
                ).filter(pred)
            } else {
                r == Err::<Vec<Bucket>, EngineError>(EngineError::InvalidApplicationId)
            }
        }),
{
    let app_l = lowercase_id(application_id);
    let ci = find_config_idx(snapshot, app_l.as_str());
    if ci == snapshot.configs.len() {
        return Err(EngineError::InvalidApplicationId);
    }
    let cname = get_collection_name(application_id, Some(window));
    let start = get_timestamp_start(window, start_timestamp);
    let end = get_timestamp_start(window, end_timestamp);
    let grouping_l: Option<String> = match grouping {
        Some(g) => Some(to_lowercase_string(g.as_str())),
        None => None,
    };
    let nested_l: Option<String> = match nested_grouping {
        Some(n) => Some(to_lowercase_string(n.as_str())),
        None => None,
    };
    let ghost pred = bucket_query_pred(
        window_start(*window, start_timestamp as int),
        window_start(*window, end_timestamp as int),
        grouping.deep_view(),
        nested_grouping.deep_view(),
    );
    let mut out: Vec<Bucket> = Vec::new();
    let k = store_collection_idx(store, cname.as_str());
    if k == store.collections.len() {
        proof {
            assert(out.deep_view() =~= buckets_of(store@, cname@).filter(pred));
        }
        return Ok(out);
    }
    let col = &store.collections[k];
    let ghost buckets = col@.buckets;
    let mut i: usize = 0;
    proof {
        reveal(Seq::filter);
        assert(out.deep_view() =~= buckets.take(0).filter(pred));
    }
    while i < col.buckets.len()
        invariant
            i <= col@.buckets.len(),
            buckets == col@.buckets,
            pred == bucket_query_pred(
                window_start(*window, start_timestamp as int),
                window_start(*window, end_timestamp as int),
                grouping.deep_view(),
                nested_grouping.deep_view(),
            ),
            start == window_start(*window, start_timestamp as int),
            end == window_start(*window, end_timestamp as int),
            (match (grouping, &grouping_l) {
                (Some(g), Some(gl)) => gl@ == lower_seq(g@),
                (None, None) => true,
                _ => false,
            }),
            (match (nested_grouping, &nested_l) {
                (Some(n), Some(nl)) => nl@ == lower_seq(n@),
                (None, None) => true,
                _ => false,
            }),
            out.deep_view() == buckets.take(i as int).filter(pred),
        decreases col@.buckets.len() - i,
    {
        let b = &col.buckets[i];
        let in_range = start <= b.timestamp && b.timestamp <= end;
        let g_match = match &grouping_l {
            Some(gl) => str_eq(b.grouping.as_str(), gl.as_str()),
            None => true,
        };
        let n_match = match &nested_l {
            Some(nl) => {
                if b.nested_grouping_ids.len() == 1 {
                    str_eq(b.nested_grouping_ids[0].as_str(), nl.as_str())
                } else {
                    false
                }
            },
            None => true,
        };
        proof {
            if n_match {
                match nested_grouping {
                    Some(n) => {
                        assert(buckets[i as int].nested_grouping_ids =~= seq![lower_seq(n@)]);
                    },
                    None => {
                    },
                }
            } else {
                match nested_grouping {
                    Some(n) => {
                        if buckets[i as int].nested_grouping_ids == seq![lower_seq(n@)] {
                            assert(buckets[i as int].nested_grouping_ids.len() == 1);
                            assert(buckets[i as int].nested_grouping_ids[0] == lower_seq(n@));
                        }
                    },
                    None => {
                    },
                }
            }
            assert((in_range && g_match && n_match) == pred(buckets[i as int]));
        }
        let ghost pre = out.deep_view();
        if in_range && g_match && n_match {
            out.push(b.duplicate());
        }
        proof {
            reveal(Seq::filter);
            assert(buckets.take(i + 1).drop_last() =~= buckets.take(i as int));
            assert(buckets.take(i + 1).last() == buckets[i as int]);
            if pred(buckets[i as int]) {
                assert(out.deep_view() =~= pre.push(buckets[i as int]));
            }
        }
        i = i + 1;
    }
    proof {
        assert(buckets.take(buckets.len() as int) =~= buckets);
    }
    Ok(out)
}

/// The filter of a grouped count: the bucket start lies in the normalized
/// range, the grouping definition equals the lowercased one, and the
/// lowercased nested grouping id is among the bucket's nested ids.
pub open spec fn count_query_pred(s: int, e: int, grouping: Seq<char>, nested: Seq<char>) -> spec_fn(
    BucketView,
) -> bool {
    |b: BucketView|
        s <= b.timestamp <= e && b.grouping == lower_seq(grouping)
            && b.nested_grouping_ids.contains(lower_seq(nested))
}

/// The index of the row for timestamp `ts`, or the row count.
pub open spec fn find_ts(counts: Seq<CountView>, ts: int) -> int {
    find_first(counts, |c: CountView| c.timestamp == ts)
}

/// The index of the row for timestamp `ts`, or the row count.
fn find_count_idx(counts: &Vec<Count>, ts: i64) -> (r: usize)
    ensures
        r as int == find_ts(counts.deep_view(), ts as int),
        r <= counts@.len(),
        r < counts@.len() ==> counts.deep_view()[r as int].timestamp == ts as int,
{
    let ghost rows = counts.deep_view();
    let ghost pred = |c: CountView| c.timestamp == ts as int;
    let mut i: usize = 0;
    while i < counts.len()
        invariant
            i <= counts@.len(),
            rows == counts.deep_view(),
            rows.len() == counts@.len(),
            pred == (|c: CountView| c.timestamp == ts as int),
            forall|k: int| 0 <= k < i ==> !pred(rows[k]),
        decreases counts@.len() - i,
    {
        if counts[i].timestamp == ts {
            proof {
                crate::text::lemma_find_first_is(rows, pred, i as int);
            }
            return i;
        }
        i = i + 1;
    }
    proof {
        crate::text::lemma_find_first_is(rows, pred, rows.len() as int);
    }
    i
}

/// One bucket folded into the grouped rows: the row sharing its bucket start
/// gains its count, or a new row opens for it.
pub open spec fn bump(counts: Seq<CountView>, b: BucketView) -> Seq<CountView> {
    let k = find_ts(counts, b.timestamp);
    if k < counts.len() {
        counts.update(
            k,
            CountView {
                timestamp: b.timestamp,
                aggregate_count: counts[k].aggregate_count + b.count,
                record_count: counts[k].record_count + 1,
            },
        )
    } else {
        counts.push(CountView { timestamp: b.timestamp, aggregate_count: b.count, record_count: 1 })
    }
}

/// The grouped rows of a bucket sequence, keyed by bucket start, in order of
/// first appearance.
pub open spec fn group_counts(buckets: Seq<BucketView>) -> Seq<CountView>
    decreases buckets.len(),
{
    if buckets.len() == 0 {
        Seq::empty()
    } else {
        bump(group_counts(buckets.drop_last()), buckets.last())
    }
}

/// The sum of the counts of a bucket sequence.
pub open spec fn sum_counts(buckets: Seq<BucketView>) -> nat
    decreases buckets.len(),
{
    if buckets.len() == 0 {
        0
    } else {
        sum_counts(buckets.drop_last()) + buckets.last().count
    }
}

/// Count events by group over a normalized timestamp range: one row per
/// bucket start among the matching buckets, each row carrying how many
/// buckets share that start and the sum of their counts, plus the totals over
/// every matching bucket.
pub fn count_events_by_group(
    store: &Store,
    snapshot: &ConfigSnapshot,
    application_id: &String,
    window: &WindowType,
    start_timestamp: i32,
    end_timestamp: i32,
    grouping: &str,
    nested_grouping: &str,
) -> (r: Result<CountResponse, EngineError>)
    ensures
        ({
            let app = lower_seq(application_id@);
            if find_config(snapshot@, app) < snapshot@.len() {
                let s = window_start(*window, start_timestamp as int);
                let e = window_start(*window, end_timestamp as int);
                let pred = count_query_pred(s, e, grouping@, nested_grouping@);
                let matched = buckets_of(
                    store@,
                    collection_name(application_id@, Some(*window)),
                ).filter(pred);
                &&& r is Ok
                &&& r->Ok_0.counts.deep_view() == group_counts(matched)
                &&& r->Ok_0.total_record_count as nat == matched.len()
                &&& r->Ok_0.total_aggregate_count as nat == sum_counts(matched)
            } else {
                r == Err::<CountResponse, EngineError>(EngineError::InvalidApplicationId)
            }
        }),
{
    let app_l = lowercase_id(application_id);
    let ci = find_config_idx(snapshot, app_l.as_str());
    if ci == snapshot.configs.len() {
        return Err(EngineError::InvalidApplicationId);
    }
    let cname = get_collection_name(application_id, Some(window));
    let start = get_timestamp_start(window, start_timestamp);
    let end = get_timestamp_start(window, end_timestamp);
    let grouping_l = to_lowercase_string(grouping);
    let nested_l = to_lowercase_string(nested_grouping);
    let ghost pred = count_query_pred(
        window_start(*window, start_timestamp as int),
        window_start(*window, end_timestamp as int),
        grouping@,
        nested_grouping@,
    );
    let mut counts: Vec<Count> = Vec::new();
    let mut total_record: u64 = 0;
    let mut total_aggregate: u128 = 0;
    let k = store_collection_idx(store, cname.as_str());
    if k == store.collections.len() {
        proof {
            assert(buckets_of(store@, cname@).filter(pred) =~= Seq::<BucketView>::empty());
            assert(counts.deep_view() =~= group_counts(Seq::<BucketView>::empty()));
        }
        return Ok(
            CountResponse {
                total_record_count: total_record,
                total_aggregate_count: total_aggregate,
                counts,
            },
        );
    }
    let col = &store.collections[k];
    let ghost buckets = col@.buckets;
    let mut i: usize = 0;
    proof {
        reveal(Seq::filter);
        assert(buckets.take(0).filter(pred) =~= Seq::<BucketView>::empty());
        assert(counts.deep_view() =~= group_counts(buckets.take(0).filter(pred)));
    }
    while i < col.buckets.len()
        invariant
            i <= col@.buckets.len(),
            buckets == col@.buckets,
            pred == count_query_pred(
                window_start(*window, start_timestamp as int),
                window_start(*window, end_timestamp as int),
                grouping@,
                nested_grouping@,
            ),
            start == window_start(*window, start_timestamp as int),
            end == window_start(*window, end_timestamp as int),
            grouping_l@ == lower_seq(grouping@),
            nested_l@ == lower_seq(nested_grouping@),
            counts.deep_view() == group_counts(buckets.take(i as int).filter(pred)),
            total_record as nat == buckets.take(i as int).filter(pred).len(),
            total_aggregate as nat == sum_counts(buckets.take(i as int).filter(pred)),
            total_record <= i,
            total_aggregate as int <= (i as int) * 0xFFFF_FFFF_FFFF_FFFF,
            forall|x: int|
                0 <= x < counts@.len() ==> (#[trigger] counts@[x]).record_count <= i
                    && counts@[x].aggregate_count as int <= (i as int) * 0xFFFF_FFFF_FFFF_FFFF,
        decreases col@.buckets.len() - i,
    {
        let b = &col.buckets[i];
        let in_range = start <= b.timestamp && b.timestamp <= end;
        let g_match = str_eq(b.grouping.as_str(), grouping_l.as_str());
        let mut n_match = false;
        let mut x: usize = 0;
        while x < b.nested_grouping_ids.len()
            invariant
                x <= b.nested_grouping_ids@.len(),
                nested_l@ == lower_seq(nested_grouping@),
                n_match == exists|y: int|
                    0 <= y < x && b.nested_grouping_ids.deep_view()[y] == lower_seq(
                        nested_grouping@,
                    ),
            decreases b.nested_grouping_ids@.len() - x,
        {
            let hit = str_eq(b.nested_grouping_ids[x].as_str(), nested_l.as_str());
            proof {
                assert(b.nested_grouping_ids.deep_view()[x as int] == b.nested_grouping_ids@[x
                    as int]@);
            }
            if hit {
                n_match = true;
            }
            x = x + 1;
        }
        proof {
            if n_match {
                assert(buckets[i as int].nested_grouping_ids.contains(lower_seq(nested_grouping@)));
            } else {
                if buckets[i as int].nested_grouping_ids.contains(lower_seq(nested_grouping@)) {
                    let y = choose|y: int|
                        0 <= y < buckets[i as int].nested_grouping_ids.len() && buckets[i
                            as int].nested_grouping_ids[y] == lower_seq(nested_grouping@);
                    assert(b.nested_grouping_ids.deep_view()[y] == lower_seq(nested_grouping@));
                }
            }
            assert((in_range && g_match && n_match) == pred(buckets[i as int]));
        }
        let ghost pre_filtered = buckets.take(i as int).filter(pred);
        let ghost pre_counts = counts.deep_view();
        if in_range && g_match && n_match {
            // fold this bucket into its row
            let ghost target = buckets[i as int];
            let ti = find_count_idx(&counts, b.timestamp);
            proof {
                let ii = i as int;
                let m: int = 0xFFFF_FFFF_FFFF_FFFF;
                assert(usize::MAX as int <= m);
                assert(ii + 1 <= m);
                assert((ii + 1) * m == ii * m + m);
                assert((ii + 1) * m <= u128::MAX as int) by (nonlinear_arith)
                    requires
                        0 <= ii + 1 <= m,
                        m == 0xFFFF_FFFF_FFFF_FFFF,
                ;
            }
            if ti < counts.len() {
                proof {
                    assert(target == b@);
                    assert(pre_counts[ti as int].timestamp == target.timestamp);
                }
                let add = col.buckets[i].count as u128;
                let slot = &mut counts[ti];
                slot.aggregate_count = slot.aggregate_count + add;
                slot.record_count = slot.record_count + 1;
                proof {
                    assert(counts.deep_view() =~= bump(pre_counts, target));
                }
            } else {
                counts.push(
                    Count {
                        timestamp: b.timestamp,
                        aggregate_count: b.count as u128,
                        record_count: 1,
                    },
                );
                proof {
                    assert(target == b@);
                    assert(counts.deep_view() =~= bump(pre_counts, target));
                }
            }
            total_record = total_record + 1;
            total_aggregate = total_aggregate + (b.count as u128);
        }
        proof {
            reveal(Seq::filter);
            assert(buckets.take(i + 1).drop_last() =~= buckets.take(i as int));
            assert(buckets.take(i + 1).last() == buckets[i as int]);
            if pred(buckets[i as int]) {
                assert(buckets.take(i + 1).filter(pred) =~= pre_filtered.push(buckets[i as int]));
                assert(buckets.take(i + 1).filter(pred).drop_last() =~= pre_filtered);
            } else {
                assert(buckets.take(i + 1).filter(pred) =~= pre_filtered);
            }
        }
        i = i + 1;
    }
    proof {
        assert(buckets.take(buckets.len() as int) =~= buckets);
    }
    Ok(
        CountResponse {
            total_record_count: total_record,
            total_aggregate_count: total_aggregate,
            counts,
        },
    )
}

/// List a tenant's raw events, rejecting unknown tenants.
pub fn all_events(store: &Store, snapshot: &ConfigSnapshot, application_id: &String) -> (r: Result<
    Vec<Event>,
    EngineError,
>)
    ensures
        ({
            let app = lower_seq(application_id@);
            if find_config(snapshot@, app) < snapshot@.len() {
                r is Ok && r->Ok_0.deep_view() == events_of(
                    store@,
                    collection_name(application_id@, None),
                )
            } else {
                r == Err::<Vec<Event>, EngineError>(EngineError::InvalidApplicationId)
            }
        }),
{
    let app_l = lowercase_id(application_id);
    let ci = find_config_idx(snapshot, app_l.as_str());
    if ci == snapshot.configs.len() {
        return Err(EngineError::InvalidApplicationId);
    }
    let cname = get_collection_name(application_id, None);
    let mut out: Vec<Event> = Vec::new();
    let k = store_collection_idx(store, cname.as_str());
    if k == store.collections.len() {
        proof {
            assert(out.deep_view() =~= events_of(store@, cname@));
        }
        return Ok(out);
    }
    let col = &store.collections[k];
    let mut i: usize = 0;
    while i < col.events.len()
        invariant
            i <= col@.events.len(),
            col == &store.collections[k as int],
            k < store@.collections.len(),
            out.deep_view() == col@.events.take(i as int),
        decreases col@.events.len() - i,
    {
        let ghost pre = out.deep_view();
        out.push(col.events[i].duplicate());
        proof {
            assert(out.deep_view() =~= pre.push(col@.events[i as int]));
            assert(col@.events.take(i + 1) =~= col@.events.take(i as int).push(
                col@.events[i as int],
            ));
        }
        i = i + 1;
    }
    proof {
        assert(col@.events.take(col@.events.len() as int) =~= col@.events);
    }
    Ok(out)
}

} // verus!
