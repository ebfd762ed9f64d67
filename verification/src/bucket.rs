//! The rollup bucket record and the idempotent-merge semantics that every
//! write applies to it: descriptive fields are overwritten, the count grows by
//! one, and the event history is appended to.
use vstd::prelude::*;

use crate::models::EmbeddedEvent;
use crate::models::EmbeddedEventView;
use crate::models::WindowType;

verus! {

/// Mathematical view of a bucket.
#[verifier::ext_equal]
pub struct BucketView {
    pub hash: Seq<char>,
    pub application_id: Seq<char>,
    pub grouping: Seq<char>,
    pub grouping_id: Seq<char>,
    pub nested_grouping_ids: Seq<Seq<char>>,
    pub window: WindowType,
    pub timestamp: int,
    pub events: Seq<EmbeddedEventView>,
    pub event_ids: Seq<Seq<char>>,
    pub count: nat,
}

impl BucketView {
    /// A bucket's count always equals the number of summaries in its history:
    /// both advance by exactly one per merge.
    pub open spec fn wf(self) -> bool {
        self.count == self.events.len()
    }

    /// The descriptive fields: everything a merge overwrites rather than
    /// accumulates.
    pub open spec fn descriptive_fields(self) -> (
        Seq<char>,
        Seq<char>,
        Seq<char>,
        Seq<Seq<char>>,
        WindowType,
        int,
    ) {
        (
            self.application_id,
            self.grouping,
            self.grouping_id,
            self.nested_grouping_ids,
            self.window,
            self.timestamp,
        )
    }
}

/// The aggregate record keyed by window, bucket start and grouping id.
#[derive(Debug)]
pub struct Bucket {
    /// The primary key: `window|bucketStart|groupingId`.
    pub hash: String,
    pub application_id: String,
    /// The raw grouping definition, e.g. `country|city`.
    pub grouping: String,
    /// The resolved value string, e.g. `us|nyc`.
    pub grouping_id: String,
    /// Resolved value strings of every configured strict-prefix grouping.
    pub nested_grouping_ids: Vec<String>,
    pub window: WindowType,
    /// Bucket-start timestamp, or `-1` for the all-time window.
    pub timestamp: i64,
    /// Lightweight summaries of the merged events, in arrival order.
    pub events: Vec<EmbeddedEvent>,
    /// Ids of durably stored raw events, when the tenant logs them.
    pub event_ids: Vec<String>,
    /// The number of merges applied to this identity.
    pub count: usize,
}

impl View for Bucket {
    type V = BucketView;

    open spec fn view(&self) -> BucketView {
        BucketView {
            hash: self.hash@,
            application_id: self.application_id@,
            grouping: self.grouping@,
            grouping_id: self.grouping_id@,
            nested_grouping_ids: self.nested_grouping_ids.deep_view(),
            window: self.window,
            timestamp: self.timestamp as int,
            events: self.events.deep_view(),
            event_ids: self.event_ids.deep_view(),
            count: self.count as nat,
        }
    }
}

impl DeepView for Bucket {
    type V = BucketView;

    open spec fn deep_view(&self) -> BucketView {
        self.view()
    }
}

/// Mathematical view of one merge instruction.
#[verifier::ext_equal]
pub struct MergeInstructionView {
    pub collection: Seq<char>,
    pub bucket_id: Seq<char>,
    pub application_id: Seq<char>,
    pub grouping: Seq<char>,
    pub grouping_id: Seq<char>,
    pub nested_grouping_ids: Seq<Seq<char>>,
    pub window: WindowType,
    pub bucket_start: int,
    pub embedded: EmbeddedEventView,
    pub event_id: Option<Seq<char>>,
}

/// One fully resolved merge: the namespace and bucket identity to write to,
/// the descriptive fields to overwrite, and the payload to append.
#[derive(Debug)]
pub struct MergeInstruction {
    pub collection: String,
    pub bucket_id: String,
    pub application_id: String,
    pub grouping: String,
    pub grouping_id: String,
    pub nested_grouping_ids: Vec<String>,
    pub window: WindowType,
    pub bucket_start: i64,
    pub embedded: EmbeddedEvent,
    pub event_id: Option<String>,
}

impl View for MergeInstruction {
    type V = MergeInstructionView;

    open spec fn view(&self) -> MergeInstructionView {
        MergeInstructionView {
            collection: self.collection@,
            bucket_id: self.bucket_id@,
            application_id: self.application_id@,
            grouping: self.grouping@,
            grouping_id: self.grouping_id@,
            nested_grouping_ids: self.nested_grouping_ids.deep_view(),
            window: self.window,
            bucket_start: self.bucket_start as int,
            embedded: self.embedded@,
            event_id: self.event_id.deep_view(),
        }
    }
}

impl DeepView for MergeInstruction {
    type V = MergeInstructionView;

    open spec fn deep_view(&self) -> MergeInstructionView {
        self.view()
    }
}

impl MergeInstructionView {
    /// The descriptive fields an instruction writes.
    pub open spec fn descriptive_fields(self) -> (
        Seq<char>,
        Seq<char>,
        Seq<char>,
        Seq<Seq<char>>,
        WindowType,
        int,
    ) {
        (
            self.application_id,
            self.grouping,
            self.grouping_id,
            self.nested_grouping_ids,
            self.window,
            self.bucket_start,
        )
    }
}

/// The bucket after one merge: descriptive fields overwritten from the
/// instruction, count incremented by one, the summary appended, and the raw
/// event id appended when one exists. The identity is untouched.
pub open spec fn merged_bucket(b: BucketView, i: MergeInstructionView) -> BucketView {
    BucketView {
        hash: b.hash,
        application_id: i.application_id,
        grouping: i.grouping,
        grouping_id: i.grouping_id,
        nested_grouping_ids: i.nested_grouping_ids,
        window: i.window,
        timestamp: i.bucket_start,
        events: b.events.push(i.embedded),
        event_ids: match i.event_id {
            Some(e) => b.event_ids.push(e),
            None => b.event_ids,
        },
        count: b.count + 1,
    }
}

/// The bucket that a merge creates when none exists under the identity yet.
pub open spec fn fresh_bucket(i: MergeInstructionView) -> BucketView {
    BucketView {
        hash: i.bucket_id,
        application_id: i.application_id,
        grouping: i.grouping,
        grouping_id: i.grouping_id,
        nested_grouping_ids: i.nested_grouping_ids,
        window: i.window,
        timestamp: i.bucket_start,
        events: seq![i.embedded],
        event_ids: match i.event_id {
            Some(e) => seq![e],
            None => Seq::empty(),
        },
        count: 1,
    }
}

/// Copy a vector of strings, preserving its view.
pub fn clone_string_vec(v: &Vec<String>) -> (r: Vec<String>)
    ensures
        r.deep_view() == v.deep_view(),
{
    let mut r: Vec<String> = Vec::new();
    let mut i: usize = 0;
    while i < v.len()
        invariant
            i <= v@.len(),
            r.deep_view() == v.deep_view().take(i as int),
        decreases v@.len() - i,
    {
        let ghost pre = r.deep_view();
        r.push(v[i].clone());
        proof {
            assert(r.deep_view() =~= pre.push(v.deep_view()[i as int]));
            assert(v.deep_view().take(i + 1) =~= v.deep_view().take(i as int).push(
                v.deep_view()[i as int],
            ));
        }
        i = i + 1;
    }
    proof {
        assert(v.deep_view().take(v.deep_view().len() as int) =~= v.deep_view());
    }
    r
}

/// Copy an optional string, preserving its view.
pub fn clone_opt_string(v: &Option<String>) -> (r: Option<String>)
    ensures
        r.deep_view() == v.deep_view(),
{
    match v {
        Some(s) => Some(s.clone()),
        None => None,
    }
}

impl EmbeddedEvent {
    /// Copy this summary, preserving its view.
    pub fn duplicate(&self) -> (r: EmbeddedEvent)
        ensures
            r@ == self@,
    {
        EmbeddedEvent {
            timestamp: self.timestamp,
            raw_timestamp: self.raw_timestamp,
            ip_address: clone_opt_string(&self.ip_address),
            event_type: clone_opt_string(&self.event_type),
        }
    }
}

impl Bucket {
    /// Copy this bucket, preserving its view.
    pub fn duplicate(&self) -> (r: Bucket)
        ensures
            r@ == self@,
    {
        let mut events: Vec<EmbeddedEvent> = Vec::new();
        let mut i: usize = 0;
        while i < self.events.len()
            invariant
                i <= self.events@.len(),
                events.deep_view() == self.events.deep_view().take(i as int),
            decreases self.events@.len() - i,
        {
            let ghost pre = events.deep_view();
            events.push(self.events[i].duplicate());
            proof {
                assert(events.deep_view() =~= pre.push(self.events.deep_view()[i as int]));
                assert(self.events.deep_view().take(i + 1) =~= self.events.deep_view().take(
                    i as int,
                ).push(self.events.deep_view()[i as int]));
            }
            i = i + 1;
        }
        proof {
            assert(self.events.deep_view().take(self.events.deep_view().len() as int)
                =~= self.events.deep_view());
        }
        let r = Bucket {
            hash: self.hash.clone(),
            application_id: self.application_id.clone(),
            grouping: self.grouping.clone(),
            grouping_id: self.grouping_id.clone(),
            nested_grouping_ids: clone_string_vec(&self.nested_grouping_ids),
            window: self.window,
            timestamp: self.timestamp,
            events,
            event_ids: clone_string_vec(&self.event_ids),
            count: self.count,
        };
        proof {
            assert(r@ =~= self@);
        }
        r
    }
}

/// The page of a bucket's history selected by `limit` and `skip`: empty when
/// `skip` is negative or past the end, clamped to the remaining entries, with
/// a negative `limit` meaning "all remaining" and a missing one meaning ten.
pub open spec fn events_page(
    evs: Seq<EmbeddedEventView>,
    limit: Option<i32>,
    skip: Option<i32>,
) -> Seq<EmbeddedEventView> {
    let sk = match skip {
        Some(s) => s as int,
        None => 0,
    };
    let li = match limit {
        Some(l) => l as int,
        None => 10,
    };
    if sk < 0 || sk > evs.len() {
        Seq::empty()
    } else {
        let cnt = if li < 0 || sk + li > evs.len() {
            evs.len() - sk
        } else {
            li
        };
        evs.subrange(sk, sk + cnt)
    }
}

impl Bucket {
    /// A page of the bucket's event history.
    pub fn events(&self, limit: Option<i32>, skip: Option<i32>) -> (r: Vec<EmbeddedEvent>)
        ensures
            r.deep_view() == events_page(self@.events, limit, skip),
    {
        let len = self.events.len();
        let sk32: i32 = match skip {
            Some(s) => s,
            None => 0,
        };
        if sk32 < 0 {
            let r: Vec<EmbeddedEvent> = Vec::new();
            proof {
                assert(r.deep_view() =~= events_page(self@.events, limit, skip));
            }
            return r;
        }
        let sk = sk32 as usize;
        if sk > len {
            let r: Vec<EmbeddedEvent> = Vec::new();
            proof {
                assert(r.deep_view() =~= events_page(self@.events, limit, skip));
            }
            return r;
        }
        let li32: i32 = match limit {
            Some(l) => l,
            None => 10,
        };
        let cnt: usize = if li32 < 0 {
            len - sk
        } else {
            let li = li32 as usize;
            if li > len - sk {
                len - sk
            } else {
                li
            }
        };
        let mut r: Vec<EmbeddedEvent> = Vec::new();
        let mut j: usize = 0;
        while j < cnt
            invariant
                j <= cnt,
                len == self.events@.len(),
                sk + cnt <= len,
                r.deep_view() == self.events.deep_view().subrange(sk as int, sk + j),
            decreases cnt - j,
        {
            let ghost pre = r.deep_view();
            r.push(self.events[sk + j].duplicate());
            proof {
                assert(r.deep_view() =~= pre.push(self.events.deep_view()[sk + j]));
                assert(self.events.deep_view().subrange(sk as int, sk + j + 1)
                    =~= self.events.deep_view().subrange(sk as int, sk + j).push(
                    self.events.deep_view()[sk + j],
                ));
            }
            j = j + 1;
        }
        proof {
            assert(r.deep_view() =~= events_page(self@.events, limit, skip));
        }
        r
    }
}

/// Apply one merge to an existing bucket, atomically from the caller's view:
/// overwrite the descriptive fields, increment the count, append the payload.
pub fn merge_into(b: &mut Bucket, inst: &MergeInstruction)
    requires
        old(b)@.wf(),
    ensures
        final(b)@ == merged_bucket(old(b)@, inst@),
        final(b)@.wf(),
{
    b.application_id = inst.application_id.clone();
    b.grouping = inst.grouping.clone();
    b.grouping_id = inst.grouping_id.clone();
    b.nested_grouping_ids = clone_string_vec(&inst.nested_grouping_ids);
    b.window = inst.window;
    b.timestamp = inst.bucket_start;
    b.events.push(inst.embedded.duplicate());
    b.count = b.events.len();
    match &inst.event_id {
        Some(e) => {
            b.event_ids.push(e.clone());
        },
        None => {
        },
    }
    proof {
        assert(b@ =~= merged_bucket(old(b)@, inst@));
    }
}

/// The bucket a merge creates under a previously unused identity.
pub fn new_bucket_from(inst: &MergeInstruction) -> (r: Bucket)
    ensures
        r@ == fresh_bucket(inst@),
        r@.wf(),
{
    let mut events: Vec<EmbeddedEvent> = Vec::new();
    events.push(inst.embedded.duplicate());
    let mut event_ids: Vec<String> = Vec::new();
    match &inst.event_id {
        Some(e) => {
            event_ids.push(e.clone());
        },
        None => {
        },
    }
    let r = Bucket {
        hash: inst.bucket_id.clone(),
        application_id: inst.application_id.clone(),
        grouping: inst.grouping.clone(),
        grouping_id: inst.grouping_id.clone(),
        nested_grouping_ids: clone_string_vec(&inst.nested_grouping_ids),
        window: inst.window,
        timestamp: inst.bucket_start,
        events,
        event_ids,
        count: 1,
    };
    proof {
        assert(r@ =~= fresh_bucket(inst@));
    }
    r
}

/// Descriptive fields are idempotent under merging while the history is
/// strictly additive: two merges carrying the same descriptive fields but
/// different payloads leave those fields exactly as either merge wrote them,
/// while the count grows by two and the history gains two entries.
pub proof fn lemma_merge_descriptive_idempotent(
    b: BucketView,
    i1: MergeInstructionView,
    i2: MergeInstructionView,
)
    requires
        i1.descriptive_fields() == i2.descriptive_fields(),
    ensures
        merged_bucket(merged_bucket(b, i1), i2).descriptive_fields() == merged_bucket(
            b,
            i1,
        ).descriptive_fields(),
        merged_bucket(merged_bucket(b, i1), i2).count == b.count + 2,
        merged_bucket(merged_bucket(b, i1), i2).events.len() == b.events.len() + 2,
        merged_bucket(merged_bucket(b, i1), i2).hash == b.hash,
{
}

} // verus!
