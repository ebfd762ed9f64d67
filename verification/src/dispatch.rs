//! The aggregation dispatcher: fans one incoming event out across every
//! configured window and grouping of its tenant, building one merge
//! instruction per pair and applying them to the store. A failure on one pair
//! never prevents the remaining pairs' merges.
use vstd::arithmetic::div_mod::lemma_fundamental_div_mod_converse;
use vstd::prelude::*;

use crate::bucket::MergeInstruction;
use crate::bucket::MergeInstructionView;
use crate::bucket::clone_opt_string;
use crate::config::ConfigSnapshot;
use crate::config::find_config;
use crate::config::find_config_idx;
use crate::grouping::attr_lookup_opt;
use crate::grouping::collection_name;
use crate::grouping::get_collection_name;
use crate::grouping::get_group_id;
use crate::grouping::get_hash_id;
use crate::grouping::get_nested_groupings;
use crate::grouping::group_id;
use crate::grouping::hash_id;
use crate::grouping::lookup_attr_opt;
use crate::grouping::lowercase_id;
use crate::grouping::nested_groups;
use crate::models::Config;
use crate::models::ConfigView;
use crate::models::EmbeddedEvent;
use crate::models::EmbeddedEventView;
use crate::models::EngineError;
use crate::models::KeyPair;
use crate::models::KeyPairView;
use crate::models::LogEventResult;
use crate::models::NewEvent;
use crate::models::NewEventView;
use crate::models::WindowType;
use crate::models::attrs_of;
use crate::models::clone_keypair_vec;
use crate::models::lower_attrs;
use crate::models::lowercased_pairs;
use crate::store::Store;
use crate::store::StoreView;
use crate::store::apply_inst;
use crate::store::apply_instruction;
use crate::store::insert_event;
use crate::store::insert_event_spec;
use crate::text::lower_seq;
use crate::window::get_timestamp_start;
use crate::window::window_start;

verus! {

/// The summary a merge appends to the bucket history: the event timestamp,
/// the receipt timestamp, and the optional descriptive attributes it carries.
pub open spec fn embedded_for(keys: Seq<KeyPairView>, ts: int, receipt: int) -> EmbeddedEventView {
    EmbeddedEventView {
        timestamp: ts,
        raw_timestamp: receipt,
        ip_address: attr_lookup_opt(keys, "ipaddress"@),
        event_type: attr_lookup_opt(keys, "eventtype"@),
    }
}

/// The merge instruction for one (window, grouping) pair of the fan-out.
pub open spec fn instruction_at(
    cfg: ConfigView,
    app: Seq<char>,
    keys: Seq<KeyPairView>,
    ts: int,
    receipt: int,
    inserted: Option<Seq<char>>,
    w: WindowType,
    g: Seq<char>,
) -> MergeInstructionView {
    MergeInstructionView {
        collection: collection_name(app, Some(w)),
        bucket_id: hash_id(w, window_start(w, ts), group_id(g, keys)),
        application_id: app,
        grouping: g,
        grouping_id: group_id(g, keys),
        nested_grouping_ids: nested_groups(g, cfg.groups).map_values(
            |ng: Seq<char>| group_id(ng, keys),
        ),
        window: w,
        bucket_start: window_start(w, ts),
        embedded: embedded_for(keys, ts, receipt),
        event_id: inserted,
    }
}

/// The full fan-out plan: one instruction per (window, grouping) pair, windows
/// outermost, in configuration order.
pub open spec fn merge_plan(
    cfg: ConfigView,
    app: Seq<char>,
    keys: Seq<KeyPairView>,
    ts: int,
    receipt: int,
    inserted: Option<Seq<char>>,
) -> Seq<MergeInstructionView> {
    Seq::new(
        cfg.windows.len() * cfg.groups.len(),
        |n: int|
            instruction_at(
                cfg,
                app,
                keys,
                ts,
                receipt,
                inserted,
                cfg.windows[n / cfg.groups.len() as int],
                cfg.groups[n % cfg.groups.len() as int],
            ),
    )
}

/// Build the embedded summary an event contributes to each of its buckets.
pub fn build_embedded(keys: &Vec<KeyPair>, timestamp: i32, receipt: i64) -> (r: EmbeddedEvent)
    ensures
        r@ == embedded_for(keys.deep_view(), timestamp as int, receipt as int),
{
    let ip_key = String::from_str("ipaddress");
    let et_key = String::from_str("eventtype");
    let ip = lookup_attr_opt(keys, &ip_key);
    let et = lookup_attr_opt(keys, &et_key);
    let r = EmbeddedEvent { timestamp, raw_timestamp: receipt, ip_address: ip, event_type: et };
    proof {
        assert(attrs_of(keys@) =~= keys.deep_view());
        assert(r@ =~= embedded_for(keys.deep_view(), timestamp as int, receipt as int));
    }
    r
}

/// Build the fan-out plan for one event under one tenant's configuration:
/// the cartesian product of configured windows and grouping definitions, each
/// pair resolved to a fully addressed merge instruction.
pub fn build_merge_plan(
    config: &Config,
    application_id: &String,
    keys: &Vec<KeyPair>,
    timestamp: i32,
    receipt: i64,
    inserted_id: &Option<String>,
) -> (plan: Vec<MergeInstruction>)
    ensures
        plan.deep_view() == merge_plan(
            config@,
            application_id@,
            keys.deep_view(),
            timestamp as int,
            receipt as int,
            inserted_id.deep_view(),
        ),
{
    let ghost cfg = config@;
    let ghost kdv = keys.deep_view();
    let ghost full = merge_plan(
        cfg,
        application_id@,
        kdv,
        timestamp as int,
        receipt as int,
        inserted_id.deep_view(),
    );
    let embedded = build_embedded(keys, timestamp, receipt);
    let w_count = config.windows.len();
    let g_count = config.groups.len();
    let mut plan: Vec<MergeInstruction> = Vec::new();
    let mut i: usize = 0;
    proof {
        assert(plan.deep_view() =~= full.take(0));
    }
    while i < w_count
        invariant
            i <= w_count,
            w_count == cfg.windows.len(),
            g_count == cfg.groups.len(),
            cfg == config@,
            kdv == keys.deep_view(),
            full == merge_plan(
                cfg,
                application_id@,
                kdv,
                timestamp as int,
                receipt as int,
                inserted_id.deep_view(),
            ),
            embedded@ == embedded_for(kdv, timestamp as int, receipt as int),
            plan.deep_view() == full.take(i as int * g_count as int),
        decreases w_count - i,
    {
        let mut j: usize = 0;
        while j < g_count
            invariant
                j <= g_count,
                i < w_count,
                w_count == cfg.windows.len(),
                g_count == cfg.groups.len(),
                cfg == config@,
                kdv == keys.deep_view(),
                full == merge_plan(
                    cfg,
                    application_id@,
                    kdv,
                    timestamp as int,
                    receipt as int,
                    inserted_id.deep_view(),
                ),
                embedded@ == embedded_for(kdv, timestamp as int, receipt as int),
                plan.deep_view() == full.take(i as int * g_count as int + j as int),
            decreases g_count - j,
        {
            let ghost n = i as int * g_count as int + j as int;
            let w = config.windows[i];
            let ts_start = get_timestamp_start(&w, timestamp);
            let bucket_id = get_hash_id(&w, config.groups[j].as_str(), keys, ts_start);
            let gid = get_group_id(config.groups[j].as_str(), keys);
            let nested = get_nested_groupings(config.groups[j].as_str(), &config.groups);
            let ghost gidf = |ng: Seq<char>| group_id(ng, kdv);
            let mut nested_ids: Vec<String> = Vec::new();
            let mut k: usize = 0;
            proof {
                assert(nested_ids.deep_view() =~= nested.deep_view().take(0).map_values(gidf));
            }
            while k < nested.len()
                invariant
                    k <= nested@.len(),
                    kdv == keys.deep_view(),
                    gidf == (|ng: Seq<char>| group_id(ng, kdv)),
                    nested_ids.deep_view() == nested.deep_view().take(k as int).map_values(gidf),
                decreases nested@.len() - k,
            {
                let ghost pre = nested_ids.deep_view();
                nested_ids.push(get_group_id(nested[k].as_str(), keys));
                proof {
                    assert(attrs_of(keys@) =~= kdv);
                    assert(nested@[k as int]@ == nested.deep_view()[k as int]);
                    assert(nested_ids.deep_view() =~= pre.push(
                        gidf(nested.deep_view()[k as int]),
                    ));
                    assert(nested.deep_view().take(k + 1).map_values(gidf)
                        =~= nested.deep_view().take(k as int).map_values(gidf).push(
                        gidf(nested.deep_view()[k as int]),
                    ));
                }
                k = k + 1;
            }
            proof {
                assert(nested.deep_view().take(nested.deep_view().len() as int)
                    =~= nested.deep_view());
            }
            let inst = MergeInstruction {
                collection: get_collection_name(application_id, Some(&w)),
                bucket_id,
                application_id: application_id.clone(),
                grouping: config.groups[j].clone(),
                grouping_id: gid,
                nested_grouping_ids: nested_ids,
                window: w,
                bucket_start: ts_start,
                embedded: embedded.duplicate(),
                event_id: clone_opt_string(inserted_id),
            };
            let ghost pre_plan = plan.deep_view();
            plan.push(inst);
            proof {
                let gc = g_count as int;
                let wc = w_count as int;
                let ii = i as int;
                let jj = j as int;
                assert(ii * gc + jj < wc * gc) by (nonlinear_arith)
                    requires
                        0 <= ii < wc,
                        0 <= jj < gc,
                ;
                assert(0 <= n < full.len());
                lemma_fundamental_div_mod_converse(n, g_count as int, i as int, j as int);
                assert(attrs_of(keys@) =~= kdv);
                assert(config.groups@[j as int]@ == cfg.groups[j as int]);
                assert(inst@ =~~= full[n]);
                assert(plan.deep_view() =~= pre_plan.push(inst@));
                assert(full.take(n + 1) =~= full.take(n).push(full[n]));
            }
            j = j + 1;
        }
        proof {
            assert((i as int + 1) * g_count as int == i as int * g_count as int + g_count as int)
                by (nonlinear_arith);
        }
        i = i + 1;
    }
    proof {
        assert(w_count as int * g_count as int == full.len());
        assert(full.take(full.len() as int) =~= full);
    }
    plan
}

/// The store after applying a plan in order.
pub open spec fn apply_plan_spec(s: StoreView, plan: Seq<MergeInstructionView>) -> StoreView
    decreases plan.len(),
{
    if plan.len() == 0 {
        s
    } else {
        apply_inst(apply_plan_spec(s, plan.drop_last()), plan.last())
    }
}

/// The store after applying a plan whose instructions fail where the mask
/// says so: a failed pair leaves the store exactly as the previous pairs did.
pub open spec fn apply_plan_masked_spec(
    s: StoreView,
    plan: Seq<MergeInstructionView>,
    fail: Seq<bool>,
) -> StoreView
    decreases plan.len(),
{
    if plan.len() == 0 {
        s
    } else {
        let prev = apply_plan_masked_spec(s, plan.drop_last(), fail.drop_last());
        if fail.last() {
            prev
        } else {
            apply_inst(prev, plan.last())
        }
    }
}

/// The instructions that survive a failure mask, in plan order.
pub open spec fn surviving(plan: Seq<MergeInstructionView>, fail: Seq<bool>) -> Seq<
    MergeInstructionView,
>
    decreases plan.len(),
{
    if plan.len() == 0 {
        Seq::empty()
    } else {
        let p = surviving(plan.drop_last(), fail.drop_last());
        if fail.last() {
            p
        } else {
            p.push(plan.last())
        }
    }
}

/// A merge failure on one (window, grouping) pair does not prevent the
/// remaining pairs' buckets from being created or updated: the store after a
/// masked run is exactly the store after applying the surviving instructions
/// alone.
pub proof fn lemma_merge_failures_independent(
    s: StoreView,
    plan: Seq<MergeInstructionView>,
    fail: Seq<bool>,
)
    requires
        plan.len() == fail.len(),
    ensures
        apply_plan_masked_spec(s, plan, fail) == apply_plan_spec(s, surviving(plan, fail)),
    decreases plan.len(),
{
    if plan.len() > 0 {
        lemma_merge_failures_independent(s, plan.drop_last(), fail.drop_last());
        if !fail.last() {
            let p = surviving(plan.drop_last(), fail.drop_last());
            assert(p.push(plan.last()).drop_last() =~= p);
            assert(p.push(plan.last()).last() == plan.last());
        }
    }
}

/// Apply every instruction of a plan to the store, in order.
pub fn apply_plan(store: &mut Store, plan: &Vec<MergeInstruction>)
    requires
        old(store)@.wf(),
    ensures
        final(store)@ == apply_plan_spec(old(store)@, plan.deep_view()),
        final(store)@.wf(),
{
    let ghost s0 = old(store)@;
    let ghost pdv = plan.deep_view();
    let mut i: usize = 0;
    proof {
        assert(pdv.take(0) =~= Seq::<MergeInstructionView>::empty());
    }
    while i < plan.len()
        invariant
            i <= plan@.len(),
            pdv == plan.deep_view(),
            pdv.len() == plan@.len(),
            store@ == apply_plan_spec(s0, pdv.take(i as int)),
            store@.wf(),
        decreases plan@.len() - i,
    {
        apply_instruction(store, &plan[i]);
        proof {
            assert(pdv.take(i + 1).drop_last() =~= pdv.take(i as int));
            assert(pdv.take(i + 1).last() == pdv[i as int]);
            assert(plan@[i as int]@ == pdv[i as int]);
        }
        i = i + 1;
    }
    proof {
        assert(pdv.take(pdv.len() as int) =~= pdv);
    }
}

/// Apply a plan under a failure mask: the instruction of each masked pair is
/// skipped, every other pair is merged, and the per-pair outcomes are
/// returned in plan order.
pub fn apply_plan_masked(store: &mut Store, plan: &Vec<MergeInstruction>, fail: &Vec<bool>) -> (r:
    Vec<bool>)
    requires
        old(store)@.wf(),
        fail@.len() == plan@.len(),
    ensures
        final(store)@ == apply_plan_masked_spec(old(store)@, plan.deep_view(), fail@),
        final(store)@.wf(),
        r@.len() == plan@.len(),
        forall|k: int| 0 <= k < r@.len() ==> r@[k] == !fail@[k],
{
    let ghost s0 = old(store)@;
    let ghost pdv = plan.deep_view();
    let mut r: Vec<bool> = Vec::new();
    let mut i: usize = 0;
    proof {
        assert(pdv.take(0) =~= Seq::<MergeInstructionView>::empty());
        assert(fail@.take(0) =~= Seq::<bool>::empty());
    }
    while i < plan.len()
        invariant
            i <= plan@.len(),
            pdv == plan.deep_view(),
            pdv.len() == plan@.len(),
            fail@.len() == plan@.len(),
            store@ == apply_plan_masked_spec(s0, pdv.take(i as int), fail@.take(i as int)),
            store@.wf(),
            r@.len() == i,
            forall|k: int| 0 <= k < i ==> r@[k] == !fail@[k],
        decreases plan@.len() - i,
    {
        if !fail[i] {
            apply_instruction(store, &plan[i]);
            r.push(true);
        } else {
            r.push(false);
        }
        proof {
            assert(pdv.take(i + 1).drop_last() =~= pdv.take(i as int));
            assert(fail@.take(i + 1).drop_last() =~= fail@.take(i as int));
            assert(pdv.take(i + 1).last() == pdv[i as int]);
            assert(fail@.take(i + 1).last() == fail@[i as int]);
            assert(plan@[i as int]@ == pdv[i as int]);
        }
        i = i + 1;
    }
    proof {
        assert(pdv.take(pdv.len() as int) =~= pdv);
        assert(fail@.take(fail@.len() as int) =~= fail@);
    }
    r
}

/// The store after logging one event under a configuration, paired with the
/// id the raw-event log assigned when the tenant stores raw events.
pub open spec fn store_after_log(
    s: StoreView,
    cfg: ConfigView,
    app: Seq<char>,
    keys: Seq<KeyPairView>,
    ts: int,
    receipt: int,
) -> (StoreView, Option<Seq<char>>) {
    let pre = if cfg.log_all_events == Some(true) {
        let ins = insert_event_spec(s, collection_name(app, None), keys, ts);
        (ins.0, Some(ins.1))
    } else {
        (s, None)
    };
    (apply_plan_spec(pre.0, merge_plan(cfg, app, keys, ts, receipt, pre.1)), pre.1)
}

/// Log one event: reject unknown tenants before any merge; otherwise
/// lowercase the attributes, store the raw event when the tenant asks for it,
/// and fan the event out across every configured (window, grouping) pair.
/// `receipt` is the wall-clock arrival time recorded in the summaries.
pub fn log_event(
    store: &mut Store,
    snapshot: &ConfigSnapshot,
    application_id: &String,
    new_event: &NewEvent,
    receipt: i64,
) -> (r: Result<LogEventResult, EngineError>)
    requires
        old(store)@.wf(),
    ensures
        final(store)@.wf(),
        ({
            let app = lower_seq(application_id@);
            let ci = find_config(snapshot@, app);
            if ci < snapshot@.len() {
                let outcome = store_after_log(
                    old(store)@,
                    snapshot@[ci],
                    app,
                    lower_attrs(new_event@.keys),
                    new_event@.timestamp,
                    receipt as int,
                );
                &&& final(store)@ == outcome.0
                &&& r is Ok
                &&& r->Ok_0.success == true
                &&& r->Ok_0.inserted_id.deep_view() == outcome.1
            } else {
                &&& final(store)@ == old(store)@
                &&& r == Err::<LogEventResult, EngineError>(EngineError::InvalidApplicationId)
            }
        }),
{
    let app_l = lowercase_id(application_id);
    let ci = find_config_idx(snapshot, app_l.as_str());
    if ci == snapshot.configs.len() {
        return Err(EngineError::InvalidApplicationId);
    }
    let keys = lowercased_pairs(&new_event.keys);
    let config = &snapshot.configs[ci];
    proof {
        assert(config@ == snapshot@[ci as int]);
    }
    let inserted_id: Option<String> = if matches!(config.log_all_events, Some(true)) {
        let name = get_collection_name(&app_l, None);
        let id = insert_event(store, &name, clone_keypair_vec(&keys), new_event.timestamp);
        Some(id)
    } else {
        None
    };
    let plan = build_merge_plan(config, &app_l, &keys, new_event.timestamp, receipt, &inserted_id);
    apply_plan(store, &plan);
    Ok(LogEventResult { success: true, inserted_id })
}

/// Relies on std::time's SystemTime::now and duration_since: the seconds
/// elapsed since the Unix epoch, or zero should the clock read earlier than
/// the epoch. The value depends on the wall clock, so nothing is promised of
/// it.
#[verifier::external_body]
fn clock_seconds() -> u64 {
    std::time::SystemTime::now().duration_since(std::time::SystemTime::UNIX_EPOCH).map(
        |d| d.as_secs(),
    ).unwrap_or(0)
}

/// The wall-clock time in seconds since the Unix epoch, used as the receipt
/// timestamp of incoming events. Nothing is promised of its value: callers
/// treat it as an arbitrary reading.
pub fn now() -> u64 {
    clock_seconds()
}

/// The store after logging a batch of events in order for one tenant.
pub open spec fn batch_spec(
    s: StoreView,
    cfgs: Seq<ConfigView>,
    app: Seq<char>,
    events: Seq<NewEventView>,
    receipt: int,
) -> StoreView
    decreases events.len(),
{
    if events.len() == 0 {
        s
    } else {
        let prev = batch_spec(s, cfgs, app, events.drop_last(), receipt);
        let ci = find_config(cfgs, app);
        if ci < cfgs.len() {
            store_after_log(
                prev,
                cfgs[ci],
                app,
                lower_attrs(events.last().keys),
                events.last().timestamp,
                receipt,
            ).0
        } else {
            prev
        }
    }
}

/// Log a batch of events for one tenant, collecting one outcome per event in
/// order; an event that fails leaves its outcome unsuccessful and does not
/// stop the rest.
pub fn log_events(
    store: &mut Store,
    snapshot: &ConfigSnapshot,
    application_id: &String,
    events: &Vec<NewEvent>,
    receipt: i64,
) -> (results: Vec<LogEventResult>)
    requires
        old(store)@.wf(),
    ensures
        final(store)@.wf(),
        final(store)@ == batch_spec(
            old(store)@,
            snapshot@,
            lower_seq(application_id@),
            events.deep_view(),
            receipt as int,
        ),
        results@.len() == events@.len(),
        forall|k: int|
            0 <= k < results@.len() ==> results@[k].success == (find_config(
                snapshot@,
                lower_seq(application_id@),
            ) < snapshot@.len()),
{
    let ghost s0 = old(store)@;
    let ghost edv = events.deep_view();
    let ghost app = lower_seq(application_id@);
    let mut results: Vec<LogEventResult> = Vec::new();
    let mut i: usize = 0;
    proof {
        assert(edv.take(0) =~= Seq::<NewEventView>::empty());
    }
    while i < events.len()
        invariant
            i <= events@.len(),
            edv == events.deep_view(),
            edv.len() == events@.len(),
            app == lower_seq(application_id@),
            store@ == batch_spec(s0, snapshot@, app, edv.take(i as int), receipt as int),
            store@.wf(),
            results@.len() == i,
            forall|k: int|
                0 <= k < i ==> results@[k].success == (find_config(snapshot@, app)
                    < snapshot@.len()),
        decreases events@.len() - i,
    {
        match log_event(store, snapshot, application_id, &events[i], receipt) {
            Ok(result) => {
                results.push(result);
            },
            Err(_) => {
                results.push(LogEventResult { success: false, inserted_id: None });
            },
        }
        proof {
            assert(edv.take(i + 1).drop_last() =~= edv.take(i as int));
            assert(edv.take(i + 1).last() == edv[i as int]);
            assert(events@[i as int]@ == edv[i as int]);
        }
        i = i + 1;
    }
    proof {
        assert(edv.take(edv.len() as int) =~= edv);
    }
    results
}

} // verus!
