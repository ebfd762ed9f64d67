//! The tenant-configuration snapshot: an immutable set of per-tenant
//! configurations injected into every dispatch, plus the operations that
//! build and maintain it and pre-create the collections each tenant needs.
use vstd::prelude::*;

use crate::grouping::collection_name;
use crate::grouping::get_collection_name;
use crate::grouping::lowercase_id;
use crate::models::Config;
use crate::models::ConfigView;
use crate::models::EngineError;
use crate::models::NewConfig;
use crate::models::UpdateConfig;
use crate::models::WindowType;
use crate::store::add_collection_by_name;
use crate::store::Store;
use crate::store::StoreView;
use crate::store::add_collection_spec;
use crate::text::find_first;
use crate::text::lemma_find_first_is;
use crate::text::lower_seq;
use crate::text::str_eq;
use crate::text::to_lowercase_string;

verus! {

/// A read-only snapshot of every tenant's configuration, replaced whole on
/// refresh.
pub struct ConfigSnapshot {
    pub configs: Vec<Config>,
}

impl View for ConfigSnapshot {
    type V = Seq<ConfigView>;

    open spec fn view(&self) -> Seq<ConfigView> {
        self.configs.deep_view()
    }
}

/// The index of the configuration whose application id equals `app`, or the
/// snapshot's length when the tenant is unknown.
pub open spec fn find_config(cfgs: Seq<ConfigView>, app: Seq<char>) -> int {
    find_first(cfgs, |c: ConfigView| c.application_id == app)
}

/// The index of the configuration with the given application id, or the
/// configuration count.
pub(crate) fn find_config_idx(snapshot: &ConfigSnapshot, app: &str) -> (r: usize)
    ensures
        r as int == find_config(snapshot@, app@),
        r <= snapshot@.len(),
{
    let ghost cfgs = snapshot@;
    let ghost pred = |c: ConfigView| c.application_id == app@;
    let mut i: usize = 0;
    while i < snapshot.configs.len()
        invariant
            i <= snapshot@.len(),
            cfgs == snapshot@,
            pred == (|c: ConfigView| c.application_id == app@),
            forall|k: int| 0 <= k < i ==> !pred(cfgs[k]),
        decreases snapshot@.len() - i,
    {
        if str_eq(snapshot.configs[i].application_id.as_str(), app) {
            proof {
                lemma_find_first_is(cfgs, pred, i as int);
            }
            return i;
        }
        i = i + 1;
    }
    proof {
        lemma_find_first_is(cfgs, pred, cfgs.len() as int);
    }
    i
}

/// Whether the snapshot knows the tenant, comparing case-insensitively.
pub fn is_valid_application(snapshot: &ConfigSnapshot, application_id: &String) -> (r: bool)
    ensures
        r == (find_config(snapshot@, lower_seq(application_id@)) < snapshot@.len()),
{
    let low = lowercase_id(application_id);
    let i = find_config_idx(snapshot, low.as_str());
    i < snapshot.configs.len()
}

/// Look a configuration up by its exact application id, as stored.
pub fn config_by_application_id<'a>(snapshot: &'a ConfigSnapshot, application_id: &String) -> (r:
    Result<&'a Config, EngineError>)
    ensures
        (match r {
            Ok(c) => find_config(snapshot@, application_id@) < snapshot@.len() && c@ == snapshot@[
                find_config(snapshot@, application_id@)
            ],
            Err(e) => e == EngineError::NotFound && find_config(snapshot@, application_id@)
                == snapshot@.len(),
        }),
{
    let i = find_config_idx(snapshot, application_id.as_str());
    if i < snapshot.configs.len() {
        Ok(&snapshot.configs[i])
    } else {
        Err(EngineError::NotFound)
    }
}

/// Lowercase each string of a vector.
pub fn lowercase_all(v: &Vec<String>) -> (r: Vec<String>)
    ensures
        r.deep_view() == v.deep_view().map_values(|s: Seq<char>| lower_seq(s)),
{
    let mut r: Vec<String> = Vec::new();
    let mut i: usize = 0;
    while i < v.len()
        invariant
            i <= v@.len(),
            r.deep_view() == v.deep_view().take(i as int).map_values(
                |s: Seq<char>| lower_seq(s),
            ),
        decreases v@.len() - i,
    {
        let ghost pre = r.deep_view();
        r.push(to_lowercase_string(v[i].as_str()));
        proof {
            let dv = v.deep_view();
            let f = |s: Seq<char>| lower_seq(s);
            assert(r.deep_view() =~= pre.push(f(dv[i as int])));
            assert(dv.take(i + 1).map_values(f) =~= dv.take(i as int).map_values(f).push(
                f(dv[i as int]),
            ));
        }
        i = i + 1;
    }
    proof {
        let dv = v.deep_view();
        let f = |s: Seq<char>| lower_seq(s);
        assert(dv.take(dv.len() as int).map_values(f) =~= dv.map_values(f));
    }
    r
}

/// Copy a vector of window kinds.
pub fn clone_windows(v: &Vec<WindowType>) -> (r: Vec<WindowType>)
    ensures
        r@ == v@,
{
    let mut r: Vec<WindowType> = Vec::new();
    let mut i: usize = 0;
    while i < v.len()
        invariant
            i <= v@.len(),
            r@ == v@.take(i as int),
        decreases v@.len() - i,
    {
        r.push(v[i]);
        proof {
            assert(v@.take(i + 1) =~= v@.take(i as int).push(v@[i as int]));
        }
        i = i + 1;
    }
    proof {
        assert(v@.take(v@.len() as int) =~= v@);
    }
    r
}

impl Config {
    /// Copy this configuration, preserving its view.
    pub fn duplicate(&self) -> (r: Config)
        ensures
            r@ == self@,
    {
        let r = Config {
            application_id: self.application_id.clone(),
            windows: clone_windows(&self.windows),
            groups: crate::bucket::clone_string_vec(&self.groups),
            log_all_events: self.log_all_events,
        };
        proof {
            assert(r@ =~= self@);
        }
        r
    }
}

/// A submitted configuration canonicalized for storage: the application id
/// and every grouping definition lowercased.
pub open spec fn normalized_config(c: ConfigView) -> ConfigView {
    ConfigView {
        application_id: lower_seq(c.application_id),
        windows: c.windows,
        groups: c.groups.map_values(|g: Seq<char>| lower_seq(g)),
        log_all_events: c.log_all_events,
    }
}

/// Store a new tenant configuration, canonicalized to lowercase; rejected
/// when the application id, after canonicalization, is already present.
pub fn create_config(snapshot: &mut ConfigSnapshot, new_config: &NewConfig) -> (r: Result<
    Config,
    EngineError,
>)
    ensures
        (match r {
            Ok(c) => {
                &&& find_config(old(snapshot)@, lower_seq(new_config@.application_id)) == old(
                    snapshot,
                )@.len()
                &&& c@ == normalized_config(new_config@)
                &&& final(snapshot)@ == old(snapshot)@.push(normalized_config(new_config@))
            },
            Err(e) => {
                &&& e == EngineError::DuplicateApplicationId
                &&& find_config(old(snapshot)@, lower_seq(new_config@.application_id)) < old(
                    snapshot,
                )@.len()
                &&& final(snapshot)@ == old(snapshot)@
            },
        }),
{
    let low = lowercase_id(&new_config.application_id);
    let i = find_config_idx(snapshot, low.as_str());
    if i < snapshot.configs.len() {
        return Err(EngineError::DuplicateApplicationId);
    }
    let stored = Config {
        application_id: low,
        windows: clone_windows(&new_config.windows),
        groups: lowercase_all(&new_config.groups),
        log_all_events: new_config.log_all_events,
    };
    let ghost pre = snapshot@;
    let out = stored.duplicate();
    proof {
        assert(stored@ =~= normalized_config(new_config@));
    }
    snapshot.configs.push(stored);
    proof {
        assert(snapshot@ =~= pre.push(normalized_config(new_config@)));
    }
    Ok(out)
}

/// The configuration with an update applied: each field present in the update
/// replaces the stored one, grouping definitions lowercased.
pub open spec fn updated_config(
    c: ConfigView,
    windows: Option<Seq<WindowType>>,
    groups: Option<Seq<Seq<char>>>,
    log_all_events: Option<bool>,
) -> ConfigView {
    ConfigView {
        application_id: c.application_id,
        windows: match windows {
            Some(w) => w,
            None => c.windows,
        },
        groups: match groups {
            Some(g) => g.map_values(|s: Seq<char>| lower_seq(s)),
            None => c.groups,
        },
        log_all_events: match log_all_events {
            Some(l) => Some(l),
            None => c.log_all_events,
        },
    }
}

/// Apply a partial update to the tenant looked up case-insensitively.
pub fn update_config(
    snapshot: &mut ConfigSnapshot,
    application_id: &String,
    update: &UpdateConfig,
) -> (r: Result<Config, EngineError>)
    ensures
        (match r {
            Ok(c) => {
                let i = find_config(old(snapshot)@, lower_seq(application_id@));
                &&& i < old(snapshot)@.len()
                &&& c@ == updated_config(
                    old(snapshot)@[i],
                    update.windows.deep_view(),
                    update.groups.deep_view(),
                    update.log_all_events,
                )
                &&& final(snapshot)@ == old(snapshot)@.update(i, c@)
            },
            Err(e) => {
                &&& e == EngineError::NotFound
                &&& find_config(old(snapshot)@, lower_seq(application_id@)) == old(
                    snapshot,
                )@.len()
                &&& final(snapshot)@ == old(snapshot)@
            },
        }),
{
    let low = lowercase_id(application_id);
    let i = find_config_idx(snapshot, low.as_str());
    if i == snapshot.configs.len() {
        return Err(EngineError::NotFound);
    }
    let ghost pre = snapshot@;
    let ghost target = snapshot@[i as int];
    let new_windows = match &update.windows {
        Some(w) => clone_windows(w),
        None => clone_windows(&snapshot.configs[i].windows),
    };
    let new_groups = match &update.groups {
        Some(g) => lowercase_all(g),
        None => crate::bucket::clone_string_vec(&snapshot.configs[i].groups),
    };
    let new_log = match update.log_all_events {
        Some(l) => Some(l),
        None => snapshot.configs[i].log_all_events,
    };
    let updated = Config {
        application_id: snapshot.configs[i].application_id.clone(),
        windows: new_windows,
        groups: new_groups,
        log_all_events: new_log,
    };
    let out = updated.duplicate();
    proof {
        assert(updated@ =~= updated_config(
            target,
            update.windows.deep_view(),
            update.groups.deep_view(),
            update.log_all_events,
        ));
    }
    let slot = &mut snapshot.configs[i];
    *slot = updated;
    proof {
        assert(snapshot@ =~= pre.update(i as int, out@));
    }
    Ok(out)
}

/// Remove the tenant looked up case-insensitively.
pub fn delete_config(snapshot: &mut ConfigSnapshot, application_id: &String) -> (r: Result<
    (),
    EngineError,
>)
    ensures
        (match r {
            Ok(()) => {
                let i = find_config(old(snapshot)@, lower_seq(application_id@));
                &&& i < old(snapshot)@.len()
                &&& final(snapshot)@ == old(snapshot)@.remove(i)
            },
            Err(e) => {
                &&& e == EngineError::NotFound
                &&& find_config(old(snapshot)@, lower_seq(application_id@)) == old(
                    snapshot,
                )@.len()
                &&& final(snapshot)@ == old(snapshot)@
            },
        }),
{
    let low = lowercase_id(application_id);
    let idx = find_config_idx(snapshot, low.as_str());
    if idx == snapshot.configs.len() {
        return Err(EngineError::NotFound);
    }
    let ghost pre = snapshot@;
    let mut kept: Vec<Config> = Vec::new();
    let mut i: usize = 0;
    while i < snapshot.configs.len()
        invariant
            i <= snapshot@.len(),
            snapshot@ == pre,
            idx < pre.len(),
            kept.deep_view() == (if i <= idx {
                pre.take(i as int)
            } else {
                pre.remove(idx as int).take(i as int - 1)
            }),
        decreases snapshot@.len() - i,
    {
        if i != idx {
            let ghost k0 = kept.deep_view();
            kept.push(snapshot.configs[i].duplicate());
            proof {
                assert(kept.deep_view() =~= k0.push(pre[i as int]));
                if i < idx {
                    assert(pre.take(i + 1) =~= pre.take(i as int).push(pre[i as int]));
                } else {
                    assert(pre.remove(idx as int).take(i as int) =~= pre.remove(idx as int).take(
                        i as int - 1,
                    ).push(pre[i as int]));
                }
            }
        } else {
            proof {
                assert(pre.remove(idx as int).take(i as int) =~= pre.take(i as int));
            }
        }
        i = i + 1;
    }
    proof {
        assert(kept.deep_view() =~= pre.remove(idx as int));
    }
    snapshot.configs = kept;
    Ok(())
}

/// The store with every collection a configuration needs: the tenant's raw
/// event log and one bucket collection per configured window.
pub open spec fn add_config_collections(s: StoreView, cfg: ConfigView) -> StoreView {
    add_window_collections(
        add_collection_spec(s, collection_name(cfg.application_id, None)),
        cfg.application_id,
        cfg.windows,
    )
}

/// The store extended by the bucket collection of each window in turn.
pub open spec fn add_window_collections(
    s: StoreView,
    app: Seq<char>,
    windows: Seq<WindowType>,
) -> StoreView
    decreases windows.len(),
{
    if windows.len() == 0 {
        s
    } else {
        add_collection_spec(
            add_window_collections(s, app, windows.drop_last()),
            collection_name(app, Some(windows.last())),
        )
    }
}

/// The store with the collections of every configuration present.
pub open spec fn configured_store(s: StoreView, cfgs: Seq<ConfigView>) -> StoreView
    decreases cfgs.len(),
{
    if cfgs.len() == 0 {
        s
    } else {
        add_config_collections(configured_store(s, cfgs.drop_last()), cfgs.last())
    }
}

/// Build the snapshot from loaded configurations and pre-create every
/// collection the tenants need: each tenant's raw-event log and one bucket
/// collection per configured window.
pub fn configure(store: &mut Store, configs: Vec<Config>) -> (snapshot: ConfigSnapshot)
    ensures
        final(store)@ == configured_store(old(store)@, configs.deep_view()),
        old(store)@.wf() ==> final(store)@.wf(),
        snapshot@ == configs.deep_view(),
{
    let ghost s0 = store@;
    let ghost cdv = configs.deep_view();
    let mut i: usize = 0;
    while i < configs.len()
        invariant
            i <= configs@.len(),
            cdv == configs.deep_view(),
            store@ == configured_store(s0, cdv.take(i as int)),
            s0.wf() ==> store@.wf(),
        decreases configs@.len() - i,
    {
        let ghost s_entry = store@;
        let all_name = get_collection_name(&configs[i].application_id, None);
        add_collection_by_name(store, &all_name);
        let mut j: usize = 0;
        while j < configs[i].windows.len()
            invariant
                j <= configs@[i as int].windows@.len(),
                i < configs@.len(),
                cdv == configs.deep_view(),
                store@ == add_window_collections(
                    add_collection_spec(
                        s_entry,
                        collection_name(cdv[i as int].application_id, None),
                    ),
                    cdv[i as int].application_id,
                    cdv[i as int].windows.take(j as int),
                ),
                s_entry.wf() ==> store@.wf(),
            decreases configs@[i as int].windows@.len() - j,
        {
            let w = configs[i].windows[j];
            let name = get_collection_name(&configs[i].application_id, Some(&w));
            add_collection_by_name(store, &name);
            proof {
                assert(cdv[i as int].windows.take(j + 1).drop_last() =~= cdv[i
                    as int].windows.take(j as int));
                assert(cdv[i as int].windows.take(j + 1).last() == cdv[i as int].windows[j as int]);
            }
            j = j + 1;
        }
        proof {
            assert(cdv[i as int].windows.take(cdv[i as int].windows.len() as int) =~= cdv[i
                as int].windows);
            assert(cdv.take(i + 1).drop_last() =~= cdv.take(i as int));
            assert(cdv.take(i + 1).last() == cdv[i as int]);
        }
        i = i + 1;
    }
    proof {
        assert(cdv.take(cdv.len() as int) =~= cdv);
    }
    ConfigSnapshot { configs }
}

} // verus!
