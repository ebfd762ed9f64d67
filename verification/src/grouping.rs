//! Group-key resolution, nested-group resolution, bucket identifiers and
//! collection names: the pure functions whose composition names a bucket.
use vstd::prelude::*;
use vstd::string::StringExecFns;

use crate::models::KeyPairView;
use crate::models::KeyPairing;
use crate::models::WindowType;
use crate::models::attrs_of;
use crate::models::lower_attrs;
use crate::models::window_name;
use crate::text::find_first;
use crate::text::int_dec;
use crate::text::int_to_decimal;
use crate::text::is_prefix;
use crate::text::join_pipe;
use crate::text::join_pipe_exec;
use crate::text::lemma_find_first;
use crate::text::lemma_find_first_is;
use crate::text::lemma_lower_seq_idempotent;
use crate::text::lower_seq;
use crate::text::push_char;
use crate::text::split_pipe;
use crate::text::split_pipe_exec;
use crate::text::starts_with;
use crate::text::str_eq;
use crate::text::to_lowercase_string;

verus! {

/// The lowercased value of the first attribute whose lowercased key equals
/// `key`, or the literal `"null"` when no attribute matches.
pub open spec fn attr_lookup(attrs: Seq<KeyPairView>, key: Seq<char>) -> Seq<char> {
    let i = find_first(attrs, |a: KeyPairView| lower_seq(a.key) == key);
    if i < attrs.len() {
        lower_seq(attrs[i].value)
    } else {
        "null"@
    }
}

/// As `attr_lookup`, but distinguishing a missing key from any literal value.
pub open spec fn attr_lookup_opt(attrs: Seq<KeyPairView>, key: Seq<char>) -> Option<Seq<char>> {
    let i = find_first(attrs, |a: KeyPairView| lower_seq(a.key) == key);
    if i < attrs.len() {
        Some(lower_seq(attrs[i].value))
    } else {
        None
    }
}

/// The grouping id: the definition's `|`-separated key names, each replaced by
/// the matching attribute's lowercased value (`"null"` when absent), joined
/// with `|` in definition order.
pub open spec fn group_id(def: Seq<char>, attrs: Seq<KeyPairView>) -> Seq<char> {
    join_pipe(split_pipe(def).map_values(|tok: Seq<char>| attr_lookup(attrs, lower_seq(tok))))
}

/// The membership test of `nested_groups`: a strict, leading, literal prefix.
pub open spec fn nested_pred(g: Seq<char>) -> spec_fn(Seq<char>) -> bool {
    |c: Seq<char>| c != g && is_prefix(c, g)
}

/// The configured grouping definitions that are strict, leading, literal
/// prefixes of `g`, in the order of `all`.
pub open spec fn nested_groups(g: Seq<char>, all: Seq<Seq<char>>) -> Seq<Seq<char>> {
    all.filter(nested_pred(g))
}

/// The bucket's primary key: window name, bucket-start timestamp and grouping
/// id, pipe-delimited.
pub open spec fn hash_id(w: WindowType, ts: int, gid: Seq<char>) -> Seq<char> {
    window_name(w) + seq!['|'] + int_dec(ts) + seq!['|'] + gid
}

/// The per-tenant namespace that holds a window's buckets, or the tenant's
/// raw-event log when no window is given.
pub open spec fn collection_name(app: Seq<char>, w: Option<WindowType>) -> Seq<char> {
    match w {
        Some(w) => lower_seq(app) + "_events_"@ + window_name(w),
        None => lower_seq(app) + "_all"@,
    }
}

/// Find the lowercased value of the first attribute matching `key`
/// (`key` is expected lowercased), or the literal `"null"`.
pub fn lookup_attr<K: KeyPairing>(keypairs: &Vec<K>, key: &String) -> (r: String)
    ensures
        r@ == attr_lookup(attrs_of(keypairs@), key@),
{
    let ghost attrs = attrs_of(keypairs@);
    let ghost pred = |a: KeyPairView| lower_seq(a.key) == key@;
    let mut j: usize = 0;
    while j < keypairs.len()
        invariant
            j <= keypairs@.len(),
            attrs == attrs_of(keypairs@),
            pred == (|a: KeyPairView| lower_seq(a.key) == key@),
            forall|k: int| 0 <= k < j ==> !pred(attrs[k]),
        decreases keypairs@.len() - j,
    {
        let kj = keypairs[j].key();
        if kj == *key {
            proof {
                lemma_find_first_is(attrs, pred, j as int);
            }
            return keypairs[j].value();
        }
        j = j + 1;
    }
    proof {
        lemma_find_first_is(attrs, pred, attrs.len() as int);
    }
    String::from_str("null")
}

/// As `lookup_attr`, but `None` when no attribute matches.
pub fn lookup_attr_opt<K: KeyPairing>(keypairs: &Vec<K>, key: &String) -> (r: Option<String>)
    ensures
        r.deep_view() == attr_lookup_opt(attrs_of(keypairs@), key@),
{
    let ghost attrs = attrs_of(keypairs@);
    let ghost pred = |a: KeyPairView| lower_seq(a.key) == key@;
    let mut j: usize = 0;
    while j < keypairs.len()
        invariant
            j <= keypairs@.len(),
            attrs == attrs_of(keypairs@),
            pred == (|a: KeyPairView| lower_seq(a.key) == key@),
            forall|k: int| 0 <= k < j ==> !pred(attrs[k]),
        decreases keypairs@.len() - j,
    {
        let kj = keypairs[j].key();
        if kj == *key {
            proof {
                lemma_find_first_is(attrs, pred, j as int);
            }
            return Some(keypairs[j].value());
        }
        j = j + 1;
    }
    proof {
        lemma_find_first_is(attrs, pred, attrs.len() as int);
    }
    None
}

/// Resolve a grouping definition against an event's attributes into the
/// grouping id.
pub fn get_group_id<K: KeyPairing>(group_def: &str, keypairs: &Vec<K>) -> (r: String)
    ensures
        r@ == group_id(group_def@, attrs_of(keypairs@)),
{
    let ghost attrs = attrs_of(keypairs@);
    let ghost toks = split_pipe(group_def@);
    let ghost valf = |tok: Seq<char>| attr_lookup(attrs, lower_seq(tok));
    let tokens = split_pipe_exec(group_def);
    let mut values: Vec<String> = Vec::new();
    let mut i: usize = 0;
    proof {
        assert(values.deep_view() =~= toks.take(0).map_values(valf));
    }
    while i < tokens.len()
        invariant
            i <= tokens@.len(),
            tokens.deep_view() == toks,
            tokens@.len() == toks.len(),
            attrs == attrs_of(keypairs@),
            valf == (|tok: Seq<char>| attr_lookup(attrs, lower_seq(tok))),
            values.deep_view() == toks.take(i as int).map_values(valf),
        decreases tokens@.len() - i,
    {
        let ghost pre = values.deep_view();
        let tl = to_lowercase_string(tokens[i].as_str());
        let v = lookup_attr(keypairs, &tl);
        values.push(v);
        proof {
            assert(tokens@[i as int]@ == toks[i as int]);
            assert(values.deep_view() =~= pre.push(valf(toks[i as int])));
            assert(toks.take(i + 1).map_values(valf) =~= toks.take(i as int).map_values(
                valf,
            ).push(valf(toks[i as int])));
        }
        i = i + 1;
    }
    proof {
        assert(toks.take(toks.len() as int) =~= toks);
    }
    join_pipe_exec(&values)
}

/// The configured definitions that are strict leading prefixes of `group`:
/// the nested groupings whose coarser rollups accompany `group`'s bucket.
pub fn get_nested_groupings(group: &str, all_groups: &Vec<String>) -> (r: Vec<String>)
    ensures
        r.deep_view() == nested_groups(group@, all_groups.deep_view()),
{
    let ghost all = all_groups.deep_view();
    let ghost pred = nested_pred(group@);
    let mut acc: Vec<String> = Vec::new();
    let mut i: usize = 0;
    proof {
        reveal(Seq::filter);
        assert(acc.deep_view() =~= all.take(0).filter(pred));
    }
    while i < all_groups.len()
        invariant
            i <= all_groups@.len(),
            all == all_groups.deep_view(),
            all.len() == all_groups@.len(),
            pred == nested_pred(group@),
            acc.deep_view() == all.take(i as int).filter(pred),
        decreases all_groups@.len() - i,
    {
        let ghost pre = acc.deep_view();
        let candidate = &all_groups[i];
        let same = str_eq(group, candidate.as_str());
        let pref = starts_with(group, candidate.as_str());
        if !same && pref {
            acc.push(candidate.clone());
        }
        proof {
            reveal(Seq::filter);
            assert(all.take(i + 1).drop_last() =~= all.take(i as int));
            assert(all.take(i + 1).last() == all[i as int]);
            assert(all_groups@[i as int]@ == all[i as int]);
            if pred(all[i as int]) {
                assert(acc.deep_view() =~= pre.push(all[i as int]));
            }
        }
        i = i + 1;
    }
    proof {
        assert(all.take(all.len() as int) =~= all);
    }
    acc
}

/// Compose window name, bucket-start timestamp and grouping id into the
/// bucket's primary key.
pub fn get_hash_id<K: KeyPairing>(
    window: &WindowType,
    group_def: &str,
    keypairs: &Vec<K>,
    timestamp: i64,
) -> (r: String)
    requires
        timestamp > i64::MIN,
    ensures
        r@ == hash_id(*window, timestamp as int, group_id(group_def@, attrs_of(keypairs@))),
{
    let mut r = window.name();
    push_char(&mut r, '|');
    let ts = int_to_decimal(timestamp);
    r = r.concat(ts.as_str());
    push_char(&mut r, '|');
    let gid = get_group_id(group_def, keypairs);
    r = r.concat(gid.as_str());
    proof {
        assert(r@ =~= hash_id(
            *window,
            timestamp as int,
            group_id(group_def@, attrs_of(keypairs@)),
        ));
    }
    r
}

/// The namespace for a tenant's buckets of one window, or for its raw-event
/// log when no window is given.
pub fn get_collection_name(application_id: &String, window: Option<&WindowType>) -> (r: String)
    ensures
        (match window {
            Some(w) => r@ == collection_name(application_id@, Some(*w)),
            None => r@ == collection_name(application_id@, None),
        }),
{
    let low = to_lowercase_string(application_id.as_str());
    match window {
        Some(w) => {
            let r = low.concat("_events_").concat(w.name().as_str());
            proof {
                assert(r@ =~= collection_name(application_id@, Some(*w)));
            }
            r
        },
        None => {
            let r = low.concat("_all");
            proof {
                assert(r@ =~= collection_name(application_id@, None));
            }
            r
        },
    }
}

/// Canonicalize a tenant identifier to lowercase.
pub fn lowercase_id(id: &String) -> (r: String)
    ensures
        r@ == lower_seq(id@),
{
    to_lowercase_string(id.as_str())
}

/// Two attribute sets that agree after lowercasing resolve identically.
pub proof fn lemma_attr_lookup_respects_case(
    a1: Seq<KeyPairView>,
    a2: Seq<KeyPairView>,
    key: Seq<char>,
)
    requires
        lower_attrs(a1) == lower_attrs(a2),
    ensures
        attr_lookup(a1, key) == attr_lookup(a2, key),
{
    let p1 = |a: KeyPairView| lower_seq(a.key) == key;
    assert(a1.len() == a2.len()) by {
        assert(lower_attrs(a1).len() == a1.len());
        assert(lower_attrs(a2).len() == a2.len());
    }
    assert forall|k: int| 0 <= k < a1.len() implies lower_seq(a1[k].key) == lower_seq(a2[k].key)
        && lower_seq(a1[k].value) == lower_seq(a2[k].value) by {
        assert(lower_attrs(a1)[k] == a1[k].lowered());
        assert(lower_attrs(a2)[k] == a2[k].lowered());
    }
    lemma_find_first(a1, p1);
    let i = find_first(a1, p1);
    lemma_find_first_is(a2, p1, i);
}

/// GroupKeyResolver is case-insensitive in the attribute keys and values:
/// attribute sets that agree up to ASCII case produce the same grouping id.
/// It is deterministic by construction: `group_id` is a function of its
/// arguments alone.
pub proof fn lemma_group_key_resolver_case_insensitive(
    def: Seq<char>,
    a1: Seq<KeyPairView>,
    a2: Seq<KeyPairView>,
)
    requires
        lower_attrs(a1) == lower_attrs(a2),
    ensures
        group_id(def, a1) == group_id(def, a2),
{
    let toks = split_pipe(def);
    let f1 = |tok: Seq<char>| attr_lookup(a1, lower_seq(tok));
    let f2 = |tok: Seq<char>| attr_lookup(a2, lower_seq(tok));
    assert(toks.map_values(f1) =~= toks.map_values(f2)) by {
        assert forall|k: int| 0 <= k < toks.len() implies f1(toks[k]) == f2(toks[k]) by {
            lemma_attr_lookup_respects_case(a1, a2, lower_seq(toks[k]));
        }
    }
}

/// Lowercasing an attribute set does not change how it resolves.
pub proof fn lemma_group_key_resolver_lowered(def: Seq<char>, attrs: Seq<KeyPairView>)
    ensures
        group_id(def, lower_attrs(attrs)) == group_id(def, attrs),
{
    assert(lower_attrs(lower_attrs(attrs)) =~= lower_attrs(attrs)) by {
        assert forall|k: int| 0 <= k < attrs.len() implies lower_attrs(lower_attrs(attrs))[k]
            == lower_attrs(attrs)[k] by {
            lemma_lower_seq_idempotent(attrs[k].key);
            lemma_lower_seq_idempotent(attrs[k].value);
        }
    }
    lemma_group_key_resolver_case_insensitive(def, lower_attrs(attrs), attrs);
}

/// A key matched by no attribute resolves to the literal `"null"`.
pub proof fn lemma_attr_lookup_missing(attrs: Seq<KeyPairView>, key: Seq<char>)
    requires
        forall|k: int| 0 <= k < attrs.len() ==> lower_seq(attrs[k].key) != key,
    ensures
        attr_lookup(attrs, key) == "null"@,
{
    let p = |a: KeyPairView| lower_seq(a.key) == key;
    lemma_find_first_is(attrs, p, attrs.len() as int);
}

/// `a` appears inside `b` in order (not necessarily contiguously).
pub open spec fn is_subsequence<T>(a: Seq<T>, b: Seq<T>) -> bool
    decreases b.len(),
{
    if a.len() == 0 {
        true
    } else if b.len() == 0 {
        false
    } else {
        (a.last() == b.last() && is_subsequence(a.drop_last(), b.drop_last())) || is_subsequence(
            a,
            b.drop_last(),
        )
    }
}

proof fn lemma_filter_props<T>(s: Seq<T>, pred: spec_fn(T) -> bool)
    ensures
        forall|i: int| 0 <= i < s.filter(pred).len() ==> pred(#[trigger] s.filter(pred)[i]),
        is_subsequence(s.filter(pred), s),
    decreases s.len(),
{
    reveal(Seq::filter);
    if s.len() > 0 {
        lemma_filter_props(s.drop_last(), pred);
        if pred(s.last()) {
            assert(s.filter(pred) == s.drop_last().filter(pred).push(s.last()));
            assert(s.filter(pred).drop_last() =~= s.drop_last().filter(pred));
            assert(s.filter(pred).last() == s.last());
            assert forall|i: int| 0 <= i < s.filter(pred).len() implies pred(
                #[trigger] s.filter(pred)[i],
            ) by {
                if i < s.filter(pred).len() - 1 {
                    assert(s.filter(pred)[i] == s.drop_last().filter(pred)[i]);
                }
            }
        }
    }
}

/// NestedGroupResolver never includes the definition itself, every member is
/// a strict leading literal prefix of it, and the output preserves the order
/// of the configured set.
pub proof fn lemma_nested_group_resolver(g: Seq<char>, all: Seq<Seq<char>>)
    ensures
        forall|i: int|
            0 <= i < nested_groups(g, all).len() ==> #[trigger] nested_groups(g, all)[i] != g
                && is_prefix(nested_groups(g, all)[i], g),
        is_subsequence(nested_groups(g, all), all),
{
    lemma_filter_props(all, nested_pred(g));
}

} // verus!
