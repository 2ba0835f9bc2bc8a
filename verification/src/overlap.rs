//! Overlap composition: kernels that run in parallel cost the max of their
//! group, and groups run one after another.

use vstd::prelude::*;

use std::collections::BTreeMap;
use vstd::std_specs::btree::increasing_seq;
use vstd::std_specs::cmp::OrdSpec;
use vstd::std_specs::iter::IteratorSpec;

use crate::base::{PerformanceResult, Source, NAN_KEY, ZERO_KEY};

verus! {

/// The effective latency of one overlap group.
#[derive(Clone, Copy, Debug, PartialEq, Eq, Structural)]
pub struct GroupLatency {
    pub group_id: u32,
    /// Ordering key of the group's latency (see `PerformanceResult`).
    pub latency_key: u64,
}

/// The composition of a list of grouped latencies: one entry per overlap
/// group, in increasing group order, and the combined provenance. The total
/// latency is the sum of the groups' latencies taken in this order.
#[derive(Clone, Debug)]
pub struct OverlapComposition {
    pub groups: Vec<GroupLatency>,
    pub source: Source,
}

/// Some entry belongs to group `g`.
pub open spec fn in_group(entries: Seq<(PerformanceResult, u32)>, g: u32) -> bool {
    exists|i: int| 0 <= i < entries.len() && #[trigger] entries[i].1 == g
}

/// `m` is the largest latency key among the entries of group `g`: the key of
/// one of them, and no smaller than any of them.
pub open spec fn is_group_max(entries: Seq<(PerformanceResult, u32)>, g: u32, m: u64) -> bool {
    &&& forall|i: int|
        0 <= i < entries.len() && #[trigger] entries[i].1 == g ==> entries[i].0.latency_key <= m
    &&& exists|i: int|
        0 <= i < entries.len() && #[trigger] entries[i].1 == g && entries[i].0.latency_key == m
}

/// Every entry of group `g` has a latency that is not a number.
pub open spec fn all_not_a_number(entries: Seq<(PerformanceResult, u32)>, g: u32) -> bool {
    forall|i: int|
        0 <= i < entries.len() && #[trigger] entries[i].1 == g ==> entries[i].0.latency_key
            == NAN_KEY
}

/// `k` is the key of the latency of group `g`: the largest latency of its
/// entries, where a latency that is not a number counts below every number;
/// and `0.0` when no entry of the group has a number for its latency.
pub open spec fn is_group_latency(entries: Seq<(PerformanceResult, u32)>, g: u32, k: u64) -> bool {
    if all_not_a_number(entries, g) {
        k == ZERO_KEY
    } else {
        is_group_max(entries, g, k)
    }
}

/// The provenance of a composition: `Silicon` for no entries, the common tag
/// when all entries agree, `Mixed` otherwise.
pub open spec fn combined_source(entries: Seq<(PerformanceResult, u32)>) -> Source {
    if entries.len() == 0 {
        Source::Silicon
    } else if forall|i: int|
        0 <= i < entries.len() ==> #[trigger] entries[i].0.source == entries[0].0.source {
        entries[0].0.source
    } else {
        Source::Mixed
    }
}

/// The groups are listed in strictly increasing group order.
pub open spec fn groups_increasing(groups: Seq<GroupLatency>) -> bool {
    forall|i: int, j: int|
        0 <= i < j < groups.len() ==> #[trigger] groups[i].group_id < #[trigger] groups[j].group_id
}

/// Group `id` appears in `groups`.
pub open spec fn lists_group(groups: Seq<GroupLatency>, id: u32) -> bool {
    exists|k: int| 0 <= k < groups.len() && #[trigger] groups[k].group_id == id
}

/// `groups` lists exactly the groups of `entries`, each with its latency.
pub open spec fn describes_groups(
    entries: Seq<(PerformanceResult, u32)>,
    groups: Seq<GroupLatency>,
) -> bool {
    &&& groups_increasing(groups)
    &&& forall|k: int|
        0 <= k < groups.len() ==> in_group(entries, #[trigger] groups[k].group_id)
            && is_group_latency(entries, groups[k].group_id, groups[k].latency_key)
    &&& forall|g: u32| #[trigger] in_group(entries, g) ==> lists_group(groups, g)
}

/// Composes a list of latencies grouped by overlap-group identifier: within
/// each group the effective latency is the max (`0.0` for a group with no
/// latency that is a number), and the groups are listed in
/// increasing order so that their latencies sum to the total. Sources combine
/// the way `Source::combine` does: the same tag across all entries keeps it,
/// any disagreement becomes `Source::Mixed`.
pub fn overlap_composition(entries: &[(PerformanceResult, u32)]) -> (r: OverlapComposition)
    ensures
        describes_groups(entries@, r.groups@),
        r.source == combined_source(entries@),
{
    let mut by_group: BTreeMap<u32, u64> = BTreeMap::new();
    let mut source = Source::Silicon;
    let mut idx: usize = 0;
    while idx < entries.len()
        invariant
            idx <= entries.len(),
            forall|g: u32| #[trigger]
                by_group@.contains_key(g) <==> in_group(entries@.take(idx as int), g),
            forall|g: u32| #[trigger]
                by_group@.contains_key(g) ==> is_group_max(
                    entries@.take(idx as int),
                    g,
                    by_group@[g],
                ),
            source == combined_source(entries@.take(idx as int)),
        decreases entries.len() - idx,
    {
        let ghost before = entries@.take(idx as int);
        let ghost after = entries@.take(idx + 1);
        let ghost old_map = by_group@;
        let (result, group_id) = entries[idx];
        assert(after == before.push((result, group_id)));
        proof {
            lemma_prefix_step(before, result, group_id);
            lemma_source_step(before, result, group_id);
        }
        match by_group.get(&group_id) {
            Some(current) => {
                let current = *current;
                if result.latency_key > current {
                    by_group.insert(group_id, result.latency_key);
                }
                proof {
                    lemma_own_group(before, result, group_id, current);
                }
            },
            None => {
                by_group.insert(group_id, result.latency_key);
                proof {
                    lemma_new_group(before, result, group_id);
                }
            },
        }
        proof {
            assert forall|g: u32| #[trigger] by_group@.contains_key(g) && g != group_id implies is_group_max(
                after,
                g,
                by_group@[g],
            ) by {
                lemma_other_group(before, result, group_id, g, old_map[g]);
            }
        }
        source = if idx == 0 {
            result.source
        } else {
            source.combine(result.source)
        };
        idx += 1;
    }
    assert(entries@.take(entries@.len() as int) == entries@);

    let ghost kv = by_group.iter().remaining();
    let mut groups: Vec<GroupLatency> = Vec::new();
    for (group_id, latency_key) in it: by_group.iter()
        invariant
            it.seq() == kv,
            groups@.len() == it.index(),
            forall|j: int|
                0 <= j < it.index() ==> #[trigger] groups@[j] == (GroupLatency {
                    group_id: *it.seq()[j].0,
                    latency_key: if *it.seq()[j].1 == NAN_KEY {
                        ZERO_KEY
                    } else {
                        *it.seq()[j].1
                    },
                }),
    {
        let key = if *latency_key == NAN_KEY {
            ZERO_KEY
        } else {
            *latency_key
        };
        groups.push(GroupLatency { group_id: *group_id, latency_key: key });
    }
    proof {
        lemma_increasing_keys(kv);
    }
    assert(groups@.len() == kv.len());
    assert(kv.len() == by_group@.dom().len());
    assert forall|k: int| 0 <= k < groups@.len() implies in_group(
        entries@,
        #[trigger] groups@[k].group_id,
    ) && is_group_latency(entries@, groups@[k].group_id, groups@[k].latency_key) by {
        assert(by_group@.contains_key(*kv[k].0) && by_group@[*kv[k].0] == *kv[k].1);
        lemma_latency_of_max(entries@, *kv[k].0, *kv[k].1);
    }
    assert forall|g: u32| #[trigger] in_group(entries@, g) implies lists_group(groups@, g) by {
        assert(by_group@.contains_key(g));
        assert(kv.contains((&g, &by_group@[g])));
        let k = choose|k: int| 0 <= k < kv.len() && kv[k] == (&g, &by_group@[g]);
        assert(groups@[k].group_id == g);
    }
    OverlapComposition { groups, source }
}

proof fn lemma_increasing_keys(kv: Seq<(&u32, &u64)>)
    requires
        increasing_seq(kv.map_values(|p: (&u32, &u64)| *p.0)),
    ensures
        forall|i: int, j: int| 0 <= i < j < kv.len() ==> *(#[trigger] kv[i]).0 < *(#[trigger] kv[j]).0,
{
    let keys = kv.map_values(|p: (&u32, &u64)| *p.0);
    assert(vstd::laws_cmp::obeys_cmp::<u32>());
    vstd::std_specs::btree::axiom_increasing_seq_meaning(keys);
    assert forall|i: int, j: int| 0 <= i < j < kv.len() implies *(#[trigger] kv[i]).0 < *(#[trigger] kv[j]).0 by {
        assert(keys[i] == *kv[i].0);
        assert(keys[j] == *kv[j].0);
        assert(keys[i].cmp_spec(&keys[j]) is Less);
    }
}

/// The composition depends only on which entries occur: lists that hold the
/// same entries, in any order and with any repetition, compose to the same
/// groups, the same group latencies and the same provenance.
pub proof fn lemma_composition_depends_only_on_entries(
    s: Seq<(PerformanceResult, u32)>,
    t: Seq<(PerformanceResult, u32)>,
    groups_s: Seq<GroupLatency>,
    groups_t: Seq<GroupLatency>,
)
    requires
        forall|x: (PerformanceResult, u32)| s.contains(x) <==> t.contains(x),
        describes_groups(s, groups_s),
        describes_groups(t, groups_t),
    ensures
        groups_s == groups_t,
        combined_source(s) == combined_source(t),
{
    lemma_same_entries(s, t);
    assert(describes_groups(t, groups_s));
    lemma_groups_unique(t, groups_s, groups_t);
    lemma_same_source(s, t);
}

/// A list of entries has exactly one composition.
pub proof fn lemma_groups_unique(
    s: Seq<(PerformanceResult, u32)>,
    g1: Seq<GroupLatency>,
    g2: Seq<GroupLatency>,
)
    requires
        describes_groups(s, g1),
        describes_groups(s, g2),
    ensures
        g1 == g2,
{
    lemma_same_id_lists(g1, g2);
    assert forall|k: int| 0 <= k < g1.len() implies g1[k] == g2[k] by {
        let g = g1[k].group_id;
        if !all_not_a_number(s, g) {
            lemma_group_max_unique(s, g, g1[k].latency_key, g2[k].latency_key);
        }
    }
    assert(g1 =~= g2);
}

/// Raising the latencies of entries, group by group, never lowers a group's
/// latency: two lists whose entries lie in the same groups, where each entry
/// of the second is no lower than the matching entry of the first and every
/// latency of the first is a number, compose to the same groups, each at
/// least as long in the second.
pub proof fn lemma_composition_monotone(
    s: Seq<(PerformanceResult, u32)>,
    t: Seq<(PerformanceResult, u32)>,
    groups_s: Seq<GroupLatency>,
    groups_t: Seq<GroupLatency>,
)
    requires
        s.len() == t.len(),
        forall|i: int| 0 <= i < s.len() ==> #[trigger] s[i].1 == t[i].1,
        forall|i: int|
            0 <= i < s.len() ==> #[trigger] s[i].0.latency_key <= t[i].0.latency_key,
        forall|i: int| 0 <= i < s.len() ==> #[trigger] s[i].0.latency_key != NAN_KEY,
        describes_groups(s, groups_s),
        describes_groups(t, groups_t),
    ensures
        groups_s.len() == groups_t.len(),
        forall|k: int|
            0 <= k < groups_s.len() ==> #[trigger] groups_s[k].group_id == groups_t[k].group_id
                && groups_s[k].latency_key <= groups_t[k].latency_key,
{
    assert forall|g: u32| #[trigger] in_group(s, g) <==> in_group(t, g) by {
        if in_group(s, g) {
            let i = choose|i: int| 0 <= i < s.len() && #[trigger] s[i].1 == g;
            assert(t[i].1 == g);
        }
        if in_group(t, g) {
            let i = choose|i: int| 0 <= i < t.len() && #[trigger] t[i].1 == g;
            assert(s[i].1 == g);
        }
    }
    assert forall|id: u32| lists_group(groups_s, id) <==> #[trigger] lists_group(groups_t, id) by {
        if lists_group(groups_s, id) {
            let k = choose|k: int| 0 <= k < groups_s.len() && #[trigger] groups_s[k].group_id == id;
            assert(in_group(s, groups_s[k].group_id));
            assert(in_group(t, id));
        }
        if lists_group(groups_t, id) {
            let k = choose|k: int| 0 <= k < groups_t.len() && #[trigger] groups_t[k].group_id == id;
            assert(in_group(t, groups_t[k].group_id));
            assert(in_group(s, id));
        }
    }
    lemma_same_id_lists(groups_s, groups_t);
    assert forall|k: int| 0 <= k < groups_s.len() implies #[trigger] groups_s[k].group_id
        == groups_t[k].group_id && groups_s[k].latency_key <= groups_t[k].latency_key by {
        let g = groups_s[k].group_id;
        assert(in_group(s, g));
        let w = choose|i: int| 0 <= i < s.len() && #[trigger] s[i].1 == g;
        assert(s[w].0.latency_key != NAN_KEY);
        assert(t[w].1 == g);
        assert(t[w].0.latency_key != NAN_KEY);
        assert(!all_not_a_number(s, g));
        assert(!all_not_a_number(t, g));
        let i = choose|i: int|
            0 <= i < s.len() && #[trigger] s[i].1 == g && s[i].0.latency_key
                == groups_s[k].latency_key;
        assert(t[i].1 == g);
        assert(s[i].0.latency_key <= t[i].0.latency_key);
    }
}

proof fn lemma_latency_of_max(s: Seq<(PerformanceResult, u32)>, g: u32, m: u64)
    requires
        is_group_max(s, g, m),
    ensures
        is_group_latency(s, g, if m == NAN_KEY { ZERO_KEY } else { m }),
{
    let i = choose|i: int| 0 <= i < s.len() && #[trigger] s[i].1 == g && s[i].0.latency_key == m;
    if m == NAN_KEY {
        assert forall|j: int| 0 <= j < s.len() && #[trigger] s[j].1 == g implies s[j].0.latency_key
            == NAN_KEY by {}
    } else {
        assert(s[i].0.latency_key != NAN_KEY);
    }
}

proof fn lemma_group_max_unique(s: Seq<(PerformanceResult, u32)>, g: u32, m1: u64, m2: u64)
    requires
        is_group_max(s, g, m1),
        is_group_max(s, g, m2),
    ensures
        m1 == m2,
{
    {
        let i = choose|i: int| 0 <= i < s.len() && #[trigger] s[i].1 == g && s[i].0.latency_key == m1;
    }
    {
        let i = choose|i: int| 0 <= i < s.len() && #[trigger] s[i].1 == g && s[i].0.latency_key == m2;
    }
}

/// Two increasing group lists that hold the same group ids hold them at the
/// same places.
proof fn lemma_same_id_lists(g1: Seq<GroupLatency>, g2: Seq<GroupLatency>)
    requires
        groups_increasing(g1),
        groups_increasing(g2),
        forall|id: u32|
            #![trigger lists_group(g1, id)]
            #![trigger lists_group(g2, id)]
            lists_group(g1, id) <==> lists_group(g2, id),
    ensures
        g1.len() == g2.len(),
        forall|j: int| 0 <= j < g1.len() ==> #[trigger] g1[j].group_id == g2[j].group_id,
{
    let n = if g1.len() < g2.len() { g1.len() } else { g2.len() };
    lemma_ids_agree(g1, g2, n as int);
    if g1.len() < g2.len() {
        let id = g2[n as int].group_id;
        assert(lists_group(g2, id));
        let j = choose|j: int| 0 <= j < g1.len() && #[trigger] g1[j].group_id == id;
        assert(g2[j].group_id == id);
    } else if g2.len() < g1.len() {
        let id = g1[n as int].group_id;
        assert(lists_group(g1, id));
        let j = choose|j: int| 0 <= j < g2.len() && #[trigger] g2[j].group_id == id;
        assert(g1[j].group_id == id);
    }
}

proof fn lemma_ids_agree(g1: Seq<GroupLatency>, g2: Seq<GroupLatency>, n: int)
    requires
        groups_increasing(g1),
        groups_increasing(g2),
        forall|id: u32|
            #![trigger lists_group(g1, id)]
            #![trigger lists_group(g2, id)]
            lists_group(g1, id) <==> lists_group(g2, id),
        0 <= n <= g1.len(),
        n <= g2.len(),
    ensures
        forall|j: int| 0 <= j < n ==> #[trigger] g1[j].group_id == g2[j].group_id,
    decreases n,
{
    if n > 0 {
        lemma_ids_agree(g1, g2, n - 1);
        let k = n - 1;
        let a = g1[k].group_id;
        let b = g2[k].group_id;
        assert(lists_group(g1, a));
        assert(lists_group(g2, b));
        assert(lists_group(g2, a));
        assert(lists_group(g1, b));
        if a < b {
            let j = choose|j: int| 0 <= j < g2.len() && #[trigger] g2[j].group_id == a;
            if j < k {
                assert(g1[j].group_id == g2[j].group_id);
            } else if j > k {
                assert(g2[k].group_id < g2[j].group_id);
            }
        } else if b < a {
            let j = choose|j: int| 0 <= j < g1.len() && #[trigger] g1[j].group_id == b;
            if j < k {
                assert(g1[j].group_id == g2[j].group_id);
            } else if j > k {
                assert(g1[k].group_id < g1[j].group_id);
            }
        }
    }
}

proof fn lemma_same_entries(s: Seq<(PerformanceResult, u32)>, t: Seq<(PerformanceResult, u32)>)
    requires
        forall|x: (PerformanceResult, u32)| s.contains(x) <==> t.contains(x),
    ensures
        forall|gs: Seq<GroupLatency>| #[trigger] describes_groups(s, gs) ==> describes_groups(t, gs),
{
    assert forall|g: u32| #[trigger] in_group(s, g) implies in_group(t, g) by {
        let i = choose|i: int| 0 <= i < s.len() && #[trigger] s[i].1 == g;
        assert(s.contains(s[i]));
        let j = choose|j: int| 0 <= j < t.len() && t[j] == s[i];
        assert(t[j].1 == g);
    }
    assert forall|gs: Seq<GroupLatency>| #[trigger] describes_groups(s, gs) implies describes_groups(t, gs) by {
        assert forall|k: int| 0 <= k < gs.len() implies in_group(t, #[trigger] gs[k].group_id)
            && is_group_latency(t, gs[k].group_id, gs[k].latency_key) by {
            let g = gs[k].group_id;
            let m = gs[k].latency_key;
            assert(in_group(s, g));
            if all_not_a_number(s, g) {
                assert forall|i: int| 0 <= i < t.len() && #[trigger] t[i].1 == g implies t[i].0.latency_key
                    == NAN_KEY by {
                    assert(t.contains(t[i]));
                    let j = choose|j: int| 0 <= j < s.len() && s[j] == t[i];
                    assert(s[j].1 == g);
                }
            } else {
                assert forall|i: int| 0 <= i < t.len() && #[trigger] t[i].1 == g implies t[i].0.latency_key <= m by {
                    assert(t.contains(t[i]));
                    let j = choose|j: int| 0 <= j < s.len() && s[j] == t[i];
                    assert(s[j].1 == g);
                }
                let i = choose|i: int| 0 <= i < s.len() && #[trigger] s[i].1 == g && s[i].0.latency_key == m;
                assert(s.contains(s[i]));
                let j = choose|j: int| 0 <= j < t.len() && t[j] == s[i];
                assert(t[j].1 == g);
                let w = choose|w: int| 0 <= w < s.len() && #[trigger] s[w].1 == g && s[w].0.latency_key != NAN_KEY;
                assert(s.contains(s[w]));
                let v = choose|v: int| 0 <= v < t.len() && t[v] == s[w];
                assert(t[v].1 == g);
            }
        }
        assert forall|g: u32| #[trigger] in_group(t, g) implies lists_group(gs, g) by {
            let i = choose|i: int| 0 <= i < t.len() && #[trigger] t[i].1 == g;
            assert(t.contains(t[i]));
            let j = choose|j: int| 0 <= j < s.len() && s[j] == t[i];
            assert(s[j].1 == g);
            assert(in_group(s, g));
        }
    }
}

proof fn lemma_same_source(s: Seq<(PerformanceResult, u32)>, t: Seq<(PerformanceResult, u32)>)
    requires
        forall|x: (PerformanceResult, u32)| s.contains(x) <==> t.contains(x),
    ensures
        combined_source(s) == combined_source(t),
{
    if s.len() == 0 {
        if t.len() > 0 {
            assert(t.contains(t[0]));
        }
    } else if t.len() == 0 {
        assert(s.contains(s[0]));
    } else {
        assert(s.contains(s[0]));
        assert(t.contains(t[0]));
        let js = choose|j: int| 0 <= j < t.len() && t[j] == s[0];
        let jt = choose|j: int| 0 <= j < s.len() && s[j] == t[0];
        let all_s = forall|i: int| 0 <= i < s.len() ==> #[trigger] s[i].0.source == s[0].0.source;
        let all_t = forall|i: int| 0 <= i < t.len() ==> #[trigger] t[i].0.source == t[0].0.source;
        if all_s {
            assert(t[0].0.source == s[0].0.source);
            assert forall|i: int| 0 <= i < t.len() implies #[trigger] t[i].0.source == t[0].0.source by {
                assert(t.contains(t[i]));
                let j = choose|j: int| 0 <= j < s.len() && s[j] == t[i];
            }
        } else if all_t {
            assert(t[0].0.source == s[0].0.source);
            assert forall|i: int| 0 <= i < s.len() implies #[trigger] s[i].0.source == s[0].0.source by {
                assert(s.contains(s[i]));
                let j = choose|j: int| 0 <= j < t.len() && t[j] == s[i];
            }
        }
    }
}

proof fn lemma_prefix_step(
    before: Seq<(PerformanceResult, u32)>,
    result: PerformanceResult,
    group_id: u32,
)
    ensures
        forall|g: u32| #[trigger]
            in_group(before.push((result, group_id)), g) <==> (in_group(before, g) || g == group_id),
{
    let after = before.push((result, group_id));
    assert forall|g: u32| #[trigger] in_group(after, g) <==> (in_group(before, g) || g == group_id) by {
        if in_group(before, g) {
            let i = choose|i: int| 0 <= i < before.len() && #[trigger] before[i].1 == g;
            assert(after[i].1 == g);
        }
        if g == group_id {
            assert(after[before.len() as int].1 == g);
        }
        if in_group(after, g) && g != group_id {
            let i = choose|i: int| 0 <= i < after.len() && #[trigger] after[i].1 == g;
            assert(before[i].1 == g);
        }
    }
}

proof fn lemma_source_step(
    before: Seq<(PerformanceResult, u32)>,
    result: PerformanceResult,
    group_id: u32,
)
    ensures
        combined_source(before.push((result, group_id))) == if before.len() == 0 {
            result.source
        } else {
            combined_source(before).combined(result.source)
        },
{
    let after = before.push((result, group_id));
    if before.len() > 0 {
        assert(after[0] == before[0]);
        if forall|i: int| 0 <= i < before.len() ==> #[trigger] before[i].0.source == before[0].0.source {
            if result.source == before[0].0.source {
                assert forall|i: int| 0 <= i < after.len() implies #[trigger] after[i].0.source
                    == after[0].0.source by {
                    if i < before.len() {
                        assert(after[i] == before[i]);
                    }
                }
            } else {
                assert(after[before.len() as int].0.source != after[0].0.source);
            }
        } else {
            let i = choose|i: int| 0 <= i < before.len() && #[trigger] before[i].0.source != before[0].0.source;
            assert(after[i] == before[i]);
        }
    } else {
        assert forall|i: int| 0 <= i < after.len() implies #[trigger] after[i].0.source
            == after[0].0.source by {}
    }
}

proof fn lemma_other_group(
    before: Seq<(PerformanceResult, u32)>,
    result: PerformanceResult,
    group_id: u32,
    g: u32,
    m: u64,
)
    requires
        g != group_id,
        in_group(before, g),
        is_group_max(before, g, m),
    ensures
        in_group(before.push((result, group_id)), g),
        is_group_max(before.push((result, group_id)), g, m),
{
    let after = before.push((result, group_id));
    lemma_prefix_step(before, result, group_id);
    assert forall|i: int| 0 <= i < after.len() && #[trigger] after[i].1 == g implies after[i].0.latency_key
        <= m by {
        assert(i < before.len());
        assert(after[i] == before[i]);
    }
    {
        let i = choose|i: int| 0 <= i < before.len() && #[trigger] before[i].1 == g && before[i].0.latency_key == m;
        assert(after[i] == before[i]);
    }
}

proof fn lemma_own_group(
    before: Seq<(PerformanceResult, u32)>,
    result: PerformanceResult,
    group_id: u32,
    m: u64,
)
    requires
        is_group_max(before, group_id, m),
    ensures
        is_group_max(
            before.push((result, group_id)),
            group_id,
            if result.latency_key > m { result.latency_key } else { m },
        ),
{
    let after = before.push((result, group_id));
    let merged = if result.latency_key > m { result.latency_key } else { m };
    assert forall|i: int| 0 <= i < after.len() && #[trigger] after[i].1 == group_id implies after[i].0.latency_key
        <= merged by {
        if i < before.len() {
            assert(after[i] == before[i]);
        }
    }
    if merged == result.latency_key {
        assert(after[before.len() as int].1 == group_id);
    } else {
        let i = choose|i: int| 0 <= i < before.len() && #[trigger] before[i].1 == group_id && before[i].0.latency_key == m;
        assert(after[i] == before[i]);
    }
}

proof fn lemma_new_group(before: Seq<(PerformanceResult, u32)>, result: PerformanceResult, group_id: u32)
    requires
        !in_group(before, group_id),
    ensures
        is_group_max(before.push((result, group_id)), group_id, result.latency_key),
{
    let after = before.push((result, group_id));
    assert forall|i: int| 0 <= i < after.len() && #[trigger] after[i].1 == group_id implies after[i].0.latency_key
        <= result.latency_key by {
        if i < before.len() {
            assert(after[i] == before[i]);
            assert(before[i].1 == group_id);
        }
    }
    assert(after[before.len() as int].1 == group_id);
}

} // verus!
