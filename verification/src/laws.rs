//! The library's general laws, each stated over the views and spec
//! functions that the public contracts use.

use vstd::prelude::*;

use crate::navigation::{
    built_segments, dedup_adjacent, is_route, pref_cost, route_cost, succ_map, Path, Preference,
};
use crate::types::{
    edges_from, lemma_edges_from_concat, security_class_of, system_map_of, Connection, Navigatable,
    SecurityClass, System,
};

verus! {

/// Looking up the ID of any recorded system finds a system with that
/// ID: construction keeps every inserted system reachable under its
/// own ID, whichever same-ID record won the collision.
pub proof fn lemma_system_lookup_by_id(records: Seq<System>, s: System)
    requires
        records.contains(s),
    ensures
        system_map_of(records).contains_key(s.id.0),
        system_map_of(records)[s.id.0].id == s.id,
    decreases records.len(),
{
    let i = choose|i: int| 0 <= i < records.len() && records[i] == s;
    if i < records.len() - 1 {
        assert(records.drop_last()[i] == s);
        lemma_system_lookup_by_id(records.drop_last(), s);
    }
}

/// Whether a path is what building over the given graph views,
/// waypoints and preference yields. `PathBuilder::build` establishes
/// exactly this of every path it returns.
pub open spec fn path_matches_build(
    p: Path,
    sys: Map<u32, System>,
    conns: Seq<Connection>,
    pref: Preference,
    wps: Seq<System>,
) -> bool {
    match built_segments(sys, conns, pref, wps) {
        Some((elems, jumps)) => p@ == dedup_adjacent(elems) && p.jumps_view() == jumps,
        None => false,
    }
}

/// Building twice over identical graph views, waypoints and preference
/// yields identical element sequences and identical jump counts: the
/// search outcome is a function of its inputs alone.
pub proof fn lemma_build_deterministic(
    sys: Map<u32, System>,
    conns: Seq<Connection>,
    pref: Preference,
    wps: Seq<System>,
    p1: Path,
    p2: Path,
)
    requires
        path_matches_build(p1, sys, conns, pref, wps),
        path_matches_build(p2, sys, conns, pref, wps),
    ensures
        p1@ == p2@,
        p1.jumps_view() == p2.jumps_view(),
{
}

/// An overlay only adds edges: for every system, the overlay's edge
/// group is exactly the base's group followed by the overlay's own, so
/// the base's edge set stands unchanged in front.
pub proof fn lemma_overlay_union(base_conns: Seq<Connection>, extra: Seq<Connection>, id: u32)
    ensures
        edges_from(base_conns + extra, id) == edges_from(base_conns, id) + edges_from(extra, id),
        forall|j: int|
            0 <= j < edges_from(base_conns, id).len() ==> edges_from(base_conns + extra, id)[j]
                == edges_from(base_conns, id)[j],
{
    lemma_edges_from_concat(base_conns, extra, id);
}

/// The number of hops of a walk that enter a Lowsec or Nullsec system.
pub open spec fn low_hops(sys: Map<u32, System>, ids: Seq<u32>) -> int
    decreases ids.len(),
{
    if ids.len() <= 1 {
        0
    } else {
        low_hops(sys, ids.drop_last()) + (if security_class_of(
            sys[ids.last()].security.0 as int,
        ) != SecurityClass::Highsec {
            1int
        } else {
            0int
        })
    }
}

/// A walk's hop count into non-Highsec systems is never negative.
proof fn lemma_low_hops_nonneg(sys: Map<u32, System>, ids: Seq<u32>)
    ensures
        low_hops(sys, ids) >= 0,
    decreases ids.len(),
{
    if ids.len() > 1 {
        lemma_low_hops_nonneg(sys, ids.drop_last());
    }
}

/// Under the Highsec preference, a walk whose hops all enter Highsec
/// systems costs exactly one per hop.
proof fn lemma_highsec_walk_cost(sys: Map<u32, System>, ids: Seq<u32>)
    requires
        forall|k: int|
            1 <= k < ids.len() ==> security_class_of(
                (#[trigger] sys[ids[k]]).security.0 as int,
            ) == SecurityClass::Highsec,
        ids.len() >= 1,
    ensures
        route_cost(sys, Preference::Highsec, ids) == ids.len() - 1,
    decreases ids.len(),
{
    if ids.len() > 1 {
        assert forall|k: int|
            1 <= k < ids.drop_last().len() implies security_class_of(
            (#[trigger] sys[ids.drop_last()[k]]).security.0 as int,
        ) == SecurityClass::Highsec by {
            assert(ids.drop_last()[k] == ids[k]);
        }
        lemma_highsec_walk_cost(sys, ids.drop_last());
        assert(pref_cost(Preference::Highsec, sys, ids.last()) == 1);
    }
}

/// Under the Highsec preference, every hop into a Lowsec or Nullsec
/// system contributes its full penalty to the walk's cost.
proof fn lemma_low_hops_cost(sys: Map<u32, System>, ids: Seq<u32>)
    ensures
        route_cost(sys, Preference::Highsec, ids) >= 1000 * low_hops(sys, ids),
    decreases ids.len(),
{
    if ids.len() > 1 {
        lemma_low_hops_cost(sys, ids.drop_last());
        lemma_low_hops_nonneg(sys, ids.drop_last());
    }
}

/// Preference monotonicity: when an all-Highsec route of fewer than
/// 1000 hops links the endpoints, the route that the Highsec-preferred
/// search settles on takes no Lowsec or Nullsec hop at all, and hence
/// no more of them than any other walk over the same pair, the
/// hop-count-only search's result included.
pub proof fn lemma_highsec_preference_monotone(
    sys: Map<u32, System>,
    conns: Seq<Connection>,
    start: u32,
    goal: u32,
    ids: Seq<u32>,
    total: u64,
    safe: Seq<u32>,
    other: Seq<u32>,
)
    requires
        is_route(succ_map(sys, conns, Preference::Highsec), ids, start, goal),
        total == route_cost(sys, Preference::Highsec, ids),
        forall|alt: Seq<u32>|
            #[trigger] is_route(succ_map(sys, conns, Preference::Highsec), alt, start, goal)
                ==> route_cost(sys, Preference::Highsec, alt) >= total,
        is_route(succ_map(sys, conns, Preference::Highsec), safe, start, goal),
        forall|k: int|
            1 <= k < safe.len() ==> security_class_of((#[trigger] sys[safe[k]]).security.0 as int)
                == SecurityClass::Highsec,
        safe.len() <= 1000,
    ensures
        low_hops(sys, ids) == 0,
        low_hops(sys, ids) <= low_hops(sys, other),
{
    lemma_highsec_walk_cost(sys, safe);
    assert(route_cost(sys, Preference::Highsec, safe) >= total);
    lemma_low_hops_cost(sys, ids);
    lemma_low_hops_nonneg(sys, ids);
    lemma_low_hops_nonneg(sys, other);
}

} // verus!
