//! The pathfinding engine: preference-weighted shortest paths between
//! ordered waypoints over any `Navigatable` universe.

use vstd::prelude::*;

use crate::types::{
    edges_from, security_class_of, Connection, ConnectionType, Navigatable, SecurityClass, System,
    SystemId,
};

verus! {

/// The edge-cost policy of one path build. Costs weigh the security
/// class of each edge's destination; they never forbid an edge
/// outright, so a route is still found when no preferred-only route
/// exists.
#[derive(Debug, Copy, Clone, PartialEq, Eq, Structural)]
pub enum Preference {
    /// Every edge costs 1: plain hop-count minimization.
    Shortest,
    /// An edge into a Highsec system costs 1, any other 1000.
    Highsec,
    /// An edge into a Lowsec or Nullsec system costs 1, any other 1000.
    LowsecAndNullsec,
}

/// The cost of traversing an edge into `to` under a preference. All
/// costs are positive, as Dijkstra requires.
pub open spec fn pref_cost(pref: Preference, sys: Map<u32, System>, to: u32) -> u32 {
    match pref {
        Preference::Shortest => 1,
        Preference::Highsec => match security_class_of(sys[to].security.0 as int) {
            SecurityClass::Highsec => 1,
            SecurityClass::Lowsec => 1000,
            SecurityClass::Nullsec => 1000,
        },
        Preference::LowsecAndNullsec => match security_class_of(sys[to].security.0 as int) {
            SecurityClass::Highsec => 1000,
            SecurityClass::Lowsec => 1,
            SecurityClass::Nullsec => 1,
        },
    }
}

impl Preference {
    /// The cost of stepping into system `to`, which must be a known
    /// system: classifying an unknown one has no answer.
    pub fn cost<U: Navigatable>(&self, universe: &U, to: SystemId) -> (c: u32)
        requires
            universe.nav_systems().contains_key(to.0),
        ensures
            c == pref_cost(*self, universe.nav_systems(), to.0),
            1 <= c <= 1000,
    {
        match self {
            Preference::Shortest => 1,
            Preference::Highsec => match universe.get_system(&to) {
                Some(s) => match SecurityClass::from(s.security) {
                    SecurityClass::Highsec => 1,
                    SecurityClass::Lowsec => 1000,
                    SecurityClass::Nullsec => 1000,
                },
                None => vstd::pervasive::unreached(),
            },
            Preference::LowsecAndNullsec => match universe.get_system(&to) {
                Some(s) => match SecurityClass::from(s.security) {
                    SecurityClass::Highsec => 1000,
                    SecurityClass::Lowsec => 1,
                    SecurityClass::Nullsec => 1,
                },
                None => vstd::pervasive::unreached(),
            },
        }
    }
}

/// The weighted successor entries that a sequence of outgoing edges
/// yields: one `(destination, cost)` entry per edge whose destination
/// is a known system, in edge order. An edge into an unrecorded system
/// yields no entry: no traversal is possible into a system the
/// universe does not hold.
pub open spec fn succ_of_edges(
    sys: Map<u32, System>,
    pref: Preference,
    edges: Seq<Connection>,
) -> Seq<(u32, u64)>
    decreases edges.len(),
{
    if edges.len() == 0 {
        Seq::empty()
    } else {
        let rest = succ_of_edges(sys, pref, edges.drop_last());
        let c = edges.last();
        if sys.contains_key(c.to.0) {
            rest.push((c.to.0, pref_cost(pref, sys, c.to.0) as u64))
        } else {
            rest
        }
    }
}

/// The weighted successors of system `id` in a universe given by its
/// two views.
pub open spec fn succs_of(
    sys: Map<u32, System>,
    conns: Seq<Connection>,
    pref: Preference,
    id: u32,
) -> Seq<(u32, u64)> {
    succ_of_edges(sys, pref, edges_from(conns, id))
}

/// The whole weighted successor relation of a universe under a
/// preference, as a total map over IDs.
pub open spec fn succ_map(
    sys: Map<u32, System>,
    conns: Seq<Connection>,
    pref: Preference,
) -> Map<u32, Seq<(u32, u64)>> {
    Map::total(|id: u32| succs_of(sys, conns, pref, id))
}

/// Every successor entry names a known system, carries exactly the
/// preference cost of its destination, and stems from an edge of the
/// underlying sequence.
pub proof fn lemma_succ_of_edges_entries(
    sys: Map<u32, System>,
    pref: Preference,
    edges: Seq<Connection>,
)
    ensures
        forall|j: int|
            0 <= j < succ_of_edges(sys, pref, edges).len() ==> {
                &&& sys.contains_key((#[trigger] succ_of_edges(sys, pref, edges)[j]).0)
                &&& succ_of_edges(sys, pref, edges)[j].1 == pref_cost(
                    pref,
                    sys,
                    succ_of_edges(sys, pref, edges)[j].0,
                ) as u64
                &&& exists|i: int|
                    0 <= i < edges.len() && (#[trigger] edges[i]).to.0 == succ_of_edges(
                        sys,
                        pref,
                        edges,
                    )[j].0
            },
    decreases edges.len(),
{
    if edges.len() > 0 {
        lemma_succ_of_edges_entries(sys, pref, edges.drop_last());
        let whole = succ_of_edges(sys, pref, edges);
        let rest = succ_of_edges(sys, pref, edges.drop_last());
        assert forall|j: int| 0 <= j < whole.len() implies {
            &&& sys.contains_key((#[trigger] whole[j]).0)
            &&& whole[j].1 == pref_cost(pref, sys, whole[j].0) as u64
            &&& exists|i: int| 0 <= i < edges.len() && (#[trigger] edges[i]).to.0 == whole[j].0
        } by {
            if j < rest.len() {
                assert(whole[j] == rest[j]);
                let i0 = choose|i: int|
                    0 <= i < edges.drop_last().len() && (#[trigger] edges.drop_last()[i]).to.0
                        == rest[j].0;
                assert(edges[i0].to.0 == whole[j].0);
            } else {
                assert(edges[edges.len() - 1].to.0 == whole[j].0);
            }
        }
    }
}

/// A destination reached by a step is itself a known system, and some
/// recorded edge leads to it from the step's source.
pub proof fn lemma_step_dest(
    sys: Map<u32, System>,
    conns: Seq<Connection>,
    pref: Preference,
    x: u32,
    y: u32,
)
    requires
        has_step(succ_map(sys, conns, pref), x, y),
    ensures
        sys.contains_key(y),
        exists|i: int|
            0 <= i < edges_from(conns, x).len() && (#[trigger] edges_from(conns, x)[i]).to.0 == y,
{
    lemma_succ_of_edges_entries(sys, pref, edges_from(conns, x));
    let entries = succ_map(sys, conns, pref)[x];
    let j = choose|j: int| 0 <= j < entries.len() && (#[trigger] entries[j]).0 == y;
    assert(succ_of_edges(sys, pref, edges_from(conns, x))[j].0 == y);
}

/// The weighted successors of `id`, computed against the universe.
pub(crate) fn successor_costs<U: Navigatable>(universe: &U, preference: &Preference, id: u32) -> (r:
    Vec<(u32, u64)>)
    ensures
        r@ == succs_of(universe.nav_systems(), universe.nav_conns(), *preference, id),
{
    let ghost sys = universe.nav_systems();
    let ghost pref = *preference;
    let mut r: Vec<(u32, u64)> = Vec::new();
    match universe.get_connections(&SystemId(id)) {
        Some(conns) => {
            let n = conns.len();
            let mut i: usize = 0;
            while i < n
                invariant
                    n == conns@.len(),
                    0 <= i <= n,
                    sys == universe.nav_systems(),
                    pref == *preference,
                    r@ == succ_of_edges(sys, pref, conns@.take(i as int)),
                decreases n - i,
            {
                let c = conns[i];
                proof {
                    assert(conns@.take(i + 1 as int).drop_last() =~= conns@.take(i as int));
                    assert(conns@.take(i + 1 as int).last() == conns@[i as int]);
                }
                match universe.get_system(&c.to) {
                    Some(_) => {
                        let cost = preference.cost(universe, c.to);
                        r.push((c.to.0, cost as u64));
                    },
                    None => {
                    },
                }
                i = i + 1;
            }
            proof {
                assert(conns@.take(n as int) =~= conns@);
            }
            r
        },
        None => {
            proof {
                assert(succ_of_edges(sys, pref, edges_from(universe.nav_conns(), id))
                    =~= Seq::<(u32, u64)>::empty());
            }
            r
        },
    }
}

/// Whether the successor relation records a step from `a` to `b`.
pub open spec fn has_step(succs: Map<u32, Seq<(u32, u64)>>, a: u32, b: u32) -> bool {
    exists|j: int| 0 <= j < succs[a].len() && (#[trigger] succs[a][j]).0 == b
}

/// Whether `ids` walks the successor relation from `start` to `goal`:
/// nonempty, the right endpoints, and one recorded step between each
/// consecutive pair.
pub open spec fn is_route(
    succs: Map<u32, Seq<(u32, u64)>>,
    ids: Seq<u32>,
    start: u32,
    goal: u32,
) -> bool {
    &&& ids.len() >= 1
    &&& ids[0] == start
    &&& ids.last() == goal
    &&& forall|k: int| 0 <= k < ids.len() - 1 ==> has_step(succs, #[trigger] ids[k], ids[k + 1])
}

/// Whether some route of the successor relation leads from `a` to `b`.
pub open spec fn pair_connected(succs: Map<u32, Seq<(u32, u64)>>, a: u32, b: u32) -> bool {
    exists|route: Seq<u32>| is_route(succs, route, a, b)
}

/// Whether no route of the successor relation leads from `a` to `b`.
pub open spec fn pair_unreachable(succs: Map<u32, Seq<(u32, u64)>>, a: u32, b: u32) -> bool {
    forall|alt: Seq<u32>| !is_route(succs, alt, a, b)
}

/// The total cost of a walk: the preference cost of each node entered
/// after the first.
pub open spec fn route_cost(sys: Map<u32, System>, pref: Preference, ids: Seq<u32>) -> int
    decreases ids.len(),
{
    if ids.len() <= 1 {
        0
    } else {
        route_cost(sys, pref, ids.drop_last()) + pref_cost(pref, sys, ids.last())
    }
}

/// The route and total cost that the Dijkstra search settles on for a
/// weighted successor relation and an ordered endpoint pair, `None`
/// when no route links them. The search is deterministic: this outcome
/// is a function of the relation and the endpoints alone.
pub uninterp spec fn dijkstra_outcome(
    succs: Map<u32, Seq<(u32, u64)>>,
    start: u32,
    goal: u32,
) -> Option<(Seq<u32>, u64)>;

/// Relies on pathfinding::prelude::dijkstra: single-source shortest
/// path over non-negative integer edge costs. It returns a route from
/// `start` to `goal` together with its total cost, minimal among all
/// routes, and `None` exactly when no route exists; it is
/// deterministic, so its outcome is named by `dijkstra_outcome`. Node
/// identity here is a plain `u32` and every edge cost is at most 1000,
/// so at most 2^32 distinct nodes arise and no accumulated `u64` cost
/// can overflow.
#[verifier::external_body]
fn run_dijkstra<U: Navigatable>(universe: &U, preference: &Preference, start: u32, goal: u32) -> (r:
    Option<(Vec<u32>, u64)>)
    ensures
        ({
            let sys = universe.nav_systems();
            let succs = succ_map(sys, universe.nav_conns(), *preference);
            match r {
                Some((ids, total)) => {
                    &&& dijkstra_outcome(succs, start, goal) == Some((ids@, total as u64))
                    &&& is_route(succs, ids@, start, goal)
                    &&& total == route_cost(sys, *preference, ids@)
                    &&& forall|alt: Seq<u32>|
                        #[trigger] is_route(succs, alt, start, goal) ==> route_cost(
                            sys,
                            *preference,
                            alt,
                        ) >= total
                },
                None => {
                    &&& dijkstra_outcome(succs, start, goal) is None
                    &&& forall|alt: Seq<u32>| !is_route(succs, alt, start, goal)
                },
            }
        }),
{
    pathfinding::prelude::dijkstra(
        &start,
        |id: &u32| successor_costs(universe, preference, *id),
        |id: &u32| *id == goal,
    )
}

/// The first recorded edge from `y` among `edges`, by type; the edges
/// are searched in insertion order.
pub open spec fn first_to(edges: Seq<Connection>, y: u32) -> ConnectionType
    decreases edges.len(),
{
    if edges.len() == 0 {
        vstd::pervasive::arbitrary()
    } else if edges[0].to.0 == y {
        edges[0].type_
    } else {
        first_to(edges.drop_first(), y)
    }
}

/// The type of the edge a route takes from `x` to `y`: the first
/// recorded edge from `x` to `y`, in insertion order. Parallel edges
/// of equal cost are tied off by this rule and no other.
pub open spec fn conn_between(conns: Seq<Connection>, x: u32, y: u32) -> ConnectionType {
    first_to(edges_from(conns, x), y)
}

/// Find the connection type a route uses from `x` to `y`.
fn find_connection<U: Navigatable>(universe: &U, x: u32, y: u32) -> (r: ConnectionType)
    requires
        exists|i: int|
            0 <= i < edges_from(universe.nav_conns(), x).len() && (#[trigger] edges_from(
                universe.nav_conns(),
                x,
            )[i]).to.0 == y,
    ensures
        r == conn_between(universe.nav_conns(), x, y),
{
    let ghost all = edges_from(universe.nav_conns(), x);
    match universe.get_connections(&SystemId(x)) {
        Some(conns) => {
            let n = conns.len();
            let mut i: usize = 0;
            proof {
                assert(all.skip(0) =~= all);
            }
            while i < n
                invariant
                    all == edges_from(universe.nav_conns(), x),
                    conns@ == all,
                    n == all.len(),
                    0 <= i <= n,
                    exists|j: int| 0 <= j < all.len() && (#[trigger] all[j]).to.0 == y,
                    forall|j: int| 0 <= j < i ==> (#[trigger] all[j]).to.0 != y,
                    first_to(all, y) == first_to(all.skip(i as int), y),
                decreases n - i,
            {
                proof {
                    assert(all.skip(i as int)[0] == all[i as int]);
                    assert(all.skip(i as int).drop_first() =~= all.skip(i + 1 as int));
                }
                if conns[i].to.0 == y {
                    proof {
                        assert(all.skip(i as int).len() > 0);
                        assert(first_to(all.skip(i as int), y) == all[i as int].type_);
                    }
                    return conns[i].type_;
                }
                i = i + 1;
            }
            proof {
                let j = choose|j: int| 0 <= j < all.len() && (#[trigger] all[j]).to.0 == y;
                assert(false);
            }
            vstd::pervasive::unreached()
        },
        None => {
            proof {
                let j = choose|j: int| 0 <= j < all.len() && (#[trigger] all[j]).to.0 == y;
                assert(false);
            }
            vstd::pervasive::unreached()
        },
    }
}

/// One element of a walked route: an original boundary system, an
/// intermediate system, or the edge type just traversed.
#[derive(Debug, PartialEq)]
pub enum PathElement {
    Waypoint(System),
    System(System),
    Connection(ConnectionType),
}

impl Clone for PathElement {
    fn clone(&self) -> (r: Self)
        ensures
            r == *self,
    {
        match self {
            PathElement::Waypoint(s) => PathElement::Waypoint(s.clone()),
            PathElement::System(s) => PathElement::System(s.clone()),
            PathElement::Connection(t) => PathElement::Connection(*t),
        }
    }
}

/// The first system-bearing element of a route, if any.
pub open spec fn leading_system(s: Seq<PathElement>) -> Option<System> {
    if s.len() == 0 {
        None
    } else {
        match s[0] {
            PathElement::Waypoint(sys) => Some(sys),
            PathElement::System(sys) => Some(sys),
            PathElement::Connection(_) => None,
        }
    }
}

/// The last system-bearing element of a route, if any.
pub open spec fn trailing_system(s: Seq<PathElement>) -> Option<System> {
    if s.len() == 0 {
        None
    } else {
        match s.last() {
            PathElement::Waypoint(sys) => Some(sys),
            PathElement::System(sys) => Some(sys),
            PathElement::Connection(_) => None,
        }
    }
}

/// The systems a route passes, boundary and intermediate alike, in
/// order.
pub open spec fn systems_of(s: Seq<PathElement>) -> Seq<System>
    decreases s.len(),
{
    if s.len() == 0 {
        Seq::empty()
    } else {
        let rest = systems_of(s.drop_last());
        match s.last() {
            PathElement::Waypoint(sys) => rest.push(sys),
            PathElement::System(sys) => rest.push(sys),
            PathElement::Connection(_) => rest,
        }
    }
}

/// A walked route: a flattened, materialized element sequence and the
/// total number of traversed edges. Re-reading it never re-runs the
/// search.
#[derive(Debug)]
pub struct Path {
    elements: Vec<PathElement>,
    jump_count: usize,
}

impl View for Path {
    type V = Seq<PathElement>;

    closed spec fn view(&self) -> Seq<PathElement> {
        self.elements@
    }
}

impl Path {
    /// The recorded number of traversed edges, as a specification
    /// value.
    pub closed spec fn jumps_view(&self) -> int {
        self.jump_count as int
    }

    pub(crate) fn new(elements: Vec<PathElement>, jump_count: usize) -> (r: Self)
        ensures
            r@ == elements@,
            r.jumps_view() == jump_count as int,
    {
        Self { elements, jump_count }
    }

    /// The total number of traversed edges across all segments.
    pub fn jumps(&self) -> (n: usize)
        ensures
            n as int == self.jumps_view(),
    {
        self.jump_count
    }

    /// The first system-bearing element, or `None` on an empty path.
    pub fn from(&self) -> (r: Option<&System>)
        ensures
            match r {
                Some(s) => leading_system(self@) == Some(*s),
                None => leading_system(self@) is None,
            },
    {
        if self.elements.len() == 0 {
            None
        } else {
            match &self.elements[0] {
                PathElement::Waypoint(s) => Some(s),
                PathElement::System(s) => Some(s),
                PathElement::Connection(_) => None,
            }
        }
    }

    /// The last system-bearing element, or `None` on an empty path.
    pub fn to(&self) -> (r: Option<&System>)
        ensures
            match r {
                Some(s) => trailing_system(self@) == Some(*s),
                None => trailing_system(self@) is None,
            },
    {
        if self.elements.len() == 0 {
            None
        } else {
            match &self.elements[self.elements.len() - 1] {
                PathElement::Waypoint(s) => Some(s),
                PathElement::System(s) => Some(s),
                PathElement::Connection(_) => None,
            }
        }
    }

    /// A fresh forward cursor over the elements. Iterating never
    /// recomputes the route, and a fresh cursor yields the same
    /// sequence again.
    pub fn iter(&self) -> (it: PathIterator)
        ensures
            it.remaining() == self@,
            it.elems() == self@,
            it.cursor() == 0,
    {
        PathIterator { path: self, cur: 0 }
    }

    /// The systems the path passes, in order.
    pub fn systems(&self) -> (r: Vec<System>)
        ensures
            r@ == systems_of(self@),
    {
        let n = self.elements.len();
        let mut r: Vec<System> = Vec::new();
        let mut i: usize = 0;
        while i < n
            invariant
                n == self.elements@.len(),
                0 <= i <= n,
                r@ == systems_of(self.elements@.take(i as int)),
            decreases n - i,
        {
            proof {
                assert(self.elements@.take(i + 1 as int).drop_last() =~= self.elements@.take(
                    i as int,
                ));
                assert(self.elements@.take(i + 1 as int).last() == self.elements@[i as int]);
            }
            match &self.elements[i] {
                PathElement::Waypoint(s) => {
                    r.push(s.clone());
                },
                PathElement::System(s) => {
                    r.push(s.clone());
                },
                PathElement::Connection(_) => {
                },
            }
            i = i + 1;
        }
        proof {
            assert(self.elements@.take(n as int) =~= self.elements@);
            assert(self.elements@ == self@);
        }
        r
    }
}

/// Whether a path element carries a system exactly as the universe
/// records it.
pub open spec fn elem_resolved(sys: Map<u32, System>, e: PathElement) -> bool {
    match e {
        PathElement::Waypoint(s) => sys.contains_key(s.id.0) && s == sys[s.id.0],
        PathElement::System(s) => sys.contains_key(s.id.0) && s == sys[s.id.0],
        PathElement::Connection(_) => true,
    }
}

/// Decide equality of two resolved elements: system-bearing elements
/// resolved against one universe are equal exactly when their IDs are.
fn elements_equal(a: &PathElement, b: &PathElement, Ghost(sys): Ghost<Map<u32, System>>) -> (r:
    bool)
    requires
        elem_resolved(sys, *a),
        elem_resolved(sys, *b),
    ensures
        r == (*a == *b),
{
    match (a, b) {
        (PathElement::Waypoint(x), PathElement::Waypoint(y)) => x.id.0 == y.id.0,
        (PathElement::System(x), PathElement::System(y)) => x.id.0 == y.id.0,
        (PathElement::Connection(s), PathElement::Connection(t)) => *s == *t,
        _ => false,
    }
}

/// The element sequence with runs of adjacent equal elements collapsed
/// to one: a segment's end waypoint and the next segment's identical
/// start waypoint become a single element.
pub open spec fn dedup_adjacent(s: Seq<PathElement>) -> Seq<PathElement>
    decreases s.len(),
{
    if s.len() == 0 {
        Seq::empty()
    } else {
        let rest = dedup_adjacent(s.drop_last());
        if rest.len() > 0 && rest.last() == s.last() {
            rest
        } else {
            rest.push(s.last())
        }
    }
}

/// Collapse runs of adjacent equal elements.
fn dedup_elements(v: Vec<PathElement>, Ghost(sys): Ghost<Map<u32, System>>) -> (r: Vec<
    PathElement,
>)
    requires
        forall|i: int| 0 <= i < v@.len() ==> elem_resolved(sys, #[trigger] v@[i]),
    ensures
        r@ == dedup_adjacent(v@),
{
    let mut r: Vec<PathElement> = Vec::new();
    let n = v.len();
    let mut i: usize = 0;
    while i < n
        invariant
            n == v@.len(),
            0 <= i <= n,
            forall|j: int| 0 <= j < v@.len() ==> elem_resolved(sys, #[trigger] v@[j]),
            forall|j: int| 0 <= j < r@.len() ==> elem_resolved(sys, #[trigger] r@[j]),
            r@ == dedup_adjacent(v@.take(i as int)),
        decreases n - i,
    {
        proof {
            assert(v@.take(i + 1 as int).drop_last() =~= v@.take(i as int));
            assert(v@.take(i + 1 as int).last() == v@[i as int]);
        }
        if r.len() > 0 {
            let same = elements_equal(&r[r.len() - 1], &v[i], Ghost(sys));
            if !same {
                r.push(v[i].clone());
            }
        } else {
            r.push(v[i].clone());
        }
        i = i + 1;
    }
    proof {
        assert(v@.take(n as int) =~= v@);
    }
    r
}

/// The element a route records for node `n` of a segment with the
/// boundary systems `a` and `b`: a waypoint element at either boundary
/// ID, an intermediate system element otherwise.
pub open spec fn node_elem(sys: Map<u32, System>, n: u32, a: u32, b: u32) -> PathElement {
    if n == a || n == b {
        PathElement::Waypoint(sys[n])
    } else {
        PathElement::System(sys[n])
    }
}

/// The elements one segment contributes: its nodes in route order,
/// each prefixed, after the first, by the connection just traversed.
pub open spec fn segment_elems(
    sys: Map<u32, System>,
    conns: Seq<Connection>,
    ids: Seq<u32>,
    a: u32,
    b: u32,
) -> Seq<PathElement>
    decreases ids.len(),
{
    if ids.len() == 0 {
        Seq::empty()
    } else if ids.len() == 1 {
        seq![node_elem(sys, ids[0], a, b)]
    } else {
        segment_elems(sys, conns, ids.drop_last(), a, b) + seq![
            PathElement::Connection(conn_between(conns, ids[ids.len() - 2], ids.last())),
            node_elem(sys, ids.last(), a, b),
        ]
    }
}

/// The element sequence and total edge count that building a path over
/// the given waypoints yields, before adjacent duplicates collapse:
/// each consecutive waypoint pair contributes the Dijkstra outcome's
/// segment, and the build fails outright when any pair has none.
/// Fewer than two waypoints yield the empty no-op result.
pub open spec fn built_segments(
    sys: Map<u32, System>,
    conns: Seq<Connection>,
    pref: Preference,
    wps: Seq<System>,
) -> Option<(Seq<PathElement>, int)>
    decreases wps.len(),
{
    if wps.len() < 2 {
        Some((Seq::empty(), 0))
    } else {
        match built_segments(sys, conns, pref, wps.drop_last()) {
            None => None,
            Some((elems, jumps)) => {
                let a = wps[wps.len() - 2].id.0;
                let b = wps.last().id.0;
                match dijkstra_outcome(succ_map(sys, conns, pref), a, b) {
                    None => None,
                    Some((ids, _total)) => Some(
                        (elems + segment_elems(sys, conns, ids, a, b), jumps + ids.len() - 1),
                    ),
                }
            },
        }
    }
}

/// Once a waypoint prefix fails to build, the whole list fails.
proof fn lemma_built_segments_none(
    sys: Map<u32, System>,
    conns: Seq<Connection>,
    pref: Preference,
    wps: Seq<System>,
    k: int,
)
    requires
        0 <= k <= wps.len(),
        built_segments(sys, conns, pref, wps.take(k)) is None,
    ensures
        built_segments(sys, conns, pref, wps) is None,
    decreases wps.len() - k,
{
    if k == wps.len() {
        assert(wps.take(k) =~= wps);
    } else {
        assert(wps.take(k + 1).drop_last() =~= wps.take(k));
        lemma_built_segments_none(sys, conns, pref, wps, k + 1);
    }
}

/// Accumulates an ordered waypoint list and a cost preference, then
/// builds the route that visits the waypoints in order.
pub struct PathBuilder<'a, U: Navigatable> {
    universe: &'a U,
    waypoints: Vec<System>,
    preference: Preference,
}

impl<'a, U: Navigatable> PathBuilder<'a, U> {
    /// The systems of the universe this builder searches.
    pub closed spec fn uni_systems(&self) -> Map<u32, System> {
        self.universe.nav_systems()
    }

    /// The edges of the universe this builder searches.
    pub closed spec fn uni_conns(&self) -> Seq<Connection> {
        self.universe.nav_conns()
    }

    /// The waypoints accumulated so far, in order.
    pub closed spec fn wps(&self) -> Seq<System> {
        self.waypoints@
    }

    /// The selected cost preference.
    pub closed spec fn pref(&self) -> Preference {
        self.preference
    }

    pub fn new(universe: &'a U) -> (r: Self)
        ensures
            r.uni_systems() == universe.nav_systems(),
            r.uni_conns() == universe.nav_conns(),
            r.wps() == Seq::<System>::empty(),
            r.pref() == Preference::Shortest,
    {
        Self { universe, waypoints: Vec::new(), preference: Preference::Shortest }
    }

    /// Append one waypoint.
    pub fn waypoint(self, system: &System) -> (r: Self)
        ensures
            r.uni_systems() == self.uni_systems(),
            r.uni_conns() == self.uni_conns(),
            r.wps() == self.wps().push(*system),
            r.pref() == self.pref(),
    {
        let PathBuilder { universe, mut waypoints, preference } = self;
        waypoints.push(system.clone());
        PathBuilder { universe, waypoints, preference }
    }

    /// Append several waypoints, in order.
    pub fn waypoints(self, systems: Vec<&System>) -> (r: Self)
        ensures
            r.uni_systems() == self.uni_systems(),
            r.uni_conns() == self.uni_conns(),
            r.pref() == self.pref(),
            r.wps().len() == self.wps().len() + systems@.len(),
            forall|i: int| 0 <= i < self.wps().len() ==> r.wps()[i] == self.wps()[i],
            forall|i: int|
                0 <= i < systems@.len() ==> r.wps()[self.wps().len() + i] == *(
                #[trigger] systems@[i]),
    {
        let ghost orig = self.waypoints@;
        let PathBuilder { universe, mut waypoints, preference } = self;
        let n = systems.len();
        let mut i: usize = 0;
        while i < n
            invariant
                n == systems@.len(),
                0 <= i <= n,
                waypoints@.len() == orig.len() + i,
                forall|j: int| 0 <= j < orig.len() ==> waypoints@[j] == orig[j],
                forall|j: int|
                    0 <= j < i ==> waypoints@[orig.len() + j] == *(#[trigger] systems@[j]),
            decreases n - i,
        {
            waypoints.push(systems[i].clone());
            i = i + 1;
        }
        PathBuilder { universe, waypoints, preference }
    }

    /// Select the cost preference for the build.
    pub fn prefer(self, preference: Preference) -> (r: Self)
        ensures
            r.uni_systems() == self.uni_systems(),
            r.uni_conns() == self.uni_conns(),
            r.wps() == self.wps(),
            r.pref() == preference,
    {
        let PathBuilder { universe, waypoints, preference: _ } = self;
        PathBuilder { universe, waypoints, preference }
    }

    /// Run the search once per consecutive waypoint pair and stitch the
    /// segments, collapsing the duplicate boundary elements where one
    /// segment's end waypoint is the next one's start. The result is
    /// `None` exactly when some pair is unreachable; a partial path is
    /// never returned.
    pub fn build(self) -> (r: Option<Path>)
        requires
            forall|t: int|
                0 <= t < self.wps().len() ==> self.uni_systems().contains_key(
                    (#[trigger] self.wps()[t]).id.0,
                ),
        ensures
            match built_segments(self.uni_systems(), self.uni_conns(), self.pref(), self.wps()) {
                None => r is None,
                Some((elems, jumps)) => match r {
                    Some(p) => p@ == dedup_adjacent(elems) && p.jumps_view() == jumps,
                    None => false,
                },
            },
            r is None ==> exists|k: int|
                0 <= k < self.wps().len() - 1 && pair_unreachable(
                    succ_map(self.uni_systems(), self.uni_conns(), self.pref()),
                    (#[trigger] self.wps()[k]).id.0,
                    self.wps()[k + 1].id.0,
                ),
            r is Some ==> forall|k: int|
                0 <= k < self.wps().len() - 1 ==> pair_connected(
                    succ_map(self.uni_systems(), self.uni_conns(), self.pref()),
                    (#[trigger] self.wps()[k]).id.0,
                    self.wps()[k + 1].id.0,
                ),
    {
        let ghost sys = self.uni_systems();
        let ghost conns = self.uni_conns();
        let ghost wps = self.wps();
        let ghost pref = self.pref();
        let mut elements: Vec<PathElement> = Vec::new();
        let mut jump_count: usize = 0;
        if self.waypoints.len() >= 2 {
            let nseg = self.waypoints.len() - 1;
            let mut k: usize = 0;
            while k < nseg
                invariant
                    sys == self.uni_systems(),
                    conns == self.uni_conns(),
                    wps == self.wps(),
                    pref == self.pref(),
                    wps.len() >= 2,
                    nseg == wps.len() - 1,
                    0 <= k <= nseg,
                    forall|t: int|
                        0 <= t < wps.len() ==> sys.contains_key((#[trigger] wps[t]).id.0),
                    built_segments(sys, conns, pref, wps.take(k + 1 as int)) == Some(
                        (elements@, jump_count as int),
                    ),
                    jump_count <= elements@.len(),
                    forall|j: int|
                        0 <= j < elements@.len() ==> elem_resolved(sys, #[trigger] elements@[j]),
                    forall|t: int|
                        0 <= t < k ==> pair_connected(
                            succ_map(sys, conns, pref),
                            (#[trigger] wps[t]).id.0,
                            wps[t + 1].id.0,
                        ),
                decreases nseg - k,
            {
                let a_id = self.waypoints[k].id.0;
                let b_id = self.waypoints[k + 1].id.0;
                match run_dijkstra(self.universe, &self.preference, a_id, b_id) {
                    None => {
                        proof {
                            assert(wps.take(k + 2 as int).drop_last() =~= wps.take(k + 1 as int));
                            assert(wps.take(k + 2 as int).last() == wps[k + 1 as int]);
                            assert(wps.take(k + 2 as int)[k as int] == wps[k as int]);
                            assert(built_segments(sys, conns, pref, wps.take(k + 2 as int))
                                is None);
                            lemma_built_segments_none(sys, conns, pref, wps, k + 2);
                            assert(pair_unreachable(succ_map(sys, conns, pref), a_id, b_id));
                            assert(0 <= k < wps.len() - 1 && (wps[k as int]).id.0 == a_id && wps[k
                                + 1 as int].id.0 == b_id);
                        }
                        return None;
                    },
                    Some((ids, _total)) => {
                        let ghost seg_elems0 = elements@;
                        let ghost jumps0 = jump_count as int;
                        let m = ids.len();
                        let mut t: usize = 0;
                        while t < m
                            invariant
                                sys == self.uni_systems(),
                                conns == self.uni_conns(),
                                pref == self.pref(),
                                m == ids@.len(),
                                0 <= t <= m,
                                is_route(succ_map(sys, conns, pref), ids@, a_id, b_id),
                                sys.contains_key(a_id),
                                elements@ == seg_elems0 + segment_elems(
                                    sys,
                                    conns,
                                    ids@.take(t as int),
                                    a_id,
                                    b_id,
                                ),
                                jump_count as int == jumps0 + (if t == 0 {
                                    0int
                                } else {
                                    t - 1
                                }),
                                jumps0 <= seg_elems0.len(),
                                jump_count <= elements@.len(),
                                forall|j: int|
                                    0 <= j < elements@.len() ==> elem_resolved(
                                        sys,
                                        #[trigger] elements@[j],
                                    ),
                            decreases m - t,
                        {
                            let id = ids[t];
                            proof {
                                assert(ids@.take(t + 1 as int).drop_last() =~= ids@.take(t as int));
                                assert(ids@.take(t + 1 as int).last() == ids@[t as int]);
                            }
                            if t > 0 {
                                proof {
                                    assert(has_step(
                                        succ_map(sys, conns, pref),
                                        ids@[t - 1 as int],
                                        ids@[t as int],
                                    ));
                                    lemma_step_dest(
                                        sys,
                                        conns,
                                        pref,
                                        ids@[t - 1 as int],
                                        ids@[t as int],
                                    );
                                }
                                let ct = find_connection(self.universe, ids[t - 1], id);
                                elements.push(PathElement::Connection(ct));
                                let grown = elements.len();
                                proof {
                                    assert(jump_count < grown);
                                }
                                jump_count = jump_count + 1;
                            }
                            let s = match self.universe.get_system(&SystemId(id)) {
                                Some(sref) => sref.clone(),
                                None => vstd::pervasive::unreached(),
                            };
                            let elem = if id == a_id || id == b_id {
                                PathElement::Waypoint(s)
                            } else {
                                PathElement::System(s)
                            };
                            elements.push(elem);
                            proof {
                                assert(elements@ =~= seg_elems0 + segment_elems(
                                    sys,
                                    conns,
                                    ids@.take(t + 1 as int),
                                    a_id,
                                    b_id,
                                ));
                            }
                            t = t + 1;
                        }
                        proof {
                            assert(ids@.take(m as int) =~= ids@);
                            assert(wps.take(k + 2 as int).drop_last() =~= wps.take(k + 1 as int));
                            assert(wps.take(k + 2 as int).last() == wps[k + 1 as int]);
                            assert(wps.take(k + 2 as int)[k as int] == wps[k as int]);
                            assert(built_segments(sys, conns, pref, wps.take(k + 2 as int)) == Some(
                                (elements@, jump_count as int),
                            ));
                            assert(is_route(succ_map(sys, conns, pref), ids@, a_id, b_id));
                            assert(pair_connected(succ_map(sys, conns, pref), a_id, b_id));
                        }
                    },
                }
                k = k + 1;
            }
            proof {
                assert(wps.take(nseg + 1 as int) =~= wps);
            }
        } else {
            proof {
                assert(wps.len() < 2);
            }
        }
        let deduped = dedup_elements(elements, Ghost(sys));
        Some(Path::new(deduped, jump_count))
    }
}

/// A forward cursor over a path's elements.
pub struct PathIterator<'a> {
    path: &'a Path,
    cur: usize,
}

impl<'a> PathIterator<'a> {
    /// The whole element sequence this cursor walks.
    pub closed spec fn elems(&self) -> Seq<PathElement> {
        self.path@
    }

    /// How many elements have been yielded.
    pub closed spec fn cursor(&self) -> int {
        self.cur as int
    }

    /// The elements not yet yielded.
    pub open spec fn remaining(&self) -> Seq<PathElement> {
        if self.cursor() <= self.elems().len() {
            self.elems().skip(self.cursor())
        } else {
            Seq::empty()
        }
    }

    /// The next element, or `None` once all have been yielded.
    pub fn next(&mut self) -> (r: Option<&'a PathElement>)
        ensures
            final(self).elems() == old(self).elems(),
            match r {
                Some(e) => {
                    &&& old(self).cursor() < old(self).elems().len()
                    &&& *e == old(self).elems()[old(self).cursor()]
                    &&& final(self).cursor() == old(self).cursor() + 1
                },
                None => {
                    &&& old(self).cursor() >= old(self).elems().len()
                    &&& final(self).cursor() == old(self).cursor()
                },
            },
    {
        if self.cur < self.path.elements.len() {
            let e = &self.path.elements[self.cur];
            self.cur = self.cur + 1;
            Some(e)
        } else {
            None
        }
    }
}

} // verus!
