//! Builders: assemble a universe from flat records, and an extended
//! universe from a base plus transient or synthesized edges.

use vstd::prelude::*;

use crate::types::{
    bridge_range, within_radius, AdjacentMap, BridgeType, Connection, ConnectionType,
    ExtendedUniverse, Lightyears, Navigatable, System, SystemId, SystemMap, Universe,
    METERS_PER_TENTH_LIGHTYEAR,
};

verus! {

/// Build a universe from a list of systems and connections, added one
/// at a time.
pub struct UniverseBuilder {
    systems: SystemMap,
    connections: AdjacentMap,
}

impl UniverseBuilder {
    /// The systems added so far, by ID; on a collision the last one
    /// added won.
    pub closed spec fn sys_map(&self) -> Map<u32, System> {
        self.systems.as_map()
    }

    /// The connections added so far, in order.
    pub closed spec fn conns(&self) -> Seq<Connection> {
        self.connections@
    }

    pub fn new() -> (r: Self)
        ensures
            r.sys_map() == Map::<u32, System>::empty(),
            r.conns() == Seq::<Connection>::empty(),
    {
        Self { systems: SystemMap::empty(), connections: AdjacentMap::empty() }
    }

    /// Add one system; an earlier system with the same ID is replaced.
    pub fn system(self, system: System) -> (r: Self)
        ensures
            r.sys_map() == self.sys_map().insert(system.id.0, system),
            r.conns() == self.conns(),
    {
        let UniverseBuilder { systems, connections } = self;
        UniverseBuilder { systems: systems.insert(system), connections }
    }

    /// Add one directed connection behind the earlier edges of its
    /// `from` system.
    pub fn connection(self, connection: Connection) -> (r: Self)
        ensures
            r.sys_map() == self.sys_map(),
            r.conns() == self.conns().push(connection),
    {
        let UniverseBuilder { systems, connections } = self;
        UniverseBuilder { systems, connections: connections.push(connection) }
    }

    pub fn build(self) -> (r: Universe)
        ensures
            r.nav_systems() == self.sys_map(),
            r.nav_conns() == self.conns(),
    {
        let UniverseBuilder { systems, connections } = self;
        Universe::new(systems, connections)
    }
}

/// The radius, in meters, that a bridge of this kind reaches.
pub open spec fn bridge_reach(type_: BridgeType) -> u64 {
    (bridge_range(type_).0 * METERS_PER_TENTH_LIGHTYEAR) as u64
}

/// Extend an existing universe with additional connections, either
/// given outright or synthesized from a bridge's range.
pub struct ExtendedUniverseBuilder<'a, U: Navigatable> {
    universe: &'a U,
    connections: AdjacentMap,
}

impl<'a, U: Navigatable> ExtendedUniverseBuilder<'a, U> {
    /// The systems of the base universe.
    pub closed spec fn base_systems(&self) -> Map<u32, System> {
        self.universe.nav_systems()
    }

    /// The edges of the base universe.
    pub closed spec fn base_conns(&self) -> Seq<Connection> {
        self.universe.nav_conns()
    }

    /// The edges added on top of the base so far, in order.
    pub closed spec fn added(&self) -> Seq<Connection> {
        self.connections@
    }

    pub fn new(universe: &'a U) -> (r: Self)
        ensures
            r.base_systems() == universe.nav_systems(),
            r.base_conns() == universe.nav_conns(),
            r.added() == Seq::<Connection>::empty(),
    {
        Self { universe, connections: AdjacentMap::empty() }
    }

    /// Include a bridge opened at `location`: one directed bridge edge
    /// from there to every system within the bridge's range (the
    /// origin itself included), and to no system beyond it. An unknown
    /// location adds nothing.
    pub fn bridge(self, location: SystemId, type_: BridgeType) -> (r: Self)
        ensures
            r.base_systems() == self.base_systems(),
            r.base_conns() == self.base_conns(),
            r.added().len() >= self.added().len(),
            forall|j: int| 0 <= j < self.added().len() ==> r.added()[j] == self.added()[j],
            ({
                let sys = self.base_systems();
                if sys.contains_key(location.0) {
                    let o = sys[location.0].coordinate;
                    &&& forall|j: int|
                        self.added().len() <= j < r.added().len() ==> {
                            &&& (#[trigger] r.added()[j]).from == location
                            &&& r.added()[j].type_ == ConnectionType::Bridge(type_)
                            &&& sys.contains_key(r.added()[j].to.0)
                            &&& within_radius(
                                o,
                                sys[r.added()[j].to.0].coordinate,
                                bridge_reach(type_),
                            )
                        }
                    &&& forall|id: u32|
                        sys.contains_key(id) && within_radius(
                            o,
                            (#[trigger] sys[id]).coordinate,
                            bridge_reach(type_),
                        ) ==> exists|j: int|
                            self.added().len() <= j < r.added().len() && r.added()[j].to.0 == id
                } else {
                    r.added() == self.added()
                }
            }),
    {
        let ghost sys = self.base_systems();
        let ghost added0 = self.added();
        let ly = Lightyears::from(type_);
        proof {
            assert(ly.0 * METERS_PER_TENTH_LIGHTYEAR <= u64::MAX && ly.0
                * METERS_PER_TENTH_LIGHTYEAR == bridge_reach(type_)) by (nonlinear_arith)
                requires
                    ly == bridge_range(type_),
            ;
        }
        let meters = ly.to_meters();
        match self.universe.get_systems_by_range(&location, meters) {
            None => self,
            Some(ends) => {
                let ExtendedUniverseBuilder { universe, mut connections } = self;
                let n = ends.len();
                let mut i: usize = 0;
                while i < n
                    invariant
                        n == ends@.len(),
                        0 <= i <= n,
                        connections@.len() == added0.len() + i,
                        forall|j: int| 0 <= j < added0.len() ==> connections@[j] == added0[j],
                        forall|j: int|
                            0 <= j < i ==> connections@[added0.len() + j] == (Connection {
                                from: location,
                                to: (#[trigger] ends@[j]).id,
                                type_: ConnectionType::Bridge(type_),
                            }),
                    decreases n - i,
                {
                    let end_id = ends[i].id;
                    connections = connections.push(
                        Connection {
                            from: location,
                            to: end_id,
                            type_: ConnectionType::Bridge(type_),
                        },
                    );
                    i = i + 1;
                }
                let r = ExtendedUniverseBuilder { universe, connections };
                proof {
                    assert forall|j: int| added0.len() <= j < r.added().len() implies {
                        &&& (#[trigger] r.added()[j]).from == location
                        &&& r.added()[j].type_ == ConnectionType::Bridge(type_)
                        &&& sys.contains_key(r.added()[j].to.0)
                        &&& within_radius(
                            sys[location.0].coordinate,
                            sys[r.added()[j].to.0].coordinate,
                            bridge_reach(type_),
                        )
                    } by {
                        let jj = j - added0.len();
                        assert(r.added()[j] == (Connection {
                            from: location,
                            to: (ends@[jj]).id,
                            type_: ConnectionType::Bridge(type_),
                        }));
                        assert(sys.contains_key((ends@[jj]).id.0) && ends@[jj] == sys[(
                        ends@[jj]).id.0] && within_radius(
                            sys[location.0].coordinate,
                            (ends@[jj]).coordinate,
                            meters.0,
                        ));
                    }
                    assert forall|id: u32|
                        sys.contains_key(id) && within_radius(
                            sys[location.0].coordinate,
                            (#[trigger] sys[id]).coordinate,
                            bridge_reach(type_),
                        ) implies exists|j: int|
                        added0.len() <= j < r.added().len() && r.added()[j].to.0 == id by {
                        let j0 = choose|j: int| 0 <= j < ends@.len() && (#[trigger] ends@[j]).id.0
                            == id;
                        assert(r.added()[added0.len() + j0].to.0 == id);
                    }
                }
                r
            },
        }
    }

    /// Add one directed connection outright.
    pub fn connection(self, connection: Connection) -> (r: Self)
        ensures
            r.base_systems() == self.base_systems(),
            r.base_conns() == self.base_conns(),
            r.added() == self.added().push(connection),
    {
        let ExtendedUniverseBuilder { universe, connections } = self;
        ExtendedUniverseBuilder { universe, connections: connections.push(connection) }
    }

    pub fn build(self) -> (r: ExtendedUniverse<'a, U>)
        ensures
            r.nav_systems() == self.base_systems(),
            r.nav_conns() == self.base_conns() + self.added(),
    {
        let ExtendedUniverseBuilder { universe, connections } = self;
        ExtendedUniverse::new(universe, connections)
    }
}

} // verus!
