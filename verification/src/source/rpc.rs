//! Construction from flat records whose topology arrives as undirected
//! links: each link becomes a pair of directed local stargate edges.

use vstd::prelude::*;

use crate::types::{
    system_map_of, AdjacentMap, Connection, ConnectionType, Navigatable, StargateType, System,
    SystemId, SystemMap, Universe,
};

verus! {

/// The two directed local stargate edges an undirected link denotes.
pub open spec fn directed_pair(link: (SystemId, SystemId)) -> Seq<Connection> {
    seq![
        Connection { from: link.0, to: link.1, type_: ConnectionType::Stargate(StargateType::Local) },
        Connection { from: link.1, to: link.0, type_: ConnectionType::Stargate(StargateType::Local) },
    ]
}

/// The directed edge sequence a list of undirected links denotes, in
/// link order.
pub open spec fn directed_of(links: Seq<(SystemId, SystemId)>) -> Seq<Connection>
    decreases links.len(),
{
    if links.len() == 0 {
        Seq::empty()
    } else {
        directed_of(links.drop_last()) + directed_pair(links.last())
    }
}

/// Turn one undirected link into its two directed edges.
pub fn conv_undirected_to_directed(other: (SystemId, SystemId)) -> (r: Vec<Connection>)
    ensures
        r@ == directed_pair(other),
{
    let mut r: Vec<Connection> = Vec::new();
    r.push(Connection { from: other.0, to: other.1, type_: ConnectionType::Stargate(StargateType::Local) });
    r.push(Connection { from: other.1, to: other.0, type_: ConnectionType::Stargate(StargateType::Local) });
    proof {
        assert(r@ =~= directed_pair(other));
    }
    r
}

/// Builds a universe from flat system records and undirected links.
pub struct RpcTypeBuilder {
    systems: Vec<System>,
    connections: Vec<(SystemId, SystemId)>,
}

impl RpcTypeBuilder {
    /// The system records handed in, in order.
    pub closed spec fn sys_records(&self) -> Seq<System> {
        self.systems@
    }

    /// The undirected links handed in, in order.
    pub closed spec fn links(&self) -> Seq<(SystemId, SystemId)> {
        self.connections@
    }

    pub fn new(systems: Vec<System>, connections: Vec<(SystemId, SystemId)>) -> (r: Self)
        ensures
            r.sys_records() == systems@,
            r.links() == connections@,
    {
        Self { systems, connections }
    }

    pub fn build(self) -> (r: Universe)
        ensures
            r.nav_systems() == system_map_of(self.sys_records()),
            r.nav_conns() == directed_of(self.links()),
    {
        let RpcTypeBuilder { systems, connections } = self;
        let system_map = SystemMap::from(systems);
        let mut directed: Vec<Connection> = Vec::new();
        let n = connections.len();
        let ghost links = connections@;
        let mut i: usize = 0;
        while i < n
            invariant
                n == links.len(),
                connections@ == links,
                0 <= i <= n,
                directed@ == directed_of(links.take(i as int)),
            decreases n - i,
        {
            let link = connections[i];
            directed.push(Connection {
                from: link.0,
                to: link.1,
                type_: ConnectionType::Stargate(StargateType::Local),
            });
            directed.push(Connection {
                from: link.1,
                to: link.0,
                type_: ConnectionType::Stargate(StargateType::Local),
            });
            proof {
                assert(links.take(i + 1 as int).drop_last() =~= links.take(i as int));
                assert(links.take(i + 1 as int).last() == links[i as int]);
                assert(directed@ =~= directed_of(links.take(i as int)) + directed_pair(
                    links[i as int],
                ));
            }
            i = i + 1;
        }
        proof {
            assert(links.take(n as int) =~= links);
        }
        Universe::new(system_map, AdjacentMap::from(directed))
    }
}

} // verus!
