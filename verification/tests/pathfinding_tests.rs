use neweden::navigation::{PathBuilder, PathElement, Preference};
use neweden::{
    Connection, ConnectionType, Coordinate, Navigatable, Security, SecurityClass, StargateType,
    System, SystemId, Universe, UniverseBuilder, WormholeType,
};

fn system(id: u32, name: &str, security: i32) -> System {
    System {
        id: SystemId(id),
        name: name.to_string(),
        coordinate: Coordinate { x: 0, y: 0, z: 0 },
        security: Security(security),
    }
}

fn gate(from: u32, to: u32) -> Connection {
    Connection {
        from: SystemId(from),
        to: SystemId(to),
        type_: ConnectionType::Stargate(StargateType::Local),
    }
}

/// The three-system chain A -> B -> C over local stargates.
fn chain_universe() -> Universe {
    UniverseBuilder::new()
        .system(system(1, "A", 1000))
        .system(system(2, "B", 1000))
        .system(system(3, "C", 1000))
        .connection(gate(1, 2))
        .connection(gate(2, 3))
        .build()
}

fn collect_elements(path: &neweden::navigation::Path) -> Vec<PathElement> {
    let mut out = Vec::new();
    let mut it = path.iter();
    while let Some(e) = it.next() {
        out.push(e.clone());
    }
    out
}

#[test]
fn shortest_path_over_chain() {
    let u = chain_universe();
    let a = u.get_system(&SystemId(1)).unwrap();
    let c = u.get_system(&SystemId(3)).unwrap();
    let path = PathBuilder::new(&u).waypoint(a).waypoint(c).build().expect("A reaches C");
    assert_eq!(2, path.jumps());
    let local = ConnectionType::Stargate(StargateType::Local);
    let expected = vec![
        PathElement::Waypoint(system(1, "A", 1000)),
        PathElement::Connection(local.clone()),
        PathElement::System(system(2, "B", 1000)),
        PathElement::Connection(local),
        PathElement::Waypoint(system(3, "C", 1000)),
    ];
    assert_eq!(collect_elements(&path), expected);
    assert_eq!(path.from().unwrap().name, "A");
    assert_eq!(path.to().unwrap().name, "C");
    let names: Vec<String> = path.systems().iter().map(|s| s.name.clone()).collect();
    assert_eq!(names, vec!["A", "B", "C"]);
}

#[test]
fn overlay_shortcut_wins() {
    let u = chain_universe();
    let wormhole = Connection {
        from: SystemId(1),
        to: SystemId(3),
        type_: ConnectionType::Wormhole(WormholeType::VeryLarge),
    };
    let extended = u.extend(neweden::AdjacentMap::from(vec![wormhole]));
    let a = extended.get_system(&SystemId(1)).unwrap();
    let c = extended.get_system(&SystemId(3)).unwrap();
    let path = PathBuilder::new(&extended).waypoint(a).waypoint(c).build().expect("A reaches C");
    assert_eq!(1, path.jumps());
    let expected = vec![
        PathElement::Waypoint(system(1, "A", 1000)),
        PathElement::Connection(ConnectionType::Wormhole(WormholeType::VeryLarge)),
        PathElement::Waypoint(system(3, "C", 1000)),
    ];
    assert_eq!(collect_elements(&path), expected);
}

#[test]
fn disconnected_pair_yields_no_path() {
    let u = UniverseBuilder::new()
        .system(system(1, "A", 1000))
        .system(system(2, "B", 1000))
        .build();
    let a = u.get_system(&SystemId(1)).unwrap();
    let b = u.get_system(&SystemId(2)).unwrap();
    let path = PathBuilder::new(&u).waypoint(a).waypoint(b).build();
    assert!(path.is_none());
}

#[test]
fn few_waypoints_yield_empty_path() {
    let u = chain_universe();
    let empty = PathBuilder::new(&u).build().expect("no waypoints is a no-op");
    assert_eq!(0, empty.jumps());
    assert!(empty.from().is_none());
    assert!(empty.to().is_none());
    assert!(collect_elements(&empty).is_empty());
    let a = u.get_system(&SystemId(1)).unwrap();
    let single = PathBuilder::new(&u).waypoint(a).build().expect("one waypoint is a no-op");
    assert_eq!(0, single.jumps());
    assert!(collect_elements(&single).is_empty());
}

#[test]
fn build_is_deterministic() {
    let u = chain_universe();
    let a = u.get_system(&SystemId(1)).unwrap();
    let c = u.get_system(&SystemId(3)).unwrap();
    let p1 = PathBuilder::new(&u).waypoint(a).waypoint(c).build().unwrap();
    let p2 = PathBuilder::new(&u).waypoint(a).waypoint(c).build().unwrap();
    assert_eq!(p1.jumps(), p2.jumps());
    assert_eq!(collect_elements(&p1), collect_elements(&p2));
}

#[test]
fn iteration_is_restartable() {
    let u = chain_universe();
    let a = u.get_system(&SystemId(1)).unwrap();
    let c = u.get_system(&SystemId(3)).unwrap();
    let path = PathBuilder::new(&u).waypoint(a).waypoint(c).build().unwrap();
    let first = collect_elements(&path);
    let second = collect_elements(&path);
    assert_eq!(first, second);
    assert_eq!(first.len(), 5);
}

#[test]
fn waypoint_chain_collapses_boundaries() {
    let u = chain_universe();
    let a = u.get_system(&SystemId(1)).unwrap();
    let b = u.get_system(&SystemId(2)).unwrap();
    let c = u.get_system(&SystemId(3)).unwrap();
    let path = PathBuilder::new(&u)
        .waypoints(vec![a, b, c])
        .build()
        .expect("both pairs reachable");
    // Two segments of one jump each; B appears once, as a waypoint.
    assert_eq!(2, path.jumps());
    let local = ConnectionType::Stargate(StargateType::Local);
    let expected = vec![
        PathElement::Waypoint(system(1, "A", 1000)),
        PathElement::Connection(local.clone()),
        PathElement::Waypoint(system(2, "B", 1000)),
        PathElement::Connection(local),
        PathElement::Waypoint(system(3, "C", 1000)),
    ];
    assert_eq!(collect_elements(&path), expected);
}

#[test]
fn repeated_waypoint_is_a_single_element() {
    let u = chain_universe();
    let a = u.get_system(&SystemId(1)).unwrap();
    let path = PathBuilder::new(&u).waypoint(a).waypoint(a).build().expect("trivial segment");
    assert_eq!(0, path.jumps());
    let expected = vec![PathElement::Waypoint(system(1, "A", 1000))];
    assert_eq!(collect_elements(&path), expected);
}

#[test]
fn parallel_edges_tie_off_by_insertion_order() {
    let wormhole = Connection {
        from: SystemId(1),
        to: SystemId(2),
        type_: ConnectionType::Wormhole(WormholeType::Medium),
    };
    let u = UniverseBuilder::new()
        .system(system(1, "A", 1000))
        .system(system(2, "B", 1000))
        .connection(gate(1, 2))
        .connection(wormhole)
        .build();
    let a = u.get_system(&SystemId(1)).unwrap();
    let b = u.get_system(&SystemId(2)).unwrap();
    let path = PathBuilder::new(&u).waypoint(a).waypoint(b).build().unwrap();
    assert_eq!(1, path.jumps());
    // Both edges cost the same; the first recorded one is reported.
    let expected = vec![
        PathElement::Waypoint(system(1, "A", 1000)),
        PathElement::Connection(ConnectionType::Stargate(StargateType::Local)),
        PathElement::Waypoint(system(2, "B", 1000)),
    ];
    assert_eq!(collect_elements(&path), expected);
}

fn low_hop_count(path: &neweden::navigation::Path) -> usize {
    // Hops are the systems entered after the first element.
    path.systems()
        .iter()
        .skip(1)
        .filter(|s| SecurityClass::from(s.security) != SecurityClass::Highsec)
        .count()
}

#[test]
fn highsec_preference_avoids_lowsec_hops() {
    // A short route through Lowsec and a longer all-Highsec detour.
    let u = UniverseBuilder::new()
        .system(system(1, "Start", 1000))
        .system(system(2, "Shortcut", 300))
        .system(system(3, "Goal", 1000))
        .system(system(4, "Safe1", 900))
        .system(system(5, "Safe2", 800))
        .system(system(6, "Safe3", 700))
        .connection(gate(1, 2))
        .connection(gate(2, 3))
        .connection(gate(1, 4))
        .connection(gate(4, 5))
        .connection(gate(5, 6))
        .connection(gate(6, 3))
        .build();
    let start = u.get_system(&SystemId(1)).unwrap();
    let goal = u.get_system(&SystemId(3)).unwrap();
    let shortest = PathBuilder::new(&u)
        .waypoint(start)
        .waypoint(goal)
        .prefer(Preference::Shortest)
        .build()
        .unwrap();
    let safest = PathBuilder::new(&u)
        .waypoint(start)
        .waypoint(goal)
        .prefer(Preference::Highsec)
        .build()
        .unwrap();
    assert_eq!(shortest.jumps(), 2);
    assert_eq!(low_hop_count(&shortest), 1);
    assert_eq!(safest.jumps(), 4);
    assert_eq!(low_hop_count(&safest), 0);
    assert!(low_hop_count(&safest) <= low_hop_count(&shortest));
}

#[test]
fn lowsec_preference_seeks_lowsec() {
    // A short route through Highsec and a longer Lowsec detour.
    let u = UniverseBuilder::new()
        .system(system(1, "Start", 400))
        .system(system(2, "Bright", 1000))
        .system(system(3, "Goal", 400))
        .system(system(4, "Dim1", 200))
        .system(system(5, "Dim2", -100))
        .connection(gate(1, 2))
        .connection(gate(2, 3))
        .connection(gate(1, 4))
        .connection(gate(4, 5))
        .connection(gate(5, 3))
        .build();
    let start = u.get_system(&SystemId(1)).unwrap();
    let goal = u.get_system(&SystemId(3)).unwrap();
    let path = PathBuilder::new(&u)
        .waypoint(start)
        .waypoint(goal)
        .prefer(Preference::LowsecAndNullsec)
        .build()
        .unwrap();
    assert_eq!(path.jumps(), 3);
    let names: Vec<String> = path.systems().iter().map(|s| s.name.clone()).collect();
    assert_eq!(names, vec!["Start", "Dim1", "Dim2", "Goal"]);
}

#[test]
fn nested_overlays_union_transitively() {
    let u = UniverseBuilder::new()
        .system(system(1, "A", 1000))
        .system(system(2, "B", 1000))
        .system(system(3, "C", 1000))
        .build();
    let first = u.extend(neweden::AdjacentMap::from(vec![gate(1, 2)]));
    let second = neweden::ExtendedUniverse::new(
        &first,
        neweden::AdjacentMap::from(vec![gate(2, 3)]),
    );
    let a = second.get_system(&SystemId(1)).unwrap();
    let c = second.get_system(&SystemId(3)).unwrap();
    let path = PathBuilder::new(&second).waypoint(a).waypoint(c).build().expect("A reaches C");
    assert_eq!(2, path.jumps());
    // The inner overlay and the base both stand unchanged.
    assert!(first.get_connections(&SystemId(2)).is_none());
    assert!(u.get_connections(&SystemId(1)).is_none());
}

#[test]
fn unreachable_middle_waypoint_fails_whole_build() {
    let u = UniverseBuilder::new()
        .system(system(1, "A", 1000))
        .system(system(2, "B", 1000))
        .system(system(3, "C", 1000))
        .connection(gate(1, 2))
        .build();
    let a = u.get_system(&SystemId(1)).unwrap();
    let b = u.get_system(&SystemId(2)).unwrap();
    let c = u.get_system(&SystemId(3)).unwrap();
    // A reaches B, but B does not reach C: no partial path comes back.
    let path = PathBuilder::new(&u).waypoints(vec![a, b, c]).build();
    assert!(path.is_none());
}
