use neweden::navigation::Preference;
use neweden::rules::allows_cynos;
use neweden::source::rpc::{conv_undirected_to_directed, RpcTypeBuilder};
use neweden::{
    Au, BridgeType, Connection, ConnectionType, Coordinate, ExtendedUniverseBuilder, Galaxy,
    JumpdriveShip, JumpdriveSkills, Kilometers, Lightyears, Navigatable, Security, SecurityClass,
    StargateType, System, SystemClass, SystemId, UniverseBuilder, WormholeType,
};

fn system(id: u32, name: &str, x: i64, y: i64, z: i64, security: i32) -> System {
    System {
        id: SystemId(id),
        name: name.to_string(),
        coordinate: Coordinate { x, y, z },
        security: Security(security),
    }
}

#[test]
fn it_works() {
    assert_eq!(2 + 2, 4);
}

#[test]
fn test_ship_range_calculation() {
    let ly: Lightyears = JumpdriveShip::Titan(JumpdriveSkills::new(5, 1)).into();
    assert_eq!(Lightyears(60), ly);
}

#[test]
fn bridge_range_calculation() {
    let titan: Lightyears = BridgeType::Titan(JumpdriveSkills::new(5, 1)).into();
    assert_eq!(Lightyears(60), titan);
    let blackops: Lightyears = BridgeType::BlackOps(JumpdriveSkills::new(4, 5)).into();
    // 4.0 ly + 4.0 * 0.2 * 4 = 7.2 ly
    assert_eq!(Lightyears(72), blackops);
}

#[test]
fn security_classification() {
    assert_eq!(SecurityClass::from(Security(443)), SecurityClass::Lowsec);
    assert_eq!(SecurityClass::from(Security(-240)), SecurityClass::Nullsec);
    assert_eq!(SecurityClass::from(Security(740)), SecurityClass::Highsec);
    // 0.45 rounds to 0.5, away from zero, and 0.5 is Highsec.
    assert_eq!(SecurityClass::from(Security(450)), SecurityClass::Highsec);
    assert_eq!(SecurityClass::from(Security(449)), SecurityClass::Lowsec);
    // 0.0 is Lowsec; only a rounded value below 0.0 is Nullsec.
    assert_eq!(SecurityClass::from(Security(0)), SecurityClass::Lowsec);
    assert_eq!(SecurityClass::from(Security(-40)), SecurityClass::Lowsec);
    assert_eq!(SecurityClass::from(Security(-50)), SecurityClass::Nullsec);
    assert_eq!(SecurityClass::from(Security(1000)), SecurityClass::Highsec);
    assert_eq!(SecurityClass::from(Security(-1000)), SecurityClass::Nullsec);
}

#[test]
fn system_class_ranges() {
    let k = system(30000142, "Jita", 0, 0, 0, 946);
    assert_eq!(SystemClass::from(&k), SystemClass::KSpace);
    let w = system(31000001, "J100001", 0, 0, 0, -1000);
    assert_eq!(SystemClass::from(&w), SystemClass::WSpace);
}

#[test]
fn cyno_rules() {
    let highsec = system(30000142, "Jita", 0, 0, 0, 946);
    assert!(!allows_cynos(&highsec));
    let lowsec = system(30000049, "Camal", 0, 0, 0, 400);
    assert!(allows_cynos(&lowsec));
    let nullsec = system(30000100, "XQ-100", 0, 0, 0, -300);
    assert!(allows_cynos(&nullsec));
    let wspace = system(31000001, "J100001", 0, 0, 0, -1000);
    assert!(!allows_cynos(&wspace));
}

#[test]
fn unit_conversions_are_exact() {
    // 1.0 ly is exactly 9,460,730,472,580.8 km.
    assert_eq!(Lightyears(10).to_meters().0, 9_460_730_472_580_800);
    assert_eq!(Lightyears(60).to_meters().0, 56_764_382_835_484_800);
    assert_eq!(Au(1).to_meters().0, 149_597_871_000);
    assert_eq!(Kilometers(25).to_meters().0, 25_000);
}

#[test]
fn system_equality_is_by_id() {
    let a = system(7, "Alpha", 0, 0, 0, 500);
    let b = system(7, "Beta", 5, 5, 5, -100);
    let c = system(8, "Alpha", 0, 0, 0, 500);
    assert_eq!(a, b);
    assert_ne!(a, c);
}

#[test]
fn lookup_after_build() {
    let u = UniverseBuilder::new()
        .system(system(1, "A", 0, 0, 0, 1000))
        .system(system(2, "B", 10, 0, 0, 500))
        .build();
    let a = u.get_system(&SystemId(1)).expect("system 1 is recorded");
    assert_eq!(a.id, SystemId(1));
    assert_eq!(a.name, "A");
    let b = u.get_system(&SystemId(2)).expect("system 2 is recorded");
    assert_eq!(b.id, SystemId(2));
    assert!(u.get_system(&SystemId(3)).is_none());
}

#[test]
fn duplicate_system_ids_last_write_wins() {
    let u = UniverseBuilder::new()
        .system(system(1, "Old", 0, 0, 0, 1000))
        .system(system(1, "New", 9, 9, 9, -100))
        .build();
    let s = u.get_system(&SystemId(1)).expect("system 1 is recorded");
    assert_eq!(s.name, "New");
    assert_eq!(s.coordinate, Coordinate { x: 9, y: 9, z: 9 });
    assert_eq!(u.systems().len(), 1);
}

#[test]
fn connections_group_by_source_in_order() {
    let gate = |from: u32, to: u32, t: StargateType| Connection {
        from: SystemId(from),
        to: SystemId(to),
        type_: ConnectionType::Stargate(t),
    };
    let u = UniverseBuilder::new()
        .system(system(1, "A", 0, 0, 0, 1000))
        .system(system(2, "B", 1, 0, 0, 1000))
        .system(system(3, "C", 2, 0, 0, 1000))
        .connection(gate(1, 2, StargateType::Local))
        .connection(gate(2, 3, StargateType::Regional))
        .connection(gate(1, 3, StargateType::Constellation))
        .build();
    let from_a = u.get_connections(&SystemId(1)).expect("A has edges");
    assert_eq!(from_a.len(), 2);
    assert_eq!(from_a[0].to, SystemId(2));
    assert_eq!(from_a[0].type_, ConnectionType::Stargate(StargateType::Local));
    assert_eq!(from_a[1].to, SystemId(3));
    assert_eq!(from_a[1].type_, ConnectionType::Stargate(StargateType::Constellation));
    let from_b = u.get_connections(&SystemId(2)).expect("B has edges");
    assert_eq!(from_b.len(), 1);
    assert_eq!(from_b[0].to, SystemId(3));
    // C has no outgoing edges: None, not an empty list.
    assert!(u.get_connections(&SystemId(3)).is_none());
}

#[test]
fn stargate_classification() {
    assert_eq!(
        StargateType::classify(Some(10), Some(100), Some(100), Some(10)),
        StargateType::Local
    );
    assert_eq!(
        StargateType::classify(Some(10), Some(100), Some(101), Some(10)),
        StargateType::Constellation
    );
    assert_eq!(
        StargateType::classify(Some(10), Some(100), Some(200), Some(11)),
        StargateType::Regional
    );
}

#[test]
fn radius_query_brute_force() {
    // A small synthetic universe; every in-radius decision is checked
    // against a brute-force squared-distance computation.
    let coords: [(u32, i64, i64, i64); 6] = [
        (1, 0, 0, 0),
        (2, 30, 40, 0),
        (3, -30, -40, 0),
        (4, 0, 0, 51),
        (5, 35, 35, 10),
        (6, 1_000_000, 0, 0),
    ];
    let mut b = UniverseBuilder::new();
    for (id, x, y, z) in coords {
        b = b.system(system(id, &format!("S{}", id), x, y, z, 500));
    }
    let u = b.build();
    let radius: u64 = 50;
    let got = u
        .get_systems_by_range(&SystemId(1), neweden::Meters(radius))
        .expect("origin is known");
    let mut got_ids: Vec<u32> = got.iter().map(|s| s.id.0).collect();
    got_ids.sort();
    let mut expected: Vec<u32> = Vec::new();
    for (id, x, y, z) in coords {
        let d2 = (x as i128) * (x as i128) + (y as i128) * (y as i128) + (z as i128) * (z as i128);
        if d2 <= (radius as i128) * (radius as i128) {
            expected.push(id);
        }
    }
    expected.sort();
    // Systems 1 (the origin), 2 and 3 lie within 50 m; 4 at 51 m, 5 at
    // ~50.6 m and 6 far out do not.
    assert_eq!(expected, vec![1, 2, 3]);
    assert_eq!(got_ids, expected);
    assert!(u.get_systems_by_range(&SystemId(99), neweden::Meters(radius)).is_none());
}

#[test]
fn radius_query_with_extreme_coordinates() {
    // The squared distance here exceeds even the largest radius
    // squared; the comparison must stay exact rather than wrap.
    let u = UniverseBuilder::new()
        .system(system(1, "Origin", i64::MIN, i64::MIN, i64::MIN, 0))
        .system(system(2, "Far", i64::MAX, i64::MAX, i64::MAX, 0))
        .build();
    let got = u
        .get_systems_by_range(&SystemId(1), neweden::Meters(u64::MAX))
        .expect("origin is known");
    let ids: Vec<u32> = got.iter().map(|s| s.id.0).collect();
    assert_eq!(ids, vec![1]);
}

#[test]
fn bridge_synthesis_covers_range_exactly() {
    // A Titan with calibration 5 reaches 3.0 + 3.0 * 0.2 * 5 = 6.0 ly.
    let reach: i64 = 56_764_382_835_484_800;
    let u = UniverseBuilder::new()
        .system(system(1, "Origin", 0, 0, 0, 500))
        .system(system(2, "OnBoundary", reach, 0, 0, 500))
        .system(system(3, "Near", 1_000, 2_000, 3_000, -200))
        .system(system(4, "Beyond", reach + 1, 0, 0, 500))
        .build();
    let skills = JumpdriveSkills::new(5, 1);
    let extended = ExtendedUniverseBuilder::new(&u)
        .bridge(SystemId(1), BridgeType::Titan(skills.clone()))
        .build();
    let edges = extended.get_connections(&SystemId(1)).expect("bridges were added");
    let mut to_ids: Vec<u32> = edges.iter().map(|c| c.to.0).collect();
    to_ids.sort();
    assert_eq!(to_ids, vec![1, 2, 3]);
    for c in &edges {
        assert_eq!(c.from, SystemId(1));
        assert_eq!(c.type_, ConnectionType::Bridge(BridgeType::Titan(skills.clone())));
    }
    // The base universe is untouched.
    assert!(u.get_connections(&SystemId(1)).is_none());
}

#[test]
fn bridge_from_unknown_location_adds_nothing() {
    let u = UniverseBuilder::new().system(system(1, "A", 0, 0, 0, 500)).build();
    let extended = ExtendedUniverseBuilder::new(&u)
        .bridge(SystemId(42), BridgeType::BlackOps(JumpdriveSkills::new(5, 5)))
        .build();
    assert!(extended.get_connections(&SystemId(42)).is_none());
    assert!(extended.get_connections(&SystemId(1)).is_none());
}

#[test]
fn overlay_leaves_base_unmodified() {
    let gate = Connection {
        from: SystemId(1),
        to: SystemId(2),
        type_: ConnectionType::Stargate(StargateType::Local),
    };
    let u = UniverseBuilder::new()
        .system(system(1, "A", 0, 0, 0, 1000))
        .system(system(2, "B", 1, 0, 0, 1000))
        .connection(gate.clone())
        .build();
    let before = u.get_connections(&SystemId(1)).expect("A has an edge");
    let wormhole = Connection {
        from: SystemId(1),
        to: SystemId(2),
        type_: ConnectionType::Wormhole(WormholeType::Small),
    };
    let extended = u.extend(neweden::AdjacentMap::from(vec![wormhole.clone()]));
    // The overlay sees the union, base edges first.
    let merged = extended.get_connections(&SystemId(1)).expect("A has edges");
    assert_eq!(merged.len(), 2);
    assert_eq!(merged[0].type_, gate.type_);
    assert_eq!(merged[1].type_, wormhole.type_);
    // Querying the base directly still yields exactly the pre-overlay
    // edge set.
    let after = u.get_connections(&SystemId(1)).expect("A still has its edge");
    assert_eq!(before.len(), after.len());
    assert_eq!(after.len(), 1);
    assert_eq!(after[0].type_, ConnectionType::Stargate(StargateType::Local));
}

#[test]
fn overlay_delegates_systems_and_ranges() {
    let u = UniverseBuilder::new()
        .system(system(1, "A", 0, 0, 0, 1000))
        .system(system(2, "B", 10, 0, 0, 1000))
        .build();
    let extended = ExtendedUniverseBuilder::new(&u).build();
    assert_eq!(extended.get_system(&SystemId(2)).unwrap().name, "B");
    assert!(extended.get_system(&SystemId(3)).is_none());
    let near = extended
        .get_systems_by_range(&SystemId(1), neweden::Meters(10))
        .expect("origin known");
    assert_eq!(near.len(), 2);
}

#[test]
fn galaxy_enumeration() {
    let u = UniverseBuilder::new()
        .system(system(1, "A", 0, 0, 0, 1000))
        .system(system(2, "B", 1, 0, 0, 1000))
        .connection(Connection {
            from: SystemId(1),
            to: SystemId(2),
            type_: ConnectionType::Stargate(StargateType::Local),
        })
        .build();
    let mut ids: Vec<u32> = u.systems().iter().map(|s| s.id.0).collect();
    ids.sort();
    assert_eq!(ids, vec![1, 2]);
    assert_eq!(u.connections(), vec![(SystemId(1), SystemId(2))]);
    let extra = Connection {
        from: SystemId(2),
        to: SystemId(1),
        type_: ConnectionType::Wormhole(WormholeType::Large),
    };
    let e = u.extend(neweden::AdjacentMap::from(vec![extra]));
    assert_eq!(e.connections(), vec![(SystemId(1), SystemId(2)), (SystemId(2), SystemId(1))]);
}

#[test]
fn undirected_links_become_directed_pairs() {
    let pair = conv_undirected_to_directed((SystemId(5), SystemId(6)));
    assert_eq!(pair.len(), 2);
    assert_eq!(pair[0].from, SystemId(5));
    assert_eq!(pair[0].to, SystemId(6));
    assert_eq!(pair[0].type_, ConnectionType::Stargate(StargateType::Local));
    assert_eq!(pair[1].from, SystemId(6));
    assert_eq!(pair[1].to, SystemId(5));
}

#[test]
fn rpc_builder_builds_symmetric_topology() {
    let systems = vec![
        system(1, "A", 0, 0, 0, 1000),
        system(2, "B", 1, 0, 0, 500),
    ];
    let links = vec![(SystemId(1), SystemId(2))];
    let u = RpcTypeBuilder::new(systems, links).build();
    assert_eq!(u.get_system(&SystemId(1)).unwrap().name, "A");
    let from_a = u.get_connections(&SystemId(1)).expect("A connects to B");
    assert_eq!(from_a.len(), 1);
    assert_eq!(from_a[0].to, SystemId(2));
    let from_b = u.get_connections(&SystemId(2)).expect("B connects back to A");
    assert_eq!(from_b.len(), 1);
    assert_eq!(from_b[0].to, SystemId(1));
}

#[test]
fn system_id_conversions() {
    let id: SystemId = 30000142u32.into();
    assert_eq!(id, SystemId(30000142));
    let id2: SystemId = 30000142i32.into();
    assert_eq!(id2, SystemId(30000142));
}

#[test]
fn preference_costs() {
    let u = UniverseBuilder::new()
        .system(system(1, "High", 0, 0, 0, 946))
        .system(system(2, "Low", 0, 0, 0, 300))
        .system(system(3, "Null", 0, 0, 0, -200))
        .build();
    assert_eq!(Preference::Shortest.cost(&u, SystemId(1)), 1);
    assert_eq!(Preference::Highsec.cost(&u, SystemId(1)), 1);
    assert_eq!(Preference::Highsec.cost(&u, SystemId(2)), 1000);
    assert_eq!(Preference::Highsec.cost(&u, SystemId(3)), 1000);
    assert_eq!(Preference::LowsecAndNullsec.cost(&u, SystemId(1)), 1000);
    assert_eq!(Preference::LowsecAndNullsec.cost(&u, SystemId(2)), 1);
    assert_eq!(Preference::LowsecAndNullsec.cost(&u, SystemId(3)), 1);
}
