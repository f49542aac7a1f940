//! Entity model: identifiers, coordinates, security ratings, connection
//! variants and distance units, together with the graph store and overlay
//! types built from them.

use vstd::prelude::*;

verus! {

broadcast use vstd::std_specs::hash::group_hash_axioms;

/// The ID of a solar system.
///
/// IDs below 31,000,000 denote known space; IDs in
/// [31,000,000, 32,000,000) denote wormhole space.
#[derive(Debug, Copy, Clone, PartialEq, Eq, PartialOrd, Hash, Structural)]
pub struct SystemId(pub u32);

impl From<u32> for SystemId {
    fn from(other: u32) -> (r: Self) {
        SystemId(other)
    }
}

impl vstd::std_specs::convert::FromSpecImpl<u32> for SystemId {
    open spec fn obeys_from_spec() -> bool {
        true
    }

    open spec fn from_spec(v: u32) -> SystemId {
        SystemId(v)
    }
}

impl From<i32> for SystemId {
    fn from(other: i32) -> (r: Self) {
        SystemId(other as u32)
    }
}

impl vstd::std_specs::convert::FromSpecImpl<i32> for SystemId {
    open spec fn obeys_from_spec() -> bool {
        true
    }

    open spec fn from_spec(v: i32) -> SystemId {
        SystemId(v as u32)
    }
}

/// A security rating, stated in thousandths of the conventional
/// [-1.0, 1.0] scale: `Security(443)` stands for a rating of 0.443.
#[derive(Debug, Copy, Clone, PartialEq, Eq, PartialOrd, Hash, Structural)]
pub struct Security(pub i32);

/// The three-bucket classification of a security rating: the rating is
/// rounded to the nearest tenth (ties away from zero); a rounded value
/// below 0.0 is Nullsec, below 0.5 Lowsec, and Highsec otherwise.
#[derive(Debug, Copy, Clone, PartialEq, Eq, Structural)]
pub enum SecurityClass {
    Highsec,
    Lowsec,
    Nullsec,
}

/// The rating in tenths, rounded half away from zero.
/// `m` is the rating in thousandths.
pub open spec fn security_tenths(m: int) -> int {
    if m >= 0 {
        (m + 50) / 100
    } else {
        -((-m + 50) / 100)
    }
}

/// The class a rating in thousandths falls in.
pub open spec fn security_class_of(m: int) -> SecurityClass {
    let t = security_tenths(m);
    if t < 0 {
        SecurityClass::Nullsec
    } else if t < 5 {
        SecurityClass::Lowsec
    } else {
        SecurityClass::Highsec
    }
}

impl SecurityClass {
    /// Classify a security rating.
    pub fn from(security: Security) -> (c: SecurityClass)
        ensures
            c == security_class_of(security.0 as int),
    {
        let m: i64 = security.0 as i64;
        let t: i64 = if m >= 0 {
            (m + 50) / 100
        } else {
            -((-m + 50) / 100)
        };
        if t < 0 {
            SecurityClass::Nullsec
        } else if t < 5 {
            SecurityClass::Lowsec
        } else {
            SecurityClass::Highsec
        }
    }
}

/// The coordinate of a system, in whole meters per axis.
#[derive(Debug, Copy, Clone, PartialEq, Eq, Structural)]
pub struct Coordinate {
    pub x: i64,
    pub y: i64,
    pub z: i64,
}

/// The square of an integer.
pub open spec fn sq(x: int) -> int {
    x * x
}

/// The squared Euclidean distance between two coordinates.
pub open spec fn dist2(a: Coordinate, b: Coordinate) -> int {
    sq(a.x - b.x) + sq(a.y - b.y) + sq(a.z - b.z)
}

/// Whether `b` lies within `radius` meters of `a`: the straight-line
/// distance is at most the radius exactly when the squared distance is
/// at most the squared radius.
pub open spec fn within_radius(a: Coordinate, b: Coordinate, radius: u64) -> bool {
    dist2(a, b) <= radius * radius
}

/// |x - y| of two axis values, exact.
fn axis_abs_diff(x: i64, y: i64) -> (d: u64)
    ensures
        d == (if x >= y {
            x - y
        } else {
            y - x
        }),
{
    let diff: i128 = (x as i128) - (y as i128);
    if diff >= 0 {
        diff as u64
    } else {
        (-diff) as u64
    }
}

/// Decide `within_radius` exactly, comparing squared quantities; no
/// square root is ever taken.
pub fn coordinate_within(a: &Coordinate, b: &Coordinate, radius: u64) -> (res: bool)
    ensures
        res == within_radius(*a, *b, radius),
{
    let dx = axis_abs_diff(a.x, b.x);
    let dy = axis_abs_diff(a.y, b.y);
    let dz = axis_abs_diff(a.z, b.z);
    proof {
        assert((dx as int) * (dx as int) == sq(a.x - b.x) && (dy as int) * (dy as int) == sq(
            a.y - b.y,
        ) && (dz as int) * (dz as int) == sq(a.z - b.z)) by (nonlinear_arith)
            requires
                dx == (if a.x >= b.x {
                    a.x - b.x
                } else {
                    b.x - a.x
                }),
                dy == (if a.y >= b.y {
                    a.y - b.y
                } else {
                    b.y - a.y
                }),
                dz == (if a.z >= b.z {
                    a.z - b.z
                } else {
                    b.z - a.z
                }),
        ;
        assert((dx as u128) * (dx as u128) < u128::MAX && (dy as u128) * (dy as u128) < u128::MAX
            && (dz as u128) * (dz as u128) < u128::MAX && (radius as u128) * (radius as u128)
            < u128::MAX) by (nonlinear_arith)
            requires
                dx <= u64::MAX && dy <= u64::MAX && dz <= u64::MAX && radius <= u64::MAX,
        ;
    }
    let dx2: u128 = (dx as u128) * (dx as u128);
    let dy2: u128 = (dy as u128) * (dy as u128);
    let dz2: u128 = (dz as u128) * (dz as u128);
    let rr: u128 = (radius as u128) * (radius as u128);
    if dx2 > u128::MAX - dy2 {
        false
    } else {
        let s: u128 = dx2 + dy2;
        if s > u128::MAX - dz2 {
            false
        } else {
            s + dz2 <= rr
        }
    }
}

/// A solar system. Its identity is its ID: two systems compare equal
/// exactly when their IDs are equal, whatever the other fields hold.
#[derive(Debug)]
pub struct System {
    pub id: SystemId,
    pub name: String,
    pub coordinate: Coordinate,
    pub security: Security,
}

impl PartialEq for System {
    fn eq(&self, other: &Self) -> (r: bool) {
        self.id.0 == other.id.0
    }
}

impl Eq for System {

}

impl vstd::std_specs::cmp::PartialEqSpecImpl for System {
    open spec fn obeys_eq_spec() -> bool {
        true
    }

    open spec fn eq_spec(&self, other: &System) -> bool {
        self.id == other.id
    }
}

impl Clone for System {
    fn clone(&self) -> (r: Self)
        ensures
            r == *self,
    {
        System {
            id: self.id,
            name: self.name.clone(),
            coordinate: self.coordinate,
            security: self.security,
        }
    }
}

/// A directed edge between two systems.
#[derive(Debug, Copy, Clone, PartialEq, Eq, Structural)]
pub struct Connection {
    pub from: SystemId,
    pub to: SystemId,
    pub type_: ConnectionType,
}

/// The kind of edge between two systems: a stargate, a jump bridge or
/// a wormhole.
#[derive(Debug, Copy, Clone, PartialEq, Eq, Structural)]
pub enum ConnectionType {
    Stargate(StargateType),
    Bridge(BridgeType),
    Wormhole(WormholeType),
}

/// The kind of bridge, each carrying the skills of the pilot opening
/// it. Its range follows from the skills; see `From<BridgeType>` for
/// `Lightyears`.
#[derive(Debug, Copy, Clone, PartialEq, Eq, Structural)]
pub enum BridgeType {
    Titan(JumpdriveSkills),
    BlackOps(JumpdriveSkills),
}

/// The skill pair a jump drive is operated with: calibration level and
/// fuel-conservation level.
#[derive(Debug, Copy, Clone, PartialEq, Eq, Structural)]
pub struct JumpdriveSkills {
    jump_drive_calibration: u8,
    fuel_conversation: u8,
}

/// The effective range in tenths of a lightyear for a base range (in
/// tenths) and a calibration level: base plus 20% of base per level.
/// The fuel-conservation level plays no part in this formula.
pub open spec fn range_tenths(base: int, calibration: int) -> int {
    base * (10 + 2 * calibration) / 10
}

impl JumpdriveSkills {
    /// The calibration level of this skill pair.
    pub closed spec fn calibration(&self) -> u8 {
        self.jump_drive_calibration
    }

    /// The fuel-conservation level of this skill pair.
    pub closed spec fn conservation(&self) -> u8 {
        self.fuel_conversation
    }

    pub fn new(jump_drive_calibration: u8, fuel_conversation: u8) -> (s: Self)
        ensures
            s.calibration() == jump_drive_calibration,
            s.conservation() == fuel_conversation,
    {
        Self { jump_drive_calibration, fuel_conversation }
    }

    /// The effective range from a base range under these skills.
    pub fn range_from_base(&self, ly: Lightyears) -> (r: Lightyears)
        requires
            ly.0 * (10 + 2 * self.calibration()) <= u64::MAX,
        ensures
            r.0 == range_tenths(ly.0 as int, self.calibration() as int),
    {
        let factor: u64 = 10 + 2 * (self.jump_drive_calibration as u64);
        Lightyears(ly.0 * factor / 10)
    }
}

/// The base range, in tenths of a lightyear, of each bridge kind.
pub open spec fn bridge_base_tenths(type_: BridgeType) -> int {
    match type_ {
        BridgeType::BlackOps(_) => 40,
        BridgeType::Titan(_) => 30,
    }
}

/// The effective range of a bridge.
pub open spec fn bridge_range(type_: BridgeType) -> Lightyears {
    let skills = match type_ {
        BridgeType::BlackOps(s) => s,
        BridgeType::Titan(s) => s,
    };
    Lightyears(range_tenths(bridge_base_tenths(type_), skills.calibration() as int) as u64)
}

impl From<BridgeType> for Lightyears {
    fn from(type_: BridgeType) -> (r: Lightyears) {
        match type_ {
            BridgeType::BlackOps(skills) => skills.range_from_base(Lightyears(40)),
            BridgeType::Titan(skills) => skills.range_from_base(Lightyears(30)),
        }
    }
}

impl vstd::std_specs::convert::FromSpecImpl<BridgeType> for Lightyears {
    open spec fn obeys_from_spec() -> bool {
        true
    }

    open spec fn from_spec(v: BridgeType) -> Lightyears {
        bridge_range(v)
    }
}

/// The jump-drive-capable ship classes, each carrying the pilot's
/// skill pair.
#[derive(Debug, Copy, Clone, PartialEq, Eq, Structural)]
pub enum JumpdriveShip {
    BlackOps(JumpdriveSkills),
    CapitalIndustrial(JumpdriveSkills),
    Carrier(JumpdriveSkills),
    Dreadnought(JumpdriveSkills),
    ForceAuxiliary(JumpdriveSkills),
    Jumpfreighter(JumpdriveSkills),
    Supercarrier(JumpdriveSkills),
    Titan(JumpdriveSkills),
}

/// The base jump range, in tenths of a lightyear, of each ship class.
pub open spec fn ship_base_tenths(ship: JumpdriveShip) -> int {
    match ship {
        JumpdriveShip::BlackOps(_) => 40,
        JumpdriveShip::CapitalIndustrial(_) => 50,
        JumpdriveShip::Carrier(_) => 35,
        JumpdriveShip::Dreadnought(_) => 35,
        JumpdriveShip::ForceAuxiliary(_) => 35,
        JumpdriveShip::Jumpfreighter(_) => 50,
        JumpdriveShip::Supercarrier(_) => 30,
        JumpdriveShip::Titan(_) => 30,
    }
}

/// The effective jump range of a ship.
pub open spec fn ship_jump_range(ship: JumpdriveShip) -> Lightyears {
    let skills = match ship {
        JumpdriveShip::BlackOps(s) => s,
        JumpdriveShip::CapitalIndustrial(s) => s,
        JumpdriveShip::Carrier(s) => s,
        JumpdriveShip::Dreadnought(s) => s,
        JumpdriveShip::ForceAuxiliary(s) => s,
        JumpdriveShip::Jumpfreighter(s) => s,
        JumpdriveShip::Supercarrier(s) => s,
        JumpdriveShip::Titan(s) => s,
    };
    Lightyears(range_tenths(ship_base_tenths(ship), skills.calibration() as int) as u64)
}

impl From<JumpdriveShip> for Lightyears {
    fn from(ship: JumpdriveShip) -> (r: Lightyears) {
        match ship {
            JumpdriveShip::BlackOps(skills) => skills.range_from_base(Lightyears(40)),
            JumpdriveShip::CapitalIndustrial(skills) => skills.range_from_base(Lightyears(50)),
            JumpdriveShip::Carrier(skills) => skills.range_from_base(Lightyears(35)),
            JumpdriveShip::Dreadnought(skills) => skills.range_from_base(Lightyears(35)),
            JumpdriveShip::ForceAuxiliary(skills) => skills.range_from_base(Lightyears(35)),
            JumpdriveShip::Jumpfreighter(skills) => skills.range_from_base(Lightyears(50)),
            JumpdriveShip::Supercarrier(skills) => skills.range_from_base(Lightyears(30)),
            JumpdriveShip::Titan(skills) => skills.range_from_base(Lightyears(30)),
        }
    }
}

impl vstd::std_specs::convert::FromSpecImpl<JumpdriveShip> for Lightyears {
    open spec fn obeys_from_spec() -> bool {
        true
    }

    open spec fn from_spec(v: JumpdriveShip) -> Lightyears {
        ship_jump_range(v)
    }
}

/// The kind of stargate: between two systems of one constellation,
/// between two constellations of one region, or between two regions.
#[derive(Debug, Copy, Clone, PartialEq, Eq, Structural)]
pub enum StargateType {
    Local,
    Constellation,
    Regional,
}

/// The kind of stargate that links two systems, derived from the
/// region and constellation each side belongs to.
pub open spec fn stargate_classify(
    from_region: Option<i32>,
    from_constellation: Option<i32>,
    to_constellation: Option<i32>,
    to_region: Option<i32>,
) -> StargateType {
    if from_region != to_region {
        StargateType::Regional
    } else if from_constellation != to_constellation {
        StargateType::Constellation
    } else {
        StargateType::Local
    }
}

impl StargateType {
    /// Derive the stargate kind from region and constellation
    /// membership of the two endpoints.
    pub fn classify(
        from_region: Option<i32>,
        from_constellation: Option<i32>,
        to_constellation: Option<i32>,
        to_region: Option<i32>,
    ) -> (t: StargateType)
        ensures
            t == stargate_classify(from_region, from_constellation, to_constellation, to_region),
    {
        let regional = match (from_region, to_region) {
            (Some(a), Some(b)) => a != b,
            (None, None) => false,
            _ => true,
        };
        let constellation = match (from_constellation, to_constellation) {
            (Some(a), Some(b)) => a != b,
            (None, None) => false,
            _ => true,
        };
        if regional {
            StargateType::Regional
        } else if constellation {
            StargateType::Constellation
        } else {
            StargateType::Local
        }
    }
}

/// The size class of a wormhole, constraining which ships fit through.
/// This core records it; it does not enforce traversal eligibility.
#[derive(Debug, Copy, Clone, PartialEq, Eq, Structural)]
pub enum WormholeType {
    VeryLarge,
    Large,
    Medium,
    Small,
}

/// Whether a system belongs to known space or wormhole space, by its
/// ID range.
#[derive(Debug, Copy, Clone, PartialEq, Eq, Structural)]
pub enum SystemClass {
    KSpace,
    WSpace,
}

/// The space class an ID in the recognized range falls in.
pub open spec fn system_class_of(id: u32) -> SystemClass {
    if id < 31_000_000 {
        SystemClass::KSpace
    } else {
        SystemClass::WSpace
    }
}

impl SystemClass {
    /// Classify a system by its ID range. An ID at or beyond
    /// 32,000,000 is an unrecognized range and is ruled out by the
    /// precondition: guessing a class there could route paths through
    /// nonexistent topology.
    pub fn from(system: &System) -> (c: SystemClass)
        requires
            system.id.0 < 32_000_000,
        ensures
            c == system_class_of(system.id.0),
    {
        if system.id.0 < 31_000_000 {
            SystemClass::KSpace
        } else {
            SystemClass::WSpace
        }
    }
}

/// Meters per tenth of a lightyear: one lightyear is exactly
/// 9,460,730,472,580.8 km.
pub const METERS_PER_TENTH_LIGHTYEAR: u64 = 946_073_047_258_080;

/// Meters per astronomical unit: 149,597,871 km.
pub const METERS_PER_AU: u64 = 149_597_871_000;

/// A distance in tenths of a lightyear: `Lightyears(60)` stands for
/// 6.0 ly.
#[derive(Debug, Copy, Clone, PartialEq, Eq, PartialOrd, Structural)]
pub struct Lightyears(pub u64);

impl Lightyears {
    /// The same distance in meters, an exact scaling.
    pub fn to_meters(&self) -> (m: Meters)
        requires
            self.0 * METERS_PER_TENTH_LIGHTYEAR <= u64::MAX,
        ensures
            m.0 == self.0 * METERS_PER_TENTH_LIGHTYEAR,
    {
        Meters(self.0 * METERS_PER_TENTH_LIGHTYEAR)
    }
}

/// A distance in whole astronomical units.
#[derive(Debug, Copy, Clone, PartialEq, Eq, PartialOrd, Structural)]
pub struct Au(pub u64);

impl Au {
    /// The same distance in meters, an exact scaling.
    pub fn to_meters(&self) -> (m: Meters)
        requires
            self.0 * METERS_PER_AU <= u64::MAX,
        ensures
            m.0 == self.0 * METERS_PER_AU,
    {
        Meters(self.0 * METERS_PER_AU)
    }
}

/// A distance in whole kilometers.
#[derive(Debug, Copy, Clone, PartialEq, Eq, PartialOrd, Structural)]
pub struct Kilometers(pub u64);

impl Kilometers {
    /// The same distance in meters, an exact scaling.
    pub fn to_meters(&self) -> (m: Meters)
        requires
            self.0 * 1000 <= u64::MAX,
        ensures
            m.0 == self.0 * 1000,
    {
        Meters(self.0 * 1000)
    }
}

/// A distance in whole meters.
#[derive(Debug, Copy, Clone, PartialEq, Eq, PartialOrd, Structural)]
pub struct Meters(pub u64);

/// The outgoing edges of system `id`, in insertion order, among a flat
/// edge sequence.
pub open spec fn edges_from(conns: Seq<Connection>, id: u32) -> Seq<Connection>
    decreases conns.len(),
{
    if conns.len() == 0 {
        Seq::empty()
    } else {
        let rest = edges_from(conns.drop_last(), id);
        if conns.last().from.0 == id {
            rest.push(conns.last())
        } else {
            rest
        }
    }
}

/// Appending one edge extends exactly the group of its `from` system.
pub proof fn lemma_edges_from_push(conns: Seq<Connection>, c: Connection, id: u32)
    ensures
        edges_from(conns.push(c), id) == (if c.from.0 == id {
            edges_from(conns, id).push(c)
        } else {
            edges_from(conns, id)
        }),
{
    assert(conns.push(c).drop_last() =~= conns);
    assert(conns.push(c).last() == c);
}

/// The groups of a concatenation are the concatenated groups.
pub proof fn lemma_edges_from_concat(a: Seq<Connection>, b: Seq<Connection>, id: u32)
    ensures
        edges_from(a + b, id) == edges_from(a, id) + edges_from(b, id),
    decreases b.len(),
{
    if b.len() == 0 {
        assert(a + b =~= a);
        assert(edges_from(a, id) + edges_from(b, id) =~= edges_from(a, id));
    } else {
        lemma_edges_from_concat(a, b.drop_last(), id);
        assert((a + b).drop_last() =~= a + b.drop_last());
        assert((a + b).last() == b.last());
        if b.last().from.0 == id {
            assert(edges_from(a, id) + edges_from(b.drop_last(), id).push(b.last()) =~= (
            edges_from(a, id) + edges_from(b.drop_last(), id)).push(b.last()));
        }
    }
}

/// A mapping from system IDs to systems, keys unique; last write wins
/// on an ID collision.
#[derive(Debug)]
pub struct SystemMap {
    list: Vec<System>,
    index: std::collections::HashMap<u32, usize>,
}

impl SystemMap {
    /// The systems by ID.
    pub closed spec fn as_map(&self) -> Map<u32, System> {
        Map::new(
            |id: u32| self.index@.contains_key(id),
            |id: u32| self.list@[self.index@[id] as int],
        )
    }

    #[verifier::type_invariant]
    spec fn inv(&self) -> bool {
        &&& forall|i: int|
            0 <= i < self.list@.len() ==> {
                &&& self.index@.contains_key((#[trigger] self.list@[i]).id.0)
                &&& self.index@[self.list@[i].id.0] == i
            }
        &&& forall|id: u32|
            #[trigger] self.index@.contains_key(id) ==> {
                &&& self.index@[id] < self.list@.len()
                &&& self.list@[self.index@[id] as int].id.0 == id
            }
    }

    pub fn empty() -> (r: Self)
        ensures
            r.as_map() == Map::<u32, System>::empty(),
    {
        let r = Self { list: Vec::new(), index: std::collections::HashMap::new() };
        proof {
            assert(r.as_map() =~= Map::<u32, System>::empty());
        }
        r
    }

    /// Record a system under its ID; an earlier system with the same
    /// ID is replaced.
    pub fn insert(self, system: System) -> (r: Self)
        ensures
            r.as_map() == self.as_map().insert(system.id.0, system),
    {
        proof {
            use_type_invariant(&self);
        }
        let ghost old_self = self;
        let SystemMap { mut list, mut index } = self;
        let key: u32 = system.id.0;
        let existing: Option<usize> = match index.get(&key) {
            Some(i) => Some(*i),
            None => None,
        };
        match existing {
            Some(i) => {
                list[i] = system;
            },
            None => {
                index.insert(key, list.len());
                list.push(system);
            },
        }
        let r = SystemMap { list, index };
        proof {
            assert(r.as_map() =~= old_self.as_map().insert(system.id.0, system));
        }
        r
    }

    /// Look a system up by ID; absence is a routine outcome, not an
    /// error. A found system carries the ID it was looked up under.
    pub fn get(&self, k: &SystemId) -> (r: Option<&System>)
        ensures
            match r {
                Some(s) => self.as_map().contains_key(k.0) && *s == self.as_map()[k.0] && s.id
                    == *k,
                None => !self.as_map().contains_key(k.0),
            },
    {
        proof {
            use_type_invariant(self);
        }
        match self.index.get(&k.0) {
            Some(i) => Some(&self.list[*i]),
            None => None,
        }
    }

    /// Build a map from a flat system list; on colliding IDs the last
    /// record wins.
    pub fn from(systems: Vec<System>) -> (r: Self)
        ensures
            r.as_map() == system_map_of(systems@),
    {
        let mut r = Self::empty();
        let n = systems.len();
        let ghost all = systems@;
        let mut i: usize = 0;
        while i < n
            invariant
                n == all.len(),
                systems@ == all,
                0 <= i <= n,
                r.as_map() == system_map_of(all.take(i as int)),
            decreases n - i,
        {
            let s = systems[i].clone();
            r = r.insert(s);
            proof {
                assert(all.take(i + 1 as int).drop_last() =~= all.take(i as int));
            }
            i = i + 1;
        }
        proof {
            assert(all.take(n as int) =~= all);
        }
        r
    }

    /// All recorded systems, each exactly once.
    pub fn to_vec(&self) -> (v: Vec<System>)
        ensures
            forall|j: int|
                0 <= j < v@.len() ==> {
                    &&& self.as_map().contains_key((#[trigger] v@[j]).id.0)
                    &&& v@[j] == self.as_map()[v@[j].id.0]
                },
            forall|id: u32| #[trigger]
                self.as_map().contains_key(id) ==> exists|j: int|
                    0 <= j < v@.len() && v@[j].id.0 == id,
            forall|j1: int, j2: int| 0 <= j1 < j2 < v@.len() ==> v@[j1].id.0 != v@[j2].id.0,
    {
        proof {
            use_type_invariant(self);
        }
        let mut v: Vec<System> = Vec::new();
        let n = self.list.len();
        let mut i: usize = 0;
        while i < n
            invariant
                self.inv(),
                n == self.list@.len(),
                0 <= i <= n,
                v@ == self.list@.take(i as int),
            decreases n - i,
        {
            v.push(self.list[i].clone());
            proof {
                assert(v@ =~= self.list@.take(i + 1 as int));
            }
            i = i + 1;
        }
        proof {
            assert(self.list@.take(n as int) =~= self.list@);
            assert forall|id: u32| #[trigger]
                self.as_map().contains_key(id) implies exists|j: int|
                0 <= j < v@.len() && v@[j].id.0 == id by {
                assert(v@[self.index@[id] as int].id.0 == id);
            }
        }
        v
    }

    /// All recorded systems whose straight-line distance to `origin`
    /// is at most `radius` meters, each exactly once.
    pub fn systems_within(&self, origin: &Coordinate, radius: u64) -> (v: Vec<System>)
        ensures
            forall|j: int|
                0 <= j < v@.len() ==> {
                    &&& self.as_map().contains_key((#[trigger] v@[j]).id.0)
                    &&& v@[j] == self.as_map()[v@[j].id.0]
                    &&& within_radius(*origin, v@[j].coordinate, radius)
                },
            forall|id: u32|
                self.as_map().contains_key(id) && within_radius(
                    *origin,
                    (#[trigger] self.as_map()[id]).coordinate,
                    radius,
                ) ==> exists|j: int| 0 <= j < v@.len() && v@[j].id.0 == id,
            forall|j1: int, j2: int| 0 <= j1 < j2 < v@.len() ==> v@[j1].id.0 != v@[j2].id.0,
    {
        proof {
            use_type_invariant(self);
        }
        let mut v: Vec<System> = Vec::new();
        let n = self.list.len();
        let mut i: usize = 0;
        while i < n
            invariant
                self.inv(),
                n == self.list@.len(),
                0 <= i <= n,
                forall|j: int|
                    0 <= j < v@.len() ==> {
                        &&& self.as_map().contains_key((#[trigger] v@[j]).id.0)
                        &&& v@[j] == self.as_map()[v@[j].id.0]
                        &&& within_radius(*origin, v@[j].coordinate, radius)
                        &&& self.index@[v@[j].id.0] < i
                    },
                forall|id: u32|
                    self.index@.contains_key(id) && self.index@[id] < i && within_radius(
                        *origin,
                        (#[trigger] self.as_map()[id]).coordinate,
                        radius,
                    ) ==> exists|j: int| 0 <= j < v@.len() && v@[j].id.0 == id,
                forall|j1: int, j2: int| 0 <= j1 < j2 < v@.len() ==> v@[j1].id.0 != v@[j2].id.0,
            decreases n - i,
        {
            let s = &self.list[i];
            assert(self.index@[s.id.0] == i && self.as_map()[s.id.0] == self.list@[i as int]);
            let ghost v0 = v@;
            if coordinate_within(origin, &s.coordinate, radius) {
                v.push(s.clone());
                proof {
                    assert forall|id: u32|
                        self.index@.contains_key(id) && self.index@[id] < i + 1 && within_radius(
                            *origin,
                            (#[trigger] self.as_map()[id]).coordinate,
                            radius,
                        ) implies exists|j: int| 0 <= j < v@.len() && v@[j].id.0 == id by {
                        if self.index@[id] == i as int {
                            assert(v@[v@.len() - 1].id.0 == id);
                        } else {
                            let j0 = choose|j: int| 0 <= j < v0.len() && v0[j].id.0 == id;
                            assert(v@[j0].id.0 == id);
                        }
                    }
                }
            } else {
                proof {
                    assert forall|id: u32|
                        self.index@.contains_key(id) && self.index@[id] < i + 1 && within_radius(
                            *origin,
                            (#[trigger] self.as_map()[id]).coordinate,
                            radius,
                        ) implies exists|j: int| 0 <= j < v@.len() && v@[j].id.0 == id by {
                        assert(self.index@[id] != i as int);
                    }
                }
            }
            i = i + 1;
        }
        v
    }
}

/// The ID-to-system mapping a flat record sequence denotes: each ID
/// maps to the last system in the sequence that carries it.
pub open spec fn system_map_of(systems: Seq<System>) -> Map<u32, System>
    decreases systems.len(),
{
    if systems.len() == 0 {
        Map::empty()
    } else {
        system_map_of(systems.drop_last()).insert(systems.last().id.0, systems.last())
    }
}

/// A mapping from system IDs to their outgoing connections, grouped by
/// the `from` endpoint, insertion order kept within each group.
/// Multiple edges between the same pair are permitted and distinct.
/// Its view is the flat sequence of connections in insertion order.
#[derive(Debug)]
pub struct AdjacentMap {
    all: Vec<Connection>,
    groups: std::collections::HashMap<u32, Vec<Connection>>,
}

impl View for AdjacentMap {
    type V = Seq<Connection>;

    closed spec fn view(&self) -> Seq<Connection> {
        self.all@
    }
}

impl AdjacentMap {
    #[verifier::type_invariant]
    spec fn inv(&self) -> bool {
        &&& forall|id: u32| #[trigger]
            self.groups@.contains_key(id) ==> self.groups@[id]@ == edges_from(self.all@, id)
                && self.groups@[id]@.len() > 0
        &&& forall|id: u32|
            #![trigger edges_from(self.all@, id)]
            !self.groups@.contains_key(id) ==> edges_from(self.all@, id).len() == 0
    }

    pub fn empty() -> (r: Self)
        ensures
            r@ == Seq::<Connection>::empty(),
    {
        let r = Self { all: Vec::new(), groups: std::collections::HashMap::new() };
        proof {
            assert forall|id: u32| #![trigger edges_from(r.all@, id)]
                !r.groups@.contains_key(id) implies edges_from(r.all@, id).len() == 0 by {
                assert(edges_from(r.all@, id) =~= Seq::<Connection>::empty());
            }
        }
        r
    }

    /// Append one connection; it joins the group of its `from` system
    /// behind that group's earlier edges.
    pub fn push(self, connection: Connection) -> (r: Self)
        ensures
            r@ == self@.push(connection),
    {
        proof {
            use_type_invariant(&self);
        }
        let ghost old_self = self;
        let AdjacentMap { mut all, mut groups } = self;
        let key: u32 = connection.from.0;
        let mut group: Vec<Connection> = match groups.remove(&key) {
            Some(g) => g,
            None => Vec::new(),
        };
        group.push(connection);
        groups.insert(key, group);
        all.push(connection);
        proof {
            assert forall|id: u32| #[trigger]
                groups@.contains_key(id) implies groups@[id]@ == edges_from(all@, id)
                && groups@[id]@.len() > 0 by {
                lemma_edges_from_push(old_self.all@, connection, id);
                if id == key {
                    if !old_self.groups@.contains_key(key) {
                        assert(edges_from(old_self.all@, key).len() == 0);
                        assert(edges_from(old_self.all@, key) =~= Seq::<Connection>::empty());
                    }
                } else {
                    assert(old_self.groups@.contains_key(id));
                }
            }
            assert forall|id: u32|
                #![trigger edges_from(all@, id)]
                !groups@.contains_key(id) implies edges_from(all@, id).len() == 0 by {
                lemma_edges_from_push(old_self.all@, connection, id);
                assert(!old_self.groups@.contains_key(id));
            }
        }
        let r = AdjacentMap { all, groups };
        r
    }

    /// Build an adjacency map from a flat connection list, grouping by
    /// `from` and preserving insertion order.
    pub fn from(connections: Vec<Connection>) -> (r: Self)
        ensures
            r@ == connections@,
    {
        let mut r = Self::empty();
        let n = connections.len();
        let ghost all = connections@;
        let mut i: usize = 0;
        while i < n
            invariant
                n == all.len(),
                connections@ == all,
                0 <= i <= n,
                r@ == all.take(i as int),
            decreases n - i,
        {
            let c = connections[i];
            r = r.push(c);
            proof {
                assert(all.take(i + 1 as int) =~= all.take(i as int).push(all[i as int]));
            }
            i = i + 1;
        }
        proof {
            assert(all.take(n as int) =~= all);
        }
        r
    }

    /// All recorded connections, in insertion order.
    pub fn to_vec(&self) -> (v: Vec<Connection>)
        ensures
            v@ == self@,
    {
        let r = self.all.clone();
        proof {
            assert(r@ =~= self.all@);
        }
        r
    }

    /// The outgoing edges of one system: `None` exactly when no edge
    /// leaves it.
    pub fn get(&self, from: &SystemId) -> (r: Option<&Vec<Connection>>)
        ensures
            match r {
                Some(v) => v@ == edges_from(self@, from.0) && v@.len() > 0,
                None => edges_from(self@, from.0).len() == 0,
            },
    {
        proof {
            use_type_invariant(self);
        }
        self.groups.get(&from.0)
    }
}

/// What a radius query answers when the origin is known: `v` holds
/// exactly the recorded systems within `radius` meters of the origin's
/// position `o`, each under its recorded value and each exactly once,
/// in no promised order.
pub open spec fn in_radius(sys: Map<u32, System>, o: Coordinate, radius: u64, v: Seq<System>) -> bool {
    &&& forall|j: int|
        0 <= j < v.len() ==> {
            &&& sys.contains_key((#[trigger] v[j]).id.0)
            &&& v[j] == sys[v[j].id.0]
            &&& within_radius(o, v[j].coordinate, radius)
        }
    &&& forall|id: u32|
        sys.contains_key(id) && within_radius(o, (#[trigger] sys[id]).coordinate, radius)
            ==> exists|j: int| 0 <= j < v.len() && v[j].id.0 == id
    &&& forall|j1: int, j2: int| 0 <= j1 < j2 < v.len() ==> v[j1].id.0 != v[j2].id.0
}

/// The capability a universe offers to the pathfinder: system lookup,
/// outgoing-edge lookup and radius-bounded neighbor lookup, each
/// answered against the two views `nav_systems` and `nav_conns`.
pub trait Navigatable {
    /// The systems of this universe, by ID.
    spec fn nav_systems(&self) -> Map<u32, System>;

    /// The edges of this universe as one flat sequence; the outgoing
    /// edges of a system are its `edges_from` group of this sequence.
    spec fn nav_conns(&self) -> Seq<Connection>;

    /// Look a system up by ID; `None` for an unknown ID is a routine
    /// outcome, not an error. A found system carries the ID it was
    /// looked up under.
    fn get_system(&self, id: &SystemId) -> (r: Option<&System>)
        ensures
            match r {
                Some(s) => self.nav_systems().contains_key(id.0) && *s == self.nav_systems()[id.0]
                    && s.id == *id,
                None => !self.nav_systems().contains_key(id.0),
            },
    ;

    /// The outgoing edges of a system, in insertion order; `None`
    /// exactly when no recorded edge leaves it, so callers treat
    /// `None` as "no traversal possible from here".
    fn get_connections(&self, from: &SystemId) -> (r: Option<Vec<Connection>>)
        ensures
            match r {
                Some(v) => v@ == edges_from(self.nav_conns(), from.0) && v@.len() > 0,
                None => edges_from(self.nav_conns(), from.0).len() == 0,
            },
    ;

    /// All systems within `range` of the system `from`, the origin
    /// itself included; `None` exactly when `from` is unknown.
    fn get_systems_by_range(&self, from: &SystemId, range: Meters) -> (r: Option<Vec<System>>)
        ensures
            match r {
                Some(v) => self.nav_systems().contains_key(from.0) && in_radius(
                    self.nav_systems(),
                    self.nav_systems()[from.0].coordinate,
                    range.0,
                    v@,
                ),
                None => !self.nav_systems().contains_key(from.0),
            },
    ;
}

/// Whole-graph enumeration: all systems and all edge endpoint pairs.
pub trait Galaxy {
    /// The systems of this galaxy, as an unordered enumeration.
    spec fn gal_systems(&self) -> Map<u32, System>;

    /// The edges of this galaxy as one flat sequence.
    spec fn gal_conns(&self) -> Seq<Connection>;

    /// Every system, each exactly once.
    fn systems(&self) -> (r: Vec<System>)
        ensures
            forall|j: int|
                0 <= j < r@.len() ==> {
                    &&& self.gal_systems().contains_key((#[trigger] r@[j]).id.0)
                    &&& r@[j] == self.gal_systems()[r@[j].id.0]
                },
            forall|id: u32| #[trigger]
                self.gal_systems().contains_key(id) ==> exists|j: int|
                    0 <= j < r@.len() && r@[j].id.0 == id,
            forall|j1: int, j2: int| 0 <= j1 < j2 < r@.len() ==> r@[j1].id.0 != r@[j2].id.0,
    ;

    /// The endpoint pair of every edge, in edge order.
    fn connections(&self) -> (r: Vec<(SystemId, SystemId)>)
        ensures
            r@.len() == self.gal_conns().len(),
            forall|i: int|
                0 <= i < r@.len() ==> r@[i] == ((#[trigger] self.gal_conns()[i]).from,
                self.gal_conns()[i].to),
    ;
}

/// The known systems and their connections. A `Universe` is built once
/// from loader output and read-only thereafter; to add transient edges,
/// wrap it in an `ExtendedUniverse` via `extend`.
#[derive(Debug)]
pub struct Universe {
    pub(crate) systems: SystemMap,
    pub(crate) connections: AdjacentMap,
}

impl Universe {
    /// A universe with no systems and no connections: a placeholder,
    /// or a base to extend.
    pub fn empty() -> (r: Self)
        ensures
            r.nav_systems() == Map::<u32, System>::empty(),
            r.nav_conns() == Seq::<Connection>::empty(),
    {
        Self { systems: SystemMap::empty(), connections: AdjacentMap::empty() }
    }

    /// Assemble a universe from its two tables. Only this crate's
    /// builders and loaders create universes.
    pub(crate) fn new(systems: SystemMap, connections: AdjacentMap) -> (r: Self)
        ensures
            r.nav_systems() == systems.as_map(),
            r.nav_conns() == connections@,
    {
        Self { systems, connections }
    }

    /// Wrap this universe with additional connections, for example
    /// transient wormholes, without copying or touching its tables.
    pub fn extend(&self, connections: AdjacentMap) -> (r: ExtendedUniverse<Self>)
        ensures
            r.nav_systems() == self.nav_systems(),
            r.nav_conns() == self.nav_conns() + connections@,
    {
        ExtendedUniverse::new(self, connections)
    }
}

impl Navigatable for Universe {
    closed spec fn nav_systems(&self) -> Map<u32, System> {
        self.systems.as_map()
    }

    closed spec fn nav_conns(&self) -> Seq<Connection> {
        self.connections@
    }

    fn get_system(&self, id: &SystemId) -> (r: Option<&System>) {
        self.systems.get(id)
    }

    fn get_connections(&self, from: &SystemId) -> (r: Option<Vec<Connection>>) {
        match self.connections.get(from) {
            Some(v) => {
                let r = v.clone();
                proof {
                    assert(r@ =~= v@);
                }
                Some(r)
            },
            None => None,
        }
    }

    fn get_systems_by_range(&self, from: &SystemId, range: Meters) -> (r: Option<Vec<System>>) {
        match self.systems.get(from) {
            Some(origin) => {
                let coordinate = origin.coordinate;
                Some(self.systems.systems_within(&coordinate, range.0))
            },
            None => None,
        }
    }
}

impl Galaxy for Universe {
    closed spec fn gal_systems(&self) -> Map<u32, System> {
        self.systems.as_map()
    }

    closed spec fn gal_conns(&self) -> Seq<Connection> {
        self.connections@
    }

    fn systems(&self) -> (r: Vec<System>) {
        self.systems.to_vec()
    }

    fn connections(&self) -> (r: Vec<(SystemId, SystemId)>) {
        let all = self.connections.to_vec();
        endpoint_pairs(&all)
    }
}

/// The endpoint pair of every edge of `conns`, in order.
fn endpoint_pairs(conns: &Vec<Connection>) -> (r: Vec<(SystemId, SystemId)>)
    ensures
        r@.len() == conns@.len(),
        forall|i: int|
            0 <= i < r@.len() ==> r@[i] == ((#[trigger] conns@[i]).from, conns@[i].to),
{
    let mut r: Vec<(SystemId, SystemId)> = Vec::new();
    let n = conns.len();
    let mut i: usize = 0;
    while i < n
        invariant
            n == conns@.len(),
            0 <= i <= n,
            r@.len() == i,
            forall|j: int|
                0 <= j < i ==> r@[j] == ((#[trigger] conns@[j]).from, conns@[j].to),
        decreases n - i,
    {
        let c = conns[i];
        r.push((c.from, c.to));
        i = i + 1;
    }
    r
}

/// A non-owning overlay over a base universe: it borrows the base,
/// never outlives it and never mutates it, and adds edges in a table of
/// its own. Overlays nest: an overlay wraps anything navigatable,
/// another overlay included, and edge groups union transitively.
#[derive(Debug)]
pub struct ExtendedUniverse<'a, U> {
    pub(crate) universe: &'a U,
    pub(crate) connections: AdjacentMap,
}

impl<'a, U: Navigatable> ExtendedUniverse<'a, U> {
    /// Wrap `universe`, adding `connections` on top of its own. The
    /// base is untouched: the overlay holds exactly the base's systems,
    /// and its edge view is the base's edges followed by the added
    /// ones.
    pub fn new(universe: &'a U, connections: AdjacentMap) -> (r: Self)
        ensures
            r.nav_systems() == universe.nav_systems(),
            r.nav_conns() == universe.nav_conns() + connections@,
    {
        Self { universe, connections }
    }
}

impl<'a, U: Navigatable> Navigatable for ExtendedUniverse<'a, U> {
    closed spec fn nav_systems(&self) -> Map<u32, System> {
        self.universe.nav_systems()
    }

    closed spec fn nav_conns(&self) -> Seq<Connection> {
        self.universe.nav_conns() + self.connections@
    }

    fn get_system(&self, id: &SystemId) -> (r: Option<&System>) {
        self.universe.get_system(id)
    }

    fn get_connections(&self, from: &SystemId) -> (r: Option<Vec<Connection>>) {
        proof {
            lemma_edges_from_concat(self.universe.nav_conns(), self.connections@, from.0);
        }
        let base = self.universe.get_connections(from);
        let own = self.connections.get(from);
        match (base, own) {
            (Some(mut a), Some(b)) => {
                let mut b2 = b.clone();
                proof {
                    assert(b2@ =~= b@);
                }
                a.append(&mut b2);
                Some(a)
            },
            (Some(a), None) => {
                proof {
                    assert(edges_from(self.universe.nav_conns(), from.0) + edges_from(
                        self.connections@,
                        from.0,
                    ) =~= edges_from(self.universe.nav_conns(), from.0));
                }
                Some(a)
            },
            (None, Some(b)) => {
                let r = b.clone();
                proof {
                    assert(r@ =~= b@);
                    assert(edges_from(self.universe.nav_conns(), from.0) + edges_from(
                        self.connections@,
                        from.0,
                    ) =~= edges_from(self.connections@, from.0));
                }
                Some(r)
            },
            (None, None) => None,
        }
    }

    fn get_systems_by_range(&self, from: &SystemId, range: Meters) -> (r: Option<Vec<System>>) {
        self.universe.get_systems_by_range(from, range)
    }
}

impl<'a, U: Navigatable + Galaxy> Galaxy for ExtendedUniverse<'a, U> {
    closed spec fn gal_systems(&self) -> Map<u32, System> {
        self.universe.gal_systems()
    }

    closed spec fn gal_conns(&self) -> Seq<Connection> {
        self.universe.gal_conns() + self.connections@
    }

    fn systems(&self) -> (r: Vec<System>) {
        self.universe.systems()
    }

    fn connections(&self) -> (r: Vec<(SystemId, SystemId)>) {
        let mut r = self.universe.connections();
        let own = self.connections.to_vec();
        let mut pairs = endpoint_pairs(&own);
        r.append(&mut pairs);
        r
    }
}

} // verus!
