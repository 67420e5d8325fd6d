//! The canonical representation of one match's game world, its mathematical
//! view, and the well-formedness predicate that every engine operation
//! preserves.

use vstd::prelude::*;

use crate::ids::CityId;
use crate::ids::PlayerId;
use crate::ids::TileCoord;
use crate::ids::UnitId;

verus! {

/// Most action points a unit can hold.
pub const MAX_AP: i32 = 2;

/// Last turn the engine will advance to. A rules-content choice: the
/// mechanical contract only asks that some terminal condition exists, and
/// advancing past the cap is rejected as an invalid action.
pub const TURN_CAP: i32 = 1000000;

/// Most gold a player can accumulate; end-of-turn income saturates here.
pub const GOLD_CAP: i64 = 1000000000;

/// Number of policy slots per match.
pub const POLICY_SLOTS: usize = 3;

/// Map side length used for every match.
pub const MAP_DIM: i32 = 16;

/// Largest player count a match may be created with. A rules-content
/// choice tied to the fixed map: eight starting columns fit the map width
/// with room between them.
pub const MAX_PLAYERS: usize = 8;

/// A participating player and their resource balance.
#[derive(Debug, Clone, Copy, PartialEq, Eq, Structural)]
pub struct Player {
    pub id: PlayerId,
    pub gold: i64,
}

/// A city, owned by a player, fixed on one tile.
#[derive(Debug, Clone, Copy, PartialEq, Eq, Structural)]
pub struct City {
    pub id: CityId,
    pub owner: PlayerId,
    pub pos: TileCoord,
}

/// A unit on the map. `combat` units fight; civilian units do not.
#[derive(Debug, Clone, Copy, PartialEq, Eq, Structural)]
pub struct Unit {
    pub id: UnitId,
    pub owner: PlayerId,
    pub pos: TileCoord,
    pub combat: bool,
    pub fortified: bool,
    pub ap: i32,
}

/// A district improvement built on a tile.
#[derive(Debug, Clone)]
pub struct District {
    pub pos: TileCoord,
    pub kind: String,
}

/// View of a district.
pub ghost struct DistrictV {
    pub pos: TileCoord,
    pub kind: Seq<char>,
}

impl View for District {
    type V = DistrictV;

    open spec fn view(&self) -> DistrictV {
        DistrictV { pos: self.pos, kind: self.kind@ }
    }
}

/// An open deal offer held in game state until accepted or declined.
#[derive(Debug, Clone)]
pub struct Deal {
    pub id: u64,
    pub json: String,
}

/// View of an open deal.
pub ghost struct DealV {
    pub id: u64,
    pub json: Seq<char>,
}

impl View for Deal {
    type V = DealV;

    open spec fn view(&self) -> DealV {
        DealV { id: self.id, json: self.json@ }
    }
}

/// The single source of truth for one match.
#[derive(Debug)]
pub struct State {
    pub turn: i32,
    pub rules_ver: String,
    pub width: i32,
    pub height: i32,
    pub players: Vec<Player>,
    pub cities: Vec<City>,
    pub units: Vec<Unit>,
    pub districts: Vec<District>,
    pub researched: Vec<String>,
    pub policies: Vec<String>,
    pub open_deals: Vec<Deal>,
    pub next_unit: u64,
    pub next_deal: u64,
}

/// Mathematical view of a `State`.
#[verifier::ext_equal]
pub ghost struct StateV {
    pub turn: int,
    pub rules_ver: Seq<char>,
    pub width: int,
    pub height: int,
    pub players: Seq<Player>,
    pub cities: Seq<City>,
    pub units: Seq<Unit>,
    pub districts: Seq<DistrictV>,
    pub researched: Seq<Seq<char>>,
    pub policies: Seq<Seq<char>>,
    pub open_deals: Seq<DealV>,
    pub next_unit: u64,
    pub next_deal: u64,
}

impl View for State {
    type V = StateV;

    open spec fn view(&self) -> StateV {
        StateV {
            turn: self.turn as int,
            rules_ver: self.rules_ver@,
            width: self.width as int,
            height: self.height as int,
            players: self.players@,
            cities: self.cities@,
            units: self.units@,
            districts: self.districts@.map_values(|d: District| d@),
            researched: self.researched.deep_view(),
            policies: self.policies.deep_view(),
            open_deals: self.open_deals@.map_values(|d: Deal| d@),
            next_unit: self.next_unit,
            next_deal: self.next_deal,
        }
    }
}

/// Whether a tile lies within the map bounds of `s`.
pub open spec fn in_bounds(s: StateV, t: TileCoord) -> bool {
    0 <= t.x < s.width && 0 <= t.y < s.height
}

/// Whether `s` holds a player with identifier `id`.
pub open spec fn has_player(s: StateV, id: PlayerId) -> bool {
    exists|i: int| 0 <= i < s.players.len() && s.players[i].id == id
}

/// Index of the player with identifier `id`.
pub open spec fn player_ix(s: StateV, id: PlayerId) -> int {
    choose|i: int| 0 <= i < s.players.len() && s.players[i].id == id
}

/// Whether `s` holds a unit with identifier `id`.
pub open spec fn has_unit(s: StateV, id: UnitId) -> bool {
    exists|i: int| 0 <= i < s.units.len() && s.units[i].id == id
}

/// Index of the unit with identifier `id`.
pub open spec fn unit_ix(s: StateV, id: UnitId) -> int {
    choose|i: int| 0 <= i < s.units.len() && s.units[i].id == id
}

/// Whether `s` holds a city with identifier `id`.
pub open spec fn has_city(s: StateV, id: CityId) -> bool {
    exists|i: int| 0 <= i < s.cities.len() && s.cities[i].id == id
}

/// Index of the city with identifier `id`.
pub open spec fn city_ix(s: StateV, id: CityId) -> int {
    choose|i: int| 0 <= i < s.cities.len() && s.cities[i].id == id
}

/// Referential integrity: every id referenced by a unit or city resolves to
/// an existing player, and every position lies within the map bounds.
pub open spec fn refs_ok(s: StateV) -> bool {
    &&& forall|i: int| #![trigger s.units[i]]
        0 <= i < s.units.len() ==> has_player(s, s.units[i].owner) && in_bounds(s, s.units[i].pos)
    &&& forall|i: int| #![trigger s.cities[i]]
        0 <= i < s.cities.len() ==> has_player(s, s.cities[i].owner) && in_bounds(
            s,
            s.cities[i].pos,
        )
    &&& forall|i: int| #![trigger s.districts[i]]
        0 <= i < s.districts.len() ==> in_bounds(s, s.districts[i].pos)
}

/// Stacking rule: no two combat units share a tile, and no two civilian
/// units share a tile (one of each may co-stack).
pub open spec fn stacking_ok(s: StateV) -> bool {
    forall|i: int, j: int|
        0 <= i < j < s.units.len() && (#[trigger] s.units[i]).combat == (
        #[trigger] s.units[j]).combat ==> s.units[i].pos != s.units[j].pos
}

/// Resource rule: no player's gold balance is negative, and balances stay
/// within the saturation cap.
pub open spec fn resources_ok(s: StateV) -> bool {
    forall|i: int| 0 <= i < s.players.len() ==> 0 <= (#[trigger] s.players[i]).gold <= GOLD_CAP
}

/// Action points of every unit lie between zero and `MAX_AP`.
pub open spec fn ap_ok(s: StateV) -> bool {
    forall|i: int| 0 <= i < s.units.len() ==> 0 <= (#[trigger] s.units[i]).ap <= MAX_AP
}

/// Identifier discipline: each collection is strictly sorted by identifier,
/// and fresh-id counters exceed every identifier in use.
pub open spec fn ids_ok(s: StateV) -> bool {
    &&& forall|i: int, j: int|
        0 <= i < j < s.players.len() ==> (#[trigger] s.players[i]).id.0 < (
        #[trigger] s.players[j]).id.0
    &&& forall|i: int, j: int|
        0 <= i < j < s.cities.len() ==> (#[trigger] s.cities[i]).id.0 < (
        #[trigger] s.cities[j]).id.0
    &&& forall|i: int, j: int|
        0 <= i < j < s.units.len() ==> (#[trigger] s.units[i]).id.0 < (#[trigger] s.units[j]).id.0
    &&& forall|i: int| 0 <= i < s.units.len() ==> (#[trigger] s.units[i]).id.0 < s.next_unit
    &&& forall|i: int, j: int|
        0 <= i < j < s.open_deals.len() ==> (#[trigger] s.open_deals[i]).id < (
        #[trigger] s.open_deals[j]).id
    &&& forall|i: int| 0 <= i < s.open_deals.len() ==> (#[trigger] s.open_deals[i]).id < s.next_deal
}

/// Researched technologies are pairwise distinct.
pub open spec fn research_ok(s: StateV) -> bool {
    forall|i: int, j: int|
        0 <= i < j < s.researched.len() ==> #[trigger] s.researched[i] != #[trigger] s.researched[j]
}

/// Districts occupy pairwise distinct tiles.
pub open spec fn districts_ok(s: StateV) -> bool {
    forall|i: int, j: int|
        0 <= i < j < s.districts.len() ==> (#[trigger] s.districts[i]).pos != (
        #[trigger] s.districts[j]).pos
}

/// Well-formedness of a match state: map shape, turn range, policy slots,
/// and every simulation invariant.
pub open spec fn wf(s: StateV) -> bool {
    &&& 0 <= s.turn <= TURN_CAP
    &&& 0 < s.width <= MAP_DIM
    &&& 0 < s.height <= MAP_DIM
    &&& s.policies.len() == POLICY_SLOTS
    &&& refs_ok(s)
    &&& stacking_ok(s)
    &&& resources_ok(s)
    &&& ap_ok(s)
    &&& ids_ok(s)
    &&& research_ok(s)
    &&& districts_ok(s)
}

impl State {
    /// Fresh empty state at turn zero.
    pub fn new() -> (r: State)
        ensures
            wf(r@),
            r@.turn == 0,
            r@.rules_ver == "0.1.0"@,
            r@.players.len() == 0,
            r@.cities.len() == 0,
            r@.units.len() == 0,
            r@.districts.len() == 0,
            r@.researched.len() == 0,
            r@.open_deals.len() == 0,
            r@.width == MAP_DIM as int,
            r@.height == MAP_DIM as int,
            r@.next_unit == 0,
            r@.next_deal == 0,
            r@.policies.len() == POLICY_SLOTS,
            forall|i: int| 0 <= i < POLICY_SLOTS ==> #[trigger] r@.policies[i]
                == Seq::<char>::empty(),
    {
        let e1 = String::new();
        let e2 = String::new();
        let e3 = String::new();
        let mut policies: Vec<String> = Vec::new();
        policies.push(e1);
        policies.push(e2);
        policies.push(e3);
        let r = State {
            turn: 0,
            rules_ver: "0.1.0".to_owned(),
            width: MAP_DIM,
            height: MAP_DIM,
            players: Vec::new(),
            cities: Vec::new(),
            units: Vec::new(),
            districts: Vec::new(),
            researched: Vec::new(),
            policies,
            open_deals: Vec::new(),
            next_unit: 0,
            next_deal: 0,
        };
        assert(r@.districts =~= Seq::<DistrictV>::empty());
        assert(r@.open_deals =~= Seq::<DealV>::empty());
        r
    }

    /// Initial state of a match: `n` players seeded with gold derived from
    /// `seed`, one city and one combat unit each on deterministic tiles.
    pub fn from_seed(seed: u64, n: usize) -> (r: State)
        requires
            1 <= n <= MAX_PLAYERS,
        ensures
            wf(r@),
            r@.turn == 0,
            r@.players.len() == n as int,
            r@.units.len() == n as int,
            r@.cities.len() == n as int,
            forall|i: int|
                0 <= i < n as int ==> #[trigger] r@.players[i] == (Player {
                    id: PlayerId(i as u64),
                    gold: initial_gold(seed),
                }),
            forall|i: int|
                0 <= i < n as int ==> #[trigger] r@.units[i] == (Unit {
                    id: UnitId(i as u64),
                    owner: PlayerId(i as u64),
                    pos: TileCoord { x: (2 * i) as i32, y: 1 },
                    combat: true,
                    fortified: false,
                    ap: MAX_AP,
                }),
            forall|i: int|
                0 <= i < n as int ==> #[trigger] r@.cities[i] == (City {
                    id: CityId(i as u64),
                    owner: PlayerId(i as u64),
                    pos: TileCoord { x: (2 * i) as i32, y: 0 },
                }),
            r@.rules_ver == "0.1.0"@,
            r@ == spec_initial_state(seed, n as int),
    {
        let mut r = State::new();
        let g: i64 = initial_gold_exec(seed);
        let mut i: usize = 0;
        while i < n
            invariant
                1 <= n <= MAX_PLAYERS,
                0 <= i <= n,
                g == initial_gold(seed),
                r@.turn == 0,
                r@.rules_ver == "0.1.0"@,
                r@.width == MAP_DIM as int,
                r@.height == MAP_DIM as int,
                r@.policies.len() == POLICY_SLOTS,
                forall|k: int| 0 <= k < POLICY_SLOTS ==> #[trigger] r@.policies[k]
                    == Seq::<char>::empty(),
                r@.districts.len() == 0,
                r@.researched.len() == 0,
                r@.open_deals.len() == 0,
                r@.next_deal == 0,
                r@.next_unit == i as u64,
                r@.players.len() == i as int,
                r@.units.len() == i as int,
                r@.cities.len() == i as int,
                forall|k: int|
                    0 <= k < i as int ==> #[trigger] r@.players[k] == (Player {
                        id: PlayerId(k as u64),
                        gold: initial_gold(seed),
                    }),
                forall|k: int|
                    0 <= k < i as int ==> #[trigger] r@.units[k] == (Unit {
                        id: UnitId(k as u64),
                        owner: PlayerId(k as u64),
                        pos: TileCoord { x: (2 * k) as i32, y: 1 },
                        combat: true,
                        fortified: false,
                        ap: MAX_AP,
                    }),
                forall|k: int|
                    0 <= k < i as int ==> #[trigger] r@.cities[k] == (City {
                        id: CityId(k as u64),
                        owner: PlayerId(k as u64),
                        pos: TileCoord { x: (2 * k) as i32, y: 0 },
                    }),
            decreases n - i,
        {
            let id64 = i as u64;
            let x: i32 = 2 * (i as i32);
            r.players.push(Player { id: PlayerId(id64), gold: g });
            r.cities.push(City { id: CityId(id64), owner: PlayerId(id64), pos: TileCoord { x, y: 0 } });
            r.units.push(
                Unit {
                    id: UnitId(id64),
                    owner: PlayerId(id64),
                    pos: TileCoord { x, y: 1 },
                    combat: true,
                    fortified: false,
                    ap: MAX_AP,
                },
            );
            r.next_unit = r.next_unit + 1;
            i = i + 1;
        }
        proof {
            reveal(spec_initial_state);
            assert forall|i2: int|
                0 <= i2 < r@.units.len() implies has_player(r@, #[trigger] r@.units[i2].owner)
                && in_bounds(r@, r@.units[i2].pos) by {
                assert(r@.players[i2].id == r@.units[i2].owner);
            }
            assert forall|i2: int|
                0 <= i2 < r@.cities.len() implies has_player(r@, #[trigger] r@.cities[i2].owner)
                && in_bounds(r@, r@.cities[i2].pos) by {
                assert(r@.players[i2].id == r@.cities[i2].owner);
            }
            assert(wf(r@));
            assert(r@.players =~= spec_initial_state(seed, n as int).players);
            assert(r@.cities =~= spec_initial_state(seed, n as int).cities);
            assert(r@.units =~= spec_initial_state(seed, n as int).units);
            assert(r@.policies =~= spec_initial_state(seed, n as int).policies);
            assert(r@ =~= spec_initial_state(seed, n as int));
        }
        r
    }

    /// Look up a player's index by identifier.
    pub fn find_player(&self, id: PlayerId) -> (r: Option<usize>)
        ensures
            (r is Some ==> 0 <= r->0 < self@.players.len() && self@.players[r->0 as int].id == id),
            (r is None ==> !has_player(self@, id)),
            (r is Some ==> has_player(self@, id)),
    {
        let mut i: usize = 0;
        while i < self.players.len()
            invariant
                0 <= i <= self@.players.len(),
                forall|k: int| 0 <= k < i as int ==> (#[trigger] self@.players[k]).id != id,
            decreases self@.players.len() - i,
        {
            if self.players[i].id == id {
                return Some(i);
            }
            i = i + 1;
        }
        None
    }

    /// Look up a unit's index by identifier.
    pub fn find_unit(&self, id: UnitId) -> (r: Option<usize>)
        ensures
            (r is Some ==> 0 <= r->0 < self@.units.len() && self@.units[r->0 as int].id == id),
            (r is None ==> !has_unit(self@, id)),
            (r is Some ==> has_unit(self@, id)),
    {
        let mut i: usize = 0;
        while i < self.units.len()
            invariant
                0 <= i <= self@.units.len(),
                forall|k: int| 0 <= k < i as int ==> (#[trigger] self@.units[k]).id != id,
            decreases self@.units.len() - i,
        {
            if self.units[i].id == id {
                return Some(i);
            }
            i = i + 1;
        }
        None
    }

    /// Look up a city's index by identifier.
    pub fn find_city(&self, id: CityId) -> (r: Option<usize>)
        ensures
            (r is Some ==> 0 <= r->0 < self@.cities.len() && self@.cities[r->0 as int].id == id),
            (r is None ==> !has_city(self@, id)),
            (r is Some ==> has_city(self@, id)),
    {
        let mut i: usize = 0;
        while i < self.cities.len()
            invariant
                0 <= i <= self@.cities.len(),
                forall|k: int| 0 <= k < i as int ==> (#[trigger] self@.cities[k]).id != id,
            decreases self@.cities.len() - i,
        {
            if self.cities[i].id == id {
                return Some(i);
            }
            i = i + 1;
        }
        None
    }
}

impl Default for State {
    /// Same fresh state as `State::new`.
    fn default() -> (r: State)
        ensures
            wf(r@),
            r@.turn == 0,
            r@.players.len() == 0,
    {
        State::new()
    }
}


/// The fully determined initial state of a match created from `seed` with
/// `n` players. Opaque: callers treat it as an abstract function of seed
/// and player count.
#[verifier::opaque]
pub open spec fn spec_initial_state(seed: u64, n: int) -> StateV {
    StateV {
        turn: 0,
        rules_ver: "0.1.0"@,
        width: MAP_DIM as int,
        height: MAP_DIM as int,
        players: Seq::new(
            n as nat,
            |i: int| Player { id: PlayerId(i as u64), gold: initial_gold(seed) },
        ),
        cities: Seq::new(
            n as nat,
            |i: int|
                City {
                    id: CityId(i as u64),
                    owner: PlayerId(i as u64),
                    pos: TileCoord { x: (2 * i) as i32, y: 0 },
                },
        ),
        units: Seq::new(
            n as nat,
            |i: int|
                Unit {
                    id: UnitId(i as u64),
                    owner: PlayerId(i as u64),
                    pos: TileCoord { x: (2 * i) as i32, y: 1 },
                    combat: true,
                    fortified: false,
                    ap: MAX_AP,
                },
        ),
        districts: Seq::empty(),
        researched: Seq::empty(),
        policies: Seq::new(POLICY_SLOTS as nat, |i: int| Seq::<char>::empty()),
        open_deals: Seq::empty(),
        next_unit: n as u64,
        next_deal: 0,
    }
}

/// Initial gold balance derived from the match seed.
pub open spec fn initial_gold(seed: u64) -> i64 {
    (50 + seed % 100) as i64
}

/// Executable form of `initial_gold`.
pub fn initial_gold_exec(seed: u64) -> (r: i64)
    ensures
        r == initial_gold(seed),
{
    50 + ((seed % 100) as i64)
}

/// When a lookup index satisfies the membership predicate and ids are
/// strictly sorted, it is the unique such index, hence equals the chosen one.
pub proof fn lemma_unit_ix_unique(s: StateV, i: int)
    requires
        wf(s),
        0 <= i < s.units.len(),
    ensures
        unit_ix(s, s.units[i].id) == i,
{
    let id = s.units[i].id;
    assert(has_unit(s, id));
    let j = unit_ix(s, id);
    if i < j {
        assert(s.units[i].id.0 < s.units[j].id.0);
    } else if j < i {
        assert(s.units[j].id.0 < s.units[i].id.0);
    }
}

/// Same uniqueness fact for players.
pub proof fn lemma_player_ix_unique(s: StateV, i: int)
    requires
        wf(s),
        0 <= i < s.players.len(),
    ensures
        player_ix(s, s.players[i].id) == i,
{
    let id = s.players[i].id;
    assert(has_player(s, id));
    let j = player_ix(s, id);
    if i < j {
        assert(s.players[i].id.0 < s.players[j].id.0);
    } else if j < i {
        assert(s.players[j].id.0 < s.players[i].id.0);
    }
}

/// Same uniqueness fact for cities.
pub proof fn lemma_city_ix_unique(s: StateV, i: int)
    requires
        wf(s),
        0 <= i < s.cities.len(),
    ensures
        city_ix(s, s.cities[i].id) == i,
{
    let id = s.cities[i].id;
    assert(has_city(s, id));
    let j = city_ix(s, id);
    if i < j {
        assert(s.cities[i].id.0 < s.cities[j].id.0);
    } else if j < i {
        assert(s.cities[j].id.0 < s.cities[i].id.0);
    }
}

} // verus!
