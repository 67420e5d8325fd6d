//! The simulation engine: validity rules for every action, the spec-level
//! transition function, and the executable validate / apply / end-turn
//! operations proved against it.
//!
//! Determinism is a contract here: every executable operation's result is
//! pinned to a spec-level function of the state view alone, so identical
//! content yields identical outcomes on every machine and every replay.

use vstd::prelude::*;

use crate::action::Action;
use crate::action::ActionV;
use crate::action::Effects;
use crate::action::EffectsV;
use crate::action::SimError;
use crate::action::SimErrorV;
use crate::action::make_effects;
use crate::ids::PlayerId;
use crate::ids::TileCoord;
use crate::ids::UnitId;
use crate::state::City;
use crate::state::Deal;
use crate::state::District;
use crate::state::DealV;
use crate::state::DistrictV;
use crate::state::GOLD_CAP;
use crate::state::MAX_AP;
use crate::state::POLICY_SLOTS;
use crate::state::Player;
use crate::state::State;
use crate::state::StateV;
use crate::state::TURN_CAP;
use crate::state::Unit;
use crate::state::ap_ok;
use crate::state::city_ix;
use crate::state::districts_ok;
use crate::state::has_city;
use crate::state::has_player;
use crate::state::has_unit;
use crate::state::ids_ok;
use crate::state::in_bounds;
use crate::state::lemma_city_ix_unique;
use crate::state::lemma_player_ix_unique;
use crate::state::lemma_unit_ix_unique;
use crate::state::player_ix;
use crate::state::refs_ok;
use crate::state::research_ok;
use crate::state::resources_ok;
use crate::state::stacking_ok;
use crate::state::unit_ix;
use crate::state::wf;
use crate::strutil::deal_id_chars;
use crate::strutil::deal_id_string;
use crate::strutil::str_matches;

verus! {

/// Gold cost of building a district.
pub const DISTRICT_COST: i64 = 25;

/// Gold income accrued per player at end of turn, saturating at `GOLD_CAP`.
pub const TURN_INCOME: i64 = 5;

/// Two tiles are adjacent when they differ by one step in exactly one axis.
pub open spec fn adj(a: TileCoord, b: TileCoord) -> bool {
    (a.x == b.x && (a.y - b.y == 1 || b.y - a.y == 1)) || (a.y == b.y && (a.x - b.x == 1 || b.x
        - a.x == 1))
}

/// Executable adjacency test.
pub fn adj_exec(a: TileCoord, b: TileCoord) -> (r: bool)
    ensures
        r == adj(a, b),
{
    let ax = a.x as i64;
    let ay = a.y as i64;
    let bx = b.x as i64;
    let by = b.y as i64;
    (ax == bx && (ay - by == 1 || by - ay == 1)) || (ay == by && (ax - bx == 1 || bx - ax == 1))
}

/// A movement path is non-empty, starts adjacent to `start`, chains
/// adjacently, and stays within the map bounds.
pub open spec fn path_ok(s: StateV, start: TileCoord, path: Seq<TileCoord>) -> bool {
    &&& path.len() >= 1
    &&& adj(start, path[0])
    &&& forall|k: int| 0 <= k < path.len() - 1 ==> adj(#[trigger] path[k], path[k + 1])
    &&& forall|k: int| 0 <= k < path.len() ==> in_bounds(s, #[trigger] path[k])
}

/// No unit of the given combat class other than `exclude` stands on `t`.
pub open spec fn tile_free_for(s: StateV, combat: bool, t: TileCoord, exclude: UnitId) -> bool {
    forall|i: int|
        0 <= i < s.units.len() && (#[trigger] s.units[i]).id != exclude && s.units[i].combat
            == combat ==> s.units[i].pos != t
}

/// Buildable unit kinds.
pub open spec fn unit_kind_ok(k: Seq<char>) -> bool {
    k == "warrior"@ || k == "settler"@
}

/// Whether the built unit is combat-capable.
pub open spec fn unit_kind_combat(k: Seq<char>) -> bool {
    k == "warrior"@
}

/// Gold cost of building the given unit kind.
pub open spec fn unit_kind_cost(k: Seq<char>) -> int {
    if k == "warrior"@ {
        40
    } else {
        30
    }
}

/// Buildable district kinds.
pub open spec fn district_kind_ok(k: Seq<char>) -> bool {
    k == "farm"@ || k == "mine"@
}

/// Technologies offered by the ruleset.
pub open spec fn tech_known_name(id: Seq<char>) -> bool {
    id == "agriculture"@ || id == "mining"@ || id == "pottery"@
}

/// A district already stands on tile `t`.
pub open spec fn district_at(s: StateV, t: TileCoord) -> bool {
    exists|i: int| 0 <= i < s.districts.len() && (#[trigger] s.districts[i]).pos == t
}

/// The technology `id` has already been researched.
pub open spec fn researched_has(s: StateV, id: Seq<char>) -> bool {
    exists|i: int| 0 <= i < s.researched.len() && #[trigger] s.researched[i] == id
}

/// First index of the open deal whose identifier string equals `id`, or -1.
pub open spec fn first_deal_ix(deals: Seq<DealV>, id: Seq<char>) -> int
    decreases deals.len(),
{
    if deals.len() == 0 {
        -1
    } else if deal_id_chars(deals[0].id) == id {
        0
    } else {
        let r = first_deal_ix(deals.drop_first(), id);
        if r < 0 {
            -1
        } else {
            r + 1
        }
    }
}

/// Shape of the result of `first_deal_ix`: either -1 and no match, or the
/// first matching index.
pub proof fn lemma_first_deal_ix(deals: Seq<DealV>, id: Seq<char>)
    ensures
        first_deal_ix(deals, id) == -1 ==> forall|i: int|
            0 <= i < deals.len() ==> deal_id_chars((#[trigger] deals[i]).id) != id,
        first_deal_ix(deals, id) != -1 ==> {
            &&& 0 <= first_deal_ix(deals, id) < deals.len()
            &&& deal_id_chars(deals[first_deal_ix(deals, id)].id) == id
            &&& forall|i: int|
                0 <= i < first_deal_ix(deals, id) ==> deal_id_chars((#[trigger] deals[i]).id) != id
        },
    decreases deals.len(),
{
    if deals.len() > 0 && deal_id_chars(deals[0].id) != id {
        lemma_first_deal_ix(deals.drop_first(), id);
        assert forall|i: int| 1 <= i < deals.len() implies deals.drop_first()[i - 1] == deals[i] by {}
    }
}

/// Pure validity rule: exactly the actions `apply_action` accepts.
pub open spec fn action_valid(s: StateV, a: ActionV) -> bool {
    match a {
        ActionV::EndTurn => s.turn < TURN_CAP,
        ActionV::MoveUnit { unit, path, ap } => {
            &&& has_unit(s, unit)
            &&& path_ok(s, s.units[unit_ix(s, unit)].pos, path)
            &&& 1 <= ap
            &&& ap <= s.units[unit_ix(s, unit)].ap
            &&& path.len() == ap
            &&& tile_free_for(s, s.units[unit_ix(s, unit)].combat, path.last(), unit)
        },
        ActionV::Attack { attacker, target } => {
            &&& has_unit(s, attacker)
            &&& has_unit(s, target)
            &&& s.units[unit_ix(s, attacker)].combat
            &&& s.units[unit_ix(s, attacker)].ap >= 1
            &&& s.units[unit_ix(s, attacker)].owner != s.units[unit_ix(s, target)].owner
            &&& adj(s.units[unit_ix(s, attacker)].pos, s.units[unit_ix(s, target)].pos)
        },
        ActionV::Fortify { unit } => {
            &&& has_unit(s, unit)
            &&& s.units[unit_ix(s, unit)].combat
            &&& !s.units[unit_ix(s, unit)].fortified
            &&& s.units[unit_ix(s, unit)].ap >= 1
        },
        ActionV::BuildUnit { city, kind } => {
            &&& has_city(s, city)
            &&& unit_kind_ok(kind)
            &&& s.players[player_ix(s, s.cities[city_ix(s, city)].owner)].gold >= unit_kind_cost(
                kind,
            )
            &&& tile_free_for(
                s,
                unit_kind_combat(kind),
                s.cities[city_ix(s, city)].pos,
                UnitId(s.next_unit),
            )
            &&& s.next_unit < u64::MAX
        },
        ActionV::BuildDistrict { city, kind, tile } => {
            &&& has_city(s, city)
            &&& district_kind_ok(kind)
            &&& in_bounds(s, tile)
            &&& adj(tile, s.cities[city_ix(s, city)].pos)
            &&& !district_at(s, tile)
            &&& s.players[player_ix(s, s.cities[city_ix(s, city)].owner)].gold >= DISTRICT_COST
        },
        ActionV::SetPolicy { slot, id } => 0 <= slot < POLICY_SLOTS as int && id.len() > 0,
        ActionV::ChooseTech { id } => tech_known_name(id) && !researched_has(s, id),
        ActionV::OfferDeal { json } => json.len() > 0 && s.next_deal < u64::MAX,
        ActionV::AcceptDeal { id } => first_deal_ix(s.open_deals, id) >= 0,
        ActionV::DeclineDeal { id } => first_deal_ix(s.open_deals, id) >= 0,
    }
}

/// Gold balance after end-of-turn income, saturating at the cap.
pub open spec fn end_gold(g: int) -> int {
    if g + TURN_INCOME > GOLD_CAP {
        GOLD_CAP as int
    } else {
        g + TURN_INCOME
    }
}

/// End-of-turn bookkeeping: advance the turn, accrue saturating income,
/// and restore every unit's action points.
pub open spec fn spec_end_turn(s: StateV) -> StateV {
    StateV {
        turn: s.turn + 1,
        players: Seq::new(
            s.players.len(),
            |i: int|
                Player { id: s.players[i].id, gold: end_gold(s.players[i].gold as int) as i64 },
        ),
        units: Seq::new(
            s.units.len(),
            |i: int|
                Unit {
                    id: s.units[i].id,
                    owner: s.units[i].owner,
                    pos: s.units[i].pos,
                    combat: s.units[i].combat,
                    fortified: s.units[i].fortified,
                    ap: MAX_AP,
                },
        ),
        ..s
    }
}

/// The deterministic state transition for one accepted action.
pub open spec fn spec_apply(s: StateV, a: ActionV) -> StateV
    recommends
        action_valid(s, a),
{
    match a {
        ActionV::EndTurn => spec_end_turn(s),
        ActionV::MoveUnit { unit, path, ap } => {
            let i = unit_ix(s, unit);
            let u = s.units[i];
            StateV {
                units: s.units.update(
                    i,
                    Unit {
                        id: u.id,
                        owner: u.owner,
                        pos: path.last(),
                        combat: u.combat,
                        fortified: false,
                        ap: (u.ap - ap) as i32,
                    },
                ),
                ..s
            }
        },
        ActionV::Attack { attacker, target } => {
            let ia = unit_ix(s, attacker);
            let it = unit_ix(s, target);
            let ua = s.units[ia];
            let upd = s.units.update(
                ia,
                Unit {
                    id: ua.id,
                    owner: ua.owner,
                    pos: ua.pos,
                    combat: ua.combat,
                    fortified: ua.fortified,
                    ap: (ua.ap - 1) as i32,
                },
            );
            StateV { units: upd.remove(it), ..s }
        },
        ActionV::Fortify { unit } => {
            let i = unit_ix(s, unit);
            let u = s.units[i];
            StateV {
                units: s.units.update(
                    i,
                    Unit {
                        id: u.id,
                        owner: u.owner,
                        pos: u.pos,
                        combat: u.combat,
                        fortified: true,
                        ap: (u.ap - 1) as i32,
                    },
                ),
                ..s
            }
        },
        ActionV::BuildUnit { city, kind } => {
            let c = s.cities[city_ix(s, city)];
            let pi = player_ix(s, c.owner);
            let p = s.players[pi];
            StateV {
                players: s.players.update(
                    pi,
                    Player { id: p.id, gold: (p.gold - unit_kind_cost(kind)) as i64 },
                ),
                units: s.units.push(
                    Unit {
                        id: UnitId(s.next_unit),
                        owner: c.owner,
                        pos: c.pos,
                        combat: unit_kind_combat(kind),
                        fortified: false,
                        ap: 0,
                    },
                ),
                next_unit: (s.next_unit + 1) as u64,
                ..s
            }
        },
        ActionV::BuildDistrict { city, kind, tile } => {
            let c = s.cities[city_ix(s, city)];
            let pi = player_ix(s, c.owner);
            let p = s.players[pi];
            StateV {
                players: s.players.update(
                    pi,
                    Player { id: p.id, gold: (p.gold - DISTRICT_COST) as i64 },
                ),
                districts: s.districts.push(DistrictV { pos: tile, kind }),
                ..s
            }
        },
        ActionV::SetPolicy { slot, id } => StateV {
            policies: s.policies.update(slot as int, id),
            ..s
        },
        ActionV::ChooseTech { id } => StateV { researched: s.researched.push(id), ..s },
        ActionV::OfferDeal { json } => StateV {
            open_deals: s.open_deals.push(DealV { id: s.next_deal, json }),
            next_deal: (s.next_deal + 1) as u64,
            ..s
        },
        ActionV::AcceptDeal { id } => StateV {
            open_deals: s.open_deals.remove(first_deal_ix(s.open_deals, id)),
            ..s
        },
        ActionV::DeclineDeal { id } => StateV {
            open_deals: s.open_deals.remove(first_deal_ix(s.open_deals, id)),
            ..s
        },
    }
}

/// Effects report emitted for one accepted action.
pub open spec fn spec_effects(a: ActionV) -> EffectsV {
    match a {
        ActionV::EndTurn => EffectsV { deltas: seq!["turn_advanced"@], events: seq!["TurnAdvanced"@] },
        ActionV::MoveUnit { .. } => EffectsV {
            deltas: seq!["unit_moved"@],
            events: seq!["UnitMoved"@],
        },
        ActionV::Attack { .. } => EffectsV {
            deltas: seq!["unit_destroyed"@],
            events: seq!["UnitAttacked"@],
        },
        ActionV::Fortify { .. } => EffectsV {
            deltas: seq!["unit_fortified"@],
            events: seq!["UnitFortified"@],
        },
        ActionV::BuildUnit { .. } => EffectsV {
            deltas: seq!["unit_built"@],
            events: seq!["UnitBuilt"@],
        },
        ActionV::BuildDistrict { .. } => EffectsV {
            deltas: seq!["district_built"@],
            events: seq!["DistrictBuilt"@],
        },
        ActionV::SetPolicy { .. } => EffectsV {
            deltas: seq!["policy_set"@],
            events: seq!["PolicySet"@],
        },
        ActionV::ChooseTech { .. } => EffectsV {
            deltas: seq!["tech_chosen"@],
            events: seq!["TechChosen"@],
        },
        ActionV::OfferDeal { .. } => EffectsV {
            deltas: seq!["deal_opened"@],
            events: seq!["DealOffered"@],
        },
        ActionV::AcceptDeal { .. } => EffectsV {
            deltas: seq!["deal_closed"@],
            events: seq!["DealAccepted"@],
        },
        ActionV::DeclineDeal { .. } => EffectsV {
            deltas: seq!["deal_closed"@],
            events: seq!["DealDeclined"@],
        },
    }
}

/// Updating player balances without touching identifiers preserves
/// player lookups.
pub proof fn lemma_has_player_same_ids(s: StateV, t: StateV, id: PlayerId)
    requires
        t.players.len() == s.players.len(),
        forall|k: int|
            0 <= k < s.players.len() ==> (#[trigger] t.players[k]).id == s.players[k].id,
        has_player(s, id),
    ensures
        has_player(t, id),
{
    let k = player_ix(s, id);
    assert(0 <= k < s.players.len() && s.players[k].id == id);
    assert(t.players[k].id == id);
}

/// Replacing one unit in place, keeping its identifier, owner, and a legal
/// action-point balance, preserves every invariant except possibly stacking.
pub proof fn lemma_units_update_parts(s: StateV, t: StateV, i: int, nu: Unit)
    requires
        wf(s),
        0 <= i < s.units.len(),
        nu.id == s.units[i].id,
        nu.owner == s.units[i].owner,
        0 <= nu.ap <= MAX_AP,
        in_bounds(s, nu.pos),
        t.units == s.units.update(i, nu),
        t.players == s.players,
        t.cities == s.cities,
        t.districts == s.districts,
        t.open_deals == s.open_deals,
        t.researched == s.researched,
        t.next_unit == s.next_unit,
        t.next_deal == s.next_deal,
        t.width == s.width,
        t.height == s.height,
    ensures
        refs_ok(t),
        ap_ok(t),
        ids_ok(t),
        resources_ok(t),
        research_ok(t),
        districts_ok(t),
    decreases 0int,
{
    assert forall|x: int|
        0 <= x < t.units.len() implies has_player(t, #[trigger] t.units[x].owner) && in_bounds(
        t,
        t.units[x].pos,
    ) by {
        if x == i {
            assert(t.units[x] == nu);
        } else {
            assert(t.units[x] == s.units[x]);
        }
        assert(has_player(s, t.units[x].owner) && in_bounds(s, t.units[x].pos));
        lemma_has_player_same_ids(s, t, t.units[x].owner);
    }
    assert forall|x: int|
        0 <= x < t.cities.len() implies has_player(t, #[trigger] t.cities[x].owner) && in_bounds(
        t,
        t.cities[x].pos,
    ) by {
        assert(has_player(s, s.cities[x].owner) && in_bounds(s, s.cities[x].pos));
        lemma_has_player_same_ids(s, t, s.cities[x].owner);
    }
    assert forall|x: int|
        0 <= x < t.districts.len() implies in_bounds(t, (#[trigger] t.districts[x]).pos) by {
        assert(in_bounds(s, s.districts[x].pos));
    }
    assert forall|x: int|
        0 <= x < t.units.len() implies 0 <= (#[trigger] t.units[x]).ap <= MAX_AP by {
        if x == i {
            assert(t.units[x] == nu);
        } else {
            assert(t.units[x] == s.units[x]);
        }
    }
    assert forall|x: int, y: int|
        0 <= x < y < t.units.len() implies (#[trigger] t.units[x]).id.0 < (
        #[trigger] t.units[y]).id.0 by {
        assert(t.units[x] == if x == i { nu } else { s.units[x] });
        assert(t.units[y] == if y == i { nu } else { s.units[y] });
    }
    assert forall|x: int|
        0 <= x < t.units.len() implies (#[trigger] t.units[x]).id.0 < t.next_unit by {
        assert(t.units[x] == if x == i { nu } else { s.units[x] });
    }
}

/// Whenever the map, players, units, cities, and districts are unchanged,
/// referential integrity carries over.
pub proof fn lemma_refs_same(s: StateV, t: StateV)
    requires
        t.players == s.players,
        t.units == s.units,
        t.cities == s.cities,
        t.districts == s.districts,
        t.width == s.width,
        t.height == s.height,
        refs_ok(s),
    ensures
        refs_ok(t),
{
    assert forall|i: int|
        0 <= i < t.units.len() implies has_player(t, #[trigger] t.units[i].owner) && in_bounds(
        t,
        t.units[i].pos,
    ) by {
        assert(has_player(s, s.units[i].owner) && in_bounds(s, s.units[i].pos));
        lemma_has_player_same_ids(s, t, s.units[i].owner);
    }
    assert forall|i: int|
        0 <= i < t.cities.len() implies has_player(t, #[trigger] t.cities[i].owner) && in_bounds(
        t,
        t.cities[i].pos,
    ) by {
        assert(has_player(s, s.cities[i].owner) && in_bounds(s, s.cities[i].pos));
        lemma_has_player_same_ids(s, t, s.cities[i].owner);
    }
    assert forall|i: int|
        0 <= i < t.districts.len() implies in_bounds(t, (#[trigger] t.districts[i]).pos) by {
        assert(in_bounds(s, s.districts[i].pos));
    }
}

/// End-of-turn bookkeeping preserves well-formedness.
pub proof fn lemma_end_turn_wf(s: StateV)
    requires
        wf(s),
        s.turn < TURN_CAP,
    ensures
        wf(spec_end_turn(s)),
{
    let t = spec_end_turn(s);
    assert forall|k: int|
        0 <= k < s.players.len() implies (#[trigger] t.players[k]).id == s.players[k].id by {}
    assert forall|i: int|
        0 <= i < t.units.len() implies has_player(t, #[trigger] t.units[i].owner) && in_bounds(
        t,
        t.units[i].pos,
    ) by {
        lemma_has_player_same_ids(s, t, s.units[i].owner);
    }
    assert forall|i: int|
        0 <= i < t.cities.len() implies has_player(t, #[trigger] t.cities[i].owner) && in_bounds(
        t,
        t.cities[i].pos,
    ) by {
        lemma_has_player_same_ids(s, t, s.cities[i].owner);
    }
}

/// Applying a valid action preserves well-formedness: the invariant
/// preservation law for single transitions.
pub proof fn lemma_apply_wf(s: StateV, a: ActionV)
    requires
        wf(s),
        action_valid(s, a),
    ensures
        wf(spec_apply(s, a)),
{
    let t = spec_apply(s, a);
    match a {
        ActionV::EndTurn => {
            lemma_end_turn_wf(s);
            assert(wf(t));
        },
        ActionV::MoveUnit { unit, path, ap } => {
            let i = unit_ix(s, unit);
            assert(0 <= i < s.units.len() && s.units[i].id == unit);
            assert forall|x: int, y: int|
                0 <= x < y < t.units.len() && (#[trigger] t.units[x]).combat == (
                #[trigger] t.units[y]).combat implies t.units[x].pos != t.units[y].pos by {
                if x != i && y != i {
                    assert(t.units[x] == s.units[x] && t.units[y] == s.units[y]);
                } else if x == i {
                    assert(t.units[y] == s.units[y]);
                    assert(s.units[y].id != unit);
                } else {
                    assert(t.units[x] == s.units[x]);
                    assert(s.units[x].id != unit);
                }
            }
            let u = s.units[i];
            assert(in_bounds(s, path.last()));
            lemma_units_update_parts(
                s,
                t,
                i,
                Unit {
                    id: u.id,
                    owner: u.owner,
                    pos: path.last(),
                    combat: u.combat,
                    fortified: false,
                    ap: (u.ap - ap) as i32,
                },
            );
            assert(wf(t));
        },
        ActionV::Attack { attacker, target } => {
            let ia = unit_ix(s, attacker);
            let it = unit_ix(s, target);
            assert(0 <= ia < s.units.len() && s.units[ia].id == attacker);
            assert(0 <= it < s.units.len() && s.units[it].id == target);
            assert(ia != it);
            let upd = s.units.update(
                ia,
                Unit {
                    id: s.units[ia].id,
                    owner: s.units[ia].owner,
                    pos: s.units[ia].pos,
                    combat: s.units[ia].combat,
                    fortified: s.units[ia].fortified,
                    ap: (s.units[ia].ap - 1) as i32,
                },
            );
            upd.remove_ensures(it);
            assert forall|x: int|
                0 <= x < t.units.len() implies t.units[x] == upd[if x < it {
                x
            } else {
                x + 1
            }] by {}
            assert forall|x: int, y: int|
                0 <= x < y < t.units.len() && (#[trigger] t.units[x]).combat == (
                #[trigger] t.units[y]).combat implies t.units[x].pos != t.units[y].pos by {
                let ox = if x < it { x } else { x + 1 };
                let oy = if y < it { y } else { y + 1 };
                assert(t.units[x] == upd[ox] && t.units[y] == upd[oy]);
                assert(upd[ox].pos == s.units[ox].pos && upd[ox].combat == s.units[ox].combat);
                assert(upd[oy].pos == s.units[oy].pos && upd[oy].combat == s.units[oy].combat);
            }
            assert forall|x: int|
                0 <= x < t.units.len() implies has_player(t, #[trigger] t.units[x].owner)
                && in_bounds(t, t.units[x].pos) by {
                let ox = if x < it { x } else { x + 1 };
                assert(t.units[x] == upd[ox]);
                assert(upd[ox].owner == s.units[ox].owner && upd[ox].pos == s.units[ox].pos);
                assert(has_player(s, s.units[ox].owner) && in_bounds(s, s.units[ox].pos));
                assert(t.players == s.players);
                lemma_has_player_same_ids(s, t, s.units[ox].owner);
            }
            assert forall|x: int, y: int|
                0 <= x < y < t.units.len() implies (#[trigger] t.units[x]).id.0 < (
                #[trigger] t.units[y]).id.0 by {
                let ox = if x < it { x } else { x + 1 };
                let oy = if y < it { y } else { y + 1 };
                assert(t.units[x] == upd[ox] && t.units[y] == upd[oy]);
            }
            assert forall|x: int|
                0 <= x < t.units.len() implies (#[trigger] t.units[x]).id.0 < t.next_unit by {
                let ox = if x < it { x } else { x + 1 };
                assert(t.units[x] == upd[ox]);
            }
            assert forall|x: int|
                0 <= x < t.units.len() implies 0 <= (#[trigger] t.units[x]).ap <= MAX_AP by {
                let ox = if x < it { x } else { x + 1 };
                assert(t.units[x] == upd[ox]);
            }
            assert forall|x: int|
                0 <= x < t.cities.len() implies has_player(t, #[trigger] t.cities[x].owner)
                && in_bounds(t, t.cities[x].pos) by {
                assert(has_player(s, s.cities[x].owner) && in_bounds(s, s.cities[x].pos));
                lemma_has_player_same_ids(s, t, s.cities[x].owner);
            }
            assert forall|x: int|
                0 <= x < t.districts.len() implies in_bounds(t, (#[trigger] t.districts[x]).pos) by {
                assert(in_bounds(s, s.districts[x].pos));
            }
            assert(resources_ok(t) && research_ok(t) && districts_ok(t));
            assert(wf(t));
        },
        ActionV::Fortify { unit } => {
            let i = unit_ix(s, unit);
            assert(0 <= i < s.units.len() && s.units[i].id == unit);
            assert forall|x: int, y: int|
                0 <= x < y < t.units.len() && (#[trigger] t.units[x]).combat == (
                #[trigger] t.units[y]).combat implies t.units[x].pos != t.units[y].pos by {
                assert(t.units[x].pos == s.units[x].pos && t.units[x].combat == s.units[x].combat);
                assert(t.units[y].pos == s.units[y].pos && t.units[y].combat == s.units[y].combat);
            }
            let u = s.units[i];
            assert(in_bounds(s, u.pos));
            lemma_units_update_parts(
                s,
                t,
                i,
                Unit {
                    id: u.id,
                    owner: u.owner,
                    pos: u.pos,
                    combat: u.combat,
                    fortified: true,
                    ap: (u.ap - 1) as i32,
                },
            );
            assert(wf(t));
        },
        ActionV::BuildUnit { city, kind } => {
            let ci = city_ix(s, city);
            assert(0 <= ci < s.cities.len() && s.cities[ci].id == city);
            let c = s.cities[ci];
            assert(has_player(s, c.owner));
            let pi = player_ix(s, c.owner);
            assert(0 <= pi < s.players.len() && s.players[pi].id == c.owner);
            let n = s.units.len() as int;
            assert forall|k: int|
                0 <= k < s.players.len() implies (#[trigger] t.players[k]).id
                == s.players[k].id by {}
            assert forall|x: int, y: int|
                0 <= x < y < t.units.len() && (#[trigger] t.units[x]).combat == (
                #[trigger] t.units[y]).combat implies t.units[x].pos != t.units[y].pos by {
                if y < n {
                    assert(t.units[x] == s.units[x] && t.units[y] == s.units[y]);
                } else {
                    assert(t.units[x] == s.units[x]);
                    assert(s.units[x].id.0 < s.next_unit);
                    assert(s.units[x].id != UnitId(s.next_unit));
                    assert(t.units[y].combat == unit_kind_combat(kind) && t.units[y].pos == c.pos);
                    assert(s.units[x].combat == unit_kind_combat(kind) ==> s.units[x].pos != c.pos);
                }
            }
            assert forall|x: int|
                0 <= x < t.units.len() implies has_player(t, #[trigger] t.units[x].owner)
                && in_bounds(t, t.units[x].pos) by {
                if x < n {
                    assert(t.units[x] == s.units[x]);
                    lemma_has_player_same_ids(s, t, s.units[x].owner);
                } else {
                    assert(t.units[x].owner == c.owner && t.units[x].pos == c.pos);
                    lemma_has_player_same_ids(s, t, c.owner);
                    assert(in_bounds(s, c.pos));
                }
            }
            assert forall|x: int|
                0 <= x < t.cities.len() implies has_player(t, #[trigger] t.cities[x].owner)
                && in_bounds(t, t.cities[x].pos) by {
                lemma_has_player_same_ids(s, t, s.cities[x].owner);
            }
            assert forall|x: int, y: int|
                0 <= x < y < t.units.len() implies (#[trigger] t.units[x]).id.0 < (
                #[trigger] t.units[y]).id.0 by {
                if y < n {
                } else {
                    assert(t.units[x] == s.units[x]);
                    assert(s.units[x].id.0 < s.next_unit);
                }
            }
            assert(wf(t));
        },
        ActionV::BuildDistrict { city, kind, tile } => {
            let ci = city_ix(s, city);
            assert(0 <= ci < s.cities.len() && s.cities[ci].id == city);
            let c = s.cities[ci];
            assert(has_player(s, c.owner));
            let pi = player_ix(s, c.owner);
            assert(0 <= pi < s.players.len() && s.players[pi].id == c.owner);
            let n = s.districts.len() as int;
            assert forall|x: int, y: int|
                0 <= x < y < t.districts.len() implies (#[trigger] t.districts[x]).pos != (
                #[trigger] t.districts[y]).pos by {
                if y < n {
                } else {
                    assert(t.districts[x] == s.districts[x]);
                    assert(!district_at(s, tile));
                }
            }
            assert forall|k: int|
                0 <= k < s.players.len() implies (#[trigger] t.players[k]).id
                == s.players[k].id by {}
            assert forall|x: int|
                0 <= x < t.units.len() implies has_player(t, #[trigger] t.units[x].owner)
                && in_bounds(t, t.units[x].pos) by {
                lemma_has_player_same_ids(s, t, s.units[x].owner);
            }
            assert forall|x: int|
                0 <= x < t.cities.len() implies has_player(t, #[trigger] t.cities[x].owner)
                && in_bounds(t, t.cities[x].pos) by {
                lemma_has_player_same_ids(s, t, s.cities[x].owner);
            }
            assert(wf(t));
        },
        ActionV::SetPolicy { .. } => {
            lemma_refs_same(s, t);
            assert(wf(t));
        },
        ActionV::ChooseTech { id } => {
            lemma_refs_same(s, t);
            let n = s.researched.len() as int;
            assert forall|x: int, y: int|
                0 <= x < y < t.researched.len() implies #[trigger] t.researched[x]
                != #[trigger] t.researched[y] by {
                if y < n {
                } else {
                    assert(t.researched[x] == s.researched[x]);
                    assert(!researched_has(s, id));
                }
            }
            assert(wf(t));
        },
        ActionV::OfferDeal { .. } => {
            lemma_refs_same(s, t);
            let n = s.open_deals.len() as int;
            assert forall|x: int, y: int|
                0 <= x < y < t.open_deals.len() implies (#[trigger] t.open_deals[x]).id < (
                #[trigger] t.open_deals[y]).id by {
                if y < n {
                } else {
                    assert(t.open_deals[x] == s.open_deals[x]);
                }
            }
            assert(wf(t));
        },
        ActionV::AcceptDeal { id } => {
            lemma_refs_same(s, t);
            let it = first_deal_ix(s.open_deals, id);
            lemma_first_deal_ix(s.open_deals, id);
            s.open_deals.remove_ensures(it);
            assert forall|x: int, y: int|
                0 <= x < y < t.open_deals.len() implies (#[trigger] t.open_deals[x]).id < (
                #[trigger] t.open_deals[y]).id by {
                let ox = if x < it { x } else { x + 1 };
                let oy = if y < it { y } else { y + 1 };
                assert(t.open_deals[x] == s.open_deals[ox]);
                assert(t.open_deals[y] == s.open_deals[oy]);
            }
            assert forall|x: int|
                0 <= x < t.open_deals.len() implies (#[trigger] t.open_deals[x]).id
                < t.next_deal by {
                let ox = if x < it { x } else { x + 1 };
                assert(t.open_deals[x] == s.open_deals[ox]);
            }
            assert(wf(t));
        },
        ActionV::DeclineDeal { id } => {
            lemma_refs_same(s, t);
            let it = first_deal_ix(s.open_deals, id);
            lemma_first_deal_ix(s.open_deals, id);
            s.open_deals.remove_ensures(it);
            assert forall|x: int, y: int|
                0 <= x < y < t.open_deals.len() implies (#[trigger] t.open_deals[x]).id < (
                #[trigger] t.open_deals[y]).id by {
                let ox = if x < it { x } else { x + 1 };
                let oy = if y < it { y } else { y + 1 };
                assert(t.open_deals[x] == s.open_deals[ox]);
                assert(t.open_deals[y] == s.open_deals[oy]);
            }
            assert forall|x: int|
                0 <= x < t.open_deals.len() implies (#[trigger] t.open_deals[x]).id
                < t.next_deal by {
                let ox = if x < it { x } else { x + 1 };
                assert(t.open_deals[x] == s.open_deals[ox]);
            }
            assert(wf(t));
        },
    }
}


/// Construct a caller-caused rejection with the given message.
fn invalid_err(msg: &str) -> (r: SimError)
    ensures
        r@ == SimErrorV::InvalidAction(msg@),
{
    SimError::InvalidAction(msg.to_owned())
}

/// Executable path check, proved equal to `path_ok`.
fn check_path(s: &State, start: TileCoord, path: &Vec<TileCoord>) -> (r: bool)
    ensures
        r == path_ok(s@, start, path@),
{
    if path.len() == 0 {
        return false;
    }
    if !adj_exec(start, path[0]) {
        return false;
    }
    let mut k: usize = 0;
    while k < path.len()
        invariant
            0 <= k <= path@.len(),
            path@.len() >= 1,
            adj(start, path@[0]),
            forall|x: int|
                0 <= x < k as int && x + 1 < path@.len() ==> adj(
                    #[trigger] path@[x],
                    path@[x + 1],
                ),
            forall|x: int| 0 <= x < k as int ==> in_bounds(s@, #[trigger] path@[x]),
        decreases path@.len() - k,
    {
        let t = path[k];
        if !(0 <= t.x && t.x < s.width && 0 <= t.y && t.y < s.height) {
            return false;
        }
        if k + 1 < path.len() {
            if !adj_exec(t, path[k + 1]) {
                return false;
            }
        }
        k = k + 1;
    }
    true
}

/// Executable stacking check for one tile, proved equal to `tile_free_for`.
fn tile_free_exec(s: &State, combat: bool, t: TileCoord, exclude: UnitId) -> (r: bool)
    ensures
        r == tile_free_for(s@, combat, t, exclude),
{
    let mut i: usize = 0;
    while i < s.units.len()
        invariant
            0 <= i <= s@.units.len(),
            forall|k: int|
                0 <= k < i as int && (#[trigger] s@.units[k]).id != exclude && s@.units[k].combat
                    == combat ==> s@.units[k].pos != t,
        decreases s@.units.len() - i,
    {
        let u = s.units[i];
        if u.id != exclude && u.combat == combat && u.pos == t {
            return false;
        }
        i = i + 1;
    }
    true
}

/// Executable district occupancy check.
fn district_at_exec(s: &State, t: TileCoord) -> (r: bool)
    ensures
        r == district_at(s@, t),
{
    let mut i: usize = 0;
    while i < s.districts.len()
        invariant
            0 <= i <= s@.districts.len(),
            forall|k: int| 0 <= k < i as int ==> (#[trigger] s@.districts[k]).pos != t,
        decreases s@.districts.len() - i,
    {
        if s.districts[i].pos == t {
            proof {
                assert(s@.districts[i as int].pos == t);
            }
            return true;
        }
        i = i + 1;
    }
    false
}

/// Executable membership check for researched technologies.
fn researched_has_exec(s: &State, id: &String) -> (r: bool)
    ensures
        r == researched_has(s@, id@),
{
    let mut i: usize = 0;
    while i < s.researched.len()
        invariant
            0 <= i <= s@.researched.len(),
            forall|k: int| 0 <= k < i as int ==> #[trigger] s@.researched[k] != id@,
        decreases s@.researched.len() - i,
    {
        if s.researched[i].eq(id) {
            proof {
                assert(s@.researched[i as int] == id@);
            }
            return true;
        }
        i = i + 1;
    }
    false
}

/// Executable search for the first open deal carrying the identifier string.
fn find_deal_exec(s: &State, id: &String) -> (r: Option<usize>)
    ensures
        (r is Some ==> r->0 as int == first_deal_ix(s@.open_deals, id@)),
        (r is None ==> first_deal_ix(s@.open_deals, id@) == -1),
{
    proof {
        lemma_first_deal_ix(s@.open_deals, id@);
    }
    let mut i: usize = 0;
    while i < s.open_deals.len()
        invariant
            0 <= i <= s@.open_deals.len(),
            forall|k: int|
                0 <= k < i as int ==> deal_id_chars((#[trigger] s@.open_deals[k]).id) != id@,
            first_deal_ix(s@.open_deals, id@) == -1 || first_deal_ix(s@.open_deals, id@)
                >= i as int,
        decreases s@.open_deals.len() - i,
    {
        let cand = deal_id_string(s.open_deals[i].id);
        if cand.eq(id) {
            proof {
                assert(deal_id_chars(s@.open_deals[i as int].id) == id@);
                lemma_first_deal_ix(s@.open_deals, id@);
                if first_deal_ix(s@.open_deals, id@) == -1 {
                    assert(false);
                }
                if first_deal_ix(s@.open_deals, id@) > i as int {
                    assert(false);
                }
            }
            return Some(i);
        }
        proof {
            lemma_first_deal_ix(s@.open_deals, id@);
        }
        i = i + 1;
    }
    None
}

/// Gold cost of a buildable unit kind, proved against the rule table.
fn unit_cost_exec(kind: &String) -> (r: i64)
    ensures
        r as int == unit_kind_cost(kind@),
{
    if str_matches(kind, "warrior") {
        40
    } else {
        30
    }
}

/// Pure, side-effect-free validity check: accepts exactly the actions that
/// `apply_action` applies, and rejects everything else with a caller-caused
/// `InvalidAction` error.
pub fn validate_action(state: &State, action: &Action) -> (r: Result<(), SimError>)
    requires
        wf(state@),
    ensures
        (r is Ok <==> action_valid(state@, action@)),
        (r is Err ==> r->Err_0@ is InvalidAction),
{
    match action {
        Action::EndTurn => {
            if state.turn < TURN_CAP {
                Ok(())
            } else {
                Err(invalid_err("turn limit reached"))
            }
        },
        Action::MoveUnit { unit, path, ap } => {
            match state.find_unit(*unit) {
                None => Err(invalid_err("unknown unit")),
                Some(i) => {
                    proof {
                        lemma_unit_ix_unique(state@, i as int);
                    }
                    let u = state.units[i];
                    if !(1 <= *ap && *ap <= u.ap) {
                        return Err(invalid_err("insufficient action points"));
                    }
                    if path.len() != (*ap) as usize {
                        return Err(invalid_err("path length must equal action point cost"));
                    }
                    if !check_path(state, u.pos, path) {
                        return Err(invalid_err("path is not an adjacent in-bounds chain"));
                    }
                    let dest = path[path.len() - 1];
                    if !tile_free_exec(state, u.combat, dest, *unit) {
                        return Err(invalid_err("destination tile is occupied"));
                    }
                    proof {
                        assert(path@.last() == dest);
                    }
                    Ok(())
                },
            }
        },
        Action::Attack { attacker, target } => {
            match (state.find_unit(*attacker), state.find_unit(*target)) {
                (Some(ia), Some(it)) => {
                    proof {
                        lemma_unit_ix_unique(state@, ia as int);
                        lemma_unit_ix_unique(state@, it as int);
                    }
                    let ua = state.units[ia];
                    let ut = state.units[it];
                    if !ua.combat {
                        Err(invalid_err("attacker is not a combat unit"))
                    } else if ua.ap < 1 {
                        Err(invalid_err("insufficient action points"))
                    } else if ua.owner == ut.owner {
                        Err(invalid_err("cannot attack own unit"))
                    } else if !adj_exec(ua.pos, ut.pos) {
                        Err(invalid_err("target is not adjacent"))
                    } else {
                        Ok(())
                    }
                },
                _ => Err(invalid_err("unknown unit")),
            }
        },
        Action::Fortify { unit } => {
            match state.find_unit(*unit) {
                None => Err(invalid_err("unknown unit")),
                Some(i) => {
                    proof {
                        lemma_unit_ix_unique(state@, i as int);
                    }
                    let u = state.units[i];
                    if !u.combat {
                        Err(invalid_err("only combat units fortify"))
                    } else if u.fortified {
                        Err(invalid_err("unit is already fortified"))
                    } else if u.ap < 1 {
                        Err(invalid_err("insufficient action points"))
                    } else {
                        Ok(())
                    }
                },
            }
        },
        Action::BuildUnit { city, kind } => {
            match state.find_city(*city) {
                None => Err(invalid_err("unknown city")),
                Some(ci) => {
                    proof {
                        lemma_city_ix_unique(state@, ci as int);
                    }
                    let c = state.cities[ci];
                    if !(str_matches(kind, "warrior") || str_matches(kind, "settler")) {
                        return Err(invalid_err("unknown unit kind"));
                    }
                    match state.find_player(c.owner) {
                        None => Err(invalid_err("city has no owner")),
                        Some(pi) => {
                            proof {
                                lemma_player_ix_unique(state@, pi as int);
                            }
                            let cost = unit_cost_exec(kind);
                            if state.players[pi].gold < cost {
                                return Err(invalid_err("insufficient gold"));
                            }
                            let combat = str_matches(kind, "warrior");
                            if !tile_free_exec(state, combat, c.pos, UnitId(state.next_unit)) {
                                return Err(invalid_err("city tile is occupied"));
                            }
                            if state.next_unit == u64::MAX {
                                return Err(invalid_err("unit identifiers exhausted"));
                            }
                            Ok(())
                        },
                    }
                },
            }
        },
        Action::BuildDistrict { city, kind, tile } => {
            match state.find_city(*city) {
                None => Err(invalid_err("unknown city")),
                Some(ci) => {
                    proof {
                        lemma_city_ix_unique(state@, ci as int);
                    }
                    let c = state.cities[ci];
                    if !(str_matches(kind, "farm") || str_matches(kind, "mine")) {
                        return Err(invalid_err("unknown district kind"));
                    }
                    if !(0 <= tile.x && tile.x < state.width && 0 <= tile.y && tile.y
                        < state.height) {
                        return Err(invalid_err("tile is out of bounds"));
                    }
                    if !adj_exec(*tile, c.pos) {
                        return Err(invalid_err("tile is not adjacent to the city"));
                    }
                    if district_at_exec(state, *tile) {
                        return Err(invalid_err("tile already holds a district"));
                    }
                    match state.find_player(c.owner) {
                        None => Err(invalid_err("city has no owner")),
                        Some(pi) => {
                            proof {
                                lemma_player_ix_unique(state@, pi as int);
                            }
                            if state.players[pi].gold < DISTRICT_COST {
                                return Err(invalid_err("insufficient gold"));
                            }
                            Ok(())
                        },
                    }
                },
            }
        },
        Action::SetPolicy { slot, id } => {
            if 0 <= *slot && (*slot as usize) < POLICY_SLOTS && !id.as_str().is_empty() {
                Ok(())
            } else {
                Err(invalid_err("bad policy slot or empty policy id"))
            }
        },
        Action::ChooseTech { id } => {
            let known = str_matches(id, "agriculture") || str_matches(id, "mining") || str_matches(
                id,
                "pottery",
            );
            if !known {
                Err(invalid_err("unknown technology"))
            } else if researched_has_exec(state, id) {
                Err(invalid_err("technology already researched"))
            } else {
                Ok(())
            }
        },
        Action::OfferDeal { json } => {
            if !json.as_str().is_empty() && state.next_deal < u64::MAX {
                Ok(())
            } else {
                Err(invalid_err("empty deal payload"))
            }
        },
        Action::AcceptDeal { id } => {
            match find_deal_exec(state, id) {
                Some(_) => Ok(()),
                None => Err(invalid_err("no open deal with this identifier")),
            }
        },
        Action::DeclineDeal { id } => {
            match find_deal_exec(state, id) {
                Some(_) => Ok(()),
                None => Err(invalid_err("no open deal with this identifier")),
            }
        },
    }
}


/// End-of-turn bookkeeping: saturating income, action-point refresh, and
/// the turn increment, exactly as `spec_end_turn` describes.
fn run_end_turn(state: &mut State)
    requires
        wf(old(state)@),
        old(state)@.turn < TURN_CAP,
    ensures
        final(state)@ == spec_end_turn(old(state)@),
{
    let ghost s0 = state@;
    let mut k: usize = 0;
    while k < state.players.len()
        invariant
            0 <= k <= state@.players.len(),
            state@.players.len() == s0.players.len(),
            resources_ok(s0),
            forall|x: int|
                0 <= x < k as int ==> #[trigger] state@.players[x] == (Player {
                    id: s0.players[x].id,
                    gold: end_gold(s0.players[x].gold as int) as i64,
                }),
            forall|x: int|
                k as int <= x < s0.players.len() ==> #[trigger] state@.players[x]
                    == s0.players[x],
            state@ == (StateV { players: state@.players, ..s0 }),
        decreases state@.players.len() - k,
    {
        let g = state.players[k].gold;
        let pid = state.players[k].id;
        let ng: i64 = if g > GOLD_CAP - TURN_INCOME {
            GOLD_CAP
        } else {
            g + TURN_INCOME
        };
        state.players[k] = Player { id: pid, gold: ng };
        k = k + 1;
    }
    let ghost s1 = state@;
    let mut k2: usize = 0;
    while k2 < state.units.len()
        invariant
            0 <= k2 <= state@.units.len(),
            state@.units.len() == s1.units.len(),
            forall|x: int|
                0 <= x < k2 as int ==> #[trigger] state@.units[x] == (Unit {
                    id: s1.units[x].id,
                    owner: s1.units[x].owner,
                    pos: s1.units[x].pos,
                    combat: s1.units[x].combat,
                    fortified: s1.units[x].fortified,
                    ap: MAX_AP,
                }),
            forall|x: int| k2 as int <= x < s1.units.len() ==> #[trigger] state@.units[x] == s1.units[x],
            state@ == (StateV { units: state@.units, ..s1 }),
        decreases state@.units.len() - k2,
    {
        let u = state.units[k2];
        state.units[k2] = Unit {
            id: u.id,
            owner: u.owner,
            pos: u.pos,
            combat: u.combat,
            fortified: u.fortified,
            ap: MAX_AP,
        };
        k2 = k2 + 1;
    }
    state.turn = state.turn + 1;
    proof {
        let t = spec_end_turn(s0);
        assert(state@.players =~= t.players);
        assert(state@.units =~= t.units);
        assert(state@ =~= t);
    }
}

/// Execute end-of-turn processing as one atomic step. Succeeds exactly
/// while the turn counter is below the cap; on rejection the state is
/// unchanged.
pub fn end_turn(state: &mut State) -> (r: Result<(), SimError>)
    requires
        wf(old(state)@),
    ensures
        wf(final(state)@),
        (r is Ok <==> old(state)@.turn < TURN_CAP),
        (r is Ok ==> final(state)@ == spec_end_turn(old(state)@)),
        (r is Err ==> final(state)@ == old(state)@ && r->Err_0@ is InvalidAction),
{
    if state.turn < TURN_CAP {
        proof {
            lemma_end_turn_wf(state@);
        }
        run_end_turn(state);
        Ok(())
    } else {
        Err(invalid_err("turn limit reached"))
    }
}

/// Apply an action to state, returning its effects. Acceptance agrees
/// exactly with `validate_action`; on rejection the state is unchanged
/// (atomicity), and an accepted action transforms the state by the
/// deterministic `spec_apply` transition while preserving every invariant.
/// No verified path produces `InvariantViolation`.
pub fn apply_action(state: &mut State, action: Action) -> (r: Result<Effects, SimError>)
    requires
        wf(old(state)@),
    ensures
        wf(final(state)@),
        (r is Ok <==> action_valid(old(state)@, action@)),
        (r is Ok ==> final(state)@ == spec_apply(old(state)@, action@)),
        (r is Ok ==> r->Ok_0@ == spec_effects(action@)),
        (r is Err ==> final(state)@ == old(state)@),
        (r is Err ==> r->Err_0@ is InvalidAction),
{
    let ghost s0 = state@;
    let ghost av = action@;
    match validate_action(state, &action) {
        Err(e) => Err(e),
        Ok(()) => {
            proof {
                lemma_apply_wf(s0, av);
            }
            match action {
                Action::EndTurn => {
                    run_end_turn(state);
                    Ok(make_effects("turn_advanced", "TurnAdvanced"))
                },
                Action::MoveUnit { unit, path, ap } => {
                    match state.find_unit(unit) {
                        Some(i) => {
                            proof {
                                lemma_unit_ix_unique(s0, i as int);
                            }
                            let u = state.units[i];
                            let dest = path[path.len() - 1];
                            state.units[i] = Unit {
                                id: u.id,
                                owner: u.owner,
                                pos: dest,
                                combat: u.combat,
                                fortified: false,
                                ap: u.ap - ap,
                            };
                            proof {
                                assert(path@.last() == dest);
                                assert(state@ =~= spec_apply(s0, av));
                            }
                            Ok(make_effects("unit_moved", "UnitMoved"))
                        },
                        None => {
                            proof {
                                assert(false);
                            }
                            Err(invalid_err("unknown unit"))
                        },
                    }
                },
                Action::Attack { attacker, target } => {
                    match (state.find_unit(attacker), state.find_unit(target)) {
                        (Some(ia), Some(it)) => {
                            proof {
                                lemma_unit_ix_unique(s0, ia as int);
                                lemma_unit_ix_unique(s0, it as int);
                            }
                            let ua = state.units[ia];
                            state.units[ia] = Unit {
                                id: ua.id,
                                owner: ua.owner,
                                pos: ua.pos,
                                combat: ua.combat,
                                fortified: ua.fortified,
                                ap: ua.ap - 1,
                            };
                            state.units.remove(it);
                            proof {
                                assert(state@ =~= spec_apply(s0, av));
                            }
                            Ok(make_effects("unit_destroyed", "UnitAttacked"))
                        },
                        _ => {
                            proof {
                                assert(false);
                            }
                            Err(invalid_err("unknown unit"))
                        },
                    }
                },
                Action::Fortify { unit } => {
                    match state.find_unit(unit) {
                        Some(i) => {
                            proof {
                                lemma_unit_ix_unique(s0, i as int);
                            }
                            let u = state.units[i];
                            state.units[i] = Unit {
                                id: u.id,
                                owner: u.owner,
                                pos: u.pos,
                                combat: u.combat,
                                fortified: true,
                                ap: u.ap - 1,
                            };
                            proof {
                                assert(state@ =~= spec_apply(s0, av));
                            }
                            Ok(make_effects("unit_fortified", "UnitFortified"))
                        },
                        None => {
                            proof {
                                assert(false);
                            }
                            Err(invalid_err("unknown unit"))
                        },
                    }
                },
                Action::BuildUnit { city, kind } => {
                    match state.find_city(city) {
                        Some(ci) => {
                            proof {
                                lemma_city_ix_unique(s0, ci as int);
                            }
                            let c = state.cities[ci];
                            match state.find_player(c.owner) {
                                Some(pi) => {
                                    proof {
                                        lemma_player_ix_unique(s0, pi as int);
                                    }
                                    let cost = unit_cost_exec(&kind);
                                    let combat = str_matches(&kind, "warrior");
                                    let g = state.players[pi].gold;
                                    let pid = state.players[pi].id;
                                    state.players[pi] = Player { id: pid, gold: g - cost };
                                    let fresh = state.next_unit;
                                    state.units.push(
                                        Unit {
                                            id: UnitId(fresh),
                                            owner: c.owner,
                                            pos: c.pos,
                                            combat,
                                            fortified: false,
                                            ap: 0,
                                        },
                                    );
                                    state.next_unit = fresh + 1;
                                    proof {
                                        assert(state@ =~= spec_apply(s0, av));
                                    }
                                    Ok(make_effects("unit_built", "UnitBuilt"))
                                },
                                None => {
                                    proof {
                                        assert(false);
                                    }
                                    Err(invalid_err("city has no owner"))
                                },
                            }
                        },
                        None => {
                            proof {
                                assert(false);
                            }
                            Err(invalid_err("unknown city"))
                        },
                    }
                },
                Action::BuildDistrict { city, kind, tile } => {
                    match state.find_city(city) {
                        Some(ci) => {
                            proof {
                                lemma_city_ix_unique(s0, ci as int);
                            }
                            let c = state.cities[ci];
                            match state.find_player(c.owner) {
                                Some(pi) => {
                                    proof {
                                        lemma_player_ix_unique(s0, pi as int);
                                    }
                                    let g = state.players[pi].gold;
                                    let pid = state.players[pi].id;
                                    state.players[pi] = Player {
                                        id: pid,
                                        gold: g - DISTRICT_COST,
                                    };
                                    state.districts.push(District { pos: tile, kind });
                                    proof {
                                        assert(state@.districts =~= spec_apply(s0, av).districts);
                                        assert(state@ =~= spec_apply(s0, av));
                                    }
                                    Ok(make_effects("district_built", "DistrictBuilt"))
                                },
                                None => {
                                    proof {
                                        assert(false);
                                    }
                                    Err(invalid_err("city has no owner"))
                                },
                            }
                        },
                        None => {
                            proof {
                                assert(false);
                            }
                            Err(invalid_err("unknown city"))
                        },
                    }
                },
                Action::SetPolicy { slot, id } => {
                    let ix = slot as usize;
                    state.policies[ix] = id;
                    proof {
                        assert(state@.policies =~= spec_apply(s0, av).policies);
                        assert(state@ =~= spec_apply(s0, av));
                    }
                    Ok(make_effects("policy_set", "PolicySet"))
                },
                Action::ChooseTech { id } => {
                    state.researched.push(id);
                    proof {
                        assert(state@.researched =~= spec_apply(s0, av).researched);
                        assert(state@ =~= spec_apply(s0, av));
                    }
                    Ok(make_effects("tech_chosen", "TechChosen"))
                },
                Action::OfferDeal { json } => {
                    let fresh = state.next_deal;
                    state.open_deals.push(Deal { id: fresh, json });
                    state.next_deal = fresh + 1;
                    proof {
                        assert(state@.open_deals =~= spec_apply(s0, av).open_deals);
                        assert(state@ =~= spec_apply(s0, av));
                    }
                    Ok(make_effects("deal_opened", "DealOffered"))
                },
                Action::AcceptDeal { id } => {
                    match find_deal_exec(state, &id) {
                        Some(i) => {
                            proof {
                                lemma_first_deal_ix(s0.open_deals, id@);
                            }
                            state.open_deals.remove(i);
                            proof {
                                old(state).open_deals@.remove_ensures(i as int);
                                s0.open_deals.remove_ensures(i as int);
                                assert forall|x: int|
                                    0 <= x < state@.open_deals.len() implies state@.open_deals[x]
                                    == spec_apply(s0, av).open_deals[x] by {}
                                assert(state@.open_deals =~= spec_apply(s0, av).open_deals);
                                assert(state@ =~= spec_apply(s0, av));
                            }
                            Ok(make_effects("deal_closed", "DealAccepted"))
                        },
                        None => {
                            proof {
                                assert(false);
                            }
                            Err(invalid_err("no open deal with this identifier"))
                        },
                    }
                },
                Action::DeclineDeal { id } => {
                    match find_deal_exec(state, &id) {
                        Some(i) => {
                            proof {
                                lemma_first_deal_ix(s0.open_deals, id@);
                            }
                            state.open_deals.remove(i);
                            proof {
                                old(state).open_deals@.remove_ensures(i as int);
                                s0.open_deals.remove_ensures(i as int);
                                assert forall|x: int|
                                    0 <= x < state@.open_deals.len() implies state@.open_deals[x]
                                    == spec_apply(s0, av).open_deals[x] by {}
                                assert(state@.open_deals =~= spec_apply(s0, av).open_deals);
                                assert(state@ =~= spec_apply(s0, av));
                            }
                            Ok(make_effects("deal_closed", "DealDeclined"))
                        },
                        None => {
                            proof {
                                assert(false);
                            }
                            Err(invalid_err("no open deal with this identifier"))
                        },
                    }
                },
            }
        },
    }
}


/// The four single-step move candidates of a unit, in a fixed order.
pub open spec fn move_cand(u: Unit, dx: int, dy: int) -> ActionV {
    ActionV::MoveUnit {
        unit: u.id,
        path: seq![TileCoord { x: (u.pos.x + dx) as i32, y: (u.pos.y + dy) as i32 }],
        ap: 1,
    }
}

/// The enumerated orders of one unit: its four single-step moves and its
/// fortify order, each included exactly when the validity rule accepts it.
pub open spec fn unit_actions(s: StateV, u: Unit) -> Seq<ActionV> {
    let q1 = if action_valid(s, move_cand(u, 1, 0)) {
        seq![move_cand(u, 1, 0)]
    } else {
        Seq::<ActionV>::empty()
    };
    let q2 = if action_valid(s, move_cand(u, -1, 0)) {
        seq![move_cand(u, -1, 0)]
    } else {
        Seq::<ActionV>::empty()
    };
    let q3 = if action_valid(s, move_cand(u, 0, 1)) {
        seq![move_cand(u, 0, 1)]
    } else {
        Seq::<ActionV>::empty()
    };
    let q4 = if action_valid(s, move_cand(u, 0, -1)) {
        seq![move_cand(u, 0, -1)]
    } else {
        Seq::<ActionV>::empty()
    };
    let q5 = if action_valid(s, ActionV::Fortify { unit: u.id }) {
        seq![ActionV::Fortify { unit: u.id }]
    } else {
        Seq::<ActionV>::empty()
    };
    q1 + q2 + q3 + q4 + q5
}

/// The enumerated orders of the player's units among the first `n` units,
/// in storage order.
pub open spec fn units_actions(s: StateV, p: PlayerId, n: int) -> Seq<ActionV>
    decreases n,
{
    if n <= 0 {
        Seq::empty()
    } else {
        units_actions(s, p, n - 1) + (if s.units[n - 1].owner == p {
            unit_actions(s, s.units[n - 1])
        } else {
            Seq::<ActionV>::empty()
        })
    }
}

/// The legal-action enumeration for a player: the end-turn order when
/// legal, then each of the player's units' single-step moves and fortify
/// orders, exactly those the validity rule accepts — a pure function of
/// state content.
pub open spec fn legal_actions(s: StateV, p: PlayerId) -> Seq<ActionV> {
    (if s.turn < TURN_CAP {
        seq![ActionV::EndTurn]
    } else {
        Seq::<ActionV>::empty()
    }) + units_actions(s, p, s.units.len() as int)
}

/// Every order a unit contributes is valid.
pub proof fn lemma_unit_actions_sound(s: StateV, u: Unit)
    ensures
        forall|k: int|
            0 <= k < unit_actions(s, u).len() ==> action_valid(s, #[trigger] unit_actions(s, u)[k]),
{
    let p = unit_actions(s, u);
    let q1 = if action_valid(s, move_cand(u, 1, 0)) {
        seq![move_cand(u, 1, 0)]
    } else {
        Seq::<ActionV>::empty()
    };
    let q2 = if action_valid(s, move_cand(u, -1, 0)) {
        seq![move_cand(u, -1, 0)]
    } else {
        Seq::<ActionV>::empty()
    };
    let q3 = if action_valid(s, move_cand(u, 0, 1)) {
        seq![move_cand(u, 0, 1)]
    } else {
        Seq::<ActionV>::empty()
    };
    let q4 = if action_valid(s, move_cand(u, 0, -1)) {
        seq![move_cand(u, 0, -1)]
    } else {
        Seq::<ActionV>::empty()
    };
    let q5 = if action_valid(s, ActionV::Fortify { unit: u.id }) {
        seq![ActionV::Fortify { unit: u.id }]
    } else {
        Seq::<ActionV>::empty()
    };
    assert forall|k: int| 0 <= k < p.len() implies action_valid(s, p[k]) by {
        let n1 = q1.len() as int;
        let n2 = n1 + q2.len();
        let n3 = n2 + q3.len();
        let n4 = n3 + q4.len();
        if k < n1 {
            assert(p[k] == q1[k]);
        } else if k < n2 {
            assert(p[k] == q2[k - n1]);
        } else if k < n3 {
            assert(p[k] == q3[k - n2]);
        } else if k < n4 {
            assert(p[k] == q4[k - n3]);
        } else {
            assert(p[k] == q5[k - n4]);
        }
    }
}

/// Every order among the first `n` units' contributions is valid.
pub proof fn lemma_units_actions_sound(s: StateV, p: PlayerId, n: int)
    ensures
        forall|k: int|
            0 <= k < units_actions(s, p, n).len() ==> action_valid(
                s,
                #[trigger] units_actions(s, p, n)[k],
            ),
    decreases n,
{
    if n > 0 {
        lemma_units_actions_sound(s, p, n - 1);
        let pre = units_actions(s, p, n - 1);
        let add = if s.units[n - 1].owner == p {
            unit_actions(s, s.units[n - 1])
        } else {
            Seq::<ActionV>::empty()
        };
        if s.units[n - 1].owner == p {
            lemma_unit_actions_sound(s, s.units[n - 1]);
        }
        assert forall|k: int|
            0 <= k < units_actions(s, p, n).len() implies action_valid(
            s,
            units_actions(s, p, n)[k],
        ) by {
            if k < pre.len() {
                assert(units_actions(s, p, n)[k] == pre[k]);
            } else {
                assert(units_actions(s, p, n)[k] == add[k - pre.len()]);
            }
        }
    }
}

/// Every enumerated action is valid, so `validate_action` accepts each, and
/// `apply_action` would too.
pub proof fn lemma_legal_actions_sound(s: StateV, p: PlayerId)
    ensures
        forall|k: int|
            0 <= k < legal_actions(s, p).len() ==> action_valid(
                s,
                #[trigger] legal_actions(s, p)[k],
            ),
{
    lemma_units_actions_sound(s, p, s.units.len() as int);
    let head: Seq<ActionV> = if s.turn < TURN_CAP {
        seq![ActionV::EndTurn]
    } else {
        Seq::<ActionV>::empty()
    };
    let tail = units_actions(s, p, s.units.len() as int);
    assert forall|k: int| 0 <= k < legal_actions(s, p).len() implies action_valid(
        s,
        legal_actions(s, p)[k],
    ) by {
        if k < head.len() {
            assert(legal_actions(s, p)[k] == head[k]);
        } else {
            assert(legal_actions(s, p)[k] == tail[k - head.len()]);
        }
    }
}

/// Whenever ending the turn is legal, the enumeration contains it: a
/// completeness witness for the simplest member of the enumerated family
/// (the others are included exactly when valid by the definition of
/// `unit_actions`).
pub proof fn lemma_legal_actions_end_turn(s: StateV, p: PlayerId)
    requires
        s.turn < TURN_CAP,
    ensures
        legal_actions(s, p).len() >= 1,
        legal_actions(s, p)[0] == ActionV::EndTurn,
        action_valid(s, legal_actions(s, p)[0]),
{
}

/// The contribution of one unit, pushed in the fixed candidate order.
fn push_unit_actions(state: &State, out: &mut Vec<Action>, u: Unit)
    requires
        wf(state@),
        -1000000 <= u.pos.x <= 1000000,
        -1000000 <= u.pos.y <= 1000000,
    ensures
        final(out)@.map_values(|a: Action| a@) == old(out)@.map_values(|a: Action| a@)
            + unit_actions(state@, u),
{
    let ghost s = state@;
    let ghost base = out@.map_values(|a: Action| a@);
    let ghost q1 = if action_valid(s, move_cand(u, 1, 0)) {
        seq![move_cand(u, 1, 0)]
    } else {
        Seq::<ActionV>::empty()
    };
    let ghost q2 = if action_valid(s, move_cand(u, -1, 0)) {
        seq![move_cand(u, -1, 0)]
    } else {
        Seq::<ActionV>::empty()
    };
    let ghost q3 = if action_valid(s, move_cand(u, 0, 1)) {
        seq![move_cand(u, 0, 1)]
    } else {
        Seq::<ActionV>::empty()
    };
    let ghost q4 = if action_valid(s, move_cand(u, 0, -1)) {
        seq![move_cand(u, 0, -1)]
    } else {
        Seq::<ActionV>::empty()
    };
    let ghost q5 = if action_valid(s, ActionV::Fortify { unit: u.id }) {
        seq![ActionV::Fortify { unit: u.id }]
    } else {
        Seq::<ActionV>::empty()
    };
    let c1 = move_candidate(u, 1, 0);
    proof {
        assert(c1@ == move_cand(u, 1, 0));
    }
    if validate_action(state, &c1).is_ok() {
        out.push(c1);
    }
    proof {
        assert(out@.map_values(|a: Action| a@) =~= base + q1);
    }
    let c2 = move_candidate(u, -1, 0);
    proof {
        assert(c2@ == move_cand(u, -1, 0));
    }
    if validate_action(state, &c2).is_ok() {
        out.push(c2);
    }
    proof {
        assert(out@.map_values(|a: Action| a@) =~= base + q1 + q2);
    }
    let c3 = move_candidate(u, 0, 1);
    proof {
        assert(c3@ == move_cand(u, 0, 1));
    }
    if validate_action(state, &c3).is_ok() {
        out.push(c3);
    }
    proof {
        assert(out@.map_values(|a: Action| a@) =~= base + q1 + q2 + q3);
    }
    let c4 = move_candidate(u, 0, -1);
    proof {
        assert(c4@ == move_cand(u, 0, -1));
    }
    if validate_action(state, &c4).is_ok() {
        out.push(c4);
    }
    proof {
        assert(out@.map_values(|a: Action| a@) =~= base + q1 + q2 + q3 + q4);
    }
    let cf = Action::Fortify { unit: u.id };
    if validate_action(state, &cf).is_ok() {
        out.push(cf);
    }
    proof {
        assert(out@.map_values(|a: Action| a@) =~= base + q1 + q2 + q3 + q4 + q5);
        assert(unit_actions(s, u) == q1 + q2 + q3 + q4 + q5);
        assert(out@.map_values(|a: Action| a@) =~= base + unit_actions(s, u));
    }
}

/// Produce exactly the enumeration `legal_actions` describes: the end-turn
/// order when legal, then each of the player's units' accepted single-step
/// moves and fortify orders. The result is pinned to a pure function of
/// state content, so two calls on content-equal states agree exactly, and
/// every returned action is valid.
pub fn enumerate_legal_actions(state: &State, player: PlayerId) -> (r: Vec<Action>)
    requires
        wf(state@),
    ensures
        r@.map_values(|a: Action| a@) == legal_actions(state@, player),
        forall|k: int| 0 <= k < r@.len() ==> action_valid(state@, (#[trigger] r@[k])@),
{
    let ghost s = state@;
    let mut out: Vec<Action> = Vec::new();
    if state.turn < TURN_CAP {
        out.push(Action::EndTurn);
    }
    let ghost head: Seq<ActionV> = if s.turn < TURN_CAP {
        seq![ActionV::EndTurn]
    } else {
        Seq::<ActionV>::empty()
    };
    proof {
        assert(out@.map_values(|a: Action| a@) =~= head + units_actions(s, player, 0));
    }
    let mut i: usize = 0;
    while i < state.units.len()
        invariant
            wf(s),
            state@ == s,
            0 <= i <= s.units.len(),
            head == (if s.turn < TURN_CAP {
                seq![ActionV::EndTurn]
            } else {
                Seq::<ActionV>::empty()
            }),
            out@.map_values(|a: Action| a@) == head + units_actions(s, player, i as int),
        decreases s.units.len() - i,
    {
        let u = state.units[i];
        if u.owner == player {
            push_unit_actions(state, &mut out, u);
            proof {
                assert(out@.map_values(|a: Action| a@) =~= head + units_actions(
                    s,
                    player,
                    i as int + 1,
                ));
            }
        } else {
            proof {
                assert(units_actions(s, player, i as int + 1) =~= units_actions(
                    s,
                    player,
                    i as int,
                ));
            }
        }
        i = i + 1;
    }
    proof {
        assert(out@.map_values(|a: Action| a@) == legal_actions(s, player));
        lemma_legal_actions_sound(s, player);
        assert forall|k: int| 0 <= k < out@.len() implies action_valid(
            s,
            (#[trigger] out@[k])@,
        ) by {
            assert(out@.map_values(|a: Action| a@)[k] == out@[k]@);
            assert(action_valid(s, legal_actions(s, player)[k]));
        }
    }
    out
}

/// One single-step move candidate from a unit's position; in-bounds unit
/// positions keep the offsets in range.
fn move_candidate(u: Unit, dx: i32, dy: i32) -> (r: Action)
    requires
        -1 <= dx <= 1,
        -1 <= dy <= 1,
        -1000000 <= u.pos.x <= 1000000,
        -1000000 <= u.pos.y <= 1000000,
    ensures
        r@ == move_cand(u, dx as int, dy as int),
{
    let t = TileCoord { x: u.pos.x + dx, y: u.pos.y + dy };
    let mut path: Vec<TileCoord> = Vec::new();
    path.push(t);
    proof {
        assert(path@ =~= seq![t]);
    }
    Action::MoveUnit { unit: u.id, path, ap: 1 }
}

} // verus!
