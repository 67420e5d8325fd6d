//! The invariant checker: executable checks of the simulation invariants,
//! proved equivalent to the spec-level predicates. A violation found after
//! a mutation marks an engine defect, never a normal runtime condition; the
//! verified engine proves such violations unreachable, and these checks let
//! engine self-tests observe the same fact at runtime.

use vstd::prelude::*;

use crate::state::State;
use crate::state::refs_ok;
use crate::state::resources_ok;
use crate::state::stacking_ok;

verus! {

/// Executable stacking check: no two same-class units share a tile.
pub fn check_stacking(state: &State) -> (r: bool)
    ensures
        r == stacking_ok(state@),
{
    let mut i: usize = 0;
    while i < state.units.len()
        invariant
            0 <= i <= state@.units.len(),
            forall|x: int, y: int|
                0 <= x < y < state@.units.len() && x < i as int && (
                #[trigger] state@.units[x]).combat == (#[trigger] state@.units[y]).combat
                    ==> state@.units[x].pos != state@.units[y].pos,
        decreases state@.units.len() - i,
    {
        let a = state.units[i];
        let mut j: usize = i + 1;
        while j < state.units.len()
            invariant
                0 <= i < j <= state@.units.len(),
                a == state@.units[i as int],
                forall|y: int|
                    (i as int) < y < (j as int) && (#[trigger] state@.units[y]).combat == a.combat
                        ==> state@.units[y].pos != a.pos,
            decreases state@.units.len() - j,
        {
            let b = state.units[j];
            if a.combat == b.combat && a.pos == b.pos {
                return false;
            }
            j = j + 1;
        }
        i = i + 1;
    }
    true
}

/// Executable referential-integrity and bounds check: every unit and city
/// owner resolves to a player, and every position lies within the map.
pub fn check_refs(state: &State) -> (r: bool)
    ensures
        r == refs_ok(state@),
{
    let mut i: usize = 0;
    while i < state.units.len()
        invariant
            0 <= i <= state@.units.len(),
            forall|x: int| #![trigger state@.units[x]]
                0 <= x < i as int ==> crate::state::has_player(state@, state@.units[x].owner)
                    && crate::state::in_bounds(state@, state@.units[x].pos),
        decreases state@.units.len() - i,
    {
        let u = state.units[i];
        proof {
            assert(state@.units[i as int] == u);
        }
        if state.find_player(u.owner).is_none() {
            return false;
        }
        if !(0 <= u.pos.x && u.pos.x < state.width && 0 <= u.pos.y && u.pos.y < state.height) {
            return false;
        }
        i = i + 1;
    }
    let mut i2: usize = 0;
    while i2 < state.cities.len()
        invariant
            refs_units_ok(state@),
            0 <= i2 <= state@.cities.len(),
            forall|x: int| #![trigger state@.cities[x]]
                0 <= x < i2 as int ==> crate::state::has_player(state@, state@.cities[x].owner)
                    && crate::state::in_bounds(state@, state@.cities[x].pos),
        decreases state@.cities.len() - i2,
    {
        let c = state.cities[i2];
        proof {
            assert(state@.cities[i2 as int] == c);
        }
        if state.find_player(c.owner).is_none() {
            return false;
        }
        if !(0 <= c.pos.x && c.pos.x < state.width && 0 <= c.pos.y && c.pos.y < state.height) {
            return false;
        }
        i2 = i2 + 1;
    }
    let mut i3: usize = 0;
    while i3 < state.districts.len()
        invariant
            refs_units_ok(state@),
            refs_cities_ok(state@),
            0 <= i3 <= state@.districts.len(),
            forall|x: int| #![trigger state@.districts[x]]
                0 <= x < i3 as int ==> crate::state::in_bounds(state@, state@.districts[x].pos),
        decreases state@.districts.len() - i3,
    {
        let t = state.districts[i3].pos;
        proof {
            assert(state@.districts[i3 as int].pos == t);
        }
        if !(0 <= t.x && t.x < state.width && 0 <= t.y && t.y < state.height) {
            return false;
        }
        i3 = i3 + 1;
    }
    true
}

/// The unit leg of referential integrity.
pub open spec fn refs_units_ok(s: crate::state::StateV) -> bool {
    forall|i: int| #![trigger s.units[i]]
        0 <= i < s.units.len() ==> crate::state::has_player(s, s.units[i].owner)
            && crate::state::in_bounds(s, s.units[i].pos)
}

/// The city leg of referential integrity.
pub open spec fn refs_cities_ok(s: crate::state::StateV) -> bool {
    forall|i: int| #![trigger s.cities[i]]
        0 <= i < s.cities.len() ==> crate::state::has_player(s, s.cities[i].owner)
            && crate::state::in_bounds(s, s.cities[i].pos)
}

/// Executable resource check: every gold balance within bounds.
pub fn check_resources(state: &State) -> (r: bool)
    ensures
        r == resources_ok(state@),
{
    let mut i: usize = 0;
    while i < state.players.len()
        invariant
            0 <= i <= state@.players.len(),
            forall|x: int|
                0 <= x < i as int ==> 0 <= (#[trigger] state@.players[x]).gold
                    <= crate::state::GOLD_CAP,
        decreases state@.players.len() - i,
    {
        let p = state.players[i];
        if p.gold < 0 || p.gold > crate::state::GOLD_CAP {
            return false;
        }
        i = i + 1;
    }
    true
}

/// Run the required simulation invariants: one-unit-per-tile stacking,
/// bounds, resource non-negativity, and referential integrity.
pub fn check_invariants(state: &State) -> (r: bool)
    ensures
        r == (refs_ok(state@) && stacking_ok(state@) && resources_ok(state@)),
{
    let a = check_refs(state);
    let b = check_stacking(state);
    let c = check_resources(state);
    a && b && c
}

} // verus!
