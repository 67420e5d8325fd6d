//! The closed set of player-initiated operations, the engine error taxonomy,
//! and the effects report produced by applying one action.

use vstd::prelude::*;

use crate::ids::CityId;
use crate::ids::TileCoord;
use crate::ids::UnitId;

verus! {

/// A player-submitted request to change game state. The variant set is
/// closed so that every consumer handles it exhaustively.
#[derive(Debug, Clone)]
pub enum Action {
    EndTurn,
    MoveUnit { unit: UnitId, path: Vec<TileCoord>, ap: i32 },
    Attack { attacker: UnitId, target: UnitId },
    Fortify { unit: UnitId },
    BuildUnit { city: CityId, kind: String },
    BuildDistrict { city: CityId, kind: String, tile: TileCoord },
    SetPolicy { slot: i32, id: String },
    ChooseTech { id: String },
    OfferDeal { json: String },
    AcceptDeal { id: String },
    DeclineDeal { id: String },
}

/// Mathematical view of an `Action`.
pub ghost enum ActionV {
    EndTurn,
    MoveUnit { unit: UnitId, path: Seq<TileCoord>, ap: i32 },
    Attack { attacker: UnitId, target: UnitId },
    Fortify { unit: UnitId },
    BuildUnit { city: CityId, kind: Seq<char> },
    BuildDistrict { city: CityId, kind: Seq<char>, tile: TileCoord },
    SetPolicy { slot: i32, id: Seq<char> },
    ChooseTech { id: Seq<char> },
    OfferDeal { json: Seq<char> },
    AcceptDeal { id: Seq<char> },
    DeclineDeal { id: Seq<char> },
}

impl View for Action {
    type V = ActionV;

    open spec fn view(&self) -> ActionV {
        match self {
            Action::EndTurn => ActionV::EndTurn,
            Action::MoveUnit { unit, path, ap } => ActionV::MoveUnit {
                unit: *unit,
                path: path@,
                ap: *ap,
            },
            Action::Attack { attacker, target } => ActionV::Attack {
                attacker: *attacker,
                target: *target,
            },
            Action::Fortify { unit } => ActionV::Fortify { unit: *unit },
            Action::BuildUnit { city, kind } => ActionV::BuildUnit { city: *city, kind: kind@ },
            Action::BuildDistrict { city, kind, tile } => ActionV::BuildDistrict {
                city: *city,
                kind: kind@,
                tile: *tile,
            },
            Action::SetPolicy { slot, id } => ActionV::SetPolicy { slot: *slot, id: id@ },
            Action::ChooseTech { id } => ActionV::ChooseTech { id: id@ },
            Action::OfferDeal { json } => ActionV::OfferDeal { json: json@ },
            Action::AcceptDeal { id } => ActionV::AcceptDeal { id: id@ },
            Action::DeclineDeal { id } => ActionV::DeclineDeal { id: id@ },
        }
    }
}

/// Simulation failure kinds. `InvalidAction` is caller-caused and never
/// mutates state; `InvariantViolation` marks an engine defect and is never
/// produced by a verified operation.
#[derive(Debug)]
pub enum SimError {
    InvalidAction(String),
    InvariantViolation(String),
}

/// Mathematical view of a `SimError`.
pub ghost enum SimErrorV {
    InvalidAction(Seq<char>),
    InvariantViolation(Seq<char>),
}

impl View for SimError {
    type V = SimErrorV;

    open spec fn view(&self) -> SimErrorV {
        match self {
            SimError::InvalidAction(m) => SimErrorV::InvalidAction(m@),
            SimError::InvariantViolation(m) => SimErrorV::InvariantViolation(m@),
        }
    }
}

impl SimError {
    /// Human-readable message carried by the error.
    pub fn message(&self) -> (r: &String)
        ensures
            (self@ is InvalidAction ==> r@ == self@->InvalidAction_0),
            (self@ is InvariantViolation ==> r@ == self@->InvariantViolation_0),
    {
        match self {
            SimError::InvalidAction(m) => m,
            SimError::InvariantViolation(m) => m,
        }
    }
}

/// The report of one accepted action: an ordered sequence of state deltas
/// and an ordered sequence of emitted events. Effects never mutate state.
#[derive(Debug, Clone)]
pub struct Effects {
    pub deltas: Vec<String>,
    pub events: Vec<String>,
}

/// Mathematical view of an `Effects` report.
#[verifier::ext_equal]
pub ghost struct EffectsV {
    pub deltas: Seq<Seq<char>>,
    pub events: Seq<Seq<char>>,
}

impl View for Effects {
    type V = EffectsV;

    open spec fn view(&self) -> EffectsV {
        EffectsV { deltas: self.deltas.deep_view(), events: self.events.deep_view() }
    }
}

/// Build a one-delta, one-event report.
pub fn make_effects(d: &str, e: &str) -> (r: Effects)
    ensures
        r@ == (EffectsV { deltas: seq![d@], events: seq![e@] }),
{
    let r = Effects { deltas: vec![d.to_owned()], events: vec![e.to_owned()] };
    proof {
        assert(r@.deltas =~= seq![d@]);
        assert(r@.events =~= seq![e@]);
    }
    r
}

} // verus!
