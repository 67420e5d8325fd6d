//! Simulation engine tests: determinism, invariants, validation and
//! application agreement, and the rules content.

use simcore::action::Action;
use simcore::codec::decode_action;
use simcore::codec::encode_action;
use simcore::engine::apply_action;
use simcore::engine::end_turn;
use simcore::engine::enumerate_legal_actions;
use simcore::engine::validate_action;
use simcore::hashing::state_hash;
use simcore::checker::check_invariants;
use simcore::state::State;
use simcore::PlayerId;
use simcore::TileCoord;
use simcore::UnitId;

#[test]
fn test_state_hash_deterministic() {
    let state = State::new();
    let hash1 = state_hash(&state);
    let hash2 = state_hash(&state);
    assert_eq!(hash1, hash2);
}

#[test]
fn test_end_turn_increments() {
    let mut state = State::new();
    assert_eq!(state.turn, 0);
    end_turn(&mut state).unwrap();
    assert_eq!(state.turn, 1);
}

fn sample_actions() -> Vec<Action> {
    vec![
        Action::EndTurn,
        Action::MoveUnit {
            unit: UnitId(0),
            path: vec![TileCoord { x: 0, y: 2 }],
            ap: 1,
        },
        Action::Fortify { unit: UnitId(1) },
        Action::MoveUnit {
            unit: UnitId(99),
            path: vec![TileCoord { x: 5, y: 5 }],
            ap: 1,
        },
        Action::BuildUnit { city: simcore::CityId(0), kind: "settler".to_string() },
        Action::ChooseTech { id: "mining".to_string() },
        Action::ChooseTech { id: "mining".to_string() },
        Action::OfferDeal { json: "{\"give\":{},\"take\":{}}".to_string() },
        Action::AcceptDeal { id: "deal_0".to_string() },
        Action::EndTurn,
    ]
}

#[test]
fn test_replay_is_deterministic() {
    let mut s1 = State::from_seed(42, 2);
    let mut s2 = State::from_seed(42, 2);
    for a in sample_actions() {
        let _ = apply_action(&mut s1, a);
    }
    for a in sample_actions() {
        let _ = apply_action(&mut s2, a);
    }
    assert_eq!(state_hash(&s1), state_hash(&s2));
}

#[test]
fn test_invariants_hold_under_action_stream() {
    let mut s = State::from_seed(7, 3);
    assert!(check_invariants(&s));
    for a in sample_actions() {
        let _ = apply_action(&mut s, a);
        assert!(check_invariants(&s));
    }
}

#[test]
fn test_validation_agrees_with_application() {
    for a in sample_actions() {
        let mut s = State::from_seed(5, 2);
        let v = validate_action(&s, &a).is_ok();
        let r = apply_action(&mut s, a);
        assert_eq!(v, r.is_ok());
    }
}

#[test]
fn test_rejected_action_leaves_state_unchanged() {
    let mut s = State::from_seed(11, 2);
    let before = state_hash(&s);
    let bad = Action::MoveUnit { unit: UnitId(99), path: vec![TileCoord { x: 1, y: 1 }], ap: 1 };
    assert!(apply_action(&mut s, bad).is_err());
    assert_eq!(before, state_hash(&s));
}

#[test]
fn test_move_unit_changes_position_and_hash() {
    let mut s = State::from_seed(1, 2);
    let before = state_hash(&s);
    let mv = Action::MoveUnit { unit: UnitId(0), path: vec![TileCoord { x: 0, y: 2 }], ap: 1 };
    let effects = apply_action(&mut s, mv).unwrap();
    assert_eq!(s.units[0].pos, TileCoord { x: 0, y: 2 });
    assert_eq!(s.units[0].ap, 1);
    assert_eq!(effects.deltas, vec!["unit_moved".to_string()]);
    assert_ne!(before, state_hash(&s));
}

#[test]
fn test_build_unit_costs_gold() {
    let mut s = State::from_seed(0, 2);
    let gold_before = s.players[0].gold;
    let b = Action::BuildUnit { city: simcore::CityId(0), kind: "settler".to_string() };
    apply_action(&mut s, b).unwrap();
    assert_eq!(s.players[0].gold, gold_before - 30);
    assert_eq!(s.units.len(), 3);
    assert!(!s.units[2].combat);
}

#[test]
fn test_end_turn_restores_action_points_and_accrues_gold() {
    let mut s = State::from_seed(3, 2);
    let mv = Action::MoveUnit { unit: UnitId(0), path: vec![TileCoord { x: 0, y: 2 }], ap: 1 };
    apply_action(&mut s, mv).unwrap();
    assert_eq!(s.units[0].ap, 1);
    let gold_before = s.players[0].gold;
    end_turn(&mut s).unwrap();
    assert_eq!(s.units[0].ap, 2);
    assert_eq!(s.players[0].gold, gold_before + 5);
    assert_eq!(s.turn, 1);
}

#[test]
fn test_enumerated_actions_all_validate() {
    let s = State::from_seed(9, 2);
    let acts = enumerate_legal_actions(&s, PlayerId(0));
    assert!(!acts.is_empty());
    assert!(matches!(acts[0], Action::EndTurn));
    for a in &acts {
        assert!(validate_action(&s, a).is_ok());
    }
}

#[test]
fn test_enumeration_is_deterministic_for_equal_content() {
    let s1 = State::from_seed(9, 2);
    let s2 = State::from_seed(9, 2);
    let a1 = enumerate_legal_actions(&s1, PlayerId(0));
    let a2 = enumerate_legal_actions(&s2, PlayerId(0));
    assert_eq!(a1.len(), a2.len());
    for (x, y) in a1.iter().zip(a2.iter()) {
        assert_eq!(encode_action(x), encode_action(y));
    }
}

#[test]
fn test_invalid_action_error_has_message() {
    let s = State::from_seed(2, 2);
    let bad = Action::Fortify { unit: UnitId(42) };
    let e = validate_action(&s, &bad).unwrap_err();
    assert!(matches!(e, simcore::action::SimError::InvalidAction(_)));
    assert!(!e.message().is_empty());
}

#[test]
fn test_codec_round_trips_actions() {
    for a in sample_actions() {
        let bytes = encode_action(&a);
        let back = decode_action(&bytes).expect("decodes");
        let again = encode_action(&back);
        assert_eq!(bytes, again);
    }
}

#[test]
fn test_codec_rejects_garbage() {
    assert!(decode_action(&vec![]).is_none());
    assert!(decode_action(&vec![200, 1, 2]).is_none());
    assert!(decode_action(&vec![2, 0, 0]).is_none());
}

#[test]
fn test_stacking_rejects_move_onto_occupied_tile() {
    let mut s = State::from_seed(4, 2);
    // walk unit 0 next to unit 1 (two steps of its two action points)
    let mv = Action::MoveUnit {
        unit: UnitId(0),
        path: vec![TileCoord { x: 1, y: 1 }],
        ap: 1,
    };
    apply_action(&mut s, mv).unwrap();
    // now a move onto unit 1's tile must be rejected
    let onto = Action::MoveUnit {
        unit: UnitId(0),
        path: vec![TileCoord { x: 2, y: 1 }],
        ap: 1,
    };
    assert!(validate_action(&s, &onto).is_err());
}

#[test]
fn test_attack_removes_adjacent_enemy() {
    let mut s = State::from_seed(6, 2);
    // bring unit 0 adjacent to enemy unit 1 at (2, 1)
    apply_action(
        &mut s,
        Action::MoveUnit { unit: UnitId(0), path: vec![TileCoord { x: 1, y: 1 }], ap: 1 },
    )
    .unwrap();
    let atk = Action::Attack { attacker: UnitId(0), target: UnitId(1) };
    apply_action(&mut s, atk).unwrap();
    assert_eq!(s.units.len(), 1);
    assert_eq!(s.units[0].id, UnitId(0));
}
