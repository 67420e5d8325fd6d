//! Match orchestrator tests: creation, observation, the idempotent action
//! pipeline, identifier binding, and the negotiation route.

use sha2::Digest;
use simcore::action::Action;
use simcore::codec::encode_action;
use simcore::orch::MatchService;
use simcore::orch::ServiceError;

fn two_players() -> Vec<String> {
    vec!["alice".to_string(), "bob".to_string()]
}

fn prefix8(hash: &[u8]) -> Vec<u8> {
    hash[..8].to_vec()
}

#[test]
fn test_create_match_starts_at_turn_zero() {
    let mut svc = MatchService::new();
    let (match_id, hash, turn) = svc.create_match(42, &two_players()).unwrap();
    assert_eq!(match_id, "match_42");
    assert_eq!(turn, 0);
    assert_eq!(hash.len(), 16);
}

#[test]
fn test_create_match_rejects_empty_player_list() {
    let mut svc = MatchService::new();
    let r = svc.create_match(1, &Vec::new());
    assert!(matches!(r, Err(ServiceError::InvalidArgument(_))));
}

#[test]
fn test_observation_reads_turn_and_hash() {
    let mut svc = MatchService::new();
    let (match_id, hash, _) = svc.create_match(3, &two_players()).unwrap();
    let obs = svc.get_observation(&match_id, &"alice".to_string()).unwrap();
    assert_eq!(obs.turn, 0);
    assert_eq!(obs.state_hash, hash);
    assert!(!obs.legal_actions.is_empty());
    assert!(matches!(obs.legal_actions[0], simcore::action::Action::EndTurn));
    assert!(obs.tech.is_empty());
}

#[test]
fn test_observation_unknown_match() {
    let svc = MatchService::new();
    let r = svc.get_observation(&"match_99".to_string(), &"alice".to_string());
    assert!(matches!(r, Err(ServiceError::NotFound(_))));
}

#[test]
fn test_action_id_matches_reference_sha256() {
    // Cross-check the identifier formula against a direct SHA-256 of the
    // concatenated content.
    let match_id = "match_42";
    let player = "alice";
    let bytes = vec![1u8];
    let prefix = vec![9u8, 8, 7, 6, 5, 4, 3, 2];
    let turn: i32 = 5;
    let computed = MatchService::compute_action_id(match_id, turn, player, &bytes, &prefix);
    let mut input: Vec<u8> = Vec::new();
    input.extend_from_slice(match_id.as_bytes());
    input.extend_from_slice(&(turn as u64).to_le_bytes());
    input.extend_from_slice(player.as_bytes());
    input.extend_from_slice(&bytes);
    input.extend_from_slice(&prefix);
    let digest = sha2::Sha256::digest(&input);
    let expected: String = digest.iter().map(|b| format!("{:02x}", b)).collect();
    assert_eq!(computed, expected);
}

#[test]
fn test_end_to_end_submit_and_idempotent_replay() {
    // Create a match with seed 42 and two players: turn 0, hash H0.
    let mut svc = MatchService::new();
    let (match_id, h0, turn) = svc.create_match(42, &two_players()).unwrap();
    assert_eq!(turn, 0);

    // Submit EndTurn for player 0 with a correctly computed identifier.
    let payload = encode_action(&Action::EndTurn);
    let prev = prefix8(&h0);
    let id = MatchService::compute_action_id(&match_id, 0, "alice", &payload, &prev);
    let ack1 = svc
        .submit_action(&match_id, 0, &"alice".to_string(), &id, &payload, &prev)
        .unwrap();
    assert!(ack1.accepted);
    assert!(ack1.error.is_empty());
    assert_eq!(ack1.action_id, id);
    assert_ne!(ack1.new_state_hash, h0);

    // Resubmitting identical content yields a byte-identical acknowledgement
    // and does not apply the action a second time.
    let ack2 = svc
        .submit_action(&match_id, 0, &"alice".to_string(), &id, &payload, &prev)
        .unwrap();
    assert_eq!(ack1.accepted, ack2.accepted);
    assert_eq!(ack1.error, ack2.error);
    assert_eq!(ack1.action_id, ack2.action_id);
    assert_eq!(ack1.new_state_hash, ack2.new_state_hash);

    let obs = svc.get_observation(&match_id, &"alice".to_string()).unwrap();
    assert_eq!(obs.turn, 1);
    assert_eq!(obs.state_hash, ack1.new_state_hash);
}

#[test]
fn test_submit_rejects_undecodable_payload() {
    let mut svc = MatchService::new();
    let (match_id, h0, _) = svc.create_match(8, &two_players()).unwrap();
    let payload = vec![250u8, 1, 2, 3];
    let prev = prefix8(&h0);
    let id = MatchService::compute_action_id(&match_id, 0, "bob", &payload, &prev);
    let ack = svc
        .submit_action(&match_id, 0, &"bob".to_string(), &id, &payload, &prev)
        .unwrap();
    assert!(!ack.accepted);
    assert!(!ack.error.is_empty());
    assert!(ack.new_state_hash.is_empty());
    // Match state is unchanged.
    let obs = svc.get_observation(&match_id, &"bob".to_string()).unwrap();
    assert_eq!(obs.turn, 0);
    assert_eq!(obs.state_hash, h0);
}

#[test]
fn test_identifier_binding_rejects_changed_content() {
    let mut svc = MatchService::new();
    let (match_id, h0, _) = svc.create_match(12, &two_players()).unwrap();
    let payload = encode_action(&Action::EndTurn);
    let prev = prefix8(&h0);
    let id = MatchService::compute_action_id(&match_id, 0, "alice", &payload, &prev);

    // Same claimed identifier, changed turn / player / payload / match id.
    let r1 = svc.submit_action(&match_id, 1, &"alice".to_string(), &id, &payload, &prev);
    assert!(matches!(r1, Err(ServiceError::InvalidArgument(_))));
    let r2 = svc.submit_action(&match_id, 0, &"bob".to_string(), &id, &payload, &prev);
    assert!(matches!(r2, Err(ServiceError::InvalidArgument(_))));
    let other = encode_action(&Action::Fortify { unit: simcore::UnitId(0) });
    let r3 = svc.submit_action(&match_id, 0, &"alice".to_string(), &id, &other, &prev);
    assert!(matches!(r3, Err(ServiceError::InvalidArgument(_))));
    let r4 = svc.submit_action(&"match_13".to_string(), 0, &"alice".to_string(), &id, &payload, &prev);
    assert!(matches!(r4, Err(ServiceError::InvalidArgument(_))));
}

#[test]
fn test_submit_unknown_match_not_found() {
    let mut svc = MatchService::new();
    let payload = encode_action(&Action::EndTurn);
    let prev = vec![0u8; 8];
    let id = MatchService::compute_action_id("match_77", 0, "alice", &payload, &prev);
    let r = svc.submit_action(&"match_77".to_string(), 0, &"alice".to_string(), &id, &payload, &prev);
    assert!(matches!(r, Err(ServiceError::NotFound(_))));
}

#[test]
fn test_advance_increments_turn_and_emits_events() {
    let mut svc = MatchService::new();
    let (match_id, h0, _) = svc.create_match(21, &two_players()).unwrap();
    let (turn, events, hash) = svc.advance(&match_id).unwrap();
    assert_eq!(turn, 1);
    assert_eq!(events, vec!["TurnAdvanced".to_string()]);
    assert_ne!(hash, h0);
    let r = svc.advance(&"match_nope".to_string());
    assert!(matches!(r, Err(ServiceError::NotFound(_))));
}

#[test]
fn test_negotiate_declines_with_reason() {
    let svc = MatchService::new();
    let (accepted, reason, counter) = svc.negotiate(&"{\"give\": {}, \"take\": {}}".to_string());
    assert!(!accepted);
    assert_eq!(reason, "deal declined");
    assert!(counter.is_empty());
}

#[test]
fn test_rejected_rule_violation_is_acknowledged_and_stored() {
    let mut svc = MatchService::new();
    let (match_id, h0, _) = svc.create_match(30, &two_players()).unwrap();
    // Fortifying an unknown unit decodes fine but violates the rules.
    let payload = encode_action(&Action::Fortify { unit: simcore::UnitId(500) });
    let prev = prefix8(&h0);
    let id = MatchService::compute_action_id(&match_id, 0, "alice", &payload, &prev);
    let ack1 = svc
        .submit_action(&match_id, 0, &"alice".to_string(), &id, &payload, &prev)
        .unwrap();
    assert!(!ack1.accepted);
    assert!(!ack1.error.is_empty());
    assert_eq!(ack1.new_state_hash, h0);
    let ack2 = svc
        .submit_action(&match_id, 0, &"alice".to_string(), &id, &payload, &prev)
        .unwrap();
    assert_eq!(ack1.error, ack2.error);
    assert_eq!(ack1.new_state_hash, ack2.new_state_hash);
}
