//! Deal document validation and negotiation policy tests.

use simcore::deal::validate_deal_json;
use simcore::deal::evaluate_deal;
use simcore::deal::DealValidationError;
use simcore::planner::select_action;
use simcore::state::State;
use simcore::PlayerId;

#[test]
fn test_validate_minimal_deal() {
    let deal = r#"{"give":{},"take":{}}"#;
    assert!(validate_deal_json(deal).is_ok());
}

#[test]
fn test_validate_gold_exchange() {
    let deal = r#"{
        "give": {"gold": 100},
        "take": {"open_borders": true}
    }"#;
    assert!(validate_deal_json(deal).is_ok());
}

#[test]
fn test_validate_research_agreement() {
    let deal = r#"{
        "give": {"gold": 50},
        "take": {"research_agreement": {"field": "Science", "turns": 10}}
    }"#;
    assert!(validate_deal_json(deal).is_ok());
}

#[test]
fn test_validate_iron_license() {
    let deal = r#"{
        "give": {"iron_license": {"tech": "iron_working", "turns": 15}},
        "take": {"gold": 200},
        "duration": 15
    }"#;
    assert!(validate_deal_json(deal).is_ok());
}

#[test]
fn test_reject_missing_required_fields() {
    let deal = r#"{"give": {}}"#;
    assert!(validate_deal_json(deal).is_err());
}

#[test]
fn test_reject_negative_gold() {
    let deal = r#"{"give": {"gold": -50}, "take": {}}"#;
    assert!(validate_deal_json(deal).is_err());
}

#[test]
fn test_reject_excessive_duration() {
    let deal = r#"{
        "give": {},
        "take": {},
        "duration": 31
    }"#;
    assert!(validate_deal_json(deal).is_err());
}

#[test]
fn test_reject_invalid_research_field() {
    let deal = r#"{
        "give": {},
        "take": {"research_agreement": {"field": "Magic", "turns": 5}}
    }"#;
    assert!(validate_deal_json(deal).is_err());
}

#[test]
fn test_reject_additional_properties() {
    let deal = r#"{
        "give": {},
        "take": {},
        "unknown_field": "should_fail"
    }"#;
    assert!(validate_deal_json(deal).is_err());
}

#[test]
fn test_validate_with_threat() {
    let deal = r#"{
        "give": {},
        "take": {"gold": 500},
        "threat": {"casus_belli": "border_dispute"}
    }"#;
    assert!(validate_deal_json(deal).is_ok());
}

#[test]
fn test_validate_with_conditions() {
    let deal = r#"{
        "give": {"open_borders": true},
        "take": {"gold": 100},
        "conditions": ["player_alive", "not_at_war"]
    }"#;
    assert!(validate_deal_json(deal).is_ok());
}

#[test]
fn test_evaluate_deal_rejects_invalid_json() {
    let state = State::new();
    let invalid_deal = r#"{"give": {}}"#;
    assert!(!evaluate_deal(&state, PlayerId(0), invalid_deal));
}

#[test]
fn test_evaluate_deal_validates_before_rejecting() {
    let state = State::new();
    let valid_deal = r#"{"give": {}, "take": {}}"#;
    assert!(!evaluate_deal(&state, PlayerId(0), valid_deal));
}

#[test]
fn test_select_action_compiles() {
    let state = State::new();
    let action = select_action(&state, PlayerId(0));
    assert!(action.is_none());
}

#[test]
fn test_parse_error_variant() {
    let r = validate_deal_json("not json at all {{{");
    assert!(matches!(r, Err(DealValidationError::JsonParse(_))));
}

#[test]
fn test_schema_error_variant() {
    let r = validate_deal_json(r#"{"give": {}}"#);
    assert!(matches!(r, Err(DealValidationError::SchemaValidation(_))));
}
