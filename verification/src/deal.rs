//! Deal-payload validation against the negotiation document schema, and the
//! negotiation policy stubs. Schema validation is an external collaborator
//! concern: the JSON parser and schema engine are trusted outside calls, and
//! this module's verified logic routes their verdicts.

use vstd::prelude::*;

use crate::action::Action;
use crate::ids::PlayerId;
use crate::state::State;

verus! {

/// Whether serde_json accepts the text as a JSON document: a pure function
/// of the text, identical in every process.
pub uninterp spec fn json_parses(s: Seq<char>) -> bool;

/// The JSON schema that negotiation deal documents must satisfy: two
/// required object fields `give` and `take` holding the tradable clauses,
/// optional `duration`, `threat` and `conditions`, and nothing else.
pub fn deal_schema_text() -> (r: &'static str) {
    "{\
    \"$schema\": \"https://json-schema.org/draft/2020-12/schema\",\
    \"type\": \"object\",\
    \"required\": [\"give\", \"take\"],\
    \"additionalProperties\": false,\
    \"properties\": {\
    \"give\": {\"$ref\": \"#/$defs/side\"},\
    \"take\": {\"$ref\": \"#/$defs/side\"},\
    \"duration\": {\"type\": \"integer\", \"minimum\": 1, \"maximum\": 30},\
    \"threat\": {\"type\": \"object\", \"additionalProperties\": false, \"properties\": {\
    \"casus_belli\": {\"type\": \"string\"}}},\
    \"conditions\": {\"type\": \"array\", \"items\": {\"type\": \"string\"}}\
    },\
    \"$defs\": {\
    \"side\": {\
    \"type\": \"object\",\
    \"additionalProperties\": false,\
    \"properties\": {\
    \"gold\": {\"type\": \"integer\", \"minimum\": 0},\
    \"open_borders\": {\"type\": \"boolean\"},\
    \"research_agreement\": {\"type\": \"object\", \"required\": [\"field\", \"turns\"],\
    \"additionalProperties\": false, \"properties\": {\
    \"field\": {\"enum\": [\"Science\", \"Culture\"]},\
    \"turns\": {\"type\": \"integer\", \"minimum\": 1, \"maximum\": 30}}},\
    \"iron_license\": {\"type\": \"object\", \"required\": [\"tech\", \"turns\"],\
    \"additionalProperties\": false, \"properties\": {\
    \"tech\": {\"type\": \"string\"},\
    \"turns\": {\"type\": \"integer\", \"minimum\": 1, \"maximum\": 30}}}\
    }\
    }\
    }\
    }"
}

/// Whether the negotiation document schema accepts a parsed deal document:
/// the jsonschema engine's verdict against this crate's fixed schema text,
/// a pure function of the document text alone.
pub uninterp spec fn deal_schema_accepts(s: Seq<char>) -> bool;

/// Relies on serde_json::from_str and on jsonschema::validator_for /
/// Validator::is_valid, applied to this crate's fixed deal schema: parsing
/// succeeds exactly on well-formed JSON, and the schema engine's verdict on
/// a parsed document depends on the document text alone, since the schema
/// is a constant of this crate (its compilation succeeds; the migrated
/// schema tests witness both directions of the verdict at runtime).
#[verifier::external_body]
fn check_deal_document(deal_json: &str) -> (r: Option<bool>)
    ensures
        (r is Some <==> json_parses(deal_json@)),
        (r is Some ==> r->0 == deal_schema_accepts(deal_json@)),
{
    let doc: serde_json::Value = match serde_json::from_str(deal_json) {
        Ok(d) => d,
        Err(_) => return None,
    };
    let schema: serde_json::Value = serde_json::from_str(deal_schema_text()).expect("fixed schema");
    let validator = jsonschema::validator_for(&schema).expect("fixed schema");
    Some(validator.is_valid(&doc))
}

/// Why a deal document was rejected.
#[derive(Debug)]
pub enum DealValidationError {
    JsonParse(String),
    SchemaValidation(String),
    SchemaLoad(String),
}

/// Mathematical view of a deal validation error.
pub ghost enum DealValidationErrorV {
    JsonParse(Seq<char>),
    SchemaValidation(Seq<char>),
    SchemaLoad(Seq<char>),
}

impl View for DealValidationError {
    type V = DealValidationErrorV;

    open spec fn view(&self) -> DealValidationErrorV {
        match self {
            DealValidationError::JsonParse(m) => DealValidationErrorV::JsonParse(m@),
            DealValidationError::SchemaValidation(m) => DealValidationErrorV::SchemaValidation(m@),
            DealValidationError::SchemaLoad(m) => DealValidationErrorV::SchemaLoad(m@),
        }
    }
}

/// Validate deal JSON against the negotiation document schema: succeeds
/// exactly when the text is well-formed JSON and the schema engine accepts
/// the document; text that does not parse is rejected as a parse error,
/// and a parsed document the schema refuses as a validation error.
pub fn validate_deal_json(deal_json: &str) -> (r: Result<(), DealValidationError>)
    ensures
        (r is Ok <==> json_parses(deal_json@) && deal_schema_accepts(deal_json@)),
        ((r is Err && r->Err_0@ is JsonParse) <==> !json_parses(deal_json@)),
        ((r is Err && r->Err_0@ is SchemaValidation) <==> (json_parses(deal_json@)
            && !deal_schema_accepts(deal_json@))),
{
    match check_deal_document(deal_json) {
        None => Err(DealValidationError::JsonParse("JSON parse error".to_owned())),
        Some(true) => Ok(()),
        Some(false) => Err(
            DealValidationError::SchemaValidation("schema validation failed".to_owned()),
        ),
    }
}

/// Generate a deal offer for negotiation. The negotiation policy is an AI
/// collaborator concern; this core proposes nothing.
pub fn generate_deal(_state: &State, _from: PlayerId, _to: PlayerId) -> (r: Option<Action>)
    ensures
        r is None,
{
    None
}

/// Evaluate an incoming deal: validate its document shape first, then defer
/// acceptance policy to the negotiation collaborator, which this core
/// answers for by declining every offer.
pub fn evaluate_deal(_state: &State, _player: PlayerId, deal_json: &str) -> (r: bool)
    ensures
        r == false,
{
    if validate_deal_json(deal_json).is_err() {
        return false;
    }
    false
}

} // verus!
