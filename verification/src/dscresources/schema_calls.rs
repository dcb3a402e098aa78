//! Checking a resource's input against the JSON schema of the resource,
//! with `serde_json` reading the texts and `jsonschema` judging them.

use jsonschema::Validator;
use vstd::prelude::*;
use vstd::string::StringExecFns;

use crate::dscerror::DscError;

verus! {

#[verifier::external_type_specification]
#[verifier::external_body]
pub struct ExJsonValue(serde_json::Value);

#[verifier::external_type_specification]
#[verifier::external_body]
pub struct ExSchemaValidator(Validator);

/// Whether `serde_json` reads the text as a JSON value.
pub uninterp spec fn parses_as_json(text: Seq<char>) -> bool;

/// Whether `jsonschema` compiles the JSON text `schema` into a validator.
pub uninterp spec fn schema_compiles(schema: Seq<char>) -> bool;

/// Whether the JSON text `json` meets the compiled JSON schema text
/// `schema`: `jsonschema` reports no error for it.
pub uninterp spec fn schema_accepts(schema: Seq<char>, json: Seq<char>) -> bool;

/// A JSON text with the value `serde_json` read from it; only
/// `parse_json_document` makes one.
pub struct JsonDocument {
    text: String,
    value: serde_json::Value,
}

impl JsonDocument {
    /// The text the document was read from.
    pub closed spec fn text(self) -> Seq<char> {
        self.text@
    }
}

/// A JSON schema text with the validator `jsonschema` compiled from it;
/// only `compile_schema` makes one.
pub struct CompiledSchema {
    text: String,
    validator: Validator,
}

impl CompiledSchema {
    /// The schema text the validator was compiled from.
    pub closed spec fn text(self) -> Seq<char> {
        self.text@
    }
}

/// `serde_json::from_str` into a `serde_json::Value`: whether it succeeds
/// depends on the text alone; the document keeps the text, and an error
/// comes back as its message.
#[verifier::external_body]
fn parse_json_document(text: &str) -> (r: Result<JsonDocument, String>)
    ensures
        r is Ok <==> parses_as_json(text@),
        r matches Ok(d) ==> d.text() == text@,
{
    match serde_json::from_str::<serde_json::Value>(text) {
        Ok(value) => Ok(JsonDocument { text: text.to_string(), value }),
        Err(e) => Err(e.to_string()),
    }
}

/// `jsonschema::Validator::new` on the value of a schema document: whether
/// it compiles depends on the schema alone (no remote references are
/// fetched: the crate's resolving features are off); a refusal comes back
/// as its message. The source has `expect` calls on paths it asserts cannot
/// be reached; that no input reaches them is not stated.
#[verifier::external_body]
fn compile_schema(schema: &JsonDocument) -> (r: Result<CompiledSchema, String>)
    ensures
        r is Ok <==> schema_compiles(schema.text()),
        r matches Ok(c) ==> c.text() == schema.text(),
{
    match Validator::new(&schema.value) {
        Ok(validator) => Ok(CompiledSchema { text: schema.text.clone(), validator }),
        Err(e) => Err(e.to_string()),
    }
}

/// `Validator::iter_errors`: the message of each way in which the instance
/// fails the schema, in the order the iterator gives them; there are none
/// exactly when the schema accepts the instance. Which messages they are is
/// not stated.
#[verifier::external_body]
fn schema_errors(schema: &CompiledSchema, instance: &JsonDocument) -> (r: Vec<String>)
    ensures
        r@.len() == 0 <==> schema_accepts(schema.text(), instance.text()),
{
    schema.validator.iter_errors(&instance.value).map(|e| e.to_string()).collect()
}

/// The messages joined as the error of a failed validation reports them:
/// each followed by a space.
pub open spec fn joined_errors(errors: Seq<String>) -> Seq<char>
    decreases errors.len(),
{
    if errors.len() == 0 {
        Seq::empty()
    } else {
        joined_errors(errors.drop_last()) + errors.last()@ + seq![' ']
    }
}

/// The outcome of validating an input: valid when no error was reported,
/// else a schema error that gives every message.
pub fn schema_result(errors: &Vec<String>) -> (r: Result<(), DscError>)
    ensures
        errors@.len() == 0 ==> r is Ok,
        errors@.len() > 0 ==> (r matches Err(DscError::Schema(m)) && m@ == joined_errors(errors@)),
{
    if errors.len() == 0 {
        return Ok(());
    }
    let mut m = String::new();
    let mut i: usize = 0;
    while i < errors.len()
        invariant
            i <= errors@.len(),
            m@ == joined_errors(errors@.take(i as int)),
        decreases errors@.len() - i,
    {
        proof {
            assert(errors@.take(i + 1).drop_last() =~= errors@.take(i as int));
            reveal_strlit(" ");
        }
        m.append(errors[i].as_str());
        m.append(" ");
        i = i + 1;
    }
    proof {
        assert(errors@.take(errors@.len() as int) =~= errors@);
    }
    Err(DscError::Schema(m))
}

/// Checks the JSON text `json` against the JSON schema text `schema`: a
/// text that is not JSON is a JSON error; a schema that does not compile,
/// or an input that fails it, a schema error (see `schema_result`).
pub fn check_schema(schema: &str, json: &str) -> (r: Result<(), DscError>)
    ensures
        !parses_as_json(schema@) ==> (r matches Err(e) && e is Json),
        parses_as_json(schema@) && !schema_compiles(schema@) ==> (r matches Err(e) && e is Schema),
        parses_as_json(schema@) && schema_compiles(schema@) && !parses_as_json(json@) ==> (r matches Err(e) && e is Json),
        parses_as_json(schema@) && schema_compiles(schema@) && parses_as_json(json@) ==> (r is Ok <==> schema_accepts(schema@, json@)),
        parses_as_json(schema@) && schema_compiles(schema@) && parses_as_json(json@) && !schema_accepts(schema@, json@)
            ==> (r matches Err(e) && e is Schema),
{
    let schema_doc = match parse_json_document(schema) {
        Ok(v) => v,
        Err(m) => {
            return Err(DscError::Json(m));
        },
    };
    let compiled = match compile_schema(&schema_doc) {
        Ok(v) => v,
        Err(m) => {
            return Err(DscError::Schema(m));
        },
    };
    let instance = match parse_json_document(json) {
        Ok(v) => v,
        Err(m) => {
            return Err(DscError::Json(m));
        },
    };
    let errors = schema_errors(&compiled, &instance);
    schema_result(&errors)
}

} // verus!
