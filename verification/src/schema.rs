//! Validation of a JSON document against a JSON Schema, compiled once under
//! draft-07 rules by the jsonschema crate.

use crate::json::{document_tree, from_text, json_document, json_parse, to_tree};
use crate::references::{check_references, references_settle};
use jsonschema::{Draft, JSONSchema};
use serde_json::Value;
use vstd::prelude::*;

verus! {

/// jsonschema's compiled schema, carried as it is. The document it was made
/// from is spoken of through `compiled_document` alone.
#[verifier::external_type_specification]
#[verifier::external_body]
pub struct ExJSONSchema(JSONSchema);

/// The schema document that a compiled schema was made from, as its compact
/// text.
pub uninterp spec fn compiled_document(c: JSONSchema) -> Seq<char>;

/// Why the document `schema` is no draft-07 schema, in the compiler's words;
/// `None` where it compiles.
pub uninterp spec fn schema_compile_error(schema: Seq<char>) -> Option<Seq<char>>;

/// Every point at which the document `instance` breaks the draft-07 schema
/// `schema`, in the order in which the validator reports them: for each its
/// message and the JSON pointer into the instance.
pub uninterp spec fn schema_violations(schema: Seq<char>, instance: Seq<char>) -> Seq<
    (Seq<char>, Seq<char>),
>;

/// One point at which an instance breaks the schema.
#[derive(Debug)]
pub struct Violation {
    /// What is wrong, in words.
    pub message: String,
    /// JSON pointer to the place in the instance.
    pub instance_path: String,
}

impl View for Violation {
    type V = (Seq<char>, Seq<char>);

    open spec fn view(&self) -> (Seq<char>, Seq<char>) {
        (self.message@, self.instance_path@)
    }
}

impl Clone for Violation {
    fn clone(&self) -> (r: Self)
        ensures
            r@ == self@,
    {
        Violation { message: self.message.clone(), instance_path: self.instance_path.clone() }
    }
}

/// The violations of a list, each by its view.
pub open spec fn violation_views(violations: Seq<Violation>) -> Seq<(Seq<char>, Seq<char>)> {
    violations.map_values(|v: Violation| v@)
}

/// `JSONSchema::options().with_draft(Draft::Draft7).compile`: whether a
/// document compiles, and the complaint if not, depend on the document alone.
/// jsonschema is built without its resolvers for files and HTTP, so nothing is
/// read from outside the document. The error is kept as the text that its
/// `Display` impl writes.
#[verifier::external_body]
fn compile_draft7(schema: &Value) -> (r: Result<JSONSchema, String>)
    ensures
        match r {
            Ok(c) => schema_compile_error(json_document(*schema)) is None && compiled_document(c)
                == json_document(*schema),
            Err(e) => schema_compile_error(json_document(*schema)) == Some(e@),
        },
{
    match JSONSchema::options().with_draft(Draft::Draft7).compile(schema) {
        Ok(c) => Ok(c),
        Err(e) => Err(e.to_string()),
    }
}

/// `JSONSchema::validate`, its error iterator walked to the end: the
/// violations, in the iterator's order, depend on the schema document and the
/// instance document alone. Each is kept as the text that its `Display` impl
/// writes and the text of its `instance_path`; an accepted instance gives
/// none.
///
/// jsonschema follows a `$ref` when it meets one and keeps no watch for a
/// reference that leads back to where it began, so the call returns only
/// for a schema whose references settle. In such a schema every reference is
/// `#` and a JSON pointer that jsonschema reads as it stands, and no `$id`
/// moves the place from which it is read, so each leads where `pointed`
/// says, or nowhere, which is a violation. The schemas that jsonschema holds
/// a reading against without a step into the reading are those that
/// `next_schemas` names, and no chain of them goes on for ever; every other
/// step goes into the reading, which is finite.
#[verifier::external_body]
fn run_validation(compiled: &JSONSchema, instance: &Value) -> (r: Vec<Violation>)
    requires
        references_settle(document_tree(compiled_document(*compiled))),
    ensures
        violation_views(r@) == schema_violations(
            compiled_document(*compiled),
            json_document(*instance),
        ),
{
    let mut found = Vec::new();
    if let Err(errors) = compiled.validate(instance) {
        for error in errors {
            found.push(
                Violation {
                    message: error.to_string(),
                    instance_path: error.instance_path.to_string(),
                },
            );
        }
    }
    found
}

/// What is said of a schema whose references do not settle.
pub const UNSETTLED_REFERENCES: &'static str =
    "a schema reference is not `#` and a plain JSON pointer, or leads back to where it began";

/// Why a configured schema cannot be used.
#[derive(Debug)]
pub enum SchemaError {
    /// The text is no JSON; the parser's message.
    NotJson(String),
    /// The document is no draft-07 schema; the compiler's complaint.
    NotASchema(String),
    /// The document is a schema, but following its references may never
    /// end.
    Unsettled,
}

/// A schema error, as values.
pub enum SchemaErrorView {
    NotJson(Seq<char>),
    NotASchema(Seq<char>),
    Unsettled,
}

impl View for SchemaError {
    type V = SchemaErrorView;

    open spec fn view(&self) -> SchemaErrorView {
        match self {
            SchemaError::NotJson(message) => SchemaErrorView::NotJson(message@),
            SchemaError::NotASchema(message) => SchemaErrorView::NotASchema(message@),
            SchemaError::Unsettled => SchemaErrorView::Unsettled,
        }
    }
}

impl SchemaErrorView {
    /// The error's message.
    pub open spec fn message(self) -> Seq<char> {
        match self {
            SchemaErrorView::NotJson(message) => message,
            SchemaErrorView::NotASchema(message) => message,
            SchemaErrorView::Unsettled => UNSETTLED_REFERENCES@,
        }
    }
}

impl SchemaError {
    /// The error's message.
    pub fn message(&self) -> (r: String)
        ensures
            r@ == self@.message(),
    {
        match self {
            SchemaError::NotJson(message) => message.clone(),
            SchemaError::NotASchema(message) => message.clone(),
            SchemaError::Unsettled => UNSETTLED_REFERENCES.to_owned(),
        }
    }
}

/// Why the document `schema` cannot be used as a schema: it does not compile
/// under draft-07 rules, or it compiles and its references do not settle.
/// `None` where it can be used.
pub open spec fn schema_refusal(schema: Seq<char>) -> Option<SchemaErrorView> {
    match schema_compile_error(schema) {
        Some(e) => Some(SchemaErrorView::NotASchema(e)),
        None => if references_settle(document_tree(schema)) {
            None
        } else {
            Some(SchemaErrorView::Unsettled)
        },
    }
}

/// What compiling the schema that `text` writes gives: the schema document,
/// or why there is none.
pub open spec fn schema_from_text(text: Seq<char>) -> Result<Seq<char>, SchemaErrorView> {
    match json_parse(text) {
        Err(e) => Err(SchemaErrorView::NotJson(e.0)),
        Ok(document) => match schema_refusal(document) {
            Some(e) => Err(e),
            None => Ok(document),
        },
    }
}

/// A schema, compiled once and used for every reading.
pub struct SchemaValidator {
    compiled: JSONSchema,
}

impl View for SchemaValidator {
    type V = Seq<char>;

    /// The schema document.
    closed spec fn view(&self) -> Seq<char> {
        compiled_document(self.compiled)
    }
}

impl SchemaValidator {
    /// Whether the schema's references settle, which they do in every
    /// validator that executable code holds.
    #[verifier::type_invariant]
    pub open spec fn wf(&self) -> bool {
        references_settle(document_tree(self@))
    }

    /// Compiles `schema` and looks where its references lead.
    fn build(schema: &Value) -> (r: Result<SchemaValidator, SchemaError>)
        ensures
            match schema_refusal(json_document(*schema)) {
                None => r is Ok && r->Ok_0@ == json_document(*schema) && r->Ok_0.wf(),
                Some(e) => r is Err && r->Err_0@ == e,
            },
    {
        match compile_draft7(schema) {
            Err(e) => Err(SchemaError::NotASchema(e)),
            Ok(compiled) => if check_references(&to_tree(schema)) {
                Ok(SchemaValidator { compiled })
            } else {
                Err(SchemaError::Unsettled)
            },
        }
    }

    /// Compiles `schema` under draft-07 rules.
    ///
    /// Succeeds exactly on the documents that are draft-07 schemas whose
    /// references settle; any other gives the compiler's complaint, or the
    /// word on references.
    pub fn compile(schema: &Value) -> (r: Result<SchemaValidator, String>)
        ensures
            match schema_refusal(json_document(*schema)) {
                None => r is Ok && r->Ok_0@ == json_document(*schema) && r->Ok_0.wf(),
                Some(e) => r is Err && r->Err_0@ == e.message(),
            },
    {
        match SchemaValidator::build(schema) {
            Ok(validator) => Ok(validator),
            Err(e) => Err(e.message()),
        }
    }

    /// Parses and compiles the schema that the configuration holds as text.
    ///
    /// There is a validator exactly when the text is JSON, the document is a
    /// draft-07 schema, and its references settle; otherwise the error says
    /// which of the three failed.
    pub fn from_text(schema_str: &str) -> (r: Result<SchemaValidator, SchemaError>)
        ensures
            match schema_from_text(schema_str@) {
                Ok(document) => r is Ok && r->Ok_0@ == document && r->Ok_0.wf(),
                Err(e) => r is Err && r->Err_0@ == e,
            },
    {
        match from_text(schema_str) {
            Err(e) => Err(SchemaError::NotJson(e.message)),
            Ok(schema) => SchemaValidator::build(&schema),
        }
    }

    /// Checks `instance` against the schema.
    ///
    /// `Ok` exactly when nothing in the instance breaks the schema; otherwise
    /// every violation, in the validator's order.
    pub fn validate(&self, instance: &Value) -> (r: Result<(), Vec<Violation>>)
        ensures
            match r {
                Ok(_) => schema_violations(self@, json_document(*instance)).len() == 0,
                Err(found) => found@.len() > 0 && violation_views(found@) == schema_violations(
                    self@,
                    json_document(*instance),
                ),
            },
    {
        proof {
            use_type_invariant(self);
        }
        let found = run_validation(&self.compiled, instance);
        if found.len() == 0 {
            Ok(())
        } else {
            Err(found)
        }
    }
}

} // verus!
