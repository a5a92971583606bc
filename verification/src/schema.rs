//! The parsed document model the differ works on: one struct per document
//! object, every optional field an `Option`, ordered key-to-value collections
//! kept as vectors of pairs in document order, and free-form fields held as
//! plain values.  Reference-bearing positions are typed reference-or-value.
use vstd::prelude::*;

use crate::diff_core::{Either, MayBeRefCore, ReferenceDescriptor};
use crate::json::{JsonNum, JsonValue};

verus! {

/// A `$ref` as written in a document.
#[derive(Debug)]
pub struct OpenApi310Ref {
    pub reference: String,
}

impl ReferenceDescriptor for OpenApi310Ref {
    open spec fn spec_reference(&self) -> Seq<char> {
        self.reference@
    }

    open spec fn reference_present(&self) -> bool {
        true
    }

    fn reference(&self) -> (r: &str) {
        self.reference.as_str()
    }
}

/// A node that is either a `$ref` or an inline value.
pub type MayBeRef310<T> = MayBeRefCore<T, OpenApi310Ref>;

#[derive(Debug)]
pub struct Contact {
    pub name: Option<String>,
    pub url: Option<String>,
    pub email: Option<String>,
}

#[derive(Debug)]
pub struct License {
    pub name: Option<String>,
    pub url: Option<String>,
}

#[derive(Debug)]
pub struct Info {
    pub title: Option<String>,
    pub description: Option<String>,
    pub terms_of_service: Option<String>,
    pub contact: Option<Contact>,
    pub license: Option<License>,
    pub version: Option<String>,
}

#[derive(Debug)]
pub struct Xml {
    pub name: Option<String>,
    pub namespace: Option<String>,
    pub prefix: Option<String>,
    pub attribute: Option<bool>,
    pub wrapped: Option<bool>,
}

/// A document-level tag; its natural identity is its name.
#[derive(Debug)]
pub struct Tag {
    pub name: Option<String>,
    pub description: Option<String>,
    pub external_doc: Option<ExternalDoc>,
}

#[derive(Debug)]
pub struct ExternalDoc {
    pub url: Option<String>,
    pub description: Option<String>,
}

/// A schema node.  Numeric constraint fields compare by decoded value, so
/// they hold the number model; composition and containment edges
/// (`properties`, `items`, and the `allOf`/`oneOf`/`anyOf`/`not` lists) may
/// recurse into further schema nodes.  Unknown fields are kept as an ordered
/// bag and compared whole.
#[derive(Debug)]
pub struct Schema {
    pub title: Option<String>,
    pub maximum: Option<JsonNum>,
    pub minimum: Option<JsonNum>,
    pub max_length: Option<u64>,
    pub min_length: Option<u64>,
    pub required: Option<Vec<String>>,
    pub enum_values: Option<Vec<JsonValue>>,
    pub schema_type: Option<Either<String, Vec<String>>>,
    pub all_of: Option<Vec<MayBeRef310<Schema>>>,
    pub one_of: Option<Vec<MayBeRef310<Schema>>>,
    pub any_of: Option<Vec<MayBeRef310<Schema>>>,
    pub not: Option<Vec<MayBeRef310<Schema>>>,
    pub items: Box<Option<MayBeRef310<Schema>>>,
    pub properties: Option<Vec<(String, MayBeRef310<Schema>)>>,
    pub description: Option<String>,
    pub format: Option<String>,
    pub default: Option<JsonValue>,
    pub xml: Option<Xml>,
    pub deprecated: Option<bool>,
    pub custom_fields: Vec<(String, JsonValue)>,
}

#[derive(Debug)]
pub struct MediaType {
    pub schema: Option<MayBeRef310<Schema>>,
    pub example: Option<JsonValue>,
}

/// A single operation parameter; its natural identity is name plus location.
#[derive(Debug)]
pub struct Parameter {
    pub name: String,
    pub location: String,
    pub description: Option<String>,
    pub required: Option<bool>,
    pub deprecated: Option<bool>,
    pub schema: Option<MayBeRef310<Schema>>,
    pub custom_fields: Vec<(String, JsonValue)>,
}

#[derive(Debug)]
pub struct RequestBody {
    pub description: Option<String>,
    pub content: Option<Vec<(String, MediaType)>>,
    pub required: Option<bool>,
}

#[derive(Debug)]
pub struct Response {
    pub description: Option<String>,
    pub content: Option<Vec<(String, MediaType)>>,
}

#[derive(Debug)]
pub struct Operation {
    pub tags: Option<Vec<String>>,
    pub summary: Option<String>,
    pub description: Option<String>,
    pub external_docs: Option<ExternalDoc>,
    pub operation_id: Option<String>,
    pub parameters: Option<Vec<MayBeRef310<Parameter>>>,
    pub responses: Option<Vec<(String, MayBeRef310<Response>)>>,
    pub request_body: Option<MayBeRef310<RequestBody>>,
    pub deprecated: Option<bool>,
}

/// One path item: up to eight operations plus shared fields.
#[derive(Debug)]
pub struct Path {
    pub get: Option<Operation>,
    pub put: Option<Operation>,
    pub post: Option<Operation>,
    pub delete: Option<Operation>,
    pub options: Option<Operation>,
    pub head: Option<Operation>,
    pub patch: Option<Operation>,
    pub trace: Option<Operation>,
    pub parameters: Option<Vec<MayBeRef310<Parameter>>>,
    pub summary: Option<String>,
    pub description: Option<String>,
}

/// A whole parsed document.
#[derive(Debug)]
pub struct HttpSchema {
    pub version: Option<String>,
    pub info: Option<Info>,
    pub paths: Option<Vec<(String, MayBeRef310<Path>)>>,
    pub tags: Option<Vec<Tag>>,
    pub external_docs: Option<ExternalDoc>,
}

} // verus!
