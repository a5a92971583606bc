//! The difference tree: one struct per document object, isomorphic to the
//! document model but with every field wrapped in a `DiffResult`.
use vstd::prelude::*;

use crate::diff_core::{DiffResult, Either, MapDiff, ReferenceDescriptor, VecDiff};
use crate::json::JsonValue;

verus! {

/// A `$ref` whose reference string has been diffed.
#[derive(Debug)]
pub struct OpenApi310RefDiff {
    pub reference: DiffResult<String>,
}

impl ReferenceDescriptor for OpenApi310RefDiff {
    open spec fn spec_reference(&self) -> Seq<char> {
        self.reference.payload()@
    }

    open spec fn reference_present(&self) -> bool {
        !(self.reference is Absent)
    }

    fn reference(&self) -> (r: &str) {
        match &self.reference {
            DiffResult::Absent => "",
            DiffResult::Same(s) => s.as_str(),
            DiffResult::Added(s) => s.as_str(),
            DiffResult::Removed(s) => s.as_str(),
            DiffResult::Updated(s) => s.as_str(),
        }
    }
}

/// Difference of a node that may be a reference on either side: `Ref` when
/// at least one side is a reference (the string diff records added, removed,
/// kept or retargeted references), `Value` when both sides are inline and
/// were compared as content.  A change between reference form and inline
/// form therefore stays visible as a `Ref` with an `Added` or `Removed`
/// reference string.
#[derive(Debug)]
pub enum MayBeRefDiff<T> {
    Ref(DiffResult<String>),
    Value(DiffResult<T>),
}

#[derive(Debug)]
pub struct ContactDiff {
    pub name: DiffResult<String>,
    pub url: DiffResult<String>,
    pub email: DiffResult<String>,
}

#[derive(Debug)]
pub struct LicenseDiff {
    pub name: DiffResult<String>,
    pub url: DiffResult<String>,
}

#[derive(Debug)]
pub struct InfoDiff {
    pub title: DiffResult<String>,
    pub description: DiffResult<String>,
    pub terms_of_service: DiffResult<String>,
    pub contact: DiffResult<ContactDiff>,
    pub license: DiffResult<LicenseDiff>,
    pub version: DiffResult<String>,
}

#[derive(Debug)]
pub struct XmlDiff {
    pub name: DiffResult<String>,
    pub namespace: DiffResult<String>,
    pub prefix: DiffResult<String>,
    pub attribute: DiffResult<bool>,
    pub wrapped: DiffResult<bool>,
}

#[derive(Debug)]
pub struct TagDiff {
    pub name: DiffResult<String>,
    pub description: DiffResult<String>,
    pub external_doc: DiffResult<ExternalDocDiff>,
}

#[derive(Debug)]
pub struct ExternalDocDiff {
    pub url: DiffResult<String>,
    pub description: DiffResult<String>,
}

#[derive(Debug)]
pub struct SchemaDiff {
    pub title: DiffResult<String>,
    pub maximum: DiffResult<crate::json::JsonNum>,
    pub minimum: DiffResult<crate::json::JsonNum>,
    pub max_length: DiffResult<u64>,
    pub min_length: DiffResult<u64>,
    pub required: DiffResult<VecDiff<String>>,
    pub enum_values: DiffResult<VecDiff<JsonValue>>,
    pub schema_type: DiffResult<Either<String, Vec<String>>>,
    pub all_of: DiffResult<VecDiff<MayBeRefDiff<SchemaDiff>>>,
    pub one_of: DiffResult<VecDiff<MayBeRefDiff<SchemaDiff>>>,
    pub any_of: DiffResult<VecDiff<MayBeRefDiff<SchemaDiff>>>,
    pub not: DiffResult<VecDiff<MayBeRefDiff<SchemaDiff>>>,
    pub items: Vec<DiffResult<MayBeRefDiff<SchemaDiff>>>,
    pub properties: DiffResult<MapDiff<MayBeRefDiff<SchemaDiff>>>,
    pub description: DiffResult<String>,
    pub format: DiffResult<String>,
    pub default: DiffResult<JsonValue>,
    pub xml: DiffResult<XmlDiff>,
    pub deprecated: DiffResult<bool>,
    pub custom_fields: DiffResult<Vec<(String, JsonValue)>>,
}

#[derive(Debug)]
pub struct MediaTypeDiff {
    pub schema: DiffResult<MayBeRefDiff<SchemaDiff>>,
    pub example: DiffResult<JsonValue>,
}

#[derive(Debug)]
pub struct ParameterDiff {
    pub name: DiffResult<String>,
    pub location: DiffResult<String>,
    pub description: DiffResult<String>,
    pub required: DiffResult<bool>,
    pub deprecated: DiffResult<bool>,
    pub schema: DiffResult<MayBeRefDiff<SchemaDiff>>,
    pub custom_fields: DiffResult<Vec<(String, JsonValue)>>,
}

#[derive(Debug)]
pub struct RequestBodyDiff {
    pub description: DiffResult<String>,
    pub content: DiffResult<MapDiff<MediaTypeDiff>>,
    pub required: DiffResult<bool>,
}

#[derive(Debug)]
pub struct ResponseDiff {
    pub description: DiffResult<String>,
    pub content: DiffResult<MapDiff<MediaTypeDiff>>,
}

#[derive(Debug)]
pub struct OperationDiff {
    pub tags: DiffResult<VecDiff<String>>,
    pub summary: DiffResult<String>,
    pub description: DiffResult<String>,
    pub external_docs: DiffResult<ExternalDocDiff>,
    pub operation_id: DiffResult<String>,
    pub parameters: DiffResult<VecDiff<MayBeRefDiff<ParameterDiff>>>,
    pub responses: DiffResult<MapDiff<MayBeRefDiff<ResponseDiff>>>,
    pub request_body: DiffResult<MayBeRefDiff<RequestBodyDiff>>,
    pub deprecated: DiffResult<bool>,
}

#[derive(Debug)]
pub struct PathDiff {
    pub get: DiffResult<OperationDiff>,
    pub put: DiffResult<OperationDiff>,
    pub post: DiffResult<OperationDiff>,
    pub delete: DiffResult<OperationDiff>,
    pub options: DiffResult<OperationDiff>,
    pub head: DiffResult<OperationDiff>,
    pub patch: DiffResult<OperationDiff>,
    pub trace: DiffResult<OperationDiff>,
    pub parameters: DiffResult<VecDiff<MayBeRefDiff<ParameterDiff>>>,
    pub summary: DiffResult<String>,
    pub description: DiffResult<String>,
}

/// The difference of two whole documents.
#[derive(Debug)]
pub struct HttpSchemaDiff {
    pub version: DiffResult<String>,
    pub info: DiffResult<InfoDiff>,
    pub paths: DiffResult<MapDiff<MayBeRefDiff<PathDiff>>>,
    pub tags: DiffResult<VecDiff<TagDiff>>,
    pub external_docs: DiffResult<ExternalDocDiff>,
}

} // verus!
