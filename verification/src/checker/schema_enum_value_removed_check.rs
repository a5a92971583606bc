use vstd::prelude::*;

use crate::checker::{
    drain_pointers, lemma_concat_unit, lemma_push_is_concat, lemma_recorded_push, recorded,
    ValidationIssue, ValidationIssuer,
};
use crate::diff_core::{DiffResult, DiffState, MapDiff, VecDiff};
use crate::path_pointer::PathPointer;
use crate::schema_diff::{
    HttpSchemaDiff, MayBeRefDiff, MediaTypeDiff, OperationDiff, ParameterDiff, PathDiff,
    RequestBodyDiff, ResponseDiff, SchemaDiff,
};
use crate::visitor::{silent_on_unchanged, view_at, DiffVisitor, PtrView};

verus! {

/// Flags a schema whose accepted literal values were narrowed: at least one
/// old enum value no longer appears in the new version.
pub struct SchemaEnumValueRemovedCheck {
    pub pointers: Vec<PathPointer>,
}

impl DiffVisitor for SchemaEnumValueRemovedCheck {
    open spec fn recorded_view(&self) -> Seq<PtrView> {
        recorded(self.pointers@)
    }

    open spec fn descends_operation(
        pointer: PtrView,
        method: Seq<char>,
        d: DiffResult<OperationDiff>,
    ) -> bool {
        view_at(pointer, DiffState::Updated)
    }

    open spec fn descends_request_body(pointer: PtrView, d: DiffResult<RequestBodyDiff>) -> bool {
        view_at(pointer, DiffState::Updated)
    }

    open spec fn descends_responses(pointer: PtrView, d: DiffResult<MapDiff<MayBeRefDiff<ResponseDiff>>>) -> bool {
        view_at(pointer, DiffState::Updated)
    }

    open spec fn descends_media_types(pointer: PtrView, d: DiffResult<MapDiff<MediaTypeDiff>>) -> bool {
        view_at(pointer, DiffState::Updated)
    }

    open spec fn descends_media_type(pointer: PtrView, d: DiffResult<MediaTypeDiff>) -> bool {
        view_at(pointer, DiffState::Updated)
    }

    open spec fn descends_parameters(pointer: PtrView, d: DiffResult<VecDiff<MayBeRefDiff<ParameterDiff>>>) -> bool {
        view_at(pointer, DiffState::Updated)
    }

    open spec fn descends_parameter(pointer: PtrView, d: DiffResult<ParameterDiff>) -> bool {
        view_at(pointer, DiffState::Updated)
    }

    open spec fn descends_schema(pointer: PtrView, d: DiffResult<SchemaDiff>) -> bool {
        view_at(pointer, DiffState::Updated) && !(d is Absent)
    }

    open spec fn records_schema(pointer: PtrView, d: DiffResult<SchemaDiff>) -> bool {
        view_at(pointer, DiffState::Updated) && !(d is Absent)
            && d.payload().enum_values is Updated && (exists|i: int|
            0 <= i < d.payload().enum_values.payload()@.len() && (
            #[trigger] d.payload().enum_values.payload()@[i]) is Removed)
    }

    fn visit_document(&mut self, pointer: &PathPointer, d: &DiffResult<HttpSchemaDiff>) -> (b: bool) {
        proof {
            lemma_concat_unit(recorded(self.pointers@));
        }
        true
    }

    fn visit_path(&mut self, pointer: &PathPointer, d: &DiffResult<PathDiff>) -> (b: bool) {
        proof {
            lemma_concat_unit(recorded(self.pointers@));
        }
        true
    }

    fn visit_operation(&mut self, pointer: &PathPointer, method: &str, d: &DiffResult<OperationDiff>) -> (b: bool) {
        proof {
            lemma_concat_unit(recorded(self.pointers@));
        }
        pointer.is_updated()
    }

    fn visit_parameters(&mut self, pointer: &PathPointer, d: &DiffResult<VecDiff<MayBeRefDiff<ParameterDiff>>>) -> (b: bool) {
        proof {
            lemma_concat_unit(recorded(self.pointers@));
        }
        pointer.is_updated()
    }

    fn visit_parameter(&mut self, pointer: &PathPointer, d: &DiffResult<ParameterDiff>) -> (b: bool) {
        proof {
            lemma_concat_unit(recorded(self.pointers@));
        }
        pointer.is_updated()
    }

    fn visit_request_body(&mut self, pointer: &PathPointer, d: &DiffResult<RequestBodyDiff>) -> (b: bool) {
        proof {
            lemma_concat_unit(recorded(self.pointers@));
        }
        pointer.is_updated()
    }

    fn visit_responses(&mut self, pointer: &PathPointer, d: &DiffResult<MapDiff<MayBeRefDiff<ResponseDiff>>>) -> (b: bool) {
        proof {
            lemma_concat_unit(recorded(self.pointers@));
        }
        pointer.is_updated()
    }

    fn visit_response(&mut self, pointer: &PathPointer, d: &DiffResult<ResponseDiff>) -> (b: bool) {
        proof {
            lemma_concat_unit(recorded(self.pointers@));
        }
        true
    }

    fn visit_media_types(&mut self, pointer: &PathPointer, d: &DiffResult<MapDiff<MediaTypeDiff>>) -> (b: bool) {
        proof {
            lemma_concat_unit(recorded(self.pointers@));
        }
        pointer.is_updated()
    }

    fn visit_media_type(&mut self, pointer: &PathPointer, d: &DiffResult<MediaTypeDiff>) -> (b: bool) {
        proof {
            lemma_concat_unit(recorded(self.pointers@));
        }
        pointer.is_updated()
    }

    fn visit_schema(&mut self, pointer: &PathPointer, d: &DiffResult<SchemaDiff>) -> (b: bool) {
        proof {
            lemma_concat_unit(recorded(self.pointers@));
        }
        if !pointer.is_updated() {
            return false;
        }
        let schema = match d.get() {
            Option::Some(s) => s,
            Option::None => {
                return false;
            },
        };
        if schema.enum_values.is_updated() {
            let has_removed = match schema.enum_values.get() {
                Option::None => false,
                Option::Some(values) => {
                    let mut found = false;
                    let mut i: usize = 0;
                    while i < values.len()
                        invariant
                            0 <= i <= values@.len(),
                            found == (exists|j: int|
                                0 <= j < i && (#[trigger] values@[j]) is Removed),
                        decreases values@.len() - i,
                    {
                        if values[i].is_removed() {
                            found = true;
                        }
                        i = i + 1;
                    }
                    found
                },
            };
            if has_removed {
                let dp = pointer.duplicate();
                proof {
                                    lemma_recorded_push(self.pointers@, dp);
                                    lemma_push_is_concat(recorded(self.pointers@), dp@);
                                }
                self.pointers.push(dp);
            }
        }
        true
    }

}

impl Default for SchemaEnumValueRemovedCheck {
    fn default() -> (r: Self)
        ensures
            r.pointers@.len() == 0,
    {
        SchemaEnumValueRemovedCheck { pointers: Vec::new() }
    }
}

impl ValidationIssuer for SchemaEnumValueRemovedCheck {
    fn id(&self) -> (r: &'static str)
        ensures
            r@ == "schema-enum-value-removed"@,
    {
        "schema-enum-value-removed"
    }

    fn issues(&mut self) -> (r: Option<Vec<ValidationIssue>>)
        ensures
            r matches Some(v) && v@.len() == old(self).pointers@.len() && (forall|i: int|
                0 <= i < v@.len() ==> (#[trigger] v@[i]).path@ == old(self).pointers@[i]@
                    && v@[i].rule_id@ == "schema-enum-value-removed"@ && v@[i].is_breaking),
            final(self).pointers@.len() == 0,
    {
        let rid = self.id();
        Some(drain_pointers(&mut self.pointers, rid))
    }
}

/// This rule never records an unchanged node: every location it records is
/// added, removed or updated, so a walk over a self-difference leaves it
/// silent.
pub proof fn lemma_schema_enum_value_removed_check_silent()
    ensures
        silent_on_unchanged::<SchemaEnumValueRemovedCheck>(),
{
}

} // verus!
