use vstd::prelude::*;

use crate::checker::{
    drain_pointers, lemma_concat_unit, lemma_push_is_concat, lemma_recorded_push, recorded,
    ValidationIssue, ValidationIssuer,
};
use crate::diff_core::{DiffResult, DiffState, MapDiff, VecDiff};
use crate::path_pointer::PathPointer;
use crate::schema_diff::{
    HttpSchemaDiff, MayBeRefDiff, MediaTypeDiff, OperationDiff, ParameterDiff, PathDiff,
    RequestBodyDiff, ResponseDiff, SchemaDiff,
};
use crate::visitor::{silent_on_unchanged, view_at, DiffVisitor, PtrView};

verus! {

/// Flags a schema node removed under the content of a response whose
/// operation still exists.
pub struct RemovedResponsePropertyCheck {
    pub pointers: Vec<PathPointer>,
}

/// Whether the enclosing node of this cursor was observed as removed.
pub open spec fn view_parent_removed(pointer: PtrView) -> bool {
    if pointer.len() > 1 {
        pointer[pointer.len() - 2].1 == DiffState::Removed
    } else {
        pointer.len() > 0 && pointer.last().1 == DiffState::Removed
    }
}

impl DiffVisitor for RemovedResponsePropertyCheck {
    open spec fn recorded_view(&self) -> Seq<PtrView> {
        recorded(self.pointers@)
    }

    open spec fn descends_operation(
        pointer: PtrView,
        method: Seq<char>,
        d: DiffResult<OperationDiff>,
    ) -> bool {
        !view_at(pointer, DiffState::Removed)
    }

    open spec fn descends_responses(pointer: PtrView, d: DiffResult<MapDiff<MayBeRefDiff<ResponseDiff>>>) -> bool {
        !view_at(pointer, DiffState::Removed)
    }

    open spec fn descends_media_types(pointer: PtrView, d: DiffResult<MapDiff<MediaTypeDiff>>) -> bool {
        !view_at(pointer, DiffState::Removed)
    }

    open spec fn descends_media_type(pointer: PtrView, d: DiffResult<MediaTypeDiff>) -> bool {
        !view_at(pointer, DiffState::Removed)
    }

    open spec fn descends_schema(pointer: PtrView, d: DiffResult<SchemaDiff>) -> bool {
        !view_parent_removed(pointer)
    }

    open spec fn records_schema(pointer: PtrView, d: DiffResult<SchemaDiff>) -> bool {
        !view_parent_removed(pointer) && d is Removed
    }

    fn visit_document(&mut self, pointer: &PathPointer, d: &DiffResult<HttpSchemaDiff>) -> (b: bool) {
        proof {
            lemma_concat_unit(recorded(self.pointers@));
        }
        true
    }

    fn visit_path(&mut self, pointer: &PathPointer, d: &DiffResult<PathDiff>) -> (b: bool) {
        proof {
            lemma_concat_unit(recorded(self.pointers@));
        }
        true
    }

    fn visit_operation(&mut self, pointer: &PathPointer, method: &str, d: &DiffResult<OperationDiff>) -> (b: bool) {
        proof {
            lemma_concat_unit(recorded(self.pointers@));
        }
        !pointer.is_removed()
    }

    fn visit_parameters(&mut self, pointer: &PathPointer, d: &DiffResult<VecDiff<MayBeRefDiff<ParameterDiff>>>) -> (b: bool) {
        proof {
            lemma_concat_unit(recorded(self.pointers@));
        }
        true
    }

    fn visit_parameter(&mut self, pointer: &PathPointer, d: &DiffResult<ParameterDiff>) -> (b: bool) {
        proof {
            lemma_concat_unit(recorded(self.pointers@));
        }
        true
    }

    fn visit_request_body(&mut self, pointer: &PathPointer, d: &DiffResult<RequestBodyDiff>) -> (b: bool) {
        proof {
            lemma_concat_unit(recorded(self.pointers@));
        }
        true
    }

    fn visit_responses(&mut self, pointer: &PathPointer, d: &DiffResult<MapDiff<MayBeRefDiff<ResponseDiff>>>) -> (b: bool) {
        proof {
            lemma_concat_unit(recorded(self.pointers@));
        }
        !pointer.is_removed()
    }

    fn visit_response(&mut self, pointer: &PathPointer, d: &DiffResult<ResponseDiff>) -> (b: bool) {
        proof {
            lemma_concat_unit(recorded(self.pointers@));
        }
        true
    }

    fn visit_media_types(&mut self, pointer: &PathPointer, d: &DiffResult<MapDiff<MediaTypeDiff>>) -> (b: bool) {
        proof {
            lemma_concat_unit(recorded(self.pointers@));
        }
        !pointer.is_removed()
    }

    fn visit_media_type(&mut self, pointer: &PathPointer, d: &DiffResult<MediaTypeDiff>) -> (b: bool) {
        proof {
            lemma_concat_unit(recorded(self.pointers@));
        }
        !pointer.is_removed()
    }

    fn visit_schema(&mut self, pointer: &PathPointer, d: &DiffResult<SchemaDiff>) -> (b: bool) {
        proof {
            lemma_concat_unit(recorded(self.pointers@));
        }
        let parent = pointer.parent();
        if parent.is_removed() {
            return false;
        }
        if matches!(d, DiffResult::Removed(_)) {
            let dp = pointer.duplicate();
            proof {
                                    lemma_recorded_push(self.pointers@, dp);
                                    lemma_push_is_concat(recorded(self.pointers@), dp@);
                                }
            self.pointers.push(dp);
        }
        true
    }

}

impl Default for RemovedResponsePropertyCheck {
    fn default() -> (r: Self)
        ensures
            r.pointers@.len() == 0,
    {
        RemovedResponsePropertyCheck { pointers: Vec::new() }
    }
}

impl ValidationIssuer for RemovedResponsePropertyCheck {
    fn id(&self) -> (r: &'static str)
        ensures
            r@ == "remove-response-property"@,
    {
        "remove-response-property"
    }

    fn issues(&mut self) -> (r: Option<Vec<ValidationIssue>>)
        ensures
            r matches Some(v) && v@.len() == old(self).pointers@.len() && (forall|i: int|
                0 <= i < v@.len() ==> (#[trigger] v@[i]).path@ == old(self).pointers@[i]@
                    && v@[i].rule_id@ == "remove-response-property"@ && v@[i].is_breaking),
            final(self).pointers@.len() == 0,
    {
        let rid = self.id();
        Some(drain_pointers(&mut self.pointers, rid))
    }
}

/// This rule never records an unchanged node: every location it records is
/// added, removed or updated, so a walk over a self-difference leaves it
/// silent.
pub proof fn lemma_removed_response_property_check_silent()
    ensures
        silent_on_unchanged::<RemovedResponsePropertyCheck>(),
{
}

} // verus!
