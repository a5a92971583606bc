use vstd::prelude::*;

use crate::checker::{
    drain_pointers, lemma_concat_unit, lemma_push_is_concat, lemma_recorded_push, recorded,
    ValidationIssue, ValidationIssuer,
};
use crate::diff_core::{DiffResult, DiffState, MapDiff, VecDiff};
use crate::path_pointer::PathPointer;
use crate::schema_diff::{
    HttpSchemaDiff, MayBeRefDiff, MediaTypeDiff, OperationDiff, ParameterDiff, PathDiff,
    RequestBodyDiff, ResponseDiff, SchemaDiff,
};
use crate::visitor::{silent_on_unchanged, view_at, DiffVisitor, PtrView};

verus! {

/// Flags a media type offered by the old version and withdrawn by the new
/// one, under an operation that itself was updated rather than removed.
pub struct RemovedMediaTypeCheck {
    pub pointers: Vec<PathPointer>,
}

impl DiffVisitor for RemovedMediaTypeCheck {
    open spec fn recorded_view(&self) -> Seq<PtrView> {
        recorded(self.pointers@)
    }

    open spec fn descends_operation(pointer: PtrView, method: Seq<char>, d: DiffResult<OperationDiff>) -> bool {
        view_at(pointer, DiffState::Updated)
    }

    open spec fn descends_request_body(pointer: PtrView, d: DiffResult<RequestBodyDiff>) -> bool {
        view_at(pointer, DiffState::Updated)
    }

    open spec fn descends_responses(pointer: PtrView, d: DiffResult<MapDiff<MayBeRefDiff<ResponseDiff>>>) -> bool {
        view_at(pointer, DiffState::Updated)
    }

    open spec fn descends_media_type(pointer: PtrView, d: DiffResult<MediaTypeDiff>) -> bool {
        false
    }

    open spec fn records_media_type(pointer: PtrView, d: DiffResult<MediaTypeDiff>) -> bool {
        view_at(pointer, DiffState::Removed)
    }

    fn visit_document(&mut self, pointer: &PathPointer, d: &DiffResult<HttpSchemaDiff>) -> (b: bool) {
        proof {
            lemma_concat_unit(recorded(self.pointers@));
        }
        true
    }

    fn visit_path(&mut self, pointer: &PathPointer, d: &DiffResult<PathDiff>) -> (b: bool) {
        proof {
            lemma_concat_unit(recorded(self.pointers@));
        }
        true
    }

    fn visit_operation(&mut self, pointer: &PathPointer, method: &str, d: &DiffResult<OperationDiff>) -> (b: bool) {
        proof {
            lemma_concat_unit(recorded(self.pointers@));
        }
        pointer.is_updated()
    }

    fn visit_parameters(&mut self, pointer: &PathPointer, d: &DiffResult<VecDiff<MayBeRefDiff<ParameterDiff>>>) -> (b: bool) {
        proof {
            lemma_concat_unit(recorded(self.pointers@));
        }
        true
    }

    fn visit_parameter(&mut self, pointer: &PathPointer, d: &DiffResult<ParameterDiff>) -> (b: bool) {
        proof {
            lemma_concat_unit(recorded(self.pointers@));
        }
        true
    }

    fn visit_request_body(&mut self, pointer: &PathPointer, d: &DiffResult<RequestBodyDiff>) -> (b: bool) {
        proof {
            lemma_concat_unit(recorded(self.pointers@));
        }
        pointer.is_updated()
    }

    fn visit_responses(&mut self, pointer: &PathPointer, d: &DiffResult<MapDiff<MayBeRefDiff<ResponseDiff>>>) -> (b: bool) {
        proof {
            lemma_concat_unit(recorded(self.pointers@));
        }
        pointer.is_updated()
    }

    fn visit_response(&mut self, pointer: &PathPointer, d: &DiffResult<ResponseDiff>) -> (b: bool) {
        proof {
            lemma_concat_unit(recorded(self.pointers@));
        }
        true
    }

    fn visit_media_types(&mut self, pointer: &PathPointer, d: &DiffResult<MapDiff<MediaTypeDiff>>) -> (b: bool) {
        proof {
            lemma_concat_unit(recorded(self.pointers@));
        }
        true
    }

    fn visit_media_type(&mut self, pointer: &PathPointer, d: &DiffResult<MediaTypeDiff>) -> (b:
        bool) {
        proof {
            lemma_concat_unit(recorded(self.pointers@));
        }
        if pointer.is_removed() {
            let dp = pointer.duplicate();
            proof {
                                    lemma_recorded_push(self.pointers@, dp);
                                    lemma_push_is_concat(recorded(self.pointers@), dp@);
                                }
            self.pointers.push(dp);
            return false;
        }
        false
    }

    fn visit_schema(&mut self, pointer: &PathPointer, d: &DiffResult<SchemaDiff>) -> (b: bool) {
        proof {
            lemma_concat_unit(recorded(self.pointers@));
        }
        true
    }

}

impl Default for RemovedMediaTypeCheck {
    fn default() -> (r: Self)
        ensures
            r.pointers@.len() == 0,
    {
        RemovedMediaTypeCheck { pointers: Vec::new() }
    }
}

impl ValidationIssuer for RemovedMediaTypeCheck {
    fn id(&self) -> (r: &'static str)
        ensures
            r@ == "removed-media-type-check"@,
    {
        "removed-media-type-check"
    }

    fn issues(&mut self) -> (r: Option<Vec<ValidationIssue>>)
        ensures
            r matches Some(v) && v@.len() == old(self).pointers@.len() && (forall|i: int|
                0 <= i < v@.len() ==> (#[trigger] v@[i]).path@ == old(self).pointers@[i]@
                    && v@[i].rule_id@ == "removed-media-type-check"@ && v@[i].is_breaking),
            final(self).pointers@.len() == 0,
    {
        let rid = self.id();
        Some(drain_pointers(&mut self.pointers, rid))
    }
}

/// This rule never records an unchanged node: every location it records is
/// added, removed or updated, so a walk over a self-difference leaves it
/// silent.
pub proof fn lemma_removed_media_type_check_silent()
    ensures
        silent_on_unchanged::<RemovedMediaTypeCheck>(),
{
}

} // verus!
