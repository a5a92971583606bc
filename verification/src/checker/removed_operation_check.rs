use vstd::prelude::*;

use crate::checker::{
    drain_pointers, lemma_concat_unit, lemma_push_is_concat, lemma_recorded_push, recorded,
    ValidationIssue, ValidationIssuer,
};
use crate::diff_core::{DiffResult, MapDiff, VecDiff};
use crate::path_pointer::PathPointer;
use crate::schema_diff::{
    HttpSchemaDiff, MayBeRefDiff, MediaTypeDiff, OperationDiff, ParameterDiff, PathDiff,
    RequestBodyDiff, ResponseDiff, SchemaDiff,
};
use crate::visitor::{silent_on_unchanged, DiffVisitor, PtrView};

verus! {

/// Flags an operation present in the old version and gone from the new
/// one, wherever its path item stands.
pub struct RemovedOperationCheck {
    pub pointers: Vec<PathPointer>,
}

impl DiffVisitor for RemovedOperationCheck {
    open spec fn recorded_view(&self) -> Seq<PtrView> {
        recorded(self.pointers@)
    }

    open spec fn descends_operation(pointer: PtrView, method: Seq<char>, d: DiffResult<OperationDiff>) -> bool {
        false
    }

    open spec fn records_operation(pointer: PtrView, method: Seq<char>, d: DiffResult<OperationDiff>) -> bool {
        d is Removed
    }

    fn visit_document(&mut self, pointer: &PathPointer, d: &DiffResult<HttpSchemaDiff>) -> (b: bool) {
        proof {
            lemma_concat_unit(recorded(self.pointers@));
        }
        true
    }

    fn visit_path(&mut self, pointer: &PathPointer, d: &DiffResult<PathDiff>) -> (b: bool) {
        proof {
            lemma_concat_unit(recorded(self.pointers@));
        }
        true
    }

    fn visit_operation(
        &mut self,
        pointer: &PathPointer,
        method: &str,
        d: &DiffResult<OperationDiff>,
    ) -> (b: bool) {
        proof {
            lemma_concat_unit(recorded(self.pointers@));
        }
        if matches!(d, DiffResult::Removed(_)) {
            let dp = pointer.duplicate();
            proof {
                                    lemma_recorded_push(self.pointers@, dp);
                                    lemma_push_is_concat(recorded(self.pointers@), dp@);
                                }
            self.pointers.push(dp);
        }
        false
    }

    fn visit_parameters(&mut self, pointer: &PathPointer, d: &DiffResult<VecDiff<MayBeRefDiff<ParameterDiff>>>) -> (b: bool) {
        proof {
            lemma_concat_unit(recorded(self.pointers@));
        }
        true
    }

    fn visit_parameter(&mut self, pointer: &PathPointer, d: &DiffResult<ParameterDiff>) -> (b: bool) {
        proof {
            lemma_concat_unit(recorded(self.pointers@));
        }
        true
    }

    fn visit_request_body(&mut self, pointer: &PathPointer, d: &DiffResult<RequestBodyDiff>) -> (b: bool) {
        proof {
            lemma_concat_unit(recorded(self.pointers@));
        }
        true
    }

    fn visit_responses(&mut self, pointer: &PathPointer, d: &DiffResult<MapDiff<MayBeRefDiff<ResponseDiff>>>) -> (b: bool) {
        proof {
            lemma_concat_unit(recorded(self.pointers@));
        }
        true
    }

    fn visit_response(&mut self, pointer: &PathPointer, d: &DiffResult<ResponseDiff>) -> (b: bool) {
        proof {
            lemma_concat_unit(recorded(self.pointers@));
        }
        true
    }

    fn visit_media_types(&mut self, pointer: &PathPointer, d: &DiffResult<MapDiff<MediaTypeDiff>>) -> (b: bool) {
        proof {
            lemma_concat_unit(recorded(self.pointers@));
        }
        true
    }

    fn visit_media_type(&mut self, pointer: &PathPointer, d: &DiffResult<MediaTypeDiff>) -> (b: bool) {
        proof {
            lemma_concat_unit(recorded(self.pointers@));
        }
        true
    }

    fn visit_schema(&mut self, pointer: &PathPointer, d: &DiffResult<SchemaDiff>) -> (b: bool) {
        proof {
            lemma_concat_unit(recorded(self.pointers@));
        }
        true
    }

}

impl Default for RemovedOperationCheck {
    fn default() -> (r: Self)
        ensures
            r.pointers@.len() == 0,
    {
        RemovedOperationCheck { pointers: Vec::new() }
    }
}

impl ValidationIssuer for RemovedOperationCheck {
    fn id(&self) -> (r: &'static str)
        ensures
            r@ == "removed-operation"@,
    {
        "removed-operation"
    }

    fn issues(&mut self) -> (r: Option<Vec<ValidationIssue>>)
        ensures
            r matches Some(v) && v@.len() == old(self).pointers@.len() && (forall|i: int|
                0 <= i < v@.len() ==> (#[trigger] v@[i]).path@ == old(self).pointers@[i]@
                    && v@[i].rule_id@ == "removed-operation"@ && v@[i].is_breaking),
            final(self).pointers@.len() == 0,
    {
        let rid = self.id();
        Some(drain_pointers(&mut self.pointers, rid))
    }
}

/// This rule never records an unchanged node: every location it records is
/// added, removed or updated, so a walk over a self-difference leaves it
/// silent.
pub proof fn lemma_removed_operation_check_silent()
    ensures
        silent_on_unchanged::<RemovedOperationCheck>(),
{
}

} // verus!
