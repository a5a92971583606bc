//! The rule framework: a rule is a diff-tree visitor that accumulates the
//! locations it matched, and an issue producer that drains them into
//! reported issues once the walk is over.
use vstd::prelude::*;

use crate::path_pointer::PathPointer;

pub mod added_required_body_property_check;
pub mod added_required_parameter_check;
pub mod added_required_request_body_check;
pub mod removed_media_type_check;
pub mod removed_operation_check;
pub mod removed_response_property_check;
pub mod schema_enum_value_removed_check;
pub mod schema_type_changed_check;

verus! {

/// The locations a rule has recorded so far, as segment sequences.
pub open spec fn recorded(pointers: Seq<PathPointer>) -> Seq<
    Seq<(Seq<char>, crate::diff_core::DiffState)>,
> {
    pointers.map_values(|p: PathPointer| p@)
}

/// Recording one more location appends its segment sequence.
pub proof fn lemma_recorded_push(ps: Seq<PathPointer>, p: PathPointer)
    ensures
        recorded(ps.push(p)) == recorded(ps).push(p@),
{
    assert(recorded(ps.push(p)) =~= recorded(ps).push(p@));
}

/// Appending one element is concatenating a one-element sequence.
pub proof fn lemma_push_is_concat<A>(s: Seq<A>, x: A)
    ensures
        s.push(x) == s + seq![x],
{
    assert(s.push(x) =~= s + seq![x]);
}

/// Concatenating nothing changes nothing.
pub proof fn lemma_concat_unit<A>(s: Seq<A>)
    ensures
        s + Seq::<A>::empty() == s,
{
    assert(s + Seq::<A>::empty() =~= s);
}

/// One reported finding: where, which rule, and whether it breaks clients.
#[derive(Debug)]
pub struct ValidationIssue {
    pub path: PathPointer,
    pub rule_id: &'static str,
    pub is_breaking: bool,
}

impl ValidationIssue {
    pub fn new(path: PathPointer, rule_id: &'static str, is_breaking: bool) -> (r:
        ValidationIssue)
        ensures
            r.path == path,
            r.rule_id == rule_id,
            r.is_breaking == is_breaking,
    {
        ValidationIssue { path, rule_id, is_breaking }
    }
}

/// The issue-producing half of a rule: a stable identifier and a drain of
/// the matches accumulated during the walk.  Draining resets the rule, and
/// a rule that found nothing yields an empty list, never an absence.
pub trait ValidationIssuer: Sized {
    fn id(&self) -> &'static str;

    fn issues(&mut self) -> Option<Vec<ValidationIssue>>;
}

/// Turn a batch of recorded locations into issues — one breaking issue per
/// location, in recording order, under the given rule id — leaving the
/// accumulator empty.
pub fn drain_pointers(pointers: &mut Vec<PathPointer>, rule_id: &'static str) -> (r: Vec<
    ValidationIssue,
>)
    ensures
        r@.len() == old(pointers)@.len(),
        final(pointers)@.len() == 0,
        forall|i: int|
            0 <= i < r@.len() ==> (#[trigger] r@[i]).rule_id == rule_id && r@[i].is_breaking
                && r@[i].path@ == old(pointers)@[i]@,
{
    let mut r: Vec<ValidationIssue> = Vec::new();
    let mut i: usize = 0;
    let n = pointers.len();
    while i < n
        invariant
            0 <= i <= n,
            n == pointers@.len(),
            pointers@ == old(pointers)@,
            r@.len() == i,
            forall|q: int|
                0 <= q < i ==> (#[trigger] r@[q]).rule_id == rule_id && r@[q].is_breaking
                    && r@[q].path@ == old(pointers)@[q]@,
        decreases n - i,
    {
        let p = pointers[i].duplicate();
        r.push(ValidationIssue::new(p, rule_id, true));
        i = i + 1;
    }
    pointers.clear();
    r
}

} // verus!
