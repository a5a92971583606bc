//! The dispatch engine: one read-only walk of a document difference tree,
//! offering every node to a rule through the hook for its node kind.
//!
//! A rule's behaviour is specified by its decision functions: for each node
//! kind, whether the rule descends below such a node and whether it records
//! the node's cursor.  Every hook is bound to them, and the walk itself is
//! specified by `trace_document`, the exact sequence of cursors a rule
//! records over one walk; `dispatch_visitor` promises to append precisely
//! that sequence to the rule's findings.
use vstd::prelude::*;

use crate::diff_core::{DiffResult, DiffState, MapDiff, VecDiff};
use crate::path_pointer::PathPointer;
use crate::schema_diff::{
    HttpSchemaDiff, MayBeRefDiff, MediaTypeDiff, OperationDiff, ParameterDiff, PathDiff,
    RequestBodyDiff, ResponseDiff, SchemaDiff,
};
use vstd::string::StringExecFns;

verus! {

broadcast use vstd::std_specs::vec::group_vec_axioms;

/// The view of a cursor: its segment sequence.
pub type PtrView = Seq<(Seq<char>, DiffState)>;

/// The cursor view points at a node observed in the given change state.
pub open spec fn view_at(v: PtrView, s: DiffState) -> bool {
    v.len() > 0 && v.last().1 == s
}

/// The cursor view points at an added or updated node.
pub open spec fn view_upserted(v: PtrView) -> bool {
    view_at(v, DiffState::Added) || view_at(v, DiffState::Updated)
}

/// The view of a child cursor.
pub open spec fn view_child(v: PtrView, key: Seq<char>, s: DiffState) -> PtrView {
    v.push((key, s))
}

/// The cursor recorded by one hook invocation: the offered cursor where the
/// rule's record decision holds, nothing otherwise.
pub open spec fn rec_if(c: bool, p: PtrView) -> Seq<PtrView> {
    if c {
        seq![p]
    } else {
        Seq::empty()
    }
}

/// A rule's view of the walk: one hook per node kind.  Each hook must
/// return its type's descend decision for that node kind and record the
/// offered cursor exactly where its type's record decision holds — a rule
/// overrides only the decision functions it cares about, descending and
/// recording nothing by default.
pub trait DiffVisitor: Sized {
    /// The locations this rule has recorded so far.
    spec fn recorded_view(&self) -> Seq<PtrView>;

    open spec fn descends_document(pointer: PtrView, d: DiffResult<HttpSchemaDiff>) -> bool {
        true
    }

    open spec fn records_document(pointer: PtrView, d: DiffResult<HttpSchemaDiff>) -> bool {
        false
    }

    open spec fn descends_path(pointer: PtrView, d: DiffResult<PathDiff>) -> bool {
        true
    }

    open spec fn records_path(pointer: PtrView, d: DiffResult<PathDiff>) -> bool {
        false
    }

    open spec fn descends_operation(
        pointer: PtrView,
        method: Seq<char>,
        d: DiffResult<OperationDiff>,
    ) -> bool {
        true
    }

    open spec fn records_operation(
        pointer: PtrView,
        method: Seq<char>,
        d: DiffResult<OperationDiff>,
    ) -> bool {
        false
    }

    open spec fn descends_parameters(
        pointer: PtrView,
        d: DiffResult<VecDiff<MayBeRefDiff<ParameterDiff>>>,
    ) -> bool {
        true
    }

    open spec fn records_parameters(
        pointer: PtrView,
        d: DiffResult<VecDiff<MayBeRefDiff<ParameterDiff>>>,
    ) -> bool {
        false
    }

    open spec fn descends_parameter(pointer: PtrView, d: DiffResult<ParameterDiff>) -> bool {
        true
    }

    open spec fn records_parameter(pointer: PtrView, d: DiffResult<ParameterDiff>) -> bool {
        false
    }

    open spec fn descends_request_body(pointer: PtrView, d: DiffResult<RequestBodyDiff>) -> bool {
        true
    }

    open spec fn records_request_body(pointer: PtrView, d: DiffResult<RequestBodyDiff>) -> bool {
        false
    }

    open spec fn descends_responses(
        pointer: PtrView,
        d: DiffResult<MapDiff<MayBeRefDiff<ResponseDiff>>>,
    ) -> bool {
        true
    }

    open spec fn records_responses(
        pointer: PtrView,
        d: DiffResult<MapDiff<MayBeRefDiff<ResponseDiff>>>,
    ) -> bool {
        false
    }

    open spec fn descends_response(pointer: PtrView, d: DiffResult<ResponseDiff>) -> bool {
        true
    }

    open spec fn records_response(pointer: PtrView, d: DiffResult<ResponseDiff>) -> bool {
        false
    }

    open spec fn descends_media_types(
        pointer: PtrView,
        d: DiffResult<MapDiff<MediaTypeDiff>>,
    ) -> bool {
        true
    }

    open spec fn records_media_types(
        pointer: PtrView,
        d: DiffResult<MapDiff<MediaTypeDiff>>,
    ) -> bool {
        false
    }

    open spec fn descends_media_type(pointer: PtrView, d: DiffResult<MediaTypeDiff>) -> bool {
        true
    }

    open spec fn records_media_type(pointer: PtrView, d: DiffResult<MediaTypeDiff>) -> bool {
        false
    }

    open spec fn descends_schema(pointer: PtrView, d: DiffResult<SchemaDiff>) -> bool {
        true
    }

    open spec fn records_schema(pointer: PtrView, d: DiffResult<SchemaDiff>) -> bool {
        false
    }

    fn visit_document(&mut self, pointer: &PathPointer, d: &DiffResult<HttpSchemaDiff>) -> (b:
        bool)
        ensures
            b == Self::descends_document(pointer@, *d),
            final(self).recorded_view() == old(self).recorded_view() + rec_if(
                Self::records_document(pointer@, *d),
                pointer@,
            ),
    ;

    fn visit_path(&mut self, pointer: &PathPointer, d: &DiffResult<PathDiff>) -> (b: bool)
        ensures
            b == Self::descends_path(pointer@, *d),
            final(self).recorded_view() == old(self).recorded_view() + rec_if(
                Self::records_path(pointer@, *d),
                pointer@,
            ),
    ;

    fn visit_operation(
        &mut self,
        pointer: &PathPointer,
        method: &str,
        d: &DiffResult<OperationDiff>,
    ) -> (b: bool)
        ensures
            b == Self::descends_operation(pointer@, method@, *d),
            final(self).recorded_view() == old(self).recorded_view() + rec_if(
                Self::records_operation(pointer@, method@, *d),
                pointer@,
            ),
    ;

    fn visit_parameters(
        &mut self,
        pointer: &PathPointer,
        d: &DiffResult<VecDiff<MayBeRefDiff<ParameterDiff>>>,
    ) -> (b: bool)
        ensures
            b == Self::descends_parameters(pointer@, *d),
            final(self).recorded_view() == old(self).recorded_view() + rec_if(
                Self::records_parameters(pointer@, *d),
                pointer@,
            ),
    ;

    fn visit_parameter(&mut self, pointer: &PathPointer, d: &DiffResult<ParameterDiff>) -> (b:
        bool)
        ensures
            b == Self::descends_parameter(pointer@, *d),
            final(self).recorded_view() == old(self).recorded_view() + rec_if(
                Self::records_parameter(pointer@, *d),
                pointer@,
            ),
    ;

    fn visit_request_body(&mut self, pointer: &PathPointer, d: &DiffResult<RequestBodyDiff>) -> (b:
        bool)
        ensures
            b == Self::descends_request_body(pointer@, *d),
            final(self).recorded_view() == old(self).recorded_view() + rec_if(
                Self::records_request_body(pointer@, *d),
                pointer@,
            ),
    ;

    fn visit_responses(
        &mut self,
        pointer: &PathPointer,
        d: &DiffResult<MapDiff<MayBeRefDiff<ResponseDiff>>>,
    ) -> (b: bool)
        ensures
            b == Self::descends_responses(pointer@, *d),
            final(self).recorded_view() == old(self).recorded_view() + rec_if(
                Self::records_responses(pointer@, *d),
                pointer@,
            ),
    ;

    fn visit_response(&mut self, pointer: &PathPointer, d: &DiffResult<ResponseDiff>) -> (b: bool)
        ensures
            b == Self::descends_response(pointer@, *d),
            final(self).recorded_view() == old(self).recorded_view() + rec_if(
                Self::records_response(pointer@, *d),
                pointer@,
            ),
    ;

    fn visit_media_types(
        &mut self,
        pointer: &PathPointer,
        d: &DiffResult<MapDiff<MediaTypeDiff>>,
    ) -> (b: bool)
        ensures
            b == Self::descends_media_types(pointer@, *d),
            final(self).recorded_view() == old(self).recorded_view() + rec_if(
                Self::records_media_types(pointer@, *d),
                pointer@,
            ),
    ;

    fn visit_media_type(&mut self, pointer: &PathPointer, d: &DiffResult<MediaTypeDiff>) -> (b:
        bool)
        ensures
            b == Self::descends_media_type(pointer@, *d),
            final(self).recorded_view() == old(self).recorded_view() + rec_if(
                Self::records_media_type(pointer@, *d),
                pointer@,
            ),
    ;

    fn visit_schema(&mut self, pointer: &PathPointer, d: &DiffResult<SchemaDiff>) -> (b: bool)
        ensures
            b == Self::descends_schema(pointer@, *d),
            final(self).recorded_view() == old(self).recorded_view() + rec_if(
                Self::records_schema(pointer@, *d),
                pointer@,
            ),
    ;
}

// ---------------------------------------------------------------------------
// The walk, as a specification: the exact cursor sequence one rule records.
// ---------------------------------------------------------------------------
/// The discriminant a parameter node is addressed by: its name where the
/// diff carries one, a synthetic stand-in otherwise.
pub open spec fn param_seg_name(pd: DiffResult<ParameterDiff>) -> Seq<char> {
    if pd is Absent {
        "parameter"@
    } else if pd.payload().name is Absent {
        "parameter"@
    } else {
        pd.payload().name.payload()@
    }
}

/// What a rule records over one schema node and everything below it.
pub open spec fn trace_schema_node<V: DiffVisitor>(
    d: DiffResult<MayBeRefDiff<SchemaDiff>>,
    ptr: PtrView,
) -> Seq<PtrView>
    decreases d, 1int, 0nat,
{
    match d {
        DiffResult::Absent => Seq::empty(),
        DiffResult::Same(p) => trace_mrs::<V>(p, ptr),
        DiffResult::Added(p) => trace_mrs::<V>(p, ptr),
        DiffResult::Removed(p) => trace_mrs::<V>(p, ptr),
        DiffResult::Updated(p) => trace_mrs::<V>(p, ptr),
    }
}

pub open spec fn trace_mrs<V: DiffVisitor>(p: MayBeRefDiff<SchemaDiff>, ptr: PtrView) -> Seq<
    PtrView,
>
    decreases p, 1int, 0nat,
{
    match p {
        MayBeRefDiff::Ref(_) => Seq::empty(),
        MayBeRefDiff::Value(sdr) => rec_if(V::records_schema(ptr, sdr), ptr) + if !V::descends_schema(
            ptr,
            sdr,
        ) {
            Seq::empty()
        } else {
            match sdr {
                DiffResult::Absent => Seq::empty(),
                DiffResult::Same(s) => trace_schema_body::<V>(s, ptr),
                DiffResult::Added(s) => trace_schema_body::<V>(s, ptr),
                DiffResult::Removed(s) => trace_schema_body::<V>(s, ptr),
                DiffResult::Updated(s) => trace_schema_body::<V>(s, ptr),
            }
        },
    }
}

pub open spec fn trace_schema_body<V: DiffVisitor>(s: SchemaDiff, ptr: PtrView) -> Seq<PtrView>
    decreases s, 1int, 0nat,
{
    trace_props_of::<V>(s.properties, ptr) + trace_sitems::<V>(s.items@, ptr, s.items@.len())
        + trace_slist_of::<V>(
        s.all_of,
        ptr,
        "allOf"@,
    ) + trace_slist_of::<V>(s.one_of, ptr, "oneOf"@) + trace_slist_of::<V>(
        s.any_of,
        ptr,
        "anyOf"@,
    ) + trace_slist_of::<V>(s.not, ptr, "not"@)
}

pub open spec fn trace_props_of<V: DiffVisitor>(
    d: DiffResult<MapDiff<MayBeRefDiff<SchemaDiff>>>,
    ptr: PtrView,
) -> Seq<PtrView>
    decreases d, 1int, 0nat,
{
    match d {
        DiffResult::Absent => Seq::empty(),
        DiffResult::Same(m) => trace_sprops::<V>(
            m@,
            view_child(ptr, "properties"@, d.state()),
            m@.len(),
        ),
        DiffResult::Added(m) => trace_sprops::<V>(
            m@,
            view_child(ptr, "properties"@, d.state()),
            m@.len(),
        ),
        DiffResult::Removed(m) => trace_sprops::<V>(
            m@,
            view_child(ptr, "properties"@, d.state()),
            m@.len(),
        ),
        DiffResult::Updated(m) => trace_sprops::<V>(
            m@,
            view_child(ptr, "properties"@, d.state()),
            m@.len(),
        ),
    }
}

pub open spec fn trace_sprops<V: DiffVisitor>(
    m: Seq<(String, DiffResult<MayBeRefDiff<SchemaDiff>>)>,
    pptr: PtrView,
    n: nat,
) -> Seq<PtrView>
    decreases m, 0int, n,
{
    if n == 0 || n > m.len() {
        Seq::empty()
    } else {
        trace_sprops::<V>(m, pptr, (n - 1) as nat) + trace_schema_node::<V>(
            m[n - 1].1,
            view_child(pptr, m[n - 1].0@, m[n - 1].1.state()),
        )
    }
}

pub open spec fn trace_sitems<V: DiffVisitor>(
    v: Seq<DiffResult<MayBeRefDiff<SchemaDiff>>>,
    ptr: PtrView,
    n: nat,
) -> Seq<PtrView>
    decreases v, 0int, n,
{
    if n == 0 || n > v.len() {
        Seq::empty()
    } else {
        trace_sitems::<V>(v, ptr, (n - 1) as nat) + trace_schema_node::<V>(
            v[n - 1],
            view_child(ptr, "items"@, v[n - 1].state()),
        )
    }
}

pub open spec fn trace_slist_of<V: DiffVisitor>(
    d: DiffResult<VecDiff<MayBeRefDiff<SchemaDiff>>>,
    ptr: PtrView,
    label: Seq<char>,
) -> Seq<PtrView>
    decreases d, 1int, 0nat,
{
    match d {
        DiffResult::Absent => Seq::empty(),
        DiffResult::Same(r) => trace_slist::<V>(r@, ptr, label, r@.len()),
        DiffResult::Added(r) => trace_slist::<V>(r@, ptr, label, r@.len()),
        DiffResult::Removed(r) => trace_slist::<V>(r@, ptr, label, r@.len()),
        DiffResult::Updated(r) => trace_slist::<V>(r@, ptr, label, r@.len()),
    }
}

pub open spec fn trace_slist<V: DiffVisitor>(
    r: Seq<DiffResult<MayBeRefDiff<SchemaDiff>>>,
    ptr: PtrView,
    label: Seq<char>,
    n: nat,
) -> Seq<PtrView>
    decreases r, 0int, n,
{
    if n == 0 || n > r.len() {
        Seq::empty()
    } else {
        trace_slist::<V>(r, ptr, label, (n - 1) as nat) + trace_schema_node::<V>(
            r[n - 1],
            view_child(ptr, label, r[n - 1].state()),
        )
    }
}

/// What a rule records over a media-type collection node and below it.
pub open spec fn trace_media_types<V: DiffVisitor>(
    content: DiffResult<MapDiff<MediaTypeDiff>>,
    parent: PtrView,
) -> Seq<PtrView> {
    let cptr = view_child(parent, "content"@, content.state());
    rec_if(V::records_media_types(cptr, content), cptr) + if !V::descends_media_types(
        cptr,
        content,
    ) {
        Seq::empty()
    } else {
        match content {
            DiffResult::Absent => Seq::empty(),
            DiffResult::Same(m) => trace_mt_entries::<V>(m@, cptr, m@.len()),
            DiffResult::Added(m) => trace_mt_entries::<V>(m@, cptr, m@.len()),
            DiffResult::Removed(m) => trace_mt_entries::<V>(m@, cptr, m@.len()),
            DiffResult::Updated(m) => trace_mt_entries::<V>(m@, cptr, m@.len()),
        }
    }
}

pub open spec fn trace_mt_entries<V: DiffVisitor>(
    m: Seq<(String, DiffResult<MediaTypeDiff>)>,
    cptr: PtrView,
    n: nat,
) -> Seq<PtrView>
    decreases n,
{
    if n == 0 || n > m.len() {
        Seq::empty()
    } else {
        let mptr = view_child(cptr, m[n - 1].0@, m[n - 1].1.state());
        trace_mt_entries::<V>(m, cptr, (n - 1) as nat) + rec_if(
            V::records_media_type(mptr, m[n - 1].1),
            mptr,
        ) + if !V::descends_media_type(mptr, m[n - 1].1) {
            Seq::empty()
        } else if m[n - 1].1 is Absent {
            Seq::empty()
        } else {
            trace_schema_node::<V>(
                m[n - 1].1.payload().schema,
                view_child(mptr, "schema"@, m[n - 1].1.payload().schema.state()),
            )
        }
    }
}

/// What a rule records over a parameter collection node and below it.
pub open spec fn trace_parameters<V: DiffVisitor>(
    params: DiffResult<VecDiff<MayBeRefDiff<ParameterDiff>>>,
    parent: PtrView,
) -> Seq<PtrView> {
    if params is Absent {
        Seq::empty()
    } else {
        let pptr = view_child(parent, "parameters"@, params.state());
        rec_if(V::records_parameters(pptr, params), pptr) + if !V::descends_parameters(
            pptr,
            params,
        ) {
            Seq::empty()
        } else {
            trace_param_entries::<V>(params.payload()@, pptr, params.payload()@.len())
        }
    }
}

pub open spec fn trace_param_entries<V: DiffVisitor>(
    list: Seq<DiffResult<MayBeRefDiff<ParameterDiff>>>,
    pptr: PtrView,
    n: nat,
) -> Seq<PtrView>
    decreases n,
{
    if n == 0 || n > list.len() {
        Seq::empty()
    } else {
        trace_param_entries::<V>(list, pptr, (n - 1) as nat) + (match list[n - 1] {
            DiffResult::Absent => Seq::empty(),
            _ => match list[n - 1].payload() {
                MayBeRefDiff::Ref(_) => Seq::empty(),
                MayBeRefDiff::Value(pd) => {
                    let iptr = view_child(pptr, param_seg_name(pd), list[n - 1].state());
                    rec_if(V::records_parameter(iptr, pd), iptr) + if !V::descends_parameter(
                        iptr,
                        pd,
                    ) {
                        Seq::empty()
                    } else if pd is Absent {
                        Seq::empty()
                    } else {
                        trace_schema_node::<V>(
                            pd.payload().schema,
                            view_child(iptr, "schema"@, pd.payload().schema.state()),
                        )
                    }
                },
            },
        })
    }
}

/// What a rule records over an operation's request body node and below it.
pub open spec fn trace_rb_of<V: DiffVisitor>(
    d: DiffResult<MayBeRefDiff<RequestBodyDiff>>,
    optr: PtrView,
) -> Seq<PtrView> {
    match d {
        DiffResult::Absent => Seq::empty(),
        _ => match d.payload() {
            MayBeRefDiff::Ref(_) => Seq::empty(),
            MayBeRefDiff::Value(rbd) => {
                let rptr = view_child(optr, "requestBody"@, d.state());
                rec_if(V::records_request_body(rptr, rbd), rptr) + if !V::descends_request_body(
                    rptr,
                    rbd,
                ) {
                    Seq::empty()
                } else if rbd is Absent {
                    Seq::empty()
                } else {
                    trace_media_types::<V>(rbd.payload().content, rptr)
                }
            },
        },
    }
}

/// What a rule records over an operation's response collection and below it.
pub open spec fn trace_rs_of<V: DiffVisitor>(
    d: DiffResult<MapDiff<MayBeRefDiff<ResponseDiff>>>,
    optr: PtrView,
) -> Seq<PtrView> {
    match d {
        DiffResult::Absent => Seq::empty(),
        _ => {
            let rsptr = view_child(optr, "responses"@, d.state());
            rec_if(V::records_responses(rsptr, d), rsptr) + if !V::descends_responses(rsptr, d) {
                Seq::empty()
            } else {
                trace_resp_entries::<V>(d.payload()@, rsptr, d.payload()@.len())
            }
        },
    }
}

/// What a rule records over one operation node and everything below it.
pub open spec fn trace_operation<V: DiffVisitor>(
    od: DiffResult<OperationDiff>,
    method: Seq<char>,
    parent: PtrView,
) -> Seq<PtrView> {
    if od is Absent {
        Seq::empty()
    } else {
        let optr = view_child(parent, method, od.state());
        rec_if(V::records_operation(optr, method, od), optr) + if !V::descends_operation(
            optr,
            method,
            od,
        ) {
            Seq::empty()
        } else {
            let o = od.payload();
            trace_parameters::<V>(o.parameters, optr) + trace_rb_of::<V>(o.request_body, optr)
                + trace_rs_of::<V>(o.responses, optr)
        }
    }
}

pub open spec fn trace_resp_entries<V: DiffVisitor>(
    m: Seq<(String, DiffResult<MayBeRefDiff<ResponseDiff>>)>,
    rsptr: PtrView,
    n: nat,
) -> Seq<PtrView>
    decreases n,
{
    if n == 0 || n > m.len() {
        Seq::empty()
    } else {
        trace_resp_entries::<V>(m, rsptr, (n - 1) as nat) + (match m[n - 1].1 {
            DiffResult::Absent => Seq::empty(),
            _ => match m[n - 1].1.payload() {
                MayBeRefDiff::Ref(_) => Seq::empty(),
                MayBeRefDiff::Value(respd) => {
                    let cptr = view_child(rsptr, m[n - 1].0@, m[n - 1].1.state());
                    rec_if(V::records_response(cptr, respd), cptr) + if !V::descends_response(
                        cptr,
                        respd,
                    ) {
                        Seq::empty()
                    } else if respd is Absent {
                        Seq::empty()
                    } else {
                        trace_media_types::<V>(respd.payload().content, cptr)
                    }
                },
            },
        })
    }
}

/// What a rule records over one path item node and everything below it.
pub open spec fn trace_path<V: DiffVisitor>(inner: DiffResult<PathDiff>, pptr: PtrView) -> Seq<
    PtrView,
> {
    rec_if(V::records_path(pptr, inner), pptr) + if !V::descends_path(pptr, inner) {
        Seq::empty()
    } else if inner is Absent {
        Seq::empty()
    } else {
        let pi = inner.payload();
        trace_operation::<V>(pi.get, "get"@, pptr) + trace_operation::<V>(pi.put, "put"@, pptr)
            + trace_operation::<V>(pi.post, "post"@, pptr) + trace_operation::<V>(
            pi.delete,
            "delete"@,
            pptr,
        ) + trace_operation::<V>(pi.options, "options"@, pptr) + trace_operation::<V>(
            pi.head,
            "head"@,
            pptr,
        ) + trace_operation::<V>(pi.patch, "patch"@, pptr) + trace_operation::<V>(
            pi.trace,
            "trace"@,
            pptr,
        ) + trace_parameters::<V>(pi.parameters, pptr)
    }
}

pub open spec fn trace_paths_entries<V: DiffVisitor>(
    paths: Seq<(String, DiffResult<MayBeRefDiff<PathDiff>>)>,
    paths_ptr: PtrView,
    n: nat,
) -> Seq<PtrView>
    decreases n,
{
    if n == 0 || n > paths.len() {
        Seq::empty()
    } else {
        trace_paths_entries::<V>(paths, paths_ptr, (n - 1) as nat) + (match paths[n - 1].1 {
            DiffResult::Absent => Seq::empty(),
            _ => match paths[n - 1].1.payload() {
                MayBeRefDiff::Ref(_) => Seq::empty(),
                MayBeRefDiff::Value(pd) => trace_path::<V>(
                    pd,
                    view_child(paths_ptr, paths[n - 1].0@, paths[n - 1].1.state()),
                ),
            },
        })
    }
}

/// The root cursor of a walk.
pub open spec fn root_view(root: DiffResult<HttpSchemaDiff>) -> PtrView {
    seq![(Seq::<char>::empty(), root.state())]
}

/// The exact cursor sequence one rule records over one whole walk.
pub open spec fn trace_document<V: DiffVisitor>(root: DiffResult<HttpSchemaDiff>) -> Seq<PtrView> {
    let rptr = root_view(root);
    rec_if(V::records_document(rptr, root), rptr) + if !V::descends_document(rptr, root) {
        Seq::empty()
    } else if root is Absent {
        Seq::empty()
    } else {
        let doc = root.payload();
        match doc.paths {
            DiffResult::Absent => Seq::empty(),
            _ => trace_paths_entries::<V>(
                doc.paths.payload()@,
                view_child(rptr, "paths"@, doc.paths.state()),
                doc.paths.payload()@.len(),
            ),
        }
    }
}

// ---------------------------------------------------------------------------
// Sequence bookkeeping for the walk proofs.
// ---------------------------------------------------------------------------
proof fn lemma_concat_assoc<A>(a: Seq<A>, b: Seq<A>, c: Seq<A>)
    ensures
        (a + b) + c == a + (b + c),
{
    assert((a + b) + c =~= a + (b + c));
}

proof fn lemma_concat_empty<A>(a: Seq<A>)
    ensures
        a + Seq::<A>::empty() == a,
{
    assert(a + Seq::<A>::empty() =~= a);
}

// ---------------------------------------------------------------------------
// The walk itself.
// ---------------------------------------------------------------------------
fn state_of<T>(d: &DiffResult<T>) -> (s: DiffState)
    ensures
        s == d.state(),
{
    match d {
        DiffResult::Absent => DiffState::Absent,
        DiffResult::Same(_) => DiffState::Same,
        DiffResult::Added(_) => DiffState::Added,
        DiffResult::Removed(_) => DiffState::Removed,
        DiffResult::Updated(_) => DiffState::Updated,
    }
}

/// Walk a schema node and, through its containment and composition edges,
/// every schema node below it.
fn walk_schema_node<V: DiffVisitor>(
    d: &DiffResult<MayBeRefDiff<SchemaDiff>>,
    pointer: &PathPointer,
    visitor: &mut V,
)
    ensures
        final(visitor).recorded_view() == old(visitor).recorded_view() + trace_schema_node::<V>(
            *d,
            pointer@,
        ),
    decreases *d, 0int,
{
    let inner = match d {
        DiffResult::Absent => {
            proof {
                assert(visitor.recorded_view() =~= old(visitor).recorded_view()
                    + trace_schema_node::<V>(*d, pointer@));
            }
            return ;
        },
        DiffResult::Same(p) => p,
        DiffResult::Added(p) => p,
        DiffResult::Removed(p) => p,
        DiffResult::Updated(p) => p,
    };
    proof {
        assert(decreases_to!(*d => *inner));
        assert(trace_schema_node::<V>(*d, pointer@) == trace_mrs::<V>(*inner, pointer@));
    }
    let sdr = match inner {
        MayBeRefDiff::Ref(_) => {
            proof {
                assert(visitor.recorded_view() =~= old(visitor).recorded_view()
                    + trace_schema_node::<V>(*d, pointer@));
            }
            return ;
        },
        MayBeRefDiff::Value(sdr) => sdr,
    };
    proof {
        assert(decreases_to!(*inner => *sdr));
    }
    let keep = visitor.visit_schema(pointer, sdr);
    if !keep {
        proof {
            assert(visitor.recorded_view() =~= old(visitor).recorded_view()
                + trace_schema_node::<V>(*d, pointer@));
        }
        return ;
    }
    let s = match sdr {
        DiffResult::Absent => {
            proof {
                assert(visitor.recorded_view() =~= old(visitor).recorded_view()
                    + trace_schema_node::<V>(*d, pointer@));
            }
            return ;
        },
        DiffResult::Same(p) => p,
        DiffResult::Added(p) => p,
        DiffResult::Removed(p) => p,
        DiffResult::Updated(p) => p,
    };
    proof {
        assert(decreases_to!(*sdr => *s));
    }
    walk_schema_body(s, pointer, visitor);
    proof {
        assert(visitor.recorded_view() =~= old(visitor).recorded_view() + trace_schema_node::<V>(
            *d,
            pointer@,
        ));
    }
}

/// Walk the containment and composition edges of one schema node.
fn walk_schema_body<V: DiffVisitor>(s: &SchemaDiff, pointer: &PathPointer, visitor: &mut V)
    ensures
        final(visitor).recorded_view() == old(visitor).recorded_view() + trace_schema_body::<V>(
            *s,
            pointer@,
        ),
    decreases *s, 3int,
{
    let ghost t1 = trace_props_of::<V>(s.properties, pointer@);
    let ghost t2 = trace_sitems::<V>(s.items@, pointer@, s.items@.len());
    let ghost t3 = trace_slist_of::<V>(s.all_of, pointer@, "allOf"@);
    let ghost t4 = trace_slist_of::<V>(s.one_of, pointer@, "oneOf"@);
    let ghost t5 = trace_slist_of::<V>(s.any_of, pointer@, "anyOf"@);
    let ghost t6 = trace_slist_of::<V>(s.not, pointer@, "not"@);
    proof {
        assert(decreases_to!(*s => s.properties));
        assert(decreases_to!(*s => s.items));
        assert(decreases_to!(*s => s.all_of));
        assert(decreases_to!(*s => s.one_of));
        assert(decreases_to!(*s => s.any_of));
        assert(decreases_to!(*s => s.not));
    }
    walk_props_field(&s.properties, pointer, visitor);
    walk_items_field(&s.items, pointer, visitor);
    proof {
        assert(visitor.recorded_view() =~= old(visitor).recorded_view() + t1 + t2);
    }
    walk_slist_field(&s.all_of, "allOf", pointer, visitor);
    proof {
        assert(visitor.recorded_view() =~= old(visitor).recorded_view() + t1 + t2 + t3);
    }
    walk_slist_field(&s.one_of, "oneOf", pointer, visitor);
    proof {
        assert(visitor.recorded_view() =~= old(visitor).recorded_view() + t1 + t2 + t3 + t4);
    }
    walk_slist_field(&s.any_of, "anyOf", pointer, visitor);
    proof {
        assert(visitor.recorded_view() =~= old(visitor).recorded_view() + t1 + t2 + t3 + t4 + t5);
    }
    walk_slist_field(&s.not, "not", pointer, visitor);
    proof {
        assert(visitor.recorded_view() =~= old(visitor).recorded_view() + t1 + t2 + t3 + t4 + t5
            + t6);
        assert(trace_schema_body::<V>(*s, pointer@) == t1 + t2 + t3 + t4 + t5 + t6);
        assert(old(visitor).recorded_view() + (t1 + t2 + t3 + t4 + t5 + t6) =~= old(
            visitor,
        ).recorded_view() + t1 + t2 + t3 + t4 + t5 + t6);
    }
}

/// Walk the property schemas of one schema node.
fn walk_props_field<V: DiffVisitor>(
    fd: &DiffResult<MapDiff<MayBeRefDiff<SchemaDiff>>>,
    pointer: &PathPointer,
    visitor: &mut V,
)
    ensures
        final(visitor).recorded_view() == old(visitor).recorded_view() + trace_props_of::<V>(
            *fd,
            pointer@,
        ),
    decreases *fd, 2int,
{
    match fd {
        DiffResult::Absent => {
            proof {
                assert(visitor.recorded_view() =~= old(visitor).recorded_view()
                    + trace_props_of::<V>(*fd, pointer@));
            }
        },
        DiffResult::Same(m) | DiffResult::Added(m) | DiffResult::Removed(m)
            | DiffResult::Updated(m) => {
            let pptr = pointer.child(&String::from_str("properties"), state_of(fd));
            proof {
                crate::diff_core::lemma_payload_decreases(*fd);
                assert(*m == fd.payload());
                assert(decreases_to!(*fd => *m));
            }
            let mut i: usize = 0;
            while i < m.len()
                invariant
                    0 <= i <= m@.len(),
                    decreases_to!(*fd => *m),
                    pptr@ == view_child(pointer@, "properties"@, fd.state()),
                    visitor.recorded_view() == old(visitor).recorded_view() + trace_sprops::<V>(
                        m@,
                        pptr@,
                        i as nat,
                    ),
                decreases m@.len() - i,
            {
                proof {
                    assert(decreases_to!(*m => m@[i as int]));
                    assert(decreases_to!(m@[i as int] => m@[i as int].1));
                }
                let st = state_of(&m[i].1);
                let cptr = pptr.child(&m[i].0, st);
                walk_schema_node(&m[i].1, &cptr, visitor);
                proof {
                    assert(visitor.recorded_view() =~= old(visitor).recorded_view()
                        + trace_sprops::<V>(m@, pptr@, (i + 1) as nat));
                }
                i = i + 1;
            }
            proof {
                assert(trace_sprops::<V>(m@, pptr@, m@.len()) == trace_props_of::<V>(
                    *fd,
                    pointer@,
                ));
            }
        },
    }
}

/// Walk the item schema of one schema node.
fn walk_items_field<V: DiffVisitor>(
    v: &Vec<DiffResult<MayBeRefDiff<SchemaDiff>>>,
    pointer: &PathPointer,
    visitor: &mut V,
)
    ensures
        final(visitor).recorded_view() == old(visitor).recorded_view() + trace_sitems::<V>(
            v@,
            pointer@,
            v@.len(),
        ),
    decreases *v, 2int,
{
    proof {
        assert(visitor.recorded_view() =~= old(visitor).recorded_view() + trace_sitems::<V>(
            v@,
            pointer@,
            0nat,
        ));
    }
    let mut k: usize = 0;
    while k < v.len()
        invariant
            0 <= k <= v@.len(),
            visitor.recorded_view() == old(visitor).recorded_view() + trace_sitems::<V>(
                v@,
                pointer@,
                k as nat,
            ),
        decreases v@.len() - k,
    {
        proof {
            assert(decreases_to!(*v => v@[k as int]));
        }
        let st = state_of(&v[k]);
        let iptr = pointer.child(&String::from_str("items"), st);
        walk_schema_inner(&v[k], &iptr, visitor);
        proof {
            assert(visitor.recorded_view() =~= old(visitor).recorded_view() + trace_sitems::<V>(
                v@,
                pointer@,
                (k + 1) as nat,
            ));
        }
        k = k + 1;
    }
}

/// Like `walk_schema_node`, reached through an edge that already unwrapped
/// the outer change state.
fn walk_schema_inner<V: DiffVisitor>(
    d: &DiffResult<MayBeRefDiff<SchemaDiff>>,
    pointer: &PathPointer,
    visitor: &mut V,
)
    ensures
        final(visitor).recorded_view() == old(visitor).recorded_view() + trace_schema_node::<V>(
            *d,
            pointer@,
        ),
    decreases *d, 1int,
{
    walk_schema_node(d, pointer, visitor);
}

/// Walk one composition list of a schema node.
fn walk_slist_field<V: DiffVisitor>(
    fd: &DiffResult<VecDiff<MayBeRefDiff<SchemaDiff>>>,
    label: &str,
    pointer: &PathPointer,
    visitor: &mut V,
)
    ensures
        final(visitor).recorded_view() == old(visitor).recorded_view() + trace_slist_of::<V>(
            *fd,
            pointer@,
            label@,
        ),
    decreases *fd, 2int,
{
    match fd {
        DiffResult::Absent => {
            proof {
                assert(visitor.recorded_view() =~= old(visitor).recorded_view()
                    + trace_slist_of::<V>(*fd, pointer@, label@));
            }
        },
        DiffResult::Same(r) | DiffResult::Added(r) | DiffResult::Removed(r)
            | DiffResult::Updated(r) => {
            proof {
                crate::diff_core::lemma_payload_decreases(*fd);
                assert(*r == fd.payload());
                assert(decreases_to!(*fd => *r));
            }
            let mut i: usize = 0;
            while i < r.len()
                invariant
                    0 <= i <= r@.len(),
                    decreases_to!(*fd => *r),
                    visitor.recorded_view() == old(visitor).recorded_view() + trace_slist::<V>(
                        r@,
                        pointer@,
                        label@,
                        i as nat,
                    ),
                decreases r@.len() - i,
            {
                proof {
                    assert(decreases_to!(*r => r@[i as int]));
                }
                let st = state_of(&r[i]);
                let lptr = pointer.child(&String::from_str(label), st);
                walk_schema_inner(&r[i], &lptr, visitor);
                proof {
                    assert(visitor.recorded_view() =~= old(visitor).recorded_view()
                        + trace_slist::<V>(r@, pointer@, label@, (i + 1) as nat));
                }
                i = i + 1;
            }
            proof {
                assert(trace_slist::<V>(r@, pointer@, label@, r@.len()) == trace_slist_of::<V>(
                    *fd,
                    pointer@,
                    label@,
                ));
            }
        },
    }
}

/// Walk a media-type collection node and the schemas below it.
fn walk_media_types<V: DiffVisitor>(
    content: &DiffResult<MapDiff<MediaTypeDiff>>,
    parent: &PathPointer,
    visitor: &mut V,
)
    ensures
        final(visitor).recorded_view() == old(visitor).recorded_view() + trace_media_types::<V>(
            *content,
            parent@,
        ),
{
    let cptr = parent.child(&String::from_str("content"), state_of(content));
    let keep = visitor.visit_media_types(&cptr, content);
    if !keep {
        proof {
            assert(visitor.recorded_view() =~= old(visitor).recorded_view()
                + trace_media_types::<V>(*content, parent@));
        }
        return ;
    }
    match content {
        DiffResult::Absent => {
            proof {
                assert(visitor.recorded_view() =~= old(visitor).recorded_view()
                    + trace_media_types::<V>(*content, parent@));
            }
        },
        DiffResult::Same(m) | DiffResult::Added(m) | DiffResult::Removed(m)
            | DiffResult::Updated(m) => {
            let ghost base = visitor.recorded_view();
            let mut i: usize = 0;
            while i < m.len()
                invariant
                    0 <= i <= m@.len(),
                    cptr@ == view_child(parent@, "content"@, content.state()),
                    visitor.recorded_view() == base + trace_mt_entries::<V>(m@, cptr@, i as nat),
                decreases m@.len() - i,
            {
                let st = state_of(&m[i].1);
                let mptr = cptr.child(&m[i].0, st);
                let keep_mt = visitor.visit_media_type(&mptr, &m[i].1);
                if keep_mt {
                    match m[i].1.get() {
                        Option::None => {},
                        Option::Some(mt) => {
                            let sptr = mptr.child(&String::from_str("schema"), state_of(
                                &mt.schema,
                            ));
                            walk_schema_node(&mt.schema, &sptr, visitor);
                        },
                    }
                }
                proof {
                    assert(visitor.recorded_view() =~= base + trace_mt_entries::<V>(
                        m@,
                        cptr@,
                        (i + 1) as nat,
                    ));
                }
                i = i + 1;
            }
            proof {
                assert(visitor.recorded_view() =~= old(visitor).recorded_view()
                    + trace_media_types::<V>(*content, parent@));
            }
        },
    }
}

/// Walk a parameter collection node and the schemas below it.
fn walk_parameters<V: DiffVisitor>(
    params: &DiffResult<VecDiff<MayBeRefDiff<ParameterDiff>>>,
    parent: &PathPointer,
    visitor: &mut V,
)
    ensures
        final(visitor).recorded_view() == old(visitor).recorded_view() + trace_parameters::<V>(
            *params,
            parent@,
        ),
{
    if matches!(params, DiffResult::Absent) {
        proof {
            assert(visitor.recorded_view() =~= old(visitor).recorded_view()
                + trace_parameters::<V>(*params, parent@));
        }
        return ;
    }
    let pptr = parent.child(&String::from_str("parameters"), state_of(params));
    let keep = visitor.visit_parameters(&pptr, params);
    if !keep {
        proof {
            assert(visitor.recorded_view() =~= old(visitor).recorded_view()
                + trace_parameters::<V>(*params, parent@));
        }
        return ;
    }
    let list = match params.get() {
        Option::None => {
            proof {
                assert(false);
            }
            return ;
        },
        Option::Some(list) => list,
    };
    let ghost base = visitor.recorded_view();
    // a parameter position always carries its name through the diff; the
    // synthetic discriminant below stands in only for a payload-free node
    let fallback = String::from_str("parameter");
    let mut i: usize = 0;
    while i < list.len()
        invariant
            0 <= i <= list@.len(),
            list@ == params.payload()@,
            fallback@ == "parameter"@,
            pptr@ == view_child(parent@, "parameters"@, params.state()),
            visitor.recorded_view() == base + trace_param_entries::<V>(list@, pptr@, i as nat),
        decreases list@.len() - i,
    {
        match &list[i] {
            DiffResult::Absent => {},
            DiffResult::Same(p) | DiffResult::Added(p) | DiffResult::Removed(p)
                | DiffResult::Updated(p) => {
                proof {
                    assert(*p == list@[i as int].payload());
                }
                match p {
                    MayBeRefDiff::Ref(_) => {},
                    MayBeRefDiff::Value(pd) => {
                        let st = state_of(&list[i]);
                        let name: &String = match pd.get() {
                            Option::Some(pay) => {
                                match pay.name.get() {
                                    Option::Some(n) => n,
                                    Option::None => &fallback,
                                }
                            },
                            Option::None => &fallback,
                        };
                        proof {
                            assert(name@ == param_seg_name(*pd));
                        }
                        let iptr = pptr.child(name, st);
                        let keep_p = visitor.visit_parameter(&iptr, pd);
                        if keep_p {
                            match pd.get() {
                                Option::None => {},
                                Option::Some(pay) => {
                                    let sptr = iptr.child(&String::from_str("schema"), state_of(
                                        &pay.schema,
                                    ));
                                    walk_schema_node(&pay.schema, &sptr, visitor);
                                },
                            }
                        }
                    },
                }
            },
        }
        proof {
            assert(visitor.recorded_view() =~= base + trace_param_entries::<V>(
                list@,
                pptr@,
                (i + 1) as nat,
            ));
        }
        i = i + 1;
    }
    proof {
        assert(visitor.recorded_view() =~= old(visitor).recorded_view() + trace_parameters::<V>(
            *params,
            parent@,
        ));
    }
}

/// Walk the request body node of one operation and everything below it.
fn walk_rb_field<V: DiffVisitor>(
    fd: &DiffResult<MayBeRefDiff<RequestBodyDiff>>,
    optr: &PathPointer,
    visitor: &mut V,
)
    ensures
        final(visitor).recorded_view() == old(visitor).recorded_view() + trace_rb_of::<V>(
            *fd,
            optr@,
        ),
{
    match fd {
        DiffResult::Absent => {
            proof {
                assert(visitor.recorded_view() =~= old(visitor).recorded_view() + trace_rb_of::<
                    V,
                >(*fd, optr@));
            }
        },
        DiffResult::Same(p) | DiffResult::Added(p) | DiffResult::Removed(p)
            | DiffResult::Updated(p) => {
            proof {
                assert(*p == fd.payload());
            }
            match p {
                MayBeRefDiff::Ref(_) => {
                    proof {
                        assert(visitor.recorded_view() =~= old(visitor).recorded_view()
                            + trace_rb_of::<V>(*fd, optr@));
                    }
                },
                MayBeRefDiff::Value(rbd) => {
                    let rptr = optr.child(&String::from_str("requestBody"), state_of(fd));
                    let keep_rb = visitor.visit_request_body(&rptr, rbd);
                    if keep_rb {
                        match rbd.get() {
                            Option::None => {},
                            Option::Some(rb) => {
                                walk_media_types(&rb.content, &rptr, visitor);
                            },
                        }
                    }
                    proof {
                        assert(visitor.recorded_view() =~= old(visitor).recorded_view()
                            + trace_rb_of::<V>(*fd, optr@));
                    }
                },
            }
        },
    }
}

/// Walk the response collection of one operation and everything below it.
fn walk_rs_field<V: DiffVisitor>(
    fd: &DiffResult<MapDiff<MayBeRefDiff<ResponseDiff>>>,
    optr: &PathPointer,
    visitor: &mut V,
)
    ensures
        final(visitor).recorded_view() == old(visitor).recorded_view() + trace_rs_of::<V>(
            *fd,
            optr@,
        ),
{
    match fd {
        DiffResult::Absent => {
            proof {
                assert(visitor.recorded_view() =~= old(visitor).recorded_view() + trace_rs_of::<
                    V,
                >(*fd, optr@));
            }
        },
        DiffResult::Same(m) | DiffResult::Added(m) | DiffResult::Removed(m)
            | DiffResult::Updated(m) => {
            proof {
                assert(*m == fd.payload());
            }
            let rsptr = optr.child(&String::from_str("responses"), state_of(fd));
            let keep_rs = visitor.visit_responses(&rsptr, fd);
            if !keep_rs {
                proof {
                    assert(visitor.recorded_view() =~= old(visitor).recorded_view()
                        + trace_rs_of::<V>(*fd, optr@));
                }
                return ;
            }
            let ghost base = visitor.recorded_view();
            let mut i: usize = 0;
            while i < m.len()
                invariant
                    0 <= i <= m@.len(),
                    m@ == fd.payload()@,
                    rsptr@ == view_child(optr@, "responses"@, fd.state()),
                    visitor.recorded_view() == base + trace_resp_entries::<V>(
                        m@,
                        rsptr@,
                        i as nat,
                    ),
                decreases m@.len() - i,
            {
                match &m[i].1 {
                    DiffResult::Absent => {},
                    DiffResult::Same(p) | DiffResult::Added(p) | DiffResult::Removed(p)
                        | DiffResult::Updated(p) => {
                        proof {
                            assert(*p == m@[i as int].1.payload());
                        }
                        match p {
                            MayBeRefDiff::Ref(_) => {},
                            MayBeRefDiff::Value(respd) => {
                                let st = state_of(&m[i].1);
                                let cptr = rsptr.child(&m[i].0, st);
                                let keep_r = visitor.visit_response(&cptr, respd);
                                if keep_r {
                                    match respd.get() {
                                        Option::None => {},
                                        Option::Some(resp) => {
                                            walk_media_types(&resp.content, &cptr, visitor);
                                        },
                                    }
                                }
                            },
                        }
                    },
                }
                proof {
                    assert(visitor.recorded_view() =~= base + trace_resp_entries::<V>(
                        m@,
                        rsptr@,
                        (i + 1) as nat,
                    ));
                }
                i = i + 1;
            }
            proof {
                assert(visitor.recorded_view() =~= old(visitor).recorded_view() + trace_rs_of::<
                    V,
                >(*fd, optr@));
            }
        },
    }
}

/// Walk one operation node and everything below it.
fn walk_operation<V: DiffVisitor>(
    od: &DiffResult<OperationDiff>,
    method: &str,
    parent: &PathPointer,
    visitor: &mut V,
)
    ensures
        final(visitor).recorded_view() == old(visitor).recorded_view() + trace_operation::<V>(
            *od,
            method@,
            parent@,
        ),
{
    if matches!(od, DiffResult::Absent) {
        proof {
            assert(visitor.recorded_view() =~= old(visitor).recorded_view()
                + trace_operation::<V>(*od, method@, parent@));
        }
        return ;
    }
    let optr = parent.child(&String::from_str(method), state_of(od));
    let keep = visitor.visit_operation(&optr, method, od);
    if !keep {
        proof {
            assert(visitor.recorded_view() =~= old(visitor).recorded_view()
                + trace_operation::<V>(*od, method@, parent@));
        }
        return ;
    }
    let o = match od.get() {
        Option::None => {
            proof {
                assert(false);
            }
            return ;
        },
        Option::Some(o) => o,
    };
    let ghost base = visitor.recorded_view();
    let ghost t1 = trace_parameters::<V>(o.parameters, optr@);
    let ghost t2 = trace_rb_of::<V>(o.request_body, optr@);
    let ghost t3 = trace_rs_of::<V>(o.responses, optr@);
    walk_parameters(&o.parameters, &optr, visitor);
    walk_rb_field(&o.request_body, &optr, visitor);
    proof {
        assert(visitor.recorded_view() =~= base + t1 + t2);
    }
    walk_rs_field(&o.responses, &optr, visitor);
    proof {
        assert(visitor.recorded_view() =~= base + t1 + t2 + t3);
        assert(base + (t1 + t2 + t3) =~= base + t1 + t2 + t3);
        assert(visitor.recorded_view() =~= old(visitor).recorded_view() + trace_operation::<V>(
            *od,
            method@,
            parent@,
        ));
    }
}

/// Walk one path item node and everything below it.
#[verifier::rlimit(100)]
#[verifier::spinoff_prover]
fn walk_path<V: DiffVisitor>(inner: &DiffResult<PathDiff>, pptr: &PathPointer, visitor: &mut V)
    ensures
        final(visitor).recorded_view() == old(visitor).recorded_view() + trace_path::<V>(
            *inner,
            pptr@,
        ),
{
    let keep = visitor.visit_path(pptr, inner);
    if !keep {
        proof {
            assert(visitor.recorded_view() =~= old(visitor).recorded_view() + trace_path::<V>(
                *inner,
                pptr@,
            ));
        }
        return ;
    }
    let pi = match inner.get() {
        Option::None => {
            proof {
                assert(visitor.recorded_view() =~= old(visitor).recorded_view() + trace_path::<
                    V,
                >(*inner, pptr@));
            }
            return ;
        },
        Option::Some(pi) => pi,
    };
    let ghost base = visitor.recorded_view();
    let ghost t1 = trace_operation::<V>(pi.get, "get"@, pptr@);
    let ghost t2 = trace_operation::<V>(pi.put, "put"@, pptr@);
    let ghost t3 = trace_operation::<V>(pi.post, "post"@, pptr@);
    let ghost t4 = trace_operation::<V>(pi.delete, "delete"@, pptr@);
    let ghost t5 = trace_operation::<V>(pi.options, "options"@, pptr@);
    let ghost t6 = trace_operation::<V>(pi.head, "head"@, pptr@);
    let ghost t7 = trace_operation::<V>(pi.patch, "patch"@, pptr@);
    let ghost t8 = trace_operation::<V>(pi.trace, "trace"@, pptr@);
    let ghost t9 = trace_parameters::<V>(pi.parameters, pptr@);
    walk_operation(&pi.get, "get", pptr, visitor);
    walk_operation(&pi.put, "put", pptr, visitor);
    proof {
        assert(visitor.recorded_view() =~= base + t1 + t2);
    }
    walk_operation(&pi.post, "post", pptr, visitor);
    proof {
        assert(visitor.recorded_view() =~= base + t1 + t2 + t3);
    }
    walk_operation(&pi.delete, "delete", pptr, visitor);
    proof {
        assert(visitor.recorded_view() =~= base + t1 + t2 + t3 + t4);
    }
    walk_operation(&pi.options, "options", pptr, visitor);
    proof {
        assert(visitor.recorded_view() =~= base + t1 + t2 + t3 + t4 + t5);
    }
    walk_operation(&pi.head, "head", pptr, visitor);
    proof {
        assert(visitor.recorded_view() =~= base + t1 + t2 + t3 + t4 + t5 + t6);
    }
    walk_operation(&pi.patch, "patch", pptr, visitor);
    proof {
        assert(visitor.recorded_view() =~= base + t1 + t2 + t3 + t4 + t5 + t6 + t7);
    }
    walk_operation(&pi.trace, "trace", pptr, visitor);
    proof {
        assert(visitor.recorded_view() =~= base + t1 + t2 + t3 + t4 + t5 + t6 + t7 + t8);
    }
    walk_parameters(&pi.parameters, pptr, visitor);
    proof {
        assert(visitor.recorded_view() =~= base + t1 + t2 + t3 + t4 + t5 + t6 + t7 + t8 + t9);
        assert(base + (t1 + t2 + t3 + t4 + t5 + t6 + t7 + t8 + t9) =~= base + t1 + t2 + t3 + t4
            + t5 + t6 + t7 + t8 + t9);
        assert(visitor.recorded_view() =~= old(visitor).recorded_view() + trace_path::<V>(
            *inner,
            pptr@,
        ));
    }
}

/// Walk one document difference tree exactly once for one rule, building
/// each node's cursor on the way down and honouring the rule's descend or
/// prune decision at every hook.  The walk appends to the rule's findings
/// exactly the cursor sequence `trace_document` specifies for its decision
/// functions over this tree.
pub fn dispatch_visitor<V: DiffVisitor>(root: &DiffResult<HttpSchemaDiff>, visitor: &mut V)
    ensures
        final(visitor).recorded_view() == old(visitor).recorded_view() + trace_document::<V>(
            *root,
        ),
{
    let rptr = PathPointer::root(state_of(root));
    proof {
        assert(rptr@ =~= root_view(*root));
    }
    let keep = visitor.visit_document(&rptr, root);
    if !keep {
        proof {
            assert(visitor.recorded_view() =~= old(visitor).recorded_view()
                + trace_document::<V>(*root));
        }
        return ;
    }
    let doc = match root.get() {
        Option::None => {
            proof {
                assert(visitor.recorded_view() =~= old(visitor).recorded_view()
                    + trace_document::<V>(*root));
            }
            return ;
        },
        Option::Some(doc) => doc,
    };
    match &doc.paths {
        DiffResult::Absent => {
            proof {
                assert(visitor.recorded_view() =~= old(visitor).recorded_view()
                    + trace_document::<V>(*root));
            }
        },
        DiffResult::Same(paths) | DiffResult::Added(paths) | DiffResult::Removed(paths)
            | DiffResult::Updated(paths) => {
            proof {
                assert(*paths == doc.paths.payload());
            }
            let paths_ptr = rptr.child(&String::from_str("paths"), state_of(&doc.paths));
            let ghost base = visitor.recorded_view();
            let mut i: usize = 0;
            while i < paths.len()
                invariant
                    0 <= i <= paths@.len(),
                    paths_ptr@ == view_child(root_view(*root), "paths"@, doc.paths.state()),
                    visitor.recorded_view() == base + trace_paths_entries::<V>(
                        paths@,
                        paths_ptr@,
                        i as nat,
                    ),
                decreases paths@.len() - i,
            {
                match &paths[i].1 {
                    DiffResult::Absent => {},
                    DiffResult::Same(p) | DiffResult::Added(p) | DiffResult::Removed(p)
                        | DiffResult::Updated(p) => {
                        proof {
                            assert(*p == paths@[i as int].1.payload());
                        }
                        match p {
                            MayBeRefDiff::Ref(_) => {},
                            MayBeRefDiff::Value(pd) => {
                                let st = state_of(&paths[i].1);
                                let pptr = paths_ptr.child(&paths[i].0, st);
                                walk_path(pd, &pptr, visitor);
                            },
                        }
                    },
                }
                proof {
                    assert(visitor.recorded_view() =~= base + trace_paths_entries::<V>(
                        paths@,
                        paths_ptr@,
                        (i + 1) as nat,
                    ));
                }
                i = i + 1;
            }
            proof {
                assert(visitor.recorded_view() =~= old(visitor).recorded_view()
                    + trace_document::<V>(*root));
            }
        },
    }
}

// ---------------------------------------------------------------------------
// Walks over unchanged trees record nothing.
// ---------------------------------------------------------------------------
/// The cursor points at a node that did not change.
pub open spec fn calm(v: PtrView) -> bool {
    v.len() > 0 ==> (v.last().1 == DiffState::Same || v.last().1 == DiffState::Absent)
}

/// A rule that never records an unchanged node: at a calm cursor whose node
/// compared equal (for schema nodes, equal field by field), every record
/// decision is off.  Every rule of this crate satisfies it.
pub open spec fn silent_on_unchanged<V: DiffVisitor>() -> bool {
    &&& forall|v: PtrView, d: DiffResult<HttpSchemaDiff>|
        calm(v) && (d is Same || d is Absent) ==> !(#[trigger] V::records_document(v, d))
    &&& forall|v: PtrView, d: DiffResult<PathDiff>|
        calm(v) && (d is Same || d is Absent) ==> !(#[trigger] V::records_path(v, d))
    &&& forall|v: PtrView, m: Seq<char>, d: DiffResult<OperationDiff>|
        calm(v) && (d is Same || d is Absent) ==> !(#[trigger] V::records_operation(v, m, d))
    &&& forall|v: PtrView, d: DiffResult<VecDiff<MayBeRefDiff<ParameterDiff>>>|
        calm(v) && (d is Same || d is Absent) ==> !(#[trigger] V::records_parameters(v, d))
    &&& forall|v: PtrView, d: DiffResult<ParameterDiff>|
        calm(v) && (d is Same || d is Absent) ==> !(#[trigger] V::records_parameter(v, d))
    &&& forall|v: PtrView, d: DiffResult<RequestBodyDiff>|
        calm(v) && (d is Same || d is Absent) ==> !(#[trigger] V::records_request_body(v, d))
    &&& forall|v: PtrView, d: DiffResult<MapDiff<MayBeRefDiff<ResponseDiff>>>|
        calm(v) && (d is Same || d is Absent) ==> !(#[trigger] V::records_responses(v, d))
    &&& forall|v: PtrView, d: DiffResult<ResponseDiff>|
        calm(v) && (d is Same || d is Absent) ==> !(#[trigger] V::records_response(v, d))
    &&& forall|v: PtrView, d: DiffResult<MapDiff<MediaTypeDiff>>|
        calm(v) && (d is Same || d is Absent) ==> !(#[trigger] V::records_media_types(v, d))
    &&& forall|v: PtrView, d: DiffResult<MediaTypeDiff>|
        calm(v) && (d is Same || d is Absent) ==> !(#[trigger] V::records_media_type(v, d))
    &&& forall|v: PtrView, d: DiffResult<SchemaDiff>|
        calm(v) && (d is Absent || (d is Same && crate::differ::schema_same(d.payload()))) ==> !(
        #[trigger] V::records_schema(v, d))
}

proof fn lemma_trace_schema_unchanged<V: DiffVisitor>(
    d: DiffResult<MayBeRefDiff<SchemaDiff>>,
    ptr: PtrView,
)
    requires
        silent_on_unchanged::<V>(),
        crate::differ::omrs_d_same(d),
        calm(ptr),
    ensures
        trace_schema_node::<V>(d, ptr) == Seq::<PtrView>::empty(),
    decreases d, 2int, 0nat,
{
    match d {
        DiffResult::Absent => {},
        DiffResult::Same(p) => {
            match p {
                MayBeRefDiff::Ref(_) => {},
                MayBeRefDiff::Value(sdr) => {
                    assert(crate::differ::mrs_d_same(p));
                    assert(sdr is Same && crate::differ::schema_d_same(sdr->Same_0));
                    assert(crate::differ::schema_same(sdr.payload()));
                    assert(!V::records_schema(ptr, sdr));
                    if V::descends_schema(ptr, sdr) {
                        lemma_trace_schema_body_unchanged::<V>(sdr->Same_0, ptr);
                    }
                    assert(trace_schema_node::<V>(d, ptr) =~= Seq::<PtrView>::empty());
                },
            }
        },
        _ => {
            assert(false);
        },
    }
}

proof fn lemma_trace_schema_body_unchanged<V: DiffVisitor>(s: SchemaDiff, ptr: PtrView)
    requires
        silent_on_unchanged::<V>(),
        crate::differ::schema_d_same(s),
        calm(ptr),
    ensures
        trace_schema_body::<V>(s, ptr) == Seq::<PtrView>::empty(),
    decreases s, 5int, 0nat,
{
    // properties
    match s.properties {
        DiffResult::Absent => {},
        DiffResult::Same(m) => {
            lemma_trace_sprops_unchanged::<V>(
                m@,
                view_child(ptr, "properties"@, s.properties.state()),
                m@.len(),
                s.properties,
            );
        },
        _ => {
            assert(false);
        },
    }
    // items
    lemma_trace_sitems_unchanged::<V>(s.items@, ptr, s.items@.len());
    lemma_trace_slist_unchanged::<V>(s.all_of, ptr, "allOf"@);
    lemma_trace_slist_unchanged::<V>(s.one_of, ptr, "oneOf"@);
    lemma_trace_slist_unchanged::<V>(s.any_of, ptr, "anyOf"@);
    lemma_trace_slist_unchanged::<V>(s.not, ptr, "not"@);
    assert(trace_schema_body::<V>(s, ptr) =~= Seq::<PtrView>::empty());
}

proof fn lemma_trace_sprops_unchanged<V: DiffVisitor>(
    m: Seq<(String, DiffResult<MayBeRefDiff<SchemaDiff>>)>,
    pptr: PtrView,
    n: nat,
    fd: DiffResult<MapDiff<MayBeRefDiff<SchemaDiff>>>,
)
    requires
        silent_on_unchanged::<V>(),
        fd matches DiffResult::Same(mm) && mm@ == m,
        crate::differ::smap_field_d_same(fd),
    ensures
        trace_sprops::<V>(m, pptr, n) == Seq::<PtrView>::empty(),
    decreases m, 4int, n,
{
    if n > 0 && n <= m.len() {
        lemma_trace_sprops_unchanged::<V>(m, pptr, (n - 1) as nat, fd);
        assert(m[n - 1].1 matches DiffResult::Same(q) && crate::differ::mrs_d_same(q));
        lemma_trace_schema_unchanged::<V>(
            m[n - 1].1,
            view_child(pptr, m[n - 1].0@, m[n - 1].1.state()),
        );
        assert(trace_sprops::<V>(m, pptr, n) =~= Seq::<PtrView>::empty());
    }
}

proof fn lemma_trace_sitems_unchanged<V: DiffVisitor>(
    v: Seq<DiffResult<MayBeRefDiff<SchemaDiff>>>,
    ptr: PtrView,
    n: nat,
)
    requires
        silent_on_unchanged::<V>(),
        forall|i: int| 0 <= i < v.len() ==> crate::differ::omrs_d_same(#[trigger] v[i]),
    ensures
        trace_sitems::<V>(v, ptr, n) == Seq::<PtrView>::empty(),
    decreases v, 4int, n,
{
    if n > 0 && n <= v.len() {
        lemma_trace_sitems_unchanged::<V>(v, ptr, (n - 1) as nat);
        lemma_trace_schema_unchanged::<V>(v[n - 1], view_child(ptr, "items"@, v[n - 1].state()));
        assert(trace_sitems::<V>(v, ptr, n) =~= Seq::<PtrView>::empty());
    }
}

proof fn lemma_trace_slist_unchanged<V: DiffVisitor>(
    fd: DiffResult<VecDiff<MayBeRefDiff<SchemaDiff>>>,
    ptr: PtrView,
    label: Seq<char>,
)
    requires
        silent_on_unchanged::<V>(),
        crate::differ::slist_field_d_same(fd),
    ensures
        trace_slist_of::<V>(fd, ptr, label) == Seq::<PtrView>::empty(),
    decreases fd, 4int, 0nat,
{
    match fd {
        DiffResult::Absent => {},
        DiffResult::Same(r) => {
            lemma_trace_slist_entries_unchanged::<V>(r@, ptr, label, r@.len(), fd);
        },
        _ => {
            assert(false);
        },
    }
}

proof fn lemma_trace_slist_entries_unchanged<V: DiffVisitor>(
    r: Seq<DiffResult<MayBeRefDiff<SchemaDiff>>>,
    ptr: PtrView,
    label: Seq<char>,
    n: nat,
    fd: DiffResult<VecDiff<MayBeRefDiff<SchemaDiff>>>,
)
    requires
        silent_on_unchanged::<V>(),
        fd matches DiffResult::Same(rr) && rr@ == r,
        crate::differ::slist_field_d_same(fd),
    ensures
        trace_slist::<V>(r, ptr, label, n) == Seq::<PtrView>::empty(),
    decreases r, 3int, n,
{
    if n > 0 && n <= r.len() {
        lemma_trace_slist_entries_unchanged::<V>(r, ptr, label, (n - 1) as nat, fd);
        assert(r[n - 1] matches DiffResult::Same(q) && crate::differ::mrs_d_same(q));
        lemma_trace_schema_unchanged::<V>(r[n - 1], view_child(ptr, label, r[n - 1].state()));
        assert(trace_slist::<V>(r, ptr, label, n) =~= Seq::<PtrView>::empty());
    }
}

proof fn lemma_trace_media_types_unchanged<V: DiffVisitor>(
    content: DiffResult<MapDiff<MediaTypeDiff>>,
    parent: PtrView,
)
    requires
        silent_on_unchanged::<V>(),
        crate::diff::map_field_d_same::<crate::schema::MediaType>(content),
    ensures
        trace_media_types::<V>(content, parent) == Seq::<PtrView>::empty(),
{
    let cptr = view_child(parent, "content"@, content.state());
    assert(calm(cptr));
    match content {
        DiffResult::Absent => {
            assert(trace_media_types::<V>(content, parent) =~= Seq::<PtrView>::empty());
        },
        DiffResult::Same(m) => {
            lemma_trace_mt_entries_unchanged::<V>(m@, cptr, m@.len(), content);
            assert(trace_media_types::<V>(content, parent) =~= Seq::<PtrView>::empty());
        },
        _ => {
            assert(false);
        },
    }
}

proof fn lemma_trace_mt_entries_unchanged<V: DiffVisitor>(
    m: Seq<(String, DiffResult<MediaTypeDiff>)>,
    cptr: PtrView,
    n: nat,
    fd: DiffResult<MapDiff<MediaTypeDiff>>,
)
    requires
        silent_on_unchanged::<V>(),
        fd matches DiffResult::Same(mm) && mm@ == m,
        crate::diff::map_field_d_same::<crate::schema::MediaType>(fd),
    ensures
        trace_mt_entries::<V>(m, cptr, n) == Seq::<PtrView>::empty(),
    decreases n,
{
    if n > 0 && n <= m.len() {
        lemma_trace_mt_entries_unchanged::<V>(m, cptr, (n - 1) as nat, fd);
        let e = m[n - 1].1;
        assert(e matches DiffResult::Same(q) && crate::differ::mediatype_d_same(q));
        let mptr = view_child(cptr, m[n - 1].0@, e.state());
        assert(!V::records_media_type(mptr, e));
        if V::descends_media_type(mptr, e) {
            lemma_trace_schema_unchanged::<V>(
                e.payload().schema,
                view_child(mptr, "schema"@, e.payload().schema.state()),
            );
        }
        assert(trace_mt_entries::<V>(m, cptr, n) =~= Seq::<PtrView>::empty());
    }
}

proof fn lemma_trace_parameters_unchanged<V: DiffVisitor>(
    params: DiffResult<VecDiff<MayBeRefDiff<ParameterDiff>>>,
    parent: PtrView,
)
    requires
        silent_on_unchanged::<V>(),
        crate::diff::ident_field_d_same::<crate::schema::MayBeRef310<crate::schema::Parameter>>(
            params,
        ),
    ensures
        trace_parameters::<V>(params, parent) == Seq::<PtrView>::empty(),
{
    if params is Absent {
    } else {
        let pptr = view_child(parent, "parameters"@, params.state());
        assert(calm(pptr));
        lemma_trace_param_entries_unchanged::<V>(
            params.payload()@,
            pptr,
            params.payload()@.len(),
            params,
        );
        assert(trace_parameters::<V>(params, parent) =~= Seq::<PtrView>::empty());
    }
}

proof fn lemma_trace_param_entries_unchanged<V: DiffVisitor>(
    list: Seq<DiffResult<MayBeRefDiff<ParameterDiff>>>,
    pptr: PtrView,
    n: nat,
    fd: DiffResult<VecDiff<MayBeRefDiff<ParameterDiff>>>,
)
    requires
        silent_on_unchanged::<V>(),
        fd matches DiffResult::Same(ll) && ll@ == list,
        crate::diff::ident_field_d_same::<crate::schema::MayBeRef310<crate::schema::Parameter>>(
            fd,
        ),
    ensures
        trace_param_entries::<V>(list, pptr, n) == Seq::<PtrView>::empty(),
    decreases n,
{
    if n > 0 && n <= list.len() {
        lemma_trace_param_entries_unchanged::<V>(list, pptr, (n - 1) as nat, fd);
        let e = list[n - 1];
        assert(e matches DiffResult::Same(q) && <crate::schema::MayBeRef310<
            crate::schema::Parameter,
        > as crate::diff::DiffElem>::d_same(q));
        match e.payload() {
            MayBeRefDiff::Ref(_) => {},
            MayBeRefDiff::Value(pd) => {
                assert(pd is Same && crate::differ::parameter_d_same(pd->Same_0));
                let iptr = view_child(pptr, param_seg_name(pd), e.state());
                assert(!V::records_parameter(iptr, pd));
                if V::descends_parameter(iptr, pd) {
                    lemma_trace_schema_unchanged::<V>(
                        pd.payload().schema,
                        view_child(iptr, "schema"@, pd.payload().schema.state()),
                    );
                }
            },
        }
        assert(trace_param_entries::<V>(list, pptr, n) =~= Seq::<PtrView>::empty());
    }
}

proof fn lemma_trace_rb_unchanged<V: DiffVisitor>(
    d: DiffResult<MayBeRefDiff<RequestBodyDiff>>,
    optr: PtrView,
)
    requires
        silent_on_unchanged::<V>(),
        crate::diff::opt_d_same::<crate::schema::MayBeRef310<crate::schema::RequestBody>>(d),
    ensures
        trace_rb_of::<V>(d, optr) == Seq::<PtrView>::empty(),
{
    match d {
        DiffResult::Absent => {},
        DiffResult::Same(p) => {
            match p {
                MayBeRefDiff::Ref(_) => {},
                MayBeRefDiff::Value(rbd) => {
                    assert(rbd is Same && crate::differ::requestbody_d_same(rbd->Same_0));
                    let rptr = view_child(optr, "requestBody"@, d.state());
                    assert(!V::records_request_body(rptr, rbd));
                    if V::descends_request_body(rptr, rbd) {
                        lemma_trace_media_types_unchanged::<V>(rbd.payload().content, rptr);
                    }
                    assert(trace_rb_of::<V>(d, optr) =~= Seq::<PtrView>::empty());
                },
            }
        },
        _ => {
            assert(false);
        },
    }
}

proof fn lemma_trace_rs_unchanged<V: DiffVisitor>(
    d: DiffResult<MapDiff<MayBeRefDiff<ResponseDiff>>>,
    optr: PtrView,
)
    requires
        silent_on_unchanged::<V>(),
        crate::diff::map_field_d_same::<crate::schema::MayBeRef310<crate::schema::Response>>(d),
    ensures
        trace_rs_of::<V>(d, optr) == Seq::<PtrView>::empty(),
{
    match d {
        DiffResult::Absent => {},
        DiffResult::Same(m) => {
            let rsptr = view_child(optr, "responses"@, d.state());
            assert(!V::records_responses(rsptr, d));
            if V::descends_responses(rsptr, d) {
                lemma_trace_resp_entries_unchanged::<V>(m@, rsptr, m@.len(), d);
            }
            assert(trace_rs_of::<V>(d, optr) =~= Seq::<PtrView>::empty());
        },
        _ => {
            assert(false);
        },
    }
}

proof fn lemma_trace_resp_entries_unchanged<V: DiffVisitor>(
    m: Seq<(String, DiffResult<MayBeRefDiff<ResponseDiff>>)>,
    rsptr: PtrView,
    n: nat,
    fd: DiffResult<MapDiff<MayBeRefDiff<ResponseDiff>>>,
)
    requires
        silent_on_unchanged::<V>(),
        fd matches DiffResult::Same(mm) && mm@ == m,
        crate::diff::map_field_d_same::<crate::schema::MayBeRef310<crate::schema::Response>>(fd),
    ensures
        trace_resp_entries::<V>(m, rsptr, n) == Seq::<PtrView>::empty(),
    decreases n,
{
    if n > 0 && n <= m.len() {
        lemma_trace_resp_entries_unchanged::<V>(m, rsptr, (n - 1) as nat, fd);
        let e = m[n - 1].1;
        assert(e matches DiffResult::Same(q) && <crate::schema::MayBeRef310<
            crate::schema::Response,
        > as crate::diff::DiffElem>::d_same(q));
        match e.payload() {
            MayBeRefDiff::Ref(_) => {},
            MayBeRefDiff::Value(respd) => {
                assert(respd is Same && crate::differ::response_d_same(respd->Same_0));
                let cptr = view_child(rsptr, m[n - 1].0@, e.state());
                assert(!V::records_response(cptr, respd));
                if V::descends_response(cptr, respd) {
                    lemma_trace_media_types_unchanged::<V>(respd.payload().content, cptr);
                }
            },
        }
        assert(trace_resp_entries::<V>(m, rsptr, n) =~= Seq::<PtrView>::empty());
    }
}

proof fn lemma_trace_operation_unchanged<V: DiffVisitor>(
    od: DiffResult<OperationDiff>,
    method: Seq<char>,
    parent: PtrView,
)
    requires
        silent_on_unchanged::<V>(),
        crate::diff::opt_d_same::<crate::schema::Operation>(od),
    ensures
        trace_operation::<V>(od, method, parent) == Seq::<PtrView>::empty(),
{
    if od is Absent {
    } else {
        assert(od is Same && crate::differ::operation_d_same(od->Same_0));
        let optr = view_child(parent, method, od.state());
        assert(!V::records_operation(optr, method, od));
        if V::descends_operation(optr, method, od) {
            let o = od.payload();
            lemma_trace_parameters_unchanged::<V>(o.parameters, optr);
            lemma_trace_rb_unchanged::<V>(o.request_body, optr);
            lemma_trace_rs_unchanged::<V>(o.responses, optr);
        }
        assert(trace_operation::<V>(od, method, parent) =~= Seq::<PtrView>::empty());
    }
}

proof fn lemma_trace_path_unchanged<V: DiffVisitor>(inner: DiffResult<PathDiff>, pptr: PtrView)
    requires
        silent_on_unchanged::<V>(),
        inner is Same,
        crate::differ::path_d_same(inner->Same_0),
        calm(pptr),
    ensures
        trace_path::<V>(inner, pptr) == Seq::<PtrView>::empty(),
{
    assert(!V::records_path(pptr, inner));
    if V::descends_path(pptr, inner) {
        let pi = inner.payload();
        lemma_trace_operation_unchanged::<V>(pi.get, "get"@, pptr);
        lemma_trace_operation_unchanged::<V>(pi.put, "put"@, pptr);
        lemma_trace_operation_unchanged::<V>(pi.post, "post"@, pptr);
        lemma_trace_operation_unchanged::<V>(pi.delete, "delete"@, pptr);
        lemma_trace_operation_unchanged::<V>(pi.options, "options"@, pptr);
        lemma_trace_operation_unchanged::<V>(pi.head, "head"@, pptr);
        lemma_trace_operation_unchanged::<V>(pi.patch, "patch"@, pptr);
        lemma_trace_operation_unchanged::<V>(pi.trace, "trace"@, pptr);
        lemma_trace_parameters_unchanged::<V>(pi.parameters, pptr);
    }
    assert(trace_path::<V>(inner, pptr) =~= Seq::<PtrView>::empty());
}

proof fn lemma_trace_paths_entries_unchanged<V: DiffVisitor>(
    paths: Seq<(String, DiffResult<MayBeRefDiff<PathDiff>>)>,
    paths_ptr: PtrView,
    n: nat,
    fd: DiffResult<MapDiff<MayBeRefDiff<PathDiff>>>,
)
    requires
        silent_on_unchanged::<V>(),
        fd matches DiffResult::Same(mm) && mm@ == paths,
        crate::diff::map_field_d_same::<crate::schema::MayBeRef310<crate::schema::Path>>(fd),
    ensures
        trace_paths_entries::<V>(paths, paths_ptr, n) == Seq::<PtrView>::empty(),
    decreases n,
{
    if n > 0 && n <= paths.len() {
        lemma_trace_paths_entries_unchanged::<V>(paths, paths_ptr, (n - 1) as nat, fd);
        let e = paths[n - 1].1;
        assert(e matches DiffResult::Same(q) && <crate::schema::MayBeRef310<
            crate::schema::Path,
        > as crate::diff::DiffElem>::d_same(q));
        match e.payload() {
            MayBeRefDiff::Ref(_) => {},
            MayBeRefDiff::Value(pd) => {
                assert(pd is Same && crate::differ::path_d_same(pd->Same_0));
                lemma_trace_path_unchanged::<V>(
                    pd,
                    view_child(paths_ptr, paths[n - 1].0@, e.state()),
                );
            },
        }
        assert(trace_paths_entries::<V>(paths, paths_ptr, n) =~= Seq::<PtrView>::empty());
    }
}

/// Over the difference of a document against itself, a rule that never
/// records an unchanged node — every rule of this crate — records nothing
/// at all: together with the engine's contract, the rule's findings after
/// such a walk are exactly what it held before, and a freshly built rule
/// drains into an empty issue list.
pub proof fn lemma_trace_unchanged_empty<V: DiffVisitor>(root: DiffResult<HttpSchemaDiff>)
    requires
        silent_on_unchanged::<V>(),
        root is Same,
        crate::differ::httpschema_d_same(root->Same_0),
    ensures
        trace_document::<V>(root) == Seq::<PtrView>::empty(),
{
    let rptr = root_view(root);
    assert(calm(rptr));
    assert(!V::records_document(rptr, root));
    if V::descends_document(rptr, root) {
        let doc = root.payload();
        assert(crate::diff::map_field_d_same::<crate::schema::MayBeRef310<
            crate::schema::Path,
        >>(doc.paths));
        match doc.paths {
            DiffResult::Absent => {},
            _ => {
                lemma_trace_paths_entries_unchanged::<V>(
                    doc.paths.payload()@,
                    view_child(rptr, "paths"@, doc.paths.state()),
                    doc.paths.payload()@.len(),
                    doc.paths,
                );
            },
        }
    }
    assert(trace_document::<V>(root) =~= Seq::<PtrView>::empty());
}

/// The issue half of idempotence, for any rule that never records an
/// unchanged node: walking the difference of a document against itself
/// records nothing, so the rule's findings stay exactly what they were and
/// a freshly built rule drains into an empty issue list.
pub proof fn lemma_self_diff_walk_records_nothing<V: DiffVisitor>(
    t: crate::schema::HttpSchema,
    d: DiffResult<HttpSchemaDiff>,
)
    requires
        silent_on_unchanged::<V>(),
        crate::differ::http_schema_diff_ok(d, t, t),
    ensures
        trace_document::<V>(d) == Seq::<PtrView>::empty(),
{
    crate::differ::lemma_diff_self_unchanged(t, d);
    lemma_trace_unchanged_empty::<V>(d);
}

} // verus!
