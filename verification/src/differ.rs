//! The differencing algorithm: how each document object and the whole
//! document are compared, and the idempotence law for the result.
use vstd::prelude::*;

use crate::diff::{
    added_bag, added_bag_ok, added_copy_ok, added_json_ok, added_opt_atoms, added_opt_copy,
    added_opt_elem, added_opt_ident, added_opt_json, added_opt_map, added_opt_string,
    added_opt_type, added_req_str_ok, added_req_string, added_str_ok, added_type_ok, addc,
    atoms_all_same, atoms_field_added_ok, atoms_field_d_same, atoms_field_removed_ok, diff_bag,
    diff_opt_atoms, diff_opt_bool, diff_opt_elem, diff_opt_ident, diff_opt_json, diff_opt_map,
    diff_opt_num, diff_opt_string, diff_opt_type, diff_opt_u64, diff_req_string, dr_atoms_ok,
    dr_bag_ok, dr_copy_ok, dr_flat_same, dr_ident_ok, dr_json_ok, dr_map_ok, dr_req_str_ok,
    dr_str_ok, dr_type_ok, ident_field_added_ok, ident_field_d_same, ident_field_removed_ok,
    keys_of, kc, leftover, lemma_atoms_field_self, lemma_ident_field_self, lemma_map_field_self,
    lemma_opt_self, map_field_added_ok, map_field_d_same, map_field_removed_ok, matched, occ,
    opt_added_ok, opt_d_same, opt_elem_ok, opt_removed_ok, removed_bag, removed_bag_ok,
    removed_copy_ok, removed_json_ok, removed_opt_atoms, removed_opt_copy, removed_opt_elem,
    removed_opt_ident, removed_opt_json, removed_opt_map, removed_opt_string, removed_opt_type,
    removed_req_str_ok, removed_req_string, removed_str_ok, removed_type_ok, AtomDup, AtomEq,
    DiffElem,
};
use crate::diff_core::{DiffResult, MapDiff, MayBeRefCore, VecDiff};
use crate::json::JsonValue;
use crate::schema::{
    Contact, ExternalDoc, HttpSchema, Info, License, MayBeRef310, MediaType, OpenApi310Ref,
    Operation, Parameter, Path, RequestBody, Response, Schema, Tag, Xml,
};
use crate::schema_diff::{
    ContactDiff, ExternalDocDiff, HttpSchemaDiff, InfoDiff, LicenseDiff, MayBeRefDiff,
    MediaTypeDiff, OperationDiff, ParameterDiff, PathDiff, RequestBodyDiff, ResponseDiff,
    SchemaDiff, TagDiff, XmlDiff,
};

verus! {

broadcast use vstd::std_specs::vec::group_vec_axioms;

// ---------------------------------------------------------------------------
// Atomic elements.
// ---------------------------------------------------------------------------
impl AtomEq for String {
    open spec fn aeq(a: String, b: String) -> bool {
        a@ == b@
    }

    proof fn lemma_aeq_refl(a: String) {
    }

    proof fn lemma_aeq_sym(a: String, b: String) {
    }

    proof fn lemma_aeq_trans(a: String, b: String, c: String) {
    }

    fn aeq_exec(a: &String, b: &String) -> (r: bool) {
        *a == *b
    }
}

impl AtomDup for String {
    fn dup(t: &String) -> (r: String) {
        t.clone()
    }
}

/// The natural identity of a document-level tag: its name.
impl AtomEq for Tag {
    open spec fn aeq(a: Tag, b: Tag) -> bool {
        match (a.name, b.name) {
            (Option::None, Option::None) => true,
            (Option::Some(x), Option::Some(y)) => x@ == y@,
            _ => false,
        }
    }

    proof fn lemma_aeq_refl(a: Tag) {
    }

    proof fn lemma_aeq_sym(a: Tag, b: Tag) {
    }

    proof fn lemma_aeq_trans(a: Tag, b: Tag, c: Tag) {
    }

    fn aeq_exec(a: &Tag, b: &Tag) -> (r: bool) {
        match (&a.name, &b.name) {
            (Option::None, Option::None) => true,
            (Option::Some(x), Option::Some(y)) => *x == *y,
            _ => false,
        }
    }
}

impl AtomEq for JsonValue {
    open spec fn aeq(a: JsonValue, b: JsonValue) -> bool {
        crate::json::json_eq(a, b)
    }

    proof fn lemma_aeq_refl(a: JsonValue) {
        crate::json::lemma_json_eq_refl(a);
    }

    proof fn lemma_aeq_sym(a: JsonValue, b: JsonValue) {
        crate::json::lemma_json_eq_sym(a, b);
    }

    proof fn lemma_aeq_trans(a: JsonValue, b: JsonValue, c: JsonValue) {
        crate::json::lemma_json_eq_trans(a, b, c);
    }

    fn aeq_exec(a: &JsonValue, b: &JsonValue) -> (r: bool) {
        crate::json::json_equal(a, b)
    }
}

impl AtomDup for JsonValue {
    fn dup(t: &JsonValue) -> (r: JsonValue) {
        crate::json::json_dup(t)
    }
}

/// The natural identity of a parameter position: the reference string for a
/// referenced parameter, name plus location for an inline one.
impl AtomEq for MayBeRef310<Parameter> {
    open spec fn aeq(a: MayBeRef310<Parameter>, b: MayBeRef310<Parameter>) -> bool {
        match (a, b) {
            (MayBeRefCore::Ref(r1), MayBeRefCore::Ref(r2)) => r1.reference@ == r2.reference@,
            (MayBeRefCore::Value(p1), MayBeRefCore::Value(p2)) => p1.name@ == p2.name@
                && p1.location@ == p2.location@,
            _ => false,
        }
    }

    proof fn lemma_aeq_refl(a: MayBeRef310<Parameter>) {
    }

    proof fn lemma_aeq_sym(a: MayBeRef310<Parameter>, b: MayBeRef310<Parameter>) {
    }

    proof fn lemma_aeq_trans(
        a: MayBeRef310<Parameter>,
        b: MayBeRef310<Parameter>,
        c: MayBeRef310<Parameter>,
    ) {
    }

    fn aeq_exec(a: &MayBeRef310<Parameter>, b: &MayBeRef310<Parameter>) -> (r: bool) {
        match (a, b) {
            (MayBeRefCore::Ref(r1), MayBeRefCore::Ref(r2)) => r1.reference == r2.reference,
            (MayBeRefCore::Value(p1), MayBeRefCore::Value(p2)) => p1.name == p2.name
                && p1.location == p2.location,
            _ => false,
        }
    }
}

/// A reference-or-value node wrapping any diffable inline type: compared as
/// reference strings when either side is a reference, as inline content when
/// both are inline.
impl<T: DiffElem> DiffElem for MayBeRefCore<T, OpenApi310Ref> {
    type D = MayBeRefDiff<T::D>;

    open spec fn elem_ok(
        d: DiffResult<MayBeRefDiff<T::D>>,
        a: MayBeRefCore<T, OpenApi310Ref>,
        b: MayBeRefCore<T, OpenApi310Ref>,
    ) -> bool {
        match (a, b) {
            (MayBeRefCore::Ref(r1), MayBeRefCore::Ref(r2)) => if r1.reference@ == r2.reference@ {
                d matches DiffResult::Same(MayBeRefDiff::Ref(DiffResult::Same(s))) && s@
                    == r2.reference@
            } else {
                d matches DiffResult::Updated(MayBeRefDiff::Ref(DiffResult::Updated(s))) && s@
                    == r2.reference@
            },
            (MayBeRefCore::Ref(r1), MayBeRefCore::Value(_)) => d matches DiffResult::Updated(
                MayBeRefDiff::Ref(DiffResult::Removed(s)),
            ) && s@ == r1.reference@,
            (MayBeRefCore::Value(_), MayBeRefCore::Ref(r2)) => d matches DiffResult::Updated(
                MayBeRefDiff::Ref(DiffResult::Added(s)),
            ) && s@ == r2.reference@,
            (MayBeRefCore::Value(v1), MayBeRefCore::Value(v2)) => match d {
                DiffResult::Same(p) => p matches MayBeRefDiff::Value(id) && T::elem_ok(id, v1, v2)
                    && id is Same,
                DiffResult::Updated(p) => p matches MayBeRefDiff::Value(id) && T::elem_ok(
                    id,
                    v1,
                    v2,
                ) && !(id is Same),
                _ => false,
            },
        }
    }

    open spec fn added_ok(p: MayBeRefDiff<T::D>, t: MayBeRefCore<T, OpenApi310Ref>) -> bool {
        match t {
            MayBeRefCore::Ref(r) => p matches MayBeRefDiff::Ref(DiffResult::Added(s)) && s@
                == r.reference@,
            MayBeRefCore::Value(v) => p matches MayBeRefDiff::Value(DiffResult::Added(q))
                && T::added_ok(q, v),
        }
    }

    open spec fn removed_ok(p: MayBeRefDiff<T::D>, t: MayBeRefCore<T, OpenApi310Ref>) -> bool {
        match t {
            MayBeRefCore::Ref(r) => p matches MayBeRefDiff::Ref(DiffResult::Removed(s)) && s@
                == r.reference@,
            MayBeRefCore::Value(v) => p matches MayBeRefDiff::Value(DiffResult::Removed(q))
                && T::removed_ok(q, v),
        }
    }

    open spec fn d_same(p: MayBeRefDiff<T::D>) -> bool {
        match p {
            MayBeRefDiff::Ref(DiffResult::Same(_)) => true,
            MayBeRefDiff::Value(DiffResult::Same(q)) => T::d_same(q),
            _ => false,
        }
    }

    fn diff(
        a: &MayBeRefCore<T, OpenApi310Ref>,
        b: &MayBeRefCore<T, OpenApi310Ref>,
    ) -> (d: DiffResult<MayBeRefDiff<T::D>>) {
        match (a, b) {
            (MayBeRefCore::Ref(r1), MayBeRefCore::Ref(r2)) => {
                if r1.reference == r2.reference {
                    DiffResult::Same(MayBeRefDiff::Ref(DiffResult::Same(r2.reference.clone())))
                } else {
                    DiffResult::Updated(
                        MayBeRefDiff::Ref(DiffResult::Updated(r2.reference.clone())),
                    )
                }
            },
            (MayBeRefCore::Ref(r1), MayBeRefCore::Value(_)) => DiffResult::Updated(
                MayBeRefDiff::Ref(DiffResult::Removed(r1.reference.clone())),
            ),
            (MayBeRefCore::Value(_), MayBeRefCore::Ref(r2)) => DiffResult::Updated(
                MayBeRefDiff::Ref(DiffResult::Added(r2.reference.clone())),
            ),
            (MayBeRefCore::Value(v1), MayBeRefCore::Value(v2)) => {
                let id = T::diff(v1, v2);
                if id.is_same() {
                    DiffResult::Same(MayBeRefDiff::Value(id))
                } else {
                    DiffResult::Updated(MayBeRefDiff::Value(id))
                }
            },
        }
    }

    fn added(t: &MayBeRefCore<T, OpenApi310Ref>) -> (p: MayBeRefDiff<T::D>) {
        match t {
            MayBeRefCore::Ref(r) => MayBeRefDiff::Ref(DiffResult::Added(r.reference.clone())),
            MayBeRefCore::Value(v) => MayBeRefDiff::Value(DiffResult::Added(T::added(v))),
        }
    }

    fn removed(t: &MayBeRefCore<T, OpenApi310Ref>) -> (p: MayBeRefDiff<T::D>) {
        match t {
            MayBeRefCore::Ref(r) => MayBeRefDiff::Ref(DiffResult::Removed(r.reference.clone())),
            MayBeRefCore::Value(v) => MayBeRefDiff::Value(DiffResult::Removed(T::removed(v))),
        }
    }

    proof fn lemma_self(t: MayBeRefCore<T, OpenApi310Ref>, d: DiffResult<MayBeRefDiff<T::D>>) {
        match t {
            MayBeRefCore::Ref(r) => {},
            MayBeRefCore::Value(v) => {
                match d {
                    DiffResult::Same(p) => {
                        match p {
                            MayBeRefDiff::Value(id) => {
                                T::lemma_self(v, id);
                            },
                            _ => {},
                        }
                    },
                    DiffResult::Updated(p) => {
                        match p {
                            MayBeRefDiff::Value(id) => {
                                T::lemma_self(v, id);
                            },
                            _ => {},
                        }
                    },
                    _ => {},
                }
            },
        }
    }
}

pub open spec fn contact_fields_ok(p: ContactDiff, a: Contact, b: Contact) -> bool {
    &&& dr_str_ok(p.name, a.name, b.name)
    &&& dr_str_ok(p.url, a.url, b.url)
    &&& dr_str_ok(p.email, a.email, b.email)
}

pub open spec fn contact_added_ok(p: ContactDiff, t: Contact) -> bool {
    &&& added_str_ok(p.name, t.name)
    &&& added_str_ok(p.url, t.url)
    &&& added_str_ok(p.email, t.email)
}

pub open spec fn contact_removed_ok(p: ContactDiff, t: Contact) -> bool {
    &&& removed_str_ok(p.name, t.name)
    &&& removed_str_ok(p.url, t.url)
    &&& removed_str_ok(p.email, t.email)
}

pub open spec fn contact_same(p: ContactDiff) -> bool {
    &&& dr_flat_same(p.name)
    &&& dr_flat_same(p.url)
    &&& dr_flat_same(p.email)
}

pub open spec fn contact_d_same(p: ContactDiff) -> bool {
    &&& dr_flat_same(p.name)
    &&& dr_flat_same(p.url)
    &&& dr_flat_same(p.email)
}

impl DiffElem for Contact {
    type D = ContactDiff;

    open spec fn elem_ok(d: DiffResult<ContactDiff>, a: Contact, b: Contact) -> bool {
        match d {
            DiffResult::Same(p) => contact_fields_ok(p, a, b) && contact_same(p),
            DiffResult::Updated(p) => contact_fields_ok(p, a, b) && !contact_same(p),
            _ => false,
        }
    }

    open spec fn added_ok(p: ContactDiff, t: Contact) -> bool {
        contact_added_ok(p, t)
    }

    open spec fn removed_ok(p: ContactDiff, t: Contact) -> bool {
        contact_removed_ok(p, t)
    }

    open spec fn d_same(p: ContactDiff) -> bool {
        contact_d_same(p)
    }

    #[verifier::rlimit(100)]
    fn diff(a: &Contact, b: &Contact) -> (d: DiffResult<ContactDiff>) {
        let p = ContactDiff {
            name: diff_opt_string(&a.name, &b.name),
        url: diff_opt_string(&a.url, &b.url),
        email: diff_opt_string(&a.email, &b.email),
        };
        let same = p.name.is_flat_same()
        && p.url.is_flat_same()
        && p.email.is_flat_same();
        if same {
            DiffResult::Same(p)
        } else {
            DiffResult::Updated(p)
        }
    }

    #[verifier::rlimit(100)]
    fn added(t: &Contact) -> (p: ContactDiff) {
        ContactDiff {
            name: added_opt_string(&t.name),
        url: added_opt_string(&t.url),
        email: added_opt_string(&t.email),
        }
    }

    #[verifier::rlimit(100)]
    fn removed(t: &Contact) -> (p: ContactDiff) {
        ContactDiff {
            name: removed_opt_string(&t.name),
        url: removed_opt_string(&t.url),
        email: removed_opt_string(&t.email),
        }
    }

    #[verifier::rlimit(100)]
    proof fn lemma_self(t: Contact, d: DiffResult<ContactDiff>) {
        match d {
            DiffResult::Same(p) => {
                // scalar fields compared with themselves
            },
            DiffResult::Updated(p) => {
                // scalar fields compared with themselves
                assert(contact_same(p));
            },
            _ => {},
        }
    }
}


pub open spec fn license_fields_ok(p: LicenseDiff, a: License, b: License) -> bool {
    &&& dr_str_ok(p.name, a.name, b.name)
    &&& dr_str_ok(p.url, a.url, b.url)
}

pub open spec fn license_added_ok(p: LicenseDiff, t: License) -> bool {
    &&& added_str_ok(p.name, t.name)
    &&& added_str_ok(p.url, t.url)
}

pub open spec fn license_removed_ok(p: LicenseDiff, t: License) -> bool {
    &&& removed_str_ok(p.name, t.name)
    &&& removed_str_ok(p.url, t.url)
}

pub open spec fn license_same(p: LicenseDiff) -> bool {
    &&& dr_flat_same(p.name)
    &&& dr_flat_same(p.url)
}

pub open spec fn license_d_same(p: LicenseDiff) -> bool {
    &&& dr_flat_same(p.name)
    &&& dr_flat_same(p.url)
}

impl DiffElem for License {
    type D = LicenseDiff;

    open spec fn elem_ok(d: DiffResult<LicenseDiff>, a: License, b: License) -> bool {
        match d {
            DiffResult::Same(p) => license_fields_ok(p, a, b) && license_same(p),
            DiffResult::Updated(p) => license_fields_ok(p, a, b) && !license_same(p),
            _ => false,
        }
    }

    open spec fn added_ok(p: LicenseDiff, t: License) -> bool {
        license_added_ok(p, t)
    }

    open spec fn removed_ok(p: LicenseDiff, t: License) -> bool {
        license_removed_ok(p, t)
    }

    open spec fn d_same(p: LicenseDiff) -> bool {
        license_d_same(p)
    }

    #[verifier::rlimit(100)]
    fn diff(a: &License, b: &License) -> (d: DiffResult<LicenseDiff>) {
        let p = LicenseDiff {
            name: diff_opt_string(&a.name, &b.name),
        url: diff_opt_string(&a.url, &b.url),
        };
        let same = p.name.is_flat_same()
        && p.url.is_flat_same();
        if same {
            DiffResult::Same(p)
        } else {
            DiffResult::Updated(p)
        }
    }

    #[verifier::rlimit(100)]
    fn added(t: &License) -> (p: LicenseDiff) {
        LicenseDiff {
            name: added_opt_string(&t.name),
        url: added_opt_string(&t.url),
        }
    }

    #[verifier::rlimit(100)]
    fn removed(t: &License) -> (p: LicenseDiff) {
        LicenseDiff {
            name: removed_opt_string(&t.name),
        url: removed_opt_string(&t.url),
        }
    }

    #[verifier::rlimit(100)]
    proof fn lemma_self(t: License, d: DiffResult<LicenseDiff>) {
        match d {
            DiffResult::Same(p) => {
                // scalar fields compared with themselves
            },
            DiffResult::Updated(p) => {
                // scalar fields compared with themselves
                assert(license_same(p));
            },
            _ => {},
        }
    }
}


pub open spec fn externaldoc_fields_ok(p: ExternalDocDiff, a: ExternalDoc, b: ExternalDoc) -> bool {
    &&& dr_str_ok(p.url, a.url, b.url)
    &&& dr_str_ok(p.description, a.description, b.description)
}

pub open spec fn externaldoc_added_ok(p: ExternalDocDiff, t: ExternalDoc) -> bool {
    &&& added_str_ok(p.url, t.url)
    &&& added_str_ok(p.description, t.description)
}

pub open spec fn externaldoc_removed_ok(p: ExternalDocDiff, t: ExternalDoc) -> bool {
    &&& removed_str_ok(p.url, t.url)
    &&& removed_str_ok(p.description, t.description)
}

pub open spec fn externaldoc_same(p: ExternalDocDiff) -> bool {
    &&& dr_flat_same(p.url)
    &&& dr_flat_same(p.description)
}

pub open spec fn externaldoc_d_same(p: ExternalDocDiff) -> bool {
    &&& dr_flat_same(p.url)
    &&& dr_flat_same(p.description)
}

impl DiffElem for ExternalDoc {
    type D = ExternalDocDiff;

    open spec fn elem_ok(d: DiffResult<ExternalDocDiff>, a: ExternalDoc, b: ExternalDoc) -> bool {
        match d {
            DiffResult::Same(p) => externaldoc_fields_ok(p, a, b) && externaldoc_same(p),
            DiffResult::Updated(p) => externaldoc_fields_ok(p, a, b) && !externaldoc_same(p),
            _ => false,
        }
    }

    open spec fn added_ok(p: ExternalDocDiff, t: ExternalDoc) -> bool {
        externaldoc_added_ok(p, t)
    }

    open spec fn removed_ok(p: ExternalDocDiff, t: ExternalDoc) -> bool {
        externaldoc_removed_ok(p, t)
    }

    open spec fn d_same(p: ExternalDocDiff) -> bool {
        externaldoc_d_same(p)
    }

    #[verifier::rlimit(100)]
    fn diff(a: &ExternalDoc, b: &ExternalDoc) -> (d: DiffResult<ExternalDocDiff>) {
        let p = ExternalDocDiff {
            url: diff_opt_string(&a.url, &b.url),
        description: diff_opt_string(&a.description, &b.description),
        };
        let same = p.url.is_flat_same()
        && p.description.is_flat_same();
        if same {
            DiffResult::Same(p)
        } else {
            DiffResult::Updated(p)
        }
    }

    #[verifier::rlimit(100)]
    fn added(t: &ExternalDoc) -> (p: ExternalDocDiff) {
        ExternalDocDiff {
            url: added_opt_string(&t.url),
        description: added_opt_string(&t.description),
        }
    }

    #[verifier::rlimit(100)]
    fn removed(t: &ExternalDoc) -> (p: ExternalDocDiff) {
        ExternalDocDiff {
            url: removed_opt_string(&t.url),
        description: removed_opt_string(&t.description),
        }
    }

    #[verifier::rlimit(100)]
    proof fn lemma_self(t: ExternalDoc, d: DiffResult<ExternalDocDiff>) {
        match d {
            DiffResult::Same(p) => {
                // scalar fields compared with themselves
            },
            DiffResult::Updated(p) => {
                // scalar fields compared with themselves
                assert(externaldoc_same(p));
            },
            _ => {},
        }
    }
}



pub open spec fn xml_fields_ok(p: XmlDiff, a: Xml, b: Xml) -> bool {
    &&& dr_str_ok(p.name, a.name, b.name)
    &&& dr_str_ok(p.namespace, a.namespace, b.namespace)
    &&& dr_str_ok(p.prefix, a.prefix, b.prefix)
    &&& dr_copy_ok(p.attribute, a.attribute, b.attribute, ((a.attribute matches Option::Some(x) && b.attribute matches Option::Some(y)) ==> a.attribute->0 == b.attribute->0))
    &&& dr_copy_ok(p.wrapped, a.wrapped, b.wrapped, ((a.wrapped matches Option::Some(x) && b.wrapped matches Option::Some(y)) ==> a.wrapped->0 == b.wrapped->0))
}

pub open spec fn xml_added_ok(p: XmlDiff, t: Xml) -> bool {
    &&& added_str_ok(p.name, t.name)
    &&& added_str_ok(p.namespace, t.namespace)
    &&& added_str_ok(p.prefix, t.prefix)
    &&& added_copy_ok(p.attribute, t.attribute)
    &&& added_copy_ok(p.wrapped, t.wrapped)
}

pub open spec fn xml_removed_ok(p: XmlDiff, t: Xml) -> bool {
    &&& removed_str_ok(p.name, t.name)
    &&& removed_str_ok(p.namespace, t.namespace)
    &&& removed_str_ok(p.prefix, t.prefix)
    &&& removed_copy_ok(p.attribute, t.attribute)
    &&& removed_copy_ok(p.wrapped, t.wrapped)
}

pub open spec fn xml_same(p: XmlDiff) -> bool {
    &&& dr_flat_same(p.name)
    &&& dr_flat_same(p.namespace)
    &&& dr_flat_same(p.prefix)
    &&& dr_flat_same(p.attribute)
    &&& dr_flat_same(p.wrapped)
}

pub open spec fn xml_d_same(p: XmlDiff) -> bool {
    &&& dr_flat_same(p.name)
    &&& dr_flat_same(p.namespace)
    &&& dr_flat_same(p.prefix)
    &&& dr_flat_same(p.attribute)
    &&& dr_flat_same(p.wrapped)
}

impl DiffElem for Xml {
    type D = XmlDiff;

    open spec fn elem_ok(d: DiffResult<XmlDiff>, a: Xml, b: Xml) -> bool {
        match d {
            DiffResult::Same(p) => xml_fields_ok(p, a, b) && xml_same(p),
            DiffResult::Updated(p) => xml_fields_ok(p, a, b) && !xml_same(p),
            _ => false,
        }
    }

    open spec fn added_ok(p: XmlDiff, t: Xml) -> bool {
        xml_added_ok(p, t)
    }

    open spec fn removed_ok(p: XmlDiff, t: Xml) -> bool {
        xml_removed_ok(p, t)
    }

    open spec fn d_same(p: XmlDiff) -> bool {
        xml_d_same(p)
    }

    #[verifier::rlimit(100)]
    fn diff(a: &Xml, b: &Xml) -> (d: DiffResult<XmlDiff>) {
        let p = XmlDiff {
            name: diff_opt_string(&a.name, &b.name),
        namespace: diff_opt_string(&a.namespace, &b.namespace),
        prefix: diff_opt_string(&a.prefix, &b.prefix),
        attribute: diff_opt_bool(&a.attribute, &b.attribute),
        wrapped: diff_opt_bool(&a.wrapped, &b.wrapped),
        };
        let same = p.name.is_flat_same()
        && p.namespace.is_flat_same()
        && p.prefix.is_flat_same()
        && p.attribute.is_flat_same()
        && p.wrapped.is_flat_same();
        if same {
            DiffResult::Same(p)
        } else {
            DiffResult::Updated(p)
        }
    }

    #[verifier::rlimit(100)]
    fn added(t: &Xml) -> (p: XmlDiff) {
        XmlDiff {
            name: added_opt_string(&t.name),
        namespace: added_opt_string(&t.namespace),
        prefix: added_opt_string(&t.prefix),
        attribute: added_opt_copy(&t.attribute),
        wrapped: added_opt_copy(&t.wrapped),
        }
    }

    #[verifier::rlimit(100)]
    fn removed(t: &Xml) -> (p: XmlDiff) {
        XmlDiff {
            name: removed_opt_string(&t.name),
        namespace: removed_opt_string(&t.namespace),
        prefix: removed_opt_string(&t.prefix),
        attribute: removed_opt_copy(&t.attribute),
        wrapped: removed_opt_copy(&t.wrapped),
        }
    }

    #[verifier::rlimit(100)]
    proof fn lemma_self(t: Xml, d: DiffResult<XmlDiff>) {
        match d {
            DiffResult::Same(p) => {
                // scalar fields compared with themselves
            },
            DiffResult::Updated(p) => {
                // scalar fields compared with themselves
                assert(xml_same(p));
            },
            _ => {},
        }
    }
}

pub open spec fn tag_fields_ok(p: TagDiff, a: Tag, b: Tag) -> bool {
    &&& dr_str_ok(p.name, a.name, b.name)
    &&& dr_str_ok(p.description, a.description, b.description)
    &&& opt_elem_ok::<ExternalDoc>(p.external_doc, a.external_doc, b.external_doc)
}

pub open spec fn tag_added_ok(p: TagDiff, t: Tag) -> bool {
    &&& added_str_ok(p.name, t.name)
    &&& added_str_ok(p.description, t.description)
    &&& opt_added_ok::<ExternalDoc>(p.external_doc, t.external_doc)
}

pub open spec fn tag_removed_ok(p: TagDiff, t: Tag) -> bool {
    &&& removed_str_ok(p.name, t.name)
    &&& removed_str_ok(p.description, t.description)
    &&& opt_removed_ok::<ExternalDoc>(p.external_doc, t.external_doc)
}

pub open spec fn tag_same(p: TagDiff) -> bool {
    &&& dr_flat_same(p.name)
    &&& dr_flat_same(p.description)
    &&& dr_flat_same(p.external_doc)
}

pub open spec fn tag_d_same(p: TagDiff) -> bool {
    &&& dr_flat_same(p.name)
    &&& dr_flat_same(p.description)
    &&& opt_d_same::<ExternalDoc>(p.external_doc)
}

impl DiffElem for Tag {
    type D = TagDiff;

    open spec fn elem_ok(d: DiffResult<TagDiff>, a: Tag, b: Tag) -> bool {
        match d {
            DiffResult::Same(p) => tag_fields_ok(p, a, b) && tag_same(p),
            DiffResult::Updated(p) => tag_fields_ok(p, a, b) && !tag_same(p),
            _ => false,
        }
    }

    open spec fn added_ok(p: TagDiff, t: Tag) -> bool {
        tag_added_ok(p, t)
    }

    open spec fn removed_ok(p: TagDiff, t: Tag) -> bool {
        tag_removed_ok(p, t)
    }

    open spec fn d_same(p: TagDiff) -> bool {
        tag_d_same(p)
    }

    #[verifier::rlimit(100)]
    fn diff(a: &Tag, b: &Tag) -> (d: DiffResult<TagDiff>) {
        let p = TagDiff {
            name: diff_opt_string(&a.name, &b.name),
        description: diff_opt_string(&a.description, &b.description),
        external_doc: diff_opt_elem(&a.external_doc, &b.external_doc),
        };
        let same = p.name.is_flat_same()
        && p.description.is_flat_same()
        && p.external_doc.is_flat_same();
        if same {
            DiffResult::Same(p)
        } else {
            DiffResult::Updated(p)
        }
    }

    #[verifier::rlimit(100)]
    fn added(t: &Tag) -> (p: TagDiff) {
        TagDiff {
            name: added_opt_string(&t.name),
        description: added_opt_string(&t.description),
        external_doc: added_opt_elem(&t.external_doc),
        }
    }

    #[verifier::rlimit(100)]
    fn removed(t: &Tag) -> (p: TagDiff) {
        TagDiff {
            name: removed_opt_string(&t.name),
        description: removed_opt_string(&t.description),
        external_doc: removed_opt_elem(&t.external_doc),
        }
    }

    #[verifier::rlimit(100)]
    proof fn lemma_self(t: Tag, d: DiffResult<TagDiff>) {
        match d {
            DiffResult::Same(p) => {
                lemma_opt_self::<ExternalDoc>(t.external_doc, p.external_doc);
            },
            DiffResult::Updated(p) => {
                lemma_opt_self::<ExternalDoc>(t.external_doc, p.external_doc);
                assert(tag_same(p));
            },
            _ => {},
        }
    }
}

pub open spec fn info_fields_ok(p: InfoDiff, a: Info, b: Info) -> bool {
    &&& dr_str_ok(p.title, a.title, b.title)
    &&& dr_str_ok(p.description, a.description, b.description)
    &&& dr_str_ok(p.terms_of_service, a.terms_of_service, b.terms_of_service)
    &&& opt_elem_ok::<Contact>(p.contact, a.contact, b.contact)
    &&& opt_elem_ok::<License>(p.license, a.license, b.license)
    &&& dr_str_ok(p.version, a.version, b.version)
}

pub open spec fn info_added_ok(p: InfoDiff, t: Info) -> bool {
    &&& added_str_ok(p.title, t.title)
    &&& added_str_ok(p.description, t.description)
    &&& added_str_ok(p.terms_of_service, t.terms_of_service)
    &&& opt_added_ok::<Contact>(p.contact, t.contact)
    &&& opt_added_ok::<License>(p.license, t.license)
    &&& added_str_ok(p.version, t.version)
}

pub open spec fn info_removed_ok(p: InfoDiff, t: Info) -> bool {
    &&& removed_str_ok(p.title, t.title)
    &&& removed_str_ok(p.description, t.description)
    &&& removed_str_ok(p.terms_of_service, t.terms_of_service)
    &&& opt_removed_ok::<Contact>(p.contact, t.contact)
    &&& opt_removed_ok::<License>(p.license, t.license)
    &&& removed_str_ok(p.version, t.version)
}

pub open spec fn info_same(p: InfoDiff) -> bool {
    &&& dr_flat_same(p.title)
    &&& dr_flat_same(p.description)
    &&& dr_flat_same(p.terms_of_service)
    &&& dr_flat_same(p.contact)
    &&& dr_flat_same(p.license)
    &&& dr_flat_same(p.version)
}

pub open spec fn info_d_same(p: InfoDiff) -> bool {
    &&& dr_flat_same(p.title)
    &&& dr_flat_same(p.description)
    &&& dr_flat_same(p.terms_of_service)
    &&& opt_d_same::<Contact>(p.contact)
    &&& opt_d_same::<License>(p.license)
    &&& dr_flat_same(p.version)
}

impl DiffElem for Info {
    type D = InfoDiff;

    open spec fn elem_ok(d: DiffResult<InfoDiff>, a: Info, b: Info) -> bool {
        match d {
            DiffResult::Same(p) => info_fields_ok(p, a, b) && info_same(p),
            DiffResult::Updated(p) => info_fields_ok(p, a, b) && !info_same(p),
            _ => false,
        }
    }

    open spec fn added_ok(p: InfoDiff, t: Info) -> bool {
        info_added_ok(p, t)
    }

    open spec fn removed_ok(p: InfoDiff, t: Info) -> bool {
        info_removed_ok(p, t)
    }

    open spec fn d_same(p: InfoDiff) -> bool {
        info_d_same(p)
    }

    #[verifier::rlimit(100)]
    fn diff(a: &Info, b: &Info) -> (d: DiffResult<InfoDiff>) {
        let p = InfoDiff {
            title: diff_opt_string(&a.title, &b.title),
        description: diff_opt_string(&a.description, &b.description),
        terms_of_service: diff_opt_string(&a.terms_of_service, &b.terms_of_service),
        contact: diff_opt_elem(&a.contact, &b.contact),
        license: diff_opt_elem(&a.license, &b.license),
        version: diff_opt_string(&a.version, &b.version),
        };
        let same = p.title.is_flat_same()
        && p.description.is_flat_same()
        && p.terms_of_service.is_flat_same()
        && p.contact.is_flat_same()
        && p.license.is_flat_same()
        && p.version.is_flat_same();
        if same {
            DiffResult::Same(p)
        } else {
            DiffResult::Updated(p)
        }
    }

    #[verifier::rlimit(100)]
    fn added(t: &Info) -> (p: InfoDiff) {
        InfoDiff {
            title: added_opt_string(&t.title),
        description: added_opt_string(&t.description),
        terms_of_service: added_opt_string(&t.terms_of_service),
        contact: added_opt_elem(&t.contact),
        license: added_opt_elem(&t.license),
        version: added_opt_string(&t.version),
        }
    }

    #[verifier::rlimit(100)]
    fn removed(t: &Info) -> (p: InfoDiff) {
        InfoDiff {
            title: removed_opt_string(&t.title),
        description: removed_opt_string(&t.description),
        terms_of_service: removed_opt_string(&t.terms_of_service),
        contact: removed_opt_elem(&t.contact),
        license: removed_opt_elem(&t.license),
        version: removed_opt_string(&t.version),
        }
    }

    #[verifier::rlimit(100)]
    proof fn lemma_self(t: Info, d: DiffResult<InfoDiff>) {
        match d {
            DiffResult::Same(p) => {
                lemma_opt_self::<Contact>(t.contact, p.contact);
    lemma_opt_self::<License>(t.license, p.license);
            },
            DiffResult::Updated(p) => {
                lemma_opt_self::<Contact>(t.contact, p.contact);
    lemma_opt_self::<License>(t.license, p.license);
                assert(info_same(p));
            },
            _ => {},
        }
    }
}


pub open spec fn mediatype_fields_ok(p: MediaTypeDiff, a: MediaType, b: MediaType) -> bool {
    &&& omrs_ok(p.schema, a.schema, b.schema)
    &&& dr_json_ok(p.example, a.example, b.example)
}

pub open spec fn mediatype_added_ok(p: MediaTypeDiff, t: MediaType) -> bool {
    &&& omrs_added_ok(p.schema, t.schema)
    &&& added_json_ok(p.example, t.example)
}

pub open spec fn mediatype_removed_ok(p: MediaTypeDiff, t: MediaType) -> bool {
    &&& omrs_removed_ok(p.schema, t.schema)
    &&& removed_json_ok(p.example, t.example)
}

pub open spec fn mediatype_same(p: MediaTypeDiff) -> bool {
    &&& dr_flat_same(p.schema)
    &&& dr_flat_same(p.example)
}

pub open spec fn mediatype_d_same(p: MediaTypeDiff) -> bool {
    &&& omrs_d_same(p.schema)
    &&& dr_flat_same(p.example)
}

impl DiffElem for MediaType {
    type D = MediaTypeDiff;

    open spec fn elem_ok(d: DiffResult<MediaTypeDiff>, a: MediaType, b: MediaType) -> bool {
        match d {
            DiffResult::Same(p) => mediatype_fields_ok(p, a, b) && mediatype_same(p),
            DiffResult::Updated(p) => mediatype_fields_ok(p, a, b) && !mediatype_same(p),
            _ => false,
        }
    }

    open spec fn added_ok(p: MediaTypeDiff, t: MediaType) -> bool {
        mediatype_added_ok(p, t)
    }

    open spec fn removed_ok(p: MediaTypeDiff, t: MediaType) -> bool {
        mediatype_removed_ok(p, t)
    }

    open spec fn d_same(p: MediaTypeDiff) -> bool {
        mediatype_d_same(p)
    }

    #[verifier::rlimit(100)]
    fn diff(a: &MediaType, b: &MediaType) -> (d: DiffResult<MediaTypeDiff>) {
        let p = MediaTypeDiff {
            schema: diff_omrs(&a.schema, &b.schema),
        example: diff_opt_json(&a.example, &b.example),
        };
        let same = p.schema.is_flat_same()
        && p.example.is_flat_same();
        if same {
            DiffResult::Same(p)
        } else {
            DiffResult::Updated(p)
        }
    }

    #[verifier::rlimit(100)]
    fn added(t: &MediaType) -> (p: MediaTypeDiff) {
        MediaTypeDiff {
            schema: added_omrs(&t.schema),
        example: added_opt_json(&t.example),
        }
    }

    #[verifier::rlimit(100)]
    fn removed(t: &MediaType) -> (p: MediaTypeDiff) {
        MediaTypeDiff {
            schema: removed_omrs(&t.schema),
        example: removed_opt_json(&t.example),
        }
    }

    #[verifier::rlimit(100)]
    proof fn lemma_self(t: MediaType, d: DiffResult<MediaTypeDiff>) {
        match d {
            DiffResult::Same(p) => {
                lemma_omrs_self(t.schema, p.schema);
    match t.example { Option::Some(x) => crate::json::lemma_json_eq_refl(x), Option::None => {} }
            },
            DiffResult::Updated(p) => {
                lemma_omrs_self(t.schema, p.schema);
    match t.example { Option::Some(x) => crate::json::lemma_json_eq_refl(x), Option::None => {} }
                assert(mediatype_same(p));
            },
            _ => {},
        }
    }
}


pub open spec fn parameter_fields_ok(p: ParameterDiff, a: Parameter, b: Parameter) -> bool {
    &&& dr_req_str_ok(p.name, a.name, b.name)
    &&& dr_req_str_ok(p.location, a.location, b.location)
    &&& dr_str_ok(p.description, a.description, b.description)
    &&& dr_copy_ok(p.required, a.required, b.required, ((a.required matches Option::Some(x) && b.required matches Option::Some(y)) ==> a.required->0 == b.required->0))
    &&& dr_copy_ok(p.deprecated, a.deprecated, b.deprecated, ((a.deprecated matches Option::Some(x) && b.deprecated matches Option::Some(y)) ==> a.deprecated->0 == b.deprecated->0))
    &&& omrs_ok(p.schema, a.schema, b.schema)
    &&& dr_bag_ok(p.custom_fields, a.custom_fields, b.custom_fields)
}

pub open spec fn parameter_added_ok(p: ParameterDiff, t: Parameter) -> bool {
    &&& added_req_str_ok(p.name, t.name)
    &&& added_req_str_ok(p.location, t.location)
    &&& added_str_ok(p.description, t.description)
    &&& added_copy_ok(p.required, t.required)
    &&& added_copy_ok(p.deprecated, t.deprecated)
    &&& omrs_added_ok(p.schema, t.schema)
    &&& added_bag_ok(p.custom_fields, t.custom_fields)
}

pub open spec fn parameter_removed_ok(p: ParameterDiff, t: Parameter) -> bool {
    &&& removed_req_str_ok(p.name, t.name)
    &&& removed_req_str_ok(p.location, t.location)
    &&& removed_str_ok(p.description, t.description)
    &&& removed_copy_ok(p.required, t.required)
    &&& removed_copy_ok(p.deprecated, t.deprecated)
    &&& omrs_removed_ok(p.schema, t.schema)
    &&& removed_bag_ok(p.custom_fields, t.custom_fields)
}

pub open spec fn parameter_same(p: ParameterDiff) -> bool {
    &&& dr_flat_same(p.name)
    &&& dr_flat_same(p.location)
    &&& dr_flat_same(p.description)
    &&& dr_flat_same(p.required)
    &&& dr_flat_same(p.deprecated)
    &&& dr_flat_same(p.schema)
    &&& dr_flat_same(p.custom_fields)
}

pub open spec fn parameter_d_same(p: ParameterDiff) -> bool {
    &&& dr_flat_same(p.name)
    &&& dr_flat_same(p.location)
    &&& dr_flat_same(p.description)
    &&& dr_flat_same(p.required)
    &&& dr_flat_same(p.deprecated)
    &&& omrs_d_same(p.schema)
    &&& dr_flat_same(p.custom_fields)
}

impl DiffElem for Parameter {
    type D = ParameterDiff;

    open spec fn elem_ok(d: DiffResult<ParameterDiff>, a: Parameter, b: Parameter) -> bool {
        match d {
            DiffResult::Same(p) => parameter_fields_ok(p, a, b) && parameter_same(p),
            DiffResult::Updated(p) => parameter_fields_ok(p, a, b) && !parameter_same(p),
            _ => false,
        }
    }

    open spec fn added_ok(p: ParameterDiff, t: Parameter) -> bool {
        parameter_added_ok(p, t)
    }

    open spec fn removed_ok(p: ParameterDiff, t: Parameter) -> bool {
        parameter_removed_ok(p, t)
    }

    open spec fn d_same(p: ParameterDiff) -> bool {
        parameter_d_same(p)
    }

    #[verifier::rlimit(100)]
    fn diff(a: &Parameter, b: &Parameter) -> (d: DiffResult<ParameterDiff>) {
        let p = ParameterDiff {
            name: diff_req_string(&a.name, &b.name),
        location: diff_req_string(&a.location, &b.location),
        description: diff_opt_string(&a.description, &b.description),
        required: diff_opt_bool(&a.required, &b.required),
        deprecated: diff_opt_bool(&a.deprecated, &b.deprecated),
        schema: diff_omrs(&a.schema, &b.schema),
        custom_fields: diff_bag(&a.custom_fields, &b.custom_fields),
        };
        let same = p.name.is_flat_same()
        && p.location.is_flat_same()
        && p.description.is_flat_same()
        && p.required.is_flat_same()
        && p.deprecated.is_flat_same()
        && p.schema.is_flat_same()
        && p.custom_fields.is_flat_same();
        if same {
            DiffResult::Same(p)
        } else {
            DiffResult::Updated(p)
        }
    }

    #[verifier::rlimit(100)]
    fn added(t: &Parameter) -> (p: ParameterDiff) {
        ParameterDiff {
            name: added_req_string(&t.name),
        location: added_req_string(&t.location),
        description: added_opt_string(&t.description),
        required: added_opt_copy(&t.required),
        deprecated: added_opt_copy(&t.deprecated),
        schema: added_omrs(&t.schema),
        custom_fields: added_bag(&t.custom_fields),
        }
    }

    #[verifier::rlimit(100)]
    fn removed(t: &Parameter) -> (p: ParameterDiff) {
        ParameterDiff {
            name: removed_req_string(&t.name),
        location: removed_req_string(&t.location),
        description: removed_opt_string(&t.description),
        required: removed_opt_copy(&t.required),
        deprecated: removed_opt_copy(&t.deprecated),
        schema: removed_omrs(&t.schema),
        custom_fields: removed_bag(&t.custom_fields),
        }
    }

    #[verifier::rlimit(100)]
    proof fn lemma_self(t: Parameter, d: DiffResult<ParameterDiff>) {
        match d {
            DiffResult::Same(p) => {
                lemma_omrs_self(t.schema, p.schema);
    crate::json::lemma_json_entries_eq_refl(t.custom_fields@);
            },
            DiffResult::Updated(p) => {
                lemma_omrs_self(t.schema, p.schema);
    crate::json::lemma_json_entries_eq_refl(t.custom_fields@);
                assert(parameter_same(p));
            },
            _ => {},
        }
    }
}


pub open spec fn requestbody_fields_ok(p: RequestBodyDiff, a: RequestBody, b: RequestBody) -> bool {
    &&& dr_str_ok(p.description, a.description, b.description)
    &&& dr_map_ok::<MediaType>(p.content, a.content, b.content)
    &&& dr_copy_ok(p.required, a.required, b.required, ((a.required matches Option::Some(x) && b.required matches Option::Some(y)) ==> a.required->0 == b.required->0))
}

pub open spec fn requestbody_added_ok(p: RequestBodyDiff, t: RequestBody) -> bool {
    &&& added_str_ok(p.description, t.description)
    &&& map_field_added_ok::<MediaType>(p.content, t.content)
    &&& added_copy_ok(p.required, t.required)
}

pub open spec fn requestbody_removed_ok(p: RequestBodyDiff, t: RequestBody) -> bool {
    &&& removed_str_ok(p.description, t.description)
    &&& map_field_removed_ok::<MediaType>(p.content, t.content)
    &&& removed_copy_ok(p.required, t.required)
}

pub open spec fn requestbody_same(p: RequestBodyDiff) -> bool {
    &&& dr_flat_same(p.description)
    &&& dr_flat_same(p.content)
    &&& dr_flat_same(p.required)
}

pub open spec fn requestbody_d_same(p: RequestBodyDiff) -> bool {
    &&& dr_flat_same(p.description)
    &&& map_field_d_same::<MediaType>(p.content)
    &&& dr_flat_same(p.required)
}

impl DiffElem for RequestBody {
    type D = RequestBodyDiff;

    open spec fn elem_ok(d: DiffResult<RequestBodyDiff>, a: RequestBody, b: RequestBody) -> bool {
        match d {
            DiffResult::Same(p) => requestbody_fields_ok(p, a, b) && requestbody_same(p),
            DiffResult::Updated(p) => requestbody_fields_ok(p, a, b) && !requestbody_same(p),
            _ => false,
        }
    }

    open spec fn added_ok(p: RequestBodyDiff, t: RequestBody) -> bool {
        requestbody_added_ok(p, t)
    }

    open spec fn removed_ok(p: RequestBodyDiff, t: RequestBody) -> bool {
        requestbody_removed_ok(p, t)
    }

    open spec fn d_same(p: RequestBodyDiff) -> bool {
        requestbody_d_same(p)
    }

    #[verifier::rlimit(100)]
    fn diff(a: &RequestBody, b: &RequestBody) -> (d: DiffResult<RequestBodyDiff>) {
        let p = RequestBodyDiff {
            description: diff_opt_string(&a.description, &b.description),
        content: diff_opt_map(&a.content, &b.content),
        required: diff_opt_bool(&a.required, &b.required),
        };
        let same = p.description.is_flat_same()
        && p.content.is_flat_same()
        && p.required.is_flat_same();
        if same {
            DiffResult::Same(p)
        } else {
            DiffResult::Updated(p)
        }
    }

    #[verifier::rlimit(100)]
    fn added(t: &RequestBody) -> (p: RequestBodyDiff) {
        RequestBodyDiff {
            description: added_opt_string(&t.description),
        content: added_opt_map(&t.content),
        required: added_opt_copy(&t.required),
        }
    }

    #[verifier::rlimit(100)]
    fn removed(t: &RequestBody) -> (p: RequestBodyDiff) {
        RequestBodyDiff {
            description: removed_opt_string(&t.description),
        content: removed_opt_map(&t.content),
        required: removed_opt_copy(&t.required),
        }
    }

    #[verifier::rlimit(100)]
    proof fn lemma_self(t: RequestBody, d: DiffResult<RequestBodyDiff>) {
        match d {
            DiffResult::Same(p) => {
                lemma_map_field_self::<MediaType>(t.content, p.content);
            },
            DiffResult::Updated(p) => {
                lemma_map_field_self::<MediaType>(t.content, p.content);
                assert(requestbody_same(p));
            },
            _ => {},
        }
    }
}


pub open spec fn response_fields_ok(p: ResponseDiff, a: Response, b: Response) -> bool {
    &&& dr_str_ok(p.description, a.description, b.description)
    &&& dr_map_ok::<MediaType>(p.content, a.content, b.content)
}

pub open spec fn response_added_ok(p: ResponseDiff, t: Response) -> bool {
    &&& added_str_ok(p.description, t.description)
    &&& map_field_added_ok::<MediaType>(p.content, t.content)
}

pub open spec fn response_removed_ok(p: ResponseDiff, t: Response) -> bool {
    &&& removed_str_ok(p.description, t.description)
    &&& map_field_removed_ok::<MediaType>(p.content, t.content)
}

pub open spec fn response_same(p: ResponseDiff) -> bool {
    &&& dr_flat_same(p.description)
    &&& dr_flat_same(p.content)
}

pub open spec fn response_d_same(p: ResponseDiff) -> bool {
    &&& dr_flat_same(p.description)
    &&& map_field_d_same::<MediaType>(p.content)
}

impl DiffElem for Response {
    type D = ResponseDiff;

    open spec fn elem_ok(d: DiffResult<ResponseDiff>, a: Response, b: Response) -> bool {
        match d {
            DiffResult::Same(p) => response_fields_ok(p, a, b) && response_same(p),
            DiffResult::Updated(p) => response_fields_ok(p, a, b) && !response_same(p),
            _ => false,
        }
    }

    open spec fn added_ok(p: ResponseDiff, t: Response) -> bool {
        response_added_ok(p, t)
    }

    open spec fn removed_ok(p: ResponseDiff, t: Response) -> bool {
        response_removed_ok(p, t)
    }

    open spec fn d_same(p: ResponseDiff) -> bool {
        response_d_same(p)
    }

    #[verifier::rlimit(100)]
    fn diff(a: &Response, b: &Response) -> (d: DiffResult<ResponseDiff>) {
        let p = ResponseDiff {
            description: diff_opt_string(&a.description, &b.description),
        content: diff_opt_map(&a.content, &b.content),
        };
        let same = p.description.is_flat_same()
        && p.content.is_flat_same();
        if same {
            DiffResult::Same(p)
        } else {
            DiffResult::Updated(p)
        }
    }

    #[verifier::rlimit(100)]
    fn added(t: &Response) -> (p: ResponseDiff) {
        ResponseDiff {
            description: added_opt_string(&t.description),
        content: added_opt_map(&t.content),
        }
    }

    #[verifier::rlimit(100)]
    fn removed(t: &Response) -> (p: ResponseDiff) {
        ResponseDiff {
            description: removed_opt_string(&t.description),
        content: removed_opt_map(&t.content),
        }
    }

    #[verifier::rlimit(100)]
    proof fn lemma_self(t: Response, d: DiffResult<ResponseDiff>) {
        match d {
            DiffResult::Same(p) => {
                lemma_map_field_self::<MediaType>(t.content, p.content);
            },
            DiffResult::Updated(p) => {
                lemma_map_field_self::<MediaType>(t.content, p.content);
                assert(response_same(p));
            },
            _ => {},
        }
    }
}


pub open spec fn operation_fields_ok(p: OperationDiff, a: Operation, b: Operation) -> bool {
    &&& dr_atoms_ok::<String>(p.tags, a.tags, b.tags)
    &&& dr_str_ok(p.summary, a.summary, b.summary)
    &&& dr_str_ok(p.description, a.description, b.description)
    &&& opt_elem_ok::<ExternalDoc>(p.external_docs, a.external_docs, b.external_docs)
    &&& dr_str_ok(p.operation_id, a.operation_id, b.operation_id)
    &&& dr_ident_ok::<MayBeRef310<Parameter>>(p.parameters, a.parameters, b.parameters)
    &&& dr_map_ok::<MayBeRef310<Response>>(p.responses, a.responses, b.responses)
    &&& opt_elem_ok::<MayBeRef310<RequestBody>>(p.request_body, a.request_body, b.request_body)
    &&& dr_copy_ok(p.deprecated, a.deprecated, b.deprecated, ((a.deprecated matches Option::Some(x) && b.deprecated matches Option::Some(y)) ==> a.deprecated->0 == b.deprecated->0))
}

pub open spec fn operation_added_ok(p: OperationDiff, t: Operation) -> bool {
    &&& atoms_field_added_ok::<String>(p.tags, t.tags)
    &&& added_str_ok(p.summary, t.summary)
    &&& added_str_ok(p.description, t.description)
    &&& opt_added_ok::<ExternalDoc>(p.external_docs, t.external_docs)
    &&& added_str_ok(p.operation_id, t.operation_id)
    &&& ident_field_added_ok::<MayBeRef310<Parameter>>(p.parameters, t.parameters)
    &&& map_field_added_ok::<MayBeRef310<Response>>(p.responses, t.responses)
    &&& opt_added_ok::<MayBeRef310<RequestBody>>(p.request_body, t.request_body)
    &&& added_copy_ok(p.deprecated, t.deprecated)
}

pub open spec fn operation_removed_ok(p: OperationDiff, t: Operation) -> bool {
    &&& atoms_field_removed_ok::<String>(p.tags, t.tags)
    &&& removed_str_ok(p.summary, t.summary)
    &&& removed_str_ok(p.description, t.description)
    &&& opt_removed_ok::<ExternalDoc>(p.external_docs, t.external_docs)
    &&& removed_str_ok(p.operation_id, t.operation_id)
    &&& ident_field_removed_ok::<MayBeRef310<Parameter>>(p.parameters, t.parameters)
    &&& map_field_removed_ok::<MayBeRef310<Response>>(p.responses, t.responses)
    &&& opt_removed_ok::<MayBeRef310<RequestBody>>(p.request_body, t.request_body)
    &&& removed_copy_ok(p.deprecated, t.deprecated)
}

pub open spec fn operation_same(p: OperationDiff) -> bool {
    &&& dr_flat_same(p.tags)
    &&& dr_flat_same(p.summary)
    &&& dr_flat_same(p.description)
    &&& dr_flat_same(p.external_docs)
    &&& dr_flat_same(p.operation_id)
    &&& dr_flat_same(p.parameters)
    &&& dr_flat_same(p.responses)
    &&& dr_flat_same(p.request_body)
    &&& dr_flat_same(p.deprecated)
}

pub open spec fn operation_d_same(p: OperationDiff) -> bool {
    &&& atoms_field_d_same::<String>(p.tags)
    &&& dr_flat_same(p.summary)
    &&& dr_flat_same(p.description)
    &&& opt_d_same::<ExternalDoc>(p.external_docs)
    &&& dr_flat_same(p.operation_id)
    &&& ident_field_d_same::<MayBeRef310<Parameter>>(p.parameters)
    &&& map_field_d_same::<MayBeRef310<Response>>(p.responses)
    &&& opt_d_same::<MayBeRef310<RequestBody>>(p.request_body)
    &&& dr_flat_same(p.deprecated)
}

impl DiffElem for Operation {
    type D = OperationDiff;

    open spec fn elem_ok(d: DiffResult<OperationDiff>, a: Operation, b: Operation) -> bool {
        match d {
            DiffResult::Same(p) => operation_fields_ok(p, a, b) && operation_same(p),
            DiffResult::Updated(p) => operation_fields_ok(p, a, b) && !operation_same(p),
            _ => false,
        }
    }

    open spec fn added_ok(p: OperationDiff, t: Operation) -> bool {
        operation_added_ok(p, t)
    }

    open spec fn removed_ok(p: OperationDiff, t: Operation) -> bool {
        operation_removed_ok(p, t)
    }

    open spec fn d_same(p: OperationDiff) -> bool {
        operation_d_same(p)
    }

    #[verifier::rlimit(100)]
    fn diff(a: &Operation, b: &Operation) -> (d: DiffResult<OperationDiff>) {
        let p = OperationDiff {
            tags: diff_opt_atoms(&a.tags, &b.tags),
        summary: diff_opt_string(&a.summary, &b.summary),
        description: diff_opt_string(&a.description, &b.description),
        external_docs: diff_opt_elem(&a.external_docs, &b.external_docs),
        operation_id: diff_opt_string(&a.operation_id, &b.operation_id),
        parameters: diff_opt_ident(&a.parameters, &b.parameters),
        responses: diff_opt_map(&a.responses, &b.responses),
        request_body: diff_opt_elem(&a.request_body, &b.request_body),
        deprecated: diff_opt_bool(&a.deprecated, &b.deprecated),
        };
        let same = p.tags.is_flat_same()
        && p.summary.is_flat_same()
        && p.description.is_flat_same()
        && p.external_docs.is_flat_same()
        && p.operation_id.is_flat_same()
        && p.parameters.is_flat_same()
        && p.responses.is_flat_same()
        && p.request_body.is_flat_same()
        && p.deprecated.is_flat_same();
        if same {
            DiffResult::Same(p)
        } else {
            DiffResult::Updated(p)
        }
    }

    #[verifier::rlimit(100)]
    fn added(t: &Operation) -> (p: OperationDiff) {
        OperationDiff {
            tags: added_opt_atoms(&t.tags),
        summary: added_opt_string(&t.summary),
        description: added_opt_string(&t.description),
        external_docs: added_opt_elem(&t.external_docs),
        operation_id: added_opt_string(&t.operation_id),
        parameters: added_opt_ident(&t.parameters),
        responses: added_opt_map(&t.responses),
        request_body: added_opt_elem(&t.request_body),
        deprecated: added_opt_copy(&t.deprecated),
        }
    }

    #[verifier::rlimit(100)]
    fn removed(t: &Operation) -> (p: OperationDiff) {
        OperationDiff {
            tags: removed_opt_atoms(&t.tags),
        summary: removed_opt_string(&t.summary),
        description: removed_opt_string(&t.description),
        external_docs: removed_opt_elem(&t.external_docs),
        operation_id: removed_opt_string(&t.operation_id),
        parameters: removed_opt_ident(&t.parameters),
        responses: removed_opt_map(&t.responses),
        request_body: removed_opt_elem(&t.request_body),
        deprecated: removed_opt_copy(&t.deprecated),
        }
    }

    #[verifier::rlimit(100)]
    proof fn lemma_self(t: Operation, d: DiffResult<OperationDiff>) {
        match d {
            DiffResult::Same(p) => {
                lemma_atoms_field_self::<String>(t.tags, p.tags);
    lemma_opt_self::<ExternalDoc>(t.external_docs, p.external_docs);
    lemma_ident_field_self::<MayBeRef310<Parameter>>(t.parameters, p.parameters);
    lemma_map_field_self::<MayBeRef310<Response>>(t.responses, p.responses);
    lemma_opt_self::<MayBeRef310<RequestBody>>(t.request_body, p.request_body);
            },
            DiffResult::Updated(p) => {
                lemma_atoms_field_self::<String>(t.tags, p.tags);
    lemma_opt_self::<ExternalDoc>(t.external_docs, p.external_docs);
    lemma_ident_field_self::<MayBeRef310<Parameter>>(t.parameters, p.parameters);
    lemma_map_field_self::<MayBeRef310<Response>>(t.responses, p.responses);
    lemma_opt_self::<MayBeRef310<RequestBody>>(t.request_body, p.request_body);
                assert(operation_same(p));
            },
            _ => {},
        }
    }
}


pub open spec fn path_fields_ok(p: PathDiff, a: Path, b: Path) -> bool {
    &&& opt_elem_ok::<Operation>(p.get, a.get, b.get)
    &&& opt_elem_ok::<Operation>(p.put, a.put, b.put)
    &&& opt_elem_ok::<Operation>(p.post, a.post, b.post)
    &&& opt_elem_ok::<Operation>(p.delete, a.delete, b.delete)
    &&& opt_elem_ok::<Operation>(p.options, a.options, b.options)
    &&& opt_elem_ok::<Operation>(p.head, a.head, b.head)
    &&& opt_elem_ok::<Operation>(p.patch, a.patch, b.patch)
    &&& opt_elem_ok::<Operation>(p.trace, a.trace, b.trace)
    &&& dr_ident_ok::<MayBeRef310<Parameter>>(p.parameters, a.parameters, b.parameters)
    &&& dr_str_ok(p.summary, a.summary, b.summary)
    &&& dr_str_ok(p.description, a.description, b.description)
}

pub open spec fn path_added_ok(p: PathDiff, t: Path) -> bool {
    &&& opt_added_ok::<Operation>(p.get, t.get)
    &&& opt_added_ok::<Operation>(p.put, t.put)
    &&& opt_added_ok::<Operation>(p.post, t.post)
    &&& opt_added_ok::<Operation>(p.delete, t.delete)
    &&& opt_added_ok::<Operation>(p.options, t.options)
    &&& opt_added_ok::<Operation>(p.head, t.head)
    &&& opt_added_ok::<Operation>(p.patch, t.patch)
    &&& opt_added_ok::<Operation>(p.trace, t.trace)
    &&& ident_field_added_ok::<MayBeRef310<Parameter>>(p.parameters, t.parameters)
    &&& added_str_ok(p.summary, t.summary)
    &&& added_str_ok(p.description, t.description)
}

pub open spec fn path_removed_ok(p: PathDiff, t: Path) -> bool {
    &&& opt_removed_ok::<Operation>(p.get, t.get)
    &&& opt_removed_ok::<Operation>(p.put, t.put)
    &&& opt_removed_ok::<Operation>(p.post, t.post)
    &&& opt_removed_ok::<Operation>(p.delete, t.delete)
    &&& opt_removed_ok::<Operation>(p.options, t.options)
    &&& opt_removed_ok::<Operation>(p.head, t.head)
    &&& opt_removed_ok::<Operation>(p.patch, t.patch)
    &&& opt_removed_ok::<Operation>(p.trace, t.trace)
    &&& ident_field_removed_ok::<MayBeRef310<Parameter>>(p.parameters, t.parameters)
    &&& removed_str_ok(p.summary, t.summary)
    &&& removed_str_ok(p.description, t.description)
}

pub open spec fn path_same(p: PathDiff) -> bool {
    &&& dr_flat_same(p.get)
    &&& dr_flat_same(p.put)
    &&& dr_flat_same(p.post)
    &&& dr_flat_same(p.delete)
    &&& dr_flat_same(p.options)
    &&& dr_flat_same(p.head)
    &&& dr_flat_same(p.patch)
    &&& dr_flat_same(p.trace)
    &&& dr_flat_same(p.parameters)
    &&& dr_flat_same(p.summary)
    &&& dr_flat_same(p.description)
}

pub open spec fn path_d_same(p: PathDiff) -> bool {
    &&& opt_d_same::<Operation>(p.get)
    &&& opt_d_same::<Operation>(p.put)
    &&& opt_d_same::<Operation>(p.post)
    &&& opt_d_same::<Operation>(p.delete)
    &&& opt_d_same::<Operation>(p.options)
    &&& opt_d_same::<Operation>(p.head)
    &&& opt_d_same::<Operation>(p.patch)
    &&& opt_d_same::<Operation>(p.trace)
    &&& ident_field_d_same::<MayBeRef310<Parameter>>(p.parameters)
    &&& dr_flat_same(p.summary)
    &&& dr_flat_same(p.description)
}

impl DiffElem for Path {
    type D = PathDiff;

    open spec fn elem_ok(d: DiffResult<PathDiff>, a: Path, b: Path) -> bool {
        match d {
            DiffResult::Same(p) => path_fields_ok(p, a, b) && path_same(p),
            DiffResult::Updated(p) => path_fields_ok(p, a, b) && !path_same(p),
            _ => false,
        }
    }

    open spec fn added_ok(p: PathDiff, t: Path) -> bool {
        path_added_ok(p, t)
    }

    open spec fn removed_ok(p: PathDiff, t: Path) -> bool {
        path_removed_ok(p, t)
    }

    open spec fn d_same(p: PathDiff) -> bool {
        path_d_same(p)
    }

    #[verifier::rlimit(100)]
    fn diff(a: &Path, b: &Path) -> (d: DiffResult<PathDiff>) {
        let p = PathDiff {
            get: diff_opt_elem(&a.get, &b.get),
        put: diff_opt_elem(&a.put, &b.put),
        post: diff_opt_elem(&a.post, &b.post),
        delete: diff_opt_elem(&a.delete, &b.delete),
        options: diff_opt_elem(&a.options, &b.options),
        head: diff_opt_elem(&a.head, &b.head),
        patch: diff_opt_elem(&a.patch, &b.patch),
        trace: diff_opt_elem(&a.trace, &b.trace),
        parameters: diff_opt_ident(&a.parameters, &b.parameters),
        summary: diff_opt_string(&a.summary, &b.summary),
        description: diff_opt_string(&a.description, &b.description),
        };
        let same = p.get.is_flat_same()
        && p.put.is_flat_same()
        && p.post.is_flat_same()
        && p.delete.is_flat_same()
        && p.options.is_flat_same()
        && p.head.is_flat_same()
        && p.patch.is_flat_same()
        && p.trace.is_flat_same()
        && p.parameters.is_flat_same()
        && p.summary.is_flat_same()
        && p.description.is_flat_same();
        if same {
            DiffResult::Same(p)
        } else {
            DiffResult::Updated(p)
        }
    }

    #[verifier::rlimit(100)]
    fn added(t: &Path) -> (p: PathDiff) {
        PathDiff {
            get: added_opt_elem(&t.get),
        put: added_opt_elem(&t.put),
        post: added_opt_elem(&t.post),
        delete: added_opt_elem(&t.delete),
        options: added_opt_elem(&t.options),
        head: added_opt_elem(&t.head),
        patch: added_opt_elem(&t.patch),
        trace: added_opt_elem(&t.trace),
        parameters: added_opt_ident(&t.parameters),
        summary: added_opt_string(&t.summary),
        description: added_opt_string(&t.description),
        }
    }

    #[verifier::rlimit(100)]
    fn removed(t: &Path) -> (p: PathDiff) {
        PathDiff {
            get: removed_opt_elem(&t.get),
        put: removed_opt_elem(&t.put),
        post: removed_opt_elem(&t.post),
        delete: removed_opt_elem(&t.delete),
        options: removed_opt_elem(&t.options),
        head: removed_opt_elem(&t.head),
        patch: removed_opt_elem(&t.patch),
        trace: removed_opt_elem(&t.trace),
        parameters: removed_opt_ident(&t.parameters),
        summary: removed_opt_string(&t.summary),
        description: removed_opt_string(&t.description),
        }
    }

    #[verifier::rlimit(100)]
    proof fn lemma_self(t: Path, d: DiffResult<PathDiff>) {
        match d {
            DiffResult::Same(p) => {
                lemma_opt_self::<Operation>(t.get, p.get);
    lemma_opt_self::<Operation>(t.put, p.put);
    lemma_opt_self::<Operation>(t.post, p.post);
    lemma_opt_self::<Operation>(t.delete, p.delete);
    lemma_opt_self::<Operation>(t.options, p.options);
    lemma_opt_self::<Operation>(t.head, p.head);
    lemma_opt_self::<Operation>(t.patch, p.patch);
    lemma_opt_self::<Operation>(t.trace, p.trace);
    lemma_ident_field_self::<MayBeRef310<Parameter>>(t.parameters, p.parameters);
            },
            DiffResult::Updated(p) => {
                lemma_opt_self::<Operation>(t.get, p.get);
    lemma_opt_self::<Operation>(t.put, p.put);
    lemma_opt_self::<Operation>(t.post, p.post);
    lemma_opt_self::<Operation>(t.delete, p.delete);
    lemma_opt_self::<Operation>(t.options, p.options);
    lemma_opt_self::<Operation>(t.head, p.head);
    lemma_opt_self::<Operation>(t.patch, p.patch);
    lemma_opt_self::<Operation>(t.trace, p.trace);
    lemma_ident_field_self::<MayBeRef310<Parameter>>(t.parameters, p.parameters);
                assert(path_same(p));
            },
            _ => {},
        }
    }
}


pub open spec fn httpschema_fields_ok(p: HttpSchemaDiff, a: HttpSchema, b: HttpSchema) -> bool {
    &&& dr_str_ok(p.version, a.version, b.version)
    &&& opt_elem_ok::<Info>(p.info, a.info, b.info)
    &&& dr_map_ok::<MayBeRef310<Path>>(p.paths, a.paths, b.paths)
    &&& dr_ident_ok::<Tag>(p.tags, a.tags, b.tags)
    &&& opt_elem_ok::<ExternalDoc>(p.external_docs, a.external_docs, b.external_docs)
}

pub open spec fn httpschema_added_ok(p: HttpSchemaDiff, t: HttpSchema) -> bool {
    &&& added_str_ok(p.version, t.version)
    &&& opt_added_ok::<Info>(p.info, t.info)
    &&& map_field_added_ok::<MayBeRef310<Path>>(p.paths, t.paths)
    &&& ident_field_added_ok::<Tag>(p.tags, t.tags)
    &&& opt_added_ok::<ExternalDoc>(p.external_docs, t.external_docs)
}

pub open spec fn httpschema_removed_ok(p: HttpSchemaDiff, t: HttpSchema) -> bool {
    &&& removed_str_ok(p.version, t.version)
    &&& opt_removed_ok::<Info>(p.info, t.info)
    &&& map_field_removed_ok::<MayBeRef310<Path>>(p.paths, t.paths)
    &&& ident_field_removed_ok::<Tag>(p.tags, t.tags)
    &&& opt_removed_ok::<ExternalDoc>(p.external_docs, t.external_docs)
}

pub open spec fn httpschema_same(p: HttpSchemaDiff) -> bool {
    &&& dr_flat_same(p.version)
    &&& dr_flat_same(p.info)
    &&& dr_flat_same(p.paths)
    &&& dr_flat_same(p.tags)
    &&& dr_flat_same(p.external_docs)
}

pub open spec fn httpschema_d_same(p: HttpSchemaDiff) -> bool {
    &&& dr_flat_same(p.version)
    &&& opt_d_same::<Info>(p.info)
    &&& map_field_d_same::<MayBeRef310<Path>>(p.paths)
    &&& ident_field_d_same::<Tag>(p.tags)
    &&& opt_d_same::<ExternalDoc>(p.external_docs)
}

impl DiffElem for HttpSchema {
    type D = HttpSchemaDiff;

    open spec fn elem_ok(d: DiffResult<HttpSchemaDiff>, a: HttpSchema, b: HttpSchema) -> bool {
        match d {
            DiffResult::Same(p) => httpschema_fields_ok(p, a, b) && httpschema_same(p),
            DiffResult::Updated(p) => httpschema_fields_ok(p, a, b) && !httpschema_same(p),
            _ => false,
        }
    }

    open spec fn added_ok(p: HttpSchemaDiff, t: HttpSchema) -> bool {
        httpschema_added_ok(p, t)
    }

    open spec fn removed_ok(p: HttpSchemaDiff, t: HttpSchema) -> bool {
        httpschema_removed_ok(p, t)
    }

    open spec fn d_same(p: HttpSchemaDiff) -> bool {
        httpschema_d_same(p)
    }

    #[verifier::rlimit(100)]
    fn diff(a: &HttpSchema, b: &HttpSchema) -> (d: DiffResult<HttpSchemaDiff>) {
        let p = HttpSchemaDiff {
            version: diff_opt_string(&a.version, &b.version),
        info: diff_opt_elem(&a.info, &b.info),
        paths: diff_opt_map(&a.paths, &b.paths),
        tags: diff_opt_ident(&a.tags, &b.tags),
        external_docs: diff_opt_elem(&a.external_docs, &b.external_docs),
        };
        let same = p.version.is_flat_same()
        && p.info.is_flat_same()
        && p.paths.is_flat_same()
        && p.tags.is_flat_same()
        && p.external_docs.is_flat_same();
        if same {
            DiffResult::Same(p)
        } else {
            DiffResult::Updated(p)
        }
    }

    #[verifier::rlimit(100)]
    fn added(t: &HttpSchema) -> (p: HttpSchemaDiff) {
        HttpSchemaDiff {
            version: added_opt_string(&t.version),
        info: added_opt_elem(&t.info),
        paths: added_opt_map(&t.paths),
        tags: added_opt_ident(&t.tags),
        external_docs: added_opt_elem(&t.external_docs),
        }
    }

    #[verifier::rlimit(100)]
    fn removed(t: &HttpSchema) -> (p: HttpSchemaDiff) {
        HttpSchemaDiff {
            version: removed_opt_string(&t.version),
        info: removed_opt_elem(&t.info),
        paths: removed_opt_map(&t.paths),
        tags: removed_opt_ident(&t.tags),
        external_docs: removed_opt_elem(&t.external_docs),
        }
    }

    #[verifier::rlimit(100)]
    proof fn lemma_self(t: HttpSchema, d: DiffResult<HttpSchemaDiff>) {
        match d {
            DiffResult::Same(p) => {
                lemma_opt_self::<Info>(t.info, p.info);
                lemma_map_field_self::<MayBeRef310<Path>>(t.paths, p.paths);
                lemma_ident_field_self::<Tag>(t.tags, p.tags);
                lemma_opt_self::<ExternalDoc>(t.external_docs, p.external_docs);
            },
            DiffResult::Updated(p) => {
                lemma_opt_self::<Info>(t.info, p.info);
                lemma_map_field_self::<MayBeRef310<Path>>(t.paths, p.paths);
                lemma_ident_field_self::<Tag>(t.tags, p.tags);
                lemma_opt_self::<ExternalDoc>(t.external_docs, p.external_docs);
                assert(httpschema_same(p));
            },
            _ => {},
        }
    }
}

// ---------------------------------------------------------------------------
// The schema tree itself: schema nodes recurse through `properties`, `items`
// and `allOf`, so their comparison is written out directly with an explicit
// termination measure.
// ---------------------------------------------------------------------------
pub open spec fn schema_elem_ok(d: DiffResult<SchemaDiff>, a: Schema, b: Schema) -> bool
    decreases a, b, 1int,
{
    match d {
        DiffResult::Same(p) => schema_fields_ok(p, a, b) && schema_same(p),
        DiffResult::Updated(p) => schema_fields_ok(p, a, b) && !schema_same(p),
        _ => false,
    }
}

pub open spec fn schema_fields_ok(p: SchemaDiff, a: Schema, b: Schema) -> bool
    decreases a, b, 0int,
{
    &&& dr_str_ok(p.title, a.title, b.title)
    &&& dr_copy_ok(p.maximum, a.maximum, b.maximum, ((a.maximum matches Option::Some(x) && b.maximum matches Option::Some(y)) ==> crate::json::json_num_eq(a.maximum->0, b.maximum->0)))
    &&& dr_copy_ok(p.minimum, a.minimum, b.minimum, ((a.minimum matches Option::Some(x) && b.minimum matches Option::Some(y)) ==> crate::json::json_num_eq(a.minimum->0, b.minimum->0)))
    &&& dr_copy_ok(p.max_length, a.max_length, b.max_length, ((a.max_length matches Option::Some(x) && b.max_length matches Option::Some(y)) ==> a.max_length->0 == b.max_length->0))
    &&& dr_copy_ok(p.min_length, a.min_length, b.min_length, ((a.min_length matches Option::Some(x) && b.min_length matches Option::Some(y)) ==> a.min_length->0 == b.min_length->0))
    &&& dr_atoms_ok::<String>(p.required, a.required, b.required)
    &&& dr_atoms_ok::<JsonValue>(p.enum_values, a.enum_values, b.enum_values)
    &&& dr_type_ok(p.schema_type, a.schema_type, b.schema_type)
    &&& dr_slist_ok(p.all_of, a.all_of, b.all_of)
    &&& dr_slist_ok(p.one_of, a.one_of, b.one_of)
    &&& dr_slist_ok(p.any_of, a.any_of, b.any_of)
    &&& dr_slist_ok(p.not, a.not, b.not)
    &&& sitems_ok(p.items@, *a.items, *b.items)
    &&& dr_smap_ok(p.properties, a.properties, b.properties)
    &&& dr_str_ok(p.description, a.description, b.description)
    &&& dr_str_ok(p.format, a.format, b.format)
    &&& dr_json_ok(p.default, a.default, b.default)
    &&& opt_elem_ok::<Xml>(p.xml, a.xml, b.xml)
    &&& dr_copy_ok(p.deprecated, a.deprecated, b.deprecated, ((a.deprecated matches Option::Some(x) && b.deprecated matches Option::Some(y)) ==> a.deprecated->0 == b.deprecated->0))
    &&& dr_bag_ok(p.custom_fields, a.custom_fields, b.custom_fields)
}

pub open spec fn schema_same(p: SchemaDiff) -> bool {
    &&& dr_flat_same(p.title)
    &&& dr_flat_same(p.maximum)
    &&& dr_flat_same(p.minimum)
    &&& dr_flat_same(p.max_length)
    &&& dr_flat_same(p.min_length)
    &&& dr_flat_same(p.required)
    &&& dr_flat_same(p.enum_values)
    &&& dr_flat_same(p.schema_type)
    &&& dr_flat_same(p.all_of)
    &&& dr_flat_same(p.one_of)
    &&& dr_flat_same(p.any_of)
    &&& dr_flat_same(p.not)
    &&& (p.items@.len() == 0 || (0 < p.items@.len() && dr_flat_same(p.items@[0])))
    &&& dr_flat_same(p.properties)
    &&& dr_flat_same(p.description)
    &&& dr_flat_same(p.format)
    &&& dr_flat_same(p.default)
    &&& dr_flat_same(p.xml)
    &&& dr_flat_same(p.deprecated)
    &&& dr_flat_same(p.custom_fields)
}

/// Reference-or-value schema node.
pub open spec fn mrs_elem_ok(
    d: DiffResult<MayBeRefDiff<SchemaDiff>>,
    a: MayBeRef310<Schema>,
    b: MayBeRef310<Schema>,
) -> bool
    decreases a, b,
{
    match (a, b) {
        (MayBeRefCore::Ref(r1), MayBeRefCore::Ref(r2)) => if r1.reference@ == r2.reference@ {
            d matches DiffResult::Same(MayBeRefDiff::Ref(DiffResult::Same(s))) && s@
                == r2.reference@
        } else {
            d matches DiffResult::Updated(MayBeRefDiff::Ref(DiffResult::Updated(s))) && s@
                == r2.reference@
        },
        (MayBeRefCore::Ref(r1), MayBeRefCore::Value(_)) => d matches DiffResult::Updated(
            MayBeRefDiff::Ref(DiffResult::Removed(s)),
        ) && s@ == r1.reference@,
        (MayBeRefCore::Value(_), MayBeRefCore::Ref(r2)) => d matches DiffResult::Updated(
            MayBeRefDiff::Ref(DiffResult::Added(s)),
        ) && s@ == r2.reference@,
        (MayBeRefCore::Value(v1), MayBeRefCore::Value(v2)) => match d {
            DiffResult::Same(p) => p matches MayBeRefDiff::Value(id) && schema_elem_ok(id, v1, v2)
                && id is Same,
            DiffResult::Updated(p) => p matches MayBeRefDiff::Value(id) && schema_elem_ok(
                id,
                v1,
                v2,
            ) && id is Updated,
            _ => false,
        },
    }
}

pub open spec fn omrs_ok(
    d: DiffResult<MayBeRefDiff<SchemaDiff>>,
    a: Option<MayBeRef310<Schema>>,
    b: Option<MayBeRef310<Schema>>,
) -> bool
    decreases a, b,
{
    match (a, b) {
        (Option::None, Option::None) => d is Absent,
        (Option::Some(x), Option::None) => d matches DiffResult::Removed(p) && mrs_removed_ok(
            p,
            x,
        ),
        (Option::None, Option::Some(y)) => d matches DiffResult::Added(p) && mrs_added_ok(p, y),
        (Option::Some(x), Option::Some(y)) => mrs_elem_ok(d, x, y),
    }
}

pub open spec fn smap_ok(
    m: Seq<(String, DiffResult<MayBeRefDiff<SchemaDiff>>)>,
    old: Seq<(String, MayBeRef310<Schema>)>,
    new: Seq<(String, MayBeRef310<Schema>)>,
) -> bool
    decreases old, new,
{
    let oldks = keys_of(old);
    let newks = keys_of(new);
    &&& m.len() == old.len() + addc(oldks, newks, new.len() as nat)
    &&& forall|i: int|
        0 <= i < old.len() ==> {
            &&& (#[trigger] m[i]).0@ == oldks[i]
            &&& (matched(oldks, newks, i) ==> forall|j: int|
                0 <= j < new.len() && newks[j] == oldks[i] && occ(newks, j) == occ(oldks, i)
                    ==> mrs_elem_ok((#[trigger] m[i]).1, old[i].1, (#[trigger] new[j]).1))
            &&& (!matched(oldks, newks, i) ==> (m[i].1 matches DiffResult::Removed(p)
                && mrs_removed_ok(p, old[i].1)))
        }
    &&& forall|j: int|
        #![trigger new[j]]
        0 <= j < new.len() && leftover(oldks, newks, j) ==> {
            let t = old.len() + addc(oldks, newks, j as nat);
            &&& m[t as int].0@ == newks[j]
            &&& (m[t as int].1 matches DiffResult::Added(p) && mrs_added_ok(p, new[j].1))
        }
}

pub open spec fn dr_smap_ok(
    d: DiffResult<MapDiff<MayBeRefDiff<SchemaDiff>>>,
    a: Option<Vec<(String, MayBeRef310<Schema>)>>,
    b: Option<Vec<(String, MayBeRef310<Schema>)>>,
) -> bool
    decreases a, b,
{
    match (a, b) {
        (Option::None, Option::None) => d is Absent,
        (Option::Some(x), Option::None) => d matches DiffResult::Removed(m) && smap_removed_ok(
            m@,
            x@,
        ),
        (Option::None, Option::Some(y)) => d matches DiffResult::Added(m) && smap_added_ok(m@, y@),
        (Option::Some(x), Option::Some(y)) => match d {
            DiffResult::Same(m) => smap_ok(m@, x@, y@) && sm_all_same(m@),
            DiffResult::Updated(m) => smap_ok(m@, x@, y@) && !sm_all_same(m@),
            _ => false,
        },
    }
}

pub open spec fn sm_all_same(m: Seq<(String, DiffResult<MayBeRefDiff<SchemaDiff>>)>) -> bool {
    forall|i: int| 0 <= i < m.len() ==> (#[trigger] m[i]).1 is Same
}

pub open spec fn slist_ok(
    r: Seq<DiffResult<MayBeRefDiff<SchemaDiff>>>,
    old: Seq<MayBeRef310<Schema>>,
    new: Seq<MayBeRef310<Schema>>,
) -> bool
    decreases old, new,
{
    let n = if old.len() >= new.len() {
        old.len()
    } else {
        new.len()
    };
    &&& r.len() == n
    &&& forall|i: int|
        0 <= i < old.len() && i < new.len() ==> mrs_elem_ok(#[trigger] r[i], old[i], new[i])
    &&& forall|i: int|
        new.len() <= i < old.len() ==> ((#[trigger] r[i]) matches DiffResult::Removed(p)
            && mrs_removed_ok(p, old[i]))
    &&& forall|i: int|
        old.len() <= i < new.len() ==> ((#[trigger] r[i]) matches DiffResult::Added(p)
            && mrs_added_ok(p, new[i]))
}

pub open spec fn dr_slist_ok(
    d: DiffResult<VecDiff<MayBeRefDiff<SchemaDiff>>>,
    a: Option<Vec<MayBeRef310<Schema>>>,
    b: Option<Vec<MayBeRef310<Schema>>>,
) -> bool
    decreases a, b,
{
    match (a, b) {
        (Option::None, Option::None) => d is Absent,
        (Option::Some(x), Option::None) => d matches DiffResult::Removed(r) && slist_removed_ok(
            r@,
            x@,
        ),
        (Option::None, Option::Some(y)) => d matches DiffResult::Added(r) && slist_added_ok(
            r@,
            y@,
        ),
        (Option::Some(x), Option::Some(y)) => match d {
            DiffResult::Same(r) => slist_ok(r@, x@, y@) && atoms_all_same::<
                MayBeRefDiff<SchemaDiff>,
            >(r@),
            DiffResult::Updated(r) => slist_ok(r@, x@, y@) && !atoms_all_same::<
                MayBeRefDiff<SchemaDiff>,
            >(r@),
            _ => false,
        },
    }
}

pub open spec fn sitems_ok(
    v: Seq<DiffResult<MayBeRefDiff<SchemaDiff>>>,
    a: Option<MayBeRef310<Schema>>,
    b: Option<MayBeRef310<Schema>>,
) -> bool
    decreases a, b,
{
    match (a, b) {
        (Option::None, Option::None) => v.len() == 0,
        (Option::Some(x), Option::None) => v.len() == 1 && (v[0] matches DiffResult::Removed(p)
            && mrs_removed_ok(p, x)),
        (Option::None, Option::Some(y)) => v.len() == 1 && (v[0] matches DiffResult::Added(p)
            && mrs_added_ok(p, y)),
        (Option::Some(x), Option::Some(y)) => v.len() == 1 && mrs_elem_ok(v[0], x, y),
    }
}

pub open spec fn schema_added_ok(p: SchemaDiff, t: Schema) -> bool
    decreases t,
{
    &&& added_str_ok(p.title, t.title)
    &&& added_copy_ok(p.maximum, t.maximum)
    &&& added_copy_ok(p.minimum, t.minimum)
    &&& added_copy_ok(p.max_length, t.max_length)
    &&& added_copy_ok(p.min_length, t.min_length)
    &&& atoms_field_added_ok::<String>(p.required, t.required)
    &&& atoms_field_added_ok::<JsonValue>(p.enum_values, t.enum_values)
    &&& added_type_ok(p.schema_type, t.schema_type)
    &&& slist_field_added_ok(p.all_of, t.all_of)
    &&& slist_field_added_ok(p.one_of, t.one_of)
    &&& slist_field_added_ok(p.any_of, t.any_of)
    &&& slist_field_added_ok(p.not, t.not)
    &&& sitems_added_ok(p.items@, *t.items)
    &&& smap_field_added_ok(p.properties, t.properties)
    &&& added_str_ok(p.description, t.description)
    &&& added_str_ok(p.format, t.format)
    &&& added_json_ok(p.default, t.default)
    &&& opt_added_ok::<Xml>(p.xml, t.xml)
    &&& added_copy_ok(p.deprecated, t.deprecated)
    &&& added_bag_ok(p.custom_fields, t.custom_fields)
}

pub open spec fn schema_removed_ok(p: SchemaDiff, t: Schema) -> bool
    decreases t,
{
    &&& removed_str_ok(p.title, t.title)
    &&& removed_copy_ok(p.maximum, t.maximum)
    &&& removed_copy_ok(p.minimum, t.minimum)
    &&& removed_copy_ok(p.max_length, t.max_length)
    &&& removed_copy_ok(p.min_length, t.min_length)
    &&& atoms_field_removed_ok::<String>(p.required, t.required)
    &&& atoms_field_removed_ok::<JsonValue>(p.enum_values, t.enum_values)
    &&& removed_type_ok(p.schema_type, t.schema_type)
    &&& slist_field_removed_ok(p.all_of, t.all_of)
    &&& slist_field_removed_ok(p.one_of, t.one_of)
    &&& slist_field_removed_ok(p.any_of, t.any_of)
    &&& slist_field_removed_ok(p.not, t.not)
    &&& sitems_removed_ok(p.items@, *t.items)
    &&& smap_field_removed_ok(p.properties, t.properties)
    &&& removed_str_ok(p.description, t.description)
    &&& removed_str_ok(p.format, t.format)
    &&& removed_json_ok(p.default, t.default)
    &&& opt_removed_ok::<Xml>(p.xml, t.xml)
    &&& removed_copy_ok(p.deprecated, t.deprecated)
    &&& removed_bag_ok(p.custom_fields, t.custom_fields)
}

pub open spec fn mrs_added_ok(p: MayBeRefDiff<SchemaDiff>, t: MayBeRef310<Schema>) -> bool
    decreases t,
{
    match t {
        MayBeRefCore::Ref(r) => p matches MayBeRefDiff::Ref(DiffResult::Added(s)) && s@
            == r.reference@,
        MayBeRefCore::Value(v) => p matches MayBeRefDiff::Value(DiffResult::Added(q))
            && schema_added_ok(q, v),
    }
}

pub open spec fn mrs_removed_ok(p: MayBeRefDiff<SchemaDiff>, t: MayBeRef310<Schema>) -> bool
    decreases t,
{
    match t {
        MayBeRefCore::Ref(r) => p matches MayBeRefDiff::Ref(DiffResult::Removed(s)) && s@
            == r.reference@,
        MayBeRefCore::Value(v) => p matches MayBeRefDiff::Value(DiffResult::Removed(q))
            && schema_removed_ok(q, v),
    }
}

pub open spec fn omrs_added_ok(d: DiffResult<MayBeRefDiff<SchemaDiff>>, t: Option<
    MayBeRef310<Schema>,
>) -> bool
    decreases t,
{
    match t {
        Option::None => d is Absent,
        Option::Some(x) => d matches DiffResult::Added(p) && mrs_added_ok(p, x),
    }
}

pub open spec fn omrs_removed_ok(d: DiffResult<MayBeRefDiff<SchemaDiff>>, t: Option<
    MayBeRef310<Schema>,
>) -> bool
    decreases t,
{
    match t {
        Option::None => d is Absent,
        Option::Some(x) => d matches DiffResult::Removed(p) && mrs_removed_ok(p, x),
    }
}

pub open spec fn smap_added_ok(
    m: Seq<(String, DiffResult<MayBeRefDiff<SchemaDiff>>)>,
    s: Seq<(String, MayBeRef310<Schema>)>,
) -> bool
    decreases s,
{
    &&& m.len() == s.len()
    &&& forall|i: int|
        0 <= i < s.len() ==> (#[trigger] m[i]).0@ == keys_of(s)[i] && (m[i].1
            matches DiffResult::Added(p) && mrs_added_ok(p, s[i].1))
}

pub open spec fn smap_removed_ok(
    m: Seq<(String, DiffResult<MayBeRefDiff<SchemaDiff>>)>,
    s: Seq<(String, MayBeRef310<Schema>)>,
) -> bool
    decreases s,
{
    &&& m.len() == s.len()
    &&& forall|i: int|
        0 <= i < s.len() ==> (#[trigger] m[i]).0@ == keys_of(s)[i] && (m[i].1
            matches DiffResult::Removed(p) && mrs_removed_ok(p, s[i].1))
}

pub open spec fn smap_field_added_ok(d: DiffResult<MapDiff<MayBeRefDiff<SchemaDiff>>>, t: Option<
    Vec<(String, MayBeRef310<Schema>)>,
>) -> bool
    decreases t,
{
    match t {
        Option::None => d is Absent,
        Option::Some(s) => d matches DiffResult::Added(m) && smap_added_ok(m@, s@),
    }
}

pub open spec fn smap_field_removed_ok(d: DiffResult<MapDiff<MayBeRefDiff<SchemaDiff>>>, t: Option<
    Vec<(String, MayBeRef310<Schema>)>,
>) -> bool
    decreases t,
{
    match t {
        Option::None => d is Absent,
        Option::Some(s) => d matches DiffResult::Removed(m) && smap_removed_ok(m@, s@),
    }
}

pub open spec fn slist_added_ok(
    r: Seq<DiffResult<MayBeRefDiff<SchemaDiff>>>,
    s: Seq<MayBeRef310<Schema>>,
) -> bool
    decreases s,
{
    &&& r.len() == s.len()
    &&& forall|i: int|
        0 <= i < s.len() ==> ((#[trigger] r[i]) matches DiffResult::Added(p) && mrs_added_ok(
            p,
            s[i],
        ))
}

pub open spec fn slist_removed_ok(
    r: Seq<DiffResult<MayBeRefDiff<SchemaDiff>>>,
    s: Seq<MayBeRef310<Schema>>,
) -> bool
    decreases s,
{
    &&& r.len() == s.len()
    &&& forall|i: int|
        0 <= i < s.len() ==> ((#[trigger] r[i]) matches DiffResult::Removed(p) && mrs_removed_ok(
            p,
            s[i],
        ))
}

pub open spec fn slist_field_added_ok(d: DiffResult<VecDiff<MayBeRefDiff<SchemaDiff>>>, t: Option<
    Vec<MayBeRef310<Schema>>,
>) -> bool
    decreases t,
{
    match t {
        Option::None => d is Absent,
        Option::Some(s) => d matches DiffResult::Added(r) && slist_added_ok(r@, s@),
    }
}

pub open spec fn slist_field_removed_ok(
    d: DiffResult<VecDiff<MayBeRefDiff<SchemaDiff>>>,
    t: Option<Vec<MayBeRef310<Schema>>>,
) -> bool
    decreases t,
{
    match t {
        Option::None => d is Absent,
        Option::Some(s) => d matches DiffResult::Removed(r) && slist_removed_ok(r@, s@),
    }
}

pub open spec fn sitems_added_ok(v: Seq<DiffResult<MayBeRefDiff<SchemaDiff>>>, t: Option<
    MayBeRef310<Schema>,
>) -> bool
    decreases t,
{
    match t {
        Option::None => v.len() == 0,
        Option::Some(x) => v.len() == 1 && (v[0] matches DiffResult::Added(p) && mrs_added_ok(
            p,
            x,
        )),
    }
}

pub open spec fn sitems_removed_ok(v: Seq<DiffResult<MayBeRefDiff<SchemaDiff>>>, t: Option<
    MayBeRef310<Schema>,
>) -> bool
    decreases t,
{
    match t {
        Option::None => v.len() == 0,
        Option::Some(x) => v.len() == 1 && (v[0] matches DiffResult::Removed(p)
            && mrs_removed_ok(p, x)),
    }
}

pub open spec fn schema_d_same(p: SchemaDiff) -> bool
    decreases p,
{
    &&& schema_same(p)
    &&& atoms_field_d_same(p.required)
    &&& atoms_field_d_same(p.enum_values)
    &&& slist_field_d_same(p.all_of)
    &&& slist_field_d_same(p.one_of)
    &&& slist_field_d_same(p.any_of)
    &&& slist_field_d_same(p.not)
    &&& (forall|i: int| 0 <= i < p.items@.len() ==> omrs_d_same(#[trigger] p.items@[i]))
    &&& smap_field_d_same(p.properties)
    &&& opt_d_same::<Xml>(p.xml)
}

pub open spec fn mrs_d_same(p: MayBeRefDiff<SchemaDiff>) -> bool
    decreases p,
{
    match p {
        MayBeRefDiff::Ref(DiffResult::Same(_)) => true,
        MayBeRefDiff::Value(DiffResult::Same(q)) => schema_d_same(q),
        _ => false,
    }
}

pub open spec fn omrs_d_same(d: DiffResult<MayBeRefDiff<SchemaDiff>>) -> bool
    decreases d,
{
    match d {
        DiffResult::Absent => true,
        DiffResult::Same(p) => mrs_d_same(p),
        _ => false,
    }
}

pub open spec fn smap_field_d_same(d: DiffResult<MapDiff<MayBeRefDiff<SchemaDiff>>>) -> bool
    decreases d,
{
    match d {
        DiffResult::Absent => true,
        DiffResult::Same(m) => forall|i: int|
            0 <= i < m@.len() ==> ((#[trigger] m@[i]).1 matches DiffResult::Same(p)
                && mrs_d_same(p)),
        _ => false,
    }
}

pub open spec fn slist_field_d_same(d: DiffResult<VecDiff<MayBeRefDiff<SchemaDiff>>>) -> bool
    decreases d,
{
    match d {
        DiffResult::Absent => true,
        DiffResult::Same(r) => forall|i: int|
            0 <= i < r@.len() ==> ((#[trigger] r@[i]) matches DiffResult::Same(p) && mrs_d_same(
                p,
            )),
        _ => false,
    }
}

// Executable comparison of the schema tree.
#[verifier::rlimit(100)]
pub fn diff_schema(a: &Schema, b: &Schema) -> (d: DiffResult<SchemaDiff>)
    ensures
        schema_elem_ok(d, *a, *b),
    decreases *a, *b, 1int,
{
    let p = SchemaDiff {
        title: diff_opt_string(&a.title, &b.title),
        maximum: diff_opt_num(&a.maximum, &b.maximum),
        minimum: diff_opt_num(&a.minimum, &b.minimum),
        max_length: diff_opt_u64(&a.max_length, &b.max_length),
        min_length: diff_opt_u64(&a.min_length, &b.min_length),
        required: diff_opt_atoms(&a.required, &b.required),
        enum_values: diff_opt_atoms(&a.enum_values, &b.enum_values),
        schema_type: diff_opt_type(&a.schema_type, &b.schema_type),
        all_of: diff_slist_field(&a.all_of, &b.all_of),
        one_of: diff_slist_field(&a.one_of, &b.one_of),
        any_of: diff_slist_field(&a.any_of, &b.any_of),
        not: diff_slist_field(&a.not, &b.not),
        items: diff_sitems(&a.items, &b.items),
        properties: diff_smap_field(&a.properties, &b.properties),
        description: diff_opt_string(&a.description, &b.description),
        format: diff_opt_string(&a.format, &b.format),
        default: diff_opt_json(&a.default, &b.default),
        xml: diff_opt_elem(&a.xml, &b.xml),
        deprecated: diff_opt_bool(&a.deprecated, &b.deprecated),
        custom_fields: diff_bag(&a.custom_fields, &b.custom_fields),
    };
    let items_flat = p.items.len() == 0 || p.items[0].is_flat_same();
    let same = p.title.is_flat_same() && p.maximum.is_flat_same() && p.minimum.is_flat_same()
        && p.max_length.is_flat_same() && p.min_length.is_flat_same()
        && p.required.is_flat_same() && p.enum_values.is_flat_same()
        && p.schema_type.is_flat_same() && p.all_of.is_flat_same() && p.one_of.is_flat_same()
        && p.any_of.is_flat_same() && p.not.is_flat_same() && items_flat
        && p.properties.is_flat_same() && p.description.is_flat_same() && p.format.is_flat_same()
        && p.default.is_flat_same() && p.xml.is_flat_same() && p.deprecated.is_flat_same()
        && p.custom_fields.is_flat_same();
    if same {
        DiffResult::Same(p)
    } else {
        DiffResult::Updated(p)
    }
}

pub fn mrs_diff(a: &MayBeRef310<Schema>, b: &MayBeRef310<Schema>) -> (d: DiffResult<
    MayBeRefDiff<SchemaDiff>,
>)
    ensures
        mrs_elem_ok(d, *a, *b),
    decreases *a, *b,
{
    match (a, b) {
        (MayBeRefCore::Ref(r1), MayBeRefCore::Ref(r2)) => {
            if r1.reference == r2.reference {
                DiffResult::Same(MayBeRefDiff::Ref(DiffResult::Same(r2.reference.clone())))
            } else {
                DiffResult::Updated(MayBeRefDiff::Ref(DiffResult::Updated(r2.reference.clone())))
            }
        },
        (MayBeRefCore::Ref(r1), MayBeRefCore::Value(_)) => DiffResult::Updated(
            MayBeRefDiff::Ref(DiffResult::Removed(r1.reference.clone())),
        ),
        (MayBeRefCore::Value(_), MayBeRefCore::Ref(r2)) => DiffResult::Updated(
            MayBeRefDiff::Ref(DiffResult::Added(r2.reference.clone())),
        ),
        (MayBeRefCore::Value(v1), MayBeRefCore::Value(v2)) => {
            let id = diff_schema(v1, v2);
            if id.is_same() {
                DiffResult::Same(MayBeRefDiff::Value(id))
            } else {
                DiffResult::Updated(MayBeRefDiff::Value(id))
            }
        },
    }
}

pub fn diff_omrs(a: &Option<MayBeRef310<Schema>>, b: &Option<MayBeRef310<Schema>>) -> (d:
    DiffResult<MayBeRefDiff<SchemaDiff>>)
    ensures
        omrs_ok(d, *a, *b),
    decreases *a, *b,
{
    match (a, b) {
        (Option::None, Option::None) => DiffResult::Absent,
        (Option::Some(x), Option::None) => DiffResult::Removed(mrs_removed(x)),
        (Option::None, Option::Some(y)) => DiffResult::Added(mrs_added(y)),
        (Option::Some(x), Option::Some(y)) => mrs_diff(x, y),
    }
}

#[verifier::rlimit(100)]
pub fn added_schema(t: &Schema) -> (p: SchemaDiff)
    ensures
        schema_added_ok(p, *t),
    decreases *t,
{
    SchemaDiff {
        title: added_opt_string(&t.title),
        maximum: added_opt_copy(&t.maximum),
        minimum: added_opt_copy(&t.minimum),
        max_length: added_opt_copy(&t.max_length),
        min_length: added_opt_copy(&t.min_length),
        required: added_opt_atoms(&t.required),
        enum_values: added_opt_atoms(&t.enum_values),
        schema_type: added_opt_type(&t.schema_type),
        all_of: added_slist_field(&t.all_of),
        one_of: added_slist_field(&t.one_of),
        any_of: added_slist_field(&t.any_of),
        not: added_slist_field(&t.not),
        items: added_sitems(&t.items),
        properties: added_smap_field(&t.properties),
        description: added_opt_string(&t.description),
        format: added_opt_string(&t.format),
        default: added_opt_json(&t.default),
        xml: added_opt_elem(&t.xml),
        deprecated: added_opt_copy(&t.deprecated),
        custom_fields: added_bag(&t.custom_fields),
    }
}

#[verifier::rlimit(100)]
pub fn removed_schema(t: &Schema) -> (p: SchemaDiff)
    ensures
        schema_removed_ok(p, *t),
    decreases *t,
{
    SchemaDiff {
        title: removed_opt_string(&t.title),
        maximum: removed_opt_copy(&t.maximum),
        minimum: removed_opt_copy(&t.minimum),
        max_length: removed_opt_copy(&t.max_length),
        min_length: removed_opt_copy(&t.min_length),
        required: removed_opt_atoms(&t.required),
        enum_values: removed_opt_atoms(&t.enum_values),
        schema_type: removed_opt_type(&t.schema_type),
        all_of: removed_slist_field(&t.all_of),
        one_of: removed_slist_field(&t.one_of),
        any_of: removed_slist_field(&t.any_of),
        not: removed_slist_field(&t.not),
        items: removed_sitems(&t.items),
        properties: removed_smap_field(&t.properties),
        description: removed_opt_string(&t.description),
        format: removed_opt_string(&t.format),
        default: removed_opt_json(&t.default),
        xml: removed_opt_elem(&t.xml),
        deprecated: removed_opt_copy(&t.deprecated),
        custom_fields: removed_bag(&t.custom_fields),
    }
}

pub fn mrs_added(t: &MayBeRef310<Schema>) -> (p: MayBeRefDiff<SchemaDiff>)
    ensures
        mrs_added_ok(p, *t),
    decreases *t,
{
    match t {
        MayBeRefCore::Ref(r) => MayBeRefDiff::Ref(DiffResult::Added(r.reference.clone())),
        MayBeRefCore::Value(v) => MayBeRefDiff::Value(DiffResult::Added(added_schema(v))),
    }
}

pub fn mrs_removed(t: &MayBeRef310<Schema>) -> (p: MayBeRefDiff<SchemaDiff>)
    ensures
        mrs_removed_ok(p, *t),
    decreases *t,
{
    match t {
        MayBeRefCore::Ref(r) => MayBeRefDiff::Ref(DiffResult::Removed(r.reference.clone())),
        MayBeRefCore::Value(v) => MayBeRefDiff::Value(DiffResult::Removed(removed_schema(v))),
    }
}

pub fn added_omrs(t: &Option<MayBeRef310<Schema>>) -> (d: DiffResult<MayBeRefDiff<SchemaDiff>>)
    ensures
        omrs_added_ok(d, *t),
    decreases *t,
{
    match t {
        Option::None => DiffResult::Absent,
        Option::Some(x) => DiffResult::Added(mrs_added(x)),
    }
}

pub fn removed_omrs(t: &Option<MayBeRef310<Schema>>) -> (d: DiffResult<MayBeRefDiff<SchemaDiff>>)
    ensures
        omrs_removed_ok(d, *t),
    decreases *t,
{
    match t {
        Option::None => DiffResult::Absent,
        Option::Some(x) => DiffResult::Removed(mrs_removed(x)),
    }
}

fn smap_merge(
    old: &Vec<(String, MayBeRef310<Schema>)>,
    new: &Vec<(String, MayBeRef310<Schema>)>,
) -> (m: MapDiff<MayBeRefDiff<SchemaDiff>>)
    ensures
        smap_ok(m@, old@, new@),
    decreases old@, new@,
{
    let ghost oldks = keys_of(old@);
    let ghost newks = keys_of(new@);
    let mut m: MapDiff<MayBeRefDiff<SchemaDiff>> = Vec::new();
    let mut i: usize = 0;
    while i < old.len()
        invariant
            0 <= i <= old@.len(),
            oldks == keys_of(old@),
            newks == keys_of(new@),
            m@.len() == i,
            forall|q: int|
                0 <= q < i ==> {
                    &&& (#[trigger] m@[q]).0@ == oldks[q]
                    &&& (matched(oldks, newks, q) ==> forall|j: int|
                        0 <= j < new@.len() && newks[j] == oldks[q] && occ(newks, j) == occ(
                            oldks,
                            q,
                        ) ==> mrs_elem_ok((#[trigger] m@[q]).1, old@[q].1, (#[trigger] new@[j]).1))
                    &&& (!matched(oldks, newks, q) ==> (m@[q].1 matches DiffResult::Removed(p)
                        && mrs_removed_ok(p, old@[q].1)))
                },
        decreases old@.len() - i,
    {
        let mo = crate::diff::count_key_prefix(old, &old[i].0, i);
        proof {
            assert(oldks[i as int] == old@[i as int].0@);
            assert(mo == occ(oldks, i as int));
        }
        let found = crate::diff::find_occurrence(new, &old[i].0, mo);
        match found {
            Option::Some(j) => {
                proof {
                    assert(decreases_to!(old@ => old@[i as int]));
                    assert(decreases_to!(old@[i as int] => old@[i as int].1));
                    assert(decreases_to!(new@ => new@[j as int]));
                    assert(decreases_to!(new@[j as int] => new@[j as int].1));
                }
                let d = mrs_diff(&old[i].1, &new[j].1);
                let key = old[i].0.clone();
                proof {
                    crate::diff::lemma_occ_lt_total(newks, j as int);
                    assert(matched(oldks, newks, i as int));
                    assert forall|j2: int|
                        0 <= j2 < new@.len() && newks[j2] == oldks[i as int] && occ(newks, j2)
                            == occ(oldks, i as int) implies j2 == j as int by {
                        crate::diff::lemma_occ_unique(newks, j2, j as int);
                    }
                }
                m.push((key, d));
            },
            Option::None => {
                proof {
                    assert(decreases_to!(old@ => old@[i as int]));
                    assert(decreases_to!(old@[i as int] => old@[i as int].1));
                }
                let p = mrs_removed(&old[i].1);
                let key = old[i].0.clone();
                proof {
                    assert(!matched(oldks, newks, i as int));
                }
                m.push((key, DiffResult::Removed(p)));
            },
        }
        i = i + 1;
    }
    let mut j: usize = 0;
    while j < new.len()
        invariant
            0 <= j <= new@.len(),
            oldks == keys_of(old@),
            newks == keys_of(new@),
            m@.len() == old@.len() + addc(oldks, newks, j as nat),
            forall|q: int|
                0 <= q < old@.len() ==> {
                    &&& (#[trigger] m@[q]).0@ == oldks[q]
                    &&& (matched(oldks, newks, q) ==> forall|j2: int|
                        0 <= j2 < new@.len() && newks[j2] == oldks[q] && occ(newks, j2) == occ(
                            oldks,
                            q,
                        ) ==> mrs_elem_ok((#[trigger] m@[q]).1, old@[q].1, (#[trigger] new@[j2]).1))
                    &&& (!matched(oldks, newks, q) ==> (m@[q].1 matches DiffResult::Removed(p)
                        && mrs_removed_ok(p, old@[q].1)))
                },
            forall|q: int|
                #![trigger new@[q]]
                0 <= q < j && leftover(oldks, newks, q) ==> {
                    let t = old@.len() + addc(oldks, newks, q as nat);
                    &&& m@[t as int].0@ == newks[q]
                    &&& (m@[t as int].1 matches DiffResult::Added(p) && mrs_added_ok(p, new@[q].1))
                },
        decreases new@.len() - j,
    {
        let mn = crate::diff::count_key_prefix(new, &new[j].0, j);
        let co = crate::diff::count_key_prefix(old, &new[j].0, old.len());
        proof {
            assert(newks[j as int] == new@[j as int].0@);
            assert(mn == occ(newks, j as int));
            assert(co == kc(oldks, newks[j as int], oldks.len() as nat));
        }
        if mn >= co {
            proof {
                assert(decreases_to!(new@ => new@[j as int]));
                assert(decreases_to!(new@[j as int] => new@[j as int].1));
            }
            let p = mrs_added(&new[j].1);
            let key = new[j].0.clone();
            proof {
                assert(leftover(oldks, newks, j as int));
            }
            m.push((key, DiffResult::Added(p)));
        } else {
            proof {
                assert(!leftover(oldks, newks, j as int));
            }
        }
        proof {
            assert(addc(oldks, newks, (j + 1) as nat) == addc(oldks, newks, j as nat)
                + if leftover(oldks, newks, j as int) {
                1nat
            } else {
                0nat
            });
            assert forall|q: int|
                #![trigger new@[q]]
                0 <= q < j + 1 && leftover(oldks, newks, q) implies {
                let t = old@.len() + addc(oldks, newks, q as nat);
                &&& m@[t as int].0@ == newks[q]
                &&& (m@[t as int].1 matches DiffResult::Added(p) && mrs_added_ok(p, new@[q].1))
            } by {
                if q < j {
                    crate::diff::lemma_addc_mono(oldks, newks, (q + 1) as nat, j as nat);
                }
            }
        }
        j = j + 1;
    }
    m
}

fn smap_added_vec(s: &Vec<(String, MayBeRef310<Schema>)>) -> (m: MapDiff<MayBeRefDiff<SchemaDiff>>)
    ensures
        smap_added_ok(m@, s@),
    decreases s@,
{
    let mut m: MapDiff<MayBeRefDiff<SchemaDiff>> = Vec::new();
    let mut i: usize = 0;
    while i < s.len()
        invariant
            0 <= i <= s@.len(),
            m@.len() == i,
            forall|q: int|
                0 <= q < i ==> (#[trigger] m@[q]).0@ == keys_of(s@)[q] && (m@[q].1
                    matches DiffResult::Added(p) && mrs_added_ok(p, s@[q].1)),
        decreases s@.len() - i,
    {
        proof {
            assert(decreases_to!(s@ => s@[i as int]));
            assert(decreases_to!(s@[i as int] => s@[i as int].1));
        }
        let p = mrs_added(&s[i].1);
        let key = s[i].0.clone();
        m.push((key, DiffResult::Added(p)));
        i = i + 1;
    }
    m
}

fn smap_removed_vec(s: &Vec<(String, MayBeRef310<Schema>)>) -> (m: MapDiff<
    MayBeRefDiff<SchemaDiff>,
>)
    ensures
        smap_removed_ok(m@, s@),
    decreases s@,
{
    let mut m: MapDiff<MayBeRefDiff<SchemaDiff>> = Vec::new();
    let mut i: usize = 0;
    while i < s.len()
        invariant
            0 <= i <= s@.len(),
            m@.len() == i,
            forall|q: int|
                0 <= q < i ==> (#[trigger] m@[q]).0@ == keys_of(s@)[q] && (m@[q].1
                    matches DiffResult::Removed(p) && mrs_removed_ok(p, s@[q].1)),
        decreases s@.len() - i,
    {
        proof {
            assert(decreases_to!(s@ => s@[i as int]));
            assert(decreases_to!(s@[i as int] => s@[i as int].1));
        }
        let p = mrs_removed(&s[i].1);
        let key = s[i].0.clone();
        m.push((key, DiffResult::Removed(p)));
        i = i + 1;
    }
    m
}

fn smap_entries_all_same(m: &MapDiff<MayBeRefDiff<SchemaDiff>>) -> (r: bool)
    ensures
        r == sm_all_same(m@),
{
    let mut i: usize = 0;
    while i < m.len()
        invariant
            0 <= i <= m@.len(),
            forall|q: int| 0 <= q < i ==> (#[trigger] m@[q]).1 is Same,
        decreases m@.len() - i,
    {
        if !m[i].1.is_same() {
            return false;
        }
        i = i + 1;
    }
    true
}

fn diff_smap_field(
    a: &Option<Vec<(String, MayBeRef310<Schema>)>>,
    b: &Option<Vec<(String, MayBeRef310<Schema>)>>,
) -> (d: DiffResult<MapDiff<MayBeRefDiff<SchemaDiff>>>)
    ensures
        dr_smap_ok(d, *a, *b),
    decreases *a, *b,
{
    match (a, b) {
        (Option::None, Option::None) => DiffResult::Absent,
        (Option::Some(x), Option::None) => DiffResult::Removed(smap_removed_vec(x)),
        (Option::None, Option::Some(y)) => DiffResult::Added(smap_added_vec(y)),
        (Option::Some(x), Option::Some(y)) => {
            let m = smap_merge(x, y);
            if smap_entries_all_same(&m) {
                DiffResult::Same(m)
            } else {
                DiffResult::Updated(m)
            }
        },
    }
}

fn added_smap_field(t: &Option<Vec<(String, MayBeRef310<Schema>)>>) -> (d: DiffResult<
    MapDiff<MayBeRefDiff<SchemaDiff>>,
>)
    ensures
        smap_field_added_ok(d, *t),
    decreases *t,
{
    match t {
        Option::None => DiffResult::Absent,
        Option::Some(s) => DiffResult::Added(smap_added_vec(s)),
    }
}

fn removed_smap_field(t: &Option<Vec<(String, MayBeRef310<Schema>)>>) -> (d: DiffResult<
    MapDiff<MayBeRefDiff<SchemaDiff>>,
>)
    ensures
        smap_field_removed_ok(d, *t),
    decreases *t,
{
    match t {
        Option::None => DiffResult::Absent,
        Option::Some(s) => DiffResult::Removed(smap_removed_vec(s)),
    }
}

fn slist_merge(old: &Vec<MayBeRef310<Schema>>, new: &Vec<MayBeRef310<Schema>>) -> (r: VecDiff<
    MayBeRefDiff<SchemaDiff>,
>)
    ensures
        slist_ok(r@, old@, new@),
    decreases old@, new@,
{
    let mut r: VecDiff<MayBeRefDiff<SchemaDiff>> = Vec::new();
    let mut i: usize = 0;
    while i < old.len() || i < new.len()
        invariant
            0 <= i,
            i <= old@.len() || i <= new@.len(),
            r@.len() == i,
            i > old@.len() ==> i <= new@.len(),
            i > new@.len() ==> i <= old@.len(),
            forall|q: int|
                0 <= q < i && q < old@.len() && q < new@.len() ==> mrs_elem_ok(
                    #[trigger] r@[q],
                    old@[q],
                    new@[q],
                ),
            forall|q: int|
                new@.len() <= q < i && q < old@.len() ==> ((#[trigger] r@[q])
                    matches DiffResult::Removed(p) && mrs_removed_ok(p, old@[q])),
            forall|q: int|
                old@.len() <= q < i && q < new@.len() ==> ((#[trigger] r@[q])
                    matches DiffResult::Added(p) && mrs_added_ok(p, new@[q])),
        decreases old@.len() + new@.len() - i,
    {
        if i < old.len() && i < new.len() {
            proof {
                assert(decreases_to!(old@ => old@[i as int]));
                assert(decreases_to!(new@ => new@[i as int]));
            }
            let d = mrs_diff(&old[i], &new[i]);
            r.push(d);
        } else if i < old.len() {
            proof {
                assert(decreases_to!(old@ => old@[i as int]));
            }
            let p = mrs_removed(&old[i]);
            r.push(DiffResult::Removed(p));
        } else {
            proof {
                assert(decreases_to!(new@ => new@[i as int]));
            }
            let p = mrs_added(&new[i]);
            r.push(DiffResult::Added(p));
        }
        i = i + 1;
    }
    r
}

fn slist_added_vec(s: &Vec<MayBeRef310<Schema>>) -> (r: VecDiff<MayBeRefDiff<SchemaDiff>>)
    ensures
        slist_added_ok(r@, s@),
    decreases s@,
{
    let mut r: VecDiff<MayBeRefDiff<SchemaDiff>> = Vec::new();
    let mut i: usize = 0;
    while i < s.len()
        invariant
            0 <= i <= s@.len(),
            r@.len() == i,
            forall|q: int|
                0 <= q < i ==> ((#[trigger] r@[q]) matches DiffResult::Added(p) && mrs_added_ok(
                    p,
                    s@[q],
                )),
        decreases s@.len() - i,
    {
        proof {
            assert(decreases_to!(s@ => s@[i as int]));
        }
        let p = mrs_added(&s[i]);
        r.push(DiffResult::Added(p));
        i = i + 1;
    }
    r
}

fn slist_removed_vec(s: &Vec<MayBeRef310<Schema>>) -> (r: VecDiff<MayBeRefDiff<SchemaDiff>>)
    ensures
        slist_removed_ok(r@, s@),
    decreases s@,
{
    let mut r: VecDiff<MayBeRefDiff<SchemaDiff>> = Vec::new();
    let mut i: usize = 0;
    while i < s.len()
        invariant
            0 <= i <= s@.len(),
            r@.len() == i,
            forall|q: int|
                0 <= q < i ==> ((#[trigger] r@[q]) matches DiffResult::Removed(p)
                    && mrs_removed_ok(p, s@[q])),
        decreases s@.len() - i,
    {
        proof {
            assert(decreases_to!(s@ => s@[i as int]));
        }
        let p = mrs_removed(&s[i]);
        r.push(DiffResult::Removed(p));
        i = i + 1;
    }
    r
}

fn slist_all_same(r: &VecDiff<MayBeRefDiff<SchemaDiff>>) -> (b: bool)
    ensures
        b == atoms_all_same::<MayBeRefDiff<SchemaDiff>>(r@),
{
    let mut i: usize = 0;
    while i < r.len()
        invariant
            0 <= i <= r@.len(),
            forall|q: int| 0 <= q < i ==> (#[trigger] r@[q]) is Same,
        decreases r@.len() - i,
    {
        if !r[i].is_same() {
            return false;
        }
        i = i + 1;
    }
    true
}

fn diff_slist_field(
    a: &Option<Vec<MayBeRef310<Schema>>>,
    b: &Option<Vec<MayBeRef310<Schema>>>,
) -> (d: DiffResult<VecDiff<MayBeRefDiff<SchemaDiff>>>)
    ensures
        dr_slist_ok(d, *a, *b),
    decreases *a, *b,
{
    match (a, b) {
        (Option::None, Option::None) => DiffResult::Absent,
        (Option::Some(x), Option::None) => DiffResult::Removed(slist_removed_vec(x)),
        (Option::None, Option::Some(y)) => DiffResult::Added(slist_added_vec(y)),
        (Option::Some(x), Option::Some(y)) => {
            let r = slist_merge(x, y);
            if slist_all_same(&r) {
                DiffResult::Same(r)
            } else {
                DiffResult::Updated(r)
            }
        },
    }
}

fn added_slist_field(t: &Option<Vec<MayBeRef310<Schema>>>) -> (d: DiffResult<
    VecDiff<MayBeRefDiff<SchemaDiff>>,
>)
    ensures
        slist_field_added_ok(d, *t),
    decreases *t,
{
    match t {
        Option::None => DiffResult::Absent,
        Option::Some(s) => DiffResult::Added(slist_added_vec(s)),
    }
}

fn removed_slist_field(t: &Option<Vec<MayBeRef310<Schema>>>) -> (d: DiffResult<
    VecDiff<MayBeRefDiff<SchemaDiff>>,
>)
    ensures
        slist_field_removed_ok(d, *t),
    decreases *t,
{
    match t {
        Option::None => DiffResult::Absent,
        Option::Some(s) => DiffResult::Removed(slist_removed_vec(s)),
    }
}

fn diff_sitems(a: &Option<MayBeRef310<Schema>>, b: &Option<MayBeRef310<Schema>>) -> (v: Vec<
    DiffResult<MayBeRefDiff<SchemaDiff>>,
>)
    ensures
        sitems_ok(v@, *a, *b),
    decreases *a, *b,
{
    let mut v: Vec<DiffResult<MayBeRefDiff<SchemaDiff>>> = Vec::new();
    match (a, b) {
        (Option::None, Option::None) => {},
        (Option::Some(x), Option::None) => {
            v.push(DiffResult::Removed(mrs_removed(x)));
        },
        (Option::None, Option::Some(y)) => {
            v.push(DiffResult::Added(mrs_added(y)));
        },
        (Option::Some(x), Option::Some(y)) => {
            v.push(mrs_diff(x, y));
        },
    }
    v
}

fn added_sitems(t: &Option<MayBeRef310<Schema>>) -> (v: Vec<DiffResult<MayBeRefDiff<SchemaDiff>>>)
    ensures
        sitems_added_ok(v@, *t),
    decreases *t,
{
    let mut v: Vec<DiffResult<MayBeRefDiff<SchemaDiff>>> = Vec::new();
    match t {
        Option::None => {},
        Option::Some(x) => {
            v.push(DiffResult::Added(mrs_added(x)));
        },
    }
    v
}

fn removed_sitems(t: &Option<MayBeRef310<Schema>>) -> (v: Vec<
    DiffResult<MayBeRefDiff<SchemaDiff>>,
>)
    ensures
        sitems_removed_ok(v@, *t),
    decreases *t,
{
    let mut v: Vec<DiffResult<MayBeRefDiff<SchemaDiff>>> = Vec::new();
    match t {
        Option::None => {},
        Option::Some(x) => {
            v.push(DiffResult::Removed(mrs_removed(x)));
        },
    }
    v
}

// Comparing a schema tree with itself records no change anywhere.
#[verifier::rlimit(100)]
#[verifier::spinoff_prover]

// Comparing a schema tree with itself records no change anywhere.
#[verifier::rlimit(100)]
pub proof fn schema_lemma_self(t: Schema, d: DiffResult<SchemaDiff>)
    requires
        schema_elem_ok(d, t, t),
    ensures
        d matches DiffResult::Same(p) && schema_d_same(p),
    decreases t, 1int,
{
    let p = d.payload();
    if d is Same || d is Updated {
        lemma_atoms_field_self::<String>(t.required, p.required);
        lemma_atoms_field_self::<JsonValue>(t.enum_values, p.enum_values);
        slist_field_lemma_self(t.all_of, p.all_of);
        slist_field_lemma_self(t.one_of, p.one_of);
        slist_field_lemma_self(t.any_of, p.any_of);
        slist_field_lemma_self(t.not, p.not);
        sitems_lemma_self(*t.items, p.items@);
        smap_field_lemma_self(t.properties, p.properties);
        match t.default {
            Option::Some(x) => crate::json::lemma_json_eq_refl(x),
            Option::None => {},
        }
        lemma_opt_self::<Xml>(t.xml, p.xml);
        crate::json::lemma_json_entries_eq_refl(t.custom_fields@);
        assert(schema_same(p));
    }
}

pub proof fn mrs_lemma_self(t: MayBeRef310<Schema>, d: DiffResult<MayBeRefDiff<SchemaDiff>>)
    requires
        mrs_elem_ok(d, t, t),
    ensures
        d matches DiffResult::Same(p) && mrs_d_same(p),
    decreases t,
{
    match t {
        MayBeRefCore::Ref(r) => {},
        MayBeRefCore::Value(v) => {
            match d {
                DiffResult::Same(p) => {
                    match p {
                        MayBeRefDiff::Value(id) => {
                            schema_lemma_self(v, id);
                        },
                        _ => {},
                    }
                },
                DiffResult::Updated(p) => {
                    match p {
                        MayBeRefDiff::Value(id) => {
                            schema_lemma_self(v, id);
                        },
                        _ => {},
                    }
                },
                _ => {},
            }
        },
    }
}

pub proof fn lemma_omrs_self(t: Option<MayBeRef310<Schema>>, d: DiffResult<
    MayBeRefDiff<SchemaDiff>,
>)
    requires
        omrs_ok(d, t, t),
    ensures
        omrs_d_same(d),
        d is Absent || d is Same,
    decreases t,
{
    match t {
        Option::None => {},
        Option::Some(x) => {
            mrs_lemma_self(x, d);
        },
    }
}

proof fn smap_lemma_self(
    s: Seq<(String, MayBeRef310<Schema>)>,
    m: Seq<(String, DiffResult<MayBeRefDiff<SchemaDiff>>)>,
)
    requires
        smap_ok(m, s, s),
    ensures
        m.len() == s.len(),
        forall|i: int|
            0 <= i < m.len() ==> ((#[trigger] m[i]).1 matches DiffResult::Same(p) && mrs_d_same(
                p,
            )),
    decreases s,
{
    let ks = keys_of(s);
    crate::diff::lemma_addc_self_zero(ks, s.len() as nat);
    assert forall|i: int| 0 <= i < m.len() implies ((#[trigger] m[i]).1
        matches DiffResult::Same(p) && mrs_d_same(p)) by {
        crate::diff::lemma_occ_lt_total(ks, i);
        assert(matched(ks, ks, i));
        assert(mrs_elem_ok(m[i].1, s[i].1, s[i].1));
        assert(decreases_to!(s => s[i]));
        assert(decreases_to!(s[i] => s[i].1));
        mrs_lemma_self(s[i].1, m[i].1);
    }
}

proof fn smap_field_lemma_self(t: Option<Vec<(String, MayBeRef310<Schema>)>>, d: DiffResult<
    MapDiff<MayBeRefDiff<SchemaDiff>>,
>)
    requires
        dr_smap_ok(d, t, t),
    ensures
        smap_field_d_same(d),
        d is Absent || d is Same,
    decreases t,
{
    match t {
        Option::None => {},
        Option::Some(s) => {
            match d {
                DiffResult::Same(m) => {
                    smap_lemma_self(s@, m@);
                },
                DiffResult::Updated(m) => {
                    smap_lemma_self(s@, m@);
                    assert(sm_all_same(m@));
                },
                _ => {},
            }
        },
    }
}

proof fn slist_lemma_self(s: Seq<MayBeRef310<Schema>>, r: Seq<DiffResult<MayBeRefDiff<SchemaDiff>>>)
    requires
        slist_ok(r, s, s),
    ensures
        r.len() == s.len(),
        forall|i: int|
            0 <= i < r.len() ==> ((#[trigger] r[i]) matches DiffResult::Same(p) && mrs_d_same(p)),
    decreases s,
{
    assert forall|i: int| 0 <= i < r.len() implies ((#[trigger] r[i]) matches DiffResult::Same(p)
        && mrs_d_same(p)) by {
        assert(mrs_elem_ok(r[i], s[i], s[i]));
        assert(decreases_to!(s => s[i]));
        mrs_lemma_self(s[i], r[i]);
    }
}

proof fn slist_field_lemma_self(t: Option<Vec<MayBeRef310<Schema>>>, d: DiffResult<
    VecDiff<MayBeRefDiff<SchemaDiff>>,
>)
    requires
        dr_slist_ok(d, t, t),
    ensures
        slist_field_d_same(d),
        d is Absent || d is Same,
    decreases t,
{
    match t {
        Option::None => {},
        Option::Some(s) => {
            match d {
                DiffResult::Same(r) => {
                    slist_lemma_self(s@, r@);
                },
                DiffResult::Updated(r) => {
                    slist_lemma_self(s@, r@);
                    assert(atoms_all_same::<MayBeRefDiff<SchemaDiff>>(r@));
                },
                _ => {},
            }
        },
    }
}

proof fn sitems_lemma_self(t: Option<MayBeRef310<Schema>>, v: Seq<
    DiffResult<MayBeRefDiff<SchemaDiff>>,
>)
    requires
        sitems_ok(v, t, t),
    ensures
        forall|i: int| 0 <= i < v.len() ==> omrs_d_same(#[trigger] v[i]),
        v.len() == 0 || (v.len() == 1 && v[0] is Same),
    decreases t,
{
    match t {
        Option::None => {},
        Option::Some(x) => {
            mrs_lemma_self(x, v[0]);
        },
    }
}


/// Relation pinning the difference of two whole documents.
pub open spec fn http_schema_diff_ok(d: DiffResult<HttpSchemaDiff>, a: HttpSchema, b: HttpSchema) -> bool {
    <HttpSchema as DiffElem>::elem_ok(d, a, b)
}

/// A document difference that records no change anywhere.
pub open spec fn http_schema_diff_unchanged(p: HttpSchemaDiff) -> bool {
    httpschema_d_same(p)
}

/// Compare two parsed documents into one fully materialized difference tree:
/// `Same` when the documents are structurally identical, `Updated` otherwise,
/// with every nested field wrapped in its own change state.
pub fn diff_http_schemas(old: &HttpSchema, new: &HttpSchema) -> (d: DiffResult<HttpSchemaDiff>)
    ensures
        http_schema_diff_ok(d, *old, *new),
{
    HttpSchema::diff(old, new)
}

/// Diffing a document against itself yields a tree with no `Added`,
/// `Removed` or `Updated` node anywhere: the root is `Same` and every nested
/// change state below it is `Same` or `Absent`.
pub proof fn lemma_diff_self_unchanged(t: HttpSchema, d: DiffResult<HttpSchemaDiff>)
    requires
        http_schema_diff_ok(d, t, t),
    ensures
        d matches DiffResult::Same(p) && http_schema_diff_unchanged(p),
{
    HttpSchema::lemma_self(t, d);
}

} // verus!
