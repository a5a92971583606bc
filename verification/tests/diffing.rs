use apidiff::checker::ValidationIssuer;
use apidiff::checker::added_required_body_property_check::AddedRequiredBodyPropertyCheck;
use apidiff::checker::added_required_parameter_check::AddedRequiredParameterCheck;
use apidiff::checker::added_required_request_body_check::AddedRequiredRequestBodyCheck;
use apidiff::checker::removed_media_type_check::RemovedMediaTypeCheck;
use apidiff::checker::removed_operation_check::RemovedOperationCheck;
use apidiff::checker::removed_response_property_check::RemovedResponsePropertyCheck;
use apidiff::checker::schema_enum_value_removed_check::SchemaEnumValueRemovedCheck;
use apidiff::checker::schema_type_changed_check::ChangedSchemaTypeCheck;
use apidiff::diff_core::{DiffResult, MayBeRefCore};
use apidiff::differ::diff_http_schemas;
use apidiff::json::{json_equal, JsonNum, JsonValue};
use apidiff::schema::{HttpSchema, Info, Operation, Path, Tag};
use apidiff::visitor::dispatch_visitor;

fn op0() -> Operation {
    Operation {
        tags: None,
        summary: None,
        description: None,
        external_docs: None,
        operation_id: None,
        parameters: None,
        responses: None,
        request_body: None,
        deprecated: None,
    }
}

fn path_with_get() -> Path {
    Path {
        get: Some(op0()),
        put: None,
        post: None,
        delete: None,
        options: None,
        head: None,
        patch: None,
        trace: None,
        parameters: None,
        summary: None,
        description: None,
    }
}

fn sample_doc() -> HttpSchema {
    HttpSchema {
        version: Some("3.1.0".to_string()),
        info: Some(Info {
            title: Some("t".to_string()),
            description: None,
            terms_of_service: None,
            contact: None,
            license: None,
            version: Some("1.2.3".to_string()),
        }),
        paths: Some(vec![
            ("/a".to_string(), MayBeRefCore::Value(path_with_get())),
            ("/b".to_string(), MayBeRefCore::Value(path_with_get())),
        ]),
        tags: Some(vec![Tag {
            name: Some("core".to_string()),
            description: Some("the core surface".to_string()),
            external_doc: None,
        }]),
        external_docs: None,
    }
}

#[test]
fn diffing_a_document_against_itself_yields_same_and_no_issues() {
    let d = diff_http_schemas(&sample_doc(), &sample_doc());
    assert!(matches!(d, DiffResult::Same(_)));
    let mut r1 = AddedRequiredBodyPropertyCheck::default();
    let mut r2 = AddedRequiredParameterCheck::default();
    let mut r3 = AddedRequiredRequestBodyCheck::default();
    let mut r4 = RemovedMediaTypeCheck::default();
    let mut r5 = RemovedOperationCheck::default();
    let mut r6 = RemovedResponsePropertyCheck::default();
    let mut r7 = SchemaEnumValueRemovedCheck::default();
    let mut r8 = ChangedSchemaTypeCheck::default();
    dispatch_visitor(&d, &mut r1);
    dispatch_visitor(&d, &mut r2);
    dispatch_visitor(&d, &mut r3);
    dispatch_visitor(&d, &mut r4);
    dispatch_visitor(&d, &mut r5);
    dispatch_visitor(&d, &mut r6);
    dispatch_visitor(&d, &mut r7);
    dispatch_visitor(&d, &mut r8);
    assert!(r1.issues().unwrap().is_empty());
    assert!(r2.issues().unwrap().is_empty());
    assert!(r3.issues().unwrap().is_empty());
    assert!(r4.issues().unwrap().is_empty());
    assert!(r5.issues().unwrap().is_empty());
    assert!(r6.issues().unwrap().is_empty());
    assert!(r7.issues().unwrap().is_empty());
    assert!(r8.issues().unwrap().is_empty());
}

#[test]
fn map_keys_cover_old_and_new_exactly_once() {
    let mut old = sample_doc();
    let mut new = sample_doc();
    old.paths = Some(vec![
        ("/a".to_string(), MayBeRefCore::Value(path_with_get())),
        ("/b".to_string(), MayBeRefCore::Value(path_with_get())),
    ]);
    new.paths = Some(vec![
        ("/b".to_string(), MayBeRefCore::Value(path_with_get())),
        ("/c".to_string(), MayBeRefCore::Value(path_with_get())),
    ]);
    let d = diff_http_schemas(&old, &new);
    let p = match &d {
        DiffResult::Updated(p) => p,
        _ => panic!("expected an updated document"),
    };
    let m = match &p.paths {
        DiffResult::Updated(m) => m,
        _ => panic!("expected updated paths"),
    };
    let keys: Vec<&str> = m.iter().map(|e| e.0.as_str()).collect();
    assert_eq!(keys, vec!["/a", "/b", "/c"]);
    assert!(matches!(m[0].1, DiffResult::Removed(_)));
    assert!(matches!(m[1].1, DiffResult::Same(_)));
    assert!(matches!(m[2].1, DiffResult::Added(_)));
}

#[test]
fn stats_count_operations_by_change_state() {
    let mut old = sample_doc();
    let mut new = sample_doc();
    old.paths = Some(vec![("/a".to_string(), MayBeRefCore::Value(path_with_get()))]);
    let mut changed = path_with_get();
    changed.get.as_mut().unwrap().summary = Some("new words".to_string());
    new.paths = Some(vec![
        ("/a".to_string(), MayBeRefCore::Value(changed)),
        ("/b".to_string(), MayBeRefCore::Value(path_with_get())),
    ]);
    let d = diff_http_schemas(&old, &new);
    let p = match &d {
        DiffResult::Updated(p) => p,
        _ => panic!("expected an updated document"),
    };
    let s = p.stats();
    assert_eq!(s.paths_all, 2);
    assert_eq!(s.paths_updated, 1);
    assert_eq!(s.paths_added, 1);
    assert_eq!(s.paths_removed, 0);
    assert_eq!(p.version(), "1.2.3");
}

#[test]
fn json_values_compare_structurally() {
    let a = JsonValue::Arr(vec![
        JsonValue::Num(JsonNum::PosInt(1)),
        JsonValue::Obj(vec![("k".to_string(), JsonValue::Bool(true))]),
    ]);
    let b = JsonValue::Arr(vec![
        JsonValue::Num(JsonNum::PosInt(1)),
        JsonValue::Obj(vec![("k".to_string(), JsonValue::Bool(true))]),
    ]);
    let c = JsonValue::Arr(vec![
        JsonValue::Num(JsonNum::PosInt(2)),
        JsonValue::Obj(vec![("k".to_string(), JsonValue::Bool(true))]),
    ]);
    assert!(json_equal(&a, &b));
    assert!(!json_equal(&a, &c));
    // the two integer shapes compare by value
    assert!(json_equal(&JsonValue::Num(JsonNum::PosInt(1)), &JsonValue::Num(JsonNum::NegInt(1))));
    assert!(!json_equal(
        &JsonValue::Num(JsonNum::PosInt(1)),
        &JsonValue::Num(JsonNum::NegInt(-1)),
    ));
    // the two float zeroes are equal; a float never equals an integer
    assert!(json_equal(
        &JsonValue::Num(JsonNum::FloatBits(0)),
        &JsonValue::Num(JsonNum::FloatBits(0x8000_0000_0000_0000)),
    ));
    assert!(!json_equal(
        &JsonValue::Num(JsonNum::FloatBits((1.0f64).to_bits())),
        &JsonValue::Num(JsonNum::PosInt(1)),
    ));
}

#[test]
fn path_strings_escape_separators_and_tildes() {
    let mut old = sample_doc();
    let mut new = sample_doc();
    old.paths = Some(vec![("/a~b".to_string(), MayBeRefCore::Value(path_with_get()))]);
    new.paths = Some(vec![]);
    let d = diff_http_schemas(&old, &new);
    let mut rule = RemovedOperationCheck::default();
    dispatch_visitor(&d, &mut rule);
    let issues = rule.issues().unwrap();
    assert_eq!(issues.len(), 1);
    assert_eq!(issues[0].path.render(), "/paths/~1a~0b/get");
}

#[test]
fn swapping_inputs_swaps_added_and_removed_counts() {
    let mut old = sample_doc();
    let mut new = sample_doc();
    old.paths = Some(vec![("/a".to_string(), MayBeRefCore::Value(path_with_get()))]);
    let mut changed = path_with_get();
    changed.get.as_mut().unwrap().summary = Some("new words".to_string());
    new.paths = Some(vec![
        ("/a".to_string(), MayBeRefCore::Value(changed)),
        ("/b".to_string(), MayBeRefCore::Value(path_with_get())),
    ]);
    let fwd = match diff_http_schemas(&old, &new) {
        DiffResult::Updated(p) => p.stats(),
        _ => panic!("expected an updated document"),
    };
    let bwd = match diff_http_schemas(&new, &old) {
        DiffResult::Updated(p) => p.stats(),
        _ => panic!("expected an updated document"),
    };
    assert_eq!(fwd.paths_added, bwd.paths_removed);
    assert_eq!(fwd.paths_removed, bwd.paths_added);
    assert_eq!(fwd.paths_updated, bwd.paths_updated);
    assert_eq!(fwd.paths_all, bwd.paths_all);
}
