use apidiff::checker::ValidationIssuer;
use apidiff::checker::added_required_parameter_check::AddedRequiredParameterCheck;
use apidiff::checker::removed_media_type_check::RemovedMediaTypeCheck;
use apidiff::checker::removed_operation_check::RemovedOperationCheck;
use apidiff::checker::schema_enum_value_removed_check::SchemaEnumValueRemovedCheck;
use apidiff::checker::schema_type_changed_check::ChangedSchemaTypeCheck;
use apidiff::diff_core::{DiffResult, DiffState, Either, MayBeRefCore};
use apidiff::differ::diff_http_schemas;
use apidiff::json::JsonValue;
use apidiff::schema::{HttpSchema, MediaType, Operation, Parameter, Path, RequestBody, Response, Schema};
use apidiff::checker::removed_response_property_check::RemovedResponsePropertyCheck;
use apidiff::visitor::dispatch_visitor;

fn schema0() -> Schema {
    Schema {
        title: None,
        maximum: None,
        minimum: None,
        max_length: None,
        min_length: None,
        required: None,
        enum_values: None,
        schema_type: None,
        all_of: None,
        one_of: None,
        any_of: None,
        not: None,
        items: Box::new(None),
        properties: None,
        description: None,
        format: None,
        default: None,
        xml: None,
        deprecated: None,
        custom_fields: vec![],
    }
}

fn op0() -> Operation {
    Operation {
        tags: None,
        summary: None,
        description: None,
        external_docs: None,
        operation_id: None,
        parameters: None,
        responses: None,
        request_body: None,
        deprecated: None,
    }
}

fn path0() -> Path {
    Path {
        get: None,
        put: None,
        post: None,
        delete: None,
        options: None,
        head: None,
        patch: None,
        trace: None,
        parameters: None,
        summary: None,
        description: None,
    }
}

fn param(name: &str, loc: &str, required: bool) -> Parameter {
    Parameter {
        name: name.to_string(),
        location: loc.to_string(),
        description: None,
        required: Some(required),
        deprecated: None,
        schema: None,
        custom_fields: vec![],
    }
}

fn doc(paths: Vec<(String, Path)>) -> HttpSchema {
    HttpSchema {
        version: Some("3.1.0".to_string()),
        info: None,
        paths: Some(
            paths
                .into_iter()
                .map(|(k, p)| (k, MayBeRefCore::Value(p)))
                .collect(),
        ),
        tags: None,
        external_docs: None,
    }
}

fn media_json(schema: Option<Schema>) -> MediaType {
    MediaType { schema: schema.map(MayBeRefCore::Value), example: None }
}

#[test]
fn newly_required_parameter_is_flagged() {
    // old operation has parameter `id` with required=false
    let mut old_op = op0();
    old_op.parameters = Some(vec![MayBeRefCore::Value(param("id", "query", false))]);
    let mut new_op = op0();
    new_op.parameters = Some(vec![MayBeRefCore::Value(param("id", "query", true))]);
    let mut old_path = path0();
    old_path.get = Some(old_op);
    let mut new_path = path0();
    new_path.get = Some(new_op);
    let old = doc(vec![("/users".to_string(), old_path)]);
    let new = doc(vec![("/users".to_string(), new_path)]);
    let d = diff_http_schemas(&old, &new);
    let mut rule = AddedRequiredParameterCheck::default();
    dispatch_visitor(&d, &mut rule);
    let issues = rule.issues().unwrap();
    assert_eq!(issues.len(), 1);
    assert_eq!(issues[0].rule_id, "added-required-parameter");
    assert!(issues[0].is_breaking);
    let last = issues[0].path.segs.last().unwrap();
    assert_eq!(last.0, "id");
    assert_eq!(last.1, DiffState::Updated);
    assert_eq!(issues[0].path.render(), "/paths/~1users/get/parameters/id");
}

#[test]
fn required_parameter_on_new_operation_is_not_flagged() {
    // the whole operation is newly added, so the rule must stay silent
    let old_path = path0();
    let mut new_op = op0();
    new_op.parameters = Some(vec![MayBeRefCore::Value(param("id", "query", true))]);
    let mut new_path = path0();
    new_path.get = Some(new_op);
    let old = doc(vec![("/users".to_string(), old_path)]);
    let new = doc(vec![("/users".to_string(), new_path)]);
    let d = diff_http_schemas(&old, &new);
    let mut rule = AddedRequiredParameterCheck::default();
    dispatch_visitor(&d, &mut rule);
    let issues = rule.issues().unwrap();
    assert_eq!(issues.len(), 0);
}

fn response_with(types: Vec<&str>) -> Response {
    Response {
        description: None,
        content: Some(
            types.into_iter().map(|t| (t.to_string(), media_json(None))).collect(),
        ),
    }
}

#[test]
fn removed_response_media_type_is_flagged_once() {
    let mut old_op = op0();
    old_op.responses = Some(vec![(
        "200".to_string(),
        MayBeRefCore::Value(response_with(vec!["application/json", "application/xml"])),
    )]);
    let mut new_op = op0();
    new_op.responses = Some(vec![(
        "200".to_string(),
        MayBeRefCore::Value(response_with(vec!["application/json"])),
    )]);
    let mut old_path = path0();
    old_path.get = Some(old_op);
    let mut new_path = path0();
    new_path.get = Some(new_op);
    let old = doc(vec![("/a".to_string(), old_path)]);
    let new = doc(vec![("/a".to_string(), new_path)]);
    let d = diff_http_schemas(&old, &new);
    let mut rule = RemovedMediaTypeCheck::default();
    dispatch_visitor(&d, &mut rule);
    let issues = rule.issues().unwrap();
    assert_eq!(issues.len(), 1);
    let last = issues[0].path.segs.last().unwrap();
    assert_eq!(last.0, "application/xml");
    assert_eq!(last.1, DiffState::Removed);
}

fn schema_with_enum(vals: Vec<&str>) -> Schema {
    let mut s = schema0();
    s.enum_values = Some(vals.into_iter().map(|v| JsonValue::Text(v.to_string())).collect());
    s
}

fn op_with_response_schema(s: Schema) -> Operation {
    let mut o = op0();
    o.responses = Some(vec![(
        "200".to_string(),
        MayBeRefCore::Value(Response {
            description: None,
            content: Some(vec![("application/json".to_string(), media_json(Some(s)))]),
        }),
    )]);
    o
}

#[test]
fn narrowed_enum_is_flagged() {
    let mut old_path = path0();
    old_path.get = Some(op_with_response_schema(schema_with_enum(vec!["a", "b", "c"])));
    let mut new_path = path0();
    new_path.get = Some(op_with_response_schema(schema_with_enum(vec!["a", "b"])));
    let old = doc(vec![("/e".to_string(), old_path)]);
    let new = doc(vec![("/e".to_string(), new_path)]);
    let d = diff_http_schemas(&old, &new);
    let mut rule = SchemaEnumValueRemovedCheck::default();
    dispatch_visitor(&d, &mut rule);
    assert_eq!(rule.issues().unwrap().len(), 1);
}

#[test]
fn reordered_enum_is_not_flagged() {
    let mut old_path = path0();
    old_path.get = Some(op_with_response_schema(schema_with_enum(vec!["a", "b", "c"])));
    let mut new_path = path0();
    new_path.get = Some(op_with_response_schema(schema_with_enum(vec!["c", "a", "b"])));
    let old = doc(vec![("/e".to_string(), old_path)]);
    let new = doc(vec![("/e".to_string(), new_path)]);
    let d = diff_http_schemas(&old, &new);
    let mut rule = SchemaEnumValueRemovedCheck::default();
    dispatch_visitor(&d, &mut rule);
    assert_eq!(rule.issues().unwrap().len(), 0);
}

#[test]
fn removed_operation_under_removed_path_is_flagged() {
    // the whole path is gone from the new document, yet the operation
    // removal must still be observable
    let mut old_path = path0();
    old_path.get = Some(op0());
    let old = doc(vec![("/x".to_string(), old_path)]);
    let new = doc(vec![]);
    let d = diff_http_schemas(&old, &new);
    let mut rule = RemovedOperationCheck::default();
    dispatch_visitor(&d, &mut rule);
    let issues = rule.issues().unwrap();
    assert_eq!(issues.len(), 1);
    let last = issues[0].path.segs.last().unwrap();
    assert_eq!(last.0, "get");
    assert_eq!(last.1, DiffState::Removed);
    assert_eq!(issues[0].path.render(), "/paths/~1x/get");
}

#[test]
fn changed_schema_type_is_flagged() {
    let mut s_old = schema0();
    s_old.schema_type = Some(Either::Left("string".to_string()));
    let mut s_new = schema0();
    s_new.schema_type = Some(Either::Left("integer".to_string()));
    let mut old_path = path0();
    old_path.get = Some(op_with_response_schema(s_old));
    let mut new_path = path0();
    new_path.get = Some(op_with_response_schema(s_new));
    let old = doc(vec![("/t".to_string(), old_path)]);
    let new = doc(vec![("/t".to_string(), new_path)]);
    let d = diff_http_schemas(&old, &new);
    let mut rule = ChangedSchemaTypeCheck::default();
    dispatch_visitor(&d, &mut rule);
    assert_eq!(rule.issues().unwrap().len(), 1);
}

#[test]
fn narrowed_enum_inside_one_of_member_is_flagged() {
    let mut outer_old = schema0();
    outer_old.one_of = Some(vec![MayBeRefCore::Value(schema_with_enum(vec!["a", "b", "c"]))]);
    let mut outer_new = schema0();
    outer_new.one_of = Some(vec![MayBeRefCore::Value(schema_with_enum(vec!["a"]))]);
    let mut old_path = path0();
    old_path.get = Some(op_with_response_schema(outer_old));
    let mut new_path = path0();
    new_path.get = Some(op_with_response_schema(outer_new));
    let old = doc(vec![("/o".to_string(), old_path)]);
    let new = doc(vec![("/o".to_string(), new_path)]);
    let d = diff_http_schemas(&old, &new);
    let mut rule = SchemaEnumValueRemovedCheck::default();
    dispatch_visitor(&d, &mut rule);
    assert_eq!(rule.issues().unwrap().len(), 1);
}

#[test]
fn removed_property_schema_under_response_is_flagged() {
    let mut outer_old = schema0();
    outer_old.properties = Some(vec![
        ("kept".to_string(), MayBeRefCore::Value(schema0())),
        ("gone".to_string(), MayBeRefCore::Value(schema0())),
    ]);
    let mut outer_new = schema0();
    outer_new.properties = Some(vec![("kept".to_string(), MayBeRefCore::Value(schema0()))]);
    let mut old_path = path0();
    old_path.get = Some(op_with_response_schema(outer_old));
    let mut new_path = path0();
    new_path.get = Some(op_with_response_schema(outer_new));
    let old = doc(vec![("/p".to_string(), old_path)]);
    let new = doc(vec![("/p".to_string(), new_path)]);
    let d = diff_http_schemas(&old, &new);
    let mut rule = RemovedResponsePropertyCheck::default();
    dispatch_visitor(&d, &mut rule);
    let issues = rule.issues().unwrap();
    assert_eq!(issues.len(), 1);
    let last = issues[0].path.segs.last().unwrap();
    assert_eq!(last.0, "gone");
}
