use arazzo_models::either::Either;
use arazzo_models::errors::LoadError;
use arazzo_models::extensions::AnyValue;
use arazzo_models::nodes::JsonNode;
use arazzo_models::payloads::Payload;
use arazzo_models::v1_0::{
    ArazzoDescription, Components, Criterion, CriterionExpressionType, FailureObject, Info,
    ParameterObject, PayloadReplacement, RequestBody, ReusableObject, SourceDescription, Step,
    SuccessObject, Workflow,
};

fn s(v: &str) -> JsonNode {
    JsonNode::Str(v.to_string())
}

fn u(v: u64) -> JsonNode {
    JsonNode::UInt(v)
}

fn num(v: f64) -> JsonNode {
    JsonNode::Num(serde_json::Number::from_f64(v).unwrap())
}

fn obj(entries: Vec<(&str, JsonNode)>) -> JsonNode {
    JsonNode::Obj(entries.into_iter().map(|(k, v)| (k.to_string(), v)).collect())
}

fn arr(items: Vec<JsonNode>) -> JsonNode {
    JsonNode::Arr(items)
}

fn ext(name: &str, v: AnyValue) -> (String, AnyValue) {
    (name.to_string(), v)
}

#[test]
fn fails_to_load_if_the_main_value_is_not_a_json_object() {
    assert!(ArazzoDescription::try_from_json(&s("test")).is_err());
}

#[test]
fn fails_to_load_if_the_version_is_missing() {
    assert!(ArazzoDescription::try_from_json(&obj(vec![])).is_err());
}

#[test]
fn fails_to_load_if_the_version_is_not_a_string() {
    let json = obj(vec![("arazzo", obj(vec![]))]);
    assert!(ArazzoDescription::try_from_json(&json).is_err());
}

#[test]
fn fails_to_load_if_the_info_is_missing() {
    let json = obj(vec![("arazzo", s("1.0.0"))]);
    assert!(ArazzoDescription::try_from_json(&json).is_err());
}

fn info_node() -> JsonNode {
    obj(vec![("title", s("test")), ("version", s("1.2.3"))])
}

#[test]
fn fails_to_load_if_the_source_descriptions_are_missing() {
    let json = obj(vec![("arazzo", s("1.0.0")), ("info", info_node())]);
    assert!(ArazzoDescription::try_from_json(&json).is_err());
}

#[test]
fn fails_to_load_if_the_source_descriptions_are_empty() {
    let json = obj(vec![
        ("arazzo", s("1.0.0")),
        ("info", info_node()),
        ("sourceDescriptions", arr(vec![])),
    ]);
    assert!(ArazzoDescription::try_from_json(&json).is_err());
}

fn source_descriptions_node() -> JsonNode {
    arr(vec![obj(vec![("name", s("test")), ("url", s("http://test"))])])
}

#[test]
fn fails_to_load_if_the_workflows_are_missing() {
    let json = obj(vec![
        ("arazzo", s("1.0.0")),
        ("info", info_node()),
        ("sourceDescriptions", source_descriptions_node()),
    ]);
    assert!(ArazzoDescription::try_from_json(&json).is_err());
}

#[test]
fn fails_to_load_if_the_workflows_are_empty() {
    let json = obj(vec![
        ("arazzo", s("1.0.0")),
        ("info", info_node()),
        ("sourceDescriptions", source_descriptions_node()),
        ("workflows", arr(vec![])),
    ]);
    assert!(ArazzoDescription::try_from_json(&json).is_err());
}

#[test]
fn arazzo_description_supports_extensions() {
    let json = obj(vec![
        ("arazzo", s("1.0.0")),
        ("x-one", s("1")),
        ("x-two", u(2)),
        ("info", info_node()),
        ("sourceDescriptions", source_descriptions_node()),
        (
            "workflows",
            arr(vec![obj(vec![
                ("workflowId", s("test")),
                ("steps", arr(vec![obj(vec![("stepId", s("test"))])])),
            ])]),
        ),
    ]);

    let desc = ArazzoDescription::try_from_json(&json).unwrap();
    assert_eq!(
        desc.extensions,
        vec![
            ext("one", AnyValue::String("1".to_string())),
            ext("two", AnyValue::UInteger(2)),
        ]
    );
}

#[test]
fn info_supports_extensions() {
    let json = obj(vec![
        ("title", s("test")),
        ("version", s("1.0.0")),
        ("x-one", s("1")),
        ("x-two", u(2)),
    ]);

    let info = Info::try_from_json(&json).unwrap();
    assert_eq!(
        info.extensions,
        vec![
            ext("one", AnyValue::String("1".to_string())),
            ext("two", AnyValue::UInteger(2)),
        ]
    );
}

#[test]
fn source_description_supports_extensions() {
    let json = obj(vec![
        ("name", s("test")),
        ("url", s("test")),
        ("x-one", s("1")),
        ("x-two", u(2)),
    ]);

    let desc = SourceDescription::try_from_json(&json).unwrap();
    assert_eq!(
        desc.extensions,
        vec![
            ext("one", AnyValue::String("1".to_string())),
            ext("two", AnyValue::UInteger(2)),
        ]
    );
}

#[test]
fn workflow_fails_to_load_if_there_are_no_steps() {
    let json = obj(vec![("workflowId", s("test"))]);
    assert!(Workflow::try_from_json(&json).is_err());

    let json = obj(vec![("workflowId", s("test")), ("steps", arr(vec![]))]);
    assert!(Workflow::try_from_json(&json).is_err());
}

#[test]
fn workflow_supports_extensions() {
    let json = obj(vec![
        ("workflowId", s("test")),
        ("steps", arr(vec![obj(vec![("stepId", s("test"))])])),
        ("x-one", s("1")),
        ("x-two", u(2)),
    ]);

    let wf = Workflow::try_from_json(&json).unwrap();
    assert_eq!(
        wf.extensions,
        vec![
            ext("one", AnyValue::String("1".to_string())),
            ext("two", AnyValue::UInteger(2)),
        ]
    );
}

#[test]
fn steps_supports_extensions() {
    let json = obj(vec![("stepId", s("test")), ("x-one", s("1")), ("x-two", u(2))]);

    let step = Step::try_from_json(&json).unwrap();
    assert_eq!(
        step.extensions,
        vec![
            ext("one", AnyValue::String("1".to_string())),
            ext("two", AnyValue::UInteger(2)),
        ]
    );
}

fn pagination_schema() -> JsonNode {
    obj(vec![
        ("type", s("object")),
        (
            "properties",
            obj(vec![
                (
                    "page",
                    obj(vec![("type", s("integer")), ("format", s("int32"))]),
                ),
                (
                    "pageSize",
                    obj(vec![("type", s("integer")), ("format", s("int32"))]),
                ),
            ]),
        ),
    ])
}

#[test]
fn load_components() {
    let json = obj(vec![
        (
            "parameters",
            obj(vec![(
                "storeId",
                obj(vec![
                    ("name", s("storeId")),
                    ("in", s("header")),
                    ("value", s("$inputs.x-store-id")),
                ]),
            )]),
        ),
        ("inputs", obj(vec![("pagination", pagination_schema())])),
        (
            "failureActions",
            obj(vec![(
                "refreshToken",
                obj(vec![
                    ("name", s("refreshExpiredToken")),
                    ("type", s("retry")),
                    ("retryAfter", u(1)),
                    ("retryLimit", u(5)),
                    ("workflowId", s("refreshTokenWorkflowId")),
                    (
                        "criteria",
                        arr(vec![obj(vec![("condition", s("{$statusCode == 401}"))])]),
                    ),
                ]),
            )]),
        ),
    ]);

    let components = Components::try_from_json(&json).unwrap();
    assert_eq!(
        components,
        Components {
            inputs: vec![("pagination".to_string(), pagination_schema())],
            parameters: vec![(
                "storeId".to_string(),
                ParameterObject {
                    name: "storeId".to_string(),
                    in_: Some("header".to_string()),
                    value: Either::Second("$inputs.x-store-id".to_string()),
                    extensions: vec![],
                }
            )],
            success_actions: vec![],
            failure_actions: vec![(
                "refreshToken".to_string(),
                FailureObject {
                    name: "refreshExpiredToken".to_string(),
                    type_: "retry".to_string(),
                    workflow_id: Some("refreshTokenWorkflowId".to_string()),
                    step_id: None,
                    retry_after: Some(serde_json::Number::from_f64(1.0).unwrap()),
                    retry_limit: Some(5),
                    criteria: vec![Criterion {
                        context: None,
                        condition: "{$statusCode == 401}".to_string(),
                        type_: None,
                        extensions: vec![],
                    }],
                    extensions: vec![],
                }
            )],
            extensions: vec![],
        }
    );
}

#[test]
fn components_supports_extensions() {
    let json = obj(vec![
        ("workflowId", s("test")),
        ("x-one", s("1")),
        ("x-two", u(2)),
    ]);

    let components = Components::try_from_json(&json).unwrap();
    assert_eq!(
        components.extensions,
        vec![
            ext("one", AnyValue::String("1".to_string())),
            ext("two", AnyValue::UInteger(2)),
        ]
    );
}

#[test]
fn load_success_object() {
    let json = obj(vec![
        ("name", s("test")),
        ("type", s("end")),
        ("workflowId", s("workflowId")),
        ("stepId", s("stepId")),
    ]);

    let success = SuccessObject::try_from_json(&json).unwrap();
    assert_eq!(&success.name, "test");
    assert_eq!(&success.type_, "end");
    assert_eq!(success.workflow_id, Some("workflowId".to_string()));
    assert_eq!(success.step_id, Some("stepId".to_string()));

    let json = obj(vec![("name", s("test")), ("type", s("end"))]);

    let success = SuccessObject::try_from_json(&json).unwrap();
    assert_eq!(&success.name, "test");
    assert_eq!(&success.type_, "end");
    assert_eq!(success.workflow_id, None);
    assert_eq!(success.step_id, None);
}

#[test]
fn success_object_supports_extensions() {
    let json = obj(vec![
        ("name", s("test")),
        ("type", s("end")),
        ("x-one", s("1")),
        ("x-two", u(2)),
    ]);

    let success = SuccessObject::try_from_json(&json).unwrap();
    assert_eq!(
        success.extensions,
        vec![
            ext("one", AnyValue::String("1".to_string())),
            ext("two", AnyValue::UInteger(2)),
        ]
    );
}

#[test]
fn load_failure_object() {
    let json = obj(vec![
        ("name", s("test")),
        ("type", s("end")),
        ("workflowId", s("workflowId")),
        ("stepId", s("stepId")),
        ("retryAfter", num(10.5)),
        ("retryLimit", u(10)),
    ]);

    let failure = FailureObject::try_from_json(&json).unwrap();
    assert_eq!(&failure.name, "test");
    assert_eq!(&failure.type_, "end");
    assert_eq!(failure.workflow_id, Some("workflowId".to_string()));
    assert_eq!(failure.step_id, Some("stepId".to_string()));
    assert_eq!(
        failure.retry_after,
        Some(serde_json::Number::from_f64(10.5).unwrap())
    );
    assert_eq!(failure.retry_limit, Some(10));

    let json = obj(vec![("name", s("test")), ("type", s("end"))]);

    let failure = FailureObject::try_from_json(&json).unwrap();
    assert_eq!(&failure.name, "test");
    assert_eq!(&failure.type_, "end");
    assert_eq!(failure.workflow_id, None);
    assert_eq!(failure.step_id, None);
    assert_eq!(failure.retry_after, None);
    assert_eq!(failure.retry_limit, None);
}

#[test]
fn failure_object_supports_extensions() {
    let json = obj(vec![
        ("name", s("test")),
        ("type", s("end")),
        ("x-one", s("1")),
        ("x-two", u(2)),
    ]);

    let failure = FailureObject::try_from_json(&json).unwrap();
    assert_eq!(
        failure.extensions,
        vec![
            ext("one", AnyValue::String("1".to_string())),
            ext("two", AnyValue::UInteger(2)),
        ]
    );
}

#[test]
fn load_reusable_object() {
    let json = obj(vec![
        ("reference", s("$test")),
        ("value", s("test")),
        ("workflowId", s("workflowId")),
    ]);

    let obj_loaded = ReusableObject::try_from_json(&json).unwrap();
    assert_eq!(&obj_loaded.reference, "$test");
    assert_eq!(obj_loaded.value, Some("test".to_string()));

    let json = obj(vec![("reference", s("$test"))]);

    let obj_loaded = ReusableObject::try_from_json(&json).unwrap();
    assert_eq!(&obj_loaded.reference, "$test");
    assert_eq!(obj_loaded.value, None);
}

#[test]
fn load_workflow_outputs() {
    let json = obj(vec![
        ("workflowId", s("test")),
        ("steps", arr(vec![obj(vec![("stepId", s("test"))])])),
        (
            "outputs",
            obj(vec![
                ("tokenExpires", s("$response.header.X-Expires-After")),
                ("rateLimit", s("$response.header.X-Rate-Limit")),
                ("invalid", arr(vec![])),
            ]),
        ),
    ]);

    let wf = Workflow::try_from_json(&json).unwrap();
    assert_eq!(
        wf.outputs,
        vec![
            (
                "rateLimit".to_string(),
                "$response.header.X-Rate-Limit".to_string()
            ),
            (
                "tokenExpires".to_string(),
                "$response.header.X-Expires-After".to_string()
            ),
        ]
    );
}

#[test]
fn load_workflow_parameters() {
    let json = obj(vec![
        ("workflowId", s("test")),
        ("steps", arr(vec![obj(vec![("stepId", s("test"))])])),
        (
            "parameters",
            arr(vec![obj(vec![
                ("name", s("username")),
                ("in", s("query")),
                ("value", s("$inputs.username")),
            ])]),
        ),
    ]);

    let wf = Workflow::try_from_json(&json).unwrap();
    assert_eq!(
        wf.parameters,
        vec![Either::First(ParameterObject {
            name: "username".to_string(),
            in_: Some("query".to_string()),
            value: Either::Second("$inputs.username".to_string()),
            extensions: vec![],
        })]
    );

    let json = obj(vec![("name", s("username")), ("value", u(10))]);

    let parameter = ParameterObject::try_from_json(&json).unwrap();
    assert_eq!(
        parameter,
        ParameterObject {
            name: "username".to_string(),
            in_: None,
            value: Either::First(AnyValue::UInteger(10)),
            extensions: vec![],
        }
    );
}

#[test]
fn parameter_object_supports_extensions() {
    let json = obj(vec![
        ("name", s("username")),
        ("value", u(10)),
        ("x-one", s("1")),
        ("x-two", u(2)),
    ]);

    let parameter = ParameterObject::try_from_json(&json).unwrap();
    assert_eq!(
        parameter.extensions,
        vec![
            ext("one", AnyValue::String("1".to_string())),
            ext("two", AnyValue::UInteger(2)),
        ]
    );
}

#[test]
fn load_step_parameters() {
    let json = obj(vec![
        ("stepId", s("test")),
        (
            "parameters",
            arr(vec![obj(vec![
                ("name", s("username")),
                ("in", s("query")),
                ("value", s("$inputs.username")),
            ])]),
        ),
    ]);

    let step = Step::try_from_json(&json).unwrap();
    assert_eq!(
        step.parameters,
        vec![Either::First(ParameterObject {
            name: "username".to_string(),
            in_: Some("query".to_string()),
            value: Either::Second("$inputs.username".to_string()),
            extensions: vec![],
        })]
    );
}

#[test]
fn load_request_body() {
    let json = obj(vec![("contentType", s("text/plain")), ("payload", s("some text"))]);

    let body = RequestBody::try_from_json(&json).unwrap();
    assert_eq!(body.content_type, Some("text/plain".to_string()));
}

#[test]
fn request_body_supports_extensions() {
    let json = obj(vec![
        ("contentType", s("text/plain")),
        ("payload", s("some text")),
        ("x-one", s("1")),
        ("x-two", u(2)),
    ]);

    let parameter = RequestBody::try_from_json(&json).unwrap();
    assert_eq!(
        parameter.extensions,
        vec![
            ext("one", AnyValue::String("1".to_string())),
            ext("two", AnyValue::UInteger(2)),
        ]
    );
}

#[test]
fn load_payload() {
    let text = "{\"petOrder\":{\"petId\": \"{$inputs.pet_id}\",\"couponCode\":\"{$inputs.coupon_code}\",\"quantity\":\"{$inputs.quantity}\",\"status\":\"placed\",\"complete\":false}}";
    let body_node = obj(vec![
        ("contentType", s("application/json")),
        ("payload", s(text)),
    ]);
    let body = RequestBody::try_from_json(&body_node).unwrap();
    assert_eq!(body.content_type, Some("application/json".to_string()));
    match body.payload.as_ref().unwrap() {
        Payload::String(p) => assert_eq!(&p.0, text),
        other => panic!("expected a string payload, got {:?}", other),
    }

    let structured = obj(vec![(
        "petOrder",
        obj(vec![
            ("petId", s("$inputs.pet_id")),
            ("couponCode", s("$inputs.coupon_code")),
            ("quantity", s("$inputs.quantity")),
            ("status", s("placed")),
            ("complete", s("false")),
        ]),
    )]);
    let body_node = obj(vec![
        ("contentType", s("application/json")),
        ("payload", structured.clone()),
    ]);
    let body = RequestBody::try_from_json(&body_node).unwrap();
    assert_eq!(body.content_type, Some("application/json".to_string()));
    match body.payload.as_ref().unwrap() {
        Payload::Json(p) => assert_eq!(p.0, structured),
        other => panic!("expected a structured payload, got {:?}", other),
    }
}

#[test]
fn load_criterion() {
    let json = obj(vec![("condition", s("$statusCode == 200"))]);

    let criterion = Criterion::try_from_json(&json).unwrap();
    assert_eq!(criterion.condition, "$statusCode == 200");
    assert_eq!(criterion.context, None);
    assert_eq!(criterion.type_, None);

    let json = obj(vec![
        ("context", s("$statusCode")),
        ("condition", s("^200$")),
        ("type", s("regex")),
    ]);

    let criterion = Criterion::try_from_json(&json).unwrap();
    assert_eq!(criterion.condition, "^200$");
    assert_eq!(criterion.context, Some("$statusCode".to_string()));
    assert_eq!(criterion.type_, Some(Either::First("regex".to_string())));
}

#[test]
fn criterion_supports_extensions() {
    let json = obj(vec![
        ("condition", s("$statusCode == 200")),
        ("x-one", s("1")),
        ("x-two", u(2)),
    ]);

    let criterion = Criterion::try_from_json(&json).unwrap();
    assert_eq!(
        criterion.extensions,
        vec![
            ext("one", AnyValue::String("1".to_string())),
            ext("two", AnyValue::UInteger(2)),
        ]
    );
}

#[test]
fn load_criterion_expression_type() {
    let json = obj(vec![
        ("type", s("jsonpath")),
        ("version", s("draft-goessner-dispatch-jsonpath-00")),
    ]);

    let criterion = CriterionExpressionType::try_from_json(&json).unwrap();
    assert_eq!(criterion.type_, "jsonpath");
    assert_eq!(criterion.version, "draft-goessner-dispatch-jsonpath-00");
}

#[test]
fn criterion_expression_type_supports_extensions() {
    let json = obj(vec![
        ("type", s("jsonpath")),
        ("version", s("draft-goessner-dispatch-jsonpath-00")),
        ("x-one", s("1")),
        ("x-two", u(2)),
    ]);

    let criterion = CriterionExpressionType::try_from_json(&json).unwrap();
    assert_eq!(
        criterion.extensions,
        vec![
            ext("one", AnyValue::String("1".to_string())),
            ext("two", AnyValue::UInteger(2)),
        ]
    );
}

#[test]
fn load_payload_replacement() {
    let json = obj(vec![("target", s("/petId")), ("value", s("$inputs.pet_id"))]);

    let payload_replacement = PayloadReplacement::try_from_json(&json).unwrap();
    assert_eq!(payload_replacement.target, "/petId");
    assert_eq!(
        payload_replacement.value,
        Either::Second("$inputs.pet_id".to_string())
    );

    let json = obj(vec![("target", s("/quantity")), ("value", u(10))]);

    let payload_replacement = PayloadReplacement::try_from_json(&json).unwrap();
    assert_eq!(payload_replacement.target, "/quantity");
    assert_eq!(
        payload_replacement.value,
        Either::First(AnyValue::UInteger(10))
    );
}

#[test]
fn payload_replacement_supports_extensions() {
    let json = obj(vec![
        ("target", s("/petId")),
        ("value", s("$inputs.pet_id")),
        ("x-one", s("1")),
        ("x-two", u(2)),
    ]);

    let payload_replacement = PayloadReplacement::try_from_json(&json).unwrap();
    assert_eq!(
        payload_replacement.extensions,
        vec![
            ext("one", AnyValue::String("1".to_string())),
            ext("two", AnyValue::UInteger(2)),
        ]
    );
}

#[test]
fn missing_version_error_names_the_field() {
    let err = ArazzoDescription::try_from_json(&obj(vec![])).unwrap_err();
    assert_eq!(
        err,
        LoadError::MissingRequiredField("arazzo".to_string(), "4.6.1.1".to_string())
    );
}

#[test]
fn missing_workflows_error_names_the_list() {
    let json = obj(vec![
        ("arazzo", s("1.0.0")),
        ("info", info_node()),
        ("sourceDescriptions", source_descriptions_node()),
    ]);
    let err = ArazzoDescription::try_from_json(&json).unwrap_err();
    assert_eq!(
        err,
        LoadError::EmptyRequiredList("workflows".to_string(), "4.6.1.1".to_string())
    );

    let json = obj(vec![
        ("arazzo", s("1.0.0")),
        ("info", info_node()),
        ("sourceDescriptions", source_descriptions_node()),
        ("workflows", arr(vec![])),
    ]);
    let err = ArazzoDescription::try_from_json(&json).unwrap_err();
    assert_eq!(
        err,
        LoadError::EmptyRequiredList("workflows".to_string(), "4.6.1.1".to_string())
    );
}

#[test]
fn wrong_type_error_names_the_kinds() {
    let json = obj(vec![("arazzo", u(1))]);
    let err = ArazzoDescription::try_from_json(&json).unwrap_err();
    assert_eq!(
        err,
        LoadError::WrongType(
            "arazzo".to_string(),
            "String".to_string(),
            "Number".to_string()
        )
    );
}

#[test]
fn reference_entry_without_other_fields_loads_as_reusable() {
    let json = obj(vec![
        ("stepId", s("test")),
        (
            "parameters",
            arr(vec![obj(vec![(
                "reference",
                s("$components.parameters.auth"),
            )])]),
        ),
    ]);
    let step = Step::try_from_json(&json).unwrap();
    assert_eq!(
        step.parameters,
        vec![Either::Second(ReusableObject {
            reference: "$components.parameters.auth".to_string(),
            value: None,
        })]
    );
}

#[test]
fn non_object_parameter_entries_are_silently_dropped() {
    let json = obj(vec![
        ("stepId", s("test")),
        (
            "parameters",
            arr(vec![
                s("not an object"),
                obj(vec![("name", s("x")), ("value", u(1))]),
            ]),
        ),
    ]);
    let step = Step::try_from_json(&json).unwrap();
    assert_eq!(
        step.parameters,
        vec![Either::First(ParameterObject {
            name: "x".to_string(),
            in_: None,
            value: Either::First(AnyValue::UInteger(1)),
            extensions: vec![],
        })]
    );
}

#[test]
fn numeric_fidelity_from_json_numbers() {
    let json = obj(vec![
        ("name", s("n")),
        ("value", u(2)),
    ]);
    let p = ParameterObject::try_from_json(&json).unwrap();
    assert_eq!(p.value, Either::First(AnyValue::UInteger(2)));

    let json = obj(vec![("name", s("n")), ("value", JsonNode::Int(-100))]);
    let p = ParameterObject::try_from_json(&json).unwrap();
    assert_eq!(p.value, Either::First(AnyValue::Integer(-100)));

    let json = obj(vec![("name", s("n")), ("value", num(1.234))]);
    let p = ParameterObject::try_from_json(&json).unwrap();
    assert_eq!(
        p.value,
        Either::First(AnyValue::Float(serde_json::Number::from_f64(1.234).unwrap()))
    );
}

#[test]
fn two_shape_disambiguation_on_strings() {
    let json = obj(vec![("name", s("n")), ("value", s("$inputs.username"))]);
    let p = ParameterObject::try_from_json(&json).unwrap();
    assert_eq!(p.value, Either::Second("$inputs.username".to_string()));

    let json = obj(vec![("name", s("n")), ("value", s("available"))]);
    let p = ParameterObject::try_from_json(&json).unwrap();
    assert_eq!(
        p.value,
        Either::First(AnyValue::String("available".to_string()))
    );
}
