use arazzo_models::either::Either;
use arazzo_models::extensions::AnyValue;
use arazzo_models::nodes::JsonNode;
use arazzo_models::payloads::{JsonPayload, Payload, StringPayload};
use arazzo_models::serialize::any_to_json_node;
use arazzo_models::v1_0::{
    Criterion, CriterionExpressionType, Info, ParameterObject, PayloadReplacement, RequestBody,
    Step,
};

fn node_to_value(n: &JsonNode) -> serde_json::Value {
    match n {
        JsonNode::Null => serde_json::Value::Null,
        JsonNode::Bool(b) => serde_json::Value::Bool(*b),
        JsonNode::UInt(u) => serde_json::Value::from(*u),
        JsonNode::Int(i) => serde_json::Value::from(*i),
        JsonNode::Num(x) => serde_json::Value::Number(x.clone()),
        JsonNode::Str(s) => serde_json::Value::String(s.clone()),
        JsonNode::Arr(a) => serde_json::Value::Array(a.iter().map(node_to_value).collect()),
        JsonNode::Obj(o) => serde_json::Value::Object(
            o.iter().map(|(k, v)| (k.clone(), node_to_value(v))).collect(),
        ),
    }
}

fn any_to_json_text(v: &AnyValue) -> String {
    serde_json::to_string(&node_to_value(&any_to_json_node(v))).unwrap()
}

fn any_to_yaml_text(v: &AnyValue) -> String {
    serde_yaml::to_string(&node_to_value(&any_to_json_node(v))).unwrap()
}

fn fnum(v: f64) -> AnyValue {
    AnyValue::Float(serde_json::Number::from_f64(v).unwrap())
}

fn sample_array() -> AnyValue {
    AnyValue::Array(vec![
        AnyValue::Null,
        AnyValue::UInteger(100),
        AnyValue::Array(vec![
            AnyValue::Integer(-1),
            AnyValue::Integer(0),
            AnyValue::Integer(1),
        ]),
    ])
}

fn sample_object() -> AnyValue {
    AnyValue::Object(vec![
        ("a".to_string(), AnyValue::Null),
        ("b".to_string(), AnyValue::UInteger(100)),
        (
            "c".to_string(),
            AnyValue::Object(vec![
                ("-1".to_string(), AnyValue::String("A".to_string())),
                ("0".to_string(), AnyValue::String("B".to_string())),
                ("1".to_string(), AnyValue::String("C".to_string())),
            ]),
        ),
    ])
}

#[test]
fn serialise_serialize_any_to_json() {
    assert_eq!(any_to_json_text(&AnyValue::Null), "null");
    assert_eq!(any_to_json_text(&AnyValue::Boolean(true)), "true");
    assert_eq!(any_to_json_text(&AnyValue::Integer(-100)), "-100");
    assert_eq!(any_to_json_text(&AnyValue::UInteger(100)), "100");
    assert_eq!(any_to_json_text(&fnum(1.234)), "1.234");
    assert_eq!(
        any_to_json_text(&AnyValue::String("I'm a String!".to_string())),
        "\"I'm a String!\""
    );
    assert_eq!(any_to_json_text(&sample_array()), "[null,100,[-1,0,1]]");
    assert_eq!(
        any_to_json_text(&sample_object()),
        "{\"a\":null,\"b\":100,\"c\":{\"-1\":\"A\",\"0\":\"B\",\"1\":\"C\"}}"
    );
}

#[test]
fn serialize_serialize_any_to_json() {
    assert_eq!(any_to_json_text(&AnyValue::Null), "null");
    assert_eq!(any_to_json_text(&AnyValue::Boolean(true)), "true");
    assert_eq!(any_to_json_text(&AnyValue::Integer(-100)), "-100");
    assert_eq!(any_to_json_text(&AnyValue::UInteger(100)), "100");
    assert_eq!(any_to_json_text(&fnum(1.234)), "1.234");
    assert_eq!(
        any_to_json_text(&AnyValue::String("I'm a String!".to_string())),
        "\"I'm a String!\""
    );
    assert_eq!(any_to_json_text(&sample_array()), "[null,100,[-1,0,1]]");
}

#[test]
fn serialise_serialize_any_to_yaml() {
    assert_eq!(any_to_yaml_text(&AnyValue::Null), "null\n");
    assert_eq!(any_to_yaml_text(&AnyValue::Boolean(true)), "true\n");
    assert_eq!(any_to_yaml_text(&AnyValue::Integer(-100)), "-100\n");
    assert_eq!(any_to_yaml_text(&AnyValue::UInteger(100)), "100\n");
    assert_eq!(any_to_yaml_text(&fnum(1.234)), "1.234\n");
    assert_eq!(
        any_to_yaml_text(&AnyValue::String("I'm a String!".to_string())),
        "I'm a String!\n"
    );
    assert_eq!(
        any_to_yaml_text(&sample_array()),
        "- null\n- 100\n- - -1\n  - 0\n  - 1\n"
    );
}

#[test]
fn serialize_serialize_any_to_yaml() {
    assert_eq!(any_to_yaml_text(&AnyValue::Null), "null\n");
    assert_eq!(any_to_yaml_text(&AnyValue::Boolean(true)), "true\n");
    assert_eq!(any_to_yaml_text(&AnyValue::Integer(-100)), "-100\n");
    assert_eq!(any_to_yaml_text(&AnyValue::UInteger(100)), "100\n");
    assert_eq!(any_to_yaml_text(&fnum(1.234)), "1.234\n");
    assert_eq!(
        any_to_yaml_text(&AnyValue::String("I'm a String!".to_string())),
        "I'm a String!\n"
    );
    assert_eq!(
        any_to_yaml_text(&sample_object()),
        "a: null\nb: 100\nc:\n  '-1': A\n  '0': B\n  '1': C\n"
    );
}

const PET_ORDER_TEXT: &str = "\n        {\n          \"petOrder\": {\n            \"petId\": \"{$inputs.pet_id}\",\n            \"couponCode\": \"{$inputs.coupon_code}\",\n            \"quantity\": \"{$inputs.quantity}\",\n            \"status\": \"placed\",\n            \"complete\": false\n          }\n        }\n        ";

#[test]
fn serialise_request_body() {
    let body = RequestBody {
        content_type: None,
        payload: None,
        replacements: vec![],
        extensions: vec![],
    };
    let value = node_to_value(&body.to_node());
    assert_eq!(serde_json::to_string(&value).unwrap(), "{}");
    assert_eq!(serde_yaml::to_string(&value).unwrap(), "{}\n");

    let body = RequestBody {
        content_type: Some("application/json".to_string()),
        payload: Some(Payload::String(StringPayload(PET_ORDER_TEXT.to_string()))),
        replacements: vec![],
        extensions: vec![
            ("one".to_string(), AnyValue::String("one".to_string())),
            ("two".to_string(), AnyValue::Integer(2)),
        ],
    };
    let value = node_to_value(&body.to_node());
    let expected: serde_json::Value = serde_json::from_str(
        "{\"contentType\":\"application/json\",\"payload\":\"\\n        {\\n          \\\"petOrder\\\": {\\n            \\\"petId\\\": \\\"{$inputs.pet_id}\\\",\\n            \\\"couponCode\\\": \\\"{$inputs.coupon_code}\\\",\\n            \\\"quantity\\\": \\\"{$inputs.quantity}\\\",\\n            \\\"status\\\": \\\"placed\\\",\\n            \\\"complete\\\": false\\n          }\\n        }\\n        \",\"x-one\":\"one\",\"x-two\":2}",
    )
    .unwrap();
    assert_eq!(value, expected);
    let payload_line = format!("payload: {}", serde_json::to_string(PET_ORDER_TEXT).unwrap());
    assert_eq!(
        serde_yaml::to_string(&value).unwrap(),
        format!("contentType: application/json\n{}\nx-one: one\nx-two: 2\n", payload_line)
    );
}

#[test]
fn serialize_request_body() {
    let body = RequestBody {
        content_type: None,
        payload: None,
        replacements: vec![],
        extensions: vec![],
    };
    let value = node_to_value(&body.to_node());
    assert_eq!(serde_json::to_string(&value).unwrap(), "{}");

    let structured = JsonNode::Obj(vec![(
        "petOrder".to_string(),
        JsonNode::Obj(vec![
            ("petId".to_string(), JsonNode::Str("{$inputs.pet_id}".to_string())),
            (
                "couponCode".to_string(),
                JsonNode::Str("{$inputs.coupon_code}".to_string()),
            ),
            (
                "quantity".to_string(),
                JsonNode::Str("{$inputs.quantity}".to_string()),
            ),
            ("status".to_string(), JsonNode::Str("placed".to_string())),
            ("complete".to_string(), JsonNode::Bool(false)),
        ]),
    )]);
    let body = RequestBody {
        content_type: Some("application/json".to_string()),
        payload: Some(Payload::Json(JsonPayload(structured))),
        replacements: vec![],
        extensions: vec![],
    };
    let value = node_to_value(&body.to_node());
    let expected: serde_json::Value = serde_json::from_str(
        "{\"contentType\":\"application/json\",\"payload\":{\"petOrder\":{\"petId\":\"{$inputs.pet_id}\",\"couponCode\":\"{$inputs.coupon_code}\",\"quantity\":\"{$inputs.quantity}\",\"status\":\"placed\",\"complete\":false}}}",
    )
    .unwrap();
    assert_eq!(value, expected);
    assert_eq!(
        serde_yaml::to_string(&value).unwrap(),
        "contentType: application/json\npayload:\n  petOrder:\n    complete: false\n    couponCode: '{$inputs.coupon_code}'\n    petId: '{$inputs.pet_id}'\n    quantity: '{$inputs.quantity}'\n    status: placed\n"
    );
}

#[test]
fn serialise_payload_replacement() {
    let payload_replacement = PayloadReplacement {
        target: "/petId".to_string(),
        value: Either::Second("$inputs.pet_id".to_string()),
        extensions: vec![],
    };
    let value = node_to_value(&payload_replacement.to_node());
    assert_eq!(
        serde_json::to_string(&value).unwrap(),
        "{\"target\":\"/petId\",\"value\":\"$inputs.pet_id\"}"
    );
    assert_eq!(
        serde_yaml::to_string(&value).unwrap(),
        "target: /petId\nvalue: $inputs.pet_id\n"
    );

    let payload_replacement = PayloadReplacement {
        target: "/quantity".to_string(),
        value: Either::First(AnyValue::Integer(10)),
        extensions: vec![],
    };
    let value = node_to_value(&payload_replacement.to_node());
    assert_eq!(
        serde_json::to_string(&value).unwrap(),
        "{\"target\":\"/quantity\",\"value\":10}"
    );
    assert_eq!(
        serde_yaml::to_string(&value).unwrap(),
        "target: /quantity\nvalue: 10\n"
    );
}

#[test]
fn serialize_payload_replacement() {
    let payload_replacement = PayloadReplacement {
        target: "/petId".to_string(),
        value: Either::Second("$inputs.pet_id".to_string()),
        extensions: vec![
            ("one".to_string(), AnyValue::String("one".to_string())),
            ("two".to_string(), AnyValue::Integer(2)),
        ],
    };
    let value = node_to_value(&payload_replacement.to_node());
    let expected: serde_json::Value = serde_json::from_str(
        "{\"target\":\"/petId\",\"value\":\"$inputs.pet_id\",\"x-one\":\"one\",\"x-two\":2}",
    )
    .unwrap();
    assert_eq!(value, expected);
    assert_eq!(
        serde_yaml::to_string(&value).unwrap(),
        "target: /petId\nvalue: $inputs.pet_id\nx-one: one\nx-two: 2\n"
    );
}

#[test]
fn criterion() {
    let criterion = Criterion {
        context: None,
        condition: "$statusCode == 200".to_string(),
        type_: None,
        extensions: vec![],
    };
    let value = node_to_value(&criterion.to_node());
    assert_eq!(
        serde_json::to_string(&value).unwrap(),
        "{\"condition\":\"$statusCode == 200\"}"
    );
    assert_eq!(
        serde_yaml::to_string(&value).unwrap(),
        "condition: $statusCode == 200\n"
    );

    let criterion = Criterion {
        context: Some("$statusCode".to_string()),
        condition: "^200$".to_string(),
        type_: Some(Either::First("regex".to_string())),
        extensions: vec![
            ("one".to_string(), AnyValue::String("one".to_string())),
            ("two".to_string(), AnyValue::Integer(2)),
        ],
    };
    let value = node_to_value(&criterion.to_node());
    let expected: serde_json::Value = serde_json::from_str(
        "{\"condition\":\"^200$\",\"context\":\"$statusCode\",\"type\":\"regex\",\"x-one\":\"one\",\"x-two\":2}",
    )
    .unwrap();
    assert_eq!(value, expected);
    assert_eq!(
        serde_yaml::to_string(&value).unwrap(),
        "condition: ^200$\ncontext: $statusCode\ntype: regex\nx-one: one\nx-two: 2\n"
    );

    let criterion = Criterion {
        context: Some("$response.body".to_string()),
        condition: "$[?count(@.pets) > 0]".to_string(),
        type_: Some(Either::Second(CriterionExpressionType {
            type_: "jsonpath".to_string(),
            version: "draft-goessner-dispatch-jsonpath-00".to_string(),
            extensions: vec![],
        })),
        extensions: vec![],
    };
    let value = node_to_value(&criterion.to_node());
    let expected: serde_json::Value = serde_json::from_str(
        "{\"condition\":\"$[?count(@.pets) > 0]\",\"context\":\"$response.body\",\"type\":{\"type\":\"jsonpath\",\"version\":\"draft-goessner-dispatch-jsonpath-00\"}}",
    )
    .unwrap();
    assert_eq!(value, expected);
    assert_eq!(
        serde_yaml::to_string(&value).unwrap(),
        "condition: $[?count(@.pets) > 0]\ncontext: $response.body\ntype:\n  type: jsonpath\n  version: draft-goessner-dispatch-jsonpath-00\n"
    );
}

#[test]
fn parameter_object() {
    let parameter = ParameterObject {
        name: "username".to_string(),
        in_: Some("query".to_string()),
        value: Either::Second("$inputs.username".to_string()),
        extensions: vec![],
    };
    let value = node_to_value(&parameter.to_node());
    let expected: serde_json::Value = serde_json::from_str(
        "{\"name\":\"username\",\"in\":\"query\",\"value\":\"$inputs.username\"}",
    )
    .unwrap();
    assert_eq!(value, expected);
    assert_eq!(
        serde_yaml::to_string(&value).unwrap(),
        "in: query\nname: username\nvalue: $inputs.username\n"
    );

    let parameter = ParameterObject {
        name: "username".to_string(),
        in_: None,
        value: Either::Second("$inputs.username".to_string()),
        extensions: vec![
            ("one".to_string(), AnyValue::String("one".to_string())),
            ("two".to_string(), AnyValue::Integer(2)),
        ],
    };
    let value = node_to_value(&parameter.to_node());
    let expected: serde_json::Value = serde_json::from_str(
        "{\"name\":\"username\",\"value\":\"$inputs.username\",\"x-one\":\"one\",\"x-two\":2}",
    )
    .unwrap();
    assert_eq!(value, expected);
    assert_eq!(
        serde_yaml::to_string(&value).unwrap(),
        "name: username\nvalue: $inputs.username\nx-one: one\nx-two: 2\n"
    );

    let parameter = ParameterObject {
        name: "username".to_string(),
        in_: None,
        value: Either::First(AnyValue::Integer(1000)),
        extensions: vec![],
    };
    let value = node_to_value(&parameter.to_node());
    let expected: serde_json::Value =
        serde_json::from_str("{\"name\":\"username\",\"value\":1000}").unwrap();
    assert_eq!(value, expected);
    assert_eq!(
        serde_yaml::to_string(&value).unwrap(),
        "name: username\nvalue: 1000\n"
    );
}

#[test]
fn step_object() {
    let step = Step {
        step_id: "loginStep".to_string(),
        operation_id: Some("loginUser".to_string()),
        operation_path: None,
        workflow_id: None,
        description: Some("This step demonstrates the user login step".to_string()),
        parameters: vec![
            Either::First(ParameterObject {
                name: "username".to_string(),
                in_: Some("query".to_string()),
                value: Either::Second("$inputs.username".to_string()),
                extensions: vec![],
            }),
            Either::First(ParameterObject {
                name: "password".to_string(),
                in_: Some("query".to_string()),
                value: Either::Second("$inputs.password".to_string()),
                extensions: vec![],
            }),
        ],
        request_body: None,
        success_criteria: vec![Criterion {
            context: None,
            condition: "$statusCode == 200".to_string(),
            type_: None,
            extensions: vec![],
        }],
        on_success: vec![],
        on_failure: vec![],
        outputs: vec![
            (
                "rateLimit".to_string(),
                "$response.header.X-Rate-Limit".to_string(),
            ),
            (
                "tokenExpires".to_string(),
                "$response.header.X-Expires-After".to_string(),
            ),
        ],
        extensions: vec![],
    };
    let value = node_to_value(&step.to_node());
    let expected: serde_json::Value = serde_json::from_str(
        "{\"stepId\":\"loginStep\",\"description\":\"This step demonstrates the user login step\",\"operationId\":\"loginUser\",\"parameters\":[{\"name\":\"username\",\"in\":\"query\",\"value\":\"$inputs.username\"},{\"name\":\"password\",\"in\":\"query\",\"value\":\"$inputs.password\"}],\"successCriteria\":[{\"condition\":\"$statusCode == 200\"}],\"outputs\":{\"tokenExpires\":\"$response.header.X-Expires-After\",\"rateLimit\":\"$response.header.X-Rate-Limit\"}}",
    )
    .unwrap();
    assert_eq!(value, expected);
    assert_eq!(
        serde_yaml::to_string(&value).unwrap(),
        "description: This step demonstrates the user login step\noperationId: loginUser\noutputs:\n  rateLimit: $response.header.X-Rate-Limit\n  tokenExpires: $response.header.X-Expires-After\nparameters:\n- in: query\n  name: username\n  value: $inputs.username\n- in: query\n  name: password\n  value: $inputs.password\nstepId: loginStep\nsuccessCriteria:\n- condition: $statusCode == 200\n"
    );

    let step = Step {
        step_id: "test-extensions".to_string(),
        operation_id: None,
        operation_path: None,
        workflow_id: None,
        description: None,
        parameters: vec![],
        request_body: None,
        success_criteria: vec![],
        on_success: vec![],
        on_failure: vec![],
        outputs: vec![],
        extensions: vec![
            ("one".to_string(), AnyValue::String("one".to_string())),
            ("two".to_string(), AnyValue::Integer(2)),
        ],
    };
    let value = node_to_value(&step.to_node());
    let expected: serde_json::Value = serde_json::from_str(
        "{\"stepId\":\"test-extensions\",\"x-one\":\"one\",\"x-two\":2}",
    )
    .unwrap();
    assert_eq!(value, expected);
    assert_eq!(
        serde_yaml::to_string(&value).unwrap(),
        "stepId: test-extensions\nx-one: one\nx-two: 2\n"
    );
}

#[test]
fn extension_round_trip_orders_extension_keys() {
    let doc = JsonNode::Obj(vec![
        ("title".to_string(), JsonNode::Str("t".to_string())),
        ("x-two".to_string(), JsonNode::UInt(2)),
        ("version".to_string(), JsonNode::Str("1".to_string())),
        ("x-one".to_string(), JsonNode::Str("1".to_string())),
    ]);
    let info = Info::try_from_json(&doc).unwrap();
    assert_eq!(
        info.extensions,
        vec![
            ("one".to_string(), AnyValue::String("1".to_string())),
            ("two".to_string(), AnyValue::UInteger(2)),
        ]
    );
    let node = info.to_node();
    match &node {
        JsonNode::Obj(entries) => {
            let keys: Vec<&str> = entries.iter().map(|(k, _)| k.as_str()).collect();
            assert_eq!(keys, vec!["title", "version", "x-one", "x-two"]);
        },
        other => panic!("expected an object, got {:?}", other),
    }
}

#[test]
fn two_shape_reserialization_keeps_the_shape() {
    let expression = ParameterObject {
        name: "n".to_string(),
        in_: None,
        value: Either::Second("$inputs.username".to_string()),
        extensions: vec![],
    };
    let node = expression.to_node();
    let reloaded = ParameterObject::try_from_json(&node).unwrap();
    assert_eq!(reloaded.value, Either::Second("$inputs.username".to_string()));

    let literal = ParameterObject {
        name: "n".to_string(),
        in_: None,
        value: Either::First(AnyValue::UInteger(10)),
        extensions: vec![],
    };
    let node = literal.to_node();
    let reloaded = ParameterObject::try_from_json(&node).unwrap();
    assert_eq!(reloaded.value, Either::First(AnyValue::UInteger(10)));

    let literal_string = ParameterObject {
        name: "n".to_string(),
        in_: None,
        value: Either::First(AnyValue::String("available".to_string())),
        extensions: vec![],
    };
    let node = literal_string.to_node();
    let reloaded = ParameterObject::try_from_json(&node).unwrap();
    assert_eq!(
        reloaded.value,
        Either::First(AnyValue::String("available".to_string()))
    );
}

#[test]
fn structured_payload_renders_compact_json_text() {
    let tree = JsonNode::Obj(vec![
        ("a".to_string(), JsonNode::UInt(1)),
        ("b".to_string(), JsonNode::Str("x".to_string())),
    ]);
    let payload = Payload::Json(JsonPayload(tree.clone()));
    assert_eq!(payload.as_string(), "{\"a\":1,\"b\":\"x\"}");
    assert_eq!(
        payload.as_string(),
        serde_json::to_string(&node_to_value(&tree)).unwrap()
    );
    assert_eq!(payload.as_bytes(), b"{\"a\":1,\"b\":\"x\"}".to_vec());
}
