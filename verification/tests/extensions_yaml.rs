use arazzo_models::errors::LoadError;
use arazzo_models::extensions::{yaml_extract_extensions, yaml_to_any, AnyValue};
use arazzo_models::nodes::{JsonNode, YamlNode};
use arazzo_models::yaml::yaml_to_json;

fn ys(v: &str) -> YamlNode {
    YamlNode::Str(v.to_string())
}

fn yreal(v: &str) -> YamlNode {
    YamlNode::Real(v.to_string())
}

fn fnum(v: f64) -> AnyValue {
    AnyValue::Float(serde_json::Number::from_f64(v).unwrap())
}

#[test]
fn create_extension_value_from_primitive_yaml() {
    assert_eq!(yaml_to_any(&YamlNode::Null), Ok(AnyValue::Null));
    assert_eq!(
        yaml_to_any(&YamlNode::Boolean(true)),
        Ok(AnyValue::Boolean(true))
    );
    assert_eq!(
        yaml_to_any(&ys("test")),
        Ok(AnyValue::String("test".to_string()))
    );
    assert_eq!(
        yaml_to_any(&YamlNode::Integer(1234)),
        Ok(AnyValue::Integer(1234))
    );
    assert_eq!(yaml_to_any(&yreal("1234.56")), Ok(fnum(1234.56)));
}

#[test]
fn create_extension_value_from_array() {
    let array = YamlNode::Arr(vec![]);
    assert_eq!(yaml_to_any(&array), Ok(AnyValue::Array(vec![])));

    let array = YamlNode::Arr(vec![
        YamlNode::Null,
        YamlNode::Boolean(false),
        YamlNode::Integer(100),
    ]);
    assert_eq!(
        yaml_to_any(&array),
        Ok(AnyValue::Array(vec![
            AnyValue::Null,
            AnyValue::Boolean(false),
            AnyValue::Integer(100),
        ]))
    );
}

#[test]
fn create_extension_value_from_object() {
    let hash = YamlNode::Hash(vec![]);
    assert_eq!(yaml_to_any(&hash), Ok(AnyValue::Object(vec![])));

    let hash = YamlNode::Hash(vec![
        (ys("a"), YamlNode::Null),
        (ys("b"), yreal("123.4")),
        (
            ys("c"),
            YamlNode::Arr(vec![
                YamlNode::Null,
                YamlNode::Boolean(false),
                YamlNode::Integer(100),
            ]),
        ),
    ]);
    assert_eq!(
        yaml_to_any(&hash),
        Ok(AnyValue::Object(vec![
            ("a".to_string(), AnyValue::Null),
            ("b".to_string(), fnum(123.4)),
            (
                "c".to_string(),
                AnyValue::Array(vec![
                    AnyValue::Null,
                    AnyValue::Boolean(false),
                    AnyValue::Integer(100),
                ])
            ),
        ]))
    );
}

#[test]
fn yaml_to_json_test() {
    assert_eq!(yaml_to_json(&YamlNode::Null), Ok(JsonNode::Null));
    assert_eq!(
        yaml_to_json(&YamlNode::Boolean(true)),
        Ok(JsonNode::Bool(true))
    );
    assert_eq!(
        yaml_to_json(&YamlNode::Integer(100)),
        Ok(JsonNode::Int(100))
    );
    assert_eq!(
        yaml_to_json(&yreal("123.45")),
        Ok(JsonNode::Num(serde_json::Number::from_f64(123.45).unwrap()))
    );
    assert_eq!(
        yaml_to_json(&ys("123.45")),
        Ok(JsonNode::Str("123.45".to_string()))
    );

    let array = YamlNode::Arr(vec![
        YamlNode::Null,
        YamlNode::Boolean(false),
        YamlNode::Integer(100),
    ]);
    assert_eq!(
        yaml_to_json(&array),
        Ok(JsonNode::Arr(vec![
            JsonNode::Null,
            JsonNode::Bool(false),
            JsonNode::Int(100),
        ]))
    );
}

#[test]
fn yaml_extensions_strip_the_prefix() {
    let hash = vec![
        (ys("x-one"), ys("1")),
        (ys("plain"), ys("ignored")),
        (ys("x-two"), YamlNode::Integer(2)),
    ];
    let exts = yaml_extract_extensions(&hash).unwrap();
    assert_eq!(
        exts,
        vec![
            ("one".to_string(), AnyValue::String("1".to_string())),
            ("two".to_string(), AnyValue::Integer(2)),
        ]
    );
}

#[test]
fn malformed_real_is_a_numeric_parse_failure() {
    let err = yaml_to_any(&yreal("not-a-number")).unwrap_err();
    assert_eq!(
        err,
        LoadError::NumericParseFailure("not-a-number".to_string())
    );
}

#[test]
fn non_string_key_is_unsupported() {
    let hash = YamlNode::Hash(vec![(YamlNode::Integer(1), ys("v"))]);
    let err = yaml_to_any(&hash).unwrap_err();
    assert_eq!(err, LoadError::UnsupportedKey("Integer".to_string()));
}

#[test]
fn alias_nodes_are_unsupported() {
    let err = yaml_to_any(&YamlNode::Alias(3)).unwrap_err();
    assert_eq!(err, LoadError::UnsupportedValueKind("Alias".to_string()));

    let err = yaml_to_json(&YamlNode::BadValue).unwrap_err();
    assert_eq!(err, LoadError::UnsupportedValueKind("BadValue".to_string()));
}

#[test]
fn yaml_integers_always_decode_signed() {
    assert_eq!(
        yaml_to_any(&YamlNode::Integer(2)),
        Ok(AnyValue::Integer(2))
    );
    assert_eq!(
        yaml_to_any(&YamlNode::Integer(-100)),
        Ok(AnyValue::Integer(-100))
    );
}
