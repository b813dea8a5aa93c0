use arazzo_models::either::Either;
use arazzo_models::extensions::{json_extract_extensions, AnyValue};
use arazzo_models::json::{json_object_lookup_integer, json_object_lookup_string};
use arazzo_models::nodes::{JsonNode, YamlNode};
use arazzo_models::payloads::{EmptyPayload, JsonPayload, Payload, StringPayload};
use arazzo_models::v1_0::{PayloadReplacement, RequestBody};
use arazzo_models::yaml::{
    yaml_hash_entry_to_json, yaml_hash_lookup, yaml_hash_lookup_integer,
    yaml_hash_lookup_number, yaml_hash_lookup_string, yaml_hash_lookup_string_list,
    yaml_hash_require_string,
};

#[test]
fn request_body_partial_equals() {
    let body1 = RequestBody {
        content_type: None,
        payload: None,
        replacements: vec![],
        extensions: vec![],
    };
    let body2 = RequestBody {
        content_type: Some("text/plain".to_string()),
        payload: None,
        replacements: vec![],
        extensions: vec![],
    };
    let body3 = RequestBody {
        content_type: None,
        payload: None,
        replacements: vec![],
        extensions: vec![("a".to_string(), AnyValue::Integer(100))],
    };
    let body4 = RequestBody {
        content_type: None,
        payload: Some(Payload::String(StringPayload("some text".to_string()))),
        replacements: vec![],
        extensions: vec![("a".to_string(), AnyValue::Integer(100))],
    };

    assert!(body1 == body1);
    assert!(body1 != body2);
    assert!(body1 != body3);
    assert!(body1 != body4);
    assert!(body2 == body2);
    assert!(body2 != body1);
    assert!(body2 != body3);
    assert!(body2 != body4);
    assert!(body3 == body3);
    assert!(body3 != body1);
    assert!(body3 != body2);
    assert!(body3 != body4);
    assert!(body4 == body4);
    assert!(body4 != body1);
    assert!(body4 != body2);
    assert!(body4 != body3);

    match body4.payload.as_ref().unwrap() {
        Payload::String(p) => assert_eq!(&p.0, "some text"),
        other => panic!("expected a string payload, got {:?}", other),
    }
}

#[test]
fn request_bodies_compare_payloads_by_rendering() {
    let text_form = RequestBody {
        content_type: None,
        payload: Some(Payload::String(StringPayload("{\"a\":1}".to_string()))),
        replacements: vec![],
        extensions: vec![],
    };
    let structured_form = RequestBody {
        content_type: None,
        payload: Some(Payload::Json(JsonPayload(JsonNode::Obj(vec![(
            "a".to_string(),
            JsonNode::UInt(1),
        )])))),
        replacements: vec![],
        extensions: vec![],
    };
    assert!(text_form == structured_form);

    let other_text = RequestBody {
        content_type: None,
        payload: Some(Payload::String(StringPayload("{\"a\":2}".to_string()))),
        replacements: vec![],
        extensions: vec![],
    };
    assert!(text_form != other_text);
}

#[test]
fn payload_string_and_byte_forms() {
    let empty = Payload::Empty(EmptyPayload);
    assert_eq!(empty.as_string(), "");
    assert_eq!(empty.as_bytes(), Vec::<u8>::new());
    assert!(empty.as_json().is_none());

    let text = Payload::String(StringPayload("some text".to_string()));
    assert_eq!(text.as_string(), "some text");
    assert_eq!(text.as_bytes(), b"some text".to_vec());
    assert!(text.as_json().is_none());

    let tree = JsonNode::Arr(vec![JsonNode::UInt(1), JsonNode::Null]);
    let structured = Payload::Json(JsonPayload(tree.clone()));
    assert_eq!(structured.as_string(), "[1,null]");
    assert_eq!(structured.as_json(), Some(tree));
}

#[test]
fn either_accessors() {
    let first: Either<u32, String> = Either::First(7);
    assert!(first.is_first());
    assert!(!first.is_second());
    assert_eq!(first.first(), Some(&7));
    assert_eq!(first.second(), None);

    let second: Either<u32, String> = Either::Second("x".to_string());
    assert!(second.is_second());
    assert!(!second.is_first());
    assert_eq!(second.first(), None);
    assert_eq!(second.second(), Some(&"x".to_string()));
}

#[test]
fn number_text_renders_through_lookups() {
    let map = vec![
        ("big".to_string(), JsonNode::UInt(18446744073709551615)),
        ("negative".to_string(), JsonNode::Int(-9223372036854775808)),
        ("truthy".to_string(), JsonNode::Bool(true)),
        ("falsy".to_string(), JsonNode::Bool(false)),
        ("zero".to_string(), JsonNode::UInt(0)),
    ];
    assert_eq!(
        json_object_lookup_string(&map, "big"),
        Some("18446744073709551615".to_string())
    );
    assert_eq!(
        json_object_lookup_string(&map, "negative"),
        Some("-9223372036854775808".to_string())
    );
    assert_eq!(json_object_lookup_string(&map, "truthy"), Some("true".to_string()));
    assert_eq!(json_object_lookup_string(&map, "falsy"), Some("false".to_string()));
    assert_eq!(json_object_lookup_string(&map, "zero"), Some("0".to_string()));
    assert_eq!(json_object_lookup_string(&map, "absent"), None);
}

#[test]
fn repeated_extension_names_keep_the_later_value() {
    let map = vec![
        ("x-a".to_string(), JsonNode::UInt(1)),
        ("x-a".to_string(), JsonNode::UInt(2)),
    ];
    let exts = json_extract_extensions(&map);
    assert_eq!(exts, vec![("a".to_string(), AnyValue::UInteger(2))]);
}

#[test]
fn replacement_lists_compare_by_content() {
    let a = RequestBody {
        content_type: None,
        payload: None,
        replacements: vec![PayloadReplacement {
            target: "/petId".to_string(),
            value: Either::First(AnyValue::UInteger(1)),
            extensions: vec![],
        }],
        extensions: vec![],
    };
    let mut b = a.clone();
    assert!(a == b);
    b.replacements[0].target = "/other".to_string();
    assert!(a != b);
}

#[test]
fn float_numbers_render_and_truncate_through_lookups() {
    let map = vec![
        (
            "ratio".to_string(),
            JsonNode::Num(serde_json::Number::from_f64(1.5).unwrap()),
        ),
    ];
    assert_eq!(json_object_lookup_string(&map, "ratio"), Some("1.5".to_string()));
    assert_eq!(json_object_lookup_integer(&map, "ratio"), Some(1));
}

#[test]
fn yaml_hash_helpers_read_scalars() {
    let hash = vec![
        (
            YamlNode::Str("name".to_string()),
            YamlNode::Str("value".to_string()),
        ),
        (YamlNode::Str("count".to_string()), YamlNode::Integer(7)),
        (
            YamlNode::Str("ratio".to_string()),
            YamlNode::Real("2.5".to_string()),
        ),
        (
            YamlNode::Str("tags".to_string()),
            YamlNode::Arr(vec![
                YamlNode::Str("a".to_string()),
                YamlNode::Integer(-3),
                YamlNode::Null,
            ]),
        ),
    ];
    assert_eq!(
        yaml_hash_lookup(&hash, "count"),
        Some(&YamlNode::Integer(7))
    );
    assert_eq!(yaml_hash_lookup(&hash, "absent"), None);
    assert_eq!(
        yaml_hash_lookup_string(&hash, "name"),
        Some("value".to_string())
    );
    assert_eq!(
        yaml_hash_lookup_string(&hash, "count"),
        Some("7".to_string())
    );
    assert_eq!(
        yaml_hash_lookup_string(&hash, "ratio"),
        Some("2.5".to_string())
    );
    assert_eq!(
        yaml_hash_lookup_number(&hash, "ratio"),
        Some(serde_json::Number::from_f64(2.5).unwrap())
    );
    assert_eq!(
        yaml_hash_lookup_number(&hash, "count"),
        Some(serde_json::Number::from_f64(7.0).unwrap())
    );
    assert_eq!(yaml_hash_lookup_integer(&hash, "ratio"), Some(2));
    assert_eq!(yaml_hash_lookup_integer(&hash, "count"), Some(7));
    assert_eq!(
        yaml_hash_require_string(&hash, "name", "4.6.2.1"),
        Ok("value".to_string())
    );
    assert!(yaml_hash_require_string(&hash, "count", "4.6.2.1").is_err());
    assert!(yaml_hash_require_string(&hash, "absent", "4.6.2.1").is_err());
    assert_eq!(
        yaml_hash_lookup_string_list(&hash, "tags"),
        Some(vec!["a".to_string(), "-3".to_string()])
    );
    assert_eq!(
        yaml_hash_entry_to_json(&hash, "count"),
        Ok(JsonNode::Int(7))
    );
    assert_eq!(yaml_hash_entry_to_json(&hash, "absent"), Ok(JsonNode::Null));
}
