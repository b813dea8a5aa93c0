use arazzo_models::either::Either;
use arazzo_models::extensions::AnyValue;
use arazzo_models::nodes::{JsonNode, YamlNode};
use arazzo_models::v1_0::{
    ArazzoDescription, Components, Criterion, Info, ParameterObject, SourceDescription, Step,
    Workflow,
};

fn yaml_to_node(y: &yaml_rust2::Yaml) -> YamlNode {
    match y {
        yaml_rust2::Yaml::Real(s) => YamlNode::Real(s.clone()),
        yaml_rust2::Yaml::Integer(i) => YamlNode::Integer(*i),
        yaml_rust2::Yaml::String(s) => YamlNode::Str(s.clone()),
        yaml_rust2::Yaml::Boolean(b) => YamlNode::Boolean(*b),
        yaml_rust2::Yaml::Array(a) => YamlNode::Arr(a.iter().map(yaml_to_node).collect()),
        yaml_rust2::Yaml::Hash(h) => YamlNode::Hash(
            h.iter().map(|(k, v)| (yaml_to_node(k), yaml_to_node(v))).collect(),
        ),
        yaml_rust2::Yaml::Alias(a) => YamlNode::Alias(*a),
        yaml_rust2::Yaml::Null => YamlNode::Null,
        yaml_rust2::Yaml::BadValue => YamlNode::BadValue,
    }
}

fn value_to_node(v: &serde_json::Value) -> JsonNode {
    match v {
        serde_json::Value::Null => JsonNode::Null,
        serde_json::Value::Bool(b) => JsonNode::Bool(*b),
        serde_json::Value::Number(n) => {
            if let Some(u) = n.as_u64() {
                JsonNode::UInt(u)
            } else if let Some(i) = n.as_i64() {
                JsonNode::Int(i)
            } else {
                JsonNode::Num(n.clone())
            }
        },
        serde_json::Value::String(s) => JsonNode::Str(s.clone()),
        serde_json::Value::Array(a) => JsonNode::Arr(a.iter().map(value_to_node).collect()),
        serde_json::Value::Object(o) => JsonNode::Obj(
            o.iter().map(|(k, v)| (k.clone(), value_to_node(v))).collect(),
        ),
    }
}

fn node_to_value(n: &JsonNode) -> serde_json::Value {
    match n {
        JsonNode::Null => serde_json::Value::Null,
        JsonNode::Bool(b) => serde_json::Value::Bool(*b),
        JsonNode::UInt(u) => serde_json::Value::from(*u),
        JsonNode::Int(i) => serde_json::Value::from(*i),
        JsonNode::Num(x) => serde_json::Value::Number(x.clone()),
        JsonNode::Str(s) => serde_json::Value::String(s.clone()),
        JsonNode::Arr(a) => serde_json::Value::Array(a.iter().map(node_to_value).collect()),
        JsonNode::Obj(o) => serde_json::Value::Object(
            o.iter().map(|(k, v)| (k.clone(), node_to_value(v))).collect(),
        ),
    }
}

const BASIC_SPEC_EXAMPLE_YAML: &str = r#"arazzo: 1.0.1
info:
  title: A pet purchasing workflow
  summary: This Arazzo Description showcases the workflow for how to purchase a pet through a sequence of API calls
  description: |
      This Arazzo Description walks you through the workflow and steps of `searching` for, `selecting`, and `purchasing` an available pet.
  version: 1.0.0
sourceDescriptions:
- name: petStoreDescription
  url: https://github.com/swagger-api/swagger-petstore/blob/master/src/main/resources/openapi.yaml
  type: openapi

workflows:
- workflowId: loginUserAndRetrievePet
  summary: Login User and then retrieve pets
  description: This workflow lays out the steps to login a user and then retrieve pets
  inputs:
      type: object
      properties:
          username:
              type: string
          password:
              type: string
  steps:
  - stepId: loginStep
    description: This step demonstrates the user login step
    operationId: loginUser
    parameters:
      # parameters to inject into the loginUser operation (parameter name must be resolvable at the referenced operation and the value is determined using {expression} syntax)
      - name: username
        in: query
        value: $inputs.username
      - name: password
        in: query
        value: $inputs.password
    successCriteria:
      # assertions to determine step was successful
      - condition: $statusCode == 200
    outputs:
      # outputs from this step
      tokenExpires: $response.header.X-Expires-After
      rateLimit: $response.header.X-Rate-Limit
      sessionToken: $response.body
  - stepId: getPetStep
    description: retrieve a pet by status from the GET pets endpoint
    operationPath: '{$sourceDescriptions.petstoreDescription.url}#/paths/~1pet~1findByStatus/get'
    parameters:
      - name: status
        in: query
        value: 'available'
      - name: Authorization
        in: header
        value: $steps.loginUser.outputs.sessionToken
    successCriteria:
      - condition: $statusCode == 200
    outputs:
      # outputs from this step
      availablePets: $response.body
  outputs:
      available: $steps.getPetStep.outputs.availablePets
"#;

const BASIC_SPEC_EXAMPLE_JSON: &str = r#"{
  "arazzo": "1.0.1",
  "info": {
    "title": "A pet purchasing workflow",
    "summary": "This Arazzo Description showcases the workflow for how to purchase a pet through a sequence of API calls",
    "description": "This Arazzo Description walks you through the workflow and steps of `searching` for, `selecting`, and `purchasing` an available pet.\n",
    "version": "1.0.0"
  },
  "sourceDescriptions": [
    {
      "name": "petStoreDescription",
      "url": "https://github.com/swagger-api/swagger-petstore/blob/master/src/main/resources/openapi.yaml",
      "type": "openapi"
    }
  ],
  "workflows": [
    {
      "workflowId": "loginUserAndRetrievePet",
      "summary": "Login User and then retrieve pets",
      "description": "This workflow lays out the steps to login a user and then retrieve pets",
      "inputs": {
        "type": "object",
        "properties": {
          "username": {
            "type": "string"
          },
          "password": {
            "type": "string"
          }
        }
      },
      "steps": [
        {
          "stepId": "loginStep",
          "description": "This step demonstrates the user login step",
          "operationId": "loginUser",
          "parameters": [
            {
              "name": "username",
              "in": "query",
              "value": "$inputs.username"
            },
            {
              "name": "password",
              "in": "query",
              "value": "$inputs.password"
            }
          ],
          "successCriteria": [
            {
              "condition": "$statusCode == 200"
            }
          ],
          "outputs": {
            "tokenExpires": "$response.header.X-Expires-After",
            "rateLimit": "$response.header.X-Rate-Limit",
            "sessionToken": "$response.body"
          }
        },
        {
          "stepId": "getPetStep",
          "description": "retrieve a pet by status from the GET pets endpoint",
          "operationPath": "{$sourceDescriptions.petstoreDescription.url}#/paths/~1pet~1findByStatus/get",
          "parameters": [
            {
              "name": "status",
              "in": "query",
              "value": "available"
            },
            {
              "name": "Authorization",
              "in": "header",
              "value": "$steps.loginUser.outputs.sessionToken"
            }
          ],
          "successCriteria": [
            {
              "condition": "$statusCode == 200"
            }
          ],
          "outputs": {
            "availablePets": "$response.body"
          }
        }
      ],
      "outputs": {
        "available": "$steps.getPetStep.outputs.availablePets"
      }
    }
  ]
}
"#;

fn load_example_from_yaml() -> ArazzoDescription {
    let yaml = yaml_rust2::YamlLoader::load_from_str(BASIC_SPEC_EXAMPLE_YAML).unwrap();
    let tree = yaml_to_node(&yaml[0]);
    ArazzoDescription::try_from_yaml(&tree).unwrap()
}

fn expected_inputs_tree() -> JsonNode {
    JsonNode::Obj(vec![
        (
            "properties".to_string(),
            JsonNode::Obj(vec![
                (
                    "password".to_string(),
                    JsonNode::Obj(vec![("type".to_string(), JsonNode::Str("string".to_string()))]),
                ),
                (
                    "username".to_string(),
                    JsonNode::Obj(vec![("type".to_string(), JsonNode::Str("string".to_string()))]),
                ),
            ]),
        ),
        ("type".to_string(), JsonNode::Str("object".to_string())),
    ])
}

#[test]
fn loads_the_main_spec_descriptors_from_yaml() {
    let descriptor = load_example_from_yaml();

    assert_eq!(descriptor.arazzo, "1.0.1");

    let info = &descriptor.info;
    assert_eq!(&info.title, "A pet purchasing workflow");
    assert_eq!(
        info.summary.as_deref(),
        Some(
            "This Arazzo Description showcases the workflow for how to purchase a pet through a sequence of API calls"
        )
    );
    assert_eq!(
        info.description.as_deref(),
        Some(
            "This Arazzo Description walks you through the workflow and steps of `searching` for, `selecting`, and `purchasing` an available pet.\n"
        )
    );
    assert_eq!(&info.version, "1.0.0");

    let sources = &descriptor.source_descriptions;
    assert!(!sources.is_empty());
    let source = &sources[0];
    assert_eq!(&source.name, "petStoreDescription");
    assert_eq!(
        &source.url,
        "https://github.com/swagger-api/swagger-petstore/blob/master/src/main/resources/openapi.yaml"
    );
    assert_eq!(source.type_.as_deref(), Some("openapi"));

    let workflows = &descriptor.workflows;
    assert!(!workflows.is_empty());
    let workflow = &workflows[0];
    assert_eq!(&workflow.workflow_id, "loginUserAndRetrievePet");
    assert_eq!(
        workflow.summary.as_deref(),
        Some("Login User and then retrieve pets")
    );
    assert_eq!(
        workflow.description.as_deref(),
        Some("This workflow lays out the steps to login a user and then retrieve pets")
    );
    assert!(workflow.depends_on.is_empty());
    assert_eq!(workflow.inputs, expected_inputs_tree());
    assert_eq!(
        workflow.outputs,
        vec![(
            "available".to_string(),
            "$steps.getPetStep.outputs.availablePets".to_string()
        )]
    );

    let steps = &workflow.steps;
    assert_eq!(steps.len(), 2);

    let step1 = steps[0].clone();
    assert_eq!(step1.step_id, "loginStep");
    assert_eq!(
        step1.description.as_deref(),
        Some("This step demonstrates the user login step")
    );
    assert_eq!(step1.operation_id.as_deref(), Some("loginUser"));
    assert_eq!(step1.operation_path, None);
    assert_eq!(step1.workflow_id, None);
    assert_eq!(
        step1.parameters,
        vec![
            Either::First(ParameterObject {
                name: "username".to_string(),
                in_: Some("query".to_string()),
                value: Either::Second("$inputs.username".to_string()),
                extensions: vec![],
            }),
            Either::First(ParameterObject {
                name: "password".to_string(),
                in_: Some("query".to_string()),
                value: Either::Second("$inputs.password".to_string()),
                extensions: vec![],
            }),
        ]
    );
    assert_eq!(
        step1.outputs,
        vec![
            (
                "rateLimit".to_string(),
                "$response.header.X-Rate-Limit".to_string()
            ),
            ("sessionToken".to_string(), "$response.body".to_string()),
            (
                "tokenExpires".to_string(),
                "$response.header.X-Expires-After".to_string()
            ),
        ]
    );
    assert_eq!(
        step1.success_criteria,
        vec![Criterion {
            context: None,
            condition: "$statusCode == 200".to_string(),
            type_: None,
            extensions: vec![],
        }]
    );

    let step2 = steps[1].clone();
    assert_eq!(step2.step_id, "getPetStep");
    assert_eq!(
        step2.description.as_deref(),
        Some("retrieve a pet by status from the GET pets endpoint")
    );
    assert_eq!(step2.operation_id, None);
    assert_eq!(
        step2.operation_path.as_deref(),
        Some("{$sourceDescriptions.petstoreDescription.url}#/paths/~1pet~1findByStatus/get")
    );
    assert_eq!(step2.workflow_id, None);
    assert_eq!(
        step2.parameters,
        vec![
            Either::First(ParameterObject {
                name: "status".to_string(),
                in_: Some("query".to_string()),
                value: Either::First(AnyValue::String("available".to_string())),
                extensions: vec![],
            }),
            Either::First(ParameterObject {
                name: "Authorization".to_string(),
                in_: Some("header".to_string()),
                value: Either::Second("$steps.loginUser.outputs.sessionToken".to_string()),
                extensions: vec![],
            }),
        ]
    );
    assert_eq!(
        step2.outputs,
        vec![("availablePets".to_string(), "$response.body".to_string())]
    );
    assert_eq!(
        step2.success_criteria,
        vec![Criterion {
            context: None,
            condition: "$statusCode == 200".to_string(),
            type_: None,
            extensions: vec![],
        }]
    );
}

#[test]
fn loads_the_main_spec_descriptors_from_json() {
    let yaml_descriptor = load_example_from_yaml();

    let json: serde_json::Value = serde_json::from_str(BASIC_SPEC_EXAMPLE_JSON).unwrap();
    let tree = value_to_node(&json);
    let json_descriptor = ArazzoDescription::try_from_json(&tree).unwrap();

    assert_eq!(json_descriptor, yaml_descriptor);
}

#[test]
fn loads_the_main_spec_descriptors() {
    let descriptor = load_example_from_yaml();

    assert_eq!(descriptor.arazzo, "1.0.1");
    assert_eq!(&descriptor.info.title, "A pet purchasing workflow");
    assert_eq!(&descriptor.info.version, "1.0.0");

    let source = &descriptor.source_descriptions[0];
    assert_eq!(&source.name, "petStoreDescription");
    assert_eq!(source.type_.as_deref(), Some("openapi"));

    let workflow = &descriptor.workflows[0];
    assert_eq!(&workflow.workflow_id, "loginUserAndRetrievePet");
    assert!(workflow.depends_on.is_empty());
    assert_eq!(workflow.inputs, expected_inputs_tree());

    let steps = &workflow.steps;
    assert_eq!(steps.len(), 2);
    assert_eq!(steps[0].step_id, "loginStep");
    assert_eq!(steps[0].operation_id.as_deref(), Some("loginUser"));
    assert_eq!(steps[1].step_id, "getPetStep");
    assert_eq!(
        steps[1].operation_path.as_deref(),
        Some("{$sourceDescriptions.petstoreDescription.url}#/paths/~1pet~1findByStatus/get")
    );
}

fn document() -> ArazzoDescription {
    ArazzoDescription {
        arazzo: "1.0.1".to_string(),
        info: Info {
            title: "A pet purchasing workflow".to_string(),
            summary: Some(
                "This Arazzo Description showcases the workflow for how to purchase a pet through a sequence of API calls"
                    .to_string(),
            ),
            description: Some(
                "\nThis Arazzo Description walks you through the workflow and steps of `searching` for, `selecting`, and `purchasing` an available pet."
                    .to_string(),
            ),
            version: "1.0.0".to_string(),
            extensions: vec![],
        },
        source_descriptions: vec![SourceDescription {
            name: "petStoreDescription".to_string(),
            url: "https://github.com/swagger-api/swagger-petstore/blob/master/src/main/resources/openapi.yaml"
                .to_string(),
            type_: Some("openapi".to_string()),
            extensions: vec![],
        }],
        workflows: vec![Workflow {
            workflow_id: "loginUserAndRetrievePet".to_string(),
            summary: Some("Login User and then retrieve pets".to_string()),
            description: Some(
                "This workflow lays out the steps to login a user and then retrieve pets"
                    .to_string(),
            ),
            inputs: expected_inputs_tree(),
            depends_on: vec![],
            steps: vec![
                Step {
                    step_id: "loginStep".to_string(),
                    operation_id: Some("loginUser".to_string()),
                    operation_path: None,
                    workflow_id: None,
                    description: Some(
                        "This step demonstrates the user login step".to_string(),
                    ),
                    parameters: vec![
                        Either::First(ParameterObject {
                            name: "username".to_string(),
                            in_: Some("query".to_string()),
                            value: Either::Second("$inputs.username".to_string()),
                            extensions: vec![],
                        }),
                        Either::First(ParameterObject {
                            name: "password".to_string(),
                            in_: Some("query".to_string()),
                            value: Either::Second("$inputs.password".to_string()),
                            extensions: vec![],
                        }),
                    ],
                    request_body: None,
                    success_criteria: vec![Criterion {
                        context: None,
                        condition: "$statusCode == 200".to_string(),
                        type_: None,
                        extensions: vec![],
                    }],
                    on_success: vec![],
                    on_failure: vec![],
                    outputs: vec![
                        (
                            "rateLimit".to_string(),
                            "$response.header.X-Rate-Limit".to_string(),
                        ),
                        (
                            "sessionToken".to_string(),
                            "$response.body".to_string(),
                        ),
                        (
                            "tokenExpires".to_string(),
                            "$response.header.X-Expires-After".to_string(),
                        ),
                    ],
                    extensions: vec![],
                },
                Step {
                    step_id: "getPetStep".to_string(),
                    operation_id: None,
                    operation_path: Some(
                        "{$sourceDescriptions.petstoreDescription.url}#/paths/~1pet~1findByStatus/get"
                            .to_string(),
                    ),
                    workflow_id: None,
                    description: Some(
                        "retrieve a pet by status from the GET pets endpoint".to_string(),
                    ),
                    parameters: vec![
                        Either::First(ParameterObject {
                            name: "status".to_string(),
                            in_: Some("query".to_string()),
                            value: Either::First(AnyValue::String("available".to_string())),
                            extensions: vec![],
                        }),
                        Either::First(ParameterObject {
                            name: "Authorization".to_string(),
                            in_: Some("header".to_string()),
                            value: Either::Second(
                                "$steps.loginUser.outputs.sessionToken".to_string(),
                            ),
                            extensions: vec![],
                        }),
                    ],
                    request_body: None,
                    success_criteria: vec![Criterion {
                        context: None,
                        condition: "$statusCode == 200".to_string(),
                        type_: None,
                        extensions: vec![],
                    }],
                    on_success: vec![],
                    on_failure: vec![],
                    outputs: vec![(
                        "availablePets".to_string(),
                        "$response.body".to_string(),
                    )],
                    extensions: vec![],
                },
            ],
            success_actions: vec![],
            failure_actions: vec![],
            outputs: vec![(
                "available".to_string(),
                "$steps.getPetStep.outputs.availablePets".to_string(),
            )],
            parameters: vec![],
            extensions: vec![],
        }],
        components: Components::default(),
        extensions: vec![],
    }
}

#[test]
fn model_to_json_test() {
    let json = serde_json::to_string_pretty(&node_to_value(&document().to_node())).unwrap();
    let expected = serde_json::to_string_pretty(
        &serde_json::from_str::<serde_json::Value>(BASIC_SPEC_EXAMPLE_JSON)
            .map(|mut v| {
                let info = v
                    .as_object_mut()
                    .unwrap()
                    .get_mut("info")
                    .unwrap()
                    .as_object_mut()
                    .unwrap();
                info.insert(
                    "description".to_string(),
                    serde_json::Value::String(
                        "\nThis Arazzo Description walks you through the workflow and steps of `searching` for, `selecting`, and `purchasing` an available pet."
                            .to_string(),
                    ),
                );
                v
            })
            .unwrap(),
    )
    .unwrap();
    assert_eq!(json, expected);
}

#[test]
fn model_to_yaml_test() {
    let value = node_to_value(&document().to_node());
    let yaml = serde_yaml::to_string(&value).unwrap();
    let expected = "arazzo: 1.0.1\ninfo:\n  description: |2-\n\n    This Arazzo Description walks you through the workflow and steps of `searching` for, `selecting`, and `purchasing` an available pet.\n  summary: This Arazzo Description showcases the workflow for how to purchase a pet through a sequence of API calls\n  title: A pet purchasing workflow\n  version: 1.0.0\nsourceDescriptions:\n- name: petStoreDescription\n  type: openapi\n  url: https://github.com/swagger-api/swagger-petstore/blob/master/src/main/resources/openapi.yaml\nworkflows:\n- description: This workflow lays out the steps to login a user and then retrieve pets\n  inputs:\n    properties:\n      password:\n        type: string\n      username:\n        type: string\n    type: object\n  outputs:\n    available: $steps.getPetStep.outputs.availablePets\n  steps:\n  - description: This step demonstrates the user login step\n    operationId: loginUser\n    outputs:\n      rateLimit: $response.header.X-Rate-Limit\n      sessionToken: $response.body\n      tokenExpires: $response.header.X-Expires-After\n    parameters:\n    - in: query\n      name: username\n      value: $inputs.username\n    - in: query\n      name: password\n      value: $inputs.password\n    stepId: loginStep\n    successCriteria:\n    - condition: $statusCode == 200\n  - description: retrieve a pet by status from the GET pets endpoint\n    operationPath: '{$sourceDescriptions.petstoreDescription.url}#/paths/~1pet~1findByStatus/get'\n    outputs:\n      availablePets: $response.body\n    parameters:\n    - in: query\n      name: status\n      value: available\n    - in: header\n      name: Authorization\n      value: $steps.loginUser.outputs.sessionToken\n    stepId: getPetStep\n    successCriteria:\n    - condition: $statusCode == 200\n  summary: Login User and then retrieve pets\n  workflowId: loginUserAndRetrievePet\n";
    assert_eq!(expected, yaml.as_str());
}

#[test]
fn document_round_trip_through_the_tree() {
    let descriptor = load_example_from_yaml();
    let tree = descriptor.to_node();
    let reloaded = ArazzoDescription::try_from_json(&tree).unwrap();
    assert_eq!(reloaded, descriptor);
}
