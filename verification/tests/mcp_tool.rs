use kr0ki_core::json::JsonValue;
use kr0ki_core::mcp_tool::{ArgPlacement, HttpMethod, McpTool};

fn to_serde(v: &JsonValue) -> serde_json::Value {
    match v {
        JsonValue::Null => serde_json::Value::Null,
        JsonValue::Bool(b) => serde_json::Value::Bool(*b),
        JsonValue::Number(n) => serde_json::Value::Number(n.parse().expect("number")),
        JsonValue::Str(s) => serde_json::Value::String(s.clone()),
        JsonValue::Array(items) => serde_json::Value::Array(items.iter().map(to_serde).collect()),
        JsonValue::Object(members) => {
            serde_json::Value::Object(members.iter().map(|(k, v)| (k.clone(), to_serde(v))).collect())
        }
    }
}

fn member_keys(v: &JsonValue) -> Vec<String> {
    match v {
        JsonValue::Object(members) => members.iter().map(|(k, _)| k.clone()).collect(),
        _ => Vec::new(),
    }
}

#[test]
fn all_twelve_tools_have_unique_names() {
    let all = McpTool::all();
    let mut names: Vec<&str> = all.iter().map(|t| t.name()).collect();
    let before = names.len();
    names.sort_unstable();
    names.dedup();
    assert_eq!(names.len(), before, "duplicate McpTool name in ALL");
    assert_eq!(all.len(), 12);
}

#[test]
fn render_sysmlv2_snapshot_binds_only_model_identity_and_output() {
    let binding = McpTool::RenderSysmlV2Snapshot.http_binding();
    assert!(matches!(binding.method, HttpMethod::Post));
    assert_eq!(
        binding.path_template,
        "/render/sysmlv2/projects/{project_id}/commits/{commit_id}"
    );
    assert_eq!(binding.args.len(), 3);
    assert!(binding
        .args
        .iter()
        .any(|arg| arg.name == "project_id" && matches!(arg.placement, ArgPlacement::Path)));
    assert!(binding
        .args
        .iter()
        .any(|arg| arg.name == "commit_id" && matches!(arg.placement, ArgPlacement::Path)));
    assert!(binding
        .args
        .iter()
        .any(|arg| arg.name == "output" && matches!(arg.placement, ArgPlacement::Query)));
    assert!(binding
        .args
        .iter()
        .all(|arg| !matches!(arg.placement, ArgPlacement::Body)));
}

#[test]
fn render_diagram_binds_format_to_path_source_to_body_output_to_query() {
    let binding = McpTool::RenderDiagram.http_binding();
    assert!(matches!(binding.method, HttpMethod::Post));
    assert_eq!(binding.path_template, "/render/{format}");
    assert_eq!(binding.args.len(), 3);
    assert!(binding
        .args
        .iter()
        .any(|a| a.name == "format" && matches!(a.placement, ArgPlacement::Path)));
    assert!(binding
        .args
        .iter()
        .any(|a| a.name == "source" && matches!(a.placement, ArgPlacement::Body)));
    assert!(binding
        .args
        .iter()
        .any(|a| a.name == "output" && matches!(a.placement, ArgPlacement::Query)));
}

#[test]
fn list_formats_binds_to_a_plain_get_with_no_args() {
    let binding = McpTool::ListFormats.http_binding();
    assert!(matches!(binding.method, HttpMethod::Get));
    assert_eq!(binding.path_template, "/formats");
    assert!(binding.args.is_empty());
}

#[test]
fn render_kube_diagram_binds_manifest_to_body_output_to_query() {
    let binding = McpTool::RenderKubeDiagram.http_binding();
    assert!(matches!(binding.method, HttpMethod::Post));
    assert_eq!(binding.path_template, "/render/kubediagram");
    assert_eq!(binding.args.len(), 2);
    assert!(binding
        .args
        .iter()
        .any(|a| a.name == "manifest" && matches!(a.placement, ArgPlacement::Body)));
    assert!(binding
        .args
        .iter()
        .any(|a| a.name == "output" && matches!(a.placement, ArgPlacement::Query)));
}

#[test]
fn render_k8s_topology_binds_manifest_to_body_output_to_query() {
    let binding = McpTool::RenderK8sTopology.http_binding();
    assert!(matches!(binding.method, HttpMethod::Post));
    assert_eq!(binding.path_template, "/render/k8s-topology");
    assert_eq!(binding.args.len(), 2);
    assert!(binding
        .args
        .iter()
        .any(|a| a.name == "manifest" && matches!(a.placement, ArgPlacement::Body)));
    assert!(binding
        .args
        .iter()
        .any(|a| a.name == "output" && matches!(a.placement, ArgPlacement::Query)));
}

#[test]
fn model_tools_have_the_expected_get_bindings() {
    let commits = McpTool::ListModelCommits.http_binding();
    assert!(matches!(commits.method, HttpMethod::Get));
    assert_eq!(
        commits.path_template,
        "/model/projects/{project_id}/commits"
    );
    assert_eq!(commits.args[0].name, "project_id");

    let relationships = McpTool::QueryModelRelationships.http_binding();
    assert_eq!(relationships.args.len(), 4);
    assert!(relationships
        .args
        .iter()
        .any(|arg| arg.name == "direction" && matches!(arg.placement, ArgPlacement::Query)));

    let graph = McpTool::QueryModelGraph.http_binding();
    assert_eq!(graph.path_template, "/model/graph/query");
    assert_eq!(graph.args.len(), 2);
}

#[test]
fn every_tool_has_a_description() {
    for tool in McpTool::all() {
        assert!(!tool.description().is_empty(), "{}", tool.name());
    }
}

#[test]
fn to_manifest_json_carries_both_the_mcp_schema_and_the_http_binding() {
    let json = to_serde(&McpTool::RenderKubeDiagram.to_manifest_json());
    assert_eq!(json["name"], "render_kubernetes_manifest");
    assert!(json["description"].is_string());
    assert!(json["inputSchema"]["required"]
        .as_array()
        .unwrap()
        .contains(&serde_json::Value::String("manifest".to_string())));
    assert_eq!(json["httpBinding"]["method"], "POST");
    assert_eq!(json["httpBinding"]["pathTemplate"], "/render/kubediagram");
    let args = json["httpBinding"]["args"].as_array().unwrap();
    assert!(args.iter().any(|a| a["name"] == "manifest" && a["placement"] == "body"));
}

#[test]
fn render_diagram_input_schema_is_exactly_the_documented_schema() {
    let expected: serde_json::Value = serde_json::from_str(
        r#"{
            "type": "object",
            "required": ["format", "source"],
            "properties": {
                "format": {"type": "string", "description": "kr0ki diagram format slug."},
                "source": {"type": "string", "description": "UTF-8 diagram source."},
                "output": {"type": "string", "enum": ["svg", "png"], "default": "svg"}
            }
        }"#,
    )
    .unwrap();
    assert_eq!(to_serde(&McpTool::RenderDiagram.input_schema()), expected);
}

#[test]
fn argument_free_tools_have_an_empty_properties_object_and_no_required_list() {
    let expected: serde_json::Value = serde_json::from_str(r#"{"type": "object", "properties": {}}"#).unwrap();
    assert_eq!(to_serde(&McpTool::ListFormats.input_schema()), expected);
    assert_eq!(to_serde(&McpTool::ListModelProjects.input_schema()), expected);
}

#[test]
fn query_model_graph_shape_is_an_enum_without_default() {
    let schema = to_serde(&McpTool::QueryModelGraph.input_schema());
    let shape = &schema["properties"]["shape"];
    assert_eq!(shape["enum"], serde_json::Value::Array(vec!["triples_about".into(), "related_via".into()]));
    assert!(shape.get("default").is_none());
    assert_eq!(schema["required"], serde_json::Value::Array(vec!["shape".into()]));
}

#[test]
fn manifest_members_are_written_in_key_order() {
    for tool in McpTool::all() {
        let m = tool.to_manifest_json();
        assert_eq!(member_keys(&m), vec!["description", "httpBinding", "inputSchema", "name"]);
        let json = to_serde(&m);
        assert_eq!(json["name"], tool.name());
        assert_eq!(json["httpBinding"]["pathTemplate"], tool.http_binding().path_template);
        assert_eq!(
            json["httpBinding"]["args"].as_array().unwrap().len(),
            tool.http_binding().args.len()
        );
    }
}

fn placeholders(template: &str) -> Vec<String> {
    let mut out = Vec::new();
    let mut open: Option<String> = None;
    for c in template.chars() {
        match open.as_mut() {
            None if c == '{' => open = Some(String::new()),
            None => {}
            Some(name) if c == '}' => {
                out.push(name.clone());
                open = None;
            }
            Some(name) => name.push(c),
        }
    }
    out
}

#[test]
fn every_binding_places_its_path_args_at_the_placeholders() {
    for tool in McpTool::all() {
        let b = tool.http_binding();
        let path_args: Vec<String> =
            b.args.iter().filter(|a| a.placement == ArgPlacement::Path).map(|a| a.name.to_string()).collect();
        assert_eq!(path_args, placeholders(b.path_template), "{}", tool.name());
        let bodies = b.args.iter().filter(|a| a.placement == ArgPlacement::Body).count();
        assert!(bodies <= 1);
        if bodies == 1 {
            assert_eq!(b.method, HttpMethod::Post);
        }
        for (i, a) in b.args.iter().enumerate() {
            assert!(b.args[i + 1..].iter().all(|other| other.name != a.name));
        }
    }
    let b = McpTool::QueryModelRelationships.http_binding();
    assert_eq!(placeholders(b.path_template), vec!["project_id", "commit_id", "element_id"]);
}

#[test]
fn every_required_schema_name_is_a_binding_arg_and_every_arg_a_property() {
    for tool in McpTool::all() {
        let schema = to_serde(&tool.input_schema());
        assert_eq!(schema["type"], "object");
        let props = schema["properties"].as_object().expect("properties object");
        let names: Vec<&str> = tool.http_binding().args.iter().map(|a| a.name).collect();
        if let Some(required) = schema.get("required") {
            for r in required.as_array().unwrap() {
                let r = r.as_str().unwrap();
                assert!(names.contains(&r), "{}: {r}", tool.name());
                assert!(props.contains_key(r));
            }
        }
        for n in &names {
            assert!(props.contains_key(*n), "{}: {n}", tool.name());
        }
    }
}
