use loom_cli::tool_cmd::{
    format_tool_show_output, present_tool_show, Converted, ShowPlan, ToolShowError,
    ToolShowFormat, ToolShowResponse,
};

fn value(text: &str) -> serde_json::Value {
    serde_json::from_str(text).unwrap()
}

fn response(tool: Option<&str>, yaml: Option<&str>) -> ToolShowResponse {
    ToolShowResponse {
        id: "t1".to_string(),
        tool: tool.map(value),
        tool_yaml: yaml.map(|y| y.to_string()),
    }
}

#[test]
fn yaml_text_is_printed_as_given() {
    let r = response(Some("{\"a\":1}"), Some("name: given\n"));
    assert_eq!(
        format_tool_show_output(&r, ToolShowFormat::Yaml),
        Ok("name: given\n".to_string())
    );
}

#[test]
fn json_value_is_converted_to_yaml() {
    let r = response(Some("{\"name\":\"bash\"}"), None);
    assert_eq!(
        format_tool_show_output(&r, ToolShowFormat::Yaml),
        Ok("name: bash\n".to_string())
    );
}

#[test]
fn json_value_is_printed_pretty() {
    let r = response(Some("{\"name\":\"bash\"}"), Some("ignored: true\n"));
    assert_eq!(
        format_tool_show_output(&r, ToolShowFormat::Json),
        Ok("{\n  \"name\": \"bash\"\n}\n".to_string())
    );
}

#[test]
fn yaml_text_is_read_for_json() {
    let r = response(None, Some("name: bash\n"));
    assert_eq!(
        format_tool_show_output(&r, ToolShowFormat::Json),
        Ok("{\n  \"name\": \"bash\"\n}\n".to_string())
    );
    let bad = response(None, Some("name: [unclosed\n"));
    assert!(matches!(
        format_tool_show_output(&bad, ToolShowFormat::Json),
        Err(ToolShowError::Remote(_))
    ));
}

#[test]
fn empty_response_is_refused() {
    for f in [ToolShowFormat::Yaml, ToolShowFormat::Json] {
        assert_eq!(
            format_tool_show_output(&response(None, None), f),
            Err(ToolShowError::Remote("no tool or tool_yaml in response".to_string()))
        );
    }
}

#[test]
fn presenting_conversions() {
    let y = Some("k: v\n".to_string());
    assert_eq!(
        present_tool_show(ShowPlan::PrintYaml, &y, Converted::Text("x".to_string())),
        Ok("k: v\n".to_string())
    );
    assert_eq!(
        present_tool_show(ShowPlan::JsonToYaml, &None, Converted::Text("a: 1\n".to_string())),
        Ok("a: 1\n".to_string())
    );
    assert_eq!(
        present_tool_show(ShowPlan::PrettyJson, &None, Converted::Text("{}".to_string())),
        Ok("{}\n".to_string())
    );
    assert_eq!(
        present_tool_show(ShowPlan::YamlToJson, &y, Converted::ReadFailed("bad".to_string())),
        Err(ToolShowError::Remote("bad".to_string()))
    );
    assert_eq!(
        present_tool_show(ShowPlan::JsonToYaml, &None, Converted::WriteFailed("no".to_string())),
        Err(ToolShowError::Conversion("no".to_string()))
    );
}
