use loom_cli::skill_usage_cmd::{split_usage_line, sync_output_lines, sync_result, SyncResult};
use loom_cli::task_cmd::truncate_name;
use loom_cli::tool_cmd::{draw_tools_table, plan_tool_show, ShowPlan, ToolShowFormat};

#[test]
fn truncate_name_keeps_short_first_line() {
    assert_eq!(truncate_name("Fix the build\nwith details"), "Fix the build");
    assert_eq!(truncate_name("line\r\nnext"), "line");
    assert_eq!(truncate_name(""), "");
    let sixty = "a".repeat(60);
    assert_eq!(truncate_name(&sixty), sixty);
}

#[test]
fn truncate_name_cuts_long_line_at_char_boundary() {
    let long = "a".repeat(61);
    assert_eq!(truncate_name(&long), format!("{}...", "a".repeat(57)));
    let cjk = "你".repeat(30); // 90 bytes
    assert_eq!(truncate_name(&cjk), format!("{}...", "你".repeat(19)));
}

#[test]
fn tools_table_empty_message() {
    assert_eq!(draw_tools_table(&vec![]), "No tools available.");
}

#[test]
fn tools_table_rows_padded_and_cut() {
    let long = "x".repeat(70);
    let tools = vec![
        ("test1".to_string(), Some("Short description".to_string())),
        ("test2".to_string(), Some(long.clone())),
        ("test3".to_string(), None),
    ];
    let table = draw_tools_table(&tools);
    let expected = format!(
        "{:<30} {:<60}\n{:<30} {:<60}\n{:<30} {:<60}\n{:<30} {:<60}\n{:<30} {:<60}\n",
        "Tool",
        "Description",
        "----",
        "-----------",
        "test1",
        "Short description",
        "test2",
        format!("{}...", "x".repeat(60)),
        "test3",
        ""
    );
    assert_eq!(table, expected);
}

#[test]
fn tool_show_plan_choices() {
    assert_eq!(plan_tool_show(true, true, ToolShowFormat::Yaml), Ok(ShowPlan::PrintYaml));
    assert_eq!(plan_tool_show(true, false, ToolShowFormat::Yaml), Ok(ShowPlan::JsonToYaml));
    assert_eq!(plan_tool_show(true, true, ToolShowFormat::Json), Ok(ShowPlan::PrettyJson));
    assert_eq!(plan_tool_show(false, true, ToolShowFormat::Json), Ok(ShowPlan::YamlToJson));
    assert_eq!(
        plan_tool_show(false, false, ToolShowFormat::Json),
        Err("no tool or tool_yaml in response".to_string())
    );
    assert_eq!(ToolShowFormat::default(), ToolShowFormat::Yaml);
}

#[test]
fn sync_creates_missing_entries() {
    let skills = vec!["a".to_string(), "b".to_string(), "c".to_string()];
    let existing = vec!["b".to_string()];
    let r = sync_result(&skills, &existing, "/skills".to_string());
    assert_eq!(r.created, vec!["a".to_string(), "c".to_string()]);
    assert_eq!(r.unchanged, 1);
    assert!(r.updated.is_empty());
    assert_eq!(r.scanned_count, 3);
    assert_eq!(r.path, "/skills");
}

#[test]
fn sync_report_lines() {
    let r = SyncResult {
        scanned_count: 3,
        created: vec!["a".to_string(), "c".to_string()],
        updated: vec![],
        unchanged: 1,
        path: "/skills".to_string(),
    };
    assert_eq!(
        sync_output_lines(&r, true, None),
        vec![
            "Scanned 3 skills from /skills".to_string(),
            "Created: a, c".to_string(),
            "Total: 2 created, 0 updated, 1 unchanged".to_string(),
            "(dry-run: no changes written)".to_string(),
        ]
    );
    let quiet = SyncResult { created: vec![], unchanged: 3, ..r.clone() };
    assert_eq!(
        sync_output_lines(&quiet, false, None),
        vec![
            "Scanned 3 skills from /skills".to_string(),
            "All skills are up to date.".to_string(),
        ]
    );
    assert_eq!(
        sync_output_lines(&r, false, Some("{}".to_string())),
        vec!["{}".to_string()]
    );
}

#[test]
fn usage_line_split_cases() {
    assert_eq!(
        split_usage_line("\"deploy\": {\"use_count\": 1}"),
        Some(("deploy".to_string(), " {\"use_count\": 1}".to_string()))
    );
    assert_eq!(
        split_usage_line("  \"x\":{}"),
        Some(("  \"x".to_string(), "{}".to_string()))
    );
    assert_eq!(split_usage_line("no separator"), None);
    assert_eq!(split_usage_line("\"a\":"), Some(("a".to_string(), String::new())));
}
