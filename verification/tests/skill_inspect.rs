use loom_cli::skill_inspect::{
    path_within,
    check_file_size, collect_supporting_files_and_refs, embedded_files_to_refs,
    find_embedded_file, find_usage, floor_char_boundary, plan_inspect, resolve_candidate,
    ConditionsOutput, EmbeddedReferenceOutput, InspectOutput, InspectStep, PrerequisitesOutput,
    ReadinessOutput, SkillEntryInfo, SkillInspectError, SkillUsage, SupportingFilesOutput,
    UsageOutput, MAX_FILE_SIZE_BYTES, TEXT_BODY_PREVIEW_BYTES,
};

/// A report with the given body and otherwise empty sections.
fn output_with_body(body: &str) -> InspectOutput {
    InspectOutput {
        name: "test-skill".to_string(),
        source: "Builtin".to_string(),
        source_raw: "Builtin".to_string(),
        path: None,
        skill_file: None,
        is_builtin: true,
        readiness: ReadinessOutput {
            status: "ready".to_string(),
            missing_env_vars: vec![],
            unsupported_reason: None,
        },
        category: None,
        category_desc: None,
        description: "test".to_string(),
        triggers: vec![],
        tags: vec![],
        conditions: ConditionsOutput {
            requires_tools: vec![],
            requires_toolsets: vec![],
            fallback_for_tools: vec![],
            fallback_for_toolsets: vec![],
        },
        required_env_vars: vec![],
        prerequisites: PrerequisitesOutput { commands: vec![] },
        related_skills: vec![],
        supporting_files: SupportingFilesOutput {
            references: vec![],
            templates: vec![],
            scripts: vec![],
            assets: vec![],
        },
        embedded_references: vec![],
        usage: UsageOutput {
            use_count: 0,
            view_count: 0,
            patch_count: 0,
            last_used_at: None,
            last_viewed_at: None,
            last_patched_at: None,
            last_activity_at: None,
            created_at: None,
            state: None,
            pinned: false,
            archived_at: None,
            absorbed_into: None,
            created_by: None,
        },
        body: body.to_string(),
        frontmatter_raw: String::new(),
    }
}

/// A discovered skill with the given name, source and embedded files.
fn entry(name: &str, source: &str, builtin: bool, files: Option<Vec<(String, String)>>) -> SkillEntryInfo {
    SkillEntryInfo {
        name: name.to_string(),
        source_label: source.to_string(),
        base_path: String::new(),
        skill_file: String::new(),
        is_builtin: builtin,
        category: None,
        category_desc: None,
        description: format!("{name} skill"),
        triggers: vec![],
        tags: vec![],
        requires_tools: vec![],
        requires_toolsets: vec![],
        fallback_for_tools: vec![],
        fallback_for_toolsets: vec![],
        required_env_vars: vec![],
        prerequisites: None,
        related_skills: None,
        embedded_files: files,
        embedded_content: None,
    }
}

fn files(list: &[(&str, &str)]) -> Vec<(String, String)> {
    list.iter().map(|(n, c)| (n.to_string(), c.to_string())).collect()
}

#[test]
fn read_file_mutual_exclusion_with_json() {
    let entries = vec![entry("workflow", "Builtin", true, None)];
    let result = plan_inspect(
        &entries,
        "workflow",
        None,
        Some("references/architecture.md"),
        false,
        true,
    );
    assert!(result.is_err());
    let msg = result.unwrap_err().to_string();
    assert!(
        msg.contains("--read-file cannot be combined with --json"),
        "expected mutual-exclusion error, got: {}",
        msg
    );
}

#[test]
fn read_file_mutual_exclusion_with_all() {
    let entries = vec![entry("workflow", "Builtin", true, None)];
    let result = plan_inspect(
        &entries,
        "workflow",
        None,
        Some("references/architecture.md"),
        true,
        false,
    );
    assert!(result.is_err());
    let msg = result.unwrap_err().to_string();
    assert!(
        msg.contains("--read-file cannot be combined with --all"),
        "expected mutual-exclusion error, got: {}",
        msg
    );
}

#[test]
fn all_flag_shows_full_body_no_truncation_marker() {
    let cjk = "你好世界".repeat(200);
    let body = format!("# Workflow Skill\n\n{}\n", cjk);
    assert!(
        body.len() > TEXT_BODY_PREVIEW_BYTES,
        "synthetic body must exceed preview size"
    );
    let output = output_with_body(&body);
    let lines = output.render_text(true);
    assert_eq!(lines.last().unwrap(), &body);
    assert_eq!(
        output.body, body,
        "InspectOutput.body must be full when all=true"
    );
    assert!(
        !output.body.contains("[truncated"),
        "body must not contain truncation marker when all=true"
    );
}

#[test]
fn utf8_cjk_truncation_is_safe() {
    let cjk: String = "你".repeat(401);
    assert_eq!(cjk.len(), 1203);

    let boundary = floor_char_boundary(&cjk, TEXT_BODY_PREVIEW_BYTES);
    assert!(
        cjk.is_char_boundary(boundary),
        "floor_char_boundary must return a valid char boundary"
    );
    assert!(
        boundary <= TEXT_BODY_PREVIEW_BYTES,
        "boundary must be ≤ TEXT_BODY_PREVIEW_BYTES"
    );

    let _sliced = &cjk[..boundary];

    let ascii: String = "a".repeat(2000);
    let boundary2 = floor_char_boundary(&ascii, TEXT_BODY_PREVIEW_BYTES);
    assert_eq!(boundary2, TEXT_BODY_PREVIEW_BYTES);
}

#[test]
fn floor_char_boundary_cases() {
    assert_eq!(floor_char_boundary("你好", 4), 3);
    assert_eq!(floor_char_boundary("你好", 3), 3);
    assert_eq!(floor_char_boundary("你好", 2), 0);
    assert_eq!(floor_char_boundary("abc", 10), 3);
    assert_eq!(floor_char_boundary("", 0), 0);
}

#[test]
fn text_view_cuts_long_body_with_marker() {
    let body = "你".repeat(401);
    let output = output_with_body(&body);
    let lines = output.render_text(false);
    let expected = format!(
        "{}...[truncated 3 bytes, use --all for full body]",
        "你".repeat(400)
    );
    assert_eq!(lines.last().unwrap(), &expected);
}

#[test]
fn text_view_exact_lines_for_small_report() {
    let mut output = output_with_body("");
    output.path = Some("/skills/test".to_string());
    output.triggers = vec!["a".to_string(), "b".to_string()];
    output.usage.use_count = 3;
    output.usage.view_count = -2;
    output.usage.last_used_at = Some("2024-01-01".to_string());
    output.usage.pinned = true;
    output.conditions.requires_tools = vec!["bash".to_string(), "git".to_string()];
    output.supporting_files.references = vec!["references/a.md".to_string()];
    output.embedded_references = vec![EmbeddedReferenceOutput {
        name: "references/a.md".to_string(),
        byte_size: 42,
    }];
    let lines = output.render_text(false);
    let expected: Vec<String> = vec![
        "Skill: test-skill".to_string(),
        "═".repeat(60),
        "Source: Builtin".to_string(),
        "Path: /skills/test".to_string(),
        "Description: test".to_string(),
        "Triggers: a, b".to_string(),
        "Usage:".to_string(),
        "  Use count: 3".to_string(),
        "  View count: -2".to_string(),
        "  Last used: 2024-01-01".to_string(),
        "  Pinned: true".to_string(),
        "Conditions:".to_string(),
        "  requires_tools: bash, git".to_string(),
        "Supporting files:".to_string(),
        "  - references/a.md".to_string(),
        "Embedded references:".to_string(),
        "  - references/a.md (42 bytes)".to_string(),
        String::new(),
        "Body:".to_string(),
        "(no content)".to_string(),
    ];
    assert_eq!(lines, expected);
}

#[test]
fn text_view_all_shows_none_markers() {
    let output = output_with_body("short body");
    let lines = output.render_text(true);
    assert!(lines.contains(&"Conditions:".to_string()));
    assert!(lines.contains(&"  requires_tools: (none)".to_string()));
    assert!(lines.contains(&"  fallback_for_toolsets: (none)".to_string()));
    assert!(lines.contains(&"  references: (none)".to_string()));
    assert!(lines.contains(&"  (none)".to_string()));
    assert_eq!(lines.last().unwrap(), "short body");
    let short = output.render_text(false);
    assert!(!short.contains(&"Conditions:".to_string()));
    assert!(!short.contains(&"Supporting files:".to_string()));
}

#[test]
fn embedded_files_filtered_by_prefix() {
    let f = files(&[
        ("references/a.md", "hello"),
        ("templates/t.md", "x"),
        ("references/b.md", "你好"),
    ]);
    let refs = embedded_files_to_refs(Some(&f), &["references/"]);
    assert_eq!(refs.len(), 2);
    assert_eq!(refs[0].name, "references/a.md");
    assert_eq!(refs[0].byte_size, 5);
    assert_eq!(refs[1].name, "references/b.md");
    assert_eq!(refs[1].byte_size, 6);
    assert!(embedded_files_to_refs(None, &["references/"]).is_empty());
}

#[test]
fn supporting_files_by_directory() {
    let f = files(&[
        ("references/a.md", "1"),
        ("templates/t.md", "2"),
        ("scripts/s.sh", "3"),
        ("assets/i.png", "4"),
        ("other/o.txt", "5"),
    ]);
    let (sf, refs) = collect_supporting_files_and_refs(Some(&f));
    assert_eq!(sf.references, vec!["references/a.md".to_string()]);
    assert_eq!(sf.templates, vec!["templates/t.md".to_string()]);
    assert_eq!(sf.scripts, vec!["scripts/s.sh".to_string()]);
    assert_eq!(sf.assets, vec!["assets/i.png".to_string()]);
    assert_eq!(refs.len(), 1);
    assert_eq!(refs[0].byte_size, 1);
}

#[test]
fn resolve_candidate_not_found_single_and_ambiguous() {
    let skills = vec![
        ("workflow".to_string(), "Builtin".to_string()),
        ("deploy".to_string(), "User".to_string()),
        ("deploy".to_string(), "Project".to_string()),
    ];
    match resolve_candidate(&skills, "missing", None) {
        Err(SkillInspectError::NotFound(n)) => assert_eq!(n, "missing"),
        _ => panic!("expected NotFound"),
    }
    assert_eq!(resolve_candidate(&skills, "workflow", None).ok(), Some(0));
    assert_eq!(resolve_candidate(&skills, "deploy", Some("Project")).ok(), Some(2));
    match resolve_candidate(&skills, "deploy", None) {
        Err(SkillInspectError::Ambiguous(c)) => {
            assert_eq!(
                c,
                vec![
                    ("deploy".to_string(), "User".to_string()),
                    ("deploy".to_string(), "Project".to_string())
                ]
            );
        }
        _ => panic!("expected Ambiguous"),
    }
    assert!(matches!(
        resolve_candidate(&skills, "workflow", Some("User")),
        Err(SkillInspectError::NotFound(_))
    ));
}

#[test]
fn ambiguous_error_message_lists_candidates() {
    let e = SkillInspectError::Ambiguous(vec![
        ("deploy".to_string(), "User".to_string()),
        ("deploy".to_string(), "Project".to_string()),
    ]);
    assert_eq!(
        e.to_string(),
        "ambiguous skill name — 2 candidates:\n  1. deploy (source: User)\n  2. deploy (source: Project)\nhint: use --source <Source> to disambiguate"
    );
}

#[test]
fn error_messages() {
    assert_eq!(
        SkillInspectError::NotFound("x".to_string()).to_string(),
        "skill not found: x"
    );
    assert_eq!(
        SkillInspectError::PathTraversal("../x".to_string()).to_string(),
        "path traversal detected: '../x'"
    );
    assert_eq!(
        SkillInspectError::BadCombo("m".to_string()).to_string(),
        "invalid flag combination: m"
    );
    let io = std::io::Error::new(std::io::ErrorKind::Other, "disk gone");
    assert_eq!(SkillInspectError::Io(io).to_string(), "I/O error: disk gone");
    let nf = std::io::Error::new(std::io::ErrorKind::NotFound, "nope");
    assert_eq!(
        SkillInspectError::FileNotFound("a.md".to_string(), nf).to_string(),
        "file not found in skill: a.md"
    );
}

#[test]
fn find_embedded_file_is_strict() {
    let f = files(&[("references/architecture.md", "arch"), ("references/examples.md", "ex")]);
    assert_eq!(find_embedded_file(&f, "references/examples.md").ok(), Some("ex".to_string()));
    match find_embedded_file(&f, "references/architecture") {
        Err(SkillInspectError::FileNotFound(p, _)) => assert_eq!(p, "references/architecture"),
        _ => panic!("expected FileNotFound"),
    }
}

#[test]
fn read_file_builtin_invalid_path_is_file_not_found() {
    let entries = vec![entry(
        "workflow",
        "Builtin",
        true,
        Some(files(&[("references/examples.md", "ex")])),
    )];
    let result = plan_inspect(
        &entries,
        "workflow",
        None,
        Some("references/__does_not_exist__.md"),
        false,
        false,
    );
    assert!(result.is_err());
    let msg = result.unwrap_err().to_string();
    assert!(msg.contains("file not found"));
    assert!(!msg.contains("skill not found"));
}

#[test]
fn plan_inspect_steps() {
    let entries = vec![
        entry("workflow", "Builtin", true, Some(files(&[("references/examples.md", "ex")]))),
        entry("deploy", "User", false, None),
    ];
    match plan_inspect(&entries, "workflow", None, Some("references/examples.md"), false, false) {
        Ok(InspectStep::PrintFile(c)) => assert_eq!(c, "ex"),
        _ => panic!("expected PrintFile"),
    }
    match plan_inspect(&entries, "deploy", None, Some("notes.md"), false, false) {
        Ok(InspectStep::ReadDiskFile { entry, path }) => {
            assert_eq!(entry, 1);
            assert_eq!(path, "notes.md");
        }
        _ => panic!("expected ReadDiskFile"),
    }
    assert!(matches!(
        plan_inspect(&entries, "deploy", None, None, false, true),
        Ok(InspectStep::ShowJson { entry: 1 })
    ));
    assert!(matches!(
        plan_inspect(&entries, "workflow", Some("Builtin"), None, true, false),
        Ok(InspectStep::ShowText { entry: 0 })
    ));
    assert!(matches!(
        plan_inspect(&entries, "nothing", None, None, false, false),
        Err(SkillInspectError::NotFound(_))
    ));
}

#[test]
fn file_size_limit() {
    assert!(check_file_size("a.md", MAX_FILE_SIZE_BYTES).is_ok());
    match check_file_size("big.bin", MAX_FILE_SIZE_BYTES + 1) {
        Err(SkillInspectError::BadCombo(m)) => assert_eq!(
            m,
            "file 'big.bin' exceeds the 5242880 byte limit (is 5242881 bytes)"
        ),
        _ => panic!("expected BadCombo"),
    }
}

#[test]
fn from_entry_copies_fields_and_defaults_usage() {
    let mut e = entry(
        "workflow",
        "Builtin",
        true,
        Some(files(&[("references/a.md", "abc"), ("scripts/run.sh", "x")])),
    );
    e.base_path = "/tmp/skills/workflow".to_string();
    e.embedded_content = Some("# body".to_string());
    e.prerequisites = Some(vec!["git".to_string()]);
    let out = InspectOutput::from_entry(&e, None);
    assert_eq!(out.name, "workflow");
    assert_eq!(out.source, "Builtin");
    assert_eq!(out.source_raw, "Builtin");
    assert_eq!(out.path.as_deref(), Some("/tmp/skills/workflow"));
    assert_eq!(out.skill_file, None);
    assert!(out.is_builtin);
    assert_eq!(out.readiness.status, "ready");
    assert_eq!(out.prerequisites.commands, vec!["git".to_string()]);
    assert!(out.related_skills.is_empty());
    assert_eq!(out.supporting_files.references, vec!["references/a.md".to_string()]);
    assert_eq!(out.supporting_files.scripts, vec!["scripts/run.sh".to_string()]);
    assert_eq!(out.embedded_references.len(), 1);
    assert_eq!(out.embedded_references[0].byte_size, 3);
    assert_eq!(out.usage.use_count, 0);
    assert_eq!(out.usage.last_activity_at, None);
    assert_eq!(out.body, "# body");
    assert_eq!(out.frontmatter_raw, "");
}

#[test]
fn from_entry_with_usage_record() {
    let e = entry("deploy", "User", false, None);
    let usage = SkillUsage {
        name: "deploy".to_string(),
        use_count: 7,
        view_count: 2,
        patch_count: 1,
        last_used_at: Some("2024-05-01".to_string()),
        last_viewed_at: None,
        last_patched_at: None,
        created_at: Some("2024-01-01".to_string()),
        state: Some("active".to_string()),
        pinned: true,
        archived_at: None,
        absorbed_into: None,
        created_by: Some("agent".to_string()),
    };
    let out = InspectOutput::from_entry(&e, Some(&usage));
    assert_eq!(out.usage.use_count, 7);
    assert_eq!(out.usage.view_count, 2);
    assert_eq!(out.usage.patch_count, 1);
    assert_eq!(out.usage.last_used_at.as_deref(), Some("2024-05-01"));
    assert_eq!(out.usage.last_activity_at.as_deref(), Some("2024-05-01"));
    assert!(out.usage.pinned);
    assert_eq!(out.usage.created_by.as_deref(), Some("agent"));
    assert_eq!(out.body, "");
}

#[test]
fn find_usage_first_match() {
    let mk = |n: &str, c: i64| SkillUsage {
        name: n.to_string(),
        use_count: c,
        view_count: 0,
        patch_count: 0,
        last_used_at: None,
        last_viewed_at: None,
        last_patched_at: None,
        created_at: None,
        state: None,
        pinned: false,
        archived_at: None,
        absorbed_into: None,
        created_by: None,
    };
    let entries = vec![mk("a", 1), mk("b", 2), mk("b", 3)];
    assert_eq!(find_usage(&entries, "b"), Some(1));
    assert_eq!(find_usage(&entries, "z"), None);
}

#[test]
fn paths_within_compare_whole_components() {
    let c = |parts: &[&str]| -> Vec<Vec<u8>> { parts.iter().map(|p| p.as_bytes().to_vec()).collect() };
    assert!(path_within(&c(&["/", "home", "skill"]), &c(&["/", "home", "skill", "a.md"])));
    assert!(path_within(&c(&["/", "home", "skill"]), &c(&["/", "home", "skill"])));
    assert!(!path_within(&c(&["/", "home", "skill"]), &c(&["/", "home", "skills", "a.md"])));
    assert!(!path_within(&c(&["/", "home", "skill"]), &c(&["/", "home"])));
    assert!(!path_within(&c(&["/", "home", "skill"]), &c(&["/", "etc", "passwd"])));
}
