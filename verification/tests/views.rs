use loom_cli::skill_inspect::SkillUsage;
use loom_cli::skill_usage_cmd::{usage_list_lines, usage_list_order};
use loom_cli::subcommands::{
    memory_search_lines, memory_show_lines, resolve_curator_credentials, server_detail_lines,
    session_list_plan, session_search_order, skill_show_lines, CredentialEnv, Lifecycle,
    MemoryFile, MemoryMatch, ProviderConfig, ProviderEntry, ServerDetailView, SkillDoc,
    SkillSource,
};

fn texts(list: &[&str]) -> Vec<String> {
    list.iter().map(|s| s.to_string()).collect()
}

#[test]
fn session_search_filters_and_orders() {
    let stamps = vec![
        Some((100, 0)),
        None,
        Some((50, 500_000_000)),
        Some((100, 0)),
        Some((10, 0)),
    ];
    assert_eq!(session_search_order(&stamps, None, None, false), vec![0, 1, 2, 3, 4]);
    assert_eq!(session_search_order(&stamps, None, None, true), vec![1, 4, 2, 0, 3]);
    // bounds in milliseconds; a session without a time fails any bound
    assert_eq!(
        session_search_order(&stamps, Some(50_500), None, false),
        vec![0, 2, 3]
    );
    assert_eq!(
        session_search_order(&stamps, Some(50_501), Some(100_000), true),
        vec![0, 3]
    );
    assert_eq!(session_search_order(&stamps, None, Some(10_000), true), vec![4]);
}

#[test]
fn session_list_defaults() {
    let p = session_list_plan(None, None, None, None, false, false, true);
    assert_eq!(p.limit, 50);
    assert_eq!(p.format, None);
    assert!(p.use_pager);
    let q = session_list_plan(Some(5), Some(9), None, Some("oneline".to_string()), false, false, true);
    assert_eq!(q.limit, 5);
    assert_eq!(q.format, Some("oneline".to_string()));
    assert!(!q.use_pager);
    let r = session_list_plan(None, Some(9), Some("x".to_string()), Some("y".to_string()), true, false, true);
    assert_eq!(r.limit, 9);
    assert_eq!(r.format, Some("x".to_string()));
    assert!(!r.use_pager);
    assert!(!session_list_plan(None, None, None, None, false, true, true).use_pager);
    assert!(!session_list_plan(None, None, None, None, false, false, false).use_pager);
}

#[test]
fn skill_show_prints_fields() {
    let s = SkillDoc {
        name: "deploy".to_string(),
        description: "Ship it".to_string(),
        source: SkillSource::Evolved,
        lifecycle: Lifecycle::Stale,
        triggers: texts(&["ship", "release"]),
        category: None,
        created_by: None,
        body: "# Deploy".to_string(),
        raw: "# Deploy".to_string(),
    };
    assert_eq!(
        skill_show_lines(&s),
        vec![
            "Skill: deploy".to_string(),
            "═".repeat(60),
            "Description: Ship it".to_string(),
            "Source: Evolved".to_string(),
            "Lifecycle: Stale".to_string(),
            "Triggers: ship, release".to_string(),
            String::new(),
            "# Deploy".to_string(),
        ]
    );
}

fn env() -> CredentialEnv {
    CredentialEnv {
        openai_api_key: None,
        anureo_api_key: None,
        openai_base_url: None,
        anureo_base_url: None,
        anureo_model: None,
        model: None,
    }
}

fn provider(name: &str, key: Option<&str>, model: Option<&str>) -> ProviderEntry {
    ProviderEntry {
        name: name.to_string(),
        api_key: key.map(|k| k.to_string()),
        base_url: None,
        model: model.map(|m| m.to_string()),
    }
}

#[test]
fn credentials_from_config_provider() {
    let config = ProviderConfig {
        default_provider: Some("b".to_string()),
        providers: vec![provider("a", Some("ka"), None), provider("b", Some("kb"), Some("m-b"))],
    };
    let c = resolve_curator_credentials(&Some(config.clone()), &env()).unwrap();
    assert_eq!(c.api_key, "kb");
    assert_eq!(c.base_url, "https://api.openai.com/v1");
    assert_eq!(c.model, "m-b");
    let mut e = env();
    e.model = Some("from-env".to_string());
    e.openai_api_key = Some("ignored".to_string());
    let c = resolve_curator_credentials(&Some(config), &e).unwrap();
    assert_eq!(c.model, "from-env");
    assert_eq!(c.api_key, "kb");
}

#[test]
fn credentials_config_without_key_gives_none() {
    let config = ProviderConfig {
        default_provider: None,
        providers: vec![provider("a", Some(""), None)],
    };
    let mut e = env();
    e.openai_api_key = Some("k".to_string());
    assert!(resolve_curator_credentials(&Some(config), &e).is_none());
}

#[test]
fn credentials_from_environment() {
    assert!(resolve_curator_credentials(&None, &env()).is_none());
    let mut e = env();
    e.anureo_api_key = Some("k2".to_string());
    e.anureo_base_url = Some("http://local".to_string());
    let c = resolve_curator_credentials(&None, &e).unwrap();
    assert_eq!(c.api_key, "k2");
    assert_eq!(c.base_url, "http://local");
    assert_eq!(c.model, "gpt-4o-mini");
    // an empty OpenAI key wins over the other one, and then there is none
    e.openai_api_key = Some(String::new());
    assert!(resolve_curator_credentials(&None, &e).is_none());
    // a configuration naming a provider it lacks falls back to the environment
    let config = ProviderConfig {
        default_provider: Some("zz".to_string()),
        providers: vec![provider("a", Some("ka"), None)],
    };
    let mut f = env();
    f.openai_api_key = Some("k3".to_string());
    assert_eq!(resolve_curator_credentials(&Some(config), &f).unwrap().api_key, "k3");
}

#[test]
fn memory_views() {
    assert_eq!(
        memory_show_lines("", "notes"),
        texts(&["USER.md:\n(empty)\n", "PROJECT.md:\nnotes\n"])
    );
    assert_eq!(memory_search_lines("q", &vec![]), texts(&["No matches for 'q'."]));
    let ms = vec![
        MemoryMatch { file: MemoryFile::User, line_number: 3, line: "likes tea".to_string() },
        MemoryMatch { file: MemoryFile::Project, line_number: 10, line: "tea time".to_string() },
    ];
    assert_eq!(
        memory_search_lines("tea", &ms),
        texts(&["User:3 | likes tea", "Project:10 | tea time"])
    );
}

#[test]
fn mcp_server_detail() {
    let d = ServerDetailView {
        name: "files".to_string(),
        disabled: false,
        command: Some("npx".to_string()),
        args: texts(&["-y", "server"]),
        url: None,
        env: vec![("TOKEN".to_string(), "ab****".to_string())],
        headers: vec![],
    };
    assert_eq!(
        server_detail_lines(&d),
        vec![
            "MCP Server: files".to_string(),
            "═".repeat(80),
            "Status: enabled".to_string(),
            "Command: npx".to_string(),
            "Args: -y server".to_string(),
            "Environment:".to_string(),
            "  TOKEN=ab****".to_string(),
        ]
    );
    let e = ServerDetailView {
        name: "web".to_string(),
        disabled: true,
        command: None,
        args: texts(&["unused"]),
        url: Some("http://x".to_string()),
        env: vec![],
        headers: vec![("Auth".to_string(), "t".to_string())],
    };
    assert_eq!(
        server_detail_lines(&e)[2..].to_vec(),
        texts(&["Status: disabled", "URL: http://x", "Headers:", "  Auth: t"])
    );
}

fn usage(name: &str, uses: i64, last: Option<&str>) -> SkillUsage {
    SkillUsage {
        name: name.to_string(),
        use_count: uses,
        view_count: 1,
        patch_count: 0,
        last_used_at: last.map(|s| s.to_string()),
        last_viewed_at: None,
        last_patched_at: None,
        created_at: None,
        state: None,
        pinned: false,
        archived_at: None,
        absorbed_into: None,
        created_by: None,
    }
}

#[test]
fn usage_list_sorted_by_name() {
    let empty: Vec<SkillUsage> = vec![];
    assert_eq!(usage_list_lines(&empty, &usage_list_order(&empty)), texts(&["No usage data found."]));
    let entries = vec![usage("zeta", 2, None), usage("alpha", 5, Some("2024-05-01"))];
    let order = usage_list_order(&entries);
    assert_eq!(order, vec![1, 0]);
    assert_eq!(
        usage_list_lines(&entries, &order),
        vec![
            "Skill Usage (.usage.json):".to_string(),
            "─".repeat(60),
            "  • alpha — uses: 5, views: 1, patches: 0".to_string(),
            "    Last used: 2024-05-01".to_string(),
            "  • zeta — uses: 2, views: 1, patches: 0".to_string(),
            String::new(),
            "Total: 2 skills tracked".to_string(),
        ]
    );
}
