use loom_cli::streaming::StreamingCell;
use loom_cli::subcommands::{
    created_skill_message, curator_status_lines, new_skill, review_lines, review_lines_from,
    CuratorStatusView, Lifecycle, SkillSource,
};

fn texts(list: &[&str]) -> Vec<String> {
    list.iter().map(|s| s.to_string()).collect()
}

#[test]
fn skills_create_builds_a_manual_skill() {
    let s = new_skill("deploy", None, texts(&["ship"]));
    assert_eq!(s.name, "deploy");
    assert_eq!(s.description, "");
    assert_eq!(s.source, SkillSource::Manual);
    assert_eq!(s.lifecycle, Lifecycle::Active);
    assert_eq!(s.triggers, texts(&["ship"]));
    assert_eq!(s.category, None);
    assert_eq!(s.created_by, None);
    assert_eq!(s.body, "");
    assert_eq!(s.raw, "");
    assert_eq!(new_skill("x", Some("d".to_string()), vec![]).description, "d");
    assert_eq!(created_skill_message("deploy"), "Created skill: deploy");
}

#[test]
fn curator_status_head() {
    let v = CuratorStatusView {
        enabled: true,
        paused: false,
        run_count: 3,
        last_run_at: None,
        next_run_eligible: false,
        interval_hours: 24,
        min_skills: 5,
        overlap_percent: "80".to_string(),
        stale_days_auto: 30,
        stale_days_manual: 90,
        archive_days: 180,
        last_run_summary: Some("ok".to_string()),
    };
    let lines = curator_status_lines(&v, (2, 1, 0, 1, 4));
    assert_eq!(
        lines,
        vec![
            "Curator Status:".to_string(),
            "═".repeat(60),
            "Enabled: true".to_string(),
            "Paused: false".to_string(),
            "Run Count: 3".to_string(),
            "Last Run: never".to_string(),
            "Next Run Eligible: ✗ no".to_string(),
            String::new(),
            "Config:".to_string(),
            "  Interval: every 24h".to_string(),
            "  Min skills: 5".to_string(),
            "  Overlap threshold: 80%".to_string(),
            "  Stale days (auto/manual): 30/90".to_string(),
            "  Archive days: 180".to_string(),
            String::new(),
            "Last Summary:\nok".to_string(),
            String::new(),
            "Skill Counts (4 total):".to_string(),
            "  Active: 2  |  Stale: 1  |  Archived: 0  |  Pinned: 1".to_string(),
        ]
    );
}

#[test]
fn curator_review_result() {
    let lines = review_lines(7, &texts(&["old", "q\"t"]), &vec![], &texts(&["back"]), 2);
    assert_eq!(
        lines,
        vec![
            "Curator Review Result:".to_string(),
            "═".repeat(60),
            "Active: 7".to_string(),
            "Marked Stale: 2 [\"old\", \"q\\\"t\"]".to_string(),
            "Archived: 0 []".to_string(),
            "Reactivated: 1 [\"back\"]".to_string(),
            "Overlapping: 2 pairs".to_string(),
        ]
    );
    assert_eq!(review_lines_from(0, (1, "L"), (0, "E"), (2, "R"), 0)[3], "Marked Stale: 1 L");
}

#[test]
fn streaming_finish_keeps_every_delta() {
    assert_eq!(StreamingCell::new().finish(), "");
    let mut c = StreamingCell::new();
    c.append_text("Hel");
    c.flush();
    c.append_text("lo, ");
    c.append_text("world");
    c.flush();
    c.flush();
    assert_eq!(c.finish(), "Hello, world");
}
