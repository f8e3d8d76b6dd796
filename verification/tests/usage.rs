use loom_cli::skill_usage_cmd::{
    recovered_line, repair_steps, store_is_blank, usage_detail_lines, usage_not_found_text,
    RepairFinding, RepairStep, UsageDetail,
};

fn said(steps: &[RepairStep]) -> Vec<String> {
    steps
        .iter()
        .map(|s| match s {
            RepairStep::Say(t) => t.clone(),
            RepairStep::Backup => "<backup>".to_string(),
            RepairStep::RecoverText => "<recover text>".to_string(),
            RepairStep::RecoverBytes => "<recover bytes>".to_string(),
            RepairStep::WriteEmpty => "<write empty>".to_string(),
        })
        .collect()
}

#[test]
fn usage_detail_shows_counts_and_times() {
    let u = UsageDetail {
        use_count: 4,
        view_count: 9,
        patch_count: -1,
        last_used_at: Some("2024-01-02".to_string()),
        last_viewed_at: None,
        created_at: "2023-05-06".to_string(),
        state: "Active".to_string(),
        pinned: true,
    };
    assert_eq!(
        usage_detail_lines("deploy", &u),
        vec![
            "Skill: deploy".to_string(),
            "═".repeat(60),
            "Use count: 4".to_string(),
            "View count: 9".to_string(),
            "Patch count: -1".to_string(),
            "Last used: 2024-01-02".to_string(),
            "Created at: 2023-05-06".to_string(),
            "State: Active".to_string(),
            "Pinned: yes".to_string(),
        ]
    );
    assert_eq!(usage_not_found_text("x"), "Skill not found in .usage.json: x");
}

#[test]
fn repair_steps_per_finding() {
    assert_eq!(
        said(&repair_steps("/s/.usage.json", &RepairFinding::Missing)),
        vec!["No .usage.json found at /s/.usage.json. Nothing to repair."]
    );
    assert_eq!(
        said(&repair_steps("p", &RepairFinding::Valid)),
        vec![".usage.json is valid. No repair needed."]
    );
    assert_eq!(
        said(&repair_steps("p", &RepairFinding::Blank)),
        vec![
            ".usage.json is empty. Reinitializing with empty object.",
            "<write empty>",
            "Reinitialized .usage.json with empty object.",
        ]
    );
    assert_eq!(
        said(&repair_steps("p", &RepairFinding::Corrupted("bad key".to_string()))),
        vec![
            ".usage.json is corrupted: bad key",
            "Attempting to recover valid entries...",
            "<backup>",
            "<recover text>",
        ]
    );
    assert_eq!(
        said(&repair_steps("p", &RepairFinding::Unreadable("denied".to_string()))),
        vec![
            "Failed to read .usage.json: denied",
            "Attempting to recover...",
            "<recover bytes>",
            "<write empty>",
            "Reinitialized .usage.json with empty object.",
        ]
    );
}

#[test]
fn blank_store_and_recovery_line() {
    assert!(store_is_blank(""));
    assert!(store_is_blank(" \n\t "));
    assert!(!store_is_blank(" {} "));
    assert_eq!(recovered_line(3), "Recovered 3 valid entries.");
}
