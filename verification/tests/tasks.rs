use loom_cli::task_cmd::{
    continue_task_message, new_task_lines, new_task_message, short_task_id, task_description,
    task_greeting_text, task_list_lines, task_show_lines, TaskDetail, TaskRow,
};

fn words(list: &[&str]) -> Vec<String> {
    list.iter().map(|s| s.to_string()).collect()
}

#[test]
fn description_joins_words() {
    assert_eq!(
        task_description(&words(&["fix", "the", "bug"])),
        Ok("fix the bug".to_string())
    );
    assert_eq!(
        task_description(&words(&[" ", ""])),
        Err("loom task new: provide a task description".to_string())
    );
    assert_eq!(
        task_description(&vec![]),
        Err("loom task new: provide a task description".to_string())
    );
}

#[test]
fn short_ids_keep_eight_bytes() {
    assert_eq!(short_task_id("0123456789abcdef"), "01234567");
    assert_eq!(short_task_id("abc"), "abc");
    assert_eq!(short_task_id(""), "");
    assert_eq!(short_task_id("ab€cdefg"), "ab€cde");
}

#[test]
fn prompts_carry_id_and_description() {
    assert_eq!(
        new_task_message("id-1", "do it"),
        "??????????,??????\n\n? Task ID: id-1\n??:do it\n\n?? Task-Driven Workflow ???"
    );
    assert_eq!(
        continue_task_message("id-1", "do it", "in_progress"),
        "??????????\n\n? Task ID: id-1\n??:do it\n??:in_progress\n\n????????,?????"
    );
    assert_eq!(task_greeting_text("abcd1234"), "Task abcd1234 ???");
    assert_eq!(
        new_task_lines("abcd1234", "coder"),
        words(&["task_id: abcd1234", "status: in_progress", "assignee: coder", ""])
    );
}

fn row(id: &str, name: &str, status: &str, assignee: &str) -> TaskRow {
    TaskRow {
        id: id.to_string(),
        name: name.to_string(),
        status: status.to_string(),
        assignee: assignee.to_string(),
    }
}

#[test]
fn task_list_table() {
    assert_eq!(task_list_lines(&vec![], 0), words(&["No tasks found."]));
    let lines = task_list_lines(
        &vec![row("0123456789", "Write docs", "done", "writer")],
        12,
    );
    assert_eq!(
        lines,
        vec![
            format!("{:<10} {:<12} {:<20} NAME", "ID", "STATUS", "ASSIGNEE"),
            "-".repeat(70),
            format!("{:<10} {:<12} {:<20} {}", "01234567", "done", "writer", "Write docs"),
            String::new(),
            "Total: 12 tasks".to_string(),
        ]
    );
}

#[test]
fn task_show_fields() {
    let t = TaskDetail {
        row: row("id-9", "Name", "todo", "me"),
        start_time: "2024-01-01".to_string(),
        created_at: "2023-12-31".to_string(),
        description: "line one\nline two".to_string(),
    };
    assert_eq!(
        task_show_lines(&t),
        words(&[
            "ID:          id-9",
            "Name:        Name",
            "Status:      todo",
            "Assignee:    me",
            "Start Time:  2024-01-01",
            "Created At:  2023-12-31",
            "Description:\nline one\nline two",
        ])
    );
}
