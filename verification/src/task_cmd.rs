//! Helpers of the `task` subcommand.

use vstd::prelude::*;
use vstd::string::*;
use crate::skill_inspect::{floor_chars, floor_chars_of, join, join_strings, lemma_floor_chars_bound, strs};
use crate::text::{byte_len, chars_of, copy_range, decimal, lines, lines_of, repeat_char, str_byte_len,
    string_from_chars, trim, trim_end, trim_end_len, trim_start_from, u64_to_decimal, views};
use crate::tool_cmd::{pad_right, pad_right_text};

verus! {

/// The first line of `s` (without its line break), or `s` itself when it
/// has no line at all (it is empty).
pub open spec fn first_line(s: Seq<char>) -> Seq<char> {
    if lines(s).len() > 0 {
        lines(s)[0]
    } else {
        s
    }
}

/// The name a task is listed under: the first line of its description,
/// cut to 57 bytes (at a character boundary) plus `...` when longer than
/// 60 bytes.
pub open spec fn task_name(desc: Seq<char>) -> Seq<char> {
    let line = first_line(desc);
    if byte_len(line) <= 60 {
        line
    } else {
        line.take(floor_chars(line, 57) as int) + "..."@
    }
}

/// The name a task is listed under (see [`task_name`]).
pub fn truncate_name(desc: &str) -> (r: String)
    ensures
        r@ == task_name(desc@),
{
    let cs = chars_of(desc);
    let ls = lines_of(cs.as_slice());
    let line: Vec<char> = if ls.len() > 0 {
        proof {
            assert(views(ls@)[0] == ls@[0]@);
        }
        ls[0].clone()
    } else {
        cs
    };
    let text = string_from_chars(line.as_slice());
    let len = str_byte_len(text.as_str());
    if len <= 60 {
        text
    } else {
        let k = floor_chars_of(line.as_slice(), 57);
        proof {
            lemma_floor_chars_bound(line@, 57);
        }
        let head = copy_range(line.as_slice(), 0, k);
        let mut r = string_from_chars(head.as_slice());
        r.append("...");
        proof {
            assert(head@ =~= line@.take(k as int));
        }
        r
    }
}


/// What `task new` says when the description is blank.
pub open spec fn blank_description_error() -> Seq<char> {
    "loom task new: provide a task description"@
}

/// The description of a new task: its words joined by spaces; an error
/// when that is blank.
pub fn task_description(words: &Vec<String>) -> (r: Result<String, String>)
    ensures
        match r {
            Ok(d) => d@ == join(strs(words@), " "@) && trim(d@).len() > 0,
            Err(e) => trim(join(strs(words@), " "@)).len() == 0 && e@ == blank_description_error(),
        },
{
    let desc = join_strings(words, " ");
    let cs = chars_of(desc.as_str());
    let n = cs.len();
    let e = trim_end_len(cs.as_slice(), n);
    let front = copy_range(cs.as_slice(), 0, e);
    let st = trim_start_from(front.as_slice(), 0);
    proof {
        assert(cs@.take(n as int) =~= cs@);
        assert(front@ =~= cs@.take(e as int));
        assert(front@.skip(0) =~= front@);
        assert(trim_end(desc@) == front@);
        assert(trim(desc@) == front@.skip(st as int));
    }
    if st == front.len() {
        Err(String::from_str("loom task new: provide a task description"))
    } else {
        Ok(desc)
    }
}

/// Whether `id` can be cut after its eighth byte: it is at most eight
/// bytes long, or a character ends there.
pub open spec fn cuttable_id(id: Seq<char>) -> bool {
    byte_len(id) <= 8 || byte_len(id.take(floor_chars(id, 8) as int)) == 8
}

/// The short form of a task id: its first eight bytes (all of it when
/// shorter).
pub open spec fn short_id(id: Seq<char>) -> Seq<char> {
    id.take(floor_chars(id, 8) as int)
}

/// The short form of a task id (see [`short_id`]).
pub fn short_task_id(id: &str) -> (r: String)
    requires
        cuttable_id(id@),
    ensures
        r@ == short_id(id@),
        byte_len(r@) == if byte_len(id@) <= 8 {
            byte_len(id@)
        } else {
            8
        },
{
    let cs = chars_of(id);
    let k = floor_chars_of(cs.as_slice(), 8);
    proof {
        lemma_floor_chars_bound(cs@, 8);
        if byte_len(id@) <= 8 {
            assert(k == id@.len());
            assert(id@.take(k as int) =~= id@);
        }
    }
    let head = copy_range(cs.as_slice(), 0, k);
    proof {
        assert(head@ =~= cs@.take(k as int));
    }
    string_from_chars(head.as_slice())
}

/// What `task new` asks the agent to do for a task.
pub open spec fn new_task_prompt(id: Seq<char>, desc: Seq<char>) -> Seq<char> {
    "??????????,??????\n\n? Task ID: "@ + id + "\n??:"@ + desc
        + "\n\n?? Task-Driven Workflow ???"@
}

/// What `task new` asks the agent to do for the task `id` described by
/// `desc`.
pub fn new_task_message(id: &str, desc: &str) -> (m: String)
    ensures
        m@ == new_task_prompt(id@, desc@),
{
    let mut m = String::from_str("??????????,??????\n\n? Task ID: ");
    m.append(id);
    m.append("\n??:");
    m.append(desc);
    m.append("\n\n?? Task-Driven Workflow ???");
    m
}

/// What `task continue` asks the agent to do for a task.
pub open spec fn continue_task_prompt(id: Seq<char>, desc: Seq<char>, status: Seq<char>) -> Seq<char> {
    "??????????\n\n? Task ID: "@ + id + "\n??:"@ + desc + "\n??:"@ + status
        + "\n\n????????,?????"@
}

/// What `task continue` asks the agent to do for the task `id`, described
/// by `desc`, in the state `status`.
pub fn continue_task_message(id: &str, desc: &str, status: &str) -> (m: String)
    ensures
        m@ == continue_task_prompt(id@, desc@, status@),
{
    let mut m = String::from_str("??????????\n\n? Task ID: ");
    m.append(id);
    m.append("\n??:");
    m.append(desc);
    m.append("\n??:");
    m.append(status);
    m.append("\n\n????????,?????");
    m
}

/// The greeting of the session that works on a task.
pub open spec fn task_greeting(short: Seq<char>) -> Seq<char> {
    "Task "@ + short + " ???"@
}

/// The greeting of the session that works on the task with short id
/// `short`.
pub fn task_greeting_text(short: &str) -> (g: String)
    ensures
        g@ == task_greeting(short@),
{
    let mut g = String::from_str("Task ");
    g.append(short);
    g.append(" ???");
    g
}

/// What `task new` reports of the task it created.
pub open spec fn new_task_report(short: Seq<char>, agent: Seq<char>) -> Seq<Seq<char>> {
    seq!["task_id: "@ + short, "status: in_progress"@, "assignee: "@ + agent, Seq::empty()]
}

/// The lines `task new` reports of the task with short id `short`,
/// assigned to `agent`.
pub fn new_task_lines(short: &str, agent: &str) -> (lines: Vec<String>)
    ensures
        strs(lines@) == new_task_report(short@, agent@),
{
    let mut out: Vec<String> = Vec::new();
    let mut a = String::from_str("task_id: ");
    a.append(short);
    out.push(a);
    out.push(String::from_str("status: in_progress"));
    let mut c = String::from_str("assignee: ");
    c.append(agent);
    out.push(c);
    out.push(String::new());
    proof {
        assert(strs(out@) =~= new_task_report(short@, agent@));
    }
    out
}

/// What `task list` and `task show` read of a task.
#[derive(Debug, Clone)]
pub struct TaskRow {
    pub id: String,
    pub name: String,
    /// The task's status as it is displayed.
    pub status: String,
    pub assignee: String,
}

/// One row of `task list`: short id, status, assignee and name in columns
/// of 10, 12 and 20 characters.
pub open spec fn task_row(t: TaskRow) -> Seq<char> {
    pad_right(short_id(t.id@), 10) + " "@ + pad_right(t.status@, 12) + " "@ + pad_right(
        t.assignee@,
        20,
    ) + " "@ + t.name@
}

/// The heading of `task list`.
pub open spec fn task_list_heading() -> Seq<char> {
    pad_right("ID"@, 10) + " "@ + pad_right("STATUS"@, 12) + " "@ + pad_right("ASSIGNEE"@, 20)
        + " NAME"@
}

/// What `task list` prints for the tasks found, of `total` in all.
pub open spec fn task_list_text(tasks: Seq<TaskRow>, total: u64) -> Seq<Seq<char>> {
    if tasks.len() == 0 {
        seq!["No tasks found."@]
    } else {
        seq![task_list_heading(), Seq::new(70, |i: int| '-')] + tasks.map_values(
            |t: TaskRow| task_row(t),
        ) + seq![Seq::empty(), "Total: "@ + decimal(total as int) + " tasks"@]
    }
}

/// The lines `task list` prints for `tasks`, of `total` in all.
pub fn task_list_lines(tasks: &Vec<TaskRow>, total: u64) -> (lines: Vec<String>)
    requires
        forall|i: int| 0 <= i < tasks@.len() ==> cuttable_id(#[trigger] tasks@[i].id@),
    ensures
        strs(lines@) == task_list_text(tasks@, total),
{
    let mut out: Vec<String> = Vec::new();
    if tasks.len() == 0 {
        out.push(String::from_str("No tasks found."));
        proof {
            assert(strs(out@) =~= task_list_text(tasks@, total));
        }
        return out;
    }
    let mut h = pad_right_text("ID", 10);
    h.append(" ");
    h.append(pad_right_text("STATUS", 12).as_str());
    h.append(" ");
    h.append(pad_right_text("ASSIGNEE", 20).as_str());
    h.append(" NAME");
    out.push(h);
    out.push(repeat_char('-', 70));
    let ghost head = strs(out@);
    proof {
        assert(head =~= seq![task_list_heading(), Seq::new(70, |i: int| '-')]);
        assert(tasks@.take(0).map_values(|t: TaskRow| task_row(t)) =~= Seq::<Seq<char>>::empty());
    }
    let mut k: usize = 0;
    while k < tasks.len()
        invariant
            k <= tasks@.len(),
            tasks@.len() > 0,
            forall|i: int| 0 <= i < tasks@.len() ==> cuttable_id(#[trigger] tasks@[i].id@),
            strs(out@) == head + tasks@.take(k as int).map_values(|t: TaskRow| task_row(t)),
        decreases tasks@.len() - k,
    {
        let t = &tasks[k];
        proof {
            assert(cuttable_id(tasks@[k as int].id@));
        }
        let short = short_task_id(t.id.as_str());
        let mut l = pad_right_text(short.as_str(), 10);
        l.append(" ");
        l.append(pad_right_text(t.status.as_str(), 12).as_str());
        l.append(" ");
        l.append(pad_right_text(t.assignee.as_str(), 20).as_str());
        l.append(" ");
        l.append(t.name.as_str());
        let ghost before = strs(out@);
        out.push(l);
        proof {
            assert(strs(out@) =~= before.push(task_row(tasks@[k as int])));
            assert(tasks@.take(k + 1).map_values(|t: TaskRow| task_row(t)) =~= tasks@.take(
                k as int,
            ).map_values(|t: TaskRow| task_row(t)).push(task_row(tasks@[k as int])));
        }
        k += 1;
    }
    proof {
        assert(tasks@.take(k as int) =~= tasks@);
    }
    let ghost body = strs(out@);
    out.push(String::new());
    let mut t = String::from_str("Total: ");
    t.append(u64_to_decimal(total).as_str());
    t.append(" tasks");
    out.push(t);
    proof {
        assert(strs(out@) =~= body + seq![Seq::empty(), "Total: "@ + decimal(total as int) + " tasks"@]);
        assert(strs(out@) =~= task_list_text(tasks@, total));
    }
    out
}

/// What `task show` reads of a task besides its row.
#[derive(Debug, Clone)]
pub struct TaskDetail {
    pub row: TaskRow,
    /// The start time as it is displayed.
    pub start_time: String,
    /// The creation time as it is displayed.
    pub created_at: String,
    pub description: String,
}

/// What `task show` prints (the description after a line break).
pub open spec fn task_show_text(t: TaskDetail) -> Seq<Seq<char>> {
    seq![
        "ID:          "@ + t.row.id@,
        "Name:        "@ + t.row.name@,
        "Status:      "@ + t.row.status@,
        "Assignee:    "@ + t.row.assignee@,
        "Start Time:  "@ + t.start_time@,
        "Created At:  "@ + t.created_at@,
        "Description:\n"@ + t.description@,
    ]
}

fn labelled(label: &str, value: &str) -> (s: String)
    ensures
        s@ == label@ + value@,
{
    let mut s = String::from_str(label);
    s.append(value);
    s
}

/// The lines `task show` prints for `t`.
pub fn task_show_lines(t: &TaskDetail) -> (lines: Vec<String>)
    ensures
        strs(lines@) == task_show_text(*t),
{
    let mut out: Vec<String> = Vec::new();
    out.push(labelled("ID:          ", t.row.id.as_str()));
    out.push(labelled("Name:        ", t.row.name.as_str()));
    out.push(labelled("Status:      ", t.row.status.as_str()));
    out.push(labelled("Assignee:    ", t.row.assignee.as_str()));
    out.push(labelled("Start Time:  ", t.start_time.as_str()));
    out.push(labelled("Created At:  ", t.created_at.as_str()));
    out.push(labelled("Description:\n", t.description.as_str()));
    proof {
        assert(strs(out@) =~= task_show_text(*t));
    }
    out
}

} // verus!
