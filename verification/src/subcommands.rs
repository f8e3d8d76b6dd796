//! The text and the small decisions of the CLI's management subcommands
//! (`skills`, `curator`, `agent`, `mcp`, `memory`, `tool`): what they print
//! for the records the stores hand back, and how they read their
//! arguments.  Reaching the stores is the caller's part.

use vstd::prelude::*;
use vstd::string::*;
use crate::selection::{lowercase, str_to_lowercase};
use crate::skill_inspect::{join, join_strings, rule_line, strs};
use crate::text::{chars_of, copy_range, decimal, i64_to_decimal, u64_to_decimal, trim, trim_end,
    trim_end_len, trim_start_from, usize_to_decimal, push_char, repeat_char};
use crate::tool_cmd::ToolShowFormat;
use crate::ranking::{ints, is_ranking, key_of_text, key_view, rank, text_key};

verus! {

/// Where a skill came from.
#[derive(Debug, Clone, Copy, PartialEq, Eq, Structural)]
pub enum SkillSource {
    Auto,
    Manual,
    Evolved,
}

/// The lifecycle stage of a skill.
#[derive(Debug, Clone, Copy, PartialEq, Eq, Structural)]
pub enum Lifecycle {
    Active,
    Stale,
    Archived,
}

/// What `skills list` shows of a skill.
#[derive(Debug, Clone)]
pub struct SkillSummary {
    pub name: String,
    pub source: SkillSource,
    pub lifecycle: Lifecycle,
    pub description: String,
}

/// The tag of a source in the list.
pub open spec fn source_tag(s: SkillSource) -> Seq<char> {
    match s {
        SkillSource::Auto => "[auto]"@,
        SkillSource::Manual => "[manual]"@,
        SkillSource::Evolved => "[evolved]"@,
    }
}

/// The tag of a lifecycle stage in the list (none for active skills).
pub open spec fn lifecycle_tag(l: Lifecycle) -> Seq<char> {
    match l {
        Lifecycle::Active => Seq::empty(),
        Lifecycle::Stale => " [stale]"@,
        Lifecycle::Archived => " [archived]"@,
    }
}

/// One line of `skills list`.
pub open spec fn skill_line(s: SkillSummary) -> Seq<char> {
    "  • "@ + s.name@ + " "@ + source_tag(s.source) + lifecycle_tag(s.lifecycle) + " — "@
        + s.description@
}

/// What `skills list` prints.
pub open spec fn skills_list_text(skills: Seq<SkillSummary>) -> Seq<Seq<char>> {
    if skills.len() == 0 {
        seq!["No skills found."@]
    } else {
        seq!["Skills:"@] + skills.map_values(|s: SkillSummary| skill_line(s))
    }
}

/// The tag of a source.
fn source_tag_text(s: SkillSource) -> (t: &'static str)
    ensures
        t@ == source_tag(s),
{
    match s {
        SkillSource::Auto => "[auto]",
        SkillSource::Manual => "[manual]",
        SkillSource::Evolved => "[evolved]",
    }
}

/// The tag of a lifecycle stage.
fn lifecycle_tag_text(l: Lifecycle) -> (t: &'static str)
    ensures
        t@ == lifecycle_tag(l),
{
    match l {
        Lifecycle::Active => {
            proof {
                reveal_strlit("");
                assert(""@ =~= Seq::<char>::empty());
            }
            ""
        },
        Lifecycle::Stale => " [stale]",
        Lifecycle::Archived => " [archived]",
    }
}

/// The lines `skills list` prints.
pub fn skills_list_lines(skills: &Vec<SkillSummary>) -> (lines: Vec<String>)
    ensures
        strs(lines@) == skills_list_text(skills@),
{
    let mut out: Vec<String> = Vec::new();
    if skills.len() == 0 {
        out.push(String::from_str("No skills found."));
        proof {
            assert(strs(out@) =~= skills_list_text(skills@));
        }
        return out;
    }
    out.push(String::from_str("Skills:"));
    let mut k: usize = 0;
    while k < skills.len()
        invariant
            k <= skills@.len(),
            skills@.len() > 0,
            strs(out@) == seq!["Skills:"@] + skills@.take(k as int).map_values(
                |s: SkillSummary| skill_line(s),
            ),
        decreases skills@.len() - k,
    {
        let s = &skills[k];
        let mut l = String::from_str("  • ");
        l.append(s.name.as_str());
        l.append(" ");
        l.append(source_tag_text(s.source));
        l.append(lifecycle_tag_text(s.lifecycle));
        l.append(" — ");
        l.append(s.description.as_str());
        let ghost before = strs(out@);
        out.push(l);
        proof {
            assert(strs(out@) =~= before.push(skill_line(skills@[k as int])));
            assert(skills@.take(k + 1).map_values(|s: SkillSummary| skill_line(s)) =~= skills@.take(
                k as int,
            ).map_values(|s: SkillSummary| skill_line(s)).push(skill_line(skills@[k as int])));
        }
        k += 1;
    }
    proof {
        assert(skills@.take(k as int) =~= skills@);
    }
    out
}

/// `"<label><count>"` followed by one `"  <mark> <name>"` line per name.
pub open spec fn counted_block(label: Seq<char>, mark: Seq<char>, names: Seq<String>) -> Seq<
    Seq<char>,
> {
    seq![label + decimal(names.len() as int)] + strs(names).map_values(
        |n: Seq<char>| "  "@ + mark + " "@ + n,
    )
}

/// What `skills sync` prints.
pub open spec fn skills_sync_text(
    bundled: Seq<char>,
    user: Seq<char>,
    added: Seq<String>,
    updated: Seq<String>,
    skipped: Seq<String>,
    removed: Seq<String>,
) -> Seq<Seq<char>> {
    seq![
        "Skills sync:"@,
        rule_line(),
        "  Bundled source: "@ + bundled,
        "  User target:    "@ + user,
    ] + counted_block("Added:   "@, "+"@, added) + counted_block("Updated: "@, "~"@, updated)
        + counted_block("Skipped: "@, "-"@, skipped) + counted_block("Removed: "@, "✗"@, removed)
}

/// Appends a counted block.
fn push_counted(out: &mut Vec<String>, label: &str, mark: &str, names: &Vec<String>)
    ensures
        strs(final(out)@) == strs(old(out)@) + counted_block(label@, mark@, names@),
{
    let ghost start = strs(out@);
    let mut head = label.to_owned();
    let n = usize_to_decimal(names.len());
    head.append(n.as_str());
    out.push(head);
    let ghost f = |n: Seq<char>| "  "@ + mark@ + " "@ + n;
    let mut k: usize = 0;
    proof {
        assert(strs(out@) =~= start + seq![label@ + decimal(names@.len() as int)] + strs(
            names@,
        ).take(0).map_values(f));
    }
    while k < names.len()
        invariant
            k <= names@.len(),
            f == (|n: Seq<char>| "  "@ + mark@ + " "@ + n),
            strs(out@) == start + seq![label@ + decimal(names@.len() as int)] + strs(names@).take(
                k as int,
            ).map_values(f),
        decreases names@.len() - k,
    {
        let mut l = String::from_str("  ");
        l.append(mark);
        l.append(" ");
        l.append(names[k].as_str());
        let ghost before = strs(out@);
        out.push(l);
        proof {
            assert(strs(out@) =~= before.push(l@));
            assert(strs(names@).take(k + 1).map_values(f) =~= strs(names@).take(
                k as int,
            ).map_values(f).push(f(names@[k as int]@)));
        }
        k += 1;
    }
    proof {
        assert(strs(names@).take(k as int) =~= strs(names@));
        assert(strs(out@) =~= start + counted_block(label@, mark@, names@));
    }
}

/// Sixty `═`.
fn rule_text() -> (r: String)
    ensures
        r@ == rule_line(),
{
    let mut rule = String::new();
    let mut i: usize = 0;
    while i < 60
        invariant
            i <= 60,
            rule@ == Seq::new(i as nat, |j: int| '═'),
        decreases 60 - i,
    {
        push_char(&mut rule, '═');
        i += 1;
        proof {
            assert(rule@ =~= Seq::new(i as nat, |j: int| '═'));
        }
    }
    rule
}

/// The lines `skills sync` prints for the directories and the names that
/// were added, updated, skipped and removed.
pub fn skills_sync_lines(
    bundled: &str,
    user: &str,
    added: &Vec<String>,
    updated: &Vec<String>,
    skipped: &Vec<String>,
    removed: &Vec<String>,
) -> (lines: Vec<String>)
    ensures
        strs(lines@) == skills_sync_text(bundled@, user@, added@, updated@, skipped@, removed@),
{
    let mut out: Vec<String> = Vec::new();
    out.push(String::from_str("Skills sync:"));
    out.push(rule_text());
    let mut b = String::from_str("  Bundled source: ");
    b.append(bundled);
    out.push(b);
    let mut u = String::from_str("  User target:    ");
    u.append(user);
    out.push(u);
    proof {
        assert(strs(out@) =~= seq![
            "Skills sync:"@,
            rule_line(),
            "  Bundled source: "@ + bundled@,
            "  User target:    "@ + user@,
        ]);
    }
    push_counted(&mut out, "Added:   ", "+", added);
    push_counted(&mut out, "Updated: ", "~", updated);
    push_counted(&mut out, "Skipped: ", "-", skipped);
    push_counted(&mut out, "Removed: ", "✗", removed);
    out
}

/// One line of `agent list`: the name and, when there is one, the
/// description.
pub open spec fn agent_line(p: (String, Option<String>)) -> Seq<char> {
    match p.1 {
        Some(d) => "  • "@ + p.0@ + " — "@ + d@,
        None => "  • "@ + p.0@,
    }
}

/// What `skills show` reads of a skill.
#[derive(Debug, Clone)]
pub struct SkillDoc {
    pub name: String,
    pub description: String,
    pub source: SkillSource,
    pub lifecycle: Lifecycle,
    pub triggers: Vec<String>,
    pub category: Option<String>,
    pub created_by: Option<String>,
    pub body: String,
    /// The skill's file text as stored.
    pub raw: String,
}

/// The name of a source, as its `Debug` form prints it.
pub open spec fn source_name(s: SkillSource) -> Seq<char> {
    match s {
        SkillSource::Auto => "Auto"@,
        SkillSource::Manual => "Manual"@,
        SkillSource::Evolved => "Evolved"@,
    }
}

/// The name of a lifecycle stage, as its `Debug` form prints it.
pub open spec fn lifecycle_name(l: Lifecycle) -> Seq<char> {
    match l {
        Lifecycle::Active => "Active"@,
        Lifecycle::Stale => "Stale"@,
        Lifecycle::Archived => "Archived"@,
    }
}

/// What `skills show` prints for a skill.
pub open spec fn skill_show_text(s: SkillDoc) -> Seq<Seq<char>> {
    seq![
        "Skill: "@ + s.name@,
        rule_line(),
        "Description: "@ + s.description@,
        "Source: "@ + source_name(s.source),
        "Lifecycle: "@ + lifecycle_name(s.lifecycle),
        "Triggers: "@ + join(strs(s.triggers@), ", "@),
        Seq::empty(),
        s.body@,
    ]
}

/// The lines `skills show` prints for `s`.
pub fn skill_show_lines(s: &SkillDoc) -> (lines: Vec<String>)
    ensures
        strs(lines@) == skill_show_text(*s),
{
    let mut out: Vec<String> = Vec::new();
    let mut a = String::from_str("Skill: ");
    a.append(s.name.as_str());
    out.push(a);
    out.push(repeat_char('═', 60));
    let mut d = String::from_str("Description: ");
    d.append(s.description.as_str());
    out.push(d);
    let mut src = String::from_str("Source: ");
    src.append(
        match s.source {
            SkillSource::Auto => "Auto",
            SkillSource::Manual => "Manual",
            SkillSource::Evolved => "Evolved",
        },
    );
    out.push(src);
    let mut lc = String::from_str("Lifecycle: ");
    lc.append(
        match s.lifecycle {
            Lifecycle::Active => "Active",
            Lifecycle::Stale => "Stale",
            Lifecycle::Archived => "Archived",
        },
    );
    out.push(lc);
    let mut t = String::from_str("Triggers: ");
    t.append(join_strings(&s.triggers, ", ").as_str());
    out.push(t);
    out.push(String::new());
    out.push(s.body.clone());
    proof {
        assert(strs(out@) =~= skill_show_text(*s));
    }
    out
}

/// The skill `skills create` saves: a manual, active skill with the given
/// name, description (empty when none is given) and triggers, no category,
/// no creator, and an empty body and file text.
pub fn new_skill(name: &str, description: Option<String>, triggers: Vec<String>) -> (s: SkillDoc)
    ensures
        s.name@ == name@,
        s.description@ == match description {
            Some(d) => d@,
            None => Seq::<char>::empty(),
        },
        s.source == SkillSource::Manual,
        s.lifecycle == Lifecycle::Active,
        s.triggers@ == triggers@,
        s.category is None,
        s.created_by is None,
        s.body@.len() == 0,
        s.raw@.len() == 0,
{
    SkillDoc {
        name: name.to_owned(),
        description: match description {
            Some(d) => d,
            None => String::new(),
        },
        source: SkillSource::Manual,
        lifecycle: Lifecycle::Active,
        triggers,
        category: None,
        created_by: None,
        body: String::new(),
        raw: String::new(),
    }
}

/// What `skills create` says once the skill is saved.
pub fn created_skill_message(name: &str) -> (m: String)
    ensures
        m@ == "Created skill: "@ + name@,
{
    let mut m = String::from_str("Created skill: ");
    m.append(name);
    m
}

/// The `Debug` text of a list of strings (`["a", "b"]`, each string quoted
/// and escaped as `str`'s `Debug` does).
pub uninterp spec fn debug_list(names: Seq<Seq<char>>) -> Seq<char>;

/// `Debug` of a `Vec<String>` (std's `{:?}`).  Its text is claimed to be
/// [`debug_list`] of the strings, a function of them alone.
#[verifier::external_body]
fn debug_names(v: &Vec<String>) -> (r: String)
    ensures
        r@ == debug_list(strs(v@)),
{
    format!("{:?}", v)
}

/// One counted line of the curator's review result: the label, how many
/// names, and the names as their list's `Debug` text.
pub open spec fn listed_line(label: Seq<char>, count: nat, listed: Seq<char>) -> Seq<char> {
    label + decimal(count as int) + " "@ + listed
}

/// What `curator run` prints of the review it ran, given each list's
/// length and `Debug` text.
pub open spec fn review_text(
    active: usize,
    stale: (usize, Seq<char>),
    archived: (usize, Seq<char>),
    reactivated: (usize, Seq<char>),
    overlapping: usize,
) -> Seq<Seq<char>> {
    seq![
        "Curator Review Result:"@,
        rule_line(),
        "Active: "@ + decimal(active as int),
        listed_line("Marked Stale: "@, stale.0 as nat, stale.1),
        listed_line("Archived: "@, archived.0 as nat, archived.1),
        listed_line("Reactivated: "@, reactivated.0 as nat, reactivated.1),
        "Overlapping: "@ + decimal(overlapping as int) + " pairs"@,
    ]
}

fn listed(label: &str, count: usize, text: &str) -> (s: String)
    ensures
        s@ == listed_line(label@, count as nat, text@),
{
    let mut s = String::from_str(label);
    s.append(usize_to_decimal(count).as_str());
    s.append(" ");
    s.append(text);
    s
}

/// The lines of a review result, given each list's length and `Debug`
/// text (see [`review_text`]).
pub fn review_lines_from(
    active: usize,
    stale: (usize, &str),
    archived: (usize, &str),
    reactivated: (usize, &str),
    overlapping: usize,
) -> (lines: Vec<String>)
    ensures
        strs(lines@) == review_text(
            active,
            (stale.0, stale.1@),
            (archived.0, archived.1@),
            (reactivated.0, reactivated.1@),
            overlapping,
        ),
{
    let mut out: Vec<String> = Vec::new();
    out.push(String::from_str("Curator Review Result:"));
    out.push(rule_text());
    let mut a = String::from_str("Active: ");
    a.append(usize_to_decimal(active).as_str());
    out.push(a);
    out.push(listed("Marked Stale: ", stale.0, stale.1));
    out.push(listed("Archived: ", archived.0, archived.1));
    out.push(listed("Reactivated: ", reactivated.0, reactivated.1));
    let mut o = String::from_str("Overlapping: ");
    o.append(usize_to_decimal(overlapping).as_str());
    o.append(" pairs");
    out.push(o);
    proof {
        assert(strs(out@) =~= review_text(
            active,
            (stale.0, stale.1@),
            (archived.0, archived.1@),
            (reactivated.0, reactivated.1@),
            overlapping,
        ));
    }
    out
}

/// The lines `curator run` prints of a review that left `active` skills
/// active, marked `stale` stale, archived `archived`, reactivated
/// `reactivated` and found `overlapping` pairs.
pub fn review_lines(
    active: usize,
    stale: &Vec<String>,
    archived: &Vec<String>,
    reactivated: &Vec<String>,
    overlapping: usize,
) -> (lines: Vec<String>)
    ensures
        strs(lines@) == review_text(
            active,
            (stale@.len() as usize, debug_list(strs(stale@))),
            (archived@.len() as usize, debug_list(strs(archived@))),
            (reactivated@.len() as usize, debug_list(strs(reactivated@))),
            overlapping,
        ),
{
    let s = debug_names(stale);
    let a = debug_names(archived);
    let r = debug_names(reactivated);
    review_lines_from(
        active,
        (stale.len(), s.as_str()),
        (archived.len(), a.as_str()),
        (reactivated.len(), r.as_str()),
        overlapping,
    )
}

/// What the curator's status board reads of the curator's state and
/// configuration.
#[derive(Debug, Clone)]
pub struct CuratorStatusView {
    pub enabled: bool,
    pub paused: bool,
    pub run_count: u64,
    pub last_run_at: Option<String>,
    pub next_run_eligible: bool,
    pub interval_hours: u64,
    pub min_skills: u64,
    /// The overlap threshold in percent, as displayed (rounded).
    pub overlap_percent: String,
    pub stale_days_auto: u64,
    pub stale_days_manual: u64,
    pub archive_days: u64,
    pub last_run_summary: Option<String>,
}

/// The head of the curator's status board, before its leaderboards: the
/// state, the configuration, the last summary when there is one, and the
/// skill counts (active, stale, archived, pinned and their total).
pub open spec fn curator_status_text(v: CuratorStatusView, counts: (usize, usize, usize, usize, usize)) -> Seq<
    Seq<char>,
> {
    seq![
        "Curator Status:"@,
        rule_line(),
        "Enabled: "@ + bool_text(v.enabled),
        "Paused: "@ + bool_text(v.paused),
        "Run Count: "@ + decimal(v.run_count as int),
        "Last Run: "@ + match v.last_run_at {
            Some(t) => t@,
            None => "never"@,
        },
        "Next Run Eligible: "@ + if v.next_run_eligible {
            "✓ yes"@
        } else {
            "✗ no"@
        },
        Seq::empty(),
        "Config:"@,
        "  Interval: every "@ + decimal(v.interval_hours as int) + "h"@,
        "  Min skills: "@ + decimal(v.min_skills as int),
        "  Overlap threshold: "@ + v.overlap_percent@ + "%"@,
        "  Stale days (auto/manual): "@ + decimal(v.stale_days_auto as int) + "/"@ + decimal(
            v.stale_days_manual as int,
        ),
        "  Archive days: "@ + decimal(v.archive_days as int),
    ] + match v.last_run_summary {
        Some(t) => seq![Seq::empty(), "Last Summary:\n"@ + t@],
        None => Seq::empty(),
    } + seq![
        Seq::empty(),
        "Skill Counts ("@ + decimal(counts.4 as int) + " total):"@,
        "  Active: "@ + decimal(counts.0 as int) + "  |  Stale: "@ + decimal(counts.1 as int)
            + "  |  Archived: "@ + decimal(counts.2 as int) + "  |  Pinned: "@ + decimal(
            counts.3 as int,
        ),
    ]
}

fn bool_word(b: bool) -> (s: &'static str)
    ensures
        s@ == bool_text(b),
{
    if b {
        "true"
    } else {
        "false"
    }
}

fn number_line(label: &str, n: u64, unit: &str) -> (s: String)
    ensures
        s@ == label@ + decimal(n as int) + unit@,
{
    let mut s = String::from_str(label);
    s.append(u64_to_decimal(n).as_str());
    s.append(unit);
    s
}

/// The head lines of the curator's status board for `v` and the counts of
/// `curator_counts`.
pub fn curator_status_lines(v: &CuratorStatusView, counts: (usize, usize, usize, usize, usize)) -> (lines:
    Vec<String>)
    ensures
        strs(lines@) == curator_status_text(*v, counts),
{
    let mut out: Vec<String> = Vec::new();
    out.push(String::from_str("Curator Status:"));
    out.push(rule_text());
    let mut e = String::from_str("Enabled: ");
    e.append(bool_word(v.enabled));
    out.push(e);
    let mut p = String::from_str("Paused: ");
    p.append(bool_word(v.paused));
    out.push(p);
    out.push(number_line("Run Count: ", v.run_count, ""));
    let mut l = String::from_str("Last Run: ");
    match &v.last_run_at {
        Some(t) => l.append(t.as_str()),
        None => l.append("never"),
    }
    out.push(l);
    let mut n = String::from_str("Next Run Eligible: ");
    n.append(
        if v.next_run_eligible {
            "✓ yes"
        } else {
            "✗ no"
        },
    );
    out.push(n);
    out.push(String::new());
    out.push(String::from_str("Config:"));
    out.push(number_line("  Interval: every ", v.interval_hours, "h"));
    out.push(number_line("  Min skills: ", v.min_skills, ""));
    let mut o = String::from_str("  Overlap threshold: ");
    o.append(v.overlap_percent.as_str());
    o.append("%");
    out.push(o);
    let mut sd = number_line("  Stale days (auto/manual): ", v.stale_days_auto, "/");
    sd.append(u64_to_decimal(v.stale_days_manual).as_str());
    out.push(sd);
    out.push(number_line("  Archive days: ", v.archive_days, ""));
    let ghost head = strs(out@);
    match &v.last_run_summary {
        Some(t) => {
            out.push(String::new());
            let mut m = String::from_str("Last Summary:\n");
            m.append(t.as_str());
            out.push(m);
        },
        None => {},
    }
    let ghost mid = strs(out@);
    out.push(String::new());
    let mut c = String::from_str("Skill Counts (");
    c.append(usize_to_decimal(counts.4).as_str());
    c.append(" total):");
    out.push(c);
    let mut a = String::from_str("  Active: ");
    a.append(usize_to_decimal(counts.0).as_str());
    a.append("  |  Stale: ");
    a.append(usize_to_decimal(counts.1).as_str());
    a.append("  |  Archived: ");
    a.append(usize_to_decimal(counts.2).as_str());
    a.append("  |  Pinned: ");
    a.append(usize_to_decimal(counts.3).as_str());
    out.push(a);
    proof {
        reveal_strlit("");
        assert(("Run Count: "@ + decimal(v.run_count as int) + ""@) =~= "Run Count: "@ + decimal(
            v.run_count as int,
        ));
        assert(("  Min skills: "@ + decimal(v.min_skills as int) + ""@) =~= "  Min skills: "@
            + decimal(v.min_skills as int));
        assert(("  Archive days: "@ + decimal(v.archive_days as int) + ""@) =~= "  Archive days: "@
            + decimal(v.archive_days as int));
        assert(strs(out@) =~= curator_status_text(*v, counts));
    }
    out
}

/// The eligibility line of the status board says `✓ yes` exactly when the
/// next curator run is eligible, and `✗ no` otherwise.
pub proof fn law_eligibility_line(v: CuratorStatusView, counts: (usize, usize, usize, usize, usize))
    ensures
        curator_status_text(v, counts).len() > 6,
        curator_status_text(v, counts)[6] == "Next Run Eligible: ✓ yes"@ <==> v.next_run_eligible,
        curator_status_text(v, counts)[6] == "Next Run Eligible: ✗ no"@ <==> !v.next_run_eligible,
{
    reveal_strlit("Next Run Eligible: ");
    reveal_strlit("Next Run Eligible: ✓ yes");
    reveal_strlit("Next Run Eligible: ✗ no");
    reveal_strlit("✓ yes");
    reveal_strlit("✗ no");
    let t = curator_status_text(v, counts);
    assert(("Next Run Eligible: "@ + "✓ yes"@) =~= "Next Run Eligible: ✓ yes"@);
    assert(("Next Run Eligible: "@ + "✗ no"@) =~= "Next Run Eligible: ✗ no"@);
    assert("Next Run Eligible: ✓ yes"@[19] != "Next Run Eligible: ✗ no"@[19]);
}

/// Whether the eligibility line reads eligible depends on the eligibility
/// flag alone: two status views with the same flag give the same line,
/// whatever their other fields (paused, enabled, counters) and counts.
pub proof fn law_eligibility_line_reads_only_the_flag(
    v1: CuratorStatusView,
    v2: CuratorStatusView,
    c1: (usize, usize, usize, usize, usize),
    c2: (usize, usize, usize, usize, usize),
)
    requires
        v1.next_run_eligible == v2.next_run_eligible,
    ensures
        curator_status_text(v1, c1)[6] == curator_status_text(v2, c2)[6],
{
}

/// A provider of the configuration, as the curator's model pass reads it.
#[derive(Debug, Clone)]
pub struct ProviderEntry {
    pub name: String,
    pub api_key: Option<String>,
    pub base_url: Option<String>,
    pub model: Option<String>,
}

/// What the curator's model pass reads of the configuration.
#[derive(Debug, Clone)]
pub struct ProviderConfig {
    pub default_provider: Option<String>,
    pub providers: Vec<ProviderEntry>,
}

/// The environment variables the curator's model pass reads (each absent
/// when unset or not Unicode).
#[derive(Debug, Clone)]
pub struct CredentialEnv {
    pub openai_api_key: Option<String>,
    pub anureo_api_key: Option<String>,
    pub openai_base_url: Option<String>,
    pub anureo_base_url: Option<String>,
    pub anureo_model: Option<String>,
    pub model: Option<String>,
}

/// Where and how the curator's model pass reaches a model.
#[derive(Debug, Clone)]
pub struct Credentials {
    pub base_url: String,
    pub api_key: String,
    pub model: String,
}

/// The first of two optional texts that is present.
pub open spec fn either(a: Option<String>, b: Option<String>) -> Option<Seq<char>> {
    match a {
        Some(x) => Some(x@),
        None => match b {
            Some(y) => Some(y@),
            None => None,
        },
    }
}

/// An optional text, or `d` when absent.
pub open spec fn or_default(a: Option<Seq<char>>, d: Seq<char>) -> Seq<char> {
    match a {
        Some(x) => x,
        None => d,
    }
}

/// The first provider named `name`.
pub open spec fn first_named(ps: Seq<ProviderEntry>, name: Seq<char>) -> Option<ProviderEntry>
    decreases ps.len(),
{
    if ps.len() == 0 {
        None
    } else if ps[0].name@ == name {
        Some(ps[0])
    } else {
        first_named(ps.drop_first(), name)
    }
}

/// The provider the configuration selects: the default one by name, else
/// the first.
pub open spec fn chosen_provider(c: ProviderConfig) -> Option<ProviderEntry> {
    match c.default_provider {
        Some(n) => first_named(c.providers@, n@),
        None => if c.providers@.len() > 0 {
            Some(c.providers@[0])
        } else {
            None
        },
    }
}

/// The credentials of the curator's model pass: from the selected provider
/// of the configuration when it could be read and selects one (none when
/// that provider has no key or an empty one), else from the environment
/// (none without a key or with an empty one).  The model named in the
/// environment wins over the provider's; the defaults are OpenAI's address
/// and `gpt-4o-mini`.
pub open spec fn curator_credentials(config: Option<ProviderConfig>, env: CredentialEnv) -> Option<
    (Seq<char>, Seq<char>, Seq<char>),
> {
    let provider = match config {
        Some(c) => chosen_provider(c),
        None => None,
    };
    let env_model = either(env.anureo_model, env.model);
    match provider {
        Some(p) => match p.api_key {
            Some(k) => if k@.len() > 0 {
                Some(
                    (
                        or_default(either(p.base_url, None), "https://api.openai.com/v1"@),
                        k@,
                        match env_model {
                            Some(m) => m,
                            None => or_default(either(p.model, None), "gpt-4o-mini"@),
                        },
                    ),
                )
            } else {
                None
            },
            None => None,
        },
        None => match either(env.openai_api_key, env.anureo_api_key) {
            Some(k) => if k.len() > 0 {
                Some(
                    (
                        or_default(
                            either(env.openai_base_url, env.anureo_base_url),
                            "https://api.openai.com/v1"@,
                        ),
                        k,
                        or_default(env_model, "gpt-4o-mini"@),
                    ),
                )
            } else {
                None
            },
            None => None,
        },
    }
}

/// The view of found credentials.
pub open spec fn credentials_view(c: Option<Credentials>) -> Option<(Seq<char>, Seq<char>, Seq<char>)> {
    match c {
        Some(x) => Some((x.base_url@, x.api_key@, x.model@)),
        None => None,
    }
}

fn first_present(a: &Option<String>, b: &Option<String>) -> (r: Option<String>)
    ensures
        match r {
            Some(x) => either(*a, *b) == Some(x@),
            None => either(*a, *b) is None,
        },
{
    match a {
        Some(x) => Some(x.clone()),
        None => match b {
            Some(y) => Some(y.clone()),
            None => None,
        },
    }
}

fn provider_named(ps: &Vec<ProviderEntry>, name: &String) -> (r: Option<usize>)
    ensures
        match r {
            Some(i) => i < ps@.len() && first_named(ps@, name@) == Some(ps@[i as int]),
            None => first_named(ps@, name@) is None,
        },
{
    let mut i: usize = 0;
    proof {
        assert(ps@.skip(0) =~= ps@);
    }
    while i < ps.len()
        invariant
            i <= ps@.len(),
            first_named(ps@, name@) == first_named(ps@.skip(i as int), name@),
        decreases ps@.len() - i,
    {
        proof {
            assert(ps@.skip(i as int)[0] == ps@[i as int]);
            assert(ps@.skip(i as int).drop_first() =~= ps@.skip(i + 1));
        }
        if ps[i].name == *name {
            return Some(i);
        }
        i += 1;
    }
    proof {
        assert(ps@.skip(i as int).len() == 0);
    }
    None
}

/// The credentials of the curator's model pass (see
/// [`curator_credentials`]), given the configuration when it could be read
/// and the environment.
pub fn resolve_curator_credentials(config: &Option<ProviderConfig>, env: &CredentialEnv) -> (r: Option<
    Credentials,
>)
    ensures
        credentials_view(r) == curator_credentials(*config, *env),
{
    let env_model = first_present(&env.anureo_model, &env.model);
    let chosen: Option<usize> = match config {
        Some(c) => match &c.default_provider {
            Some(n) => provider_named(&c.providers, n),
            None => if c.providers.len() > 0 {
                Some(0)
            } else {
                None
            },
        },
        None => None,
    };
    match config {
        Some(c) => {
            match chosen {
                Some(i) => {
                    let p = &c.providers[i];
                    return match &p.api_key {
                        Some(k) => {
                            if k.as_str().unicode_len() == 0 {
                                None
                            } else {
                                let base = match &p.base_url {
                                    Some(b) => b.clone(),
                                    None => String::from_str("https://api.openai.com/v1"),
                                };
                                let model = match env_model {
                                    Some(m) => m,
                                    None => match &p.model {
                                        Some(m) => m.clone(),
                                        None => String::from_str("gpt-4o-mini"),
                                    },
                                };
                                Some(Credentials { base_url: base, api_key: k.clone(), model })
                            }
                        },
                        None => None,
                    };
                },
                None => {},
            }
        },
        None => {},
    }
    let key = first_present(&env.openai_api_key, &env.anureo_api_key);
    match key {
        Some(k) => {
            if k.as_str().unicode_len() == 0 {
                None
            } else {
                let base = match first_present(&env.openai_base_url, &env.anureo_base_url) {
                    Some(b) => b,
                    None => String::from_str("https://api.openai.com/v1"),
                };
                let model = match env_model {
                    Some(m) => m,
                    None => String::from_str("gpt-4o-mini"),
                };
                Some(Credentials { base_url: base, api_key: k, model })
            }
        },
        None => None,
    }
}

/// What `agent list` prints.
pub open spec fn agent_list_text(profiles: Seq<(String, Option<String>)>) -> Seq<Seq<char>> {
    if profiles.len() == 0 {
        seq!["No agent profiles found."@]
    } else {
        seq!["Agent profiles:"@] + profiles.map_values(|p: (String, Option<String>)| agent_line(p))
    }
}

/// The lines `agent list` prints for the profiles (name, description).
pub fn agent_list_lines(profiles: &Vec<(String, Option<String>)>) -> (lines: Vec<String>)
    ensures
        strs(lines@) == agent_list_text(profiles@),
{
    let mut out: Vec<String> = Vec::new();
    if profiles.len() == 0 {
        out.push(String::from_str("No agent profiles found."));
        proof {
            assert(strs(out@) =~= agent_list_text(profiles@));
        }
        return out;
    }
    out.push(String::from_str("Agent profiles:"));
    let mut k: usize = 0;
    while k < profiles.len()
        invariant
            k <= profiles@.len(),
            profiles@.len() > 0,
            strs(out@) == seq!["Agent profiles:"@] + profiles@.take(k as int).map_values(
                |p: (String, Option<String>)| agent_line(p),
            ),
        decreases profiles@.len() - k,
    {
        let p = &profiles[k];
        let mut l = String::from_str("  • ");
        l.append(p.0.as_str());
        match &p.1 {
            Some(d) => {
                l.append(" — ");
                l.append(d.as_str());
            },
            None => {},
        }
        let ghost before = strs(out@);
        out.push(l);
        proof {
            assert(strs(out@) =~= before.push(agent_line(profiles@[k as int])));
            assert(profiles@.take(k + 1).map_values(|p: (String, Option<String>)| agent_line(p))
                =~= profiles@.take(k as int).map_values(
                |p: (String, Option<String>)| agent_line(p),
            ).push(agent_line(profiles@[k as int])));
        }
        k += 1;
    }
    proof {
        assert(profiles@.take(k as int) =~= profiles@);
    }
    out
}

/// What `mcp list` shows of a server.
#[derive(Debug, Clone)]
pub struct ServerSummary {
    pub name: String,
    pub disabled: bool,
    pub server_type: String,
    pub command: Option<String>,
    pub url: Option<String>,
}

/// The lines of one server in `mcp list`, ending with an empty line.
pub open spec fn server_lines(s: ServerSummary) -> Seq<Seq<char>> {
    seq![
        "  • "@ + s.name@ + " "@ + if s.disabled {
            "[disabled]"@
        } else {
            Seq::empty()
        },
        "    Type: "@ + s.server_type@,
    ] + match s.command {
        Some(c) => seq!["    Command: "@ + c@],
        None => Seq::empty(),
    } + match s.url {
        Some(u) => seq!["    URL: "@ + u@],
        None => Seq::empty(),
    } + seq![Seq::empty()]
}

/// The lines of the servers, in order.
pub open spec fn servers_lines(servers: Seq<ServerSummary>) -> Seq<Seq<char>>
    decreases servers.len(),
{
    if servers.len() == 0 {
        Seq::empty()
    } else {
        servers_lines(servers.drop_last()) + server_lines(servers.last())
    }
}

/// Eighty `─`.
pub open spec fn thin_rule() -> Seq<char> {
    Seq::new(80, |i: int| '─')
}

/// What `mcp list` prints.
pub open spec fn server_list_text(servers: Seq<ServerSummary>) -> Seq<Seq<char>> {
    seq!["MCP Servers:"@, thin_rule()] + if servers.len() == 0 {
        seq!["No MCP servers configured."@]
    } else {
        servers_lines(servers)
    }
}

/// The lines `mcp list` prints for the servers.
pub fn server_list_lines(servers: &Vec<ServerSummary>) -> (lines: Vec<String>)
    ensures
        strs(lines@) == server_list_text(servers@),
{
    let mut out: Vec<String> = Vec::new();
    out.push(String::from_str("MCP Servers:"));
    let mut rule = String::new();
    let mut i: usize = 0;
    while i < 80
        invariant
            i <= 80,
            rule@ == Seq::new(i as nat, |j: int| '─'),
        decreases 80 - i,
    {
        push_char(&mut rule, '─');
        i += 1;
        proof {
            assert(rule@ =~= Seq::new(i as nat, |j: int| '─'));
        }
    }
    out.push(rule);
    let ghost head = strs(out@);
    proof {
        assert(head =~= seq!["MCP Servers:"@, thin_rule()]);
    }
    if servers.len() == 0 {
        out.push(String::from_str("No MCP servers configured."));
        proof {
            assert(strs(out@) =~= server_list_text(servers@));
        }
        return out;
    }
    let mut k: usize = 0;
    proof {
        assert(servers@.take(0) =~= Seq::<ServerSummary>::empty());
        assert(head + servers_lines(servers@.take(0)) =~= head);
    }
    while k < servers.len()
        invariant
            k <= servers@.len(),
            strs(out@) == head + servers_lines(servers@.take(k as int)),
        decreases servers@.len() - k,
    {
        let s = &servers[k];
        let ghost before = strs(out@);
        let mut first = String::from_str("  • ");
        first.append(s.name.as_str());
        first.append(" ");
        if s.disabled {
            first.append("[disabled]");
        }
        out.push(first);
        let mut t = String::from_str("    Type: ");
        t.append(s.server_type.as_str());
        out.push(t);
        match &s.command {
            Some(c) => {
                let mut l = String::from_str("    Command: ");
                l.append(c.as_str());
                out.push(l);
            },
            None => {},
        }
        match &s.url {
            Some(u) => {
                let mut l = String::from_str("    URL: ");
                l.append(u.as_str());
                out.push(l);
            },
            None => {},
        }
        out.push(String::new());
        proof {
            assert(servers@.take(k + 1).drop_last() =~= servers@.take(k as int));
            assert(servers@.take(k + 1).last() == servers@[k as int]);
            assert(strs(out@) =~= before + server_lines(servers@[k as int]));
        }
        k += 1;
    }
    proof {
        assert(servers@.take(k as int) =~= servers@);
    }
    out
}

/// How long ago something happened, as the curator board shows it: `—`
/// without a time, `?` for a time that could not be read, else the whole
/// seconds (negative ones as zero) in seconds below a minute, minutes
/// below an hour, hours below a day, and days.
pub open spec fn age_text(elapsed: Option<Option<i64>>) -> Seq<char> {
    match elapsed {
        None => "—"@,
        Some(None) => "?"@,
        Some(Some(s)) => {
            let d: int = if s < 0 {
                0
            } else {
                s as int
            };
            if d < 60 {
                decimal(d) + "s"@
            } else if d < 3600 {
                decimal(d / 60) + "m"@
            } else if d < 86400 {
                decimal(d / 3600) + "h"@
            } else {
                decimal(d / 86400) + "d"@
            }
        },
    }
}

/// The age text for `elapsed`: `None` when there is no time, `Some(None)`
/// when it could not be read, else the seconds since it.
pub fn bucket_age(elapsed: Option<Option<i64>>) -> (r: String)
    ensures
        r@ == age_text(elapsed),
{
    match elapsed {
        None => String::from_str("—"),
        Some(None) => String::from_str("?"),
        Some(Some(s)) => {
            let d: i64 = if s < 0 {
                0
            } else {
                s
            };
            let (n, unit): (i64, &str) = if d < 60 {
                (d, "s")
            } else if d < 3600 {
                (d / 60, "m")
            } else if d < 86400 {
                (d / 3600, "h")
            } else {
                (d / 86400, "d")
            };
            let mut r = i64_to_decimal(n);
            r.append(unit);
            r
        },
    }
}

/// How many skills are active (and not pinned), stale, archived and
/// pinned, given each skill's stage and pin.
pub open spec fn lifecycle_counts(skills: Seq<(Lifecycle, bool)>) -> (nat, nat, nat, nat)
    decreases skills.len(),
{
    if skills.len() == 0 {
        (0, 0, 0, 0)
    } else {
        let (a, s, r, p) = lifecycle_counts(skills.drop_last());
        let (l, pinned) = skills.last();
        (
            a + if l == Lifecycle::Active && !pinned {
                1nat
            } else {
                0nat
            },
            s + if l == Lifecycle::Stale {
                1nat
            } else {
                0nat
            },
            r + if l == Lifecycle::Archived {
                1nat
            } else {
                0nat
            },
            p + if pinned {
                1nat
            } else {
                0nat
            },
        )
    }
}

proof fn lemma_counts_bounded(skills: Seq<(Lifecycle, bool)>)
    ensures
        lifecycle_counts(skills).0 + lifecycle_counts(skills).1 + lifecycle_counts(skills).2
            <= skills.len(),
        lifecycle_counts(skills).0 <= skills.len(),
        lifecycle_counts(skills).1 <= skills.len(),
        lifecycle_counts(skills).2 <= skills.len(),
        lifecycle_counts(skills).3 <= skills.len(),
    decreases skills.len(),
{
    if skills.len() > 0 {
        lemma_counts_bounded(skills.drop_last());
    }
}

/// The counts of the curator's status board: active (not pinned), stale,
/// archived, pinned, and their sum.
pub fn curator_counts(skills: &Vec<(Lifecycle, bool)>) -> (r: (usize, usize, usize, usize, usize))
    requires
        skills@.len() <= usize::MAX / 2,
    ensures
        r.0 == lifecycle_counts(skills@).0,
        r.1 == lifecycle_counts(skills@).1,
        r.2 == lifecycle_counts(skills@).2,
        r.3 == lifecycle_counts(skills@).3,
        r.4 == r.0 + r.1 + r.2 + r.3,
{
    let mut a: usize = 0;
    let mut s: usize = 0;
    let mut r: usize = 0;
    let mut p: usize = 0;
    let mut k: usize = 0;
    while k < skills.len()
        invariant
            k <= skills@.len(),
            (a as nat, s as nat, r as nat, p as nat) == lifecycle_counts(skills@.take(k as int)),
        decreases skills@.len() - k,
    {
        proof {
            assert(skills@.take(k + 1).drop_last() =~= skills@.take(k as int));
            assert(skills@.take(k + 1).last() == skills@[k as int]);
            lemma_counts_bounded(skills@.take(k + 1));
        }
        let (l, pinned) = skills[k];
        if l == Lifecycle::Active && !pinned {
            a += 1;
        }
        if l == Lifecycle::Stale {
            s += 1;
        }
        if l == Lifecycle::Archived {
            r += 1;
        }
        if pinned {
            p += 1;
        }
        k += 1;
    }
    proof {
        assert(skills@.take(k as int) =~= skills@);
        lemma_counts_bounded(skills@);
    }
    let total: usize = a + s + r + p;
    (a, s, r, p, total)
}

/// What the curator's status board reads of a skill's usage.
#[derive(Debug, Clone)]
pub struct UsageStat {
    pub name: String,
    pub use_count: i64,
    pub view_count: i64,
    pub last_used_at: Option<String>,
}

/// The leaderboards of the curator's status board, as positions in the
/// usage list, five at most each.
#[derive(Debug, Clone)]
pub struct Leaderboards {
    /// The skills used at all, most used first.
    pub most_active: Vec<usize>,
    /// The skills with a last use, the longest unused first (times compare
    /// as text).
    pub least_recently_active: Vec<usize>,
    /// The skills used at all, least used first.
    pub least_active: Vec<usize>,
}

/// Which skills have been used at all.
pub open spec fn used_at_all(stats: Seq<UsageStat>) -> Seq<bool> {
    stats.map_values(|u: UsageStat| u.use_count > 0)
}

/// Which skills have a last use.
pub open spec fn has_last_use(stats: Seq<UsageStat>) -> Seq<bool> {
    stats.map_values(|u: UsageStat| u.last_used_at is Some)
}

/// Keys that put the most used first.
pub open spec fn most_uses_first(stats: Seq<UsageStat>) -> Seq<Seq<int>> {
    stats.map_values(|u: UsageStat| seq![0 - u.use_count as int])
}

/// Keys that put the least used first.
pub open spec fn fewest_uses_first(stats: Seq<UsageStat>) -> Seq<Seq<int>> {
    stats.map_values(|u: UsageStat| seq![u.use_count as int])
}

/// Keys that put the earliest last use first.
pub open spec fn earliest_use_first(stats: Seq<UsageStat>) -> Seq<Seq<int>> {
    stats.map_values(
        |u: UsageStat|
            match u.last_used_at {
                Some(t) => text_key(t@),
                None => Seq::empty(),
            },
    )
}

/// The curator's leaderboards for the usage list: each is the first five
/// of the skills it shows, in its order, skills that tie keeping their
/// order in the list.
pub fn curator_leaderboards(stats: &Vec<UsageStat>) -> (b: Leaderboards)
    ensures
        is_ranking(b.most_active@, most_uses_first(stats@), used_at_all(stats@), 5),
        is_ranking(
            b.least_recently_active@,
            earliest_use_first(stats@),
            has_last_use(stats@),
            5,
        ),
        is_ranking(b.least_active@, fewest_uses_first(stats@), used_at_all(stats@), 5),
{
    let mut desc: Vec<Vec<i128>> = Vec::new();
    let mut asc: Vec<Vec<i128>> = Vec::new();
    let mut dates: Vec<Vec<i128>> = Vec::new();
    let mut used: Vec<bool> = Vec::new();
    let mut dated: Vec<bool> = Vec::new();
    let mut k: usize = 0;
    while k < stats.len()
        invariant
            k <= stats@.len(),
            desc@.len() == k,
            asc@.len() == k,
            dates@.len() == k,
            used@.len() == k,
            dated@.len() == k,
            forall|j: int| 0 <= j < k ==> ints(#[trigger] desc@[j]@) == most_uses_first(stats@)[j],
            forall|j: int| 0 <= j < k ==> ints(#[trigger] asc@[j]@) == fewest_uses_first(stats@)[j],
            forall|j: int|
                0 <= j < k ==> ints(#[trigger] dates@[j]@) == earliest_use_first(stats@)[j],
            forall|j: int| 0 <= j < k ==> #[trigger] used@[j] == used_at_all(stats@)[j],
            forall|j: int| 0 <= j < k ==> #[trigger] dated@[j] == has_last_use(stats@)[j],
        decreases stats@.len() - k,
    {
        let u = &stats[k];
        let c: i128 = u.use_count as i128;
        let m: i128 = -c;
        let d = vec![m];
        let a = vec![c];
        proof {
            assert(ints(d@) =~= seq![0 - u.use_count as int]);
            assert(ints(a@) =~= seq![u.use_count as int]);
        }
        desc.push(d);
        asc.push(a);
        match &u.last_used_at {
            Some(t) => {
                dates.push(key_of_text(t.as_str()));
                dated.push(true);
            },
            None => {
                let e: Vec<i128> = Vec::new();
                proof {
                    assert(ints(e@) =~= Seq::<int>::empty());
                }
                dates.push(e);
                dated.push(false);
            },
        }
        used.push(u.use_count > 0);
        k += 1;
    }
    proof {
        assert(key_view(desc@) =~= most_uses_first(stats@));
        assert(key_view(asc@) =~= fewest_uses_first(stats@));
        assert(key_view(dates@) =~= earliest_use_first(stats@));
        assert(used@ =~= used_at_all(stats@));
        assert(dated@ =~= has_last_use(stats@));
    }
    Leaderboards {
        most_active: rank(&desc, &used, 5),
        least_recently_active: rank(&dates, &dated, 5),
        least_active: rank(&asc, &used, 5),
    }
}

/// `true` or `false`, as `bool`'s `Display` prints it.
pub open spec fn bool_text(b: bool) -> Seq<char> {
    if b {
        "true"@
    } else {
        "false"@
    }
}

/// What `curator prune` prints after archiving the skills idle for `days`
/// days.
pub open spec fn prune_text(days: u64, dry_run: bool, archived: Seq<String>) -> Seq<Seq<char>> {
    seq![
        "Curator Prune (days="@ + decimal(days as int) + ", dry_run="@ + bool_text(dry_run) + "):"@,
        rule_line(),
    ] + counted_block("Archived: "@, "•"@, archived)
}

/// The lines `curator prune` prints.
pub fn prune_lines(days: u64, dry_run: bool, archived: &Vec<String>) -> (lines: Vec<String>)
    ensures
        strs(lines@) == prune_text(days, dry_run, archived@),
{
    let mut out: Vec<String> = Vec::new();
    let mut h = String::from_str("Curator Prune (days=");
    h.append(u64_to_decimal(days).as_str());
    h.append(", dry_run=");
    h.append(
        if dry_run {
            "true"
        } else {
            "false"
        },
    );
    h.append("):");
    out.push(h);
    out.push(rule_text());
    proof {
        assert(strs(out@) =~= seq![
            "Curator Prune (days="@ + decimal(days as int) + ", dry_run="@ + bool_text(dry_run)
                + "):"@,
            rule_line(),
        ]);
    }
    push_counted(&mut out, "Archived: ", "•", archived);
    out
}

/// The lines of the skills a trigger backfill failed on.
pub open spec fn failure_lines(failed: Seq<(String, String)>) -> Seq<Seq<char>> {
    failed.map_values(|f: (String, String)| "  ✗ "@ + f.0@ + " — "@ + f.1@)
}

/// What `curator backfill-triggers` prints of its outcome.
pub open spec fn backfill_text(
    dry_run: bool,
    updated: Seq<String>,
    no_triggers: Seq<String>,
    failed: Seq<(String, String)>,
) -> Seq<Seq<char>> {
    seq![
        "Backfill Triggers"@ + if dry_run {
            " (dry-run)"@
        } else {
            Seq::empty()
        } + ":"@,
        rule_line(),
    ] + counted_block("Updated: "@, "✓"@, updated) + if no_triggers.len() > 0 {
        counted_block("No triggers inferred: "@, "?"@, no_triggers)
    } else {
        Seq::empty()
    } + if failed.len() > 0 {
        seq!["Failed: "@ + decimal(failed.len() as int)] + failure_lines(failed)
    } else {
        Seq::empty()
    }
}

/// The lines `curator backfill-triggers` prints.
pub fn backfill_lines(
    dry_run: bool,
    updated: &Vec<String>,
    no_triggers: &Vec<String>,
    failed: &Vec<(String, String)>,
) -> (lines: Vec<String>)
    ensures
        strs(lines@) == backfill_text(dry_run, updated@, no_triggers@, failed@),
{
    let mut out: Vec<String> = Vec::new();
    let mut h = String::from_str("Backfill Triggers");
    if dry_run {
        h.append(" (dry-run)");
    }
    h.append(":");
    out.push(h);
    out.push(rule_text());
    proof {
        assert(strs(out@) =~= seq![
            "Backfill Triggers"@ + if dry_run {
                " (dry-run)"@
            } else {
                Seq::empty()
            } + ":"@,
            rule_line(),
        ]);
    }
    push_counted(&mut out, "Updated: ", "✓", updated);
    let ghost mid = strs(out@);
    if no_triggers.len() > 0 {
        push_counted(&mut out, "No triggers inferred: ", "?", no_triggers);
    } else {
        proof {
            assert(strs(out@) =~= mid + Seq::<Seq<char>>::empty());
        }
    }
    let ghost before = strs(out@);
    if failed.len() > 0 {
        let mut f = String::from_str("Failed: ");
        f.append(usize_to_decimal(failed.len()).as_str());
        out.push(f);
        let ghost head = strs(out@);
        let mut k: usize = 0;
        proof {
            assert(failure_lines(failed@.take(0)) =~= Seq::<Seq<char>>::empty());
            assert(head =~= head + failure_lines(failed@.take(0)));
        }
        while k < failed.len()
            invariant
                k <= failed@.len(),
                strs(out@) == head + failure_lines(failed@.take(k as int)),
            decreases failed@.len() - k,
        {
            let mut l = String::from_str("  ✗ ");
            l.append(failed[k].0.as_str());
            l.append(" — ");
            l.append(failed[k].1.as_str());
            let ghost b = strs(out@);
            out.push(l);
            proof {
                assert(strs(out@) =~= b.push(l@));
                assert(failure_lines(failed@.take(k + 1)) =~= failure_lines(failed@.take(k as int)).push(
                    l@,
                ));
            }
            k += 1;
        }
        proof {
            assert(failed@.take(k as int) =~= failed@);
            assert(strs(out@) =~= before + (seq!["Failed: "@ + decimal(failed@.len() as int)]
                + failure_lines(failed@)));
        }
    } else {
        proof {
            assert(strs(out@) =~= before + Seq::<Seq<char>>::empty());
        }
    }
    proof {
        assert(strs(out@) =~= backfill_text(dry_run, updated@, no_triggers@, failed@));
    }
    out
}

/// What `curator list-archived` prints for the archived skills.
pub open spec fn archived_list_text(names: Seq<String>) -> Seq<Seq<char>> {
    if names.len() == 0 {
        seq!["No archived skills. Use `anureo curator archive <name>` to archive one."@]
    } else {
        seq![
            "Archived skills ("@ + decimal(names.len() as int) + " total):"@,
            Seq::new(60, |i: int| '='),
        ] + strs(names).map_values(|n: Seq<char>| "  .archive/"@ + n)
    }
}

/// The lines `curator list-archived` prints.
pub fn archived_list_lines(names: &Vec<String>) -> (lines: Vec<String>)
    ensures
        strs(lines@) == archived_list_text(names@),
{
    let mut out: Vec<String> = Vec::new();
    if names.len() == 0 {
        out.push(
            String::from_str(
                "No archived skills. Use `anureo curator archive <name>` to archive one.",
            ),
        );
        proof {
            assert(strs(out@) =~= archived_list_text(names@));
        }
        return out;
    }
    let mut h = String::from_str("Archived skills (");
    h.append(usize_to_decimal(names.len()).as_str());
    h.append(" total):");
    out.push(h);
    out.push(repeat_char('=', 60));
    let ghost head = strs(out@);
    let ghost f = |n: Seq<char>| "  .archive/"@ + n;
    let mut k: usize = 0;
    proof {
        assert(strs(names@).take(0).map_values(f) =~= Seq::<Seq<char>>::empty());
        assert(head =~= head + strs(names@).take(0).map_values(f));
    }
    while k < names.len()
        invariant
            k <= names@.len(),
            f == (|n: Seq<char>| "  .archive/"@ + n),
            strs(out@) == head + strs(names@).take(k as int).map_values(f),
        decreases names@.len() - k,
    {
        let mut l = String::from_str("  .archive/");
        l.append(names[k].as_str());
        let ghost b = strs(out@);
        out.push(l);
        proof {
            assert(strs(out@) =~= b.push(l@));
            assert(strs(names@).take(k + 1).map_values(f) =~= strs(names@).take(
                k as int,
            ).map_values(f).push(f(names@[k as int]@)));
        }
        k += 1;
    }
    proof {
        assert(strs(names@).take(k as int) =~= strs(names@));
        assert(strs(out@) =~= archived_list_text(names@));
    }
    out
}

/// What `curator rollback` says when no snapshot was named and none exists.
pub open spec fn no_snapshot_error() -> Seq<char> {
    "no snapshots available; run `anureo curator backup` first"@
}

/// The snapshot `curator rollback` restores: the one named, else the
/// latest one; an error when neither exists.
pub fn rollback_target(named: Option<String>, latest: Option<String>) -> (r: Result<String, String>)
    ensures
        match named {
            Some(n) => r == Ok::<String, String>(n),
            None => match latest {
                Some(l) => r == Ok::<String, String>(l),
                None => r matches Err(e) && e@ == no_snapshot_error(),
            },
        },
{
    match named {
        Some(n) => Ok(n),
        None => match latest {
            Some(l) => Ok(l),
            None => Err(String::from_str("no snapshots available; run `anureo curator backup` first")),
        },
    }
}

/// Why `curator pin` or `curator unpin` refuses a skill that the agent did
/// not create.
pub open spec fn pin_refusal(skill: Seq<char>, pin: bool) -> Seq<char> {
    if pin {
        "Cannot pin '"@ + skill
            + "': only agent-created or curated skills can be pinned. Bundled and hub-installed skills are read-only."@
    } else {
        "Cannot unpin '"@ + skill + "': only agent-created or curated skills may be pinned."@
    }
}

/// Whether `curator pin` (or `unpin`) may change `skill`: only skills the
/// agent created (or curated); otherwise the message it refuses with.
pub fn check_pin(skill: &str, agent_created: bool, pin: bool) -> (r: Result<(), String>)
    ensures
        agent_created <==> r is Ok,
        r matches Err(e) ==> e@ == pin_refusal(skill@, pin),
{
    if agent_created {
        return Ok(());
    }
    let mut m = String::from_str(
        if pin {
            "Cannot pin '"
        } else {
            "Cannot unpin '"
        },
    );
    m.append(skill);
    m.append(
        if pin {
            "': only agent-created or curated skills can be pinned. Bundled and hub-installed skills are read-only."
        } else {
            "': only agent-created or curated skills may be pinned."
        },
    );
    Err(m)
}

/// A leaderboard of the curator's status board.
#[derive(Debug, Clone, Copy, PartialEq, Eq, Structural)]
pub enum Board {
    MostActive,
    LeastRecentlyActive,
    LeastActive,
}

/// The heading of a leaderboard.
pub open spec fn board_title(board: Board) -> Seq<char> {
    match board {
        Board::MostActive => "Most-active skills (by uses):"@,
        Board::LeastRecentlyActive => "Least-recently-active skills:"@,
        Board::LeastActive => "Least-active skills (still used):"@,
    }
}

/// The line of the skill `u` at `place` (from 1) of a leaderboard, with
/// the age of its last use.
pub open spec fn board_line(board: Board, place: int, u: UsageStat, age: Option<Option<i64>>) -> Seq<
    char,
> {
    "  "@ + decimal(place) + ". "@ + u.name@ + " — "@ + match board {
        Board::MostActive => decimal(u.use_count as int) + " uses, "@ + decimal(u.view_count as int)
            + " views, last used "@ + age_text(age) + " ago"@,
        Board::LeastRecentlyActive => "last used "@ + age_text(age) + " ago"@,
        Board::LeastActive => decimal(u.use_count as int) + " uses, "@ + decimal(
            u.view_count as int,
        ) + " views"@,
    }
}

/// The lines of a leaderboard listing `order`: nothing for an empty one,
/// else an empty line, the heading and a line for each skill.
pub open spec fn board_text(
    board: Board,
    order: Seq<usize>,
    stats: Seq<UsageStat>,
    ages: Seq<Option<Option<i64>>>,
) -> Seq<Seq<char>> {
    if order.len() == 0 {
        Seq::empty()
    } else {
        seq![Seq::empty(), board_title(board)] + Seq::new(
            order.len(),
            |i: int| board_line(board, i + 1, stats[order[i] as int], ages[order[i] as int]),
        )
    }
}

/// The three leaderboards, as the status board prints them.
pub open spec fn leaderboards_text(
    b: Leaderboards,
    stats: Seq<UsageStat>,
    ages: Seq<Option<Option<i64>>>,
) -> Seq<Seq<char>> {
    board_text(Board::MostActive, b.most_active@, stats, ages) + board_text(
        Board::LeastRecentlyActive,
        b.least_recently_active@,
        stats,
        ages,
    ) + board_text(Board::LeastActive, b.least_active@, stats, ages)
}

/// Whether every position of `order` is one of `n` skills.
pub open spec fn positions_below(order: Seq<usize>, n: nat) -> bool {
    forall|i: int| 0 <= i < order.len() ==> order[i] < n
}

fn push_board(
    out: &mut Vec<String>,
    board: Board,
    order: &Vec<usize>,
    stats: &Vec<UsageStat>,
    ages: &Vec<Option<Option<i64>>>,
)
    requires
        ages@.len() == stats@.len(),
        positions_below(order@, stats@.len()),
        order@.len() < usize::MAX,
    ensures
        strs(final(out)@) == strs(old(out)@) + board_text(board, order@, stats@, ages@),
{
    if order.len() == 0 {
        proof {
            assert(strs(out@) =~= strs(old(out)@) + board_text(board, order@, stats@, ages@));
        }
        return;
    }
    let ghost start = strs(out@);
    out.push(String::new());
    out.push(
        match board {
            Board::MostActive => String::from_str("Most-active skills (by uses):"),
            Board::LeastRecentlyActive => String::from_str("Least-recently-active skills:"),
            Board::LeastActive => String::from_str("Least-active skills (still used):"),
        },
    );
    let ghost head = strs(out@);
    proof {
        assert(head =~= start + seq![Seq::empty(), board_title(board)]);
    }
    let mut i: usize = 0;
    while i < order.len()
        invariant
            i <= order@.len(),
            order@.len() < usize::MAX,
            ages@.len() == stats@.len(),
            positions_below(order@, stats@.len()),
            strs(out@) == head + Seq::new(
                i as nat,
                |j: int| board_line(board, j + 1, stats@[order@[j] as int], ages@[order@[j] as int]),
            ),
        decreases order@.len() - i,
    {
        let p = order[i];
        let u = &stats[p];
        let mut l = String::from_str("  ");
        l.append(usize_to_decimal(i + 1).as_str());
        l.append(". ");
        l.append(u.name.as_str());
        l.append(" — ");
        match board {
            Board::MostActive => {
                l.append(i64_to_decimal(u.use_count).as_str());
                l.append(" uses, ");
                l.append(i64_to_decimal(u.view_count).as_str());
                l.append(" views, last used ");
                l.append(bucket_age(ages[p]).as_str());
                l.append(" ago");
            },
            Board::LeastRecentlyActive => {
                l.append("last used ");
                l.append(bucket_age(ages[p]).as_str());
                l.append(" ago");
            },
            Board::LeastActive => {
                l.append(i64_to_decimal(u.use_count).as_str());
                l.append(" uses, ");
                l.append(i64_to_decimal(u.view_count).as_str());
                l.append(" views");
            },
        }
        let ghost before = strs(out@);
        proof {
            assert(l@ =~= board_line(board, i + 1, stats@[p as int], ages@[p as int]));
        }
        out.push(l);
        proof {
            assert(strs(out@) =~= before.push(
                board_line(board, i + 1, stats@[p as int], ages@[p as int]),
            ));
        }
        i += 1;
        proof {
            assert(strs(out@) =~= head + Seq::new(
                i as nat,
                |j: int| board_line(board, j + 1, stats@[order@[j] as int], ages@[order@[j] as int]),
            ));
        }
    }
    proof {
        assert(strs(out@) =~= start + board_text(board, order@, stats@, ages@));
    }
}

/// The lines of the leaderboards `b` of `stats`, given the age of each
/// skill's last use as `bucket_age` reads it.
pub fn leaderboard_lines(
    b: &Leaderboards,
    stats: &Vec<UsageStat>,
    ages: &Vec<Option<Option<i64>>>,
) -> (lines: Vec<String>)
    requires
        ages@.len() == stats@.len(),
        positions_below(b.most_active@, stats@.len()),
        positions_below(b.least_recently_active@, stats@.len()),
        positions_below(b.least_active@, stats@.len()),
        b.most_active@.len() < usize::MAX,
        b.least_recently_active@.len() < usize::MAX,
        b.least_active@.len() < usize::MAX,
    ensures
        strs(lines@) == leaderboards_text(*b, stats@, ages@),
{
    let mut out: Vec<String> = Vec::new();
    push_board(&mut out, Board::MostActive, &b.most_active, stats, ages);
    push_board(&mut out, Board::LeastRecentlyActive, &b.least_recently_active, stats, ages);
    push_board(&mut out, Board::LeastActive, &b.least_active, stats, ages);
    proof {
        assert(strs(Seq::<String>::empty()) =~= Seq::<Seq<char>>::empty());
        assert(strs(out@) =~= leaderboards_text(*b, stats@, ages@));
    }
    out
}

/// The millisecond timestamp of an update time given as whole seconds
/// since the epoch and the nanoseconds past them.
pub open spec fn stamp_millis(t: (i64, u32)) -> int {
    t.0 * 1000 + t.1 / 1_000_000
}

/// Whether a session search keeps a session last updated at `t`: a lower
/// bound (in milliseconds) asks for a time at or after it, an upper bound
/// for one at or before it; a session without a time fails either.
pub open spec fn search_keeps(t: Option<(i64, u32)>, since: Option<i64>, until: Option<i64>) -> bool {
    &&& match since {
        Some(lo) => t is Some && stamp_millis(t->0) >= lo,
        None => true,
    }
    &&& match until {
        Some(hi) => t is Some && stamp_millis(t->0) <= hi,
        None => true,
    }
}

/// Which sessions a search keeps.
pub open spec fn search_kept(stamps: Seq<Option<(i64, u32)>>, since: Option<i64>, until: Option<i64>) -> Seq<
    bool,
> {
    stamps.map_values(|t: Option<(i64, u32)>| search_keeps(t, since, until))
}

/// The order key of an update time: sessions without one come first, the
/// others by time.
pub open spec fn stamp_key(t: Option<(i64, u32)>) -> Seq<int> {
    match t {
        Some(v) => seq![v.0 as int, v.1 as int],
        None => Seq::empty(),
    }
}

/// The keys a search orders by: the update times when asked to order,
/// none (so the order found stays) otherwise.
pub open spec fn search_keys(stamps: Seq<Option<(i64, u32)>>, by_time: bool) -> Seq<Seq<int>> {
    stamps.map_values(
        |t: Option<(i64, u32)>|
            if by_time {
                stamp_key(t)
            } else {
                Seq::empty()
            },
    )
}

fn keeps(t: Option<(i64, u32)>, since: Option<i64>, until: Option<i64>) -> (b: bool)
    ensures
        b == search_keeps(t, since, until),
{
    let ms: Option<i128> = match t {
        Some(v) => Some((v.0 as i128) * 1000 + (v.1 / 1_000_000) as i128),
        None => None,
    };
    let lo_ok = match since {
        Some(lo) => match ms {
            Some(m) => m >= lo as i128,
            None => false,
        },
        None => true,
    };
    let hi_ok = match until {
        Some(hi) => match ms {
            Some(m) => m <= hi as i128,
            None => false,
        },
        None => true,
    };
    lo_ok && hi_ok
}

/// The sessions a keyword search shows, by position among those found
/// (with their update times): those within the bounds, oldest first when
/// `reverse` is set (sessions without a time first), else in the order
/// found.
pub fn session_search_order(
    stamps: &Vec<Option<(i64, u32)>>,
    since_ms: Option<i64>,
    until_ms: Option<i64>,
    reverse: bool,
) -> (r: Vec<usize>)
    ensures
        is_ranking(
            r@,
            search_keys(stamps@, reverse),
            search_kept(stamps@, since_ms, until_ms),
            stamps@.len(),
        ),
{
    let mut keys: Vec<Vec<i128>> = Vec::new();
    let mut kept: Vec<bool> = Vec::new();
    let mut k: usize = 0;
    while k < stamps.len()
        invariant
            k <= stamps@.len(),
            keys@.len() == k,
            kept@.len() == k,
            forall|j: int|
                0 <= j < k ==> ints(#[trigger] keys@[j]@) == search_keys(stamps@, reverse)[j],
            forall|j: int|
                0 <= j < k ==> #[trigger] kept@[j] == search_kept(stamps@, since_ms, until_ms)[j],
        decreases stamps@.len() - k,
    {
        let t = stamps[k];
        let mut key: Vec<i128> = Vec::new();
        if reverse {
            match t {
                Some(v) => {
                    key.push(v.0 as i128);
                    key.push(v.1 as i128);
                },
                None => {},
            }
        }
        proof {
            assert(ints(key@) =~= search_keys(stamps@, reverse)[k as int]);
        }
        keys.push(key);
        kept.push(keeps(t, since_ms, until_ms));
        k += 1;
    }
    proof {
        assert(key_view(keys@) =~= search_keys(stamps@, reverse));
        assert(kept@ =~= search_kept(stamps@, since_ms, until_ms));
    }
    rank(&keys, &kept, stamps.len())
}

/// How `session list` shows its sessions.
#[derive(Debug, Clone)]
pub struct SessionListPlan {
    /// How many sessions to list.
    pub limit: usize,
    /// The output format asked for, if any.
    pub format: Option<String>,
    /// Whether to show the list in a pager.
    pub use_pager: bool,
}

/// How `session list` shows its sessions: the limit and format asked for,
/// else the configured ones (50 sessions when neither gives a limit), and a
/// pager for plain output to a terminal unless JSON, a format or no pager
/// was asked for.
pub fn session_list_plan(
    limit: Option<usize>,
    default_limit: Option<usize>,
    format: Option<String>,
    default_format: Option<String>,
    json: bool,
    no_pager: bool,
    stdout_is_tty: bool,
) -> (p: SessionListPlan)
    ensures
        p.limit == match limit {
            Some(l) => l,
            None => match default_limit {
                Some(d) => d,
                None => 50,
            },
        },
        p.format == match format {
            Some(f) => Some(f),
            None => default_format,
        },
        p.use_pager == (!json && !no_pager && p.format is None && stdout_is_tty),
{
    let l = match limit {
        Some(l) => l,
        None => match default_limit {
            Some(d) => d,
            None => 50,
        },
    };
    let f = match format {
        Some(f) => Some(f),
        None => default_format,
    };
    let pager = !json && !no_pager && f.is_none() && stdout_is_tty;
    SessionListPlan { limit: l, format: f, use_pager: pager }
}

/// Whether a prompt's answer is yes: trimmed, it is `y` or `Y`.
pub open spec fn is_yes(input: Seq<char>) -> bool {
    trim(input) == seq!['y'] || trim(input) == seq!['Y']
}

/// Whether the answer to a `[y/N]` prompt accepts.
pub fn confirmed(input: &str) -> (b: bool)
    ensures
        b == is_yes(input@),
{
    let cs = chars_of(input);
    let n = cs.len();
    let e = trim_end_len(cs.as_slice(), n);
    let front = copy_range(cs.as_slice(), 0, e);
    let st = trim_start_from(front.as_slice(), 0);
    proof {
        assert(cs@.take(n as int) =~= cs@);
        assert(front@ =~= cs@.take(e as int));
        assert(front@.skip(0) =~= front@);
        assert(trim_end(input@) == front@);
        assert(trim(input@) == front@.skip(st as int));
    }
    let len = front.len() - st;
    if len != 1 {
        proof {
            assert(trim(input@).len() == len);
        }
        return false;
    }
    let c = front[st];
    proof {
        assert(trim(input@) =~= seq![c]);
        if trim(input@) == seq!['y'] {
            assert(seq![c][0] == seq!['y'][0]);
        }
        if trim(input@) == seq!['Y'] {
            assert(seq![c][0] == seq!['Y'][0]);
        }
    }
    c == 'y' || c == 'Y'
}

/// A memory file.
#[derive(Debug, Clone, Copy, PartialEq, Eq, Structural)]
pub enum MemoryFile {
    User,
    Project,
}

/// The memory file a name selects, compared in lowercase: `user` or
/// `user.md`; `project`, `project.md`, `memory` or `memory.md`.
pub open spec fn memory_file_of(name_lower: Seq<char>) -> Option<MemoryFile> {
    if name_lower == "user"@ || name_lower == "user.md"@ {
        Some(MemoryFile::User)
    } else if name_lower == "project"@ || name_lower == "project.md"@ || name_lower == "memory"@
        || name_lower == "memory.md"@ {
        Some(MemoryFile::Project)
    } else {
        None
    }
}

/// Whether two strings are equal.
fn same_text(a: &str, b: &str) -> (r: bool)
    ensures
        r == (a@ == b@),
{
    let x = a.to_owned();
    let y = b.to_owned();
    x == y
}

/// The memory file `memory edit` works on, or the message for a name it
/// does not know.
pub fn memory_file(name: &str) -> (r: Result<MemoryFile, String>)
    ensures
        match memory_file_of(lowercase(name@)) {
            Some(f) => r == Ok::<MemoryFile, String>(f),
            None => r matches Err(m) && m@ == "Unknown memory file: "@ + name@
                + ". Use USER or PROJECT (or MEMORY)."@,
        },
{
    let lower = str_to_lowercase(name);
    let l = lower.as_str();
    if same_text(l, "user") || same_text(l, "user.md") {
        Ok(MemoryFile::User)
    } else if same_text(l, "project") || same_text(l, "project.md") || same_text(l, "memory")
        || same_text(l, "memory.md") {
        Ok(MemoryFile::Project)
    } else {
        let mut m = String::from_str("Unknown memory file: ");
        m.append(name);
        m.append(". Use USER or PROJECT (or MEMORY).");
        Err(m)
    }
}

/// `c` in ASCII lowercase.
pub open spec fn ascii_lower(c: char) -> char {
    if 'A' <= c && c <= 'Z' {
        ((c as u32) + 32) as char
    } else {
        c
    }
}

/// Whether `s` reads `json` when ASCII case is ignored.
pub open spec fn is_json_word(s: Seq<char>) -> bool {
    s.len() == 4 && ascii_lower(s[0]) == 'j' && ascii_lower(s[1]) == 's' && ascii_lower(s[2]) == 'o'
        && ascii_lower(s[3]) == 'n'
}

/// Whether `c` is `lower` in either ASCII case.
fn is_letter(c: char, lower: char, upper: char) -> (b: bool)
    requires
        'a' <= lower <= 'z',
        upper as u32 == lower as u32 - 32,
    ensures
        b == (ascii_lower(c) == lower),
{
    c == lower || c == upper
}

/// Whether `a` and `b` are the same character once ASCII case is ignored:
/// equal, or the upper- and lower-case forms of one ASCII letter.
pub open spec fn same_char_ignoring_ascii_case(a: char, b: char) -> bool {
    ||| a == b
    ||| 'A' <= a <= 'Z' && (b as u32) == (a as u32) + 32
    ||| 'A' <= b <= 'Z' && (a as u32) == (b as u32) + 32
}

/// Whether `s` and `t` are equal once ASCII case is ignored (as
/// `str::eq_ignore_ascii_case`): the same length, and the same character
/// at each place up to ASCII case.
pub open spec fn eq_ignore_ascii_case(s: Seq<char>, t: Seq<char>) -> bool {
    s.len() == t.len() && forall|i: int|
        0 <= i < s.len() ==> #[trigger] same_char_ignoring_ascii_case(s[i], t[i])
}

/// Reading `json` with ASCII case ignored is the same as being equal to
/// `"json"` up to ASCII case: `json`, `Json`, `JSON` and every other mix
/// of cases, and nothing else.
pub proof fn law_json_word_ignores_ascii_case(s: Seq<char>)
    ensures
        is_json_word(s) <==> eq_ignore_ascii_case(s, "json"@),
{
    reveal_strlit("json");
    let w = "json"@;
    assert(w.len() == 4 && w[0] == 'j' && w[1] == 's' && w[2] == 'o' && w[3] == 'n');
    assert forall|c: char, l: char|
        'a' <= l <= 'z' implies (ascii_lower(c) == l <==> #[trigger] same_char_ignoring_ascii_case(
            c,
            l,
        )) by {
        if 'A' <= c <= 'Z' {
            assert(((c as u32) + 32) as char as u32 == (c as u32) + 32);
        }
    }
    if is_json_word(s) {
        assert forall|i: int| 0 <= i < s.len() implies #[trigger] same_char_ignoring_ascii_case(
            s[i],
            w[i],
        ) by {
            assert(ascii_lower(s[i]) == w[i]);
        }
    }
    if eq_ignore_ascii_case(s, w) {
        assert(same_char_ignoring_ascii_case(s[0], w[0]));
        assert(same_char_ignoring_ascii_case(s[1], w[1]));
        assert(same_char_ignoring_ascii_case(s[2], w[2]));
        assert(same_char_ignoring_ascii_case(s[3], w[3]));
    }
}

/// The format of `tool show`: JSON when the global JSON flag is set or the
/// output option says `json` (in any ASCII case), else YAML.
pub fn tool_show_format(json: bool, output: &str) -> (f: ToolShowFormat)
    ensures
        f == if json || is_json_word(output@) {
            ToolShowFormat::Json
        } else {
            ToolShowFormat::Yaml
        },
        !json ==> (f == ToolShowFormat::Json <==> eq_ignore_ascii_case(output@, "json"@)),
{
    proof {
        law_json_word_ignores_ascii_case(output@);
    }
    if json {
        return ToolShowFormat::Json;
    }
    let cs = chars_of(output);
    if cs.len() == 4 && is_letter(cs[0], 'j', 'J') && is_letter(cs[1], 's', 'S') && is_letter(
        cs[2],
        'o',
        'O',
    ) && is_letter(cs[3], 'n', 'N') {
        ToolShowFormat::Json
    } else {
        ToolShowFormat::Yaml
    }
}


/// A memory text as `memory show` prints it: `(empty)` when it is empty.
pub open spec fn memory_body(text: Seq<char>) -> Seq<char> {
    if text.len() == 0 {
        "(empty)"@
    } else {
        text
    }
}

/// What `memory show` prints: each file's name, its text, and an empty
/// line (each entry printed as one line holding line breaks).
pub open spec fn memory_show_text(user: Seq<char>, project: Seq<char>) -> Seq<Seq<char>> {
    seq![
        "USER.md"@ + ":\n"@ + memory_body(user) + "\n"@,
        "PROJECT.md"@ + ":\n"@ + memory_body(project) + "\n"@,
    ]
}

fn memory_block(name: &str, text: &str) -> (s: String)
    ensures
        s@ == name@ + ":\n"@ + memory_body(text@) + "\n"@,
{
    let mut s = String::from_str(name);
    s.append(":\n");
    if text.unicode_len() == 0 {
        s.append("(empty)");
    } else {
        s.append(text);
    }
    s.append("\n");
    s
}

/// The lines `memory show` prints for the two memory files' texts.
pub fn memory_show_lines(user: &str, project: &str) -> (lines: Vec<String>)
    ensures
        strs(lines@) == memory_show_text(user@, project@),
{
    let mut out: Vec<String> = Vec::new();
    out.push(memory_block("USER.md", user));
    out.push(memory_block("PROJECT.md", project));
    proof {
        assert(strs(out@) =~= memory_show_text(user@, project@));
    }
    out
}

/// The name of a memory file, as its `Debug` form prints it.
pub open spec fn memory_file_name(f: MemoryFile) -> Seq<char> {
    match f {
        MemoryFile::User => "User"@,
        MemoryFile::Project => "Project"@,
    }
}

/// A line of a memory file that a search matched.
#[derive(Debug, Clone)]
pub struct MemoryMatch {
    pub file: MemoryFile,
    pub line_number: usize,
    pub line: String,
}

/// The line `memory search` prints for a match.
pub open spec fn memory_match_line(m: MemoryMatch) -> Seq<char> {
    memory_file_name(m.file) + ":"@ + decimal(m.line_number as int) + " | "@ + m.line@
}

/// What `memory search` prints for the matches of `query`.
pub open spec fn memory_search_text(query: Seq<char>, matches: Seq<MemoryMatch>) -> Seq<Seq<char>> {
    if matches.len() == 0 {
        seq!["No matches for '"@ + query + "'."@]
    } else {
        matches.map_values(|m: MemoryMatch| memory_match_line(m))
    }
}

/// The lines `memory search` prints.
pub fn memory_search_lines(query: &str, matches: &Vec<MemoryMatch>) -> (lines: Vec<String>)
    ensures
        strs(lines@) == memory_search_text(query@, matches@),
{
    let mut out: Vec<String> = Vec::new();
    if matches.len() == 0 {
        let mut l = String::from_str("No matches for '");
        l.append(query);
        l.append("'.");
        out.push(l);
        proof {
            assert(strs(out@) =~= memory_search_text(query@, matches@));
        }
        return out;
    }
    let mut k: usize = 0;
    while k < matches.len()
        invariant
            k <= matches@.len(),
            matches@.len() > 0,
            strs(out@) == matches@.take(k as int).map_values(|m: MemoryMatch| memory_match_line(m)),
        decreases matches@.len() - k,
    {
        let m = &matches[k];
        let mut l = String::from_str(
            match m.file {
                MemoryFile::User => "User",
                MemoryFile::Project => "Project",
            },
        );
        l.append(":");
        l.append(usize_to_decimal(m.line_number).as_str());
        l.append(" | ");
        l.append(m.line.as_str());
        let ghost b = strs(out@);
        out.push(l);
        proof {
            assert(strs(out@) =~= b.push(memory_match_line(matches@[k as int])));
            assert(matches@.take(k + 1).map_values(|m: MemoryMatch| memory_match_line(m))
                =~= matches@.take(k as int).map_values(|m: MemoryMatch| memory_match_line(m)).push(
                memory_match_line(matches@[k as int]),
            ));
        }
        k += 1;
    }
    proof {
        assert(matches@.take(k as int) =~= matches@);
    }
    out
}

/// What `mcp show` reads of a server; the environment values come masked.
#[derive(Debug, Clone)]
pub struct ServerDetailView {
    pub name: String,
    pub disabled: bool,
    pub command: Option<String>,
    pub args: Vec<String>,
    pub url: Option<String>,
    pub env: Vec<(String, String)>,
    pub headers: Vec<(String, String)>,
}

/// Eighty `═`.
pub open spec fn thick_rule() -> Seq<char> {
    Seq::new(80, |i: int| '═')
}

/// Lines `"<indent><key><sep><value>"` for the pairs, after `title` when
/// there are any.
pub open spec fn pairs_block(title: Seq<char>, sep: Seq<char>, pairs: Seq<(String, String)>) -> Seq<
    Seq<char>,
> {
    if pairs.len() == 0 {
        Seq::empty()
    } else {
        seq![title] + pairs.map_values(|p: (String, String)| "  "@ + p.0@ + sep + p.1@)
    }
}

/// What `mcp show` prints for a server.
pub open spec fn server_detail_text(d: ServerDetailView) -> Seq<Seq<char>> {
    seq![
        "MCP Server: "@ + d.name@,
        thick_rule(),
        "Status: "@ + if d.disabled {
            "disabled"@
        } else {
            "enabled"@
        },
    ] + match d.command {
        Some(c) => seq!["Command: "@ + c@] + if d.args@.len() > 0 {
            seq!["Args: "@ + join(strs(d.args@), " "@)]
        } else {
            Seq::empty()
        },
        None => Seq::empty(),
    } + match d.url {
        Some(u) => seq!["URL: "@ + u@],
        None => Seq::empty(),
    } + pairs_block("Environment:"@, "="@, d.env@) + pairs_block("Headers:"@, ": "@, d.headers@)
}

fn push_pairs(out: &mut Vec<String>, title: &str, sep: &str, pairs: &Vec<(String, String)>)
    ensures
        strs(final(out)@) == strs(old(out)@) + pairs_block(title@, sep@, pairs@),
{
    let ghost start = strs(out@);
    if pairs.len() == 0 {
        proof {
            assert(strs(out@) =~= start + pairs_block(title@, sep@, pairs@));
        }
        return;
    }
    out.push(String::from_str(title));
    let ghost head = strs(out@);
    let ghost f = |p: (String, String)| "  "@ + p.0@ + sep@ + p.1@;
    let mut k: usize = 0;
    proof {
        assert(pairs@.take(0).map_values(f) =~= Seq::<Seq<char>>::empty());
        assert(head =~= head + pairs@.take(0).map_values(f));
    }
    while k < pairs.len()
        invariant
            k <= pairs@.len(),
            f == (|p: (String, String)| "  "@ + p.0@ + sep@ + p.1@),
            strs(out@) == head + pairs@.take(k as int).map_values(f),
        decreases pairs@.len() - k,
    {
        let mut l = String::from_str("  ");
        l.append(pairs[k].0.as_str());
        l.append(sep);
        l.append(pairs[k].1.as_str());
        let ghost b = strs(out@);
        out.push(l);
        proof {
            assert(strs(out@) =~= b.push(l@));
            assert(pairs@.take(k + 1).map_values(f) =~= pairs@.take(k as int).map_values(f).push(
                f(pairs@[k as int]),
            ));
        }
        k += 1;
    }
    proof {
        assert(pairs@.take(k as int) =~= pairs@);
        assert(strs(out@) =~= start + pairs_block(title@, sep@, pairs@));
    }
}

/// The lines `mcp show` prints for a server.
pub fn server_detail_lines(d: &ServerDetailView) -> (lines: Vec<String>)
    ensures
        strs(lines@) == server_detail_text(*d),
{
    let mut out: Vec<String> = Vec::new();
    let mut a = String::from_str("MCP Server: ");
    a.append(d.name.as_str());
    out.push(a);
    out.push(repeat_char('═', 80));
    let mut st = String::from_str("Status: ");
    st.append(
        if d.disabled {
            "disabled"
        } else {
            "enabled"
        },
    );
    out.push(st);
    let ghost head = strs(out@);
    proof {
        assert(head =~= seq![
            "MCP Server: "@ + d.name@,
            thick_rule(),
            "Status: "@ + if d.disabled {
                "disabled"@
            } else {
                "enabled"@
            },
        ]);
    }
    match &d.command {
        Some(c) => {
            let mut l = String::from_str("Command: ");
            l.append(c.as_str());
            out.push(l);
            if d.args.len() > 0 {
                let mut g = String::from_str("Args: ");
                g.append(join_strings(&d.args, " ").as_str());
                out.push(g);
            }
        },
        None => {},
    }
    match &d.url {
        Some(u) => {
            let mut l = String::from_str("URL: ");
            l.append(u.as_str());
            out.push(l);
        },
        None => {},
    }
    let ghost mid = strs(out@);
    proof {
        assert(mid =~= head + match d.command {
            Some(c) => seq!["Command: "@ + c@] + if d.args@.len() > 0 {
                seq!["Args: "@ + join(strs(d.args@), " "@)]
            } else {
                Seq::empty()
            },
            None => Seq::empty(),
        } + match d.url {
            Some(u) => seq!["URL: "@ + u@],
            None => Seq::empty(),
        });
    }
    push_pairs(&mut out, "Environment:", "=", &d.env);
    push_pairs(&mut out, "Headers:", ": ", &d.headers);
    proof {
        assert(strs(out@) =~= server_detail_text(*d));
    }
    out
}

} // verus!
