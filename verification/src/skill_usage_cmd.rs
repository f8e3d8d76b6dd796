//! The `skill-usage` subcommand's decisions: which skills a sync adds to
//! the usage store, what it reports, and how a damaged store's lines are
//! split into entries.  Reading and writing the store is the caller's part.

use vstd::prelude::*;
use vstd::string::*;
use crate::ranking::{ints, is_ranking, key_of_text, key_view, rank, text_key};
use crate::skill_inspect::{join, join_strings, strs, SkillUsage};
use crate::text::{chars_of, copy_range, decimal, i64_to_decimal, repeat_char, string_from_chars,
    trim, trim_end, trim_end_len, trim_start_from, usize_to_decimal};

verus! {

/// What a sync did.
#[derive(Debug, Clone)]
pub struct SyncResult {
    pub scanned_count: usize,
    pub created: Vec<String>,
    pub updated: Vec<String>,
    pub unchanged: usize,
    pub path: String,
}

/// The skills that have no usage entry yet, in order.
pub open spec fn new_names(skills: Seq<String>, existing: Seq<Seq<char>>) -> Seq<Seq<char>>
    decreases skills.len(),
{
    if skills.len() == 0 {
        Seq::empty()
    } else {
        let prev = new_names(skills.drop_last(), existing);
        if existing.contains(skills.last()@) {
            prev
        } else {
            prev.push(skills.last()@)
        }
    }
}

/// How many skills already have a usage entry.
pub open spec fn known_count(skills: Seq<String>, existing: Seq<Seq<char>>) -> nat
    decreases skills.len(),
{
    if skills.len() == 0 {
        0
    } else {
        known_count(skills.drop_last(), existing) + if existing.contains(skills.last()@) {
            1nat
        } else {
            0nat
        }
    }
}

proof fn lemma_sync_counts(skills: Seq<String>, existing: Seq<Seq<char>>)
    ensures
        new_names(skills, existing).len() + known_count(skills, existing) == skills.len(),
    decreases skills.len(),
{
    if skills.len() > 0 {
        lemma_sync_counts(skills.drop_last(), existing);
    }
}

/// Whether `name` is among `names`.
fn contains_name(names: &Vec<String>, name: &String) -> (b: bool)
    ensures
        b == strs(names@).contains(name@),
{
    let mut k: usize = 0;
    while k < names.len()
        invariant
            k <= names@.len(),
            forall|j: int| 0 <= j < k ==> names@[j]@ != name@,
        decreases names@.len() - k,
    {
        if names[k] == *name {
            proof {
                assert(strs(names@)[k as int] == name@);
            }
            return true;
        }
        k += 1;
    }
    proof {
        if strs(names@).contains(name@) {
            let j = choose|j: int| 0 <= j < strs(names@).len() && strs(names@)[j] == name@;
            assert(names@[j]@ == name@);
        }
    }
    false
}

/// The result of syncing `skills` (names found in the skills directory)
/// against the names that already have a usage entry: each new skill is
/// created, the others are left unchanged, none is updated.
pub fn sync_result(skills: &Vec<String>, existing: &Vec<String>, path: String) -> (r: SyncResult)
    ensures
        strs(r.created@) == new_names(skills@, strs(existing@)),
        r.unchanged == known_count(skills@, strs(existing@)),
        r.updated@.len() == 0,
        r.scanned_count == skills@.len(),
        r.path@ == path@,
{
    let mut created: Vec<String> = Vec::new();
    let mut unchanged: usize = 0;
    let mut k: usize = 0;
    while k < skills.len()
        invariant
            k <= skills@.len(),
            strs(created@) == new_names(skills@.take(k as int), strs(existing@)),
            unchanged == known_count(skills@.take(k as int), strs(existing@)),
            new_names(skills@.take(k as int), strs(existing@)).len() + known_count(
                skills@.take(k as int),
                strs(existing@),
            ) == k,
        decreases skills@.len() - k,
    {
        proof {
            assert(skills@.take(k + 1).drop_last() =~= skills@.take(k as int));
            assert(skills@.take(k + 1).last() == skills@[k as int]);
            lemma_sync_counts(skills@.take(k + 1), strs(existing@));
        }
        if contains_name(existing, &skills[k]) {
            unchanged += 1;
        } else {
            let name = skills[k].clone();
            created.push(name);
            proof {
                assert(strs(created@) =~= new_names(skills@.take(k as int), strs(existing@)).push(
                    skills@[k as int]@,
                ));
            }
        }
        k += 1;
    }
    proof {
        assert(skills@.take(k as int) =~= skills@);
    }
    let scanned = created.len() + unchanged;
    SyncResult { scanned_count: scanned, created, updated: Vec::new(), unchanged, path }
}

/// The lines a sync prints: the JSON text of the result when one is given,
/// else a summary; then a note for a dry run.
pub open spec fn sync_lines(r: SyncResult, dry_run: bool, json: Option<Seq<char>>) -> Seq<
    Seq<char>,
> {
    let body = match json {
        Some(j) => seq![j],
        None => seq!["Scanned "@ + decimal(r.scanned_count as int) + " skills from "@ + r.path@]
            + (if r.created@.len() > 0 {
            seq!["Created: "@ + join(strs(r.created@), ", "@)]
        } else {
            Seq::empty()
        }) + (if r.updated@.len() > 0 {
            seq!["Updated: "@ + join(strs(r.updated@), ", "@)]
        } else {
            Seq::empty()
        }) + (if r.created@.len() == 0 && r.updated@.len() == 0 {
            seq!["All skills are up to date."@]
        } else {
            seq![
                "Total: "@ + decimal(r.created@.len() as int) + " created, "@ + decimal(
                    r.updated@.len() as int,
                ) + " updated, "@ + decimal(r.unchanged as int) + " unchanged"@,
            ]
        }),
    };
    body + if dry_run {
        seq!["(dry-run: no changes written)"@]
    } else {
        Seq::empty()
    }
}

/// The lines a sync prints (see [`sync_lines`]); `json` is the result as
/// JSON text when JSON output was asked for.
pub fn sync_output_lines(r: &SyncResult, dry_run: bool, json: Option<String>) -> (lines: Vec<
    String,
>)
    ensures
        strs(lines@) == sync_lines(
            *r,
            dry_run,
            match json {
                Some(j) => Some(j@),
                None => None,
            },
        ),
{
    let ghost jv = match &json {
        Some(j) => Some(j@),
        None => None,
    };
    let mut out: Vec<String> = Vec::new();
    match json {
        Some(j) => {
            out.push(j);
        },
        None => {
            let mut first = String::from_str("Scanned ");
            let n = usize_to_decimal(r.scanned_count);
            first.append(n.as_str());
            first.append(" skills from ");
            first.append(r.path.as_str());
            out.push(first);
            if r.created.len() > 0 {
                let mut l = String::from_str("Created: ");
                let j = join_strings(&r.created, ", ");
                l.append(j.as_str());
                out.push(l);
            }
            if r.updated.len() > 0 {
                let mut l = String::from_str("Updated: ");
                let j = join_strings(&r.updated, ", ");
                l.append(j.as_str());
                out.push(l);
            }
            if r.created.len() == 0 && r.updated.len() == 0 {
                out.push(String::from_str("All skills are up to date."));
            } else {
                let mut l = String::from_str("Total: ");
                let c = usize_to_decimal(r.created.len());
                l.append(c.as_str());
                l.append(" created, ");
                let u = usize_to_decimal(r.updated.len());
                l.append(u.as_str());
                l.append(" updated, ");
                let k = usize_to_decimal(r.unchanged);
                l.append(k.as_str());
                l.append(" unchanged");
                out.push(l);
            }
        },
    }
    if dry_run {
        out.push(String::from_str("(dry-run: no changes written)"));
    }
    proof {
        assert(strs(out@) =~= sync_lines(*r, dry_run, jv));
    }
    out
}

/// Whether `"` and `:` stand at `j` and `j + 1`.
pub open spec fn quote_colon_at(s: Seq<char>, j: int) -> bool {
    s[j] == '"' && s[j + 1] == ':'
}

/// Position of the first `":` in `s`, or `s.len()` when there is none.
pub open spec fn quote_colon(s: Seq<char>) -> nat
    decreases s.len(),
{
    if s.len() < 2 {
        s.len()
    } else if s[0] == '"' && s[1] == ':' {
        0
    } else {
        1 + quote_colon(s.drop_first())
    }
}

proof fn lemma_quote_colon_at(s: Seq<char>, k: int)
    requires
        0 <= k <= s.len(),
        k + 1 < s.len() ==> quote_colon_at(s, k),
        k + 1 >= s.len() ==> k == s.len(),
        forall|j: int| 0 <= j < k && j + 1 < s.len() ==> !#[trigger] quote_colon_at(s, j),
    ensures
        quote_colon(s) == k,
    decreases s.len(),
{
    if s.len() < 2 {
    } else if s[0] == '"' && s[1] == ':' {
        if k > 0 {
            assert(!quote_colon_at(s, 0));
        }
    } else {
        if k == 0 {
            assert(quote_colon_at(s, 0));
        }
        let t = s.drop_first();
        assert forall|j: int| 0 <= j < k - 1 && j + 1 < t.len() implies !#[trigger] quote_colon_at(
            t,
            j,
        ) by {
            assert(!quote_colon_at(s, j + 1));
        }
        if k < s.len() && k + 1 < s.len() {
            assert(quote_colon_at(s, k));
        }
        lemma_quote_colon_at(t, k - 1);
    }
}

/// The position of the first `":` in `cs`.
fn find_quote_colon(cs: &[char]) -> (k: usize)
    ensures
        k == quote_colon(cs@),
        k <= cs@.len(),
{
    let n = cs.len();
    let mut k: usize = 0;
    while k < n
        invariant
            n == cs@.len(),
            k <= n,
            forall|j: int| 0 <= j < k && j + 1 < n ==> !#[trigger] quote_colon_at(cs@, j),
        decreases n - k,
    {
        if k + 1 < n && cs[k] == '"' && cs[k + 1] == ':' {
            proof {
                lemma_quote_colon_at(cs@, k as int);
            }
            return k;
        }
        proof {
            if k + 1 < n {
                assert(!quote_colon_at(cs@, k as int));
            }
        }
        k += 1;
    }
    proof {
        lemma_quote_colon_at(cs@, n as int);
    }
    n
}

/// Where a line of the form `"name": {...}` is split: the name (without a
/// leading quote) and the text after `":`; none without `":`.
pub open spec fn usage_line_split(line: Seq<char>) -> Option<(Seq<char>, Seq<char>)> {
    let e = quote_colon(line);
    if e + 1 >= line.len() {
        None
    } else {
        let start = if line.len() > 0 && line[0] == '"' {
            1int
        } else {
            0int
        };
        Some((line.subrange(start, e as int), line.skip(e + 2int)))
    }
}

/// Splits a line of a damaged usage store into the skill name and the text
/// of its entry (see [`usage_line_split`]).  A line that starts with `":`
/// names no skill and is not accepted.
pub fn split_usage_line(line: &str) -> (r: Option<(String, String)>)
    requires
        !(line@.len() >= 2 && line@[0] == '"' && line@[1] == ':'),
    ensures
        match usage_line_split(line@) {
            Some((n, rest)) => r matches Some(p) && p.0@ == n && p.1@ == rest,
            None => r is None,
        },
{
    let cs = chars_of(line);
    let n = cs.len();
    let k = find_quote_colon(cs.as_slice());
    if k >= n || k + 1 >= n {
        return None;
    }
    let start: usize = if cs[0] == '"' {
        1
    } else {
        0
    };
    let name_chars = copy_range(cs.as_slice(), start, k);
    let rest_chars = copy_range(cs.as_slice(), k + 2, n);
    let name = string_from_chars(name_chars.as_slice());
    let rest = string_from_chars(rest_chars.as_slice());
    proof {
        assert(rest_chars@ =~= line@.skip(k + 2));
    }
    Some((name, rest))
}


/// The keys that order usage entries by name.
pub open spec fn name_keys(entries: Seq<SkillUsage>) -> Seq<Seq<int>> {
    entries.map_values(|u: SkillUsage| text_key(u.name@))
}

/// Every one of `n` items.
pub open spec fn every(n: nat) -> Seq<bool> {
    Seq::new(n, |i: int| true)
}

/// The order in which the usage list shows the entries: by name (entries
/// of equal names in their order).
pub fn usage_list_order(entries: &Vec<SkillUsage>) -> (order: Vec<usize>)
    ensures
        is_ranking(order@, name_keys(entries@), every(entries@.len()), entries@.len()),
{
    let mut keys: Vec<Vec<i128>> = Vec::new();
    let mut all: Vec<bool> = Vec::new();
    let mut k: usize = 0;
    while k < entries.len()
        invariant
            k <= entries@.len(),
            keys@.len() == k,
            all@.len() == k,
            forall|j: int| 0 <= j < k ==> ints(#[trigger] keys@[j]@) == name_keys(entries@)[j],
            forall|j: int| 0 <= j < k ==> #[trigger] all@[j],
        decreases entries@.len() - k,
    {
        keys.push(key_of_text(entries[k].name.as_str()));
        all.push(true);
        k += 1;
    }
    proof {
        assert(key_view(keys@) =~= name_keys(entries@));
        assert(all@ =~= every(entries@.len()));
    }
    rank(&keys, &all, entries.len())
}

/// The lines of one entry of the usage list: its counts, and its last use
/// when there is one.
pub open spec fn usage_entry_lines(u: SkillUsage) -> Seq<Seq<char>> {
    seq![
        "  • "@ + u.name@ + " — uses: "@ + decimal(u.use_count as int) + ", views: "@ + decimal(
            u.view_count as int,
        ) + ", patches: "@ + decimal(u.patch_count as int),
    ] + match u.last_used_at {
        Some(t) => seq!["    Last used: "@ + t@],
        None => Seq::empty(),
    }
}

/// The lines of the entries at the positions of `order`, in that order.
pub open spec fn usage_entries_text(entries: Seq<SkillUsage>, order: Seq<usize>) -> Seq<Seq<char>>
    decreases order.len(),
{
    if order.len() == 0 {
        Seq::empty()
    } else {
        usage_entries_text(entries, order.drop_last()) + usage_entry_lines(
            entries[order.last() as int],
        )
    }
}

/// Sixty `─`.
pub open spec fn thin_rule_60() -> Seq<char> {
    Seq::new(60, |i: int| '─')
}

/// What `skill-usage show` prints for the whole store, the entries shown
/// in `order`.
pub open spec fn usage_list_text(entries: Seq<SkillUsage>, order: Seq<usize>) -> Seq<Seq<char>> {
    if entries.len() == 0 {
        seq!["No usage data found."@]
    } else {
        seq!["Skill Usage (.usage.json):"@, thin_rule_60()] + usage_entries_text(entries, order)
            + seq![Seq::empty(), "Total: "@ + decimal(entries.len() as int) + " skills tracked"@]
    }
}

/// The lines of the usage list, the entries shown in `order` (see
/// `usage_list_order`).
pub fn usage_list_lines(entries: &Vec<SkillUsage>, order: &Vec<usize>) -> (lines: Vec<String>)
    requires
        forall|i: int| 0 <= i < order@.len() ==> order@[i] < entries@.len(),
    ensures
        strs(lines@) == usage_list_text(entries@, order@),
{
    let mut out: Vec<String> = Vec::new();
    if entries.len() == 0 {
        out.push(String::from_str("No usage data found."));
        proof {
            assert(strs(out@) =~= usage_list_text(entries@, order@));
        }
        return out;
    }
    out.push(String::from_str("Skill Usage (.usage.json):"));
    out.push(repeat_char('─', 60));
    let ghost head = strs(out@);
    proof {
        assert(head =~= seq!["Skill Usage (.usage.json):"@, thin_rule_60()]);
        assert(order@.take(0) =~= Seq::<usize>::empty());
        assert(head + usage_entries_text(entries@, order@.take(0)) =~= head);
    }
    let mut k: usize = 0;
    while k < order.len()
        invariant
            k <= order@.len(),
            entries@.len() > 0,
            forall|i: int| 0 <= i < order@.len() ==> order@[i] < entries@.len(),
            strs(out@) == head + usage_entries_text(entries@, order@.take(k as int)),
        decreases order@.len() - k,
    {
        let u = &entries[order[k]];
        let ghost before = strs(out@);
        let mut l = String::from_str("  • ");
        l.append(u.name.as_str());
        l.append(" — uses: ");
        l.append(i64_to_decimal(u.use_count).as_str());
        l.append(", views: ");
        l.append(i64_to_decimal(u.view_count).as_str());
        l.append(", patches: ");
        l.append(i64_to_decimal(u.patch_count).as_str());
        out.push(l);
        match &u.last_used_at {
            Some(t) => {
                let mut m = String::from_str("    Last used: ");
                m.append(t.as_str());
                out.push(m);
            },
            None => {},
        }
        proof {
            assert(order@.take(k + 1).drop_last() =~= order@.take(k as int));
            assert(order@.take(k + 1).last() == order@[k as int]);
            assert(strs(out@) =~= before + usage_entry_lines(entries@[order@[k as int] as int]));
        }
        k += 1;
    }
    let ghost body = strs(out@);
    out.push(String::new());
    let mut t = String::from_str("Total: ");
    t.append(usize_to_decimal(entries.len()).as_str());
    t.append(" skills tracked");
    out.push(t);
    proof {
        assert(order@.take(k as int) =~= order@);
        assert(strs(out@) =~= usage_list_text(entries@, order@));
    }
    out
}


/// What `skill-usage show <name>` prints of a skill's usage; the times and
/// the state come as they are displayed.
#[derive(Debug, Clone)]
pub struct UsageDetail {
    pub use_count: i64,
    pub view_count: i64,
    pub patch_count: i64,
    pub last_used_at: Option<String>,
    pub last_viewed_at: Option<String>,
    pub created_at: String,
    pub state: String,
    pub pinned: bool,
}

/// What `skill-usage show <name>` prints.
pub open spec fn usage_detail_text(name: Seq<char>, u: UsageDetail) -> Seq<Seq<char>> {
    seq![
        "Skill: "@ + name,
        Seq::new(60, |i: int| '═'),
        "Use count: "@ + decimal(u.use_count as int),
        "View count: "@ + decimal(u.view_count as int),
        "Patch count: "@ + decimal(u.patch_count as int),
    ] + match u.last_used_at {
        Some(t) => seq!["Last used: "@ + t@],
        None => Seq::empty(),
    } + match u.last_viewed_at {
        Some(t) => seq!["Last viewed: "@ + t@],
        None => Seq::empty(),
    } + seq!["Created at: "@ + u.created_at@, "State: "@ + u.state@] + if u.pinned {
        seq!["Pinned: yes"@]
    } else {
        Seq::empty()
    }
}

fn count_line(label: &str, n: i64) -> (s: String)
    ensures
        s@ == label@ + decimal(n as int),
{
    let mut s = String::from_str(label);
    s.append(i64_to_decimal(n).as_str());
    s
}

fn text_line(label: &str, t: &str) -> (s: String)
    ensures
        s@ == label@ + t@,
{
    let mut s = String::from_str(label);
    s.append(t);
    s
}

/// The lines `skill-usage show <name>` prints for the skill `name`.
pub fn usage_detail_lines(name: &str, u: &UsageDetail) -> (lines: Vec<String>)
    ensures
        strs(lines@) == usage_detail_text(name@, *u),
{
    let mut out: Vec<String> = Vec::new();
    out.push(text_line("Skill: ", name));
    out.push(repeat_char('═', 60));
    out.push(count_line("Use count: ", u.use_count));
    out.push(count_line("View count: ", u.view_count));
    out.push(count_line("Patch count: ", u.patch_count));
    let ghost head = strs(out@);
    match &u.last_used_at {
        Some(t) => out.push(text_line("Last used: ", t.as_str())),
        None => {},
    }
    match &u.last_viewed_at {
        Some(t) => out.push(text_line("Last viewed: ", t.as_str())),
        None => {},
    }
    out.push(text_line("Created at: ", u.created_at.as_str()));
    out.push(text_line("State: ", u.state.as_str()));
    if u.pinned {
        out.push(String::from_str("Pinned: yes"));
    }
    proof {
        assert(strs(out@) =~= usage_detail_text(name@, *u));
    }
    out
}

/// Whether `line` starts with `Pi`, as the pinned line does and no other
/// line of the usage detail can.
spec fn starts_like_pinned(line: Seq<char>) -> bool {
    line.len() >= 2 && line[0] == 'P' && line[1] == 'i'
}

/// `prefix + rest` starts as `prefix` does, when `prefix` has two
/// characters or more.
proof fn lemma_prefix_start(prefix: Seq<char>, rest: Seq<char>)
    requires
        prefix.len() >= 2,
    ensures
        (prefix + rest)[0] == prefix[0],
        (prefix + rest)[1] == prefix[1],
        (prefix + rest).len() >= 2,
{
}

/// The detail lines of `skill-usage show` hold the line `Pinned: yes`
/// exactly when the skill is pinned, whatever its counts and dates; when
/// it is pinned, that line comes last.
pub proof fn law_pinned_line_iff_pinned(name: Seq<char>, u: UsageDetail)
    ensures
        usage_detail_text(name, u).contains("Pinned: yes"@) <==> u.pinned,
        u.pinned ==> usage_detail_text(name, u).last() == "Pinned: yes"@,
{
    reveal_strlit("Pinned: yes");
    reveal_strlit("Skill: ");
    reveal_strlit("Use count: ");
    reveal_strlit("View count: ");
    reveal_strlit("Patch count: ");
    reveal_strlit("Last used: ");
    reveal_strlit("Last viewed: ");
    reveal_strlit("Created at: ");
    reveal_strlit("State: ");
    let t = usage_detail_text(name, u);
    let p = "Pinned: yes"@;
    assert(starts_like_pinned(p));
    let head = seq![
        "Skill: "@ + name,
        Seq::new(60, |i: int| '═'),
        "Use count: "@ + decimal(u.use_count as int),
        "View count: "@ + decimal(u.view_count as int),
        "Patch count: "@ + decimal(u.patch_count as int),
    ];
    let used: Seq<Seq<char>> = match u.last_used_at {
        Some(x) => seq!["Last used: "@ + x@],
        None => Seq::empty(),
    };
    let viewed: Seq<Seq<char>> = match u.last_viewed_at {
        Some(x) => seq!["Last viewed: "@ + x@],
        None => Seq::empty(),
    };
    let tail = seq!["Created at: "@ + u.created_at@, "State: "@ + u.state@];
    let base = head + used + viewed + tail;
    lemma_prefix_start("Skill: "@, name);
    lemma_prefix_start("Use count: "@, decimal(u.use_count as int));
    lemma_prefix_start("View count: "@, decimal(u.view_count as int));
    lemma_prefix_start("Patch count: "@, decimal(u.patch_count as int));
    lemma_prefix_start("Created at: "@, u.created_at@);
    lemma_prefix_start("State: "@, u.state@);
    match u.last_used_at {
        Some(x) => lemma_prefix_start("Last used: "@, x@),
        None => {},
    }
    match u.last_viewed_at {
        Some(x) => lemma_prefix_start("Last viewed: "@, x@),
        None => {},
    }
    assert forall|i: int| 0 <= i < base.len() implies !starts_like_pinned(#[trigger] base[i]) by {
        if i == 1 {
            assert(base[1][0] == '═');
        }
    }
    if u.pinned {
        assert(t =~= base + seq![p]);
        assert(t[t.len() - 1] == p);
    } else {
        assert(t =~= base);
        if t.contains(p) {
            let i = choose|i: int| 0 <= i < t.len() && t[i] == p;
            assert(starts_like_pinned(base[i]));
        }
    }
}

/// What `skill-usage show <name>` says of a skill the store does not hold.
pub open spec fn usage_not_found(name: Seq<char>) -> Seq<char> {
    "Skill not found in .usage.json: "@ + name
}

/// The message for a skill the usage store does not hold.
pub fn usage_not_found_text(name: &str) -> (s: String)
    ensures
        s@ == usage_not_found(name@),
{
    text_line("Skill not found in .usage.json: ", name)
}

/// What `skill-usage repair` found when it looked at the store.
#[derive(Debug, Clone)]
pub enum RepairFinding {
    /// There is no store file.
    Missing,
    /// The file could not be read (the reason).
    Unreadable(String),
    /// The file holds nothing but white space.
    Blank,
    /// The file reads as a store.
    Valid,
    /// The file does not read as a store (the reader's message).
    Corrupted(String),
}

/// What `skill-usage repair` does next.
#[derive(Debug, Clone)]
pub enum RepairStep {
    /// Print this line.
    Say(String),
    /// Copy the file beside it, and say where.
    Backup,
    /// Keep what can be read of the file's text, write it as the store,
    /// and say how many entries were kept.
    RecoverText,
    /// Read the file as bytes, keep what can be read of them, write it as
    /// the store, and say how many entries were kept.
    RecoverBytes,
    /// Write an empty store.
    WriteEmpty,
}

/// The view of a repair step.
pub open spec fn step_view(s: RepairStep) -> (int, Seq<char>) {
    match s {
        RepairStep::Say(t) => (0, t@),
        RepairStep::Backup => (1, Seq::empty()),
        RepairStep::RecoverText => (2, Seq::empty()),
        RepairStep::RecoverBytes => (3, Seq::empty()),
        RepairStep::WriteEmpty => (4, Seq::empty()),
    }
}

/// A step that prints `t`.
pub open spec fn say(t: Seq<char>) -> (int, Seq<char>) {
    (0, t)
}

/// The steps of `skill-usage repair` for what it found at `path`.  A store
/// that could not be read is recovered from its bytes and then, as the
/// blank one, written empty.
pub open spec fn repair_steps_of(path: Seq<char>, f: RepairFinding) -> Seq<(int, Seq<char>)> {
    let reinit = seq![(4int, Seq::<char>::empty()), say("Reinitialized .usage.json with empty object."@)];
    match f {
        RepairFinding::Missing => seq![
            say("No .usage.json found at "@ + path + ". Nothing to repair."@),
        ],
        RepairFinding::Unreadable(e) => seq![
            say("Failed to read .usage.json: "@ + e@),
            say("Attempting to recover..."@),
            (3int, Seq::<char>::empty()),
        ] + reinit,
        RepairFinding::Blank => seq![
            say(".usage.json is empty. Reinitializing with empty object."@),
        ] + reinit,
        RepairFinding::Valid => seq![say(".usage.json is valid. No repair needed."@)],
        RepairFinding::Corrupted(e) => seq![
            say(".usage.json is corrupted: "@ + e@),
            say("Attempting to recover valid entries..."@),
            (1int, Seq::<char>::empty()),
            (2int, Seq::<char>::empty()),
        ],
    }
}

/// The steps of `skill-usage repair` for what it found at the store path
/// `path` (see [`repair_steps_of`]).
pub fn repair_steps(path: &str, f: &RepairFinding) -> (steps: Vec<RepairStep>)
    ensures
        steps@.map_values(|s: RepairStep| step_view(s)) == repair_steps_of(path@, *f),
{
    let mut out: Vec<RepairStep> = Vec::new();
    match f {
        RepairFinding::Missing => {
            let mut t = String::from_str("No .usage.json found at ");
            t.append(path);
            t.append(". Nothing to repair.");
            out.push(RepairStep::Say(t));
        },
        RepairFinding::Unreadable(e) => {
            out.push(RepairStep::Say(text_line("Failed to read .usage.json: ", e.as_str())));
            out.push(RepairStep::Say(String::from_str("Attempting to recover...")));
            out.push(RepairStep::RecoverBytes);
            out.push(RepairStep::WriteEmpty);
            out.push(RepairStep::Say(String::from_str("Reinitialized .usage.json with empty object.")));
        },
        RepairFinding::Blank => {
            out.push(
                RepairStep::Say(
                    String::from_str(".usage.json is empty. Reinitializing with empty object."),
                ),
            );
            out.push(RepairStep::WriteEmpty);
            out.push(RepairStep::Say(String::from_str("Reinitialized .usage.json with empty object.")));
        },
        RepairFinding::Valid => {
            out.push(RepairStep::Say(String::from_str(".usage.json is valid. No repair needed.")));
        },
        RepairFinding::Corrupted(e) => {
            out.push(RepairStep::Say(text_line(".usage.json is corrupted: ", e.as_str())));
            out.push(RepairStep::Say(String::from_str("Attempting to recover valid entries...")));
            out.push(RepairStep::Backup);
            out.push(RepairStep::RecoverText);
        },
    }
    proof {
        assert(out@.map_values(|s: RepairStep| step_view(s)) =~= repair_steps_of(path@, *f));
    }
    out
}

/// Whether the text of a readable store counts as blank.
pub fn store_is_blank(content: &str) -> (b: bool)
    ensures
        b == (trim(content@).len() == 0),
{
    let cs = chars_of(content);
    let n = cs.len();
    let e = trim_end_len(cs.as_slice(), n);
    let front = copy_range(cs.as_slice(), 0, e);
    let st = trim_start_from(front.as_slice(), 0);
    proof {
        assert(cs@.take(n as int) =~= cs@);
        assert(front@ =~= cs@.take(e as int));
        assert(front@.skip(0) =~= front@);
        assert(trim_end(content@) == front@);
        assert(trim(content@) == front@.skip(st as int));
    }
    st == front.len()
}

/// The line reporting how many entries a recovery kept.
pub fn recovered_line(n: usize) -> (s: String)
    ensures
        s@ == "Recovered "@ + decimal(n as int) + " valid entries."@,
{
    let mut s = String::from_str("Recovered ");
    s.append(usize_to_decimal(n).as_str());
    s.append(" valid entries.");
    s
}

} // verus!
