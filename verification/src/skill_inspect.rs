//! `loom skills inspect <name>`: the inspection report of one skill.
//!
//! Holds the report's data model, the text view it prints, the supporting
//! file classification, and the decisions of the command (flag
//! combinations, candidate resolution, file lookups).  Discovering skills
//! and reading files is the caller's I/O.

use vstd::prelude::*;
use vstd::string::*;
use crate::text::{
    byte_len, chars_of, copy_range, decimal, i64_to_decimal, lemma_byte_len_take_le,
    lemma_byte_len_take_next, starts_with, starts_with_at, str_byte_len, string_from_chars,
    usize_to_decimal, u64_to_decimal, char_utf8_width, push_char,
};

verus! {

/// Readiness section of the report.
#[derive(Debug, Clone)]
pub struct ReadinessOutput {
    pub status: String,
    pub missing_env_vars: Vec<String>,
    pub unsupported_reason: Option<String>,
}

/// Conditions section of the report.
#[derive(Debug, Clone)]
pub struct ConditionsOutput {
    pub requires_tools: Vec<String>,
    pub requires_toolsets: Vec<String>,
    pub fallback_for_tools: Vec<String>,
    pub fallback_for_toolsets: Vec<String>,
}

/// Prerequisites section of the report.
#[derive(Debug, Clone)]
pub struct PrerequisitesOutput {
    pub commands: Vec<String>,
}

/// Supporting files of a skill, by directory.
#[derive(Debug, Clone)]
pub struct SupportingFilesOutput {
    pub references: Vec<String>,
    pub templates: Vec<String>,
    pub scripts: Vec<String>,
    pub assets: Vec<String>,
}

/// An embedded reference file and its size in bytes.
#[derive(Debug, Clone)]
pub struct EmbeddedReferenceOutput {
    pub name: String,
    pub byte_size: usize,
}

/// Usage statistics of a skill.
#[derive(Debug, Clone)]
pub struct UsageOutput {
    pub use_count: i64,
    pub view_count: i64,
    pub patch_count: i64,
    pub last_used_at: Option<String>,
    pub last_viewed_at: Option<String>,
    pub last_patched_at: Option<String>,
    pub last_activity_at: Option<String>,
    pub created_at: Option<String>,
    pub state: Option<String>,
    pub pinned: bool,
    pub archived_at: Option<String>,
    pub absorbed_into: Option<String>,
    pub created_by: Option<String>,
}

/// Output of a successful `inspect` call.
#[derive(Debug, Clone)]
pub struct InspectOutput {
    pub name: String,
    pub source: String,
    pub source_raw: String,
    pub path: Option<String>,
    pub skill_file: Option<String>,
    pub is_builtin: bool,
    pub readiness: ReadinessOutput,
    pub category: Option<String>,
    pub category_desc: Option<String>,
    pub description: String,
    pub triggers: Vec<String>,
    pub tags: Vec<String>,
    pub conditions: ConditionsOutput,
    pub required_env_vars: Vec<String>,
    pub prerequisites: PrerequisitesOutput,
    pub related_skills: Vec<String>,
    pub supporting_files: SupportingFilesOutput,
    pub embedded_references: Vec<EmbeddedReferenceOutput>,
    pub usage: UsageOutput,
    pub body: String,
    pub frontmatter_raw: String,
}

/// `std::io::Error`, carried by the I/O variants of [`SkillInspectError`].
#[verifier::external_type_specification]
#[verifier::external_body]
pub struct ExIoError(std::io::Error);

/// Errors specific to the `inspect` subcommand.
#[derive(Debug)]
pub enum SkillInspectError {
    /// No skill entry matched the requested name.
    NotFound(String),
    /// Multiple skill entries matched the name and disambiguation is needed.
    Ambiguous(Vec<(String, String)>),
    /// A path traversal was detected.
    PathTraversal(String),
    /// A required sub-file was not found.
    FileNotFound(String, std::io::Error),
    /// A general I/O error.
    Io(std::io::Error),
    /// Invalid flag combination.
    BadCombo(String),
}

/// The text `std::io::Error` displays (`Display`).  It names the operating
/// system's message, so nothing is promised of it.
#[verifier::external_body]
fn io_error_text(e: &std::io::Error) -> String {
    format!("{}", e)
}

/// The views of a vector of strings.
pub open spec fn strs(v: Seq<String>) -> Seq<Seq<char>> {
    v.map_values(|s: String| s@)
}

/// `list` joined with `sep` between consecutive entries (as `[String]::join`).
pub open spec fn join(list: Seq<Seq<char>>, sep: Seq<char>) -> Seq<char>
    decreases list.len(),
{
    if list.len() == 0 {
        Seq::empty()
    } else if list.len() == 1 {
        list[0]
    } else {
        join(list.drop_last(), sep) + sep + list.last()
    }
}

/// Join strings with a separator.
pub fn join_strings(list: &Vec<String>, sep: &str) -> (r: String)
    ensures
        r@ == join(strs(list@), sep@),
{
    let mut r = String::new();
    let mut k: usize = 0;
    while k < list.len()
        invariant
            k <= list@.len(),
            r@ == join(strs(list@).take(k as int), sep@),
        decreases list@.len() - k,
    {
        proof {
            assert(strs(list@).take(k + 1).drop_last() =~= strs(list@).take(k as int));
            assert(strs(list@).take(k + 1).last() == list@[k as int]@);
        }
        if k > 0 {
            r.append(sep);
        } else {
            proof {
                assert(strs(list@).take(k + 1) =~= seq![list@[0]@]);
            }
        }
        r.append(list[k].as_str());
        k += 1;
    }
    proof {
        assert(strs(list@).take(k as int) =~= strs(list@));
    }
    r
}

impl SkillInspectError {
    /// The message the error displays.
    ///
    /// For the I/O variants the text of the operating system's error is
    /// included as `std::io::Error` displays it.
    pub fn to_string(&self) -> (r: String)
        ensures
            match self {
                SkillInspectError::NotFound(name) => r@ == "skill not found: "@ + name@,
                SkillInspectError::PathTraversal(path) => r@ == "path traversal detected: '"@
                    + path@ + "'"@,
                SkillInspectError::FileNotFound(path, _) => r@ == "file not found in skill: "@
                    + path@,
                SkillInspectError::BadCombo(msg) => r@ == "invalid flag combination: "@ + msg@,
                SkillInspectError::Ambiguous(c) => r@ == ambiguous_message(c@),
                SkillInspectError::Io(_) => starts_with(r@, "I/O error: "@),
            },
    {
        match self {
            SkillInspectError::NotFound(name) => {
                let mut s = String::from_str("skill not found: ");
                s.append(name.as_str());
                s
            },
            SkillInspectError::Ambiguous(candidates) => ambiguous_text(candidates),
            SkillInspectError::PathTraversal(path) => {
                let mut s = String::from_str("path traversal detected: '");
                s.append(path.as_str());
                s.append("'");
                s
            },
            SkillInspectError::FileNotFound(path, _) => {
                let mut s = String::from_str("file not found in skill: ");
                s.append(path.as_str());
                s
            },
            SkillInspectError::Io(e) => {
                let mut s = String::from_str("I/O error: ");
                let ghost prefix = s@;
                let detail = io_error_text(e);
                s.append(detail.as_str());
                proof {
                    assert(s@.take(prefix.len() as int) =~= prefix);
                }
                s
            },
            SkillInspectError::BadCombo(msg) => {
                let mut s = String::from_str("invalid flag combination: ");
                s.append(msg.as_str());
                s
            },
        }
    }
}

/// One candidate line of the ambiguity message.
pub open spec fn candidate_line(i: int, c: (String, String)) -> Seq<char> {
    "  "@ + decimal(i + 1) + ". "@ + c.0@ + " (source: "@ + c.1@ + ")\n"@
}

/// The candidate lines of the first `k` candidates.
pub open spec fn candidate_lines(c: Seq<(String, String)>, k: int) -> Seq<char>
    decreases k,
{
    if k <= 0 {
        Seq::empty()
    } else {
        candidate_lines(c, k - 1) + candidate_line(k - 1, c[k - 1])
    }
}

/// The message of an ambiguous name: the count, one line per candidate, and
/// a hint.
pub open spec fn ambiguous_message(c: Seq<(String, String)>) -> Seq<char> {
    "ambiguous skill name — "@ + decimal(c.len() as int) + " candidates:\n"@ + candidate_lines(
        c,
        c.len() as int,
    ) + "hint: use --source <Source> to disambiguate"@
}

fn ambiguous_text(candidates: &Vec<(String, String)>) -> (r: String)
    ensures
        r@ == ambiguous_message(candidates@),
{
    let mut s = String::from_str("ambiguous skill name — ");
    let n = usize_to_decimal(candidates.len());
    s.append(n.as_str());
    s.append(" candidates:\n");
    let ghost head = s@;
    let mut k: usize = 0;
    while k < candidates.len()
        invariant
            k <= candidates@.len(),
            s@ == head + candidate_lines(candidates@, k as int),
        decreases candidates@.len() - k,
    {
        s.append("  ");
        let idx = usize_to_decimal(k + 1);
        s.append(idx.as_str());
        s.append(". ");
        s.append(candidates[k].0.as_str());
        s.append(" (source: ");
        s.append(candidates[k].1.as_str());
        s.append(")\n");
        k += 1;
    }
    s.append("hint: use --source <Source> to disambiguate");
    s
}

/// Largest number of leading characters of `s` whose UTF-8 length is at
/// most `index`.
pub open spec fn floor_chars(s: Seq<char>, index: int) -> nat
    decreases s.len(),
{
    if byte_len(s) <= index {
        s.len()
    } else if s.len() == 0 {
        0
    } else {
        floor_chars(s.drop_last(), index)
    }
}

/// The largest character boundary of `s` that is at most `index` (the whole
/// length when `index` is past the end).
pub open spec fn floor_boundary(s: Seq<char>, index: int) -> nat {
    byte_len(s.take(floor_chars(s, index) as int))
}

pub(crate) proof fn lemma_floor_chars_bound(s: Seq<char>, index: int)
    requires
        index >= 0,
    ensures
        floor_chars(s, index) <= s.len(),
        byte_len(s.take(floor_chars(s, index) as int)) <= index,
        floor_chars(s, index) < s.len() ==> byte_len(s.take(floor_chars(s, index) + 1int)) > index,
    decreases s.len(),
{
    if byte_len(s) <= index {
        assert(s.take(s.len() as int) =~= s);
    } else if s.len() > 0 {
        lemma_floor_chars_bound(s.drop_last(), index);
        let k = floor_chars(s.drop_last(), index);
        assert(s.drop_last().take(k as int) =~= s.take(k as int));
        if k < s.len() - 1 {
            assert(s.drop_last().take(k + 1int) =~= s.take(k + 1int));
        } else {
            assert(s.take(k + 1int) =~= s);
        }
    }
}

/// The largest byte index `≤ index` that is a UTF-8 character boundary of
/// `s` (prevents panics when slicing multi-byte strings).
pub fn floor_char_boundary(s: &str, index: usize) -> (r: usize)
    ensures
        r == floor_boundary(s@, index as int),
        r <= index || r == byte_len(s@),
{
    let cs = chars_of(s);
    let k = floor_chars_of(cs.as_slice(), index);
    let total = str_byte_len(s);
    let mut acc: usize = 0;
    let mut i: usize = 0;
    proof {
        assert(cs@.take(0) =~= Seq::<char>::empty());
        lemma_floor_chars_bound(cs@, index as int);
    }
    while i < k
        invariant
            i <= k <= cs@.len(),
            total == byte_len(cs@),
            acc == byte_len(cs@.take(i as int)),
        decreases k - i,
    {
        proof {
            lemma_byte_len_take_next(cs@, i as int);
            lemma_byte_len_take_le(cs@, i + 1);
        }
        acc = acc + char_utf8_width(cs[i]);
        i += 1;
    }
    proof {
        if k < cs@.len() {
        } else {
            assert(cs@.take(k as int) =~= cs@);
        }
    }
    acc
}

/// The character count [`floor_chars`] gives.
pub(crate) fn floor_chars_of(cs: &[char], index: usize) -> (k: usize)
    ensures
        k == floor_chars(cs@, index as int),
{
    let mut acc: u64 = 0;
    let mut i: usize = 0;
    proof {
        assert(cs@.take(0) =~= Seq::<char>::empty());
    }
    while i < cs.len()
        invariant
            i <= cs@.len(),
            acc == byte_len(cs@.take(i as int)),
            acc <= index,
        decreases cs@.len() - i,
    {
        proof {
            lemma_byte_len_take_next(cs@, i as int);
        }
        let w = char_utf8_width(cs[i]) as u64;
        if w > index as u64 - acc {
            proof {
                lemma_floor_at(cs@, index as int, i as int);
            }
            return i;
        }
        acc = acc + w;
        i += 1;
    }
    proof {
        assert(cs@.take(i as int) =~= cs@);
    }
    i
}

/// When the first `i` characters fit in `index` bytes and one more does
/// not, `floor_chars` is `i`.
proof fn lemma_floor_at(s: Seq<char>, index: int, i: int)
    requires
        0 <= i < s.len(),
        byte_len(s.take(i)) <= index,
        byte_len(s.take(i + 1)) > index,
    ensures
        floor_chars(s, index) == i,
    decreases s.len(),
{
    lemma_byte_len_take_le(s, i + 1);
    assert(floor_chars(s, index) == floor_chars(s.drop_last(), index));
    if i + 1 < s.len() {
        assert(s.drop_last().take(i) =~= s.take(i));
        assert(s.drop_last().take(i + 1) =~= s.take(i + 1));
        lemma_byte_len_take_le(s.drop_last(), i + 1);
        lemma_floor_at(s.drop_last(), index, i);
    } else {
        assert(s.take(i + 1) =~= s);
        assert(s.drop_last() =~= s.take(i));
        assert(s.drop_last().take(i) =~= s.drop_last());
    }
}

/// Maximum size of a skill file that `--read-file` prints (5 MiB).
pub const MAX_FILE_SIZE_BYTES: u64 = 5 * 1024 * 1024;

/// Bytes of the body shown in the text view without `--all` (about 1.2 KiB).
pub const TEXT_BODY_PREVIEW_BYTES: usize = 1200;

/// Whether a file of `len` bytes may be printed by `--read-file`.
pub fn within_size_limit(len: u64) -> (b: bool)
    ensures
        b == (len <= MAX_FILE_SIZE_BYTES),
{
    len <= MAX_FILE_SIZE_BYTES
}

/// Whether `name` starts with one of `prefixes`.
pub open spec fn has_any_prefix(name: Seq<char>, prefixes: Seq<Seq<char>>) -> bool {
    exists|i: int| 0 <= i < prefixes.len() && starts_with(name, #[trigger] prefixes[i])
}

/// The view of an embedded reference: its name and size.
pub open spec fn ref_view(r: EmbeddedReferenceOutput) -> (Seq<char>, nat) {
    (r.name@, r.byte_size as nat)
}

/// The references among `files` (name and content) whose names start with
/// one of `prefixes`, in order, with the content's size in bytes.
pub open spec fn refs_of(files: Seq<(String, String)>, prefixes: Seq<Seq<char>>) -> Seq<
    (Seq<char>, nat),
>
    decreases files.len(),
{
    if files.len() == 0 {
        Seq::empty()
    } else {
        let r = refs_of(files.drop_last(), prefixes);
        if has_any_prefix(files.last().0@, prefixes) {
            r.push((files.last().0@, byte_len(files.last().1@)))
        } else {
            r
        }
    }
}

fn starts_with_any(name: &str, prefixes: &[&str]) -> (b: bool)
    ensures
        b == has_any_prefix(name@, prefixes@.map_values(|p: &str| p@)),
{
    let cs = chars_of(name);
    let mut k: usize = 0;
    while k < prefixes.len()
        invariant
            k <= prefixes@.len(),
            cs@ == name@,
            forall|i: int| 0 <= i < k ==> !starts_with(name@, #[trigger] prefixes@[i]@),
        decreases prefixes@.len() - k,
    {
        let p = chars_of(prefixes[k]);
        proof {
            assert(cs@.skip(0) =~= cs@);
        }
        if starts_with_at(cs.as_slice(), 0, p.as_slice()) {
            proof {
                let ps = prefixes@.map_values(|p: &str| p@);
                assert(ps[k as int] == prefixes@[k as int]@);
            }
            return true;
        }
        k += 1;
    }
    proof {
        let ps = prefixes@.map_values(|p: &str| p@);
        assert forall|i: int| 0 <= i < ps.len() implies !starts_with(name@, #[trigger] ps[i]) by {
            assert(ps[i] == prefixes@[i]@);
        }
    }
    false
}

/// Embedded files whose names start with one of `prefixes`, as references
/// with their byte sizes.
pub fn embedded_files_to_refs(
    embedded_files: Option<&Vec<(String, String)>>,
    prefixes: &[&str],
) -> (r: Vec<EmbeddedReferenceOutput>)
    ensures
        r@.map_values(|x: EmbeddedReferenceOutput| ref_view(x)) == match embedded_files {
            Some(files) => refs_of(files@, prefixes@.map_values(|p: &str| p@)),
            None => Seq::empty(),
        },
{
    let mut r: Vec<EmbeddedReferenceOutput> = Vec::new();
    match embedded_files {
        None => {
            proof {
                assert(r@.map_values(|x: EmbeddedReferenceOutput| ref_view(x)) =~= Seq::<
                    (Seq<char>, nat),
                >::empty());
            }
            r
        },
        Some(files) => {
            let ghost ps = prefixes@.map_values(|p: &str| p@);
            let mut k: usize = 0;
            proof {
                assert(files@.take(0) =~= Seq::<(String, String)>::empty());
                assert(r@.map_values(|x: EmbeddedReferenceOutput| ref_view(x)) =~= Seq::<
                    (Seq<char>, nat),
                >::empty());
            }
            while k < files.len()
                invariant
                    k <= files@.len(),
                    ps == prefixes@.map_values(|p: &str| p@),
                    r@.map_values(|x: EmbeddedReferenceOutput| ref_view(x)) == refs_of(
                        files@.take(k as int),
                        ps,
                    ),
                decreases files@.len() - k,
            {
                proof {
                    assert(files@.take(k + 1).drop_last() =~= files@.take(k as int));
                    assert(files@.take(k + 1).last() == files@[k as int]);
                }
                if starts_with_any(files[k].0.as_str(), prefixes) {
                    let size = str_byte_len(files[k].1.as_str());
                    let ghost before = r@;
                    r.push(EmbeddedReferenceOutput { name: files[k].0.clone(), byte_size: size });
                    proof {
                        assert(r@.map_values(|x: EmbeddedReferenceOutput| ref_view(x)) =~= before.map_values(
                            |x: EmbeddedReferenceOutput| ref_view(x),
                        ).push((files@[k as int].0@, byte_len(files@[k as int].1@))));
                    }
                }
                k += 1;
            }
            proof {
                assert(files@.take(k as int) =~= files@);
            }
            r
        },
    }
}

/// The directory a supporting file belongs to: 0 references, 1 templates,
/// 2 scripts, 3 assets, 4 none of them.
pub open spec fn file_kind(name: Seq<char>) -> int {
    if starts_with(name, "references/"@) {
        0
    } else if starts_with(name, "templates/"@) {
        1
    } else if starts_with(name, "scripts/"@) {
        2
    } else if starts_with(name, "assets/"@) {
        3
    } else {
        4
    }
}

/// The names among `files` of the given kind, in order.
pub open spec fn names_of_kind(files: Seq<(String, String)>, kind: int) -> Seq<Seq<char>>
    decreases files.len(),
{
    if files.len() == 0 {
        Seq::empty()
    } else {
        let r = names_of_kind(files.drop_last(), kind);
        if file_kind(files.last().0@) == kind {
            r.push(files.last().0@)
        } else {
            r
        }
    }
}

fn prefix_test(name: &str, p: &str) -> (b: bool)
    ensures
        b == starts_with(name@, p@),
{
    let cs = chars_of(name);
    let ps = chars_of(p);
    proof {
        assert(cs@.skip(0) =~= cs@);
    }
    starts_with_at(cs.as_slice(), 0, ps.as_slice())
}

fn kind_of(name: &str) -> (k: u8)
    ensures
        k == file_kind(name@),
{
    if prefix_test(name, "references/") {
        0
    } else if prefix_test(name, "templates/") {
        1
    } else if prefix_test(name, "scripts/") {
        2
    } else if prefix_test(name, "assets/") {
        3
    } else {
        4
    }
}

/// Supporting files by directory, and the embedded references (the files
/// under `references/` with their sizes).
pub fn collect_supporting_files_and_refs(embedded_files: Option<&Vec<(String, String)>>) -> (r: (
    SupportingFilesOutput,
    Vec<EmbeddedReferenceOutput>,
))
    ensures
        ({
            let files = match embedded_files {
                Some(f) => f@,
                None => Seq::<(String, String)>::empty(),
            };
            &&& strs(r.0.references@) == names_of_kind(files, 0)
            &&& strs(r.0.templates@) == names_of_kind(files, 1)
            &&& strs(r.0.scripts@) == names_of_kind(files, 2)
            &&& strs(r.0.assets@) == names_of_kind(files, 3)
            &&& r.1@.map_values(|x: EmbeddedReferenceOutput| ref_view(x)) == refs_of(
                files,
                seq!["references/"@],
            )
        }),
{
    let mut refs: Vec<String> = Vec::new();
    let mut templates: Vec<String> = Vec::new();
    let mut scripts: Vec<String> = Vec::new();
    let mut assets: Vec<String> = Vec::new();
    let empty: Vec<(String, String)> = Vec::new();
    let files = match embedded_files {
        Some(f) => f,
        None => &empty,
    };
    let mut k: usize = 0;
    proof {
        assert(files@.take(0) =~= Seq::<(String, String)>::empty());
    }
    while k < files.len()
        invariant
            k <= files@.len(),
            strs(refs@) == names_of_kind(files@.take(k as int), 0),
            strs(templates@) == names_of_kind(files@.take(k as int), 1),
            strs(scripts@) == names_of_kind(files@.take(k as int), 2),
            strs(assets@) == names_of_kind(files@.take(k as int), 3),
        decreases files@.len() - k,
    {
        proof {
            assert(files@.take(k + 1).drop_last() =~= files@.take(k as int));
            assert(files@.take(k + 1).last() == files@[k as int]);
        }
        let name = files[k].0.clone();
        let kind = kind_of(name.as_str());
        let ghost nm = name@;
        if kind == 0 {
            refs.push(name);
            proof { assert(strs(refs@) =~= names_of_kind(files@.take(k as int), 0).push(nm)); }
        } else if kind == 1 {
            templates.push(name);
            proof { assert(strs(templates@) =~= names_of_kind(files@.take(k as int), 1).push(nm)); }
        } else if kind == 2 {
            scripts.push(name);
            proof { assert(strs(scripts@) =~= names_of_kind(files@.take(k as int), 2).push(nm)); }
        } else if kind == 3 {
            assets.push(name);
            proof { assert(strs(assets@) =~= names_of_kind(files@.take(k as int), 3).push(nm)); }
        }
        k += 1;
    }
    proof {
        assert(files@.take(k as int) =~= files@);
    }
    let prefixes: [&str; 1] = ["references/"];
    let embedded = embedded_files_to_refs(embedded_files, &prefixes);
    proof {
        assert(prefixes@.map_values(|p: &str| p@) =~= seq!["references/"@]);
    }
    (SupportingFilesOutput { references: refs, templates, scripts, assets }, embedded)
}


/// The rule under the title: sixty `═`.
pub open spec fn rule_line() -> Seq<char> {
    Seq::new(60, |i: int| '═')
}

/// One line `label + value` when `value` is present, none otherwise.
pub open spec fn opt_line(label: Seq<char>, value: Option<String>) -> Seq<Seq<char>> {
    match value {
        Some(v) => seq![label + v@],
        None => Seq::empty(),
    }
}

/// One line `label + line` when `cond` holds, none otherwise.
pub open spec fn line_if(cond: bool, line: Seq<char>) -> Seq<Seq<char>> {
    if cond {
        seq![line]
    } else {
        Seq::empty()
    }
}

/// The title block: name, rule, source, path, description and triggers.
pub open spec fn header_lines(o: InspectOutput) -> Seq<Seq<char>> {
    seq!["Skill: "@ + o.name@, rule_line(), "Source: "@ + o.source@] + opt_line("Path: "@, o.path)
        + seq!["Description: "@ + o.description@] + line_if(
        o.triggers@.len() > 0,
        "Triggers: "@ + join(strs(o.triggers@), ", "@),
    )
}

/// The usage block.
pub open spec fn usage_lines(u: UsageOutput) -> Seq<Seq<char>> {
    seq![
        "Usage:"@,
        "  Use count: "@ + decimal(u.use_count as int),
        "  View count: "@ + decimal(u.view_count as int),
    ] + opt_line("  Last used: "@, u.last_used_at) + line_if(u.pinned, "  Pinned: true"@)
}

/// One condition line: the joined values, `(none)` for an empty list when
/// `all` is set, nothing for an empty list otherwise.
pub open spec fn cond_line(label: Seq<char>, v: Seq<String>, all: bool) -> Seq<Seq<char>> {
    if v.len() > 0 {
        seq!["  "@ + label + ": "@ + join(strs(v), ", "@)]
    } else if all {
        seq!["  "@ + label + ": (none)"@]
    } else {
        Seq::empty()
    }
}

/// Whether any condition list is non-empty.
pub open spec fn has_any_condition(c: ConditionsOutput) -> bool {
    c.requires_tools@.len() > 0 || c.requires_toolsets@.len() > 0
        || c.fallback_for_tools@.len() > 0 || c.fallback_for_toolsets@.len() > 0
}

/// The conditions block, shown when a condition is set or `all` is.
pub open spec fn condition_lines(c: ConditionsOutput, all: bool) -> Seq<Seq<char>> {
    if has_any_condition(c) || all {
        seq!["Conditions:"@] + cond_line("requires_tools"@, c.requires_tools@, all) + cond_line(
            "requires_toolsets"@,
            c.requires_toolsets@,
            all,
        ) + cond_line("fallback_for_tools"@, c.fallback_for_tools@, all) + cond_line(
            "fallback_for_toolsets"@,
            c.fallback_for_toolsets@,
            all,
        )
    } else {
        Seq::empty()
    }
}

/// `"  - " + item` for each item.
pub open spec fn bullet_lines(items: Seq<Seq<char>>) -> Seq<Seq<char>> {
    items.map_values(|s: Seq<char>| "  - "@ + s)
}

/// The supporting files block (reference files only).
pub open spec fn supporting_lines(refs: Seq<String>, all: bool) -> Seq<Seq<char>> {
    if refs.len() > 0 {
        seq!["Supporting files:"@] + bullet_lines(strs(refs))
    } else if all {
        seq!["Supporting files:"@, "  references: (none)"@]
    } else {
        Seq::empty()
    }
}

/// `"<name> (<size> bytes)"` for an embedded reference.
pub open spec fn ref_text(r: EmbeddedReferenceOutput) -> Seq<char> {
    r.name@ + " ("@ + decimal(r.byte_size as int) + " bytes)"@
}

/// The embedded references block.
pub open spec fn embedded_lines(refs: Seq<EmbeddedReferenceOutput>, all: bool) -> Seq<Seq<char>> {
    if refs.len() > 0 {
        seq!["Embedded references:"@] + bullet_lines(
            refs.map_values(|r: EmbeddedReferenceOutput| ref_text(r)),
        )
    } else if all {
        seq!["Embedded references:"@, "  (none)"@]
    } else {
        Seq::empty()
    }
}

/// The body as the text view shows it: whole with `all`, else cut at the
/// last character boundary within the preview size with a marker that
/// gives the number of bytes left out.
pub open spec fn body_text(body: Seq<char>, all: bool) -> Seq<char> {
    if body.len() == 0 {
        "(no content)"@
    } else if all || byte_len(body) <= TEXT_BODY_PREVIEW_BYTES {
        body
    } else {
        let k = floor_chars(body, TEXT_BODY_PREVIEW_BYTES as int);
        body.take(k as int) + "...[truncated "@ + decimal(
            byte_len(body) - floor_boundary(body, TEXT_BODY_PREVIEW_BYTES as int),
        ) + " bytes, use --all for full body]"@
    }
}

/// The lines of the text view of `o`, one per printed line (the body is one
/// entry, whatever line breaks it holds).
pub open spec fn text_view_lines(o: InspectOutput, all: bool) -> Seq<Seq<char>> {
    header_lines(o) + usage_lines(o.usage) + condition_lines(o.conditions, all) + supporting_lines(
        o.supporting_files.references@,
        all,
    ) + embedded_lines(o.embedded_references@, all) + seq![Seq::empty(), "Body:"@, body_text(o.body@, all)]
}

/// `label + text`.
fn labelled(label: &str, text: &str) -> (r: String)
    ensures
        r@ == label@ + text@,
{
    let mut s = label.to_owned();
    s.append(text);
    s
}

/// Appends one line to `out`.
fn push_line(out: &mut Vec<String>, line: String)
    ensures
        strs(final(out)@) == strs(old(out)@).push(line@),
{
    out.push(line);
    proof {
        assert(strs(final(out)@) =~= strs(old(out)@).push(line@));
    }
}

/// Appends `label + value` when `value` is present.
fn push_opt(out: &mut Vec<String>, label: &str, value: &Option<String>)
    ensures
        strs(final(out)@) == strs(old(out)@) + opt_line(label@, *value),
{
    match value {
        Some(v) => push_line(out, labelled(label, v.as_str())),
        None => {
            proof {
                assert(strs(out@) =~= strs(out@) + Seq::<Seq<char>>::empty());
            }
        },
    }
}

/// Appends one condition line.
fn push_cond(out: &mut Vec<String>, label: &str, v: &Vec<String>, all: bool)
    ensures
        strs(final(out)@) == strs(old(out)@) + cond_line(label@, v@, all),
{
    if v.len() > 0 {
        let mut s = String::from_str("  ");
        s.append(label);
        s.append(": ");
        let j = join_strings(v, ", ");
        s.append(j.as_str());
        push_line(out, s);
        proof {
            reveal_strlit("  ");
            reveal_strlit(": ");
        }
    } else if all {
        let mut s = String::from_str("  ");
        s.append(label);
        s.append(": (none)");
        push_line(out, s);
    } else {
        proof {
            assert(strs(out@) =~= strs(out@) + Seq::<Seq<char>>::empty());
        }
    }
}


/// Appends `"  - " + item` for each item.
fn push_bullets(out: &mut Vec<String>, items: &Vec<String>)
    ensures
        strs(final(out)@) == strs(old(out)@) + bullet_lines(strs(items@)),
{
    let ghost start = strs(out@);
    let mut k: usize = 0;
    proof {
        assert(bullet_lines(strs(items@).take(0)) =~= Seq::<Seq<char>>::empty());
        assert(start + Seq::<Seq<char>>::empty() =~= start);
    }
    while k < items.len()
        invariant
            k <= items@.len(),
            strs(out@) == start + bullet_lines(strs(items@).take(k as int)),
        decreases items@.len() - k,
    {
        let line = labelled("  - ", items[k].as_str());
        push_line(out, line);
        proof {
            assert(bullet_lines(strs(items@).take(k + 1)) =~= bullet_lines(
                strs(items@).take(k as int),
            ).push("  - "@ + items@[k as int]@));
        }
        k += 1;
    }
    proof {
        assert(strs(items@).take(k as int) =~= strs(items@));
    }
}

/// `"<name> (<size> bytes)"`.
fn ref_line_text(r: &EmbeddedReferenceOutput) -> (t: String)
    ensures
        t@ == ref_text(*r),
{
    let mut s = r.name.clone();
    s.append(" (");
    let n = usize_to_decimal(r.byte_size);
    s.append(n.as_str());
    s.append(" bytes)");
    s
}

/// Appends one bullet per embedded reference.
fn push_ref_bullets(out: &mut Vec<String>, refs: &Vec<EmbeddedReferenceOutput>)
    ensures
        strs(final(out)@) == strs(old(out)@) + bullet_lines(
            refs@.map_values(|r: EmbeddedReferenceOutput| ref_text(r)),
        ),
{
    let ghost start = strs(out@);
    let ghost texts = refs@.map_values(|r: EmbeddedReferenceOutput| ref_text(r));
    let mut k: usize = 0;
    proof {
        assert(bullet_lines(texts.take(0)) =~= Seq::<Seq<char>>::empty());
        assert(start + Seq::<Seq<char>>::empty() =~= start);
    }
    while k < refs.len()
        invariant
            k <= refs@.len(),
            texts == refs@.map_values(|r: EmbeddedReferenceOutput| ref_text(r)),
            strs(out@) == start + bullet_lines(texts.take(k as int)),
        decreases refs@.len() - k,
    {
        let t = ref_line_text(&refs[k]);
        let line = labelled("  - ", t.as_str());
        push_line(out, line);
        proof {
            assert(bullet_lines(texts.take(k + 1)) =~= bullet_lines(texts.take(k as int)).push(
                "  - "@ + texts[k as int],
            ));
        }
        k += 1;
    }
    proof {
        assert(texts.take(k as int) =~= texts);
    }
}

/// The body as the text view shows it.
fn body_view(body: &String, all: bool) -> (r: String)
    ensures
        r@ == body_text(body@, all),
{
    let len = str_byte_len(body.as_str());
    if len == 0 {
        proof {
            if body@.len() > 0 {
                lemma_byte_len_take_next(body@, 0);
                lemma_byte_len_take_le(body@, 1);
                assert(body@.take(0) =~= Seq::<char>::empty());
            }
        }
        String::from_str("(no content)")
    } else if all || len <= TEXT_BODY_PREVIEW_BYTES {
        proof {
            assert(body@.len() > 0);
        }
        body.clone()
    } else {
        let cs = chars_of(body.as_str());
        let k = floor_chars_of(cs.as_slice(), TEXT_BODY_PREVIEW_BYTES);
        let safe_end = floor_char_boundary(body.as_str(), TEXT_BODY_PREVIEW_BYTES);
        proof {
            lemma_floor_chars_bound(cs@, TEXT_BODY_PREVIEW_BYTES as int);
        }
        let head = copy_range(cs.as_slice(), 0, k);
        let mut s = string_from_chars(head.as_slice());
        s.append("...[truncated ");
        let n = usize_to_decimal(len - safe_end);
        s.append(n.as_str());
        s.append(" bytes, use --all for full body]");
        proof {
            assert(head@ =~= body@.take(k as int));
            assert(body@.len() > 0);
        }
        s
    }
}

/// Sixty `═`.
fn rule_text() -> (r: String)
    ensures
        r@ == rule_line(),
{
    let mut rule = String::new();
    let mut i: usize = 0;
    while i < 60
        invariant
            i <= 60,
            rule@ == Seq::new(i as nat, |j: int| '═'),
        decreases 60 - i,
    {
        push_char(&mut rule, '═');
        i += 1;
        proof {
            assert(rule@ =~= Seq::new(i as nat, |j: int| '═'));
        }
    }
    rule
}

/// Appends the title block.
fn push_header(out: &mut Vec<String>, o: &InspectOutput)
    ensures
        strs(final(out)@) == strs(old(out)@) + header_lines(*o),
{
    let ghost start = strs(out@);
    push_line(out, labelled("Skill: ", o.name.as_str()));
    push_line(out, rule_text());
    push_line(out, labelled("Source: ", o.source.as_str()));
    push_opt(out, "Path: ", &o.path);
    push_line(out, labelled("Description: ", o.description.as_str()));
    let ghost before_triggers = strs(out@);
    if o.triggers.len() > 0 {
        let j = join_strings(&o.triggers, ", ");
        push_line(out, labelled("Triggers: ", j.as_str()));
    } else {
        proof {
            assert(before_triggers + Seq::<Seq<char>>::empty() =~= before_triggers);
        }
    }
    proof {
        assert(strs(out@) =~= start + header_lines(*o));
    }
}

/// Appends the usage block.
fn push_usage(out: &mut Vec<String>, u: &UsageOutput)
    ensures
        strs(final(out)@) == strs(old(out)@) + usage_lines(*u),
{
    let ghost start = strs(out@);
    push_line(out, String::from_str("Usage:"));
    let uc = i64_to_decimal(u.use_count);
    push_line(out, labelled("  Use count: ", uc.as_str()));
    let vc = i64_to_decimal(u.view_count);
    push_line(out, labelled("  View count: ", vc.as_str()));
    push_opt(out, "  Last used: ", &u.last_used_at);
    let ghost before_pinned = strs(out@);
    if u.pinned {
        push_line(out, String::from_str("  Pinned: true"));
    } else {
        proof {
            assert(before_pinned + Seq::<Seq<char>>::empty() =~= before_pinned);
        }
    }
    proof {
        assert(strs(out@) =~= start + usage_lines(*u));
    }
}

/// Appends the conditions block.
fn push_conditions(out: &mut Vec<String>, c: &ConditionsOutput, all: bool)
    ensures
        strs(final(out)@) == strs(old(out)@) + condition_lines(*c, all),
{
    let ghost start = strs(out@);
    let any = c.requires_tools.len() > 0 || c.requires_toolsets.len() > 0
        || c.fallback_for_tools.len() > 0 || c.fallback_for_toolsets.len() > 0;
    if any || all {
        push_line(out, String::from_str("Conditions:"));
        push_cond(out, "requires_tools", &c.requires_tools, all);
        push_cond(out, "requires_toolsets", &c.requires_toolsets, all);
        push_cond(out, "fallback_for_tools", &c.fallback_for_tools, all);
        push_cond(out, "fallback_for_toolsets", &c.fallback_for_toolsets, all);
    }
    proof {
        assert(strs(out@) =~= start + condition_lines(*c, all));
    }
}

/// Appends the supporting files block.
fn push_supporting(out: &mut Vec<String>, refs: &Vec<String>, all: bool)
    ensures
        strs(final(out)@) == strs(old(out)@) + supporting_lines(refs@, all),
{
    let ghost start = strs(out@);
    if refs.len() > 0 {
        push_line(out, String::from_str("Supporting files:"));
        push_bullets(out, refs);
    } else if all {
        push_line(out, String::from_str("Supporting files:"));
        push_line(out, String::from_str("  references: (none)"));
    }
    proof {
        assert(strs(out@) =~= start + supporting_lines(refs@, all));
    }
}

/// Appends the embedded references block.
fn push_embedded(out: &mut Vec<String>, emb: &Vec<EmbeddedReferenceOutput>, all: bool)
    ensures
        strs(final(out)@) == strs(old(out)@) + embedded_lines(emb@, all),
{
    let ghost start = strs(out@);
    if emb.len() > 0 {
        push_line(out, String::from_str("Embedded references:"));
        push_ref_bullets(out, emb);
    } else if all {
        push_line(out, String::from_str("Embedded references:"));
        push_line(out, String::from_str("  (none)"));
    }
    proof {
        assert(strs(out@) =~= start + embedded_lines(emb@, all));
    }
}

impl InspectOutput {
    /// The text view, one entry per printed line: title, usage, the
    /// conditions, supporting files and embedded references (each block
    /// shown when it has content or `all` is set, with `(none)` for empty
    /// lists under `all`), then the body, cut to about 1.2 KiB unless `all`.
    pub fn render_text(&self, all: bool) -> (lines: Vec<String>)
        ensures
            strs(lines@) == text_view_lines(*self, all),
    {
        let mut out: Vec<String> = Vec::new();
        proof {
            assert(strs(out@) =~= Seq::<Seq<char>>::empty());
        }
        push_header(&mut out, self);
        let ghost a = strs(out@);
        push_usage(&mut out, &self.usage);
        let ghost b = strs(out@);
        push_conditions(&mut out, &self.conditions, all);
        let ghost c = strs(out@);
        push_supporting(&mut out, &self.supporting_files.references, all);
        let ghost d = strs(out@);
        push_embedded(&mut out, &self.embedded_references, all);
        let ghost e = strs(out@);
        push_line(&mut out, String::new());
        push_line(&mut out, String::from_str("Body:"));
        push_line(&mut out, body_view(&self.body, all));
        proof {
            assert(a =~= header_lines(*self));
            assert(strs(out@) =~= text_view_lines(*self, all));
        }
        out
    }
}

/// A line of the conditions block of the text view without `--all` is also
/// a line of the whole text view.
proof fn lemma_condition_line_in_text_view(o: InspectOutput, i: int)
    requires
        0 <= i < condition_lines(o.conditions, false).len(),
    ensures
        text_view_lines(o, false).contains(condition_lines(o.conditions, false)[i]),
{
    let pre = header_lines(o) + usage_lines(o.usage);
    let cl = condition_lines(o.conditions, false);
    let tv = text_view_lines(o, false);
    assert(tv[pre.len() + i] == cl[i]);
}

/// In the text view without `--all`, every non-empty condition list (tools
/// and toolsets required, tools and toolsets it stands in for) is shown as
/// a line `  <label>: <values joined by ", ">` of a `Conditions:` block,
/// and that block is left out exactly when all four lists are empty.
pub proof fn law_text_view_shows_every_set_condition(o: InspectOutput)
    ensures
        ({
            let c = o.conditions;
            let cl = condition_lines(c, false);
            let tv = text_view_lines(o, false);
            &&& cl.len() == 0 <==> (c.requires_tools@.len() == 0 && c.requires_toolsets@.len() == 0
                && c.fallback_for_tools@.len() == 0 && c.fallback_for_toolsets@.len() == 0)
            &&& cl.len() > 0 ==> cl[0] == "Conditions:"@ && tv.contains("Conditions:"@)
            &&& c.requires_tools@.len() > 0 ==> tv.contains(
                "  requires_tools: "@ + join(strs(c.requires_tools@), ", "@),
            )
            &&& c.requires_toolsets@.len() > 0 ==> tv.contains(
                "  requires_toolsets: "@ + join(strs(c.requires_toolsets@), ", "@),
            )
            &&& c.fallback_for_tools@.len() > 0 ==> tv.contains(
                "  fallback_for_tools: "@ + join(strs(c.fallback_for_tools@), ", "@),
            )
            &&& c.fallback_for_toolsets@.len() > 0 ==> tv.contains(
                "  fallback_for_toolsets: "@ + join(strs(c.fallback_for_toolsets@), ", "@),
            )
        }),
{
    reveal_strlit("  ");
    reveal_strlit(": ");
    reveal_strlit("requires_tools");
    reveal_strlit("requires_toolsets");
    reveal_strlit("fallback_for_tools");
    reveal_strlit("fallback_for_toolsets");
    reveal_strlit("  requires_tools: ");
    reveal_strlit("  requires_toolsets: ");
    reveal_strlit("  fallback_for_tools: ");
    reveal_strlit("  fallback_for_toolsets: ");
    let c = o.conditions;
    let cl = condition_lines(c, false);
    assert(("  "@ + "requires_tools"@ + ": "@) =~= "  requires_tools: "@);
    assert(("  "@ + "requires_toolsets"@ + ": "@) =~= "  requires_toolsets: "@);
    assert(("  "@ + "fallback_for_tools"@ + ": "@) =~= "  fallback_for_tools: "@);
    assert(("  "@ + "fallback_for_toolsets"@ + ": "@) =~= "  fallback_for_toolsets: "@);
    let l1 = cond_line("requires_tools"@, c.requires_tools@, false);
    let l2 = cond_line("requires_toolsets"@, c.requires_toolsets@, false);
    let l3 = cond_line("fallback_for_tools"@, c.fallback_for_tools@, false);
    let l4 = cond_line("fallback_for_toolsets"@, c.fallback_for_toolsets@, false);
    if has_any_condition(c) {
        assert(cl =~= seq!["Conditions:"@] + l1 + l2 + l3 + l4);
        lemma_condition_line_in_text_view(o, 0);
        if c.requires_tools@.len() > 0 {
            lemma_condition_line_in_text_view(o, 1);
        }
        if c.requires_toolsets@.len() > 0 {
            lemma_condition_line_in_text_view(o, 1 + l1.len() as int);
        }
        if c.fallback_for_tools@.len() > 0 {
            lemma_condition_line_in_text_view(o, 1 + l1.len() + l2.len() as int);
        }
        if c.fallback_for_toolsets@.len() > 0 {
            lemma_condition_line_in_text_view(o, 1 + l1.len() + l2.len() + l3.len() as int);
        }
    }
}

/// The messages of the flag combinations that `inspect` refuses.
pub open spec fn bad_combo(read_file: bool, all: bool, json: bool) -> Option<Seq<char>> {
    if read_file && all {
        Some("--read-file cannot be combined with --all"@)
    } else if read_file && json {
        Some("--read-file cannot be combined with --json"@)
    } else {
        None
    }
}

/// Refuses `--read-file` together with `--all` or `--json`.
pub fn check_flag_combination(read_file: bool, all: bool, json: bool) -> (r: Result<
    (),
    SkillInspectError,
>)
    ensures
        match bad_combo(read_file, all, json) {
            None => r is Ok,
            Some(msg) => r matches Err(SkillInspectError::BadCombo(m)) && m@ == msg,
        },
{
    if read_file {
        if all {
            return Err(
                SkillInspectError::BadCombo(
                    String::from_str("--read-file cannot be combined with --all"),
                ),
            );
        }
        if json {
            return Err(
                SkillInspectError::BadCombo(
                    String::from_str("--read-file cannot be combined with --json"),
                ),
            );
        }
    }
    Ok(())
}

/// The view of an optional text.
pub open spec fn opt_text(o: Option<&str>) -> Option<Seq<char>> {
    match o {
        Some(s) => Some(s@),
        None => None,
    }
}

/// Whether a skill `(name, source label)` matches the requested name and,
/// when one is given, the requested source.
pub open spec fn candidate_matches(e: (String, String), name: Seq<char>, source: Option<Seq<char>>) -> bool {
    e.0@ == name && match source {
        Some(src) => e.1@ == src,
        None => true,
    }
}

/// The positions of the matching skills, in order.
pub open spec fn matching_indices(
    skills: Seq<(String, String)>,
    name: Seq<char>,
    source: Option<Seq<char>>,
) -> Seq<int>
    decreases skills.len(),
{
    if skills.len() == 0 {
        Seq::empty()
    } else {
        let prev = matching_indices(skills.drop_last(), name, source);
        if candidate_matches(skills.last(), name, source) {
            prev.push(skills.len() - 1)
        } else {
            prev
        }
    }
}

proof fn lemma_matching_indices_bound(
    skills: Seq<(String, String)>,
    name: Seq<char>,
    source: Option<Seq<char>>,
)
    ensures
        forall|j: int|
            0 <= j < matching_indices(skills, name, source).len() ==> 0 <= #[trigger] matching_indices(
                skills,
                name,
                source,
            )[j] < skills.len(),
    decreases skills.len(),
{
    if skills.len() > 0 {
        lemma_matching_indices_bound(skills.drop_last(), name, source);
        let prev = matching_indices(skills.drop_last(), name, source);
        let m = matching_indices(skills, name, source);
        assert forall|j: int| 0 <= j < m.len() implies 0 <= #[trigger] m[j] < skills.len() by {
            if j < prev.len() {
                assert(m[j] == prev[j]);
            }
        }
    }
}

/// Picks the one skill that matches `name` (and `source`, when given) among
/// `skills`, each given as its name and source label.  No match is
/// `NotFound`, several are `Ambiguous` with the matching entries in order.
pub fn resolve_candidate(skills: &Vec<(String, String)>, name: &str, source: Option<&str>) -> (r:
    Result<usize, SkillInspectError>)
    ensures
        ({
            let m = matching_indices(skills@, name@, opt_text(source));
            match r {
                Ok(i) => m.len() == 1 && i == m[0],
                Err(SkillInspectError::NotFound(n)) => m.len() == 0 && n@ == name@,
                Err(SkillInspectError::Ambiguous(c)) => m.len() > 1 && c@ == m.map_values(
                    |i: int| skills@[i],
                ),
                Err(_) => false,
            }
        }),
{
    let name_s = name.to_owned();
    let source_s: Option<String> = match source {
        Some(src) => Some(src.to_owned()),
        None => None,
    };
    let ghost src_view = opt_text(source);
    let mut found: Vec<usize> = Vec::new();
    let mut k: usize = 0;
    while k < skills.len()
        invariant
            k <= skills@.len(),
            name_s@ == name@,
            match source_s {
                Some(t) => src_view == Some(t@),
                None => src_view is None,
            },
            src_view == opt_text(source),
            found@.map_values(|i: usize| i as int) == matching_indices(
                skills@.take(k as int),
                name@,
                src_view,
            ),
        decreases skills@.len() - k,
    {
        proof {
            assert(skills@.take(k + 1).drop_last() =~= skills@.take(k as int));
            assert(skills@.take(k + 1).last() == skills@[k as int]);
        }
        let e = &skills[k];
        let name_ok = e.0 == name_s;
        let source_ok = match &source_s {
            Some(t) => e.1 == *t,
            None => true,
        };
        if name_ok && source_ok {
            found.push(k);
            proof {
                assert(found@.map_values(|i: usize| i as int) =~= matching_indices(
                    skills@.take(k as int),
                    name@,
                    src_view,
                ).push(k as int));
            }
        }
        k += 1;
    }
    proof {
        assert(skills@.take(k as int) =~= skills@);
        lemma_matching_indices_bound(skills@, name@, src_view);
    }
    let ghost m = matching_indices(skills@, name@, src_view);
    if found.len() == 0 {
        Err(SkillInspectError::NotFound(name_s))
    } else if found.len() == 1 {
        proof {
            assert(found@.map_values(|i: usize| i as int)[0] == found@[0] as int);
        }
        Ok(found[0])
    } else {
        let mut c: Vec<(String, String)> = Vec::new();
        let mut j: usize = 0;
        while j < found.len()
            invariant
                j <= found@.len(),
                found@.map_values(|i: usize| i as int) == m,
                forall|t: int| 0 <= t < m.len() ==> 0 <= #[trigger] m[t] < skills@.len(),
                c@ == m.take(j as int).map_values(|i: int| skills@[i]),
            decreases found@.len() - j,
        {
            let idx = found[j];
            proof {
                assert(m[j as int] == idx as int);
            }
            let pair = (skills[idx].0.clone(), skills[idx].1.clone());
            c.push(pair);
            proof {
                assert(c@ =~= m.take(j + 1).map_values(|i: int| skills@[i]));
            }
            j += 1;
        }
        proof {
            assert(m.take(j as int) =~= m);
        }
        Err(SkillInspectError::Ambiguous(c))
    }
}

/// `std::io::Error::new` with kind `NotFound` and `message`, the error
/// `--read-file` reports for a file that a builtin skill does not embed.
/// Nothing is stated of the value, which this library only carries.
#[verifier::external_body]
fn not_found_error(message: &str) -> std::io::Error {
    std::io::Error::new(std::io::ErrorKind::NotFound, message)
}

/// Whether `i` is the first position of `files` whose name is `name`.
pub open spec fn first_named(files: Seq<(String, String)>, name: Seq<char>, i: int) -> bool {
    &&& 0 <= i < files.len()
    &&& files[i].0@ == name
    &&& forall|j: int| 0 <= j < i ==> (#[trigger] files[j]).0@ != name
}

/// The content of the embedded file named exactly `path` (the first one),
/// or `FileNotFound` with `path` when none has that name.
pub fn find_embedded_file(files: &Vec<(String, String)>, path: &str) -> (r: Result<
    String,
    SkillInspectError,
>)
    ensures
        match r {
            Ok(content) => exists|i: int| first_named(files@, path@, i) && content == files@[i].1,
            Err(SkillInspectError::FileNotFound(p, _)) => p@ == path@ && forall|i: int|
                0 <= i < files@.len() ==> (#[trigger] files@[i]).0@ != path@,
            Err(_) => false,
        },
{
    let path_s = path.to_owned();
    let mut k: usize = 0;
    while k < files.len()
        invariant
            k <= files@.len(),
            path_s@ == path@,
            forall|j: int| 0 <= j < k ==> (#[trigger] files@[j]).0@ != path@,
        decreases files@.len() - k,
    {
        if files[k].0 == path_s {
            proof {
                assert(first_named(files@, path@, k as int));
            }
            return Ok(files[k].1.clone());
        }
        k += 1;
    }
    Err(SkillInspectError::FileNotFound(path_s, not_found_error("not in embedded_files")))
}

/// The message for a file over [`MAX_FILE_SIZE_BYTES`].
pub open spec fn too_large_message(path: Seq<char>, len: u64) -> Seq<char> {
    "file '"@ + path + "' exceeds the "@ + decimal(MAX_FILE_SIZE_BYTES as int) + " byte limit (is "@
        + decimal(len as int) + " bytes)"@
}

/// Refuses a file of `len` bytes over the `--read-file` limit.
pub fn check_file_size(path: &str, len: u64) -> (r: Result<(), SkillInspectError>)
    ensures
        len <= MAX_FILE_SIZE_BYTES ==> r is Ok,
        len > MAX_FILE_SIZE_BYTES ==> (r matches Err(SkillInspectError::BadCombo(m)) && m@
            == too_large_message(path@, len)),
{
    if within_size_limit(len) {
        Ok(())
    } else {
        let mut m = String::from_str("file '");
        m.append(path);
        m.append("' exceeds the ");
        let max = u64_to_decimal(MAX_FILE_SIZE_BYTES);
        m.append(max.as_str());
        m.append(" byte limit (is ");
        let n = u64_to_decimal(len);
        m.append(n.as_str());
        m.append(" bytes)");
        Err(SkillInspectError::BadCombo(m))
    }
}

/// What the report reads of a discovered skill, as plain values: paths are
/// given as text (empty when the skill has none).
#[derive(Debug, Clone)]
pub struct SkillEntryInfo {
    pub name: String,
    pub source_label: String,
    pub base_path: String,
    pub skill_file: String,
    pub is_builtin: bool,
    pub category: Option<String>,
    pub category_desc: Option<String>,
    pub description: String,
    pub triggers: Vec<String>,
    pub tags: Vec<String>,
    pub requires_tools: Vec<String>,
    pub requires_toolsets: Vec<String>,
    pub fallback_for_tools: Vec<String>,
    pub fallback_for_toolsets: Vec<String>,
    pub required_env_vars: Vec<String>,
    pub prerequisites: Option<Vec<String>>,
    pub related_skills: Option<Vec<String>>,
    pub embedded_files: Option<Vec<(String, String)>>,
    pub embedded_content: Option<String>,
}

/// A skill's usage record, as the usage store keeps it.
#[derive(Debug, Clone)]
pub struct SkillUsage {
    pub name: String,
    pub use_count: i64,
    pub view_count: i64,
    pub patch_count: i64,
    pub last_used_at: Option<String>,
    pub last_viewed_at: Option<String>,
    pub last_patched_at: Option<String>,
    pub created_at: Option<String>,
    pub state: Option<String>,
    pub pinned: bool,
    pub archived_at: Option<String>,
    pub absorbed_into: Option<String>,
    pub created_by: Option<String>,
}

/// The usage section for a usage record, or all zero and empty without one.
/// The last activity is the last use.
pub open spec fn usage_of(u: Option<SkillUsage>) -> UsageOutput {
    match u {
        Some(u) => UsageOutput {
            use_count: u.use_count,
            view_count: u.view_count,
            patch_count: u.patch_count,
            last_used_at: u.last_used_at,
            last_viewed_at: u.last_viewed_at,
            last_patched_at: u.last_patched_at,
            last_activity_at: u.last_used_at,
            created_at: u.created_at,
            state: u.state,
            pinned: u.pinned,
            archived_at: u.archived_at,
            absorbed_into: u.absorbed_into,
            created_by: u.created_by,
        },
        None => UsageOutput {
            use_count: 0,
            view_count: 0,
            patch_count: 0,
            last_used_at: None,
            last_viewed_at: None,
            last_patched_at: None,
            last_activity_at: None,
            created_at: None,
            state: None,
            pinned: false,
            archived_at: None,
            absorbed_into: None,
            created_by: None,
        },
    }
}

/// The text of an optional path: none when empty.
pub open spec fn path_text(p: String) -> Option<String> {
    if p@.len() == 0 {
        None
    } else {
        Some(p)
    }
}

/// The strings of an optional list, none when absent.
pub open spec fn list_or_empty(v: Option<Vec<String>>) -> Seq<String> {
    match v {
        Some(v) => v@,
        None => Seq::empty(),
    }
}

/// The files of an optional list, none when absent.
pub open spec fn files_or_empty(v: Option<Vec<(String, String)>>) -> Seq<(String, String)> {
    match v {
        Some(v) => v@,
        None => Seq::empty(),
    }
}

/// A copy of an optional string.
fn clone_opt(o: &Option<String>) -> (r: Option<String>)
    ensures
        r == *o,
{
    match o {
        Some(s) => Some(s.clone()),
        None => None,
    }
}

/// A copy of a list of strings.
fn clone_strings(v: &Vec<String>) -> (r: Vec<String>)
    ensures
        r@ == v@,
{
    let mut r: Vec<String> = Vec::new();
    let mut k: usize = 0;
    while k < v.len()
        invariant
            k <= v@.len(),
            r@ == v@.take(k as int),
        decreases v@.len() - k,
    {
        r.push(v[k].clone());
        k += 1;
        proof {
            assert(r@ =~= v@.take(k as int));
        }
    }
    proof {
        assert(v@.take(k as int) =~= v@);
    }
    r
}

/// A copy of an optional list, empty when absent.
fn strings_or_empty(v: &Option<Vec<String>>) -> (r: Vec<String>)
    ensures
        r@ == list_or_empty(*v),
{
    match v {
        Some(v) => clone_strings(v),
        None => Vec::new(),
    }
}

/// The path's text, none when empty.
fn path_or_none(p: &String) -> (r: Option<String>)
    ensures
        r == path_text(*p),
{
    if p.as_str().is_empty() {
        None
    } else {
        Some(p.clone())
    }
}

/// The usage section for an optional usage record.
fn usage_output(u: Option<&SkillUsage>) -> (r: UsageOutput)
    ensures
        r == usage_of(
            match u {
                Some(u) => Some(*u),
                None => None,
            },
        ),
{
    match u {
        Some(u) => UsageOutput {
            use_count: u.use_count,
            view_count: u.view_count,
            patch_count: u.patch_count,
            last_used_at: clone_opt(&u.last_used_at),
            last_viewed_at: clone_opt(&u.last_viewed_at),
            last_patched_at: clone_opt(&u.last_patched_at),
            last_activity_at: clone_opt(&u.last_used_at),
            created_at: clone_opt(&u.created_at),
            state: clone_opt(&u.state),
            pinned: u.pinned,
            archived_at: clone_opt(&u.archived_at),
            absorbed_into: clone_opt(&u.absorbed_into),
            created_by: clone_opt(&u.created_by),
        },
        None => UsageOutput {
            use_count: 0,
            view_count: 0,
            patch_count: 0,
            last_used_at: None,
            last_viewed_at: None,
            last_patched_at: None,
            last_activity_at: None,
            created_at: None,
            state: None,
            pinned: false,
            archived_at: None,
            absorbed_into: None,
            created_by: None,
        },
    }
}

impl InspectOutput {
    /// The report of a skill and its usage record (all zero without one):
    /// the skill's fields as they are, a path only when not empty, readiness
    /// `ready`, the supporting files by directory and the embedded
    /// references, and the embedded content as the body.
    pub fn from_entry(entry: &SkillEntryInfo, usage: Option<&SkillUsage>) -> (o: InspectOutput)
        ensures
            o.name@ == entry.name@,
            o.source@ == entry.source_label@,
            o.source_raw@ == entry.source_label@,
            o.path == path_text(entry.base_path),
            o.skill_file == path_text(entry.skill_file),
            o.is_builtin == entry.is_builtin,
            o.readiness.status@ == "ready"@,
            o.readiness.missing_env_vars@.len() == 0,
            o.readiness.unsupported_reason is None,
            o.category == entry.category,
            o.category_desc == entry.category_desc,
            o.description@ == entry.description@,
            o.triggers@ == entry.triggers@,
            o.tags@ == entry.tags@,
            o.conditions.requires_tools@ == entry.requires_tools@,
            o.conditions.requires_toolsets@ == entry.requires_toolsets@,
            o.conditions.fallback_for_tools@ == entry.fallback_for_tools@,
            o.conditions.fallback_for_toolsets@ == entry.fallback_for_toolsets@,
            o.required_env_vars@ == entry.required_env_vars@,
            o.prerequisites.commands@ == list_or_empty(entry.prerequisites),
            o.related_skills@ == list_or_empty(entry.related_skills),
            strs(o.supporting_files.references@) == names_of_kind(
                files_or_empty(entry.embedded_files),
                0,
            ),
            strs(o.supporting_files.templates@) == names_of_kind(
                files_or_empty(entry.embedded_files),
                1,
            ),
            strs(o.supporting_files.scripts@) == names_of_kind(
                files_or_empty(entry.embedded_files),
                2,
            ),
            strs(o.supporting_files.assets@) == names_of_kind(
                files_or_empty(entry.embedded_files),
                3,
            ),
            o.embedded_references@.map_values(|x: EmbeddedReferenceOutput| ref_view(x)) == refs_of(
                files_or_empty(entry.embedded_files),
                seq!["references/"@],
            ),
            o.usage == usage_of(
                match usage {
                    Some(u) => Some(*u),
                    None => None,
                },
            ),
            o.body@ == match entry.embedded_content {
                Some(c) => c@,
                None => Seq::<char>::empty(),
            },
            o.frontmatter_raw@.len() == 0,
    {
        let files: Option<&Vec<(String, String)>> = match &entry.embedded_files {
            Some(f) => Some(f),
            None => None,
        };
        let (supporting_files, embedded_references) = collect_supporting_files_and_refs(files);
        let body = match &entry.embedded_content {
            Some(c) => c.clone(),
            None => String::new(),
        };
        InspectOutput {
            name: entry.name.clone(),
            source: entry.source_label.clone(),
            source_raw: entry.source_label.clone(),
            path: path_or_none(&entry.base_path),
            skill_file: path_or_none(&entry.skill_file),
            is_builtin: entry.is_builtin,
            readiness: ReadinessOutput {
                status: String::from_str("ready"),
                missing_env_vars: Vec::new(),
                unsupported_reason: None,
            },
            category: clone_opt(&entry.category),
            category_desc: clone_opt(&entry.category_desc),
            description: entry.description.clone(),
            triggers: clone_strings(&entry.triggers),
            tags: clone_strings(&entry.tags),
            conditions: ConditionsOutput {
                requires_tools: clone_strings(&entry.requires_tools),
                requires_toolsets: clone_strings(&entry.requires_toolsets),
                fallback_for_tools: clone_strings(&entry.fallback_for_tools),
                fallback_for_toolsets: clone_strings(&entry.fallback_for_toolsets),
            },
            required_env_vars: clone_strings(&entry.required_env_vars),
            prerequisites: PrerequisitesOutput { commands: strings_or_empty(&entry.prerequisites) },
            related_skills: strings_or_empty(&entry.related_skills),
            supporting_files,
            embedded_references,
            usage: usage_output(usage),
            body,
            frontmatter_raw: String::new(),
        }
    }
}

/// The position of the first usage record named `name`, if any.
pub fn find_usage(entries: &Vec<SkillUsage>, name: &str) -> (r: Option<usize>)
    ensures
        match r {
            Some(i) => i < entries@.len() && entries@[i as int].name@ == name@ && forall|j: int|
                0 <= j < i ==> (#[trigger] entries@[j]).name@ != name@,
            None => forall|j: int| 0 <= j < entries@.len() ==> (#[trigger] entries@[j]).name@ != name@,
        },
{
    let name_s = name.to_owned();
    let mut k: usize = 0;
    while k < entries.len()
        invariant
            k <= entries@.len(),
            name_s@ == name@,
            forall|j: int| 0 <= j < k ==> (#[trigger] entries@[j]).name@ != name@,
        decreases entries@.len() - k,
    {
        if entries[k].name == name_s {
            return Some(k);
        }
        k += 1;
    }
    None
}

/// What `inspect` does once the skill is chosen.
#[derive(Debug)]
pub enum InspectStep {
    /// Print this embedded file of a builtin skill.
    PrintFile(String),
    /// Read and print `path` under the directory of skill `entry` (after the
    /// path and size checks).
    ReadDiskFile { entry: usize, path: String },
    /// Emit the report of skill `entry` as JSON.
    ShowJson { entry: usize },
    /// Print the text view of skill `entry`.
    ShowText { entry: usize },
}

/// The (name, source label) pairs of the skills.
pub open spec fn pairs_of(entries: Seq<SkillEntryInfo>) -> Seq<(String, String)> {
    entries.map_values(|e: SkillEntryInfo| (e.name, e.source_label))
}

/// What `inspect` does, or the error it reports: the flag combination is
/// checked first, then the skill is resolved by name (and source), then
/// `--read-file` reads an embedded file of a builtin skill (by exact name)
/// or a file under a skill's directory; without it the report is shown as
/// JSON or text.
pub fn plan_inspect(
    entries: &Vec<SkillEntryInfo>,
    name: &str,
    source: Option<&str>,
    read_file: Option<&str>,
    all: bool,
    json: bool,
) -> (r: Result<InspectStep, SkillInspectError>)
    ensures
        match bad_combo(read_file is Some, all, json) {
            Some(msg) => r matches Err(SkillInspectError::BadCombo(m)) && m@ == msg,
            None => {
                let pairs = pairs_of(entries@);
                let m = matching_indices(pairs, name@, opt_text(source));
                if m.len() == 0 {
                    r matches Err(SkillInspectError::NotFound(n)) && n@ == name@
                } else if m.len() > 1 {
                    r matches Err(SkillInspectError::Ambiguous(c)) && c@ == m.map_values(
                        |i: int| pairs[i],
                    )
                } else {
                    let e = entries@[m[0]];
                    let files = files_or_empty(e.embedded_files);
                    match read_file {
                        Some(p) => if e.is_builtin {
                            match r {
                                Ok(InspectStep::PrintFile(c)) => exists|i: int|
                                    first_named(files, p@, i) && c == files[i].1,
                                Err(SkillInspectError::FileNotFound(q, _)) => q@ == p@ && forall|
                                    i: int,
                                | 0 <= i < files.len() ==> (#[trigger] files[i]).0@ != p@,
                                _ => false,
                            }
                        } else {
                            r matches Ok(InspectStep::ReadDiskFile { entry, path }) && entry
                                == m[0] && path@ == p@
                        },
                        None => if json {
                            r matches Ok(InspectStep::ShowJson { entry }) && entry == m[0]
                        } else {
                            r matches Ok(InspectStep::ShowText { entry }) && entry == m[0]
                        },
                    }
                }
            },
        },
{
    match check_flag_combination(read_file.is_some(), all, json) {
        Err(e) => return Err(e),
        Ok(()) => {},
    }
    let mut pairs: Vec<(String, String)> = Vec::new();
    let mut k: usize = 0;
    while k < entries.len()
        invariant
            k <= entries@.len(),
            pairs@ == pairs_of(entries@).take(k as int),
        decreases entries@.len() - k,
    {
        pairs.push((entries[k].name.clone(), entries[k].source_label.clone()));
        k += 1;
        proof {
            assert(pairs@ =~= pairs_of(entries@).take(k as int));
        }
    }
    proof {
        assert(pairs_of(entries@).take(k as int) =~= pairs_of(entries@));
    }
    let idx = match resolve_candidate(&pairs, name, source) {
        Ok(i) => i,
        Err(e) => return Err(e),
    };
    proof {
        lemma_matching_indices_bound(pairs@, name@, opt_text(source));
    }
    let e = &entries[idx];
    match read_file {
        Some(p) => {
            if e.is_builtin {
                let empty: Vec<(String, String)> = Vec::new();
                let files = match &e.embedded_files {
                    Some(f) => f,
                    None => &empty,
                };
                proof {
                    assert(files@ == files_or_empty(e.embedded_files));
                }
                match find_embedded_file(files, p) {
                    Ok(c) => Ok(InspectStep::PrintFile(c)),
                    Err(err) => Err(err),
                }
            } else {
                Ok(InspectStep::ReadDiskFile { entry: idx, path: p.to_owned() })
            }
        },
        None => {
            if json {
                Ok(InspectStep::ShowJson { entry: idx })
            } else {
                Ok(InspectStep::ShowText { entry: idx })
            }
        },
    }
}


/// Whether a path whose components (as bytes) are `target` lies within the
/// directory whose components are `dir`: `dir`'s components are the first
/// ones of `target` (as `Path::starts_with` compares whole components).
pub open spec fn components_within(dir: Seq<Seq<u8>>, target: Seq<Seq<u8>>) -> bool {
    dir.len() <= target.len() && forall|i: int| 0 <= i < dir.len() ==> target[i] == dir[i]
}

/// The byte views of path components.
pub open spec fn component_views(v: Seq<Vec<u8>>) -> Seq<Seq<u8>> {
    v.map_values(|c: Vec<u8>| c@)
}

fn same_bytes(a: &Vec<u8>, b: &Vec<u8>) -> (r: bool)
    ensures
        r == (a@ == b@),
{
    if a.len() != b.len() {
        return false;
    }
    let mut i: usize = 0;
    while i < a.len()
        invariant
            a@.len() == b@.len(),
            i <= a@.len(),
            forall|j: int| 0 <= j < i ==> a@[j] == b@[j],
        decreases a@.len() - i,
    {
        if a[i] != b[i] {
            return false;
        }
        i += 1;
    }
    proof {
        assert(a@ =~= b@);
    }
    true
}

/// Whether the resolved file (components `target`) lies within the
/// resolved skill directory (components `dir`); a file outside it is a
/// path traversal that `--read-file` refuses.
pub fn path_within(dir: &Vec<Vec<u8>>, target: &Vec<Vec<u8>>) -> (b: bool)
    ensures
        b == components_within(component_views(dir@), component_views(target@)),
{
    if dir.len() > target.len() {
        return false;
    }
    let mut i: usize = 0;
    while i < dir.len()
        invariant
            dir@.len() <= target@.len(),
            i <= dir@.len(),
            forall|j: int| 0 <= j < i ==> target@[j]@ == dir@[j]@,
        decreases dir@.len() - i,
    {
        if !same_bytes(&dir[i], &target[i]) {
            proof {
                assert(component_views(target@)[i as int] != component_views(dir@)[i as int]);
            }
            return false;
        }
        i += 1;
    }
    proof {
        assert forall|j: int| 0 <= j < dir@.len() implies component_views(target@)[j]
            == component_views(dir@)[j] by {
            assert(target@[j]@ == dir@[j]@);
        }
    }
    true
}

} // verus!
