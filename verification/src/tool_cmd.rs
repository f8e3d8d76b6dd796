//! The `tool` subcommand's text: the table of tools and how a tool
//! definition is shown, as YAML or as JSON.

use vstd::prelude::*;
use vstd::string::*;
use crate::skill_inspect::{floor_chars, floor_chars_of, lemma_floor_chars_bound};
use crate::approval::json_to_string_pretty;
use crate::text::{byte_len, chars_of, copy_range, push_char, str_byte_len, string_from_chars};

verus! {

/// Maximum length in bytes of a description in the list table; longer ones
/// are cut with `...`.
pub const LIST_DESC_MAX_LEN: usize = 60;

/// Output format for `tool show`: YAML (human-readable) or JSON
/// (machine-readable).
#[derive(Debug, Clone, Copy, Default, PartialEq, Eq, Structural)]
pub enum ToolShowFormat {
    #[default]
    Yaml,
    Json,
}

/// `s` padded with spaces on the right to `width` characters (as the
/// `{:<width}` format does).
pub open spec fn pad_right(s: Seq<char>, width: nat) -> Seq<char> {
    if s.len() >= width {
        s
    } else {
        s + Seq::new((width - s.len()) as nat, |i: int| ' ')
    }
}

/// One row of the table.
pub open spec fn table_row(name: Seq<char>, desc: Seq<char>) -> Seq<char> {
    pad_right(name, 30) + " "@ + pad_right(desc, 60) + "\n"@
}

/// A description as the table shows it: cut at the last character boundary
/// within 60 bytes, with `...`, when longer.
pub open spec fn shown_description(d: Seq<char>) -> Seq<char> {
    if byte_len(d) > LIST_DESC_MAX_LEN {
        d.take(floor_chars(d, LIST_DESC_MAX_LEN as int) as int) + "..."@
    } else {
        d
    }
}

/// The description of a tool, empty when it has none.
pub open spec fn description_of(d: Option<String>) -> Seq<char> {
    match d {
        Some(s) => s@,
        None => Seq::empty(),
    }
}

/// The rows of the tools, in order.
pub open spec fn tool_rows(tools: Seq<(String, Option<String>)>) -> Seq<char>
    decreases tools.len(),
{
    if tools.len() == 0 {
        Seq::empty()
    } else {
        tool_rows(tools.drop_last()) + table_row(
            tools.last().0@,
            shown_description(description_of(tools.last().1)),
        )
    }
}

/// The table of tools (name and description): a header, a rule and one row
/// per tool; a message when there is none.
pub open spec fn tools_table(tools: Seq<(String, Option<String>)>) -> Seq<char> {
    if tools.len() == 0 {
        "No tools available."@
    } else {
        table_row("Tool"@, "Description"@) + table_row("----"@, "-----------"@) + tool_rows(tools)
    }
}

/// `s` padded to `width` characters.
pub(crate) fn pad_right_text(s: &str, width: usize) -> (r: String)
    ensures
        r@ == pad_right(s@, width as nat),
{
    let cs = chars_of(s);
    let mut r = s.to_owned();
    let n = cs.len();
    if n >= width {
        return r;
    }
    let mut k: usize = n;
    while k < width
        invariant
            n <= k <= width,
            n == s@.len(),
            r@ == s@ + Seq::new((k - n) as nat, |i: int| ' '),
        decreases width - k,
    {
        push_char(&mut r, ' ');
        k += 1;
        proof {
            assert(r@ =~= s@ + Seq::new((k - n) as nat, |i: int| ' '));
        }
    }
    r
}

/// One row of the table.
fn row_text(name: &str, desc: &str) -> (r: String)
    ensures
        r@ == table_row(name@, desc@),
{
    let mut r = pad_right_text(name, 30);
    r.append(" ");
    let d = pad_right_text(desc, 60);
    r.append(d.as_str());
    r.append("\n");
    r
}

/// A description as the table shows it.
fn shown_description_text(d: &str) -> (r: String)
    ensures
        r@ == shown_description(d@),
{
    let len = str_byte_len(d);
    if len > LIST_DESC_MAX_LEN {
        let cs = chars_of(d);
        let k = floor_chars_of(cs.as_slice(), LIST_DESC_MAX_LEN);
        proof {
            lemma_floor_chars_bound(cs@, LIST_DESC_MAX_LEN as int);
        }
        let head = copy_range(cs.as_slice(), 0, k);
        let mut r = string_from_chars(head.as_slice());
        r.append("...");
        proof {
            assert(head@ =~= d@.take(k as int));
        }
        r
    } else {
        d.to_owned()
    }
}

/// The table of tools, each given by its name and description.
pub fn draw_tools_table(tools: &Vec<(String, Option<String>)>) -> (r: String)
    ensures
        r@ == tools_table(tools@),
{
    if tools.len() == 0 {
        return String::from_str("No tools available.");
    }
    let mut r = row_text("Tool", "Description");
    let sep = row_text("----", "-----------");
    r.append(sep.as_str());
    let ghost head = r@;
    let mut k: usize = 0;
    proof {
        assert(tools@.take(0) =~= Seq::<(String, Option<String>)>::empty());
        assert(head + tool_rows(tools@.take(0)) =~= head);
    }
    while k < tools.len()
        invariant
            k <= tools@.len(),
            r@ == head + tool_rows(tools@.take(k as int)),
        decreases tools@.len() - k,
    {
        proof {
            assert(tools@.take(k + 1).drop_last() =~= tools@.take(k as int));
            assert(tools@.take(k + 1).last() == tools@[k as int]);
        }
        let desc = match &tools[k].1 {
            Some(d) => shown_description_text(d.as_str()),
            None => {
                proof {
                    reveal_strlit("");
                    assert(""@ =~= Seq::<char>::empty());
                }
                shown_description_text("")
            },
        };
        proof {
            assert(desc@ == shown_description(description_of(tools@[k as int].1)));
        }
        let line = row_text(tools[k].0.as_str(), desc.as_str());
        r.append(line.as_str());
        proof {
            assert(r@ =~= head + tool_rows(tools@.take(k + 1)));
        }
        k += 1;
    }
    proof {
        assert(tools@.take(k as int) =~= tools@);
    }
    r
}

/// How `tool show` prints a definition it was given as JSON (`tool`) and/or
/// as YAML text (`tool_yaml`).
#[derive(Debug, Clone, Copy, PartialEq, Eq, Structural)]
pub enum ShowPlan {
    /// Print the YAML text as given.
    PrintYaml,
    /// Convert the JSON value to YAML.
    JsonToYaml,
    /// Print the JSON value pretty.
    PrettyJson,
    /// Parse the YAML text and print it as pretty JSON.
    YamlToJson,
}

/// The plan for a response holding `has_tool` and `has_yaml`: YAML prefers
/// the YAML text, JSON the value; a response with neither is refused.
pub open spec fn show_plan(has_tool: bool, has_yaml: bool, format: ToolShowFormat) -> Option<
    ShowPlan,
> {
    match format {
        ToolShowFormat::Yaml => if has_yaml {
            Some(ShowPlan::PrintYaml)
        } else if has_tool {
            Some(ShowPlan::JsonToYaml)
        } else {
            None
        },
        ToolShowFormat::Json => if has_tool {
            Some(ShowPlan::PrettyJson)
        } else if has_yaml {
            Some(ShowPlan::YamlToJson)
        } else {
            None
        },
    }
}

/// Chooses how to print a tool definition; the error message when the
/// response holds neither form.
pub fn plan_tool_show(has_tool: bool, has_yaml: bool, format: ToolShowFormat) -> (r: Result<
    ShowPlan,
    String,
>)
    ensures
        match show_plan(has_tool, has_yaml, format) {
            Some(p) => r == Ok::<ShowPlan, String>(p),
            None => r matches Err(m) && m@ == "no tool or tool_yaml in response"@,
        },
{
    match format {
        ToolShowFormat::Yaml => {
            if has_yaml {
                Ok(ShowPlan::PrintYaml)
            } else if has_tool {
                Ok(ShowPlan::JsonToYaml)
            } else {
                Err(String::from_str("no tool or tool_yaml in response"))
            }
        },
        ToolShowFormat::Json => {
            if has_tool {
                Ok(ShowPlan::PrettyJson)
            } else if has_yaml {
                Ok(ShowPlan::YamlToJson)
            } else {
                Err(String::from_str("no tool or tool_yaml in response"))
            }
        },
    }
}


/// `serde_yaml::Error`, what converting between YAML and values may fail
/// with.
#[verifier::external_type_specification]
#[verifier::external_body]
pub struct ExYamlError(serde_yaml::Error);

/// A `tool show` response: the tool's definition as a JSON value, as YAML
/// text, or both.
#[derive(Debug, Clone)]
pub struct ToolShowResponse {
    pub id: String,
    pub tool: Option<serde_json::Value>,
    pub tool_yaml: Option<String>,
}

/// Why a tool definition could not be shown.
#[derive(Debug, Clone, PartialEq, Eq)]
pub enum ToolShowError {
    /// Writing the definition in the asked format failed (the writer's
    /// message).
    Conversion(String),
    /// The response cannot be shown: it holds neither form, or its YAML
    /// text does not read (the reader's message).
    Remote(String),
}

/// What converting a definition to the asked format gave.
#[derive(Debug, Clone)]
pub enum Converted {
    /// The text.
    Text(String),
    /// Writing it failed, with this message.
    WriteFailed(String),
    /// Reading the YAML text failed, with this message.
    ReadFailed(String),
}

/// What `serde_yaml::to_string` writes a JSON value as: its YAML text, or
/// `None` where writing fails; a function of the value alone.
pub uninterp spec fn yaml_written(v: serde_json::Value) -> Option<Seq<char>>;

/// What `serde_yaml::from_str` reads a text as, taken as a JSON value, or
/// `None` where the text does not read; a function of the text alone.
pub uninterp spec fn yaml_read(s: Seq<char>) -> Option<serde_json::Value>;

/// `serde_yaml::to_string` on a JSON value: claimed to succeed exactly
/// where [`yaml_written`] gives a text, and to give that text.
#[verifier::external_body]
fn yaml_to_string(v: &serde_json::Value) -> (r: Result<String, serde_yaml::Error>)
    ensures
        (r is Ok) == (yaml_written(*v) is Some),
        r matches Ok(t) ==> yaml_written(*v) == Some(t@),
{
    serde_yaml::to_string(v)
}

/// `serde_yaml::from_str` read as a JSON value: claimed to succeed exactly
/// where [`yaml_read`] gives a value, and to give that value.
#[verifier::external_body]
fn yaml_from_str(s: &str) -> (r: Result<serde_json::Value, serde_yaml::Error>)
    ensures
        (r is Ok) == (yaml_read(s@) is Some),
        r matches Ok(v) ==> yaml_read(s@) == Some(v),
{
    serde_yaml::from_str::<serde_json::Value>(s)
}

/// `serde_yaml::Error`'s `Display`.  The message is not stated.
#[verifier::external_body]
fn yaml_error_text(e: &serde_yaml::Error) -> String {
    e.to_string()
}

/// `serde_json::Error`'s `Display`.  The message is not stated.
#[verifier::external_body]
fn json_error_text(e: &serde_json::Error) -> String {
    e.to_string()
}

/// What is printed for a response under `plan`, given the YAML text it
/// holds and what converting it gave: the YAML text as it is, converted
/// YAML as it is, and JSON followed by a line break; a failed write or
/// read becomes the matching error.
pub open spec fn presented(plan: ShowPlan, yaml: Option<String>, converted: Converted) -> Result<
    Seq<char>,
    ToolShowError,
> {
    match plan {
        ShowPlan::PrintYaml => Ok(
            match yaml {
                Some(y) => y@,
                None => Seq::empty(),
            },
        ),
        _ => match converted {
            Converted::Text(t) => Ok(
                if plan == ShowPlan::JsonToYaml {
                    t@
                } else {
                    t@ + "\n"@
                },
            ),
            Converted::WriteFailed(m) => Err(ToolShowError::Conversion(m)),
            Converted::ReadFailed(m) => Err(ToolShowError::Remote(m)),
        },
    }
}

/// The view of a shown text.
pub open spec fn shown_view(r: Result<String, ToolShowError>) -> Result<Seq<char>, ToolShowError> {
    match r {
        Ok(t) => Ok(t@),
        Err(e) => Err(e),
    }
}

/// What is printed for a response under `plan` (see [`presented`]).
pub fn present_tool_show(plan: ShowPlan, yaml: &Option<String>, converted: Converted) -> (r: Result<
    String,
    ToolShowError,
>)
    ensures
        shown_view(r) == presented(plan, *yaml, converted),
{
    match plan {
        ShowPlan::PrintYaml => Ok(
            match yaml {
                Some(y) => y.clone(),
                None => String::new(),
            },
        ),
        _ => match converted {
            Converted::Text(t) => {
                if plan == ShowPlan::JsonToYaml {
                    Ok(t)
                } else {
                    let mut u = t;
                    u.append("\n");
                    Ok(u)
                }
            },
            Converted::WriteFailed(m) => Err(ToolShowError::Conversion(m)),
            Converted::ReadFailed(m) => Err(ToolShowError::Remote(m)),
        },
    }
}

fn pretty_json(v: &serde_json::Value) -> (c: Converted)
    ensures
        c matches Converted::Text(t) && t@ == crate::approval::pretty_json(*v),
{
    match json_to_string_pretty(v) {
        Ok(t) => Converted::Text(t),
        Err(e) => Converted::WriteFailed(json_error_text(&e)),
    }
}

/// The text `tool show` prints for a response in `format` (YAML printed as
/// it is, JSON followed by a line break): YAML prefers the response's YAML
/// text and else writes its value as YAML; JSON prefers the value, pretty
/// printed, and else reads the YAML text and pretty prints what it reads.
/// A response with neither is refused; a failed write or read is reported.
pub fn format_tool_show_output(r: &ToolShowResponse, format: ToolShowFormat) -> (out: Result<
    String,
    ToolShowError,
>)
    ensures
        match show_plan(r.tool is Some, r.tool_yaml is Some, format) {
            None => out matches Err(ToolShowError::Remote(m)) && m@
                == "no tool or tool_yaml in response"@,
            Some(ShowPlan::PrintYaml) => out matches Ok(t) && r.tool_yaml matches Some(y) && t@
                == y@,
            Some(ShowPlan::JsonToYaml) => match yaml_written(r.tool->0) {
                Some(y) => out matches Ok(t) && t@ == y,
                None => out matches Err(ToolShowError::Conversion(_)),
            },
            Some(ShowPlan::PrettyJson) => out matches Ok(t) && t@ == crate::approval::pretty_json(
                r.tool->0,
            ) + "\n"@,
            Some(ShowPlan::YamlToJson) => match yaml_read(r.tool_yaml->0@) {
                Some(v) => out matches Ok(t) && t@ == crate::approval::pretty_json(v) + "\n"@,
                None => out matches Err(ToolShowError::Remote(_)),
            },
        },
{
    let plan = match plan_tool_show(r.tool.is_some(), r.tool_yaml.is_some(), format) {
        Ok(p) => p,
        Err(m) => {
            return Err(ToolShowError::Remote(m));
        },
    };
    let converted = match plan {
        ShowPlan::PrintYaml => Converted::Text(String::new()),
        ShowPlan::JsonToYaml => match &r.tool {
            Some(v) => match yaml_to_string(v) {
                Ok(t) => Converted::Text(t),
                Err(e) => Converted::WriteFailed(yaml_error_text(&e)),
            },
            None => Converted::Text(String::new()),
        },
        ShowPlan::PrettyJson => match &r.tool {
            Some(v) => pretty_json(v),
            None => Converted::Text(String::new()),
        },
        ShowPlan::YamlToJson => match &r.tool_yaml {
            Some(y) => match yaml_from_str(y.as_str()) {
                Ok(v) => pretty_json(&v),
                Err(e) => Converted::ReadFailed(yaml_error_text(&e)),
            },
            None => Converted::Text(String::new()),
        },
    };
    present_tool_show(plan, &r.tool_yaml, converted)
}

} // verus!
