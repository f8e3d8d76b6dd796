//! Approval overlay: asks the user to approve or deny an action.
//!
//! | Key | Action |
//! |-----|--------|
//! | `Y` | Allow once |
//! | `N` / `Esc` | Deny |
//! | `A` | Always allow (session) |
//! | `D` | Toggle diff display |
//! | `Ctrl+C` | Deny and close |
//!
//! The overlay's content is computed here as lines of toned spans; drawing
//! them on a terminal is the caller's part.

use vstd::prelude::*;
use vstd::string::*;
use crate::key::{KeyCode, KeyEvent};
use crate::pane::{CtrlCAction, Handled};
use crate::text::{chars_of, decimal, lines, lines_of, starts_with, string_from_chars, usize_to_decimal, views};

verus! {

/// `serde_json::Value`, the arguments of a tool call.
#[verifier::external_type_specification]
#[verifier::external_body]
pub struct ExJsonValue(serde_json::Value);

/// `serde_json::Error`, what serialising a value may fail with.
#[verifier::external_type_specification]
#[verifier::external_body]
pub struct ExJsonError(serde_json::Error);

/// The kind of action that requires user approval.
#[derive(Debug)]
pub enum ApprovalRequest {
    /// A shell command to execute.
    Command {
        /// The command string.
        command: String,
        /// A human-readable description of what the command does.
        description: String,
    },
    /// A file edit (diff) to apply.
    FileEdit {
        /// Path to the file being modified.
        file_path: String,
        /// The unified diff text.
        diff: String,
    },
    /// A tool invocation.
    ToolCall {
        /// Name of the tool being called.
        tool_name: String,
        /// Arguments passed to the tool, as JSON.
        args: serde_json::Value,
    },
}

/// The user's decision on an approval request.
#[derive(Debug, Clone, Copy, PartialEq, Eq, Structural)]
pub enum ApprovalResult {
    /// Allow the action once.
    Allow,
    /// Deny the action.
    Deny,
    /// Allow this action for the rest of the session (always allow).
    AlwaysAllow,
    /// Show the diff (only meaningful for file edits).
    ShowDiff,
}

/// How a span of the overlay's content is drawn.
#[derive(Debug, Clone, Copy, PartialEq, Eq, Structural)]
pub enum Tone {
    /// The terminal's default style.
    Plain,
    /// The request's title (cyan, bold).
    Heading,
    /// A label such as `命令: ` (yellow).
    Label,
    /// Request text (white).
    Body,
    /// An added diff line (green).
    Added,
    /// A removed diff line (red).
    Removed,
    /// A hunk header of the diff (cyan).
    Hunk,
    /// Other diff lines and the arguments (dark gray).
    Muted,
    /// The count of hidden diff lines (dark gray, italic).
    Note,
}

/// A run of text drawn in one tone.
#[derive(Debug, Clone)]
pub struct ToneSpan {
    pub text: String,
    pub tone: Tone,
}

/// One line of the overlay's content.
#[derive(Debug, Clone)]
pub struct ToneLine {
    pub spans: Vec<ToneSpan>,
}

/// The view of a line: its spans' texts and tones.
pub open spec fn line_view(l: ToneLine) -> Seq<(Seq<char>, Tone)> {
    l.spans@.map_values(|s: ToneSpan| (s.text@, s.tone))
}

/// The views of lines.
pub open spec fn lines_view(v: Seq<ToneLine>) -> Seq<Seq<(Seq<char>, Tone)>> {
    v.map_values(|l: ToneLine| line_view(l))
}

/// A line of one span.
pub open spec fn one(text: Seq<char>, tone: Tone) -> Seq<(Seq<char>, Tone)> {
    seq![(text, tone)]
}

/// The empty line (one empty span in the default style).
pub open spec fn blank() -> Seq<(Seq<char>, Tone)> {
    one(Seq::empty(), Tone::Plain)
}

/// A labelled line: the label in yellow, the value in white.
pub open spec fn labelled(label: Seq<char>, value: Seq<char>) -> Seq<(Seq<char>, Tone)> {
    seq![(label, Tone::Label), (value, Tone::Body)]
}

/// The tone of a diff line: `+` added, `-` removed, and, in the full view,
/// `@@` a hunk header; anything else muted.
pub open spec fn diff_tone(line: Seq<char>, full: bool) -> Tone {
    if starts_with(line, "+"@) {
        Tone::Added
    } else if starts_with(line, "-"@) {
        Tone::Removed
    } else if full && starts_with(line, "@@"@) {
        Tone::Hunk
    } else {
        Tone::Muted
    }
}

/// Each line in its diff tone.
pub open spec fn diff_lines(ls: Seq<Seq<char>>, full: bool) -> Seq<Seq<(Seq<char>, Tone)>> {
    ls.map_values(|l: Seq<char>| one(l, diff_tone(l, full)))
}

/// The content of a command request.
pub open spec fn command_content(command: Seq<char>, description: Seq<char>) -> Seq<
    Seq<(Seq<char>, Tone)>,
> {
    seq![
        one("📋 命令执行"@, Tone::Heading),
        blank(),
        one(description, Tone::Body),
        blank(),
        labelled("命令: "@, command),
    ]
}

/// The note under a diff preview when more than five lines are hidden.
pub open spec fn hidden_note(total: nat) -> Seq<Seq<(Seq<char>, Tone)>> {
    if total > 5 {
        seq![one("  ... 还有 "@ + decimal(total - 5) + " 行变更 (按 D 查看全部)"@, Tone::Note)]
    } else {
        Seq::empty()
    }
}

/// The content of a file-edit request: the whole diff when `show_diff`,
/// else its first five lines and a note of how many more there are.
pub open spec fn file_edit_content(file_path: Seq<char>, diff: Seq<char>, show_diff: bool) -> Seq<
    Seq<(Seq<char>, Tone)>,
> {
    let head = seq![
        one("📝 文件修改"@, Tone::Heading),
        blank(),
        labelled("文件: "@, file_path),
        blank(),
    ];
    let ls = lines(diff);
    if show_diff {
        head + diff_lines(ls, true)
    } else {
        head + diff_lines(ls.take(if ls.len() < 5 { ls.len() as int } else { 5 }), false)
            + hidden_note(ls.len())
    }
}

/// The content of a tool-call request whose arguments print as `args_text`.
pub open spec fn tool_call_content(tool_name: Seq<char>, args_text: Seq<char>) -> Seq<
    Seq<(Seq<char>, Tone)>,
> {
    seq![
        one("🛠 工具调用"@, Tone::Heading),
        blank(),
        labelled("工具: "@, tool_name),
        blank(),
        one("参数:"@, Tone::Label),
    ] + lines(args_text).map_values(|l: Seq<char>| one(l, Tone::Muted))
}

/// Rows of content a request needs, the arguments of a tool call printing
/// as `args_text`.
pub open spec fn request_rows(req: ApprovalRequest, args_text: Seq<char>) -> int {
    match req {
        ApprovalRequest::Command { command, description } => lines(description@).len() as int
            + lines(command@).len() as int + 2,
        ApprovalRequest::FileEdit { diff, .. } => 2 + lines(diff@).len() as int,
        ApprovalRequest::ToolCall { .. } => 2 + lines(args_text).len() as int,
    }
}

/// Rows beyond the content: borders, hint bar and gap, and the error line.
pub open spec fn extra_rows(has_error: bool) -> int {
    if has_error {
        5
    } else {
        4
    }
}

/// The overlay's height for `rows` rows of content: the content (as a
/// `u16`) plus the extra rows, at most 24.
pub open spec fn overlay_height(rows: int, has_error: bool) -> int {
    let total = ((rows as u16) as int + extra_rows(has_error)) % 65536;
    if total < 24 {
        total
    } else {
        24
    }
}

/// Whether the height sum of a command or file-edit request stays within
/// `u16` (a tool call's is checked where it is computed).
pub open spec fn height_fits(req: ApprovalRequest, has_error: bool) -> bool {
    match req {
        ApprovalRequest::ToolCall { .. } => true,
        _ => (request_rows(req, Seq::empty()) as u16) as int + extra_rows(has_error) <= u16::MAX,
    }
}

/// The text `serde_json::to_string_pretty` prints a JSON value as: indented
/// JSON, a function of the value alone.
pub uninterp spec fn pretty_json(v: serde_json::Value) -> Seq<char>;

/// `serde_json::to_string_pretty` on a value.  Claimed: it succeeds, since
/// a value's keys are strings and the output goes to memory, and its text
/// is [`pretty_json`] of the value.
#[verifier::external_body]
pub(crate) fn json_to_string_pretty(v: &serde_json::Value) -> (r: Result<String, serde_json::Error>)
    ensures
        r is Ok,
        r matches Ok(s) ==> s@ == pretty_json(*v),
{
    serde_json::to_string_pretty(v)
}

/// `serde_json::Value`'s `Display`: the value as compact JSON.  What text a
/// value prints as is not stated.
#[verifier::external_body]
fn json_display(v: &serde_json::Value) -> String {
    v.to_string()
}

/// The arguments as the overlay shows them: pretty JSON (compact JSON
/// were pretty printing to fail, which it does not).
fn args_text(v: &serde_json::Value) -> (r: String)
    ensures
        r@ == pretty_json(*v),
{
    match json_to_string_pretty(v) {
        Ok(s) => s,
        Err(_) => json_display(v),
    }
}

/// A span.
fn span(text: String, tone: Tone) -> (s: ToneSpan)
    ensures
        s.text@ == text@,
        s.tone == tone,
{
    ToneSpan { text, tone }
}

/// A line of one span.
fn one_line(text: String, tone: Tone) -> (l: ToneLine)
    ensures
        line_view(l) == one(text@, tone),
{
    let mut spans: Vec<ToneSpan> = Vec::new();
    spans.push(span(text, tone));
    let l = ToneLine { spans };
    proof {
        assert(line_view(l) =~= one(text@, tone));
    }
    l
}

/// The empty line.
fn blank_line() -> (l: ToneLine)
    ensures
        line_view(l) == blank(),
{
    one_line(String::new(), Tone::Plain)
}

/// A labelled line.
fn labelled_line(label: &str, value: &String) -> (l: ToneLine)
    ensures
        line_view(l) == labelled(label@, value@),
{
    let mut spans: Vec<ToneSpan> = Vec::new();
    spans.push(span(label.to_owned(), Tone::Label));
    spans.push(span(value.clone(), Tone::Body));
    let l = ToneLine { spans };
    proof {
        assert(line_view(l) =~= labelled(label@, value@));
    }
    l
}

/// Appends a line.
fn push_tone_line(out: &mut Vec<ToneLine>, l: ToneLine)
    ensures
        lines_view(final(out)@) == lines_view(old(out)@).push(line_view(l)),
{
    out.push(l);
    proof {
        assert(lines_view(final(out)@) =~= lines_view(old(out)@).push(line_view(l)));
    }
}

/// Whether `s` starts with the characters of `p`.
fn chars_start_with(s: &[char], p: &str) -> (b: bool)
    ensures
        b == starts_with(s@, p@),
{
    let pc = chars_of(p);
    if pc.len() > s.len() {
        return false;
    }
    let mut k: usize = 0;
    while k < pc.len()
        invariant
            pc@ == p@,
            pc@.len() <= s@.len(),
            k <= pc@.len(),
            forall|j: int| 0 <= j < k ==> s@[j] == pc@[j],
        decreases pc@.len() - k,
    {
        if s[k] != pc[k] {
            return false;
        }
        k += 1;
    }
    proof {
        assert(s@.take(pc@.len() as int) =~= pc@);
    }
    true
}

/// The tone of a diff line.
fn tone_of_diff_line(line: &[char], full: bool) -> (t: Tone)
    ensures
        t == diff_tone(line@, full),
{
    if chars_start_with(line, "+") {
        Tone::Added
    } else if chars_start_with(line, "-") {
        Tone::Removed
    } else if full && chars_start_with(line, "@@") {
        Tone::Hunk
    } else {
        Tone::Muted
    }
}

/// Appends the first `n` of `ls`, each in its diff tone.
fn push_diff_lines(out: &mut Vec<ToneLine>, ls: &Vec<Vec<char>>, n: usize, full: bool)
    requires
        n <= ls@.len(),
    ensures
        lines_view(final(out)@) == lines_view(old(out)@) + diff_lines(
            views(ls@).take(n as int),
            full,
        ),
{
    let ghost start = lines_view(out@);
    let mut k: usize = 0;
    proof {
        assert(diff_lines(views(ls@).take(0), full) =~= Seq::<Seq<(Seq<char>, Tone)>>::empty());
        assert(start + Seq::<Seq<(Seq<char>, Tone)>>::empty() =~= start);
    }
    while k < n
        invariant
            n <= ls@.len(),
            k <= n,
            lines_view(out@) == start + diff_lines(views(ls@).take(k as int), full),
        decreases n - k,
    {
        let line = &ls[k];
        let tone = tone_of_diff_line(line.as_slice(), full);
        let text = string_from_chars(line.as_slice());
        push_tone_line(out, one_line(text, tone));
        proof {
            assert(views(ls@)[k as int] == ls@[k as int]@);
            assert(diff_lines(views(ls@).take(k + 1), full) =~= diff_lines(
                views(ls@).take(k as int),
                full,
            ).push(one(ls@[k as int]@, diff_tone(ls@[k as int]@, full))));
        }
        k += 1;
    }
}

/// The content of a command request.
pub fn command_lines(command: &String, description: &String) -> (v: Vec<ToneLine>)
    ensures
        lines_view(v@) == command_content(command@, description@),
{
    let mut v: Vec<ToneLine> = Vec::new();
    push_tone_line(&mut v, one_line(String::from_str("📋 命令执行"), Tone::Heading));
    push_tone_line(&mut v, blank_line());
    push_tone_line(&mut v, one_line(description.clone(), Tone::Body));
    push_tone_line(&mut v, blank_line());
    push_tone_line(&mut v, labelled_line("命令: ", command));
    proof {
        assert(lines_view(v@) =~= command_content(command@, description@));
    }
    v
}

/// The content of a file-edit request.
pub fn file_edit_lines(file_path: &String, diff: &String, show_diff: bool) -> (v: Vec<ToneLine>)
    ensures
        lines_view(v@) == file_edit_content(file_path@, diff@, show_diff),
{
    let mut v: Vec<ToneLine> = Vec::new();
    push_tone_line(&mut v, one_line(String::from_str("📝 文件修改"), Tone::Heading));
    push_tone_line(&mut v, blank_line());
    push_tone_line(&mut v, labelled_line("文件: ", file_path));
    push_tone_line(&mut v, blank_line());
    let ghost head = lines_view(v@);
    let cs = chars_of(diff.as_str());
    let ls = lines_of(cs.as_slice());
    let total = ls.len();
    if show_diff {
        push_diff_lines(&mut v, &ls, total, true);
        proof {
            assert(views(ls@).take(total as int) =~= views(ls@));
        }
    } else {
        let n = if total < 5 {
            total
        } else {
            5
        };
        push_diff_lines(&mut v, &ls, n, false);
        let ghost shown = lines_view(v@);
        if total > 5 {
            let mut s = String::from_str("  ... 还有 ");
            let count = usize_to_decimal(total - 5);
            s.append(count.as_str());
            s.append(" 行变更 (按 D 查看全部)");
            push_tone_line(&mut v, one_line(s, Tone::Note));
        } else {
            proof {
                assert(shown + Seq::<Seq<(Seq<char>, Tone)>>::empty() =~= shown);
            }
        }
    }
    proof {
        assert(lines_view(v@) =~= file_edit_content(file_path@, diff@, show_diff));
    }
    v
}

/// The content of a tool-call request whose arguments print as `args_text`.
pub fn tool_call_lines(tool_name: &String, args_text: &str) -> (v: Vec<ToneLine>)
    ensures
        lines_view(v@) == tool_call_content(tool_name@, args_text@),
{
    let mut v: Vec<ToneLine> = Vec::new();
    push_tone_line(&mut v, one_line(String::from_str("🛠 工具调用"), Tone::Heading));
    push_tone_line(&mut v, blank_line());
    push_tone_line(&mut v, labelled_line("工具: ", tool_name));
    push_tone_line(&mut v, blank_line());
    push_tone_line(&mut v, one_line(String::from_str("参数:"), Tone::Label));
    let ghost head = lines_view(v@);
    let cs = chars_of(args_text);
    let ls = lines_of(cs.as_slice());
    let ghost arg_lines = lines(args_text@);
    let mut k: usize = 0;
    proof {
        assert(arg_lines.take(0).map_values(|l: Seq<char>| one(l, Tone::Muted)) =~= Seq::<
            Seq<(Seq<char>, Tone)>,
        >::empty());
        assert(head + Seq::<Seq<(Seq<char>, Tone)>>::empty() =~= head);
    }
    while k < ls.len()
        invariant
            views(ls@) == arg_lines,
            k <= ls@.len(),
            lines_view(v@) == head + arg_lines.take(k as int).map_values(
                |l: Seq<char>| one(l, Tone::Muted),
            ),
        decreases ls@.len() - k,
    {
        let text = string_from_chars(ls[k].as_slice());
        push_tone_line(&mut v, one_line(text, Tone::Muted));
        proof {
            assert(views(ls@)[k as int] == ls@[k as int]@);
            assert(arg_lines.take(k + 1).map_values(|l: Seq<char>| one(l, Tone::Muted)) =~= arg_lines.take(
                k as int,
            ).map_values(|l: Seq<char>| one(l, Tone::Muted)).push(one(ls@[k as int]@, Tone::Muted)));
        }
        k += 1;
    }
    proof {
        assert(arg_lines.take(k as int) =~= arg_lines);
    }
    v
}

/// The number of lines of `s` (as `str::lines().count()`).
fn line_count(s: &str) -> (n: usize)
    ensures
        n == lines(s@).len(),
{
    let cs = chars_of(s);
    let ls = lines_of(cs.as_slice());
    ls.len()
}

/// The overlay's height for `rows` rows of content.
fn height_for(rows: u128, has_error: bool) -> (h: u16)
    ensures
        h == overlay_height(rows as int, has_error),
{
    let r = rows as u16;
    let extra: u32 = if has_error {
        5
    } else {
        4
    };
    let sum: u32 = r as u32 + extra;
    let total: u32 = if sum > 65535 {
        sum - 65536
    } else {
        sum
    };
    if total < 24 {
        total as u16
    } else {
        24
    }
}

/// A modal overlay that presents an approval request to the user.
pub struct ApprovalOverlay {
    /// The request being presented.
    request: ApprovalRequest,
    /// The user's decision, if made.
    result: Option<ApprovalResult>,
    /// Whether the diff view is currently expanded.
    show_diff: bool,
    /// An optional error message to display.
    error: Option<String>,
}

/// The decision a key makes, if any (letters in either case).
pub open spec fn key_decision(code: KeyCode) -> Option<ApprovalResult> {
    match code {
        KeyCode::Char(c) => if c == 'y' || c == 'Y' {
            Some(ApprovalResult::Allow)
        } else if c == 'n' || c == 'N' {
            Some(ApprovalResult::Deny)
        } else if c == 'a' || c == 'A' {
            Some(ApprovalResult::AlwaysAllow)
        } else {
            None
        },
        KeyCode::Esc => Some(ApprovalResult::Deny),
        _ => None,
    }
}

/// Whether a key toggles the diff (`d` or `D`).
pub open spec fn key_toggles_diff(code: KeyCode) -> bool {
    code == KeyCode::Char('d') || code == KeyCode::Char('D')
}

/// Whether `h` is the height of the overlay `o` (for a tool call, with its
/// arguments printed as pretty JSON).
pub open spec fn approval_height_is(o: ApprovalOverlay, h: u16) -> bool {
    match o.spec_request() {
        ApprovalRequest::ToolCall { args, .. } => h == overlay_height(
            request_rows(o.spec_request(), pretty_json(args)),
            o.spec_error() is Some,
        ),
        _ => h == overlay_height(
            request_rows(o.spec_request(), Seq::empty()),
            o.spec_error() is Some,
        ),
    }
}

/// What a key does to an overlay: `a` before, `b` after, `h` the answer.
pub open spec fn approval_key_step(a: ApprovalOverlay, b: ApprovalOverlay, key: KeyEvent, h: Handled) -> bool {
    &&& b.spec_request() == a.spec_request()
    &&& b.spec_error() == a.spec_error()
    &&& match key_decision(key.code) {
        Some(d) => h == Handled::Handled && b.spec_result() == Some(d) && b.spec_show_diff()
            == a.spec_show_diff(),
        None => if key_toggles_diff(key.code) {
            h == Handled::Handled && b.spec_result() == a.spec_result() && b.spec_show_diff()
                == !a.spec_show_diff()
        } else {
            h == Handled::NotHandled && b.spec_result() == a.spec_result() && b.spec_show_diff()
                == a.spec_show_diff()
        },
    }
}

impl ApprovalOverlay {
    /// The request.
    pub closed spec fn spec_request(&self) -> ApprovalRequest {
        self.request
    }

    /// The decision made so far.
    pub closed spec fn spec_result(&self) -> Option<ApprovalResult> {
        self.result
    }

    /// Whether the diff is expanded.
    pub closed spec fn spec_show_diff(&self) -> bool {
        self.show_diff
    }

    /// The error message shown, if any.
    pub closed spec fn spec_error(&self) -> Option<Seq<char>> {
        match self.error {
            Some(e) => Some(e@),
            None => None,
        }
    }

    /// Create a new approval overlay for the given request.
    pub fn new(request: ApprovalRequest) -> (o: Self)
        ensures
            o.spec_request() == request,
            o.spec_result() is None,
            !o.spec_show_diff(),
            o.spec_error() is None,
    {
        ApprovalOverlay { request, result: None, show_diff: false, error: None }
    }

    /// The user's decision, if one has been made.
    pub fn result(&self) -> (r: Option<ApprovalResult>)
        ensures
            r == self.spec_result(),
    {
        self.result
    }

    /// Set an error message to display on the overlay.
    pub fn set_error(&mut self, error: String)
        ensures
            final(self).spec_error() == Some(error@),
            final(self).spec_request() == old(self).spec_request(),
            final(self).spec_result() == old(self).spec_result(),
            final(self).spec_show_diff() == old(self).spec_show_diff(),
    {
        self.error = Some(error);
    }

    /// The error message shown, if any.
    pub fn error(&self) -> (r: Option<&str>)
        ensures
            match r {
                Some(e) => self.spec_error() == Some(e@),
                None => self.spec_error() is None,
            },
    {
        match &self.error {
            Some(e) => Some(e.as_str()),
            None => None,
        }
    }

    /// The approval request being presented.
    pub fn request(&self) -> (r: &ApprovalRequest)
        ensures
            *r == self.spec_request(),
    {
        &self.request
    }

    /// Whether the diff view is expanded.
    pub fn show_diff(&self) -> (b: bool)
        ensures
            b == self.spec_show_diff(),
    {
        self.show_diff
    }

    /// `Y` allows, `N` and `Esc` deny, `A` always allows (in either case),
    /// `D` toggles the diff; other keys are not handled.
    pub fn handle_key_event(&mut self, key: KeyEvent) -> (h: Handled)
        ensures
            approval_key_step(*old(self), *final(self), key, h),
    {
        match key.code {
            KeyCode::Char(c) => {
                if c == 'y' || c == 'Y' {
                    self.result = Some(ApprovalResult::Allow);
                    Handled::Handled
                } else if c == 'n' || c == 'N' {
                    self.result = Some(ApprovalResult::Deny);
                    Handled::Handled
                } else if c == 'a' || c == 'A' {
                    self.result = Some(ApprovalResult::AlwaysAllow);
                    Handled::Handled
                } else if c == 'd' || c == 'D' {
                    self.show_diff = !self.show_diff;
                    Handled::Handled
                } else {
                    Handled::NotHandled
                }
            },
            KeyCode::Esc => {
                self.result = Some(ApprovalResult::Deny);
                Handled::Handled
            },
            _ => Handled::NotHandled,
        }
    }

    /// Whether the user has decided.
    pub fn is_complete(&self) -> (b: bool)
        ensures
            b == self.spec_result() is Some,
    {
        self.result.is_some()
    }

    /// Ctrl+C denies and closes the overlay.
    pub fn on_ctrl_c(&mut self) -> (a: CtrlCAction)
        ensures
            a == CtrlCAction::Handled,
            final(self).spec_result() == Some(ApprovalResult::Deny),
            final(self).spec_request() == old(self).spec_request(),
            final(self).spec_show_diff() == old(self).spec_show_diff(),
            final(self).spec_error() == old(self).spec_error(),
    {
        self.result = Some(ApprovalResult::Deny);
        CtrlCAction::Handled
    }

    /// The overlay's identifier in the panel stack.
    pub fn view_id(&self) -> (r: Option<&'static str>)
        ensures
            r matches Some(s) && s@ == "approval"@,
    {
        Some("approval")
    }

    /// The lines of the request's content: a title, the request's details
    /// and, for a file edit, its diff (whole when expanded, else a preview of
    /// five lines); for a tool call, the arguments as printed JSON.
    pub fn build_content_lines(&self) -> (v: Vec<ToneLine>)
        ensures
            match self.spec_request() {
                ApprovalRequest::Command { command, description } => lines_view(v@)
                    == command_content(command@, description@),
                ApprovalRequest::FileEdit { file_path, diff } => lines_view(v@)
                    == file_edit_content(file_path@, diff@, self.spec_show_diff()),
                ApprovalRequest::ToolCall { tool_name, args } => lines_view(v@)
                    == tool_call_content(tool_name@, pretty_json(args)),
            },
    {
        match &self.request {
            ApprovalRequest::Command { command, description } => command_lines(command, description),
            ApprovalRequest::FileEdit { file_path, diff } => file_edit_lines(
                file_path,
                diff,
                self.show_diff,
            ),
            ApprovalRequest::ToolCall { tool_name, args } => {
                let text = args_text(args);
                tool_call_lines(tool_name, text.as_str())
            },
        }
    }

    /// Rows the overlay needs: the request's content rows, two borders, the
    /// hint bar, a gap and the error line when there is one; at most 24.
    pub fn desired_height(&self, _width: u16) -> (h: u16)
        requires
            height_fits(self.spec_request(), self.spec_error() is Some),
        ensures
            approval_height_is(*self, h),
    {
        let has_error = self.error.is_some();
        match &self.request {
            ApprovalRequest::Command { command, description } => {
                let d = line_count(description.as_str()) as u128;
                let c = line_count(command.as_str()) as u128;
                height_for(d + c + 2, has_error)
            },
            ApprovalRequest::FileEdit { diff, .. } => {
                let n = line_count(diff.as_str()) as u128;
                height_for(2 + n, has_error)
            },
            ApprovalRequest::ToolCall { args, .. } => {
                let text = args_text(args);
                let n = line_count(text.as_str()) as u128;
                let h = height_for(2 + n, has_error);
                proof {
                    assert(h == overlay_height(
                        request_rows(self.spec_request(), text@),
                        self.spec_error() is Some,
                    ));
                }
                h
            },
        }
    }

    /// The hint bar's text.
    pub fn hint_text(&self) -> (s: &'static str)
        ensures
            self.spec_show_diff() ==> s@ == " [Y] 允许  [N] 拒绝  [D] 关闭差异  [A] 始终允许  [Esc] 取消 "@,
            !self.spec_show_diff() ==> s@ == " [Y] 允许  [N] 拒绝  [D] 显示差异  [A] 始终允许  [Esc] 取消 "@,
    {
        if self.show_diff {
            " [Y] 允许  [N] 拒绝  [D] 关闭差异  [A] 始终允许  [Esc] 取消 "
        } else {
            " [Y] 允许  [N] 拒绝  [D] 显示差异  [A] 始终允许  [Esc] 取消 "
        }
    }
}


/// The upper-case form of an ASCII lower-case letter.
pub open spec fn upper_letter(c: char) -> char {
    ((c as u32) - 32) as char
}

/// `N`, `n` and `Esc` deny the action, whatever the overlay held before and
/// whatever modifiers are held; the key is handled.
pub proof fn law_deny_keys_deny(a: ApprovalOverlay, b: ApprovalOverlay, key: KeyEvent, h: Handled)
    requires
        approval_key_step(a, b, key, h),
        key.code == KeyCode::Char('n') || key.code == KeyCode::Char('N') || key.code
            == KeyCode::Esc,
    ensures
        b.spec_result() == Some(ApprovalResult::Deny),
        h == Handled::Handled,
{
}

/// `Y` and `y` allow the action once; the key is handled.
pub proof fn law_yes_keys_allow(a: ApprovalOverlay, b: ApprovalOverlay, key: KeyEvent, h: Handled)
    requires
        approval_key_step(a, b, key, h),
        key.code == KeyCode::Char('y') || key.code == KeyCode::Char('Y'),
    ensures
        b.spec_result() == Some(ApprovalResult::Allow),
        h == Handled::Handled,
{
}

/// `A` and `a` allow the action for the rest of the session; the key is
/// handled.
pub proof fn law_always_keys_always_allow(
    a: ApprovalOverlay,
    b: ApprovalOverlay,
    key: KeyEvent,
    h: Handled,
)
    requires
        approval_key_step(a, b, key, h),
        key.code == KeyCode::Char('a') || key.code == KeyCode::Char('A'),
    ensures
        b.spec_result() == Some(ApprovalResult::AlwaysAllow),
        h == Handled::Handled,
{
}

/// `D` and `d` flip the diff display and decide nothing; the key is handled.
pub proof fn law_diff_keys_toggle(a: ApprovalOverlay, b: ApprovalOverlay, key: KeyEvent, h: Handled)
    requires
        approval_key_step(a, b, key, h),
        key.code == KeyCode::Char('d') || key.code == KeyCode::Char('D'),
    ensures
        b.spec_result() == a.spec_result(),
        b.spec_show_diff() == !a.spec_show_diff(),
        h == Handled::Handled,
{
}

/// A letter key does the same in either case: from the same overlay, `c`
/// and its upper-case form leave the same decision and diff display and
/// are handled alike.
pub proof fn law_letter_case_does_not_matter(
    a: ApprovalOverlay,
    b1: ApprovalOverlay,
    b2: ApprovalOverlay,
    k1: KeyEvent,
    k2: KeyEvent,
    h1: Handled,
    h2: Handled,
    c: char,
)
    requires
        'a' <= c <= 'z',
        k1.code == KeyCode::Char(c),
        k2.code == KeyCode::Char(upper_letter(c)),
        approval_key_step(a, b1, k1, h1),
        approval_key_step(a, b2, k2, h2),
    ensures
        b1.spec_result() == b2.spec_result(),
        b1.spec_show_diff() == b2.spec_show_diff(),
        h1 == h2,
{
    let u = upper_letter(c);
    assert(u == 'Y' <==> c == 'y');
    assert(u == 'N' <==> c == 'n');
    assert(u == 'A' <==> c == 'a');
    assert(u == 'D' <==> c == 'd');
    assert(u != 'y' && u != 'n' && u != 'a' && u != 'd');
    assert(c != 'Y' && c != 'N' && c != 'A' && c != 'D');
}

} // verus!
