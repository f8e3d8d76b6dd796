//! The terminal UI's application logic: what each terminal event, key and
//! agent event does to the conversation, the input, the overlays and the
//! status bar, and what the surrounding loop has to do about it (draw,
//! open or drop the agent channel, notify, suspend, resize).
//!
//! The loop itself, the terminal, the event stream and the agent channel
//! belong to the caller, which performs the returned [`ShellAction`]s.

use vstd::prelude::*;
use vstd::string::*;
use crate::composer::{st_insert, st_key, Composer, ComposerAction, ComposerState};
use crate::event::TuiEvent;
use crate::key::{KeyCode, KeyEvent};
use crate::notification::NotificationType;
use crate::pane::{stack_ctrl_c_step, stack_key_step, CtrlCAction, Handled, PaneStack};
use crate::state::{next_state, AppEvent, AppState};
use crate::status::{AiStatus, StatusBar};
use crate::streaming::{next_thinking, toggle_fences, StreamingCell};
use crate::text::lines;

verus! {

/// How a system message is drawn.
#[derive(Debug, Clone, Copy, PartialEq, Eq, Structural)]
pub enum SystemMessageStyle {
    Info,
    Warning,
    Error,
}

/// The state of a tool call shown in the conversation.
#[derive(Debug, Clone, Copy, PartialEq, Eq, Structural)]
pub enum ToolStatus {
    Running,
    Completed,
    Failed,
}

/// One entry of the conversation.
#[derive(Debug)]
pub enum HistoryCell {
    /// What the user submitted.
    UserMessage(String),
    /// A finished assistant reply.
    AssistantMessage(String),
    /// A notice of the application.
    SystemMessage { text: String, style: SystemMessageStyle },
    /// A tool call with its arguments, its output once known, and its state.
    ToolCall {
        name: String,
        arguments: serde_json::Value,
        result: Option<String>,
        status: ToolStatus,
    },
}

/// An entry as the contracts see it.
pub enum CellView {
    User(Seq<char>),
    Assistant(Seq<char>),
    System(Seq<char>, SystemMessageStyle),
    Tool(Seq<char>, serde_json::Value, Option<Seq<char>>, ToolStatus),
}

/// The view of an optional string.
pub open spec fn opt_view(o: Option<String>) -> Option<Seq<char>> {
    match o {
        Some(s) => Some(s@),
        None => None,
    }
}

/// The view of an entry.
pub open spec fn cell_view(c: HistoryCell) -> CellView {
    match c {
        HistoryCell::UserMessage(s) => CellView::User(s@),
        HistoryCell::AssistantMessage(s) => CellView::Assistant(s@),
        HistoryCell::SystemMessage { text, style } => CellView::System(text@, style),
        HistoryCell::ToolCall { name, arguments, result, status } => CellView::Tool(
            name@,
            arguments,
            opt_view(result),
            status,
        ),
    }
}

/// The views of the entries.
pub open spec fn cells_view(h: Seq<HistoryCell>) -> Seq<CellView> {
    h.map_values(|c: HistoryCell| cell_view(c))
}

/// Events of a running agent.
#[derive(Debug)]
pub enum AgentEvent {
    /// Streaming text delta (the agent's reply, chunk by chunk).
    TextDelta(String),
    /// Streaming reasoning delta.
    ReasoningDelta(String),
    /// The model decided to call a tool.
    ToolCall { call_id: Option<String>, name: String, arguments: serde_json::Value },
    /// Tool execution started.
    ToolStart { call_id: Option<String>, name: String },
    /// Incremental tool output.
    ToolOutput { call_id: Option<String>, name: String, content: String },
    /// Tool execution finished.
    ToolEnd {
        call_id: Option<String>,
        name: String,
        result: String,
        is_error: bool,
        raw_result: Option<String>,
    },
    /// The reply is complete.
    Completed,
    /// The agent failed.
    Error(String),
}

/// What the surrounding loop has to do after an event.
#[derive(Debug, Clone, Copy, PartialEq, Eq, Structural)]
pub enum ShellAction {
    /// Draw the UI.
    Render,
    /// Create the agent channel for the submitted input.
    OpenAgent,
    /// Drop the agent channel (stops the agent).
    CloseAgent,
    /// Resize the viewport to (columns, rows).
    Resize(u16, u16),
    /// Suspend the process (`Ctrl+Z`); call [`App::resumed`] afterwards.
    Suspend,
    /// Deliver a desktop notification.
    Notify(NotificationType),
}

/// The streaming cell as the contracts see it: content, pending text,
/// thinking flag, code-block flag.
pub type CellState = (Seq<char>, Seq<char>, bool, bool);

/// The view of a streaming cell.
pub open spec fn streaming_view(c: StreamingCell) -> CellState {
    (c.spec_content(), c.spec_pending(), c.spec_thinking(), c.spec_in_code())
}

/// A cell after a text delta.
pub open spec fn appended(c: CellState, delta: Seq<char>) -> CellState {
    (c.0 + delta, c.1 + delta, next_thinking(c.2, delta), toggle_fences(c.3, lines(delta)))
}

/// An empty cell.
pub open spec fn fresh_cell() -> CellState {
    (Seq::empty(), Seq::empty(), false, false)
}

/// The state after an event, unchanged when the transition is refused.
pub open spec fn moved(s: AppState, e: AppEvent) -> AppState {
    match next_state(s, e) {
        Some(n) => n,
        None => s,
    }
}

/// The application's state as the contracts see it (the overlays apart).
pub struct AppView {
    pub state: AppState,
    pub running: bool,
    pub history: Seq<CellView>,
    pub active: Option<CellState>,
    pub composer: ComposerState,
    pub status: AiStatus,
    pub frame: int,
    pub message: Option<Seq<char>>,
    pub agent: bool,
    pub focused: bool,
}

/// The history with its last entry's result (and, given, its state) set,
/// when that entry is a tool call.
pub open spec fn update_last_tool(
    h: Seq<CellView>,
    result: Seq<char>,
    status: Option<ToolStatus>,
) -> Seq<CellView> {
    if h.len() > 0 && h.last() is Tool {
        match h.last() {
            CellView::Tool(n, a, _, s) => h.drop_last().push(
                CellView::Tool(
                    n,
                    a,
                    Some(result),
                    match status {
                        Some(t) => t,
                        None => s,
                    },
                ),
            ),
            _ => h,
        }
    } else {
        h
    }
}

/// The notification due after the agent stops, when the terminal is not
/// focused.
pub open spec fn notify_if_away(focused: bool, t: NotificationType) -> Seq<ShellAction> {
    if focused {
        Seq::empty()
    } else {
        seq![ShellAction::Notify(t)]
    }
}

/// What an agent event does.
pub open spec fn agent_step(v: AppView, e: AgentEvent) -> (AppView, Seq<ShellAction>) {
    match e {
        AgentEvent::TextDelta(d) => (
            AppView {
                active: Some(
                    appended(
                        match v.active {
                            Some(c) => c,
                            None => fresh_cell(),
                        },
                        d@,
                    ),
                ),
                state: moved(v.state, AppEvent::Processing),
                status: AiStatus::Thinking,
                ..v
            },
            seq![ShellAction::Render],
        ),
        AgentEvent::ReasoningDelta(_) => (
            AppView { state: moved(v.state, AppEvent::Processing), status: AiStatus::Thinking, ..v },
            seq![ShellAction::Render],
        ),
        AgentEvent::ToolCall { name, arguments, .. } => (
            AppView {
                status: AiStatus::Executing,
                message: Some("调用: "@ + name@),
                history: v.history.push(CellView::Tool(name@, arguments, None, ToolStatus::Running)),
                ..v
            },
            seq![ShellAction::Render],
        ),
        AgentEvent::ToolStart { name, .. } => (
            AppView { status: AiStatus::Executing, message: Some("执行: "@ + name@), ..v },
            seq![ShellAction::Render],
        ),
        AgentEvent::ToolOutput { content, .. } => (
            AppView { history: update_last_tool(v.history, content@, None), ..v },
            seq![ShellAction::Render],
        ),
        AgentEvent::ToolEnd { name, result, is_error, .. } => (
            AppView {
                history: update_last_tool(
                    v.history,
                    result@,
                    Some(
                        if is_error {
                            ToolStatus::Failed
                        } else {
                            ToolStatus::Completed
                        },
                    ),
                ),
                status: AiStatus::Thinking,
                message: Some(name@ + " 完成"@),
                ..v
            },
            seq![ShellAction::Render],
        ),
        AgentEvent::Completed => (
            AppView {
                history: match v.active {
                    Some(c) => if c.0.len() > 0 {
                        v.history.push(CellView::Assistant(c.0))
                    } else {
                        v.history
                    },
                    None => v.history,
                },
                active: None,
                state: moved(v.state, AppEvent::Completed),
                status: AiStatus::Idle,
                message: None,
                agent: false,
                ..v
            },
            seq![ShellAction::CloseAgent] + notify_if_away(v.focused, NotificationType::ReplyComplete)
                + seq![ShellAction::Render],
        ),
        AgentEvent::Error(msg) => (
            AppView {
                history: v.history.push(
                    CellView::System(" 错误: "@ + msg@ + " "@, SystemMessageStyle::Error),
                ),
                state: moved(v.state, AppEvent::Error),
                status: AiStatus::Error,
                message: Some(msg@),
                active: None,
                agent: false,
                ..v
            },
            seq![ShellAction::CloseAgent] + notify_if_away(v.focused, NotificationType::Error)
                + seq![ShellAction::Render],
        ),
    }
}

/// What `Ctrl+C` does when no overlay takes it: the work in progress is
/// interrupted.
pub open spec fn interrupt_step(v: AppView) -> (AppView, Seq<ShellAction>) {
    (
        AppView {
            state: moved(v.state, AppEvent::Interrupt),
            status: AiStatus::Idle,
            message: Some("已中断"@),
            history: v.history.push(
                CellView::System(" [中断] 操作已取消"@, SystemMessageStyle::Warning),
            ),
            active: None,
            agent: false,
            ..v
        },
        seq![ShellAction::CloseAgent, ShellAction::Render],
    )
}

/// What submitting `content` does: the input goes to the history and to a
/// new agent, whose reply streams into a new cell.
pub open spec fn submit_step(v: AppView, content: Seq<char>) -> (AppView, Seq<ShellAction>) {
    (
        AppView {
            state: moved(v.state, AppEvent::Submit),
            history: v.history.push(CellView::User(content)),
            agent: true,
            active: Some(fresh_cell()),
            status: AiStatus::Thinking,
            message: Some("正在思考..."@),
            ..v
        },
        seq![ShellAction::OpenAgent, ShellAction::Render],
    )
}

/// Whether `key` is `Ctrl` + `c`.
pub open spec fn is_ctrl(key: KeyEvent, c: char) -> bool {
    key.code == KeyCode::Char(c) && key.modifiers.control
}

/// Where a key goes: to the overlays when there are any (`q` the stack
/// after, `h` its answer), else nowhere.
pub open spec fn routed(p: PaneStack, key: KeyEvent, q: PaneStack, h: Handled) -> bool {
    if p.spec_stack().len() > 0 {
        stack_key_step(p, q, key, h)
    } else {
        q == p && h == Handled::NotHandled
    }
}

/// What a key that is not a global shortcut does: nothing more when an
/// overlay handled it (`h`), else it edits the input, and `Enter` submits.
pub open spec fn key_result(v: AppView, key: KeyEvent, h: Handled, w: AppView, acts: Seq<ShellAction>) -> bool {
    if h == Handled::Handled {
        w == v && acts == seq![ShellAction::Render]
    } else {
        let (c, submitted) = st_key(v.composer, key);
        let u = AppView { composer: c, ..v };
        match submitted {
            Some(text) => w == submit_step(u, text).0 && acts == submit_step(u, text).1,
            None => w == u && acts == seq![ShellAction::Render],
        }
    }
}

/// What a key does: `v`, `p` before; `w`, `q` after; `acts` the actions.
pub open spec fn key_outcome(
    v: AppView,
    p: PaneStack,
    key: KeyEvent,
    w: AppView,
    q: PaneStack,
    acts: Seq<ShellAction>,
) -> bool {
    if is_ctrl(key, 'd') {
        w == (AppView { running: false, ..v }) && q == p && acts.len() == 0
    } else if is_ctrl(key, 'c') {
        if p.spec_stack().len() > 0 {
            exists|a: CtrlCAction|
                #[trigger] stack_ctrl_c_step(p, q, a) && if a == CtrlCAction::NotHandled {
                    w == interrupt_step(v).0 && acts == interrupt_step(v).1
                } else {
                    w == v && acts == seq![ShellAction::Render]
                }
        } else {
            w == interrupt_step(v).0 && acts == interrupt_step(v).1 && q == p
        }
    } else if is_ctrl(key, 'l') {
        w == (AppView {
            history: seq![CellView::System(" 屏幕已清除 "@, SystemMessageStyle::Info)],
            ..v
        }) && q == p && acts == seq![ShellAction::Render]
    } else {
        exists|h: Handled| #[trigger] routed(p, key, q, h) && key_result(v, key, h, w, acts)
    }
}

/// The welcome line shown when the UI starts.
pub open spec fn welcome_text() -> Seq<char> {
    " Loom TUI — 交互式 AI 编程助手 | Ctrl+D 退出 · Ctrl+C 中断"@
}

/// The terminal UI's application state.
pub struct App {
    /// Application state machine.
    state: AppState,
    /// Whether the main loop keeps running.
    running: bool,
    /// Completed conversation entries.
    history: Vec<HistoryCell>,
    /// The reply being streamed, if any.
    active_cell: Option<StreamingCell>,
    /// The input field.
    composer: Composer,
    /// Overlay panels.
    pane_stack: PaneStack,
    /// The status bar.
    status_bar: StatusBar,
    /// Whether an agent channel is open.
    agent_running: bool,
    /// Whether the terminal has focus.
    focused: bool,
}

impl App {
    /// The state as the contracts see it.
    pub closed spec fn view(&self) -> AppView {
        AppView {
            state: self.state,
            running: self.running,
            history: cells_view(self.history@),
            active: match self.active_cell {
                Some(c) => Some(streaming_view(c)),
                None => None,
            },
            composer: self.composer.state(),
            status: self.status_bar.spec_status(),
            frame: self.status_bar.spec_frame(),
            message: self.status_bar.spec_message(),
            agent: self.agent_running,
            focused: self.focused,
        }
    }

    /// The overlays.
    pub closed spec fn spec_panes(&self) -> PaneStack {
        self.pane_stack
    }

    /// Internal consistency of the input field and the overlays.
    pub closed spec fn wf(&self) -> bool {
        self.composer.wf() && self.pane_stack.wf()
    }

    /// A new application: idle, running, empty, focused, no agent.
    pub fn new() -> (a: Self)
        ensures
            a.wf(),
            a.view().state == AppState::Idle,
            a.view().running,
            a.view().history.len() == 0,
            a.view().active is None,
            a.view().composer.text.len() == 0,
            a.view().composer.past.len() == 0,
            a.view().status == AiStatus::Idle,
            a.view().message is None,
            a.view().frame == 0,
            !a.view().agent,
            a.view().focused,
            a.spec_panes().spec_stack().len() == 0,
            a.spec_panes().spec_base() is None,
    {
        let a = App {
            state: AppState::Idle,
            running: true,
            history: Vec::new(),
            active_cell: None,
            composer: Composer::new(),
            pane_stack: PaneStack::new(),
            status_bar: StatusBar::new(),
            agent_running: false,
            focused: true,
        };
        proof {
            assert(cells_view(a.history@) =~= Seq::<CellView>::empty());
        }
        a
    }

    /// Appends an entry.
    fn push_cell(&mut self, c: HistoryCell)
        requires
            old(self).wf(),
        ensures
            final(self).wf(),
            final(self).view() == (AppView {
                history: old(self).view().history.push(cell_view(c)),
                ..old(self).view()
            }),
            final(self).spec_panes() == old(self).spec_panes(),
    {
        self.history.push(c);
        proof {
            assert(cells_view(self.history@) =~= cells_view(old(self).history@).push(cell_view(c)));
        }
    }

    /// A system message.
    fn system(text: &str, style: SystemMessageStyle) -> (c: HistoryCell)
        ensures
            cell_view(c) == CellView::System(text@, style),
    {
        HistoryCell::SystemMessage { text: text.to_owned(), style }
    }

    /// Moves the state machine, keeping the state when the move is refused.
    fn apply(&mut self, e: AppEvent)
        ensures
            final(self).view() == (AppView { state: moved(old(self).view().state, e), ..old(
                self,
            ).view() }),
            final(self).spec_panes() == old(self).spec_panes(),
            final(self).wf() == old(self).wf(),
    {
        match self.state.transition(e) {
            Ok(s) => {
                self.state = s;
            },
            Err(_) => {},
        }
    }

    /// Sets the status and the message.
    fn set_status(&mut self, status: AiStatus, message: Option<String>)
        ensures
            final(self).view() == (AppView {
                status,
                message: opt_view(message),
                ..old(self).view()
            }),
            final(self).spec_panes() == old(self).spec_panes(),
            final(self).wf() == old(self).wf(),
    {
        self.status_bar.set_status(status);
        self.status_bar.set_message(message);
    }

    /// Starts the UI: the welcome line, an idle state and status.
    pub fn start(&mut self) -> (actions: Vec<ShellAction>)
        requires
            old(self).wf(),
        ensures
            final(self).wf(),
            final(self).view() == (AppView {
                history: old(self).view().history.push(
                    CellView::System(welcome_text(), SystemMessageStyle::Info),
                ),
                state: AppState::Idle,
                status: AiStatus::Idle,
                ..old(self).view()
            }),
            final(self).spec_panes() == old(self).spec_panes(),
            actions@ == seq![ShellAction::Render],
    {
        let c = Self::system(
            " Loom TUI — 交互式 AI 编程助手 | Ctrl+D 退出 · Ctrl+C 中断",
            SystemMessageStyle::Info,
        );
        self.push_cell(c);
        self.state = AppState::Idle;
        self.status_bar.set_status(AiStatus::Idle);
        let mut actions = Vec::new();
        actions.push(ShellAction::Render);
        actions
    }

    /// Ctrl+C when no overlay takes it.
    fn interrupt(&mut self) -> (actions: Vec<ShellAction>)
        requires
            old(self).wf(),
        ensures
            final(self).wf(),
            final(self).view() == interrupt_step(old(self).view()).0,
            actions@ == interrupt_step(old(self).view()).1,
            final(self).spec_panes() == old(self).spec_panes(),
    {
        self.apply(AppEvent::Interrupt);
        self.set_status(AiStatus::Idle, Some(String::from_str("已中断")));
        let c = Self::system(" [中断] 操作已取消", SystemMessageStyle::Warning);
        self.push_cell(c);
        self.active_cell = None;
        self.agent_running = false;
        let mut actions = Vec::new();
        actions.push(ShellAction::CloseAgent);
        actions.push(ShellAction::Render);
        proof {
            assert(actions@ =~= interrupt_step(old(self).view()).1);
        }
        actions
    }

    /// Submitting input.
    fn submit(&mut self, content: String) -> (actions: Vec<ShellAction>)
        requires
            old(self).wf(),
        ensures
            final(self).wf(),
            final(self).view() == submit_step(old(self).view(), content@).0,
            actions@ == submit_step(old(self).view(), content@).1,
            final(self).spec_panes() == old(self).spec_panes(),
    {
        self.apply(AppEvent::Submit);
        self.push_cell(HistoryCell::UserMessage(content));
        self.agent_running = true;
        let cell = StreamingCell::new();
        proof {
            assert(streaming_view(cell) =~= fresh_cell());
        }
        self.active_cell = Some(cell);
        self.set_status(AiStatus::Thinking, Some(String::from_str("正在思考...")));
        let mut actions = Vec::new();
        actions.push(ShellAction::OpenAgent);
        actions.push(ShellAction::Render);
        proof {
            assert(actions@ =~= submit_step(old(self).view(), content@).1);
        }
        actions
    }

    /// Sets the result (and the state) of the last entry when it is a tool
    /// call.
    fn update_last_tool(&mut self, result: String, status: Option<ToolStatus>)
        requires
            old(self).wf(),
        ensures
            final(self).wf(),
            final(self).view() == (AppView {
                history: update_last_tool(old(self).view().history, result@, status),
                ..old(self).view()
            }),
            final(self).spec_panes() == old(self).spec_panes(),
    {
        let ghost h0 = self.history@;
        match self.history.pop() {
            None => {},
            Some(last) => {
                proof {
                    assert(h0.drop_last() == self.history@);
                    assert(cells_view(h0).last() == cell_view(last));
                    assert(cells_view(h0).drop_last() =~= cells_view(self.history@));
                }
                let cell = match last {
                    HistoryCell::ToolCall { name, arguments, result: _, status: old_status } => {
                        let st = match status {
                            Some(t) => t,
                            None => old_status,
                        };
                        HistoryCell::ToolCall { name, arguments, result: Some(result), status: st }
                    },
                    other => other,
                };
                self.history.push(cell);
                proof {
                    assert(cells_view(self.history@) =~= update_last_tool(
                        cells_view(h0),
                        result@,
                        status,
                    ));
                }
            },
        }
        proof {
            if h0.len() == 0 {
                assert(cells_view(self.history@) =~= cells_view(h0));
            }
        }
    }

    /// Handles an event of the agent.
    pub fn handle_agent_event(&mut self, event: AgentEvent) -> (actions: Vec<ShellAction>)
        requires
            old(self).wf(),
        ensures
            final(self).wf(),
            final(self).view() == agent_step(old(self).view(), event).0,
            actions@ == agent_step(old(self).view(), event).1,
            final(self).spec_panes() == old(self).spec_panes(),
    {
        let ghost v = self.view();
        let mut actions: Vec<ShellAction> = Vec::new();
        match event {
            AgentEvent::TextDelta(content) => {
                match &mut self.active_cell {
                    Some(active) => {
                        active.append_text(content.as_str());
                    },
                    None => {
                        let mut cell = StreamingCell::new();
                        proof {
                            assert(streaming_view(cell) =~= fresh_cell());
                        }
                        cell.append_text(content.as_str());
                        self.active_cell = Some(cell);
                    },
                }
                self.apply(AppEvent::Processing);
                self.status_bar.set_status(AiStatus::Thinking);
            },
            AgentEvent::ReasoningDelta(_) => {
                self.apply(AppEvent::Processing);
                self.status_bar.set_status(AiStatus::Thinking);
            },
            AgentEvent::ToolCall { name, arguments, .. } => {
                let mut m = String::from_str("调用: ");
                m.append(name.as_str());
                self.set_status(AiStatus::Executing, Some(m));
                self.push_cell(
                    HistoryCell::ToolCall { name, arguments, result: None, status: ToolStatus::Running },
                );
            },
            AgentEvent::ToolStart { name, .. } => {
                let mut m = String::from_str("执行: ");
                m.append(name.as_str());
                self.set_status(AiStatus::Executing, Some(m));
            },
            AgentEvent::ToolOutput { content, .. } => {
                self.update_last_tool(content, None);
            },
            AgentEvent::ToolEnd { name, result, is_error, .. } => {
                let st = if is_error {
                    ToolStatus::Failed
                } else {
                    ToolStatus::Completed
                };
                self.update_last_tool(result, Some(st));
                let mut m = name.clone();
                m.append(" 完成");
                self.set_status(AiStatus::Thinking, Some(m));
            },
            AgentEvent::Completed => {
                match self.active_cell.take() {
                    Some(active) => {
                        let content = active.finish();
                        if !content.as_str().is_empty() {
                            self.push_cell(HistoryCell::AssistantMessage(content));
                        }
                    },
                    None => {},
                }
                self.apply(AppEvent::Completed);
                self.set_status(AiStatus::Idle, None);
                self.agent_running = false;
                actions.push(ShellAction::CloseAgent);
                if !self.focused {
                    actions.push(ShellAction::Notify(NotificationType::ReplyComplete));
                }
            },
            AgentEvent::Error(e) => {
                let mut text = String::from_str(" 错误: ");
                text.append(e.as_str());
                text.append(" ");
                self.push_cell(HistoryCell::SystemMessage { text, style: SystemMessageStyle::Error });
                self.apply(AppEvent::Error);
                self.set_status(AiStatus::Error, Some(e));
                self.active_cell = None;
                self.agent_running = false;
                actions.push(ShellAction::CloseAgent);
                if !self.focused {
                    actions.push(ShellAction::Notify(NotificationType::Error));
                }
            },
        }
        actions.push(ShellAction::Render);
        proof {
            assert(actions@ =~= agent_step(v, event).1);
            assert(self.view() == agent_step(v, event).0);
        }
        actions
    }

    /// Handles a key: `Ctrl+D` stops the loop, `Ctrl+C` goes to the top
    /// overlay (or interrupts the work when none takes it), `Ctrl+L` clears
    /// the conversation; any other key goes to the top overlay and, when
    /// that does not handle it, to the input field, where `Enter` submits.
    pub fn handle_key(&mut self, key: KeyEvent) -> (actions: Vec<ShellAction>)
        requires
            old(self).wf(),
        ensures
            final(self).wf(),
            key_outcome(
                old(self).view(),
                old(self).spec_panes(),
                key,
                final(self).view(),
                final(self).spec_panes(),
                actions@,
            ),
    {
        let ghost v = self.view();
        let ghost p = self.pane_stack;
        let ctrl = key.modifiers.control;
        let ch: Option<char> = match key.code {
            KeyCode::Char(c) => Some(c),
            _ => None,
        };
        if ctrl && ch == Some('d') {
            self.running = false;
            let actions = Vec::new();
            proof {
                assert(key_outcome(v, p, key, self.view(), self.spec_panes(), actions@));
            }
            return actions;
        }
        if ctrl && ch == Some('c') {
            if self.pane_stack.depth() > 0 {
                let a = self.pane_stack.handle_ctrl_c();
                let ghost q = self.pane_stack;
                match a {
                    CtrlCAction::Handled | CtrlCAction::Cancel => {
                        let mut actions = Vec::new();
                        actions.push(ShellAction::Render);
                        proof {
                            assert(stack_ctrl_c_step(p, q, a) && self.pane_stack == q);
                            assert(actions@ =~= seq![ShellAction::Render]);
                            assert(key_outcome(v, p, key, self.view(), self.spec_panes(), actions@));
                        }
                        return actions;
                    },
                    CtrlCAction::NotHandled => {
                        let actions = self.interrupt();
                        proof {
                            assert(stack_ctrl_c_step(p, q, a) && self.pane_stack == q);
                            assert(key_outcome(v, p, key, self.view(), self.spec_panes(), actions@));
                        }
                        return actions;
                    },
                }
            }
            let actions = self.interrupt();
            proof {
                assert(key_outcome(v, p, key, self.view(), self.spec_panes(), actions@));
            }
            return actions;
        }
        if ctrl && ch == Some('l') {
            self.history = Vec::new();
            let c = Self::system(" 屏幕已清除 ", SystemMessageStyle::Info);
            self.push_cell(c);
            proof {
                assert(self.view().history =~= seq![
                    CellView::System(" 屏幕已清除 "@, SystemMessageStyle::Info),
                ]);
            }
            let mut actions = Vec::new();
            actions.push(ShellAction::Render);
            proof {
                assert(actions@ =~= seq![ShellAction::Render]);
                assert(key_outcome(v, p, key, self.view(), self.spec_panes(), actions@));
            }
            return actions;
        }
        proof {
            assert(!is_ctrl(key, 'd'));
            assert(!is_ctrl(key, 'c'));
            assert(!is_ctrl(key, 'l'));
        }
        let mut h = Handled::NotHandled;
        if self.pane_stack.depth() > 0 {
            h = self.pane_stack.handle_key_event(key);
            if h == Handled::Handled {
                let mut actions = Vec::new();
                actions.push(ShellAction::Render);
                proof {
                    let q = self.pane_stack;
                    assert(stack_key_step(p, q, key, h));
                    assert(actions@ =~= seq![ShellAction::Render]);
                    assert(routed(p, key, q, h));
                    assert(key_result(v, key, h, self.view(), actions@));
                    assert(key_outcome(v, p, key, self.view(), self.spec_panes(), actions@));
                }
                return actions;
            }
        }
        let ghost q = self.pane_stack;
        proof {
            assert(routed(p, key, q, h));
        }
        let action = self.composer.handle_key(key);
        let ghost c = st_key(v.composer, key).0;
        let ghost w = AppView { composer: c, ..v };
        proof {
            assert(self.view() == w);
        }
        match action {
            ComposerAction::Submit(content) => {
                let actions = self.submit(content);
                proof {
                    assert(st_key(v.composer, key).1 == Some(content@));
                    assert(self.view() == submit_step(w, content@).0);
                    assert(key_result(v, key, h, self.view(), actions@));
                    assert(key_outcome(v, p, key, self.view(), self.spec_panes(), actions@));
                }
                actions
            },
            ComposerAction::Continue => {
                let mut actions = Vec::new();
                actions.push(ShellAction::Render);
                proof {
                    assert(actions@ =~= seq![ShellAction::Render]);
                    assert(key_result(v, key, h, self.view(), actions@));
                    assert(key_outcome(v, p, key, self.view(), self.spec_panes(), actions@));
                }
                actions
            },
        }
    }

    /// Handles a terminal event.
    pub fn handle_event(&mut self, event: TuiEvent) -> (actions: Vec<ShellAction>)
        requires
            old(self).wf(),
        ensures
            final(self).wf(),
            ({
                let v = old(self).view();
                match event {
                    TuiEvent::Key(k) => key_outcome(
                        v,
                        old(self).spec_panes(),
                        k,
                        final(self).view(),
                        final(self).spec_panes(),
                        actions@,
                    ),
                    TuiEvent::Resize(w, h) => final(self).view() == v && actions@ == seq![
                        ShellAction::Resize(w, h),
                        ShellAction::Render,
                    ],
                    TuiEvent::Draw => final(self).view() == (AppView {
                        frame: (v.frame + 1) % 10,
                        ..v
                    }) && actions@ == seq![ShellAction::Render],
                    TuiEvent::Suspend => final(self).view() == v && actions@ == seq![
                        ShellAction::Suspend,
                    ],
                    TuiEvent::FocusGained => final(self).view() == (AppView { focused: true, ..v })
                        && actions@.len() == 0,
                    TuiEvent::FocusLost => final(self).view() == (AppView { focused: false, ..v })
                        && actions@.len() == 0,
                    TuiEvent::Resume => final(self).view() == (AppView {
                        status: AiStatus::Idle,
                        message: Some("已恢复 (fg)"@),
                        ..v
                    }) && actions@ == seq![ShellAction::Render],
                    TuiEvent::Paste(t) => final(self).view() == (AppView {
                        composer: st_insert(v.composer, t@),
                        ..v
                    }) && actions@ == seq![ShellAction::Render],
                }
            }),
            event matches TuiEvent::Key(_) || final(self).spec_panes() == old(self).spec_panes(),
    {
        let mut actions: Vec<ShellAction> = Vec::new();
        match event {
            TuiEvent::Key(k) => {
                return self.handle_key(k);
            },
            TuiEvent::Resize(w, h) => {
                actions.push(ShellAction::Resize(w, h));
                actions.push(ShellAction::Render);
            },
            TuiEvent::Draw => {
                self.status_bar.tick();
                actions.push(ShellAction::Render);
            },
            TuiEvent::Suspend => {
                actions.push(ShellAction::Suspend);
            },
            TuiEvent::FocusGained => {
                self.focused = true;
            },
            TuiEvent::FocusLost => {
                self.focused = false;
            },
            TuiEvent::Resume => {
                self.set_status(AiStatus::Idle, Some(String::from_str("已恢复 (fg)")));
                actions.push(ShellAction::Render);
            },
            TuiEvent::Paste(text) => {
                self.composer.insert_text(text.as_str());
                actions.push(ShellAction::Render);
            },
        }
        actions
    }

    /// After the process was suspended and resumed: idle, with a notice.
    pub fn resumed(&mut self) -> (actions: Vec<ShellAction>)
        requires
            old(self).wf(),
        ensures
            final(self).wf(),
            final(self).view() == (AppView {
                status: AiStatus::Idle,
                message: Some("已恢复"@),
                ..old(self).view()
            }),
            final(self).spec_panes() == old(self).spec_panes(),
            actions@ == seq![ShellAction::Render],
    {
        self.set_status(AiStatus::Idle, Some(String::from_str("已恢复")));
        let mut actions = Vec::new();
        actions.push(ShellAction::Render);
        actions
    }

    /// Leaving the UI: the state becomes `Exiting` and the agent channel is
    /// dropped.
    pub fn shutdown(&mut self) -> (actions: Vec<ShellAction>)
        requires
            old(self).wf(),
        ensures
            final(self).wf(),
            final(self).view() == (AppView {
                state: AppState::Exiting,
                agent: false,
                ..old(self).view()
            }),
            final(self).spec_panes() == old(self).spec_panes(),
            actions@ == seq![ShellAction::CloseAgent],
    {
        self.state = AppState::Exiting;
        self.agent_running = false;
        let mut actions = Vec::new();
        actions.push(ShellAction::CloseAgent);
        actions
    }

    /// Pushes an overlay panel.
    pub fn push_pane(&mut self, pane: crate::pane::Panel)
        requires
            old(self).wf(),
            crate::pane::panel_wf(pane),
        ensures
            final(self).wf(),
            final(self).view() == old(self).view(),
            final(self).spec_panes().spec_stack() == old(self).spec_panes().spec_stack().push(pane),
            final(self).spec_panes().spec_base() == old(self).spec_panes().spec_base(),
    {
        self.pane_stack.push(pane);
    }

    /// Whether the main loop keeps running.
    pub fn is_running(&self) -> (b: bool)
        ensures
            b == self.view().running,
    {
        self.running
    }

    /// Whether an agent is running.
    pub fn is_agent_running(&self) -> (b: bool)
        ensures
            b == self.view().agent,
    {
        self.agent_running
    }

    /// The application state.
    pub fn state(&self) -> (s: AppState)
        ensures
            s == self.view().state,
    {
        self.state
    }

    /// The conversation.
    pub fn history(&self) -> (h: &[HistoryCell])
        ensures
            cells_view(h@) == self.view().history,
    {
        self.history.as_slice()
    }

    /// The reply being streamed.
    pub fn active_cell(&self) -> (c: Option<&StreamingCell>)
        ensures
            match c {
                Some(x) => self.view().active == Some(streaming_view(*x)),
                None => self.view().active is None,
            },
    {
        match &self.active_cell {
            Some(c) => Some(c),
            None => None,
        }
    }

    /// The input field.
    pub fn composer(&self) -> (c: &Composer)
        ensures
            c.state() == self.view().composer,
    {
        &self.composer
    }

    /// The overlays.
    pub fn pane_stack(&self) -> (p: &PaneStack)
        ensures
            *p == self.spec_panes(),
    {
        &self.pane_stack
    }

    /// The status bar.
    pub fn status_bar(&self) -> (b: &StatusBar)
        ensures
            b.spec_status() == self.view().status,
            b.spec_frame() == self.view().frame,
            b.spec_message() == self.view().message,
    {
        &self.status_bar
    }

    /// Whether the terminal has focus.
    pub fn is_focused(&self) -> (b: bool)
        ensures
            b == self.view().focused,
    {
        self.focused
    }
}

/// When the agent completes, fails or is interrupted, no agent is left
/// running, no reply is left streaming, and the first thing the loop does
/// is drop the agent channel.
pub proof fn law_agent_stops(v: AppView, e: AgentEvent)
    ensures
        (e is Completed || e is Error) ==> {
            let (w, acts) = agent_step(v, e);
            !w.agent && w.active is None && acts.len() > 0 && acts[0] == ShellAction::CloseAgent
                && acts.last() == ShellAction::Render
        },
        !interrupt_step(v).0.agent,
        interrupt_step(v).0.active is None,
        interrupt_step(v).1[0] == ShellAction::CloseAgent,
{
}

/// A completed reply that streamed some text becomes the last entry of the
/// conversation, verbatim; a notification goes out exactly when the
/// terminal is not focused.
pub proof fn law_completed_reply_is_recorded(v: AppView)
    ensures
        ({
            let (w, acts) = agent_step(v, AgentEvent::Completed);
            &&& (match v.active {
                Some(c) => c.0.len() > 0 ==> w.history.last() == CellView::Assistant(c.0),
                None => w.history == v.history,
            })
            &&& acts.contains(ShellAction::Notify(NotificationType::ReplyComplete)) <==> !v.focused
        }),
{
    let (w, acts) = agent_step(v, AgentEvent::Completed);
    if !v.focused {
        assert(acts[1] == ShellAction::Notify(NotificationType::ReplyComplete));
    } else {
        assert(acts =~= seq![ShellAction::CloseAgent, ShellAction::Render]);
    }
}

/// Submitting starts exactly one agent and records the input as the last
/// entry, with an empty reply streaming.
pub proof fn law_submit_starts_agent(v: AppView, content: Seq<char>)
    ensures
        submit_step(v, content).0.agent,
        submit_step(v, content).0.history.last() == CellView::User(content),
        submit_step(v, content).0.active == Some(fresh_cell()),
        submit_step(v, content).1 == seq![ShellAction::OpenAgent, ShellAction::Render],
{
}

} // verus!
