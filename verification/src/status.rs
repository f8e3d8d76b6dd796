//! AI status indicator — the status bar showing the current AI state.
//!
//! A single-line status bar at the bottom of the UI shows the current AI
//! operational state (Idle, Thinking, Executing, WaitingApproval, Error)
//! with an optional spinner animation and context message.
//!
//! Call `tick()` on each animation frame (e.g. every 150ms) to advance the
//! spinner while in `Thinking` or `Executing` states.

use vstd::prelude::*;
use vstd::string::*;
use crate::text::push_char;

verus! {

/// AI operational status displayed in the status bar.
#[derive(Debug, Clone, Copy, PartialEq, Eq, Structural)]
pub enum AiStatus {
    /// Idle, waiting for user input.
    Idle,
    /// Submitting input to the AI agent.
    Submitting,
    /// AI is thinking / generating a response.
    Thinking,
    /// AI is executing a tool call.
    Executing,
    /// Waiting for user approval (e.g. tool confirmation).
    WaitingApproval,
    /// Interrupted (e.g. Ctrl+C).
    Interrupted,
    /// An error occurred during execution.
    Error,
}

/// Foreground colour of a status line.
#[derive(Debug, Clone, Copy, PartialEq, Eq, Structural)]
pub enum StatusColor {
    Green,
    Cyan,
    Blue,
    Yellow,
    Red,
}

/// Spinner animation frames (Braille dots, 10 frames, ~150ms tick interval).
pub open spec fn spinner_seq() -> Seq<char> {
    seq!['⠋', '⠙', '⠹', '⠸', '⠼', '⠴', '⠦', '⠧', '⠇', '⠏']
}

/// The spinner animation frames.
pub fn spinner_frames() -> (r: [char; 10])
    ensures
        r@ == spinner_seq(),
{
    let r = ['⠋', '⠙', '⠹', '⠸', '⠼', '⠴', '⠦', '⠧', '⠇', '⠏'];
    proof {
        assert(r@ =~= spinner_seq());
    }
    r
}

/// The text of the status line for a status, spinner frame and message.
pub open spec fn status_text(status: AiStatus, frame: int, message: Option<Seq<char>>) -> Seq<
    char,
> {
    let spin = spinner_seq()[frame % 10];
    match status {
        AiStatus::Idle => " 等待输入 "@,
        AiStatus::Submitting => match message {
            Some(m) => " 提交中 "@.push(spin) + "  "@ + m + " "@,
            None => " 提交中 "@.push(spin) + " "@,
        },
        AiStatus::Thinking => match message {
            Some(m) => " 思考中 "@.push(spin) + "  "@ + m + " "@,
            None => " 思考中 "@.push(spin) + " "@,
        },
        AiStatus::Executing => match message {
            Some(m) => " 执行中 "@.push(spin) + "  "@ + m + " "@,
            None => " 执行中 "@.push(spin) + " "@,
        },
        AiStatus::WaitingApproval => match message {
            Some(m) => " 等待审批 — "@ + m + " "@,
            None => " 等待审批 "@,
        },
        AiStatus::Interrupted => match message {
            Some(m) => " 已中断 — "@ + m + " "@,
            None => " 已中断 "@,
        },
        AiStatus::Error => match message {
            Some(m) => " 错误: "@ + m + " "@,
            None => " 错误 "@,
        },
    }
}

/// The colour of the status line for a status.
pub open spec fn status_color(status: AiStatus) -> StatusColor {
    match status {
        AiStatus::Idle => StatusColor::Green,
        AiStatus::Submitting => StatusColor::Cyan,
        AiStatus::Thinking => StatusColor::Cyan,
        AiStatus::Executing => StatusColor::Blue,
        AiStatus::WaitingApproval => StatusColor::Yellow,
        AiStatus::Interrupted => StatusColor::Red,
        AiStatus::Error => StatusColor::Red,
    }
}

/// Status bar widget indicating the current AI state.
///
/// Renders a top border line and a single row with a status label (e.g.
/// ` 思考中 ⠋ `) and an optional context message (tool name, error detail).
pub struct StatusBar {
    /// Current AI status.
    status: AiStatus,
    /// Current spinner frame index (`0 .. 10`).
    spinner_frame: usize,
    /// Optional context message (tool name, action description, error detail).
    message: Option<String>,
}

impl StatusBar {
    #[verifier::type_invariant]
    spec fn frame_in_range(&self) -> bool {
        self.spinner_frame < 10
    }

    pub closed spec fn spec_status(&self) -> AiStatus {
        self.status
    }

    pub closed spec fn spec_frame(&self) -> int {
        self.spinner_frame as int
    }

    pub closed spec fn spec_message(&self) -> Option<Seq<char>> {
        match self.message {
            Some(m) => Some(m@),
            None => None,
        }
    }

    /// Create a new status bar in `Idle` state with no message.
    pub fn new() -> (b: Self)
        ensures
            b.spec_status() == AiStatus::Idle,
            b.spec_frame() == 0,
            b.spec_message() is None,
    {
        StatusBar { status: AiStatus::Idle, spinner_frame: 0, message: None }
    }

    /// Update the current AI status.
    pub fn set_status(&mut self, status: AiStatus)
        ensures
            final(self).spec_status() == status,
            final(self).spec_frame() == old(self).spec_frame(),
            final(self).spec_message() == old(self).spec_message(),
    {
        proof {
            use_type_invariant(&*self);
        }
        self.status = status;
    }

    /// Set or clear the optional context message.
    ///
    /// The message appears alongside the status label for `Thinking` and
    /// `Executing` states, and as the sole text for `Error` state.
    pub fn set_message(&mut self, message: Option<String>)
        ensures
            final(self).spec_message() == match message {
                Some(m) => Some(m@),
                None => None::<Seq<char>>,
            },
            final(self).spec_status() == old(self).spec_status(),
            final(self).spec_frame() == old(self).spec_frame(),
    {
        proof {
            use_type_invariant(&*self);
        }
        self.message = message;
    }

    /// Advance the spinner animation by one frame, wrapping around after the
    /// last of the 10 frames.
    pub fn tick(&mut self)
        ensures
            final(self).spec_frame() == (old(self).spec_frame() + 1) % 10,
            final(self).spec_status() == old(self).spec_status(),
            final(self).spec_message() == old(self).spec_message(),
            status_ticked(*old(self), *final(self)),
    {
        proof {
            use_type_invariant(&*self);
        }
        self.spinner_frame = (self.spinner_frame + 1) % 10;
    }

    /// Return the current status.
    pub fn status(&self) -> (r: AiStatus)
        ensures
            r == self.spec_status(),
    {
        self.status
    }

    /// Return the current spinner frame index.
    pub fn spinner_frame(&self) -> (r: usize)
        ensures
            r == self.spec_frame(),
            r < 10,
    {
        proof {
            use_type_invariant(self);
        }
        self.spinner_frame
    }

    /// Return the current context message.
    pub fn message(&self) -> (r: Option<&str>)
        ensures
            match r {
                Some(m) => self.spec_message() == Some(m@),
                None => self.spec_message() is None,
            },
    {
        match &self.message {
            Some(m) => Some(m.as_str()),
            None => None,
        }
    }

    /// Reset to idle state with no message.
    pub fn reset(&mut self)
        ensures
            final(self).spec_status() == AiStatus::Idle,
            final(self).spec_frame() == 0,
            final(self).spec_message() is None,
    {
        proof {
            use_type_invariant(&*self);
        }
        self.status = AiStatus::Idle;
        self.spinner_frame = 0;
        self.message = None;
    }

    /// Rows the status bar needs: the top border and the status text.
    pub fn desired_height(&self, _width: u16) -> (h: u16)
        ensures
            h == 2,
    {
        2
    }

    /// The status line text and its colour for the current state.
    pub fn status_line(&self) -> (r: (String, StatusColor))
        ensures
            r.0@ == status_text(self.spec_status(), self.spec_frame(), self.spec_message()),
            r.1 == status_color(self.spec_status()),
    {
        proof {
            use_type_invariant(self);
        }
        let frames = spinner_frames();
        let spin = frames[self.spinner_frame % 10];
        let text = match self.status {
            AiStatus::Idle => String::from_str(" 等待输入 "),
            AiStatus::Submitting => Self::spinner_label(" 提交中 ", spin, &self.message),
            AiStatus::Thinking => Self::spinner_label(" 思考中 ", spin, &self.message),
            AiStatus::Executing => Self::spinner_label(" 执行中 ", spin, &self.message),
            AiStatus::WaitingApproval => Self::detail_label(" 等待审批 — ", " 等待审批 ", &self.message),
            AiStatus::Interrupted => Self::detail_label(" 已中断 — ", " 已中断 ", &self.message),
            AiStatus::Error => Self::detail_label(" 错误: ", " 错误 ", &self.message),
        };
        let color = match self.status {
            AiStatus::Idle => StatusColor::Green,
            AiStatus::Submitting => StatusColor::Cyan,
            AiStatus::Thinking => StatusColor::Cyan,
            AiStatus::Executing => StatusColor::Blue,
            AiStatus::WaitingApproval => StatusColor::Yellow,
            AiStatus::Interrupted => StatusColor::Red,
            AiStatus::Error => StatusColor::Red,
        };
        (text, color)
    }

    /// `label` and the spinner frame, then the message if there is one.
    fn spinner_label(label: &str, spin: char, message: &Option<String>) -> (r: String)
        ensures
            r@ == match message {
                Some(m) => label@.push(spin) + "  "@ + m@ + " "@,
                None => label@.push(spin) + " "@,
            },
    {
        let mut s = String::from_str(label);
        push_char(&mut s, spin);
        match message {
            Some(m) => {
                s.append("  ");
                s.append(m.as_str());
                s.append(" ");
            },
            None => {
                s.append(" ");
            },
        }
        s
    }

    /// `with` followed by the message, or `without` when there is none.
    fn detail_label(with: &str, without: &str, message: &Option<String>) -> (r: String)
        ensures
            r@ == match message {
                Some(m) => with@ + m@ + " "@,
                None => without@,
            },
    {
        match message {
            Some(m) => {
                let mut s = String::from_str(with);
                s.append(m.as_str());
                s.append(" ");
                s
            },
            None => String::from_str(without),
        }
    }
}

impl Default for StatusBar {
    fn default() -> (b: Self)
        ensures
            b.spec_status() == AiStatus::Idle,
            b.spec_frame() == 0,
            b.spec_message() is None,
    {
        Self::new()
    }
}


/// What one call of `StatusBar::tick` does: the spinner frame moves on by
/// one, wrapping after the tenth, and the status and message stay.
pub open spec fn status_ticked(a: StatusBar, b: StatusBar) -> bool {
    &&& b.spec_frame() == (a.spec_frame() + 1) % 10
    &&& b.spec_status() == a.spec_status()
    &&& b.spec_message() == a.spec_message()
}

/// Whether `run` is a status bar followed by the bars each call of `tick`
/// leaves.
pub open spec fn status_tick_run(run: Seq<StatusBar>) -> bool {
    forall|i: int| 0 <= i < run.len() - 1 ==> #[trigger] status_ticked(run[i], run[i + 1])
}

/// After `n` calls of `tick` on a status bar at frame `f` (below 10), the
/// frame is `(f + n) % 10`, in any status, and the status and message are
/// those it had; from `StatusBar::new()` the frame is `n % 10`.
pub proof fn law_status_ticks(run: Seq<StatusBar>)
    requires
        run.len() > 0,
        0 <= run[0].spec_frame() < 10,
        status_tick_run(run),
    ensures
        run.last().spec_frame() == (run[0].spec_frame() + run.len() - 1) % 10,
        run.last().spec_status() == run[0].spec_status(),
        run.last().spec_message() == run[0].spec_message(),
    decreases run.len(),
{
    if run.len() > 1 {
        let prev = run.drop_last();
        assert forall|i: int| 0 <= i < prev.len() - 1 implies #[trigger] status_ticked(
            prev[i],
            prev[i + 1],
        ) by {
            assert(status_ticked(run[i], run[i + 1]));
        }
        law_status_ticks(prev);
        let j = run.len() - 2;
        assert(status_ticked(run[j], run[j + 1]));
        assert(prev.last() == run[j]);
        crate::spinner::lemma_mod_succ(run[0].spec_frame() + j, 10);
    }
}

} // verus!
