//! Application state machine.
//!
//! Manages the global application state transitions of the terminal UI.
//! States represent the lifecycle of a user interaction session:
//! idle → input → submit → process → (approval loop) → idle → ...

use vstd::prelude::*;
use vstd::string::*;

verus! {

/// Application global state.
#[derive(Debug, Clone, Copy, PartialEq, Eq, Structural)]
pub enum AppState {
    /// Idle, waiting for user input.
    Idle,
    /// User is typing input.
    Inputting,
    /// Submitting input to the agent.
    Submitting,
    /// AI is thinking / executing.
    Processing,
    /// Waiting for user approval.
    AwaitingApproval,
    /// Interrupted (e.g., Ctrl+C).
    Interrupted,
    /// Error state.
    Error,
    /// Exiting the application.
    Exiting,
}

/// Application events that trigger state transitions.
#[derive(Debug, Clone, Copy, PartialEq, Eq, Structural)]
pub enum AppEvent {
    /// User starts typing.
    StartInput,
    /// User submits input.
    Submit,
    /// AI begins processing.
    Processing,
    /// AI completed processing.
    Completed,
    /// AI requests user approval.
    RequestApproval,
    /// User completed the approval action.
    ApprovalDone,
    /// Interrupt signal (e.g., Ctrl+C).
    Interrupt,
    /// Resume from interrupted or error state.
    Resume,
    /// An error occurred.
    Error,
    /// Exit the application.
    Exit,
}

/// State transition error.
#[derive(Debug, Clone)]
pub struct StateError(pub String);

impl StateError {
    /// The error message.
    pub fn to_string(&self) -> (r: String)
        ensures
            r@ == self.0@,
    {
        self.0.clone()
    }
}

/// The transition table: the next state, or `None` for a disallowed
/// transition.
///
/// | Current State        | Event            | Next State         |
/// |----------------------|------------------|--------------------|
/// | Idle                 | StartInput       | Inputting          |
/// | Idle                 | Submit           | Submitting         |
/// | Inputting            | Submit           | Submitting         |
/// | Submitting           | Processing       | Processing         |
/// | Processing           | Completed        | Idle               |
/// | Processing           | RequestApproval  | AwaitingApproval   |
/// | AwaitingApproval     | ApprovalDone     | Processing         |
/// | *                    | Interrupt        | Interrupted        |
/// | Interrupted          | Resume           | Idle               |
/// | *                    | Error            | Error              |
/// | Error                | Resume           | Idle               |
/// | *                    | Exit             | Exiting            |
pub open spec fn next_state(s: AppState, e: AppEvent) -> Option<AppState> {
    match (s, e) {
        (AppState::Idle, AppEvent::StartInput) => Some(AppState::Inputting),
        (AppState::Idle, AppEvent::Submit) => Some(AppState::Submitting),
        (AppState::Inputting, AppEvent::Submit) => Some(AppState::Submitting),
        (AppState::Submitting, AppEvent::Processing) => Some(AppState::Processing),
        (AppState::Processing, AppEvent::Completed) => Some(AppState::Idle),
        (AppState::Processing, AppEvent::RequestApproval) => Some(AppState::AwaitingApproval),
        (AppState::AwaitingApproval, AppEvent::ApprovalDone) => Some(AppState::Processing),
        (_, AppEvent::Interrupt) => Some(AppState::Interrupted),
        (AppState::Interrupted, AppEvent::Resume) => Some(AppState::Idle),
        (_, AppEvent::Error) => Some(AppState::Error),
        (AppState::Error, AppEvent::Resume) => Some(AppState::Idle),
        (_, AppEvent::Exit) => Some(AppState::Exiting),
        _ => None,
    }
}

/// The name of a state as its `Debug` form prints it.
pub open spec fn state_name(s: AppState) -> Seq<char> {
    match s {
        AppState::Idle => "Idle"@,
        AppState::Inputting => "Inputting"@,
        AppState::Submitting => "Submitting"@,
        AppState::Processing => "Processing"@,
        AppState::AwaitingApproval => "AwaitingApproval"@,
        AppState::Interrupted => "Interrupted"@,
        AppState::Error => "Error"@,
        AppState::Exiting => "Exiting"@,
    }
}

/// The name of an event as its `Debug` form prints it.
pub open spec fn event_name(e: AppEvent) -> Seq<char> {
    match e {
        AppEvent::StartInput => "StartInput"@,
        AppEvent::Submit => "Submit"@,
        AppEvent::Processing => "Processing"@,
        AppEvent::Completed => "Completed"@,
        AppEvent::RequestApproval => "RequestApproval"@,
        AppEvent::ApprovalDone => "ApprovalDone"@,
        AppEvent::Interrupt => "Interrupt"@,
        AppEvent::Resume => "Resume"@,
        AppEvent::Error => "Error"@,
        AppEvent::Exit => "Exit"@,
    }
}

/// The message of a refused transition.
pub open spec fn transition_error_message(s: AppState, e: AppEvent) -> Seq<char> {
    "cannot transition from "@ + state_name(s) + " to "@ + event_name(e)
}

impl AppState {
    /// The state's name.
    pub fn name(&self) -> (r: &'static str)
        ensures
            r@ == state_name(*self),
    {
        match self {
            AppState::Idle => "Idle",
            AppState::Inputting => "Inputting",
            AppState::Submitting => "Submitting",
            AppState::Processing => "Processing",
            AppState::AwaitingApproval => "AwaitingApproval",
            AppState::Interrupted => "Interrupted",
            AppState::Error => "Error",
            AppState::Exiting => "Exiting",
        }
    }

    /// Attempt a state transition given an event.
    ///
    /// Returns the new state on success, or a [`StateError`] describing the
    /// invalid transition (see [`next_state`] for the table).
    pub fn transition(&self, event: AppEvent) -> (r: Result<AppState, StateError>)
        ensures
            match next_state(*self, event) {
                Some(n) => r == Ok::<AppState, StateError>(n),
                None => r matches Err(err) && err.0@ == transition_error_message(*self, event),
            },
    {
        match (self, event) {
            (AppState::Idle, AppEvent::StartInput) => Ok(AppState::Inputting),
            (AppState::Idle, AppEvent::Submit) => Ok(AppState::Submitting),
            (AppState::Inputting, AppEvent::Submit) => Ok(AppState::Submitting),
            (AppState::Submitting, AppEvent::Processing) => Ok(AppState::Processing),
            (AppState::Processing, AppEvent::Completed) => Ok(AppState::Idle),
            (AppState::Processing, AppEvent::RequestApproval) => Ok(AppState::AwaitingApproval),
            (AppState::AwaitingApproval, AppEvent::ApprovalDone) => Ok(AppState::Processing),
            (_, AppEvent::Interrupt) => Ok(AppState::Interrupted),
            (AppState::Interrupted, AppEvent::Resume) => Ok(AppState::Idle),
            (_, AppEvent::Error) => Ok(AppState::Error),
            (AppState::Error, AppEvent::Resume) => Ok(AppState::Idle),
            (_, AppEvent::Exit) => Ok(AppState::Exiting),
            _ => {
                let mut msg = String::from_str("cannot transition from ");
                msg.append(self.name());
                msg.append(" to ");
                msg.append(event.name());
                Err(StateError(msg))
            },
        }
    }
}

impl AppEvent {
    /// The event's name.
    pub fn name(&self) -> (r: &'static str)
        ensures
            r@ == event_name(*self),
    {
        match self {
            AppEvent::StartInput => "StartInput",
            AppEvent::Submit => "Submit",
            AppEvent::Processing => "Processing",
            AppEvent::Completed => "Completed",
            AppEvent::RequestApproval => "RequestApproval",
            AppEvent::ApprovalDone => "ApprovalDone",
            AppEvent::Interrupt => "Interrupt",
            AppEvent::Resume => "Resume",
            AppEvent::Error => "Error",
            AppEvent::Exit => "Exit",
        }
    }
}

/// Exit, Interrupt and Error are accepted in every state and lead to
/// Exiting, Interrupted and Error respectively.
pub proof fn law_global_events_always_accepted(s: AppState)
    ensures
        next_state(s, AppEvent::Exit) == Some(AppState::Exiting),
        next_state(s, AppEvent::Interrupt) == Some(AppState::Interrupted),
        next_state(s, AppEvent::Error) == Some(AppState::Error),
{
}

/// From every state, an interrupt followed by a resume leads back to Idle;
/// so does an error followed by a resume.
pub proof fn law_recovery_returns_to_idle(s: AppState)
    ensures
        next_state(AppState::Interrupted, AppEvent::Resume) == Some(AppState::Idle),
        ({
            let i = next_state(s, AppEvent::Interrupt).unwrap();
            next_state(i, AppEvent::Resume) == Some(AppState::Idle)
        }),
        ({
            let e = next_state(s, AppEvent::Error).unwrap();
            next_state(e, AppEvent::Resume) == Some(AppState::Idle)
        }),
{
}

/// Exiting is final: only the three global events are accepted there, and
/// Exit keeps the application in Exiting.
pub proof fn law_exiting_only_accepts_global_events(e: AppEvent)
    ensures
        next_state(AppState::Exiting, e) is Some <==> (e == AppEvent::Exit || e
            == AppEvent::Interrupt || e == AppEvent::Error),
{
}

} // verus!
