//! The backend events that the interface reacts to.

use vstd::prelude::*;

use crate::history_cell::PlainHistoryCell;

verus! {

/// Token counts reported by the backend.
#[derive(Clone, Copy, PartialEq, Eq, Structural, Debug)]
pub struct TokenUsage {
    pub input_tokens: i64,
    pub cached_input_tokens: i64,
    pub output_tokens: i64,
    pub reasoning_output_tokens: i64,
    pub total_tokens: i64,
}

impl TokenUsage {
    /// No tokens at all.
    pub open spec fn zero() -> TokenUsage {
        TokenUsage {
            input_tokens: 0,
            cached_input_tokens: 0,
            output_tokens: 0,
            reasoning_output_tokens: 0,
            total_tokens: 0,
        }
    }

    /// No tokens at all.
    pub fn none() -> (r: TokenUsage)
        ensures
            r == TokenUsage::zero(),
    {
        TokenUsage {
            input_tokens: 0,
            cached_input_tokens: 0,
            output_tokens: 0,
            reasoning_output_tokens: 0,
            total_tokens: 0,
        }
    }
}

/// A token report: the session total, the last request and the context window.
#[derive(Clone, Copy, PartialEq, Eq, Structural, Debug)]
pub struct TokenUsageInfo {
    pub total_token_usage: TokenUsage,
    pub last_token_usage: TokenUsage,
    pub model_context_window: Option<i64>,
}

/// Why a turn was aborted.
#[derive(Clone, Copy, PartialEq, Eq, Structural, Debug)]
pub enum TurnAbortReason {
    Interrupted,
    Replaced,
    ReviewEnded,
}

/// How a round ended.
#[derive(Debug)]
pub enum PotterRoundOutcome {
    Completed,
    UserRequested,
    TaskFailed { message: String },
    Fatal { message: String },
}

/// The state of one step of a plan.
#[derive(Clone, Copy, PartialEq, Eq, Structural, Debug)]
pub enum StepStatus {
    Pending,
    InProgress,
    Completed,
}

/// One step of a plan.
#[derive(Debug)]
pub struct PlanItemArg {
    pub step: String,
    pub status: StepStatus,
}

/// A plan with an optional explanation.
#[derive(Debug)]
pub struct UpdatePlanArgs {
    pub explanation: Option<String>,
    pub plan: Vec<PlanItemArg>,
}

/// Where a command came from.
#[derive(Clone, Copy, PartialEq, Eq, Structural, Debug)]
pub enum ExecCommandSource {
    Agent,
    UserShell,
    UnifiedExecStartup,
    UnifiedExecInteraction,
}

/// A command that has ended.
#[derive(Debug)]
pub struct ExecCommandEndEvent {
    pub call_id: String,
    pub command: Vec<String>,
    pub source: ExecCommandSource,
    /// Whether every parsed part of the command only reads, lists or searches.
    pub exploring: bool,
    pub interaction_input: Option<String>,
    pub exit_code: i32,
    pub stdout: String,
    pub stderr: String,
    pub aggregated_output: String,
    pub formatted_output: String,
    pub duration_nanos: u64,
}

/// The change that a patch makes to one file.
#[derive(Debug)]
pub enum FileChange {
    Add { content: String },
    Delete { content: String },
    Update { unified_diff: String, move_path: Option<String> },
}

/// The change that a patch makes to the file at `path`.
#[derive(Debug)]
pub struct ChangedFile {
    pub path: String,
    pub change: FileChange,
}

/// When a hook runs.
#[derive(Clone, Copy, PartialEq, Eq, Structural, Debug)]
pub enum HookEventName {
    SessionStart,
    Stop,
}

/// How a hook run ended.
#[derive(Clone, Copy, PartialEq, Eq, Structural, Debug)]
pub enum HookRunStatus {
    Running,
    Completed,
    Failed,
    Blocked,
    Stopped,
}

/// What a line of hook output is.
#[derive(Clone, Copy, PartialEq, Eq, Structural, Debug)]
pub enum HookOutputEntryKind {
    Warning,
    Stop,
    Feedback,
    Context,
    Error,
}

/// A line of hook output.
#[derive(Debug)]
pub struct HookOutputEntry {
    pub kind: HookOutputEntryKind,
    pub text: String,
}

/// The outcome of a project, shown once its last round has ended.
#[derive(Debug)]
pub struct ProjectSummary {
    pub rounds: u32,
    pub duration_secs: u64,
    pub user_prompt_file: String,
    pub git_commit_start: String,
    pub git_commit_end: String,
}

/// An event streamed from the backend.
#[derive(Debug)]
pub enum EventMsg {
    SessionConfigured { session_id: String, cwd: String },
    TurnStarted { model_context_window: Option<i64> },
    TurnComplete,
    TurnAborted { reason: TurnAbortReason },
    TokenCount { info: Option<TokenUsageInfo> },
    PotterProjectStarted { user_message: Option<String>, user_prompt_file: String },
    PotterRoundStarted { current: u32, total: u32 },
    PotterProjectSucceeded { project: ProjectSummary },
    PotterProjectBudgetExhausted { project: ProjectSummary },
    PotterRoundFinished { outcome: PotterRoundOutcome },
    PotterStreamRecoveryUpdate { attempt: u32, max_attempts: u32, error_message: String },
    PotterStreamRecoveryRecovered,
    PotterStreamRecoveryGaveUp { attempts: u32, max_attempts: u32, error_message: String },
    AgentMessageDelta { delta: String },
    AgentMessage { message: String },
    AgentReasoningDelta { delta: String },
    AgentReasoningRawContentDelta { delta: String },
    AgentReasoningSectionBreak,
    AgentReasoning { text: String },
    AgentReasoningRawContent { text: String },
    PlanDelta { delta: String },
    PlanUpdate { update: UpdatePlanArgs },
    ContextCompacted,
    Warning { message: String },
    Error { message: String },
    StreamError { message: String, additional_details: Option<String> },
    DeprecationNotice { summary: String, details: Option<String> },
    RequestPermissions,
    RequestUserInput,
    ElicitationRequest,
    GuardianAssessment,
    WebSearchEnd { query: String },
    ViewImageToolCall { path: String },
    ExecCommandEnd { command: ExecCommandEndEvent },
    PatchApplyEnd { success: bool, stderr: String, changes: Vec<ChangedFile> },
    HookStarted { event_name: HookEventName, status_message: Option<String> },
    HookCompleted {
        event_name: HookEventName,
        status: HookRunStatus,
        entries: Vec<HookOutputEntry>,
    },
    CollabAgentSpawnEnd { cell: PlainHistoryCell },
    CollabAgentInteractionEnd { cell: PlainHistoryCell },
    CollabWaitingBegin { cell: PlainHistoryCell },
    CollabWaitingEnd { cell: PlainHistoryCell },
    CollabCloseEnd { cell: PlainHistoryCell },
    CollabResumeBegin { cell: PlainHistoryCell },
    CollabResumeEnd { cell: PlainHistoryCell },
    /// An event that the interface does not show.
    Other,
}

} // verus!
