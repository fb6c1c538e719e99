//! Choosing a session when the program starts.
use vstd::prelude::*;

use crate::text::{concat2, concat3, concat4, copy_opt, decimal, decimal_of, opt_text, same_text};

verus! {

/// What a prompt about agents was answered.
#[derive(Clone, Copy, Debug, PartialEq, Eq, Structural)]
pub enum ResumeAllAction {
    Idle,
    ResumeAll,
    StartFresh,
}

/// The answer of a frame: a button before a key, the right button before the
/// left, Enter before Escape.
pub fn resume_all_action(resume: bool, fresh: bool, enter: bool, escape: bool) -> (action:
    ResumeAllAction)
    ensures
        action == if resume {
            ResumeAllAction::ResumeAll
        } else if fresh {
            ResumeAllAction::StartFresh
        } else if enter {
            ResumeAllAction::ResumeAll
        } else if escape {
            ResumeAllAction::StartFresh
        } else {
            ResumeAllAction::Idle
        },
{
    if resume {
        ResumeAllAction::ResumeAll
    } else if fresh {
        ResumeAllAction::StartFresh
    } else if enter {
        ResumeAllAction::ResumeAll
    } else if escape {
        ResumeAllAction::StartFresh
    } else {
        ResumeAllAction::Idle
    }
}

pub open spec fn resume_text(panel_count: nat) -> Seq<char> {
    if panel_count == 1 {
        "This session has 1 agent panel that can reattach to its previous session."@
    } else {
        "This session has "@ + decimal(panel_count)
            + " agent panels that can reattach to their previous sessions."@
    }
}

pub fn resume_prompt_text(panel_count: usize) -> (text: String)
    ensures
        text@ == resume_text(panel_count as nat),
{
    if panel_count == 1 {
        "This session has 1 agent panel that can reattach to its previous session.".to_string()
    } else {
        let count = decimal_of(panel_count as u64);
        concat3(
            "This session has ",
            count.as_str(),
            " agent panels that can reattach to their previous sessions.",
        )
    }
}

/// The prompt that stands before a session with agents.
#[derive(Clone, Copy, Debug, PartialEq, Eq, Structural)]
pub struct ResumePrompt {
    /// How many agents wait for the answer.
    pub waiting: Option<usize>,
}

/// What is done with the session.
#[derive(Clone, Copy, Debug, PartialEq, Eq, Structural)]
pub enum ResumeOutcome {
    /// No session waits.
    Clear,
    /// The answer is still to come; nothing else shows.
    Waiting,
    /// The session starts, with its agents as they were or fresh.
    Activate { fresh: bool },
}

impl ResumePrompt {
    /// A session with agents waits for an answer. Says whether it does.
    pub fn maybe_queue_resume_all_prompt(&mut self, candidates: usize) -> (queued: bool)
        ensures
            queued == (candidates > 0),
            *final(self) == if candidates > 0 {
                ResumePrompt { waiting: Some(candidates) }
            } else {
                *old(self)
            },
    {
        if candidates == 0 {
            return false;
        }
        self.waiting = Some(candidates);
        true
    }

    pub fn prepare_resume_all_prompt(&mut self, action: ResumeAllAction) -> (outcome: ResumeOutcome)
        ensures
            outcome == if old(self).waiting is None {
                ResumeOutcome::Clear
            } else {
                match action {
                    ResumeAllAction::Idle => ResumeOutcome::Waiting,
                    ResumeAllAction::ResumeAll => ResumeOutcome::Activate { fresh: false },
                    ResumeAllAction::StartFresh => ResumeOutcome::Activate { fresh: true },
                }
            },
            *final(self) == if action == ResumeAllAction::Idle {
                *old(self)
            } else {
                ResumePrompt { waiting: None }
            },
    {
        if self.waiting.is_none() {
            return ResumeOutcome::Clear;
        }
        match action {
            ResumeAllAction::Idle => ResumeOutcome::Waiting,
            ResumeAllAction::ResumeAll => {
                self.waiting = None;
                ResumeOutcome::Activate { fresh: false }
            },
            ResumeAllAction::StartFresh => {
                self.waiting = None;
                ResumeOutcome::Activate { fresh: true }
            },
        }
    }
}

#[derive(Clone, Copy, Debug, PartialEq, Eq, Structural)]
pub enum StartupPromptReason {
    LiveConflict,
    MultipleRecoverable,
}

pub fn startup_headline(reason: StartupPromptReason) -> (text: &'static str)
    ensures
        text@ == match reason {
            StartupPromptReason::LiveConflict =>
                "A Horizon session is already active for this config."@,
            StartupPromptReason::MultipleRecoverable =>
                "Multiple recoverable sessions are available."@,
        },
{
    match reason {
        StartupPromptReason::LiveConflict => "A Horizon session is already active for this config.",
        StartupPromptReason::MultipleRecoverable => "Multiple recoverable sessions are available.",
    }
}

pub enum StartupChooserAction {
    Idle,
    OpenNewSession,
    OpenCopy(String),
    TakeOver(String),
    Resume(String),
}

pub enum ActionView {
    Idle,
    OpenNewSession,
    OpenCopy(Seq<char>),
    TakeOver(Seq<char>),
    Resume(Seq<char>),
}

impl View for StartupChooserAction {
    type V = ActionView;

    open spec fn view(&self) -> ActionView {
        match self {
            StartupChooserAction::Idle => ActionView::Idle,
            StartupChooserAction::OpenNewSession => ActionView::OpenNewSession,
            StartupChooserAction::OpenCopy(id) => ActionView::OpenCopy(id@),
            StartupChooserAction::TakeOver(id) => ActionView::TakeOver(id@),
            StartupChooserAction::Resume(id) => ActionView::Resume(id@),
        }
    }
}

/// The clicks on the buttons; which of them show depends on the reason.
#[derive(Clone, Copy, Debug, PartialEq, Eq, Structural)]
pub struct ChooserClicks {
    pub take_over: bool,
    pub open_copy: bool,
    pub resume: bool,
    pub open_new: bool,
}

/// A session is taken over, copied or resumed only where one is chosen; a new
/// one can always be opened.
pub open spec fn chosen(
    reason: StartupPromptReason,
    selected: Option<Seq<char>>,
    clicks: ChooserClicks,
) -> ActionView {
    if clicks.open_new {
        ActionView::OpenNewSession
    } else {
        match (reason, selected) {
            (StartupPromptReason::LiveConflict, Some(id)) => if clicks.take_over {
                ActionView::TakeOver(id)
            } else if clicks.open_copy {
                ActionView::OpenCopy(id)
            } else {
                ActionView::Idle
            },
            (StartupPromptReason::MultipleRecoverable, Some(id)) => if clicks.resume {
                ActionView::Resume(id)
            } else {
                ActionView::Idle
            },
            _ => ActionView::Idle,
        }
    }
}

/// The chooser.
pub struct StartupChooserState {
    pub reason: StartupPromptReason,
    pub selected_session_id: Option<String>,
    pub error: Option<String>,
}

impl StartupChooserState {
    pub fn is_selected(&self, session_id: &str) -> (yes: bool)
        ensures
            yes == (opt_text(self.selected_session_id) == Some(session_id@)),
    {
        match &self.selected_session_id {
            Some(id) => same_text(id.as_str(), session_id),
            None => false,
        }
    }

    /// A click on a card, or on its button, chooses its session.
    pub fn select(&mut self, session_id: &str)
        ensures
            opt_text(final(self).selected_session_id) == Some(session_id@),
            final(self).reason == old(self).reason,
            opt_text(final(self).error) == opt_text(old(self).error),
    {
        self.selected_session_id = Some(session_id.to_string());
    }

    pub fn action(&self, clicks: ChooserClicks) -> (chosen_action: StartupChooserAction)
        ensures
            chosen_action@ == chosen(self.reason, opt_text(self.selected_session_id), clicks),
    {
        if clicks.open_new {
            return StartupChooserAction::OpenNewSession;
        }
        let id = match copy_opt(&self.selected_session_id) {
            Some(id) => id,
            None => {
                return StartupChooserAction::Idle;
            },
        };
        match self.reason {
            StartupPromptReason::LiveConflict => if clicks.take_over {
                StartupChooserAction::TakeOver(id)
            } else if clicks.open_copy {
                StartupChooserAction::OpenCopy(id)
            } else {
                StartupChooserAction::Idle
            },
            StartupPromptReason::MultipleRecoverable => if clicks.resume {
                StartupChooserAction::Resume(id)
            } else {
                StartupChooserAction::Idle
            },
        }
    }

    /// What a session could not be opened for stays on the chooser.
    pub fn set_startup_error(&mut self, action: &StartupChooserAction, error: &str)
        ensures
            opt_text(final(self).error) == match action@ {
                ActionView::Idle => opt_text(old(self).error),
                ActionView::OpenNewSession => Some("Failed to create session: "@ + error@),
                ActionView::OpenCopy(_) => Some("Failed to copy session: "@ + error@),
                ActionView::TakeOver(_) => Some("Failed to take over session: "@ + error@),
                ActionView::Resume(_) => Some("Failed to resume session: "@ + error@),
            },
            final(self).reason == old(self).reason,
            opt_text(final(self).selected_session_id) == opt_text(old(self).selected_session_id),
    {
        match action {
            StartupChooserAction::Idle => {},
            StartupChooserAction::OpenNewSession => {
                self.error = Some(concat2("Failed to create session: ", error));
            },
            StartupChooserAction::OpenCopy(_) => {
                self.error = Some(concat2("Failed to copy session: ", error));
            },
            StartupChooserAction::TakeOver(_) => {
                self.error = Some(concat2("Failed to take over session: ", error));
            },
            StartupChooserAction::Resume(_) => {
                self.error = Some(concat2("Failed to resume session: ", error));
            },
        }
    }
}

/// What a session's card says of it; `when` is how long ago it was used.
pub fn session_summary(workspaces: usize, panels: usize, when: &str) -> (text: String)
    ensures
        text@ == (decimal(workspaces as nat) + " workspaces · "@ + decimal(panels as nat)
            + " panels · "@) + when@,
{
    let w = decimal_of(workspaces as u64);
    let p = decimal_of(panels as u64);
    let counts = concat4(w.as_str(), " workspaces · ", p.as_str(), " panels · ");
    concat2(counts.as_str(), when)
}

pub open spec fn kept_within(n: u32, low: u32, high: u32) -> u32 {
    if n < low {
        low
    } else if n > high {
        high
    } else {
        n
    }
}

/// The size that a restored window gets, in thousandths of a point.
pub fn restored_window_size(width: u32, height: u32) -> (size: (u32, u32))
    ensures
        size.0 == kept_within(width, 800_000, 7_680_000),
        size.1 == kept_within(height, 600_000, 4_320_000),
{
    let w: u32 = if width < 800_000 {
        800_000
    } else if width > 7_680_000 {
        7_680_000
    } else {
        width
    };
    let h: u32 = if height < 600_000 {
        600_000
    } else if height > 4_320_000 {
        4_320_000
    } else {
        height
    };
    (w, h)
}

/// A prompt counts its agents, one by its word.
pub proof fn law_prompts_count_their_agents(panel_count: nat)
    ensures
        panel_count == 1 ==> resume_text(panel_count)
            == "This session has 1 agent panel that can reattach to its previous session."@,
        panel_count != 1 ==> resume_text(panel_count) == "This session has "@ + decimal(panel_count)
            + " agent panels that can reattach to their previous sessions."@,
{
}

/// A live session is taken over or copied, a recoverable one resumed, each only
/// where it is chosen; a new one can always be opened.
pub proof fn law_chosen_sessions_are_opened(
    reason: StartupPromptReason,
    selected: Option<Seq<char>>,
    clicks: ChooserClicks,
)
    ensures
        ({
            let action = chosen(reason, selected, clicks);
            let free = !clicks.open_new && selected is Some;
            &&& action is OpenNewSession <==> clicks.open_new
            &&& action is TakeOver <==> free && reason is LiveConflict && clicks.take_over
            &&& action is OpenCopy <==> free && reason is LiveConflict && clicks.open_copy
                && !clicks.take_over
            &&& action is Resume <==> free && reason is MultipleRecoverable && clicks.resume
            &&& action matches ActionView::TakeOver(id) ==> Some(id) == selected
            &&& action matches ActionView::OpenCopy(id) ==> Some(id) == selected
            &&& action matches ActionView::Resume(id) ==> Some(id) == selected
        }),
{
}

/// A size is kept within its bounds, and one that is there already is not
/// changed.
pub proof fn law_sizes_are_kept_within(n: u32, low: u32, high: u32)
    requires
        low <= high,
    ensures
        low <= kept_within(n, low, high) <= high,
        low <= n <= high ==> kept_within(n, low, high) == n,
        n < low ==> kept_within(n, low, high) == low,
        n > high ==> kept_within(n, low, high) == high,
{
}

/// A choice is seen as it is, with its session.
pub proof fn law_choices_are_seen_as_they_are(action: StartupChooserAction)
    ensures
        action is Idle ==> action@ is Idle,
        action is OpenNewSession ==> action@ is OpenNewSession,
        action matches StartupChooserAction::OpenCopy(id) ==> action@ == ActionView::OpenCopy(id@),
        action matches StartupChooserAction::TakeOver(id) ==> action@ == ActionView::TakeOver(id@),
        action matches StartupChooserAction::Resume(id) ==> action@ == ActionView::Resume(id@),
{
}

} // verus!
