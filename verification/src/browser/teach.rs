//! The recording of a routine and its review.
use vstd::prelude::*;

use crate::text::{concat2, concat3, concat4, join_text, joined, texts};

verus! {

/// How many of the latest actions the banner shows.
pub const SHOWN_PREVIEWS: usize = 4;

#[derive(Clone, Copy, Debug, PartialEq, Eq, Structural)]
pub enum TeachPhase {
    Recording,
    Paused,
    Stopped,
}

impl TeachPhase {
    /// A recording that stopped may have been paused before.
    pub fn of(paused: bool, stopped: bool) -> (phase: Self)
        ensures
            phase == if stopped {
                TeachPhase::Stopped
            } else if paused {
                TeachPhase::Paused
            } else {
                TeachPhase::Recording
            },
    {
        if stopped {
            TeachPhase::Stopped
        } else if paused {
            TeachPhase::Paused
        } else {
            TeachPhase::Recording
        }
    }

    pub fn status(self) -> (status: &'static str)
        ensures
            status@ == match self {
                TeachPhase::Stopped => "Teach stopped"@,
                TeachPhase::Paused => "Teach paused"@,
                TeachPhase::Recording => "Teaching"@,
            },
    {
        match self {
            TeachPhase::Stopped => "Teach stopped",
            TeachPhase::Paused => "Teach paused",
            TeachPhase::Recording => "Teaching",
        }
    }

    /// The button that holds the recording or goes on with it; a stopped one
    /// has none.
    pub fn pause_label(self) -> (label: Option<&'static str>)
        ensures
            label is None <==> self == TeachPhase::Stopped,
            label matches Some(l) ==> l@ == if self == TeachPhase::Paused {
                "Resume"@
            } else {
                "Pause"@
            },
    {
        match self {
            TeachPhase::Stopped => None,
            TeachPhase::Paused => Some("Resume"),
            TeachPhase::Recording => Some("Pause"),
        }
    }

    pub fn name_editable(self, interactive: bool) -> (yes: bool)
        ensures
            yes == (interactive && self != TeachPhase::Stopped),
    {
        interactive && self != TeachPhase::Stopped
    }
}

/// The clicks on the banner's buttons.
#[derive(Clone, Copy, Debug, PartialEq, Eq, Structural)]
pub struct TeachClicks {
    pub pause: bool,
    pub stop: bool,
    pub discard: bool,
}

#[derive(Clone, Copy, Debug, PartialEq, Eq, Structural)]
pub enum TeachCommand {
    Pause,
    Resume,
    Stop,
    Discard,
}

/// What the clicks ask for, in their order. A stopped recording can only be
/// discarded.
pub open spec fn teach_asks(phase: TeachPhase, clicks: TeachClicks) -> Seq<TeachCommand> {
    let pause = if clicks.pause && phase != TeachPhase::Stopped {
        seq![
            if phase == TeachPhase::Paused {
                TeachCommand::Resume
            } else {
                TeachCommand::Pause
            },
        ]
    } else {
        Seq::empty()
    };
    let stop = if clicks.stop && phase != TeachPhase::Stopped {
        seq![TeachCommand::Stop]
    } else {
        Seq::empty()
    };
    let discard = if clicks.discard {
        seq![TeachCommand::Discard]
    } else {
        Seq::empty()
    };
    pause + stop + discard
}

pub fn teach_commands(phase: TeachPhase, clicks: TeachClicks) -> (commands: Vec<TeachCommand>)
    ensures
        commands@ == teach_asks(phase, clicks),
{
    let mut commands: Vec<TeachCommand> = Vec::new();
    if phase != TeachPhase::Stopped {
        if clicks.pause {
            commands.push(
                if phase == TeachPhase::Paused {
                    TeachCommand::Resume
                } else {
                    TeachCommand::Pause
                },
            );
        }
        if clicks.stop {
            commands.push(TeachCommand::Stop);
        }
    }
    if clicks.discard {
        commands.push(TeachCommand::Discard);
    }
    assert(commands@ =~= teach_asks(phase, clicks));
    commands
}

pub open spec fn latest(previews: Seq<Seq<char>>) -> Seq<Seq<char>> {
    if previews.len() > SHOWN_PREVIEWS {
        previews.skip(previews.len() - SHOWN_PREVIEWS)
    } else {
        previews
    }
}

/// The latest actions in the order in which they came; none before the first.
pub fn preview_summary(previews: &Vec<String>) -> (summary: Option<String>)
    ensures
        match summary {
            Some(s) => previews@.len() > 0 && s@ == join_text(latest(texts(previews@)), " · "@),
            None => previews@.len() == 0,
        },
{
    let len: usize = previews.len();
    if len == 0 {
        return None;
    }
    let from: usize = if len > SHOWN_PREVIEWS {
        len - SHOWN_PREVIEWS
    } else {
        0
    };
    let mut shown: Vec<String> = Vec::new();
    let mut i: usize = from;
    while i < len
        invariant
            from <= i <= len,
            len == previews@.len(),
            texts(shown@) =~= texts(previews@).subrange(from as int, i as int),
        decreases len - i,
    {
        let ghost before = texts(shown@);
        shown.push(previews[i].clone());
        assert(texts(shown@) =~= before.push(texts(previews@)[i as int]));
        i = i + 1;
    }
    assert(texts(shown@) =~= latest(texts(previews@)));
    Some(joined(shown.as_slice(), " · "))
}

pub struct ReviewCandidate {
    pub label: String,
    pub unique: bool,
}

pub struct ReviewRow {
    pub action: String,
    pub target: String,
    pub mutation: String,
    pub resume: String,
    pub mcp: String,
    pub selected: Option<u32>,
    pub candidates: Vec<ReviewCandidate>,
}

impl ReviewRow {
    /// The step in one line.
    pub fn text(&self) -> (text: String)
        ensures
            text@ == (self.action@ + " "@ + self.target@ + " · "@) + (self.mutation@ + " · "@
                + self.resume@ + " · "@) + self.mcp@,
    {
        let first = concat4(self.action.as_str(), " ", self.target.as_str(), " · ");
        let second = concat4(self.mutation.as_str(), " · ", self.resume.as_str(), " · ");
        concat3(first.as_str(), second.as_str(), self.mcp.as_str())
    }

    pub open spec fn has_identity(self) -> bool {
        exists|i: int|
            0 <= i < self.candidates@.len() && (#[trigger] self.candidates@[i]).unique
    }

    /// A step is given an identity only where one of its candidates is unique.
    pub fn offers_identities(&self) -> (yes: bool)
        ensures
            yes == self.has_identity(),
    {
        let mut i: usize = 0;
        while i < self.candidates.len()
            invariant
                i <= self.candidates@.len(),
                forall|j: int| 0 <= j < i ==> !(#[trigger] self.candidates@[j]).unique,
            decreases self.candidates@.len() - i,
        {
            if self.candidates[i].unique {
                assert(self.candidates@[i as int].unique);
                return true;
            }
            i = i + 1;
        }
        false
    }

    /// What the picker shows as chosen.
    pub fn identity_label(&self) -> (label: String)
        ensures
            label@ == match self.selected {
                Some(index) => if index < self.candidates@.len() {
                    self.candidates@[index as int].label@
                } else {
                    "select identity"@
                },
                None => "select identity"@,
            },
    {
        match self.selected {
            Some(index) => {
                let at: usize = index as usize;
                if at < self.candidates.len() {
                    self.candidates[at].label.clone()
                } else {
                    "select identity".to_string()
                }
            },
            None => "select identity".to_string(),
        }
    }

    /// The candidate that a click on a row of the picker selects: only a unique
    /// one.
    pub fn clicked(&self, row: usize) -> (index: Option<u32>)
        ensures
            index == if row < self.candidates@.len() && self.candidates@[row as int].unique && row
                <= u32::MAX {
                Some(row as u32)
            } else {
                None
            },
    {
        if row < self.candidates.len() && self.candidates[row].unique && row <= 0xffff_ffff {
            Some(row as u32)
        } else {
            None
        }
    }
}

/// A routine is saved only once somebody looked at its identities.
pub fn can_save(interactive: bool, reviewed: bool) -> (yes: bool)
    ensures
        yes == (interactive && reviewed),
{
    interactive && reviewed
}

/// The page's title can be the outcome where it has one.
pub fn outcome_label(title: &str) -> (label: String)
    ensures
        label@ == "Outcome: "@ + title@,
{
    concat2("Outcome: ", title)
}

/// A recording is held and resumed, stopped and discarded, each by its own
/// button and in that order; once stopped, discarding is all that is left.
pub proof fn law_buttons_ask_for_what_they_say(phase: TeachPhase, clicks: TeachClicks)
    ensures
        ({
            let asks = teach_asks(phase, clicks);
            &&& asks.contains(TeachCommand::Discard) <==> clicks.discard
            &&& asks.contains(TeachCommand::Stop) <==> clicks.stop && !(phase is Stopped)
            &&& asks.contains(TeachCommand::Pause) <==> clicks.pause && phase is Recording
            &&& asks.contains(TeachCommand::Resume) <==> clicks.pause && phase is Paused
            &&& clicks.discard ==> asks.last() is Discard
            &&& clicks.pause && !(phase is Stopped) ==> asks[0] is Pause || asks[0] is Resume
            &&& asks.len() <= 3
        }),
{
    let asks = teach_asks(phase, clicks);
    let alive = !(phase is Stopped);
    let first = if clicks.pause && alive { 1int } else { 0int };
    let second = if clicks.stop && alive { 1int } else { 0int };
    if clicks.discard {
        assert(asks[first + second] is Discard);
        assert(asks.last() is Discard);
    }
    if clicks.stop && alive {
        assert(asks[first] is Stop);
    }
    if clicks.pause && alive {
        assert(phase is Paused ==> asks[0] is Resume);
        assert(phase is Recording ==> asks[0] is Pause);
    }
}

/// The banner shows the last four actions, or all where there are fewer.
pub proof fn law_the_latest_actions_are_shown(previews: Seq<Seq<char>>, k: int)
    requires
        0 <= k < latest(previews).len(),
    ensures
        previews.len() <= 4 ==> latest(previews) == previews,
        previews.len() > 4 ==> latest(previews).len() == 4 && latest(previews)[k]
            == previews[previews.len() - 4 + k],
{
}

/// A step can be given an identity where some candidate is unique, and only
/// there.
pub proof fn law_unique_candidates_identify(row: ReviewRow, k: int)
    requires
        0 <= k < row.candidates@.len(),
    ensures
        row.candidates@[k].unique ==> row.has_identity(),
        (forall|j: int| 0 <= j < row.candidates@.len() ==> !(#[trigger] row.candidates@[j]).unique)
            ==> !row.has_identity(),
{
}

} // verus!
