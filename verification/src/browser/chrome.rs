//! The strip above a page: navigation, the address, whose turn it is.
use vstd::prelude::*;

use crate::text::{concat2, same_text, trim, trimmed};

verus! {

/// Lengths in thousandths of a point.
pub const URL_MIN_WIDTH: u32 = 120_000;

pub const CHIP_GAP: u32 = 8_000;

#[derive(Clone, Copy, Debug, PartialEq, Eq, Structural)]
pub enum BackendKind {
    ChromiumCdp,
    FirefoxBidi,
    SafariWebDriver,
}

#[derive(Clone, Copy, Debug, PartialEq, Eq, Structural)]
pub enum NavAction {
    Back,
    Forward,
    Reload,
}

impl NavAction {
    pub open spec fn name(self) -> Seq<char> {
        match self {
            NavAction::Back => "Back"@,
            NavAction::Forward => "Forward"@,
            NavAction::Reload => "Reload"@,
        }
    }

    pub fn label(self) -> (label: &'static str)
        ensures
            label@ == self.name(),
    {
        match self {
            NavAction::Back => "Back",
            NavAction::Forward => "Forward",
            NavAction::Reload => "Reload",
        }
    }

    pub fn glyph(self) -> (glyph: &'static str)
        ensures
            glyph@ == match self {
                NavAction::Back => "←"@,
                NavAction::Forward => "→"@,
                NavAction::Reload => "⟳"@,
            },
    {
        match self {
            NavAction::Back => "←",
            NavAction::Forward => "→",
            NavAction::Reload => "⟳",
        }
    }
}

/// What a control that shows only a glyph is called.
pub struct NavWidgetInfo {
    pub label: String,
    pub enabled: bool,
}

pub fn nav_widget_info(label: &str, enabled: bool) -> (info: NavWidgetInfo)
    ensures
        info.label@ == label@,
        info.enabled == enabled,
{
    NavWidgetInfo { label: label.to_string(), enabled }
}

pub fn nav_hover_text(label: &str) -> (text: String)
    ensures
        text@ == label@ + " (browser)"@,
{
    concat2(label, " (browser)")
}

/// What the backend picker shows as chosen. `safari_bidi` says that the backend
/// that runs is Safari with both of its protocols.
pub fn backend_text(name: &str, safari_bidi: bool) -> (text: String)
    ensures
        text@ == if safari_bidi {
            "Safari + BiDi"@
        } else {
            name@
        },
{
    if safari_bidi {
        "Safari + BiDi".to_string()
    } else {
        name.to_string()
    }
}

/// The backend to switch to, where another was chosen.
pub fn picked_backend(previous: BackendKind, selected: BackendKind) -> (switch: Option<BackendKind>)
    ensures
        switch == if selected == previous {
            None
        } else {
            Some(selected)
        },
{
    if selected == previous {
        None
    } else {
        Some(selected)
    }
}

#[derive(Clone, Copy, Debug, PartialEq, Eq, Structural)]
pub enum ChipTone {
    /// Somebody is waited for.
    Waiting,
    /// An agent is at work.
    Agent,
}

pub open spec fn chip_view(chip: Option<(String, ChipTone)>) -> Option<(Seq<char>, ChipTone)> {
    match chip {
        Some((label, tone)) => Some((label@, tone)),
        None => None,
    }
}

/// The chip beside the address: a pending handoff before the agent that owns
/// the page; none without either.
pub fn ownership_chip_label(handoff_pending: bool, owner: Option<&str>) -> (chip: Option<
    (String, ChipTone),
>)
    ensures
        chip_view(chip) == if handoff_pending {
            Some(("waiting"@, ChipTone::Waiting))
        } else {
            match owner {
                Some(owner) => Some(("agent: "@ + owner@, ChipTone::Agent)),
                None => None,
            }
        },
{
    if handoff_pending {
        Some(("waiting".to_string(), ChipTone::Waiting))
    } else {
        match owner {
            Some(owner) => Some((concat2("agent: ", owner), ChipTone::Agent)),
            None => None,
        }
    }
}

pub open spec fn without(a: u32, b: int) -> int {
    if a > b {
        a - b
    } else {
        0
    }
}

/// The widths of the chip and of the address. A chip gets what the address can
/// spare above its least; without a chip the address has no bound.
pub fn chrome_widths(available: u32, natural_chip: Option<u32>) -> (widths: (u32, Option<u32>))
    ensures
        match natural_chip {
            None => widths == (0u32, None::<u32>),
            Some(natural) => {
                let spare = without(available, URL_MIN_WIDTH + CHIP_GAP);
                &&& widths.0 == if natural < spare {
                    natural as int
                } else {
                    spare
                }
                &&& widths.1 is Some
                &&& widths.1->0 == ({
                    let rest = without(available, widths.0 + CHIP_GAP);
                    if rest > URL_MIN_WIDTH {
                        rest
                    } else {
                        URL_MIN_WIDTH as int
                    }
                })
            },
        },
        natural_chip matches Some(natural) ==> {
            &&& widths.1->0 >= 120_000
            &&& available <= 128_000 ==> widths.0 == 0
            &&& widths.0 <= natural
            &&& available >= 128_000 ==> widths.0 + 8_000 + widths.1->0 == available
            &&& natural + 128_000 <= available ==> widths.0 == natural
        },
{
    match natural_chip {
        None => (0, None),
        Some(natural) => {
            let kept: u32 = URL_MIN_WIDTH + CHIP_GAP;
            let spare: u32 = if available > kept {
                available - kept
            } else {
                0
            };
            let chip: u32 = if natural < spare {
                natural
            } else {
                spare
            };
            let taken: u64 = chip as u64 + CHIP_GAP as u64;
            let rest: u32 = if available as u64 > taken {
                (available as u64 - taken) as u32
            } else {
                0
            };
            let url: u32 = if rest > URL_MIN_WIDTH {
                rest
            } else {
                URL_MIN_WIDTH
            };
            (chip, Some(url))
        },
    }
}

/// The address follows the page while nobody edits it.
pub fn sync_url_buffer(buffer: &mut String, focused: bool, display_url: &str)
    ensures
        final(buffer)@ == if focused {
            old(buffer)@
        } else {
            display_url@
        },
{
    if !focused {
        *buffer = display_url.to_string();
    }
}

/// What the address bar was given this frame.
pub struct UrlSubmission {
    pub submitted: bool,
    /// Enter is still down; its release must not reach the page.
    pub enter_pending: bool,
    pub navigate: Option<String>,
}

/// Losing the focus together with Enter is a submission. It goes where the
/// address says, unless that is empty or where the page is going anyway.
pub fn url_submission(
    buffer: &str,
    lost_focus: bool,
    enter_pressed: bool,
    enter_released: bool,
    display_url: &str,
) -> (submission: UrlSubmission)
    ensures
        submission.submitted == (lost_focus && enter_pressed),
        submission.enter_pending == (submission.submitted && !enter_released),
        match submission.navigate {
            Some(url) => submission.submitted && trim(buffer@).len() > 0 && trim(buffer@)
                != display_url@ && url@ == trim(buffer@),
            None => !submission.submitted || trim(buffer@).len() == 0 || trim(buffer@)
                == display_url@,
        },
{
    if !(lost_focus && enter_pressed) {
        return UrlSubmission { submitted: false, enter_pending: false, navigate: None };
    }
    let url = trimmed(buffer);
    let empty = same_text(url.as_str(), "");
    proof {
        reveal_strlit("");
    }
    if empty || same_text(url.as_str(), display_url) {
        assert(empty ==> url@.len() == 0);
        UrlSubmission { submitted: true, enter_pending: !enter_released, navigate: None }
    } else {
        assert(url@.len() > 0) by {
            if url@.len() == 0 {
                assert(url@ =~= ""@);
            }
        }
        UrlSubmission { submitted: true, enter_pending: !enter_released, navigate: Some(url) }
    }
}

/// The button that hands the page back to the agent.
pub fn handoff_button(interactive: bool, resolution_pending: bool) -> (button: (bool, &'static str))
    ensures
        button.0 == (interactive && !resolution_pending),
        button.1@ == if resolution_pending {
            "Handing back…"@
        } else {
            "Done — hand back to agent"@
        },
{
    let label = if resolution_pending {
        "Handing back…"
    } else {
        "Done — hand back to agent"
    };
    (interactive && !resolution_pending, label)
}

pub fn handoff_banner_text(reason: &str) -> (text: String)
    ensures
        text@ == "🖐 Agent paused: "@ + reason@,
{
    concat2("🖐 Agent paused: ", reason)
}

pub fn handoff_error_text(error: &str) -> (text: String)
    ensures
        text@ == "Could not hand back: "@ + error@,
{
    concat2("Could not hand back: ", error)
}

/// A control is called by what it does.
pub proof fn law_controls_are_called_by_what_they_do(action: NavAction)
    ensures
        action is Back ==> action.name() == "Back"@,
        action is Forward ==> action.name() == "Forward"@,
        action is Reload ==> action.name() == "Reload"@,
{
}

/// A chip is seen by its words and its tone.
pub proof fn law_chips_are_seen_as_they_are(label: String, tone: ChipTone)
    ensures
        chip_view(Some((label, tone))) == Some((label@, tone)),
        chip_view(None) is None,
{
}

} // verus!
