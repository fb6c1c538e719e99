//! Going on with an agent's work after a restart.
use vstd::prelude::*;

use crate::geometry::{held, hold, ScreenRect};
use crate::text::{concat3, decimal, decimal_of};

verus! {

pub const MAX_DOWNTIME_HOURS: u64 = 168;

/// Lengths in thousandths of a point.
pub const BANNER_MARGIN: i32 = 8_000;

pub const BANNER_WIDTH: i64 = 620_000;

pub const BANNER_HEIGHT: i64 = 160_000;

#[derive(Clone, Copy, Debug, PartialEq, Eq, Structural)]
pub enum AskReason {
    UncleanShutdown,
    MissingEvidence,
    WaitingForUser,
    Downtime,
    RepositoryChanged,
    BatchLimit,
}

pub fn reason_text(reason: AskReason) -> (text: &'static str)
    ensures
        text@ == match reason {
            AskReason::UncleanShutdown => "The previous session did not close cleanly."@,
            AskReason::MissingEvidence =>
                "Automatic continuation is not verified for this session."@,
            AskReason::WaitingForUser => "A permission or question needs your review."@,
            AskReason::Downtime => "The session was away longer than allowed."@,
            AskReason::RepositoryChanged => "The working tree changed or could not be checked."@,
            AskReason::BatchLimit => "The automatic continuation limit was reached."@,
        },
{
    match reason {
        AskReason::UncleanShutdown => "The previous session did not close cleanly.",
        AskReason::MissingEvidence => "Automatic continuation is not verified for this session.",
        AskReason::WaitingForUser => "A permission or question needs your review.",
        AskReason::Downtime => "The session was away longer than allowed.",
        AskReason::RepositoryChanged => "The working tree changed or could not be checked.",
        AskReason::BatchLimit => "The automatic continuation limit was reached.",
    }
}

/// What a panel's menu knows of it.
#[derive(Clone, Copy, Debug, PartialEq, Eq, Structural)]
pub struct ResumePanel {
    /// The panel's agent can come back to a conversation.
    pub supports_binding: bool,
    pub kilo_code: bool,
    pub remote_workspace: bool,
    pub enabled: bool,
    pub max_downtime_seconds: u64,
    /// The agent stopped, and why somebody is asked before it goes on.
    pub pending: Option<AskReason>,
}

impl ResumePanel {
    /// Panels of agents on this machine have the controls.
    pub open spec fn shows_controls(self) -> bool {
        (self.supports_binding || self.kilo_code) && !self.remote_workspace
    }

    pub open spec fn asks(self) -> bool {
        self.enabled && self.pending is Some
    }

    pub fn has_controls(&self) -> (yes: bool)
        ensures
            yes == self.shows_controls(),
    {
        (self.supports_binding || self.kilo_code) && !self.remote_workspace
    }

    pub fn downtime_hours(&self) -> (hours: u64)
        ensures
            hours == self.max_downtime_seconds / 3600,
    {
        self.max_downtime_seconds / 3600
    }

    /// The hours that were entered, within a week.
    pub fn set_downtime_hours(&mut self, hours: u64)
        ensures
            *final(self) == (ResumePanel {
                max_downtime_seconds: ((if hours > MAX_DOWNTIME_HOURS {
                    MAX_DOWNTIME_HOURS
                } else {
                    hours
                }) * 3600) as u64,
                ..*old(self)
            }),
            hours <= 168 ==> final(self).max_downtime_seconds == hours * 3600,
            hours > 168 ==> final(self).max_downtime_seconds == 604_800,
    {
        let kept: u64 = if hours > MAX_DOWNTIME_HOURS {
            MAX_DOWNTIME_HOURS
        } else {
            hours
        };
        self.max_downtime_seconds = kept * 3600;
    }
}

/// How many panels ask.
pub open spec fn asking(panels: Seq<ResumePanel>) -> nat
    decreases panels.len(),
{
    if panels.len() == 0 {
        0
    } else {
        asking(panels.drop_last()) + if panels.last().asks() {
            1nat
        } else {
            0nat
        }
    }
}

/// The panels that the banner lists, in their order.
pub fn asking_panels(panels: &Vec<ResumePanel>) -> (rows: Vec<usize>)
    ensures
        rows@.len() == asking(panels@),
        forall|k: int|
            0 <= k < rows@.len() ==> (#[trigger] rows@[k]) < panels@.len()
                && panels@[rows@[k] as int].asks(),
        forall|j: int, k: int| 0 <= j < k < rows@.len() ==> rows@[j] < rows@[k],
        forall|i: int|
            0 <= i < panels@.len() && (#[trigger] panels@[i]).asks() ==> rows@.contains(i as usize),
{
    let mut rows: Vec<usize> = Vec::new();
    let mut i: usize = 0;
    assert(panels@.take(0) =~= Seq::<ResumePanel>::empty());
    while i < panels.len()
        invariant
            i <= panels@.len(),
            rows@.len() == asking(panels@.take(i as int)),
            forall|k: int|
                0 <= k < rows@.len() ==> (#[trigger] rows@[k]) < i && panels@[rows@[k] as int].asks(),
            forall|j: int, k: int| 0 <= j < k < rows@.len() ==> rows@[j] < rows@[k],
            forall|p: int|
                0 <= p < i && (#[trigger] panels@[p]).asks() ==> rows@.contains(p as usize),
        decreases panels@.len() - i,
    {
        assert(panels@.take(i + 1).drop_last() =~= panels@.take(i as int));
        let ghost before = rows@;
        if panels[i].enabled && panels[i].pending.is_some() {
            rows.push(i);
            assert(rows@[before.len() as int] == i);
            assert forall|p: int| 0 <= p < i && (#[trigger] panels@[p]).asks() implies rows@.contains(
                p as usize,
            ) by {
                let k = choose|k: int| 0 <= k < before.len() && before[k] == p as usize;
                assert(rows@[k] == p as usize);
            }
        }
        i = i + 1;
    }
    assert(panels@.take(i as int) =~= panels@);
    rows
}

pub fn banner_title(count: usize) -> (title: String)
    ensures
        title@ == "Review work before continuing ("@ + decimal(count as nat) + ")"@,
{
    let number = decimal_of(count as u64);
    concat3("Review work before continuing (", number.as_str(), ")")
}

pub open spec fn most(side: int, limit: int) -> int {
    if side < 0 {
        0
    } else if side > limit {
        limit
    } else {
        side
    }
}

/// The banner in the canvas's corner.
pub open spec fn banner_in(canvas: ScreenRect) -> ScreenRect {
    let left = canvas.min_x + BANNER_MARGIN;
    let top = canvas.min_y + BANNER_MARGIN;
    let room_x = canvas.max_x - canvas.min_x - 2 * BANNER_MARGIN;
    let room_y = canvas.max_y - canvas.min_y - 2 * BANNER_MARGIN;
    ScreenRect {
        min_x: held(left),
        min_y: held(top),
        max_x: held(left + most(room_x, BANNER_WIDTH as int)),
        max_y: held(top + most(room_y, BANNER_HEIGHT as int)),
    }
}

/// Where the banner is painted; none while the fixed widgets are hidden or
/// no panel asks.
pub fn banner_rect(canvas: ScreenRect, overlays_visible: bool, any_asks: bool) -> (rect: Option<
    ScreenRect,
>)
    ensures
        rect is Some <==> overlays_visible && any_asks,
        rect matches Some(r) ==> r == banner_in(canvas),
{
    if !overlays_visible || !any_asks {
        return None;
    }
    let left: i64 = canvas.min_x as i64 + BANNER_MARGIN as i64;
    let top: i64 = canvas.min_y as i64 + BANNER_MARGIN as i64;
    let width: i64 = limited(
        canvas.max_x as i64 - canvas.min_x as i64 - 2 * BANNER_MARGIN as i64,
        BANNER_WIDTH,
    );
    let height: i64 = limited(
        canvas.max_y as i64 - canvas.min_y as i64 - 2 * BANNER_MARGIN as i64,
        BANNER_HEIGHT,
    );
    Some(
        ScreenRect {
            min_x: hold(left as i128),
            min_y: hold(top as i128),
            max_x: hold((left + width) as i128),
            max_y: hold((top + height) as i128),
        },
    )
}

fn limited(side: i64, limit: i64) -> (s: i64)
    requires
        limit >= 0,
    ensures
        s == most(side as int, limit as int),
        0 <= s <= limit,
{
    if side < 0 {
        0
    } else if side > limit {
        limit
    } else {
        side
    }
}

/// What a request to go on was answered.
pub enum ResumeRequest {
    /// There is no such panel any more.
    Gone,
    Accepted,
    Refused(String),
}

/// What is then done.
pub enum ResumeStep {
    Nothing,
    Restart,
    /// The workspace that the panel is in calls for attention.
    Attention { workspace: u64, error: String },
}

/// An accepted request restarts the panel; a refused one is told to the panel's
/// workspace, where it still has one.
pub fn confirm_work_resume(request: ResumeRequest, workspace: Option<u64>) -> (step: ResumeStep)
    ensures
        match request {
            ResumeRequest::Gone => step is Nothing,
            ResumeRequest::Accepted => step is Restart,
            ResumeRequest::Refused(error) => match workspace {
                Some(id) => step matches ResumeStep::Attention { workspace: w, error: e } && w == id
                    && e@ == error@,
                None => step is Nothing,
            },
        },
{
    match request {
        ResumeRequest::Gone => ResumeStep::Nothing,
        ResumeRequest::Accepted => ResumeStep::Restart,
        ResumeRequest::Refused(error) => match workspace {
            Some(workspace) => ResumeStep::Attention { workspace, error },
            None => ResumeStep::Nothing,
        },
    }
}

/// Whether the button can be clicked, and what it says when the pointer rests on
/// it: why not, or what it does.
pub fn resume_button<'a>(refusal: Option<&'a str>) -> (button: (bool, &'a str))
    ensures
        button.0 == (refusal is None),
        button.1@ == match refusal {
            Some(error) => error@,
            None =>
                "Restart this conversation and continue the latest authorized request. Existing permission requirements still apply."@,
        },
{
    match refusal {
        Some(error) => (false, error),
        None => (
            true,
            "Restart this conversation and continue the latest authorized request. Existing permission requirements still apply.",
        ),
    }
}

/// Panels of agents that can come back have the controls, on this machine only;
/// a panel asks where it may go on and something holds it.
pub proof fn law_panels_on_this_machine_have_controls(panel: ResumePanel)
    ensures
        panel.shows_controls() <==> !panel.remote_workspace && (panel.supports_binding
            || panel.kilo_code),
        panel.asks() <==> panel.enabled && panel.pending is Some,
{
}

/// Every panel that asks is counted once.
pub proof fn law_asking_panels_are_counted(panels: Seq<ResumePanel>, panel: ResumePanel)
    ensures
        asking(Seq::empty()) == 0,
        panel.asks() ==> asking(panels.push(panel)) == asking(panels) + 1,
        !panel.asks() ==> asking(panels.push(panel)) == asking(panels),
{
    assert(panels.push(panel).drop_last() =~= panels);
}

/// The banner stands eight points from the canvas's corner, and is 620 by 160
/// points, or as much less as leaves eight points on the other sides.
pub proof fn law_banners_fit_their_canvas(canvas: ScreenRect)
    requires
        canvas.max_x - canvas.min_x >= 16_000,
        canvas.max_y - canvas.min_y >= 16_000,
    ensures
        ({
            let banner = banner_in(canvas);
            let room_x = canvas.max_x - canvas.min_x - 16_000;
            let room_y = canvas.max_y - canvas.min_y - 16_000;
            &&& banner.min_x == canvas.min_x + 8_000 && banner.min_y == canvas.min_y + 8_000
            &&& room_x >= 620_000 ==> banner.max_x - banner.min_x == 620_000
            &&& room_x < 620_000 ==> banner.max_x == canvas.max_x - 8_000
            &&& room_y >= 160_000 ==> banner.max_y - banner.min_y == 160_000
            &&& room_y < 160_000 ==> banner.max_y == canvas.max_y - 8_000
        }),
{
}

} // verus!
