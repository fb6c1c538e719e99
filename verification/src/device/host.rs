//! Where the viewer stands on its host, for telling why it cannot be seen.
use vstd::prelude::*;

verus! {

#[derive(Clone, Copy, Debug, PartialEq, Eq, Structural)]
pub enum HostViewport {
    Root,
    Detached,
}

/// The camera over the canvas, in thousandths.
#[derive(Clone, Copy, Debug, PartialEq, Eq, Structural)]
pub struct HostCanvas {
    pub pan_x: i64,
    pub pan_y: i64,
    pub zoom: i64,
    pub left: i64,
    pub top: i64,
    pub right: i64,
    pub bottom: i64,
}

/// Why the host does not show the viewer.
#[derive(Clone, Copy, Debug, PartialEq, Eq, Structural)]
pub enum HostExclusion {
    OutsideCanvas,
    DetachedViewportNotRendered,
    Unclassified,
}

/// What one pass over the host found.
#[derive(Clone, Copy, Debug, PartialEq, Eq, Structural)]
pub struct HostPresentation {
    pub observed_at_millis: u64,
    pub viewport: HostViewport,
    pub exclusion: Option<HostExclusion>,
    /// The camera that the viewer was rendered with.
    pub canvas: Option<HostCanvas>,
    pub canvas_after_pass: Option<HostCanvas>,
    pub ui_pass: u64,
    pub discarded: bool,
    pub view_revision: u64,
    pub reveal_requests: u64,
    pub applied_reveal_request: u64,
    pub view_changed_since_reveal: Option<bool>,
}

#[derive(Clone, Copy, Debug)]
pub struct HostState {
    pub observed_this_frame: bool,
    pub observation: Option<HostPresentation>,
    pub last_view: Option<(HostViewport, HostCanvas)>,
    pub revealed_view: Option<(HostViewport, HostCanvas)>,
    pub revision: u64,
    pub requests: u64,
    pub applied_request: u64,
}

pub open spec fn next_count(n: u64) -> u64 {
    if n < u64::MAX {
        (n + 1) as u64
    } else {
        n
    }
}

pub open spec fn view_of(viewport: HostViewport, canvas: Option<HostCanvas>) -> Option<
    (HostViewport, HostCanvas),
> {
    match canvas {
        Some(c) => Some((viewport, c)),
        None => None,
    }
}

fn same_view(a: (HostViewport, HostCanvas), b: (HostViewport, HostCanvas)) -> (same: bool)
    ensures
        same == (a == b),
{
    a.0 == b.0 && a.1 == b.1
}

impl HostState {
    pub fn new() -> (state: Self)
        ensures
            state == (HostState {
                observed_this_frame: false,
                observation: None,
                last_view: None,
                revealed_view: None,
                revision: 0,
                requests: 0,
                applied_request: 0,
            }),
    {
        HostState {
            observed_this_frame: false,
            observation: None,
            last_view: None,
            revealed_view: None,
            revision: 0,
            requests: 0,
            applied_request: 0,
        }
    }

    pub fn begin_frame(&mut self)
        ensures
            *final(self) == (HostState { observed_this_frame: false, ..*old(self) }),
    {
        self.observed_this_frame = false;
    }

    pub fn observed_this_frame(&self) -> (yes: bool)
        ensures
            yes == self.observed_this_frame,
    {
        self.observed_this_frame
    }

    pub fn observation(&self) -> (observation: Option<HostPresentation>)
        ensures
            observation == self.observation,
    {
        self.observation
    }

    /// The viewer was asked to be revealed.
    pub fn requested(&mut self)
        ensures
            *final(self) == (HostState { requests: next_count(old(self).requests), ..*old(self) }),
    {
        self.requests = self.requests.saturating_add(1);
    }

    /// The host has moved its camera to the viewer. All requests so far are
    /// answered by that.
    pub fn applied(&mut self, viewport: HostViewport, canvas: HostCanvas)
        ensures
            *final(self) == (HostState {
                applied_request: old(self).requests,
                revealed_view: Some((viewport, canvas)),
                ..*old(self)
            }),
    {
        self.applied_request = self.requests;
        self.revealed_view = Some((viewport, canvas));
    }

    /// The state once the camera is known to be `view`: another view than the
    /// one before starts a new revision.
    pub open spec fn seen(self, view: Option<(HostViewport, HostCanvas)>) -> HostState {
        match view {
            None => self,
            Some(v) => HostState {
                revision: if self.last_view is Some && self.last_view != view {
                    next_count(self.revision)
                } else {
                    self.revision
                },
                last_view: view,
                ..self
            },
        }
    }

    /// Whether the camera has moved since the viewer was revealed; unknown
    /// before that, and while the camera is unknown.
    pub open spec fn moved_since_reveal(self, view: Option<(HostViewport, HostCanvas)>) -> Option<
        bool,
    > {
        if self.revealed_view is Some && view is Some {
            Some(self.revealed_view != view)
        } else {
            None
        }
    }

    fn see(&mut self, view: Option<(HostViewport, HostCanvas)>)
        ensures
            *final(self) == old(self).seen(view),
    {
        if let Some(v) = view {
            if let Some(previous) = self.last_view {
                if !same_view(previous, v) {
                    self.revision = self.revision.saturating_add(1);
                }
            }
            self.last_view = Some(v);
        }
    }

    fn moved(&self, view: Option<(HostViewport, HostCanvas)>) -> (moved: Option<bool>)
        ensures
            moved == self.moved_since_reveal(view),
    {
        match (self.revealed_view, view) {
            (Some(revealed), Some(current)) => Some(!same_view(revealed, current)),
            _ => None,
        }
    }

    /// Records how the host stood when the viewer was to be drawn.
    pub fn record(
        &mut self,
        viewport: HostViewport,
        canvas: Option<HostCanvas>,
        exclusion: Option<HostExclusion>,
        now_millis: u64,
    )
        ensures
            ({
                let view = view_of(viewport, canvas);
                let seen = old(self).seen(view);
                *final(self) == HostState {
                    observed_this_frame: true,
                    observation: Some(
                        HostPresentation {
                            observed_at_millis: now_millis,
                            viewport,
                            exclusion,
                            canvas,
                            canvas_after_pass: canvas,
                            ui_pass: 0,
                            discarded: false,
                            view_revision: seen.revision,
                            reveal_requests: seen.requests,
                            applied_reveal_request: seen.applied_request,
                            view_changed_since_reveal: seen.moved_since_reveal(view),
                        },
                    ),
                    ..seen
                }
            }),
    {
        let view = match canvas {
            Some(c) => Some((viewport, c)),
            None => None,
        };
        self.see(view);
        self.observation = Some(
            HostPresentation {
                observed_at_millis: now_millis,
                viewport,
                exclusion,
                canvas,
                canvas_after_pass: canvas,
                ui_pass: 0,
                discarded: false,
                view_revision: self.revision,
                reveal_requests: self.requests,
                applied_reveal_request: self.applied_request,
                view_changed_since_reveal: self.moved(view),
            },
        );
        self.observed_this_frame = true;
    }

    /// Completes the record once the pass is over: the camera may have moved
    /// during it. A viewer that was not rendered has some reason, known or not.
    pub fn finish(
        &mut self,
        canvas: Option<HostCanvas>,
        rendered: bool,
        ui_pass: u64,
        discarded: bool,
        now_millis: u64,
    )
        ensures
            match old(self).observation {
                None => *final(self) == *old(self),
                Some(before) => {
                    let view = view_of(before.viewport, canvas);
                    let seen = old(self).seen(view);
                    *final(self) == HostState {
                        observation: Some(
                            HostPresentation {
                                observed_at_millis: now_millis,
                                canvas_after_pass: canvas,
                                ui_pass,
                                discarded,
                                view_revision: seen.revision,
                                view_changed_since_reveal: seen.moved_since_reveal(view),
                                exclusion: if rendered {
                                    None
                                } else if before.exclusion is None {
                                    Some(HostExclusion::Unclassified)
                                } else {
                                    before.exclusion
                                },
                                ..before
                            },
                        ),
                        ..seen
                    }
                },
            },
    {
        let before = match self.observation {
            Some(observation) => observation,
            None => return ,
        };
        let view = match canvas {
            Some(c) => Some((before.viewport, c)),
            None => None,
        };
        self.see(view);
        let exclusion = if rendered {
            None
        } else {
            match before.exclusion {
                Some(reason) => Some(reason),
                None => Some(HostExclusion::Unclassified),
            }
        };
        self.observation = Some(
            HostPresentation {
                observed_at_millis: now_millis,
                viewport: before.viewport,
                exclusion,
                canvas: before.canvas,
                canvas_after_pass: canvas,
                ui_pass,
                discarded,
                view_revision: self.revision,
                reveal_requests: before.reveal_requests,
                applied_reveal_request: before.applied_reveal_request,
                view_changed_since_reveal: self.moved(view),
            },
        );
    }

    /// No more requests are ever claimed to be applied than were made.
    pub open spec fn valid(self) -> bool {
        self.applied_request <= self.requests
    }

    /// Asking and applying keep that, whatever their order.
    pub proof fn law_applied_requests_were_made(
        self,
        viewport: HostViewport,
        canvas: HostCanvas,
        view: Option<(HostViewport, HostCanvas)>,
    )
        requires
            self.valid(),
        ensures
            (HostState { requests: next_count(self.requests), ..self }).valid(),
            (HostState {
                applied_request: self.requests,
                revealed_view: Some((viewport, canvas)),
                ..self
            }).valid(),
            self.seen(view).valid(),
            self.seen(view).revision >= self.revision,
    {
    }
}

/// A camera that moved starts a new revision; the same one, the first and an
/// unknown one do not. What is known last is kept.
pub proof fn law_moves_are_counted(state: HostState, viewport: HostViewport, canvas: HostCanvas)
    ensures
        ({
            let after = state.seen(view_of(viewport, Some(canvas)));
            &&& after.last_view == Some((viewport, canvas))
            &&& state.last_view is None ==> after.revision == state.revision
            &&& state.last_view == Some((viewport, canvas)) ==> after.revision == state.revision
            &&& state.last_view is Some && state.last_view != Some((viewport, canvas))
                && state.revision < u64::MAX ==> after.revision == state.revision + 1
            &&& state.seen(view_of(viewport, None)) == state
        }),
{
}

/// Whether the camera moved since the viewer was revealed is known where both
/// places are.
pub proof fn law_moves_since_the_reveal_are_told(
    state: HostState,
    viewport: HostViewport,
    canvas: HostCanvas,
)
    ensures
        state.moved_since_reveal(None) is None,
        state.revealed_view is None ==> state.moved_since_reveal(Some((viewport, canvas))) is None,
        state.revealed_view == Some((viewport, canvas)) ==> state.moved_since_reveal(
            Some((viewport, canvas)),
        ) == Some(false),
        state.revealed_view is Some && state.revealed_view != Some((viewport, canvas))
            ==> state.moved_since_reveal(Some((viewport, canvas))) == Some(true),
{
}

/// Requests are counted one by one.
pub proof fn law_requests_are_counted(n: u64)
    ensures
        n < 0xffff_ffff_ffff_ffff ==> next_count(n) == n + 1,
        next_count(n) >= n && next_count(n) > 0,
{
}

} // verus!
