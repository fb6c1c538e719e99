//! Keeping the page's layout size that of the panel.
use vstd::prelude::*;

verus! {

/// How long a command may take before it is sent again.
pub const VIEWPORT_RETRY_INTERVAL_MS: u64 = 250;

pub const MAX_VIEWPORT_CONVERGENCE_RETRIES: u8 = 8;

/// A frame this close to the layout size, in page pixels, is a frame of it:
/// window decorations may keep the two apart for good.
pub const VIEWPORT_FRAME_TOLERANCE: u32 = 4;

/// A layout with a side up to this is one in passing, and is never sent.
pub const TRANSIENT_SIDE: u32 = 32;

/// A layout size in page pixels.
#[derive(Clone, Copy, Debug, PartialEq, Eq, Structural)]
pub struct Viewport {
    pub width: u32,
    pub height: u32,
}

/// The size of a frame in page pixels.
#[derive(Clone, Copy, Debug, PartialEq, Eq, Structural)]
pub struct FrameSize {
    pub width: u16,
    pub height: u16,
}

#[derive(Clone, Copy, Debug, PartialEq, Eq, Structural)]
pub enum PointerViewportState {
    AwaitingFrame,
    Ready,
}

pub open spec fn near(frame: u16, sent: u32) -> bool {
    frame - sent <= VIEWPORT_FRAME_TOLERANCE && sent - frame <= VIEWPORT_FRAME_TOLERANCE
}

/// The frame is one of the layout that is wanted and that was sent.
pub open spec fn matches_viewport(
    frame: Option<FrameSize>,
    desired: Option<Viewport>,
    sent: Viewport,
) -> bool {
    match (frame, desired) {
        (Some(frame), Some(desired)) => {
            &&& sent.width <= u16::MAX
            &&& sent.height <= u16::MAX
            &&& desired == sent
            &&& near(frame.width, sent.width)
            &&& near(frame.height, sent.height)
        },
        _ => false,
    }
}

fn is_near(frame: u16, sent: u32) -> (yes: bool)
    ensures
        yes == near(frame, sent),
{
    let f: u32 = frame as u32;
    if f >= sent {
        f - sent <= VIEWPORT_FRAME_TOLERANCE
    } else {
        sent - f <= VIEWPORT_FRAME_TOLERANCE
    }
}

pub fn frame_matches_viewport(
    frame: Option<FrameSize>,
    desired: Option<Viewport>,
    sent: Viewport,
) -> (yes: bool)
    ensures
        yes == matches_viewport(frame, desired, sent),
{
    match (frame, desired) {
        (Some(frame), Some(desired)) => sent.width <= 0xffff && sent.height <= 0xffff && desired
            == sent && is_near(frame.width, sent.width) && is_near(frame.height, sent.height),
        _ => false,
    }
}

/// A command is owed for a new size at once, and for a size that its frames do
/// not take, at a bounded rate and a bounded number of times.
pub open spec fn command_due(
    frame: Option<FrameSize>,
    desired: Viewport,
    sent: Viewport,
    now_ms: u64,
    retry_at_ms: u64,
    retry_count: u8,
) -> bool {
    desired != sent || (retry_count < MAX_VIEWPORT_CONVERGENCE_RETRIES && !matches_viewport(
        frame,
        Some(desired),
        sent,
    ) && now_ms >= retry_at_ms)
}

pub fn viewport_command_due(
    frame: Option<FrameSize>,
    desired: Viewport,
    sent: Viewport,
    now_ms: u64,
    retry_at_ms: u64,
    retry_count: u8,
) -> (yes: bool)
    ensures
        yes == command_due(frame, desired, sent, now_ms, retry_at_ms, retry_count),
{
    desired != sent || (retry_count < MAX_VIEWPORT_CONVERGENCE_RETRIES && !frame_matches_viewport(
        frame,
        Some(desired),
        sent,
    ) && now_ms >= retry_at_ms)
}

pub open spec fn pointer_ready(
    fixed_viewport: bool,
    frame: Option<FrameSize>,
    desired: Option<Viewport>,
    sent: Viewport,
) -> PointerViewportState {
    if (fixed_viewport && frame is Some) || (!fixed_viewport && matches_viewport(
        frame,
        desired,
        sent,
    )) {
        PointerViewportState::Ready
    } else {
        PointerViewportState::AwaitingFrame
    }
}

/// Whether the pointer may be mapped onto the frame. A layout that can change
/// must first show a frame of the size that was sent; a fixed one is ready with
/// its first frame.
pub fn pointer_viewport_state(
    fixed_viewport: bool,
    frame: Option<FrameSize>,
    desired: Option<Viewport>,
    sent: Viewport,
) -> (state: PointerViewportState)
    ensures
        state == pointer_ready(fixed_viewport, frame, desired, sent),
{
    let ready = if fixed_viewport {
        frame.is_some()
    } else {
        frame_matches_viewport(frame, desired, sent)
    };
    if ready {
        PointerViewportState::Ready
    } else {
        PointerViewportState::AwaitingFrame
    }
}

/// What was last sent, and how often again.
#[derive(Clone, Copy, Debug, PartialEq, Eq, Structural)]
pub struct ViewportSync {
    pub last_viewport: Viewport,
    pub retry_at_ms: u64,
    /// How often the command was repeated for this size. A frame that matches
    /// does not start the count again: a late frame of the old size could
    /// otherwise keep the two going for ever.
    pub retry_count: u8,
}

/// One frame's sizes.
#[derive(Clone, Copy, Debug, PartialEq, Eq, Structural)]
pub struct ViewportFrame {
    pub frame: Option<FrameSize>,
    /// The size that the body is laid out in, and the one it has without zoom.
    pub viewport: Option<Viewport>,
    pub host_viewport: Option<Viewport>,
    /// A size that the page was pinned to.
    pub explicit: Option<Viewport>,
    pub now_ms: u64,
    /// The backend takes a command.
    pub accepts: bool,
}

#[derive(Clone, Copy, Debug, PartialEq, Eq, Structural)]
pub struct ViewportOutcome {
    /// Every button that the page believes is down is let go first.
    pub cancels_pointer: bool,
    /// The size handed to the backend.
    pub send: Option<Viewport>,
    pub repaint_after_ms: Option<u64>,
}

pub open spec fn retry_time(now_ms: u64) -> u64 {
    if now_ms > u64::MAX - VIEWPORT_RETRY_INTERVAL_MS {
        u64::MAX
    } else {
        (now_ms + VIEWPORT_RETRY_INTERVAL_MS) as u64
    }
}

impl ViewportSync {
    /// A pinned page keeps its size: the panel's own is only remembered for
    /// when the pin is gone, and neither repeats nor interrupts a drag. Only a
    /// frame of another size does.
    pub open spec fn pinned(self, f: ViewportFrame, target: Viewport) -> (
        ViewportSync,
        ViewportOutcome,
    ) {
        let cancels = !matches_viewport(f.frame, Some(target), target);
        match f.viewport {
            None => (
                self,
                ViewportOutcome { cancels_pointer: cancels, send: None, repaint_after_ms: None },
            ),
            Some(laid_out) => {
                let host = match f.host_viewport {
                    Some(host) => host,
                    None => laid_out,
                };
                let sends = host != self.last_viewport;
                (
                    ViewportSync {
                        last_viewport: if sends && f.accepts {
                            host
                        } else {
                            self.last_viewport
                        },
                        retry_at_ms: self.retry_at_ms,
                        retry_count: 0,
                    },
                    ViewportOutcome {
                        cancels_pointer: cancels,
                        send: if sends {
                            Some(host)
                        } else {
                            None
                        },
                        repaint_after_ms: None,
                    },
                )
            },
        }
    }

    pub open spec fn following(self, f: ViewportFrame, viewport: Viewport) -> (
        ViewportSync,
        ViewportOutcome,
    ) {
        let waits = viewport == self.last_viewport && !matches_viewport(
            f.frame,
            Some(viewport),
            self.last_viewport,
        ) && self.retry_count < MAX_VIEWPORT_CONVERGENCE_RETRIES && f.now_ms < self.retry_at_ms;
        let repaint_after_ms = if waits {
            Some((self.retry_at_ms - f.now_ms) as u64)
        } else {
            None
        };
        let sends = viewport.width > TRANSIENT_SIDE && viewport.height > TRANSIENT_SIDE
            && command_due(
            f.frame,
            viewport,
            self.last_viewport,
            f.now_ms,
            self.retry_at_ms,
            self.retry_count,
        );
        (
            if sends && f.accepts {
                ViewportSync {
                    last_viewport: viewport,
                    retry_at_ms: retry_time(f.now_ms),
                    retry_count: if viewport == self.last_viewport {
                        (self.retry_count + 1) as u8
                    } else {
                        0
                    },
                }
            } else {
                self
            },
            ViewportOutcome {
                cancels_pointer: sends,
                send: if sends {
                    Some(viewport)
                } else {
                    None
                },
                repaint_after_ms,
            },
        )
    }

    pub open spec fn step(self, f: ViewportFrame) -> (ViewportSync, ViewportOutcome) {
        match f.explicit {
            Some(target) => self.pinned(f, target),
            None => match f.viewport {
                None => (
                    self,
                    ViewportOutcome { cancels_pointer: false, send: None, repaint_after_ms: None },
                ),
                Some(viewport) => self.following(f, viewport),
            },
        }
    }

    pub fn new() -> (sync: Self)
        ensures
            sync == (ViewportSync {
                last_viewport: Viewport { width: 0, height: 0 },
                retry_at_ms: 0,
                retry_count: 0,
            }),
    {
        ViewportSync {
            last_viewport: Viewport { width: 0, height: 0 },
            retry_at_ms: 0,
            retry_count: 0,
        }
    }

    /// Follows the panel's size with the page's layout, so that what the page
    /// lays out and where the pointer falls are what is on screen. An
    /// acknowledged command is no proof: only a frame of that size is.
    pub fn synchronize_viewport(&mut self, f: ViewportFrame) -> (outcome: ViewportOutcome)
        ensures
            (*final(self), outcome) == old(self).step(f),
    {
        match f.explicit {
            Some(target) => {
                let cancels_pointer = !frame_matches_viewport(f.frame, Some(target), target);
                match f.viewport {
                    None => ViewportOutcome { cancels_pointer, send: None, repaint_after_ms: None },
                    Some(laid_out) => {
                        let host = match f.host_viewport {
                            Some(host) => host,
                            None => laid_out,
                        };
                        let sends = host != self.last_viewport;
                        if sends && f.accepts {
                            self.last_viewport = host;
                        }
                        self.retry_count = 0;
                        ViewportOutcome {
                            cancels_pointer,
                            send: if sends {
                                Some(host)
                            } else {
                                None
                            },
                            repaint_after_ms: None,
                        }
                    },
                }
            },
            None => match f.viewport {
                None => ViewportOutcome {
                    cancels_pointer: false,
                    send: None,
                    repaint_after_ms: None,
                },
                Some(viewport) => self.follow(f, viewport),
            },
        }
    }

    fn follow(&mut self, f: ViewportFrame, viewport: Viewport) -> (outcome: ViewportOutcome)
        ensures
            (*final(self), outcome) == old(self).following(f, viewport),
    {
        let matches_now = frame_matches_viewport(f.frame, Some(viewport), self.last_viewport);
        let repaint_after_ms = if viewport == self.last_viewport && !matches_now && self.retry_count
            < MAX_VIEWPORT_CONVERGENCE_RETRIES && f.now_ms < self.retry_at_ms {
            Some(self.retry_at_ms - f.now_ms)
        } else {
            None
        };
        if viewport.width <= TRANSIENT_SIDE || viewport.height <= TRANSIENT_SIDE
            || !viewport_command_due(
            f.frame,
            viewport,
            self.last_viewport,
            f.now_ms,
            self.retry_at_ms,
            self.retry_count,
        ) {
            return ViewportOutcome { cancels_pointer: false, send: None, repaint_after_ms };
        }
        if f.accepts {
            if viewport == self.last_viewport {
                self.retry_count = self.retry_count + 1;
            } else {
                self.retry_count = 0;
            }
            self.last_viewport = viewport;
            self.retry_at_ms = if f.now_ms > u64::MAX - VIEWPORT_RETRY_INTERVAL_MS {
                u64::MAX
            } else {
                f.now_ms + VIEWPORT_RETRY_INTERVAL_MS
            };
        }
        ViewportOutcome { cancels_pointer: true, send: Some(viewport), repaint_after_ms }
    }

    /// How many commands the backend took over the frames.
    pub open spec fn taken(self, frames: Seq<ViewportFrame>) -> nat
        decreases frames.len(),
    {
        if frames.len() == 0 {
            0
        } else {
            let (after, outcome) = self.step(frames[0]);
            after.taken(frames.drop_first()) + if outcome.send is Some && frames[0].accepts {
                1nat
            } else {
                0nat
            }
        }
    }

    /// A panel that keeps its size sends it at most once, and again a bounded
    /// number of times, whatever frames come back.
    pub proof fn law_retries_are_bounded(self, frames: Seq<ViewportFrame>, viewport: Viewport)
        requires
            self.retry_count <= MAX_VIEWPORT_CONVERGENCE_RETRIES,
            forall|i: int|
                0 <= i < frames.len() ==> (#[trigger] frames[i]).explicit is None
                    && frames[i].viewport == Some(viewport),
        ensures
            self.taken(frames) <= if self.last_viewport == viewport {
                MAX_VIEWPORT_CONVERGENCE_RETRIES - self.retry_count
            } else {
                MAX_VIEWPORT_CONVERGENCE_RETRIES + 1
            },
        decreases frames.len(),
    {
        if frames.len() > 0 {
            let rest = frames.drop_first();
            assert forall|i: int| 0 <= i < rest.len() implies (#[trigger] rest[i]).explicit is None
                && rest[i].viewport == Some(viewport) by {
                assert(rest[i] == frames[i + 1]);
            }
            self.step(frames[0]).0.law_retries_are_bounded(rest, viewport);
        }
    }

    /// A frame of the size that was sent is left alone: nothing is sent, no drag
    /// is interrupted, and the pointer may use it.
    pub proof fn law_converged_frames_rest(self, f: ViewportFrame, viewport: Viewport)
        requires
            f.explicit is None,
            f.viewport == Some(viewport),
            matches_viewport(f.frame, Some(viewport), self.last_viewport),
        ensures
            self.step(f) == (
                self,
                ViewportOutcome { cancels_pointer: false, send: None, repaint_after_ms: None },
            ),
            pointer_ready(false, f.frame, f.viewport, self.last_viewport)
                == PointerViewportState::Ready,
    {
    }
}

/// A frame is one of the layout where that is wanted, was sent, can be one, and
/// no side is more than four pixels off.
pub proof fn law_frames_may_be_four_pixels_off(
    frame: FrameSize,
    desired: Viewport,
    sent: Viewport,
)
    ensures
        matches_viewport(Some(frame), Some(desired), sent) <==> desired == sent && sent.width
            <= 65_535 && sent.height <= 65_535 && frame.width <= sent.width + 4 && sent.width
            <= frame.width + 4 && frame.height <= sent.height + 4 && sent.height <= frame.height
            + 4,
        !matches_viewport(None, Some(desired), sent),
        !matches_viewport(Some(frame), None, sent),
{
}

/// A new size is sent at once. The same one is sent again up to eight times, a
/// quarter of a second apart, while its frames do not come.
pub proof fn law_commands_are_repeated_eight_times(
    frame: Option<FrameSize>,
    desired: Viewport,
    sent: Viewport,
    now_ms: u64,
    retry_at_ms: u64,
    retry_count: u8,
)
    ensures
        ({
            let due = command_due(frame, desired, sent, now_ms, retry_at_ms, retry_count);
            &&& desired != sent ==> due
            &&& desired == sent && retry_count >= 8 ==> !due
            &&& desired == sent && now_ms < retry_at_ms ==> !due
            &&& desired == sent && matches_viewport(frame, Some(desired), sent) ==> !due
            &&& desired == sent && retry_count < 8 && now_ms >= retry_at_ms && !matches_viewport(
                frame,
                Some(desired),
                sent,
            ) ==> due
            &&& now_ms <= 0xffff_ffff_ffff_ff00 ==> retry_time(now_ms) == now_ms + 250
            &&& retry_time(now_ms) >= now_ms
        }),
{
}

/// A page of fixed size takes the pointer with its first frame; one that follows
/// the panel only with a frame of its layout.
pub proof fn law_the_pointer_waits_for_its_frame(
    frame: Option<FrameSize>,
    desired: Option<Viewport>,
    sent: Viewport,
)
    ensures
        pointer_ready(true, frame, desired, sent) is Ready <==> frame is Some,
        pointer_ready(false, frame, desired, sent) is Ready <==> matches_viewport(
            frame,
            desired,
            sent,
        ),
{
}

/// A panel of a new size sends it, lets the buttons go first and counts its
/// repeats anew; a side of up to 32 pixels is one in passing and is not sent.
pub proof fn law_new_sizes_are_sent(sync: ViewportSync, f: ViewportFrame, viewport: Viewport)
    requires
        f.explicit is None,
        f.viewport == Some(viewport),
        viewport != sync.last_viewport,
    ensures
        ({
            let (after, outcome) = sync.step(f);
            let lasting = viewport.width > 32 && viewport.height > 32;
            &&& lasting ==> outcome.send == Some(viewport) && outcome.cancels_pointer
            &&& !lasting ==> outcome.send is None && !outcome.cancels_pointer && after == sync
            &&& lasting && f.accepts ==> after.last_viewport == viewport && after.retry_count == 0
                && after.retry_at_ms == retry_time(f.now_ms)
            &&& !f.accepts ==> after == sync
            &&& outcome.repaint_after_ms is None
        }),
{
}

/// A size whose frame has not come is looked at again when its time comes, and
/// each repeat that is taken counts.
pub proof fn law_missing_frames_are_waited_for(
    sync: ViewportSync,
    f: ViewportFrame,
    viewport: Viewport,
)
    requires
        f.explicit is None,
        f.viewport == Some(viewport),
        viewport == sync.last_viewport,
        viewport.width > 32 && viewport.height > 32,
        !matches_viewport(f.frame, Some(viewport), viewport),
        sync.retry_count < 8,
    ensures
        ({
            let (after, outcome) = sync.step(f);
            &&& f.now_ms < sync.retry_at_ms ==> outcome.send is None && outcome.repaint_after_ms
                == Some((sync.retry_at_ms - f.now_ms) as u64) && after == sync
            &&& f.now_ms >= sync.retry_at_ms ==> outcome.send == Some(viewport)
                && outcome.cancels_pointer && outcome.repaint_after_ms is None
            &&& f.now_ms >= sync.retry_at_ms && f.accepts ==> after.retry_count
                == sync.retry_count + 1
        }),
{
}

/// A pinned page is sent the panel's own size, for later, and lets the buttons go
/// just while its frame is not of the pinned size.
pub proof fn law_pinned_pages_remember_the_panel(
    sync: ViewportSync,
    f: ViewportFrame,
    target: Viewport,
)
    requires
        f.explicit == Some(target),
    ensures
        ({
            let (after, outcome) = sync.step(f);
            &&& outcome.cancels_pointer <==> !matches_viewport(f.frame, Some(target), target)
            &&& outcome.repaint_after_ms is None
            &&& f.viewport is None ==> outcome.send is None && after == sync
            &&& f.viewport is Some ==> after.retry_count == 0
            &&& f.viewport is Some && f.host_viewport is Some && f.host_viewport
                != Some(sync.last_viewport) ==> outcome.send == f.host_viewport
            &&& f.viewport is Some && f.host_viewport == Some(sync.last_viewport) ==> outcome.send
                is None && after.last_viewport == sync.last_viewport
            &&& f.viewport is Some && f.host_viewport is None && f.viewport != Some(
                sync.last_viewport,
            ) ==> outcome.send == f.viewport
            &&& outcome.send matches Some(host) ==> after.last_viewport == (if f.accepts {
                host
            } else {
                sync.last_viewport
            })
        }),
{
}

} // verus!
