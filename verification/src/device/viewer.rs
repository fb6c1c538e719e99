//! A viewer from frame to frame: what it has received, shows and reports.
use vstd::prelude::*;

use super::capture::Capture;
use super::host::HostPresentation;
use super::input::InputEvent;
use super::session::{opt_status, DeviceViewOptions, Status, StatusView, StreamEvidence, Updates};
use super::zoom::ImageZoom;
use crate::geometry::ScreenRect;
use crate::text::{copy_opt, opt_text};

verus! {

/// How far the image has come.
#[derive(Clone, Copy, Debug, PartialEq, Eq, Structural)]
pub struct ImageDisplay {
    pub sequence: u64,
    pub received_sequence: u64,
    pub displayed: bool,
    pub previous_displayed: bool,
    /// This connection has uploaded a frame. A retained picture is no evidence.
    pub received: bool,
    pub last_uploaded_ms: Option<u64>,
    pub last_displayed_ms: Option<u64>,
}

pub open spec fn no_image() -> ImageDisplay {
    ImageDisplay {
        sequence: 0,
        received_sequence: 0,
        displayed: false,
        previous_displayed: false,
        received: false,
        last_uploaded_ms: None,
        last_displayed_ms: None,
    }
}

pub struct Viewer {
    pub owner: Option<String>,
    pub image: ImageDisplay,
    pub initialized: bool,
    pub rendered: bool,
    pub previous_rendered: bool,
    pub connection_generation: u64,
    pub has_session: bool,
    /// The size of the last whole desktop that is kept.
    pub source: Option<(usize, usize)>,
    pub has_texture: bool,
    pub presented: Option<DeviceViewOptions>,
    pub status: Status,
    pub server_name: Option<String>,
    pub server_size: Option<(usize, usize)>,
    pub desktop: Option<(usize, usize)>,
    pub zoom: ImageZoom,
}

/// The viewer as a value.
pub struct ViewerView {
    pub owner: Option<Seq<char>>,
    pub image: ImageDisplay,
    pub initialized: bool,
    pub rendered: bool,
    pub previous_rendered: bool,
    pub connection_generation: u64,
    pub has_session: bool,
    pub source: Option<(usize, usize)>,
    pub has_texture: bool,
    pub presented: Option<DeviceViewOptions>,
    pub status: StatusView,
    pub server_name: Option<Seq<char>>,
    pub server_size: Option<(usize, usize)>,
    pub desktop: Option<(usize, usize)>,
    pub zoom: ImageZoom,
}

impl View for Viewer {
    type V = ViewerView;

    open spec fn view(&self) -> ViewerView {
        ViewerView {
            owner: opt_text(self.owner),
            image: self.image,
            initialized: self.initialized,
            rendered: self.rendered,
            previous_rendered: self.previous_rendered,
            connection_generation: self.connection_generation,
            has_session: self.has_session,
            source: self.source,
            has_texture: self.has_texture,
            presented: self.presented,
            status: self.status@,
            server_name: opt_text(self.server_name),
            server_size: self.server_size,
            desktop: self.desktop,
            zoom: self.zoom,
        }
    }
}

/// What to do with a picture from the worker.
#[derive(Clone, Copy, Debug, PartialEq, Eq, Structural)]
pub enum ImagePlan {
    /// Show it.
    Upload,
    /// It was made with options that no longer hold: make one anew of the
    /// desktop that was kept.
    Represent,
    /// It is stale and no desktop was kept.
    Drop,
}

pub open spec fn plan_for(
    produced_with: Option<DeviceViewOptions>,
    current: DeviceViewOptions,
    latest_full: Option<(usize, usize)>,
) -> ImagePlan {
    let fresh = match produced_with {
        Some(options) => options.presents_as(current),
        None => true,
    };
    if fresh {
        ImagePlan::Upload
    } else if latest_full is Some {
        ImagePlan::Represent
    } else {
        ImagePlan::Drop
    }
}

pub open spec fn next_count(n: u64) -> u64 {
    if n < u64::MAX {
        (n + 1) as u64
    } else {
        n
    }
}

/// A picture of this size can be a texture.
pub open spec fn uploadable(size: (usize, usize), limit: usize) -> bool {
    0 < size.0 <= limit && 0 < size.1 <= limit
}

pub open spec fn too_large_text() -> Seq<char> {
    "Desktop exceeds the renderer's texture limit"@
}

impl ViewerView {
    /// The outcome of handing a picture of `size` to the renderer. One that is
    /// too large ends the session; a desktop that was kept stays.
    pub open spec fn uploaded(
        self,
        size: (usize, usize),
        limit: usize,
        latest_full: Option<(usize, usize)>,
    ) -> ViewerView {
        if uploadable(size, limit) {
            ViewerView { has_texture: true, zoom: self.zoom.showing(size), ..self }
        } else {
            ViewerView {
                source: if latest_full is Some {
                    latest_full
                } else {
                    self.source
                },
                has_session: false,
                has_texture: false,
                status: StatusView::Disconnected(too_large_text()),
                ..self
            }
        }
    }

    /// After the image was drawn. Only what a live connection has delivered
    /// counts as displayed.
    pub open spec fn drawn(self, image_visible: bool, now_ms: u64) -> ViewerView {
        let displayed = image_visible && self.image.received && self.status
            == StatusView::Connected;
        ViewerView {
            image: ImageDisplay {
                displayed,
                last_displayed_ms: if displayed {
                    Some(now_ms)
                } else {
                    self.image.last_displayed_ms
                },
                ..self.image
            },
            ..self
        }
    }

    /// After a new connection was started, or failed to.
    pub open spec fn reconnected(
        self,
        latest_full: Option<(usize, usize)>,
        failed: Option<Seq<char>>,
    ) -> ViewerView {
        ViewerView {
            initialized: true,
            connection_generation: next_count(self.connection_generation),
            image: no_image(),
            server_name: None,
            server_size: None,
            source: if latest_full is Some {
                latest_full
            } else {
                self.source
            },
            has_session: failed is None,
            status: match failed {
                None => StatusView::Connecting,
                Some(error) => StatusView::Disconnected(error),
            },
            ..self
        }
    }

    pub open spec fn frame_received(self, now_ms: u64) -> ViewerView {
        ViewerView {
            image: ImageDisplay {
                received: true,
                sequence: next_count(self.image.sequence),
                last_uploaded_ms: Some(now_ms),
                ..self.image
            },
            ..self
        }
    }
}

/// Whether any of an image can be seen: what the clip leaves of it has an area,
/// and the panel is being painted at all.
pub fn visible_image(image: ScreenRect, clip: ScreenRect, painting: bool) -> (visible: bool)
    ensures
        visible == (painting && image.overlap(clip).solid()),
{
    painting && image.min_x < image.max_x && image.min_x < clip.max_x && clip.min_x < image.max_x
        && clip.min_x < clip.max_x && image.min_y < image.max_y && image.min_y < clip.max_y
        && clip.min_y < image.max_y && clip.min_y < clip.max_y
}

impl Viewer {
    pub fn new() -> (viewer: Self)
        ensures
            viewer@ == (ViewerView {
                owner: None,
                image: no_image(),
                initialized: false,
                rendered: false,
                previous_rendered: false,
                connection_generation: 0,
                has_session: false,
                source: None,
                has_texture: false,
                presented: None,
                status: StatusView::Stopped,
                server_name: None,
                server_size: None,
                desktop: None,
                zoom: ImageZoom::start(),
            }),
    {
        Viewer {
            owner: None,
            image: ImageDisplay {
                sequence: 0,
                received_sequence: 0,
                displayed: false,
                previous_displayed: false,
                received: false,
                last_uploaded_ms: None,
                last_displayed_ms: None,
            },
            initialized: false,
            rendered: false,
            previous_rendered: false,
            connection_generation: 0,
            has_session: false,
            source: None,
            has_texture: false,
            presented: None,
            status: Status::Stopped,
            server_name: None,
            server_size: None,
            desktop: None,
            zoom: ImageZoom::new(),
        }
    }

    pub fn was_rendered(&self) -> (yes: bool)
        ensures
            yes == self.rendered,
    {
        self.rendered
    }

    pub fn begin_frame(&mut self)
        ensures
            final(self)@ == (ViewerView {
                previous_rendered: old(self).rendered,
                rendered: false,
                image: ImageDisplay {
                    previous_displayed: old(self).image.displayed,
                    displayed: false,
                    ..old(self).image
                },
                ..old(self)@
            }),
    {
        self.image.previous_displayed = self.image.displayed;
        self.previous_rendered = self.rendered;
        self.image.displayed = false;
        self.rendered = false;
    }

    /// Ends a frame. A viewer that was not drawn cannot see a release, so it lets
    /// go of everything at once; the worker learns whether anyone looks.
    pub fn finish_frame<T>(&self, capture: &mut Capture, session: &mut Option<Updates<T>>) -> (events:
        Vec<InputEvent>)
        requires
            old(capture).valid(),
        ensures
            final(capture).valid(),
            (final(capture)@, events@) == if self.rendered {
                (old(capture)@, Seq::empty())
            } else {
                old(capture)@.released()
            },
            *final(session) == (match *old(session) {
                Some(updates) => Some(Updates { visible: self.rendered, ..updates }),
                None => None,
            }),
    {
        if let Some(updates) = session {
            updates.set_visible(self.rendered);
        }
        if self.rendered {
            Vec::new()
        } else {
            capture.release_input()
        }
    }

    /// The viewer is drawn; the result tells whether to connect, which it does
    /// by itself at most once.
    pub fn begin_show(&mut self, connect_on_start: bool) -> (connect: bool)
        ensures
            final(self)@ == (ViewerView { rendered: true, initialized: true, ..old(self)@ }),
            connect == (!old(self).initialized && connect_on_start),
    {
        self.rendered = true;
        let first = !self.initialized;
        self.initialized = true;
        first && connect_on_start
    }

    /// Takes over what the worker published, but for its picture. `full` is the
    /// size of the desktop that is kept, once the connection is over.
    pub fn take_incoming<T>(&mut self, updates: &mut Updates<T>, full: Option<(usize, usize)>)
        ensures
            ({
                let over = match old(updates).status {
                    Some(status) => status is Disconnected || status is Stopped,
                    None => false,
                };
                final(self)@ == ViewerView {
                    image: ImageDisplay {
                        received_sequence: old(updates).received_frame_sequence,
                        ..old(self).image
                    },
                    desktop: if over && full is Some {
                        full
                    } else if old(updates).desktop is Some {
                        old(updates).desktop
                    } else {
                        old(self).desktop
                    },
                    server_size: if old(updates).desktop is Some {
                        old(updates).desktop
                    } else {
                        old(self).server_size
                    },
                    server_name: if old(updates).server_name is Some {
                        opt_text(old(updates).server_name)
                    } else {
                        opt_text(old(self).server_name)
                    },
                    status: match old(updates).status {
                        Some(status) => status@,
                        None => old(self).status@,
                    },
                    source: if over && full is Some {
                        full
                    } else {
                        old(self).source
                    },
                    presented: if over && full is Some {
                        None
                    } else {
                        old(self).presented
                    },
                    ..old(self)@
                }
            }),
            *final(updates) == (Updates { server_name: None, status: None, ..*old(updates) }),
    {
        self.image.received_sequence = updates.received_frame_sequence;
        if updates.desktop.is_some() {
            self.desktop = updates.desktop;
            self.server_size = updates.desktop;
        }
        if let Some(name) = updates.server_name.take() {
            self.server_name = Some(name);
        }
        let mut over = false;
        if let Some(status) = updates.status.take() {
            over = status.is_over();
            self.status = status;
        }
        if over && full.is_some() {
            self.desktop = full;
            self.source = full;
            self.presented = None;
        }
    }

    /// Where the desktop's size is unknown, the one that was kept tells it.
    pub fn settle_desktop(&mut self)
        ensures
            final(self)@ == (ViewerView {
                desktop: if old(self).desktop is Some {
                    old(self).desktop
                } else {
                    old(self).source
                },
                ..old(self)@
            }),
    {
        if self.desktop.is_none() {
            self.desktop = self.source;
        }
    }

    /// What to do with a picture that the worker made with `produced_with`,
    /// while `current` holds.
    pub fn plan_image(
        &self,
        produced_with: Option<DeviceViewOptions>,
        current: DeviceViewOptions,
        latest_full: Option<(usize, usize)>,
    ) -> (plan: ImagePlan)
        ensures
            plan == plan_for(produced_with, current, latest_full),
    {
        let fresh = match produced_with {
            Some(options) => options.same_presentation(current),
            None => true,
        };
        if fresh {
            ImagePlan::Upload
        } else if latest_full.is_some() {
            ImagePlan::Represent
        } else {
            ImagePlan::Drop
        }
    }

    /// Hands a picture of `size` to the renderer; the result tells whether it
    /// takes it. A zoom gesture lets go of a picture whose size changes.
    pub fn upload_displayed(
        &mut self,
        size: (usize, usize),
        limit: usize,
        latest_full: Option<(usize, usize)>,
    ) -> (taken: bool)
        ensures
            taken == uploadable(size, limit),
            final(self)@ == old(self)@.uploaded(size, limit, latest_full),
    {
        if size.0 == 0 || size.0 > limit || size.1 == 0 || size.1 > limit {
            if latest_full.is_some() {
                self.source = latest_full;
            }
            self.has_session = false;
            self.has_texture = false;
            self.status = Status::Disconnected(
                "Desktop exceeds the renderer's texture limit".to_owned(),
            );
            false
        } else {
            self.has_texture = true;
            self.zoom.show_picture(size);
            true
        }
    }

    /// A picture from the worker. `made` is the size of the picture to show, its
    /// own or that of one made anew as `plan` says; it is missing where none
    /// could be made. Only a picture that the renderer takes counts as received;
    /// the worker's own was made with `produced_with`, another with `current`.
    pub fn apply_worker_image(
        &mut self,
        plan: ImagePlan,
        made: Option<(usize, usize)>,
        limit: usize,
        produced_with: Option<DeviceViewOptions>,
        current: DeviceViewOptions,
        latest_full: Option<(usize, usize)>,
        now_ms: u64,
    )
        requires
            plan == ImagePlan::Represent ==> latest_full is Some,
            plan == ImagePlan::Upload ==> made is Some,
        ensures
            ({
                let kept = ViewerView {
                    presented: Some(
                        if plan == ImagePlan::Upload && produced_with is Some {
                            produced_with->0
                        } else {
                            current
                        },
                    ),
                    desktop: if plan == ImagePlan::Represent {
                        latest_full
                    } else {
                        old(self).desktop
                    },
                    source: if plan == ImagePlan::Represent {
                        latest_full
                    } else {
                        old(self).source
                    },
                    ..old(self)@
                };
                final(self)@ == if plan == ImagePlan::Drop {
                    old(self)@
                } else {
                    match made {
                        None => kept,
                        Some(size) => if uploadable(size, limit) {
                            kept.uploaded(size, limit, latest_full).frame_received(now_ms)
                        } else {
                            kept.uploaded(size, limit, latest_full)
                        },
                    }
                }
            }),
    {
        let options = match plan {
            ImagePlan::Drop => {
                return ;
            },
            ImagePlan::Represent => {
                self.desktop = latest_full;
                self.source = latest_full;
                current
            },
            ImagePlan::Upload => match produced_with {
                Some(options) => options,
                None => current,
            },
        };
        self.presented = Some(options);
        if let Some(size) = made {
            if self.upload_displayed(size, limit, latest_full) {
                self.record_received_frame(now_ms);
            }
        }
    }

    pub fn record_received_frame(&mut self, now_ms: u64)
        ensures
            final(self)@ == old(self)@.frame_received(now_ms),
    {
        self.image.received = true;
        self.image.sequence = self.image.sequence.saturating_add(1);
        self.image.last_uploaded_ms = Some(now_ms);
    }

    /// The options changed from `previous` to `current`; the result tells
    /// whether the picture has to be made anew, and then a zoom gesture lets go
    /// of it. A new frame rate alone is no reason.
    pub fn apply_view_options(
        &mut self,
        previous: DeviceViewOptions,
        current: DeviceViewOptions,
        latest_full: Option<(usize, usize)>,
    ) -> (anew: bool)
        ensures
            anew == !previous.presents_as(current),
            final(self)@ == (if anew {
                ViewerView {
                    source: if latest_full is Some {
                        latest_full
                    } else {
                        old(self).source
                    },
                    presented: None,
                    zoom: old(self).zoom.let_go(),
                    ..old(self)@
                }
            } else {
                old(self)@
            }),
    {
        if previous.same_presentation(current) {
            return false;
        }
        if latest_full.is_some() {
            self.source = latest_full;
        }
        self.presented = None;
        self.zoom.release();
        true
    }

    /// Whether the kept desktop has to be presented with `options`.
    pub fn needs_presentation(&self, options: DeviceViewOptions) -> (yes: bool)
        ensures
            yes == (self.source is Some && !(self.presented matches Some(p) && p.presents_as(
                options,
            ))),
    {
        self.source.is_some() && match self.presented {
            Some(presented) => !presented.same_presentation(options),
            None => true,
        }
    }

    /// The kept desktop was presented with `options`, or could not be; a local
    /// presentation is no new frame.
    pub fn refresh_presentation(
        &mut self,
        options: DeviceViewOptions,
        made: Option<(usize, usize)>,
        limit: usize,
        latest_full: Option<(usize, usize)>,
    ) -> (shown: bool)
        ensures
            shown == (made matches Some(size) && uploadable(size, limit)),
            final(self)@ == (match made {
                Some(size) => ViewerView { presented: Some(options), ..old(self)@ }.uploaded(
                    size,
                    limit,
                    latest_full,
                ),
                None => ViewerView { presented: Some(options), ..old(self)@ },
            }),
    {
        self.presented = Some(options);
        match made {
            Some(size) => self.upload_displayed(size, limit, latest_full),
            None => false,
        }
    }

    /// The image was drawn, and `image_visible` says whether any of it can be
    /// seen.
    pub fn image_drawn(&mut self, image_visible: bool, now_ms: u64)
        ensures
            final(self)@ == old(self)@.drawn(image_visible, now_ms),
    {
        self.image.displayed = image_visible && self.image.received && self.status.is_connected();
        if self.image.displayed {
            self.image.last_displayed_ms = Some(now_ms);
        }
    }

    /// Drops the connection and what it has shown, keeps the picture, and starts
    /// anew; `started` says how that went.
    pub fn reconnect(&mut self, latest_full: Option<(usize, usize)>, started: Result<(), String>)
        ensures
            final(self)@ == old(self)@.reconnected(
                latest_full,
                match started {
                    Ok(_) => None,
                    Err(error) => Some(error@),
                },
            ),
    {
        self.initialized = true;
        self.connection_generation = self.connection_generation.saturating_add(1);
        self.image =
        ImageDisplay {
            sequence: 0,
            received_sequence: 0,
            displayed: false,
            previous_displayed: false,
            received: false,
            last_uploaded_ms: None,
            last_displayed_ms: None,
        };
        self.server_name = None;
        self.server_size = None;
        if latest_full.is_some() {
            self.source = latest_full;
        }
        match started {
            Ok(_) => {
                self.has_session = true;
                self.status = Status::Connecting;
            },
            Err(error) => {
                self.has_session = false;
                self.status = Status::Disconnected(error);
            },
        }
    }
}

/// After a reconnect a picture that is still there is no evidence of the new
/// connection: however it is drawn, whatever the connection comes to, nothing
/// counts as received or displayed before a frame is.
pub proof fn law_retained_pictures_are_no_evidence(
    before: ViewerView,
    latest_full: Option<(usize, usize)>,
    failed: Option<Seq<char>>,
    status: StatusView,
    image_visible: bool,
    now_ms: u64,
)
    ensures
        ({
            let live = ViewerView { status, ..before.reconnected(latest_full, failed) };
            let drawn = live.drawn(image_visible, now_ms);
            &&& !drawn.image.received
            &&& !drawn.image.displayed
            &&& drawn.image.sequence == 0
            &&& drawn.has_texture == before.has_texture
        }),
{
}

#[derive(Clone, Copy, Debug, PartialEq, Eq, Structural)]
pub enum Connection {
    Stopped,
    Connecting,
    Connected,
    Disconnected,
}

/// What a person can see of the desktop.
#[derive(Clone, Copy, Debug, PartialEq, Eq, Structural)]
pub enum Presentation {
    Stopped,
    Connecting,
    Disconnected,
    Hidden,
    NotRendered,
    AwaitingFrame,
    Displayed,
    Clipped,
}

pub open spec fn connection_of(status: StatusView) -> Connection {
    match status {
        StatusView::Stopped => Connection::Stopped,
        StatusView::Connecting => Connection::Connecting,
        StatusView::Connected => Connection::Connected,
        StatusView::Disconnected(_) => Connection::Disconnected,
    }
}

pub open spec fn error_of(status: StatusView) -> Option<Seq<char>> {
    match status {
        StatusView::Disconnected(error) => Some(error),
        _ => None,
    }
}

/// What a report says of the panel.
pub struct PanelReport {
    pub connection: Connection,
    pub connection_error: Option<String>,
    pub visible: bool,
    pub owned_by_caller: bool,
    pub image_received: bool,
    pub image_displayed: bool,
    pub frame_sequence: u64,
    pub received_frame_sequence: u64,
    pub server_name: Option<String>,
    pub server_size: Option<(usize, usize)>,
    pub observed_at_millis: u64,
    pub connection_generation: u64,
    pub presentation: Presentation,
    pub sampling_paused: bool,
    pub decoded_frame_sequence: u64,
    pub last_decoded_age_millis: Option<u64>,
    pub last_uploaded_age_millis: Option<u64>,
    pub last_displayed_age_millis: Option<u64>,
    pub host: Option<HostPresentation>,
}

/// How long ago `at_ms` was.
pub open spec fn age_of(at_ms: Option<u64>, now_ms: u64) -> Option<u64> {
    match at_ms {
        Some(at) => Some(
            if now_ms >= at {
                (now_ms - at) as u64
            } else {
                0
            },
        ),
        None => None,
    }
}

pub fn age(at_ms: Option<u64>, now_ms: u64) -> (millis: Option<u64>)
    ensures
        millis == age_of(at_ms, now_ms),
{
    match at_ms {
        Some(at) => Some(now_ms.saturating_sub(at)),
        None => None,
    }
}

impl ViewerView {
    /// What the session has found out in the meantime.
    pub open spec fn refreshed(
        self,
        status: Option<StatusView>,
        received: u64,
        name: Option<Seq<char>>,
        size: Option<(usize, usize)>,
    ) -> ViewerView {
        ViewerView {
            image: ImageDisplay { received_sequence: received, ..self.image },
            status: match status {
                Some(s) => s,
                None => self.status,
            },
            server_name: if name is Some {
                name
            } else {
                self.server_name
            },
            server_size: if size is Some {
                size
            } else {
                self.server_size
            },
            ..self
        }
    }

    /// The image was shown in the frame before, live and visible.
    pub open spec fn image_shown(self, visible: bool) -> bool {
        visible && self.image.received && self.image.previous_displayed && self.status
            == StatusView::Connected
    }

    pub open spec fn presentation(self, visible: bool) -> Presentation {
        match connection_of(self.status) {
            Connection::Stopped => Presentation::Stopped,
            Connection::Connecting => Presentation::Connecting,
            Connection::Disconnected => Presentation::Disconnected,
            Connection::Connected => if !visible {
                Presentation::Hidden
            } else if !self.previous_rendered {
                Presentation::NotRendered
            } else if !self.image.received {
                Presentation::AwaitingFrame
            } else if self.image_shown(visible) {
                Presentation::Displayed
            } else {
                Presentation::Clipped
            },
        }
    }
}

impl Viewer {
    /// Takes over what the session has found out since it was last asked.
    pub fn refresh<T>(&mut self, session: &mut Updates<T>)
        ensures
            final(self)@ == old(self)@.refreshed(
                opt_status(old(session).status),
                old(session).received_frame_sequence,
                opt_text(old(session).server_name),
                old(session).desktop,
            ),
            *final(session) == (Updates { server_name: None, status: None, ..*old(session) }),
    {
        let (status, received) = session.observation();
        self.image.received_sequence = received;
        if let Some(status) = status {
            self.status = status;
        }
        let (name, size) = session.take_server_details();
        if let Some(name) = name {
            self.server_name = Some(name);
        }
        if size.is_some() {
            self.server_size = size;
        }
    }

    /// Reports transport and presentation separately: a still picture is no
    /// failed stream. Without a session nothing is sampled.
    pub fn observation(
        &self,
        stream: Option<(StreamEvidence, bool)>,
        host: Option<HostPresentation>,
        visible: bool,
        actor: &str,
        now_ms: u64,
        now_millis: u64,
    ) -> (report: PanelReport)
        ensures
            report.connection == connection_of(self.status@),
            opt_text(report.connection_error) == error_of(self.status@),
            report.visible == visible,
            report.owned_by_caller == (opt_text(self.owner) == Some(actor@)),
            report.image_received == self.image.received,
            report.image_displayed == self@.image_shown(visible),
            report.frame_sequence == self.image.sequence,
            report.received_frame_sequence == self.image.received_sequence,
            opt_text(report.server_name) == opt_text(self.server_name),
            report.server_size == self.server_size,
            report.observed_at_millis == now_millis,
            report.connection_generation == self.connection_generation,
            report.presentation == self@.presentation(visible),
            report.sampling_paused == (match stream {
                Some((_, paused)) => paused,
                None => true,
            }),
            report.decoded_frame_sequence == (match stream {
                Some((evidence, _)) => evidence.sequence,
                None => 0,
            }),
            report.last_decoded_age_millis == (match stream {
                Some((evidence, _)) => age_of(evidence.last_frame_ms, now_ms),
                None => None,
            }),
            report.last_uploaded_age_millis == age_of(self.image.last_uploaded_ms, now_ms),
            report.last_displayed_age_millis == age_of(self.image.last_displayed_ms, now_ms),
            report.host == host,
    {
        let (connection, connection_error) = match &self.status {
            Status::Stopped => (Connection::Stopped, None),
            Status::Connecting => (Connection::Connecting, None),
            Status::Connected => (Connection::Connected, None),
            Status::Disconnected(error) => (Connection::Disconnected, Some(error.clone())),
        };
        let displayed = visible && self.image.received && self.image.previous_displayed
            && self.status.is_connected();
        let presentation = match connection {
            Connection::Stopped => Presentation::Stopped,
            Connection::Connecting => Presentation::Connecting,
            Connection::Disconnected => Presentation::Disconnected,
            Connection::Connected => if !visible {
                Presentation::Hidden
            } else if !self.previous_rendered {
                Presentation::NotRendered
            } else if !self.image.received {
                Presentation::AwaitingFrame
            } else if displayed {
                Presentation::Displayed
            } else {
                Presentation::Clipped
            },
        };
        let owned = match &self.owner {
            Some(owner) => crate::text::same_text(owner.as_str(), actor),
            None => false,
        };
        let (evidence, paused) = match stream {
            Some(found) => found,
            None => (StreamEvidence { sequence: 0, last_frame_ms: None }, true),
        };
        PanelReport {
            connection,
            connection_error,
            visible,
            owned_by_caller: owned,
            image_received: self.image.received,
            image_displayed: displayed,
            frame_sequence: self.image.sequence,
            received_frame_sequence: self.image.received_sequence,
            server_name: copy_opt(&self.server_name),
            server_size: self.server_size,
            observed_at_millis: now_millis,
            connection_generation: self.connection_generation,
            presentation,
            sampling_paused: paused,
            decoded_frame_sequence: evidence.sequence,
            last_decoded_age_millis: age(evidence.last_frame_ms, now_ms),
            last_uploaded_age_millis: age(self.image.last_uploaded_ms, now_ms),
            last_displayed_age_millis: age(self.image.last_displayed_ms, now_ms),
            host,
        }
    }
}

/// A report never claims an image to be displayed that was not received, is not
/// visible, or belongs to a connection that is not live; and it says
/// `Displayed` only where it claims that.
pub proof fn law_displayed_needs_a_live_visible_frame(view: ViewerView, visible: bool)
    ensures
        view.image_shown(visible) ==> visible && view.image.received && view.status
            == StatusView::Connected,
        view.presentation(visible) == Presentation::Displayed ==> view.image_shown(visible),
        !view.image.received ==> view.presentation(visible) != Presentation::Displayed
            && view.presentation(visible) != Presentation::Clipped,
{
}

/// A picture is shown where it was made with the limits and the crop that hold
/// now, or where nobody says what it was made with; a stale one is made anew of
/// the desktop that was kept, and dropped where none was.
pub proof fn law_stale_pictures_are_not_shown(
    produced: DeviceViewOptions,
    current: DeviceViewOptions,
    latest_full: Option<(usize, usize)>,
)
    ensures
        plan_for(None, current, latest_full) is Upload,
        ({
            let same = produced.max_width == current.max_width && produced.max_height
                == current.max_height && produced.viewport == current.viewport;
            let plan = plan_for(Some(produced), current, latest_full);
            &&& same ==> plan is Upload
            &&& !same && latest_full is Some ==> plan is Represent
            &&& !same && latest_full is None ==> plan is Drop
        }),
{
}

/// A picture becomes a texture where both its sides have an extent and fit. One
/// that does not ends the session and says why; the desktop that was kept stays.
pub proof fn law_pictures_too_large_end_the_session(
    view: ViewerView,
    size: (usize, usize),
    limit: usize,
    latest_full: Option<(usize, usize)>,
)
    ensures
        ({
            let after = view.uploaded(size, limit, latest_full);
            let fits = size.0 > 0 && size.1 > 0 && size.0 <= limit && size.1 <= limit;
            &&& uploadable(size, limit) <==> fits
            &&& fits ==> after.has_texture && after.has_session == view.has_session && after.status
                == view.status && after.source == view.source
            &&& !fits ==> !after.has_texture && !after.has_session && after.status
                == StatusView::Disconnected("Desktop exceeds the renderer's texture limit"@)
            &&& !fits && latest_full is Some ==> after.source == latest_full
            &&& !fits && latest_full is None ==> after.source == view.source
            &&& after.image == view.image && after.desktop == view.desktop
        }),
{
}

/// A frame that arrives counts as received, one by one, at its time.
pub proof fn law_frames_are_counted_as_they_arrive(view: ViewerView, now_ms: u64)
    ensures
        ({
            let after = view.frame_received(now_ms);
            &&& after.image.received
            &&& after.image.last_uploaded_ms == Some(now_ms)
            &&& view.image.sequence < u64::MAX ==> after.image.sequence == view.image.sequence + 1
            &&& after.image.displayed == view.image.displayed
            &&& after.status == view.status && after.has_texture == view.has_texture
        }),
{
}

/// An image counts as displayed just where any of it can be seen, a frame of
/// this connection has been received and the connection is live.
pub proof fn law_drawn_images_are_displayed(view: ViewerView, visible: bool, now_ms: u64)
    ensures
        ({
            let after = view.drawn(visible, now_ms);
            &&& after.image.displayed <==> visible && view.image.received && view.status
                == StatusView::Connected
            &&& after.image.displayed ==> after.image.last_displayed_ms == Some(now_ms)
            &&& !after.image.displayed ==> after.image.last_displayed_ms
                == view.image.last_displayed_ms
            &&& after.image.sequence == view.image.sequence && after.image.received
                == view.image.received
        }),
{
}

/// A new connection starts with nothing received and nothing known of the
/// server, under a new number; where it could not be started it says why.
pub proof fn law_reconnecting_starts_anew(
    view: ViewerView,
    latest_full: Option<(usize, usize)>,
    failed: Option<Seq<char>>,
)
    ensures
        ({
            let after = view.reconnected(latest_full, failed);
            &&& after.image.sequence == 0 && !after.image.received && !after.image.displayed
                && after.image.last_uploaded_ms is None && after.image.last_displayed_ms is None
                && after.image.received_sequence == 0
            &&& after.server_name is None && after.server_size is None
            &&& after.initialized
            &&& view.connection_generation < u64::MAX ==> after.connection_generation
                == view.connection_generation + 1
            &&& failed is None ==> after.has_session && after.status == StatusView::Connecting
            &&& failed matches Some(error) ==> !after.has_session && after.status
                == StatusView::Disconnected(error)
            &&& latest_full is Some ==> after.source == latest_full
            &&& latest_full is None ==> after.source == view.source
            &&& after.has_texture == view.has_texture && after.owner == view.owner
        }),
{
}

/// A report tells the connection from what is seen of it: stopped, connecting
/// and disconnected as they are, and of a live one the first thing that stands
/// between a person and the image.
pub proof fn law_reports_say_what_a_person_sees(view: ViewerView, visible: bool)
    ensures
        ({
            let seen = view.presentation(visible);
            &&& view.status is Stopped ==> connection_of(view.status) is Stopped && seen is Stopped
            &&& view.status is Connecting ==> connection_of(view.status) is Connecting && seen
                is Connecting
            &&& view.status is Disconnected ==> connection_of(view.status) is Disconnected && seen
                is Disconnected
            &&& view.status is Connected ==> {
                &&& connection_of(view.status) is Connected
                &&& !visible ==> seen is Hidden
                &&& visible && !view.previous_rendered ==> seen is NotRendered
                &&& visible && view.previous_rendered && !view.image.received ==> seen
                    is AwaitingFrame
                &&& visible && view.previous_rendered && view.image.received
                    && view.image.previous_displayed ==> seen is Displayed
                &&& visible && view.previous_rendered && view.image.received
                    && !view.image.previous_displayed ==> seen is Clipped
            }
            &&& view.image_shown(visible) <==> visible && view.image.received
                && view.image.previous_displayed && view.status is Connected
            &&& view.status matches StatusView::Disconnected(error) ==> error_of(view.status)
                == Some(error)
            &&& !(view.status is Disconnected) ==> error_of(view.status) is None
        }),
{
}

/// An age is the time since, and none where the clock went back.
pub proof fn law_ages_are_the_time_since(at_ms: u64, now_ms: u64)
    ensures
        age_of(None, now_ms) is None,
        now_ms >= at_ms ==> age_of(Some(at_ms), now_ms) == Some((now_ms - at_ms) as u64),
        now_ms < at_ms ==> age_of(Some(at_ms), now_ms) == Some(0u64),
{
}

/// What a session has found out is taken over, and what it did not say is kept.
pub proof fn law_sessions_update_what_they_say(
    view: ViewerView,
    status: Option<StatusView>,
    received: u64,
    name: Option<Seq<char>>,
    size: Option<(usize, usize)>,
)
    ensures
        ({
            let after = view.refreshed(status, received, name, size);
            &&& after.image.received_sequence == received
            &&& status matches Some(new) ==> after.status == new
            &&& status is None ==> after.status == view.status
            &&& name is Some ==> after.server_name == name
            &&& name is None ==> after.server_name == view.server_name
            &&& size is Some ==> after.server_size == size
            &&& size is None ==> after.server_size == view.server_size
            &&& after.image.received == view.image.received && after.desktop == view.desktop
        }),
{
}

/// What is said of a viewer is said of what it holds.
pub proof fn law_viewer_is_seen_as_it_is(value: Viewer)
    ensures
        value@.owner == opt_text(value.owner),
        value@.image == value.image,
        value@.initialized == value.initialized,
        value@.rendered == value.rendered,
        value@.previous_rendered == value.previous_rendered,
        value@.connection_generation == value.connection_generation,
        value@.has_session == value.has_session,
        value@.source == value.source,
        value@.has_texture == value.has_texture,
        value@.presented == value.presented,
        value@.status == value.status@,
        value@.server_name == opt_text(value.server_name),
        value@.server_size == value.server_size,
        value@.desktop == value.desktop,
        value@.zoom == value.zoom,
{
}

} // verus!
