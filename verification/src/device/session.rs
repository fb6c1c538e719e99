//! A connection to the desktop: what it samples, publishes and asks for.
use vstd::prelude::*;

use super::frame::{FrameEvent, Framebuffer, ViewError};
use super::input::DesktopCrop;

verus! {

pub const DIRECT_CONNECT_TIMEOUT_MS: u64 = 5_000;

/// Key exchange over a mesh network plus the handshake behind it.
pub const TUNNEL_CONNECT_TIMEOUT_MS: u64 = 30_000;

/// A refresh that is not taken this long fails the connection.
pub const REFRESH_TIMEOUT_MS: u64 = 5_000;

/// One pass over the queue takes at most this many events.
pub const MAX_DRAINED_EVENTS: u32 = 4096;

/// One pass over the queue takes at most this long.
pub const MAX_DRAIN_MS: u64 = 10;

/// What part of the desktop is shown.
#[derive(Clone, Copy, Debug, PartialEq, Eq, Structural)]
pub struct DeviceViewport {
    pub x: usize,
    pub y: usize,
    pub width: usize,
    pub height: usize,
}

#[derive(Clone, Copy, Debug, PartialEq, Eq, Structural)]
pub struct DeviceViewOptions {
    pub max_fps: u32,
    pub max_width: u32,
    pub max_height: u32,
    pub viewport: Option<DeviceViewport>,
}

impl DeviceViewOptions {
    /// The pictures that both make of a desktop are the same: only the frame
    /// rate may differ.
    pub open spec fn presents_as(self, other: Self) -> bool {
        self.max_width == other.max_width && self.max_height == other.max_height && self.viewport
            == other.viewport
    }

    pub fn same_presentation(self, other: Self) -> (same: bool)
        ensures
            same == self.presents_as(other),
    {
        self.max_width == other.max_width && self.max_height == other.max_height && same_viewport(
            self.viewport,
            other.viewport,
        )
    }

    /// The part of a desktop that the options show: their crop, or all of it.
    pub fn crop(self, desktop: (usize, usize)) -> (crop: DesktopCrop)
        ensures
            crop == match self.viewport {
                Some(v) => DesktopCrop { x: v.x, y: v.y, width: v.width, height: v.height },
                None => DesktopCrop { x: 0, y: 0, width: desktop.0, height: desktop.1 },
            },
    {
        match self.viewport {
            Some(v) => DesktopCrop { x: v.x, y: v.y, width: v.width, height: v.height },
            None => DesktopCrop { x: 0, y: 0, width: desktop.0, height: desktop.1 },
        }
    }
}

pub fn same_viewport(a: Option<DeviceViewport>, b: Option<DeviceViewport>) -> (same: bool)
    ensures
        same == (a == b),
{
    match (a, b) {
        (Some(x), Some(y)) => x == y,
        (None, None) => true,
        _ => false,
    }
}

pub enum Status {
    Stopped,
    Connecting,
    Connected,
    Disconnected(String),
}

/// What a status is.
pub enum StatusView {
    Stopped,
    Connecting,
    Connected,
    Disconnected(Seq<char>),
}

impl View for Status {
    type V = StatusView;

    open spec fn view(&self) -> StatusView {
        match self {
            Status::Stopped => StatusView::Stopped,
            Status::Connecting => StatusView::Connecting,
            Status::Connected => StatusView::Connected,
            Status::Disconnected(error) => StatusView::Disconnected(error@),
        }
    }
}

pub open spec fn opt_status(status: Option<Status>) -> Option<StatusView> {
    match status {
        Some(s) => Some(s@),
        None => None,
    }
}

impl Status {
    /// The status that a worker leaves: stopped where it was told to.
    pub fn ended(result: Result<(), ViewError>) -> (status: Status)
        ensures
            match result {
                Ok(_) => status@ == StatusView::Stopped,
                Err(error) => status@ == StatusView::Disconnected(error.text()),
            },
    {
        match result {
            Ok(_) => Status::Stopped,
            Err(error) => Status::Disconnected(error.message()),
        }
    }

    pub fn is_connected(&self) -> (yes: bool)
        ensures
            yes == (*self is Connected),
    {
        match self {
            Status::Connected => true,
            _ => false,
        }
    }

    /// The connection is over.
    pub fn is_over(&self) -> (yes: bool)
        ensures
            yes == (*self is Disconnected || *self is Stopped),
    {
        match self {
            Status::Disconnected(_) | Status::Stopped => true,
            Status::Connecting | Status::Connected => false,
        }
    }
}

/// How far decoding has come.
#[derive(Clone, Copy, Debug, PartialEq, Eq, Structural)]
pub struct StreamEvidence {
    pub sequence: u64,
    pub last_frame_ms: Option<u64>,
}

/// What the worker has published and the viewer not taken yet. `image` is the
/// newest picture; an older one that was not taken is gone.
pub struct Updates<T> {
    pub stream: StreamEvidence,
    pub image: Option<T>,
    pub produced_with: Option<DeviceViewOptions>,
    pub status: Option<Status>,
    pub received_frame_sequence: u64,
    pub viewport: u64,
    pub visible: bool,
    pub options: DeviceViewOptions,
    pub desktop: Option<(usize, usize)>,
    pub server_name: Option<String>,
}

pub open spec fn counted(n: u64) -> u64 {
    if n < u64::MAX {
        (n + 1) as u64
    } else {
        n
    }
}

impl<T> Updates<T> {
    pub fn start(viewport: u64, options: DeviceViewOptions) -> (updates: Self)
        ensures
            updates.stream == (StreamEvidence { sequence: 0, last_frame_ms: None }),
            updates.image is None,
            updates.produced_with is None,
            opt_status(updates.status) == Some(StatusView::Connecting),
            updates.received_frame_sequence == 0,
            updates.viewport == viewport,
            updates.visible,
            updates.options == options,
            updates.desktop is None,
            updates.server_name is None,
    {
        Updates {
            stream: StreamEvidence { sequence: 0, last_frame_ms: None },
            image: None,
            produced_with: None,
            status: Some(Status::Connecting),
            received_frame_sequence: 0,
            viewport,
            visible: true,
            options,
            desktop: None,
            server_name: None,
        }
    }

    /// Everything but what the viewer takes away stays.
    pub open spec fn keeps(self, other: Self) -> bool {
        &&& self.stream == other.stream
        &&& self.produced_with == other.produced_with
        &&& self.received_frame_sequence == other.received_frame_sequence
        &&& self.visible == other.visible
        &&& self.options == other.options
        &&& self.desktop == other.desktop
    }

    /// Hands over what is new. Picture, status and name come once; the counts
    /// and the desktop's size stay.
    pub fn take_updates(&mut self, viewport: u64) -> (taken: Updates<T>)
        ensures
            taken.keeps(*old(self)),
            taken.image == old(self).image,
            taken.status == old(self).status,
            taken.server_name == old(self).server_name,
            taken.viewport == viewport,
            final(self).keeps(*old(self)),
            final(self).viewport == viewport,
            final(self).image is None,
            final(self).status is None,
            final(self).server_name is None,
    {
        self.viewport = viewport;
        Updates {
            stream: self.stream,
            image: self.image.take(),
            produced_with: self.produced_with,
            status: self.status.take(),
            received_frame_sequence: self.received_frame_sequence,
            viewport,
            visible: self.visible,
            options: self.options,
            desktop: self.desktop,
            server_name: self.server_name.take(),
        }
    }

    /// The server's name, once, and the desktop's size.
    pub fn take_server_details(&mut self) -> (details: (Option<String>, Option<(usize, usize)>))
        ensures
            details.0 == old(self).server_name,
            details.1 == old(self).desktop,
            final(self).server_name is None,
            final(self).keeps(*old(self)),
            final(self).image == old(self).image,
            final(self).status == old(self).status,
            final(self).viewport == old(self).viewport,
    {
        (self.server_name.take(), self.desktop)
    }

    /// A new status, once, and the number of pictures so far; the picture is
    /// left to be shown.
    pub fn observation(&mut self) -> (seen: (Option<Status>, u64))
        ensures
            seen.0 == old(self).status,
            seen.1 == old(self).received_frame_sequence,
            final(self).status is None,
            final(self).keeps(*old(self)),
            final(self).image == old(self).image,
            final(self).server_name == old(self).server_name,
            final(self).viewport == old(self).viewport,
    {
        (self.status.take(), self.received_frame_sequence)
    }

    /// How far decoding has come, and whether sampling is paused: it is while
    /// nobody sees the view.
    pub fn stream_evidence(&self) -> (evidence: (StreamEvidence, bool))
        ensures
            evidence == (self.stream, !self.visible),
    {
        (self.stream, !self.visible)
    }

    pub fn set_visible(&mut self, visible: bool)
        ensures
            *final(self) == (Updates { visible, ..*old(self) }),
    {
        self.visible = visible;
    }

    pub fn set_options(&mut self, options: DeviceViewOptions)
        ensures
            *final(self) == (Updates { options, ..*old(self) }),
    {
        self.options = options;
    }

    /// Publishes a status; the result is the viewport to repaint.
    pub fn publish_status(&mut self, status: Status) -> (repaint: Option<u64>)
        ensures
            *final(self) == (Updates { status: Some(status), ..*old(self) }),
            repaint == (if old(self).visible {
                Some(old(self).viewport)
            } else {
                None
            }),
    {
        self.status = Some(status);
        if self.visible {
            Some(self.viewport)
        } else {
            None
        }
    }

    /// Publishes what the handshake told: the server's label and the desktop's
    /// size, which is unknown while a side is zero.
    pub fn publish_handshake(&mut self, name: Option<String>, size: (usize, usize))
        ensures
            *final(self) == (Updates {
                server_name: name,
                desktop: if size.0 == 0 || size.1 == 0 {
                    None
                } else {
                    Some(size)
                },
                ..*old(self)
            }),
    {
        self.server_name = name;
        self.desktop = if size.0 == 0 || size.1 == 0 {
            None
        } else {
            Some(size)
        };
    }

    /// Publishes a new size of the desktop.
    pub fn publish_size(&mut self, size: (usize, usize))
        ensures
            *final(self) == (Updates { desktop: Some(size), ..*old(self) }),
    {
        self.desktop = Some(size);
    }

    /// Publishes a picture made with `options` of a desktop of `size`; the
    /// result is the viewport to repaint. A picture that was not taken is
    /// replaced, so that slow rendering grows no queue.
    pub fn publish_frame(
        &mut self,
        image: T,
        options: DeviceViewOptions,
        size: (usize, usize),
        now_ms: u64,
    ) -> (repaint: Option<u64>)
        ensures
            *final(self) == (Updates {
                image: Some(image),
                stream: StreamEvidence {
                    sequence: counted(old(self).stream.sequence),
                    last_frame_ms: Some(now_ms),
                },
                produced_with: Some(options),
                desktop: Some(size),
                received_frame_sequence: counted(old(self).received_frame_sequence),
                ..*old(self)
            }),
            repaint == (if old(self).visible {
                Some(old(self).viewport)
            } else {
                None
            }),
    {
        self.image = Some(image);
        self.stream.sequence = self.stream.sequence.saturating_add(1);
        self.stream.last_frame_ms = Some(now_ms);
        self.produced_with = Some(options);
        self.desktop = Some(size);
        self.received_frame_sequence = self.received_frame_sequence.saturating_add(1);
        if self.visible {
            Some(self.viewport)
        } else {
            None
        }
    }
}

/// An update request to the server.
#[derive(Clone, Copy, Debug, PartialEq, Eq, Structural)]
pub enum RefreshRequest {
    /// Only what changed.
    Incremental,
    /// Every pixel.
    Full,
}

/// What a pass begins with.
#[derive(Clone, Copy, Debug, PartialEq, Eq, Structural)]
pub enum PassStart {
    /// Nobody sees the view: leave the queue alone and ask for nothing.
    Paused,
    Drain,
}

/// What to do with an empty queue.
#[derive(Clone, Copy, Debug, PartialEq, Eq, Structural)]
pub enum QueueEmpty {
    /// Let the decoder refill its queue, then look once more.
    Yield,
    /// It stayed empty: the pass is over.
    Done,
}

/// What a pass ends with.
#[derive(Clone, Copy, Debug, PartialEq, Eq, Structural)]
pub struct PassEnd {
    /// There is a new picture to make and publish.
    pub publish: bool,
    pub request: RefreshRequest,
}

/// The worker's side of a view.
pub struct ViewerStream {
    pub framebuffer: Framebuffer,
    /// The server has painted since the desktop got its size.
    pub received_pixels: bool,
    pub full_refresh: bool,
    pub changed: bool,
    pub idle: bool,
    pub drained: u32,
    pub paused: bool,
}

/// The event gives the desktop its size anew.
pub open spec fn resets(event: FrameEvent) -> bool {
    event is SetResolution
}

impl ViewerStream {
    pub open spec fn valid(self) -> bool {
        self.framebuffer.valid()
    }

    pub open spec fn same_pass(self, other: Self) -> bool {
        self.full_refresh == other.full_refresh && self.changed == other.changed && self.idle
            == other.idle && self.drained == other.drained && self.paused == other.paused
    }

    pub fn new() -> (stream: Self)
        ensures
            stream.valid(),
            stream.framebuffer.width == 0,
            stream.framebuffer.height == 0,
            !stream.received_pixels,
            !stream.full_refresh,
            !stream.changed,
            !stream.idle,
            stream.drained == 0,
            !stream.paused,
    {
        ViewerStream {
            framebuffer: Framebuffer::new(),
            received_pixels: false,
            full_refresh: false,
            changed: false,
            idle: false,
            drained: 0,
            paused: false,
        }
    }

    /// After an event the pixels count as received where it painted, or where
    /// they did before and the desktop kept its size.
    pub open spec fn pixels_after(self, event: FrameEvent, after: Framebuffer) -> bool {
        event is RawImage || (self.received_pixels && !resets(event) && self.framebuffer.width
            == after.width && self.framebuffer.height == after.height)
    }

    pub fn apply_frame_event(&mut self, event: FrameEvent) -> (result: Result<bool, ViewError>)
        requires
            old(self).valid(),
        ensures
            final(self).valid(),
            final(self).same_pass(*old(self)),
            match (result, old(self).framebuffer.refusal(event)) {
                (Ok(changed), None) => {
                    &&& changed == old(self).framebuffer.changes(event)
                    &&& old(self).framebuffer.applied(event, final(self).framebuffer)
                    &&& final(self).received_pixels == old(self).pixels_after(
                        event,
                        final(self).framebuffer,
                    )
                },
                (Err(error), Some(text)) => {
                    &&& error.text() == text
                    &&& final(self).framebuffer.same(old(self).framebuffer)
                    &&& final(self).received_pixels == old(self).received_pixels
                },
                _ => false,
            },
    {
        let reset = match &event {
            FrameEvent::SetResolution { .. } => true,
            _ => false,
        };
        let pixels = match &event {
            FrameEvent::RawImage(..) => true,
            _ => false,
        };
        let (width, height) = self.framebuffer.size();
        let changed = self.framebuffer.apply(event)?;
        let (new_width, new_height) = self.framebuffer.size();
        if reset || new_width != width || new_height != height {
            self.received_pixels = false;
        }
        self.received_pixels = self.received_pixels || pixels;
        Ok(changed)
    }

    /// Starts a pass. The first one after a pause asks for every pixel.
    pub fn begin_pass(&mut self, visible: bool) -> (start: PassStart)
        requires
            old(self).valid(),
        ensures
            final(self).valid(),
            final(self).framebuffer == old(self).framebuffer,
            final(self).received_pixels == old(self).received_pixels,
            start == (if visible {
                PassStart::Drain
            } else {
                PassStart::Paused
            }),
            final(self).paused == !visible,
            visible ==> {
                &&& final(self).full_refresh == old(self).paused
                &&& !final(self).changed
                &&& !final(self).idle
                &&& final(self).drained == 0
            },
            !visible ==> {
                &&& final(self).full_refresh == old(self).full_refresh
                &&& final(self).changed == old(self).changed
                &&& final(self).idle == old(self).idle
                &&& final(self).drained == old(self).drained
            },
    {
        if !visible {
            self.paused = true;
            return PassStart::Paused;
        }
        self.full_refresh = self.paused;
        self.paused = false;
        self.changed = false;
        self.idle = false;
        self.drained = 0;
        PassStart::Drain
    }

    /// Whether the pass takes another event.
    pub fn drains_more(&self, elapsed_ms: u64) -> (yes: bool)
        ensures
            yes == (self.drained < MAX_DRAINED_EVENTS && elapsed_ms < MAX_DRAIN_MS),
    {
        self.drained < MAX_DRAINED_EVENTS && elapsed_ms < MAX_DRAIN_MS
    }

    /// One event of the pass; the result is the desktop's size where it is new.
    pub fn take_event(&mut self, event: FrameEvent) -> (result: Result<
        Option<(usize, usize)>,
        ViewError,
    >)
        requires
            old(self).valid(),
            old(self).drained < MAX_DRAINED_EVENTS,
        ensures
            final(self).valid(),
            final(self).drained == old(self).drained + 1,
            final(self).paused == old(self).paused,
            final(self).full_refresh == (old(self).full_refresh || resets(event)),
            match (result, old(self).framebuffer.refusal(event)) {
                (Ok(size), None) => {
                    &&& !final(self).idle
                    &&& final(self).changed == (old(self).changed || old(
                        self,
                    ).framebuffer.changes(event))
                    &&& old(self).framebuffer.applied(event, final(self).framebuffer)
                    &&& final(self).received_pixels == old(self).pixels_after(
                        event,
                        final(self).framebuffer,
                    )
                    &&& size == (if final(self).framebuffer.width == old(self).framebuffer.width
                        && final(self).framebuffer.height == old(self).framebuffer.height {
                        None
                    } else {
                        Some((final(self).framebuffer.width, final(self).framebuffer.height))
                    })
                },
                (Err(error), Some(text)) => {
                    &&& error.text() == text
                    &&& final(self).framebuffer.same(old(self).framebuffer)
                    &&& final(self).received_pixels == old(self).received_pixels
                    &&& final(self).changed == old(self).changed
                    &&& final(self).idle == old(self).idle
                },
                _ => false,
            },
    {
        self.drained = self.drained + 1;
        let reset = match &event {
            FrameEvent::SetResolution { .. } => true,
            _ => false,
        };
        self.full_refresh = self.full_refresh || reset;
        let (width, height) = self.framebuffer.size();
        let changed = self.apply_frame_event(event)?;
        self.changed = self.changed || changed;
        self.idle = false;
        let (new_width, new_height) = self.framebuffer.size();
        if new_width != width || new_height != height {
            Ok(Some((new_width, new_height)))
        } else {
            Ok(None)
        }
    }

    /// The queue was empty.
    pub fn queue_empty(&mut self) -> (what: QueueEmpty)
        requires
            old(self).valid(),
            old(self).drained < MAX_DRAINED_EVENTS,
        ensures
            final(self).valid(),
            what == (if old(self).idle {
                QueueEmpty::Done
            } else {
                QueueEmpty::Yield
            }),
            final(self).idle,
            final(self).drained == old(self).drained + 1,
            final(self).framebuffer == old(self).framebuffer,
            final(self).received_pixels == old(self).received_pixels,
            final(self).full_refresh == old(self).full_refresh,
            final(self).changed == old(self).changed,
            final(self).paused == old(self).paused,
    {
        self.drained = self.drained + 1;
        if self.idle {
            return QueueEmpty::Done;
        }
        self.idle = true;
        QueueEmpty::Yield
    }

    /// Ends a pass. A desktop that nothing has painted since it got its size is
    /// not published; one that was announced anew, or not seen for a while, is
    /// asked for whole.
    pub fn end_pass(&self) -> (end: PassEnd)
        ensures
            end.publish == (self.received_pixels && self.changed && self.framebuffer.width != 0
                && self.framebuffer.height != 0),
            end.request == (if self.full_refresh {
                RefreshRequest::Full
            } else {
                RefreshRequest::Incremental
            }),
    {
        PassEnd {
            publish: self.received_pixels && self.changed && !self.framebuffer.is_blank(),
            request: if self.full_refresh {
                RefreshRequest::Full
            } else {
                RefreshRequest::Incremental
            },
        }
    }
}

/// A desktop of a new size waits for pixels before it is published, and a new
/// resolution always does; the announcement of the size it has keeps both its
/// pixels and its standing, and asks for no full frame.
pub proof fn law_only_new_sizes_wait_for_pixels(
    stream: ViewerStream,
    event: FrameEvent,
    after: Framebuffer,
)
    requires
        stream.valid(),
        stream.framebuffer.refusal(event) is None,
        stream.framebuffer.applied(event, after),
    ensures
        event is SetResolution ==> !stream.pixels_after(event, after),
        event is DesktopUpdate && (after.width != stream.framebuffer.width || after.height
            != stream.framebuffer.height) ==> !stream.pixels_after(event, after),
        event is DesktopUpdate && after.width == stream.framebuffer.width && after.height
            == stream.framebuffer.height ==> stream.pixels_after(event, after)
            == stream.received_pixels && after.rgba@ == stream.framebuffer.rgba@,
        event is DesktopUpdate ==> !resets(event),
{
}

/// Two sets of options make the same picture just where their limits and their
/// crop are the same; the frame rate does not matter.
pub proof fn law_pictures_depend_on_limits_and_crop(a: DeviceViewOptions, b: DeviceViewOptions)
    ensures
        a.presents_as(b) <==> a == (DeviceViewOptions { max_fps: a.max_fps, ..b }),
        a.presents_as(b) <==> b.presents_as(a),
{
}

/// Pictures are counted one by one, up to what the counter holds.
pub proof fn law_pictures_are_counted(n: u64)
    ensures
        n < 0xffff_ffff_ffff_ffff ==> counted(n) == n + 1,
        counted(n) >= n && counted(n) > 0,
{
}

/// A picture that is painted counts as received; what is no picture keeps what
/// was received while the desktop keeps its size.
pub proof fn law_painting_counts_as_received(
    stream: ViewerStream,
    event: FrameEvent,
    after: Framebuffer,
)
    ensures
        event is RawImage ==> stream.pixels_after(event, after),
        !(event is RawImage) && !stream.received_pixels ==> !stream.pixels_after(event, after),
        (event is Copy || event is Aside) && after.width == stream.framebuffer.width && after.height
            == stream.framebuffer.height ==> stream.pixels_after(event, after)
            == stream.received_pixels,
        resets(event) <==> event is SetResolution,
{
}

/// A connection is given five seconds, one through a tunnel thirty, and a
/// refresh five; a pass over the queue takes at most ten milliseconds and 4096
/// events.
pub proof fn law_a_pass_is_bounded(stream: ViewerStream, elapsed_ms: u64)
    ensures
        stream.drained < MAX_DRAINED_EVENTS && elapsed_ms < MAX_DRAIN_MS <==> stream.drained < 4096
            && elapsed_ms < 10,
        DIRECT_CONNECT_TIMEOUT_MS == 5_000,
        TUNNEL_CONNECT_TIMEOUT_MS == 30_000,
        REFRESH_TIMEOUT_MS == 5_000,
{
}

/// A status is seen as it is, with its error.
pub proof fn law_statuses_are_seen_as_they_are(status: Status)
    ensures
        status is Stopped ==> status@ is Stopped,
        status is Connecting ==> status@ is Connecting,
        status is Connected ==> status@ is Connected,
        status matches Status::Disconnected(error) ==> status@ == StatusView::Disconnected(error@),
        opt_status(Some(status)) == Some(status@),
        opt_status(None) is None,
{
}

/// What the viewer takes away leaves the counts, the desktop, the options and
/// whether anybody looks.
pub proof fn law_what_is_kept_stays<T>(a: Updates<T>, b: Updates<T>)
    requires
        a.keeps(b),
    ensures
        a.stream == b.stream,
        a.produced_with == b.produced_with,
        a.received_frame_sequence == b.received_frame_sequence,
        a.visible == b.visible,
        a.options == b.options,
        a.desktop == b.desktop,
{
}

/// Two states of a stream in the same pass agree on all that the pass counts.
pub proof fn law_passes_are_kept(a: ViewerStream, b: ViewerStream)
    requires
        a.same_pass(b),
    ensures
        a.full_refresh == b.full_refresh,
        a.changed == b.changed,
        a.idle == b.idle,
        a.drained == b.drained,
        a.paused == b.paused,
{
}

} // verus!
