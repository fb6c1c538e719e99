//! The desktop as the server has drawn it so far.
use vstd::arithmetic::div_mod::{
    lemma_fundamental_div_mod, lemma_fundamental_div_mod_converse,
};
use vstd::prelude::*;


verus! {

/// A desktop holds at most this many pixels.
pub const MAX_FRAME_PIXELS: usize = 8_294_400;

/// Why a view ended.
pub enum ViewError {
    Io(String),
    Protocol(String),
    Frame(&'static str),
    Server(String),
    Tunnel(String),
    Timeout,
}

impl ViewError {
    pub open spec fn text(self) -> Seq<char> {
        match self {
            ViewError::Io(text) | ViewError::Protocol(text) | ViewError::Server(text)
            | ViewError::Tunnel(text) => text@,
            ViewError::Frame(text) => text@,
            ViewError::Timeout => "connection timed out"@,
        }
    }

    pub fn message(&self) -> (message: String)
        ensures
            message@ == self.text(),
    {
        match self {
            ViewError::Io(text) => text.clone(),
            ViewError::Protocol(text) => text.clone(),
            ViewError::Server(text) => text.clone(),
            ViewError::Tunnel(text) => text.clone(),
            ViewError::Frame(text) => (*text).to_owned(),
            ViewError::Timeout => "connection timed out".to_owned(),
        }
    }
}

#[derive(Clone, Copy, Debug, PartialEq, Eq, Structural)]
pub struct FrameRect {
    pub x: u16,
    pub y: u16,
    pub width: u16,
    pub height: u16,
}

/// What the server sends about the desktop.
pub enum FrameEvent {
    /// The desktop has this size now, and its pixels are gone.
    SetResolution { width: u16, height: u16 },
    /// The layout was announced, or a resize answered; the size is missing
    /// where the answer leaves it open.
    DesktopUpdate { size: Option<(u16, u16)> },
    /// Four bytes per pixel, row by row.
    RawImage(FrameRect, Vec<u8>),
    /// Destination, then source.
    Copy(FrameRect, FrameRect),
    /// An image in an encoding that was not asked for.
    ForeignImage,
    /// Nothing that changes pixels: a pixel format, a bell, clipboard text.
    Aside,
    Error(String),
    Unsupported,
}

/// The desktop's pixels, red, green, blue and alpha in turn, row by row.
pub struct Framebuffer {
    pub width: usize,
    pub height: usize,
    pub rgba: Vec<u8>,
}

/// Where the pixel with number `p` stands in a picture `width` wide.
pub open spec fn column(p: int, width: int) -> int {
    p % width
}

pub open spec fn row(p: int, width: int) -> int {
    p / width
}

/// The pixel with number `p` lies in `rect`.
pub open spec fn inside(p: int, width: int, rect: FrameRect) -> bool {
    &&& rect.x <= column(p, width) < rect.x + rect.width
    &&& rect.y <= row(p, width) < rect.y + rect.height
}

/// The number of that pixel among those of `rect`.
pub open spec fn order_in(p: int, width: int, rect: FrameRect) -> int {
    (row(p, width) - rect.y) * rect.width + (column(p, width) - rect.x)
}

/// `old` with the first `count` pixels of `rect` taken from `bytes`, opaque.
pub open spec fn painted_until(
    old: Seq<u8>,
    width: int,
    rect: FrameRect,
    bytes: Seq<u8>,
    count: int,
) -> Seq<u8> {
    Seq::new(
        old.len(),
        |k: int|
            {
                let p = k / 4;
                if inside(p, width, rect) && order_in(p, width, rect) < count {
                    if k % 4 == 3 {
                        255u8
                    } else {
                        bytes[order_in(p, width, rect) * 4 + k % 4]
                    }
                } else {
                    old[k]
                }
            },
    )
}

/// `old` with the pixels of `rect` taken from `bytes`, opaque, and every other
/// pixel as it was.
pub open spec fn painted(old: Seq<u8>, width: int, rect: FrameRect, bytes: Seq<u8>) -> Seq<u8> {
    painted_until(old, width, rect, bytes, rect.width * rect.height)
}

/// The number in the picture of the pixel with number `n` in `rect`.
pub open spec fn place_of(n: int, width: int, rect: FrameRect) -> int {
    (rect.y + row(n, rect.width as int)) * width + rect.x + column(n, rect.width as int)
}

/// The bytes of the pixels in `rect`.
pub open spec fn cut(rgba: Seq<u8>, width: int, rect: FrameRect) -> Seq<u8> {
    Seq::new(
        (rect.width * rect.height * 4) as nat,
        |k: int| rgba[place_of(k / 4, width, rect) * 4 + k % 4],
    )
}

proof fn lemma_place(n: int, width: int, height: int, rect: FrameRect)
    requires
        0 <= n < rect.width * rect.height,
        rect.x + rect.width <= width,
        rect.y + rect.height <= height,
    ensures
        0 <= place_of(n, width, rect) < width * height,
        inside(place_of(n, width, rect), width, rect),
        order_in(place_of(n, width, rect), width, rect) == n,
        rect.width > 0,
        rect.y <= rect.y + row(n, rect.width as int) < height,
        rect.x <= rect.x + column(n, rect.width as int) < width,
{
    let w = rect.width as int;
    let h = rect.height as int;
    assert(w > 0) by (nonlinear_arith)
        requires
            0 <= n < w * h,
            0 <= w,
    ;
    lemma_fundamental_div_mod(n, w);
    let r = n / w;
    let c = n % w;
    assert(0 <= c < w);
    assert(0 <= r < h) by (nonlinear_arith)
        requires
            0 <= n < w * h,
            n == w * r + c,
            0 <= c < w,
            w > 0,
    ;
    let p = place_of(n, width, rect);
    let y = rect.y + r;
    let x = rect.x + c;
    assert(p == y * width + x);
    assert(0 <= p < width * height) by (nonlinear_arith)
        requires
            p == y * width + x,
            0 <= y < height,
            0 <= x < width,
    ;
    assert(p == width * y + x) by (nonlinear_arith)
        requires
            p == y * width + x,
    ;
    lemma_fundamental_div_mod_converse(p, width, y, x);
    assert((y - rect.y) * w + (x - rect.x) == n) by (nonlinear_arith)
        requires
            n == w * r + c,
            y == rect.y + r,
            x == rect.x + c,
    ;
}

/// A pixel of `rect` is known by its number there.
proof fn lemma_place_back(p: int, width: int, rect: FrameRect)
    requires
        0 <= p,
        0 < width,
        inside(p, width, rect),
    ensures
        0 <= order_in(p, width, rect) < rect.width * rect.height,
        place_of(order_in(p, width, rect), width, rect) == p,
{
    let w = rect.width as int;
    let r = row(p, width) - rect.y;
    let c = column(p, width) - rect.x;
    let n = order_in(p, width, rect);
    assert(0 <= n < w * rect.height) by (nonlinear_arith)
        requires
            n == r * w + c,
            0 <= r < rect.height,
            0 <= c < w,
    ;
    assert(n == w * r + c) by (nonlinear_arith)
        requires
            n == r * w + c,
    ;
    lemma_fundamental_div_mod_converse(n, w, r, c);
    lemma_fundamental_div_mod(p, width);
    assert((rect.y + r) * width + rect.x + c == p) by (nonlinear_arith)
        requires
            p == width * (rect.y + r) + (rect.x + c),
    ;
}

impl Framebuffer {
    pub open spec fn valid(self) -> bool {
        &&& self.width * self.height <= MAX_FRAME_PIXELS
        &&& self.rgba@.len() == self.width * self.height * 4
    }

    /// `rect` lies on the desktop.
    pub open spec fn holds(self, rect: FrameRect) -> bool {
        rect.x + rect.width <= self.width && rect.y + rect.height <= self.height
    }

    pub open spec fn same(self, other: Self) -> bool {
        self.width == other.width && self.height == other.height && self.rgba@ == other.rgba@
    }

    pub fn new() -> (frame: Self)
        ensures
            frame.valid(),
            frame.width == 0,
            frame.height == 0,
            frame.rgba@.len() == 0,
    {
        Framebuffer { width: 0, height: 0, rgba: Vec::new() }
    }

    pub fn size(&self) -> (size: (usize, usize))
        ensures
            size == (self.width, self.height),
    {
        (self.width, self.height)
    }

    /// Nothing can be shown: a side is zero.
    pub fn is_blank(&self) -> (blank: bool)
        ensures
            blank == (self.width == 0 || self.height == 0),
    {
        self.width == 0 || self.height == 0
    }

    /// A desktop of this size can be held.
    pub open spec fn size_fits(width: int, height: int) -> bool {
        width != 0 && height != 0 && width * height <= MAX_FRAME_PIXELS
    }

    /// Starts over with a black, transparent desktop of the given size.
    pub fn resize(&mut self, width: u16, height: u16) -> (result: Result<(), ViewError>)
        requires
            old(self).valid(),
        ensures
            final(self).valid(),
            (result is Ok) == Self::size_fits(width as int, height as int),
            result is Ok ==> {
                &&& final(self).width == width
                &&& final(self).height == height
                &&& forall|k: int|
                    0 <= k < final(self).rgba@.len() ==> #[trigger] final(self).rgba@[k] == 0
            },
            result matches Err(error) ==> {
                &&& final(self).same(*old(self))
                &&& error matches ViewError::Frame(text) && text@ == "unsupported desktop size"@
            },
    {
        let w: usize = width as usize;
        let h: usize = height as usize;
        assert(0 <= width * height <= 65535 * 65535) by (nonlinear_arith)
            requires
                width <= 65535,
                height <= 65535,
        ;
        let pixels: u64 = (width as u64) * (height as u64);
        if w == 0 || h == 0 || pixels > MAX_FRAME_PIXELS as u64 {
            return Err(ViewError::Frame("unsupported desktop size"));
        }
        self.width = w;
        self.height = h;
        let len: usize = (pixels as usize) * 4;
        let mut rgba: Vec<u8> = Vec::new();
        rgba.resize(len, 0);
        self.rgba = rgba;
        Ok(())
    }

    fn check(&self, rect: FrameRect) -> (result: Result<(), ViewError>)
        ensures
            (result is Ok) == self.holds(rect),
            result matches Err(error) ==> (error matches ViewError::Frame(text) && text@
                == "rectangle outside desktop"@),
    {
        let right: usize = (rect.x as usize) + (rect.width as usize);
        let bottom: usize = (rect.y as usize) + (rect.height as usize);
        if right > self.width || bottom > self.height {
            return Err(ViewError::Frame("rectangle outside desktop"));
        }
        Ok(())
    }

    /// Paints `rect` with `bytes`, making it opaque.
    pub fn write(&mut self, rect: FrameRect, bytes: &Vec<u8>) -> (result: Result<(), ViewError>)
        requires
            old(self).valid(),
        ensures
            final(self).valid(),
            final(self).width == old(self).width,
            final(self).height == old(self).height,
            (result is Ok) == (old(self).holds(rect) && bytes@.len() == rect.width * rect.height
                * 4),
            result is Ok ==> final(self).rgba@ == painted(
                old(self).rgba@,
                old(self).width as int,
                rect,
                bytes@,
            ),
            result matches Err(error) ==> {
                &&& final(self).rgba@ == old(self).rgba@
                &&& error matches ViewError::Frame(text) && text@ == (if !old(self).holds(rect) {
                    "rectangle outside desktop"@
                } else {
                    "rectangle byte count mismatch"@
                })
            },
    {
        self.check(rect)?;
        assert(0 <= rect.width * rect.height <= 65535 * 65535) by (nonlinear_arith)
            requires
                rect.width <= 65535,
                rect.height <= 65535,
        ;
        let pixels: u64 = (rect.width as u64) * (rect.height as u64);
        if bytes.len() as u64 != pixels * 4 {
            return Err(ViewError::Frame("rectangle byte count mismatch"));
        }
        let total: usize = bytes.len() / 4;
        let ghost old_rgba = self.rgba@;
        let ghost width = self.width as int;
        let ghost height = self.height as int;
        let mut n: usize = 0;
        proof {
            assert(painted_until(old_rgba, width, rect, bytes@, 0) =~= old_rgba) by {
                assert forall|k: int| 0 <= k < old_rgba.len() implies painted_until(
                    old_rgba,
                    width,
                    rect,
                    bytes@,
                    0,
                )[k] == old_rgba[k] by {
                    if inside(k / 4, width, rect) {
                        lemma_place_back(k / 4, width, rect);
                    }
                }
            }
        }
        while n < total
            invariant
                self.width == width,
                self.height == height,
                width * height <= MAX_FRAME_PIXELS,
                total == rect.width * rect.height,
                bytes@.len() == total * 4,
                total * 4 <= usize::MAX,
                n <= total,
                rect.x + rect.width <= width,
                rect.y + rect.height <= height,
                old_rgba.len() == width * height * 4,
                self.rgba@.len() == old_rgba.len(),
                self.rgba@ == painted_until(old_rgba, width, rect, bytes@, n as int),
            decreases total - n,
        {
            proof {
                lemma_place(n as int, width, height, rect);
            }
            let ghost before = self.rgba@;
            let w: usize = rect.width as usize;
            let y: usize = (rect.y as usize) + n / w;
            let x: usize = (rect.x as usize) + n % w;
            let ghost p = place_of(n as int, width, rect);
            assert(y * self.width + x == p);
            assert(0 <= y * self.width <= p) by (nonlinear_arith)
                requires
                    y * width + x == p,
                    0 <= y,
                    0 <= width,
                    0 <= x,
                    self.width == width,
            ;
            let at: usize = (y * self.width + x) * 4;
            let from: usize = n * 4;
            self.rgba.set(at, bytes[from]);
            self.rgba.set(at + 1, bytes[from + 1]);
            self.rgba.set(at + 2, bytes[from + 2]);
            self.rgba.set(at + 3, 255);
            proof {
                let after = painted_until(old_rgba, width, rect, bytes@, n + 1);
                assert forall|k: int| 0 <= k < old_rgba.len() implies self.rgba@[k] == after[k] by {
                    let q = k / 4;
                    if q == p {
                        assert(k == at + k % 4);
                    } else {
                        assert(self.rgba@[k] == before[k]);
                        if inside(q, width, rect) {
                            lemma_place_back(q, width, rect);
                            assert(order_in(q, width, rect) != n);
                        }
                    }
                }
                assert(self.rgba@ =~= after);
            }
            n = n + 1;
        }
        Ok(())
    }

    /// Takes the bytes of `rect` out.
    fn copy_out(&self, rect: FrameRect) -> (bytes: Vec<u8>)
        requires
            self.valid(),
            self.holds(rect),
        ensures
            bytes@ == cut(self.rgba@, self.width as int, rect),
    {
        let ghost width = self.width as int;
        let ghost height = self.height as int;
        let mut bytes: Vec<u8> = Vec::new();
        assert(rect.width * rect.height <= self.width * self.height) by (nonlinear_arith)
            requires
                rect.width <= self.width,
                rect.height <= self.height,
        ;
        let total: usize = (rect.width as usize) * (rect.height as usize);
        let mut n: usize = 0;
        while n < total
            invariant
                self.width == width,
                self.height == height,
                self.valid(),
                self.holds(rect),
                total == rect.width * rect.height,
                n <= total,
                bytes@.len() == n * 4,
                forall|k: int|
                    0 <= k < n * 4 ==> #[trigger] bytes@[k] == self.rgba@[place_of(
                        k / 4,
                        width,
                        rect,
                    ) * 4 + k % 4],
            decreases total - n,
        {
            proof {
                lemma_place(n as int, width, height, rect);
            }
            let w: usize = rect.width as usize;
            let y: usize = (rect.y as usize) + n / w;
            let x: usize = (rect.x as usize) + n % w;
            let ghost p = place_of(n as int, width, rect);
            assert(y * self.width + x == p);
            assert(0 <= y * self.width <= p) by (nonlinear_arith)
                requires
                    y * width + x == p,
                    0 <= y,
                    0 <= width,
                    0 <= x,
                    self.width == width,
            ;
            let at: usize = (y * self.width + x) * 4;
            bytes.push(self.rgba[at]);
            bytes.push(self.rgba[at + 1]);
            bytes.push(self.rgba[at + 2]);
            bytes.push(self.rgba[at + 3]);
            n = n + 1;
        }
        assert(bytes@ =~= cut(self.rgba@, width, rect));
        bytes
    }

    /// What `apply` leaves on success.
    pub open spec fn applied(self, event: FrameEvent, after: Self) -> bool {
        match event {
            FrameEvent::SetResolution { width, height } => {
                &&& after.width == width
                &&& after.height == height
                &&& after.blacked()
            },
            FrameEvent::DesktopUpdate { size } => match size {
                Some((width, height)) => if self.width == width && self.height == height {
                    after.same(self)
                } else {
                    &&& after.width == width
                    &&& after.height == height
                    &&& after.blacked()
                },
                None => after.same(self),
            },
            FrameEvent::RawImage(rect, bytes) => {
                &&& after.width == self.width
                &&& after.height == self.height
                &&& after.rgba@ == painted(self.rgba@, self.width as int, rect, bytes@)
            },
            FrameEvent::Copy(to, from) => {
                &&& after.width == self.width
                &&& after.height == self.height
                &&& after.rgba@ == painted(
                    self.rgba@,
                    self.width as int,
                    to,
                    cut(self.rgba@, self.width as int, from),
                )
            },
            FrameEvent::Aside => after.same(self),
            _ => false,
        }
    }

    pub open spec fn blacked(self) -> bool {
        forall|k: int| 0 <= k < self.rgba@.len() ==> #[trigger] self.rgba@[k] == 0
    }

    /// Why `apply` refuses an event, if it does.
    pub open spec fn refusal(self, event: FrameEvent) -> Option<Seq<char>> {
        match event {
            FrameEvent::SetResolution { width, height } => if Self::size_fits(
                width as int,
                height as int,
            ) {
                None
            } else {
                Some("unsupported desktop size"@)
            },
            FrameEvent::DesktopUpdate { size } => match size {
                Some((width, height)) => if (self.width == width && self.height == height)
                    || Self::size_fits(width as int, height as int) {
                    None
                } else {
                    Some("unsupported desktop size"@)
                },
                None => None,
            },
            FrameEvent::RawImage(rect, bytes) => if !self.holds(rect) {
                Some("rectangle outside desktop"@)
            } else if bytes@.len() != rect.width * rect.height * 4 {
                Some("rectangle byte count mismatch"@)
            } else {
                None
            },
            FrameEvent::Copy(to, from) => if !self.holds(from) || !self.holds(to) {
                Some("rectangle outside desktop"@)
            } else if from.width != to.width || from.height != to.height {
                Some("copy dimensions differ"@)
            } else {
                None
            },
            FrameEvent::ForeignImage => Some("unrequested image encoding"@),
            FrameEvent::Aside => None,
            FrameEvent::Error(error) => Some(error@),
            FrameEvent::Unsupported => Some("unsupported viewer event"@),
        }
    }

    /// The event may have changed pixels.
    pub open spec fn changes(self, event: FrameEvent) -> bool {
        match event {
            FrameEvent::Aside => false,
            FrameEvent::DesktopUpdate { size } => size matches Some((width, height)) && !(
            self.width == width && self.height == height),
            _ => true,
        }
    }

    /// Applies one event; the result tells whether there is anything new to
    /// show. A refused event changes nothing.
    pub fn apply(&mut self, event: FrameEvent) -> (result: Result<bool, ViewError>)
        requires
            old(self).valid(),
        ensures
            final(self).valid(),
            match (result, old(self).refusal(event)) {
                (Ok(changed), None) => changed == old(self).changes(event) && old(self).applied(
                    event,
                    *final(self),
                ),
                (Err(error), Some(text)) => {
                    &&& final(self).same(*old(self))
                    &&& error.text() == text
                    &&& (error is Server) == (event is Error)
                    &&& (error is Frame) == !(event is Error)
                },
                _ => false,
            },
    {
        match event {
            FrameEvent::SetResolution { width, height } => {
                self.resize(width, height)?;
                Ok(true)
            },
            FrameEvent::DesktopUpdate { size } => match size {
                Some((width, height)) => {
                    if self.width == width as usize && self.height == height as usize {
                        return Ok(false);
                    }
                    self.resize(width, height)?;
                    Ok(true)
                },
                None => Ok(false),
            },
            FrameEvent::RawImage(rect, bytes) => {
                self.write(rect, &bytes)?;
                Ok(true)
            },
            FrameEvent::Copy(destination, source) => {
                self.check(source)?;
                self.check(destination)?;
                if source.width != destination.width || source.height != destination.height {
                    return Err(ViewError::Frame("copy dimensions differ"));
                }
                // The source is taken out first, so that overlapping
                // rectangles copy what stood there before.
                let bytes = self.copy_out(source);
                self.write(destination, &bytes)?;
                Ok(true)
            },
            FrameEvent::ForeignImage => Err(ViewError::Frame("unrequested image encoding")),
            FrameEvent::Aside => Ok(false),
            FrameEvent::Error(error) => Err(ViewError::Server(error)),
            FrameEvent::Unsupported => Err(ViewError::Frame("unsupported viewer event")),
        }
    }
}

/// Copying between rectangles, overlapping or not, puts into each pixel of the
/// destination the colour that its counterpart in the source had before, and
/// leaves every other pixel alone.
pub proof fn law_copy_reads_the_old_pixels(
    frame: Framebuffer,
    to: FrameRect,
    from: FrameRect,
    n: int,
    channel: int,
)
    requires
        frame.valid(),
        frame.holds(to),
        frame.holds(from),
        to.width == from.width,
        to.height == from.height,
        0 <= n < to.width * to.height,
        0 <= channel < 3,
    ensures
        ({
            let width = frame.width as int;
            let after = painted(frame.rgba@, width, to, cut(frame.rgba@, width, from));
            after[place_of(n, width, to) * 4 + channel] == frame.rgba@[place_of(n, width, from) * 4
                + channel]
        }),
{
    let width = frame.width as int;
    let height = frame.height as int;
    lemma_place(n, width, height, to);
    lemma_place(n, width, height, from);
    let p = place_of(n, width, to);
    let k = p * 4 + channel;
    assert(k / 4 == p && k % 4 == channel);
    let m = n * 4 + channel;
    assert(m / 4 == n && m % 4 == channel);
}

/// Painting leaves the pixels outside the rectangle as they were, and makes
/// those inside opaque.
pub proof fn law_painting_stays_inside(frame: Framebuffer, rect: FrameRect, bytes: Seq<u8>, k: int)
    requires
        frame.valid(),
        frame.holds(rect),
        0 <= k < frame.rgba@.len(),
    ensures
        !inside(k / 4, frame.width as int, rect) ==> painted(
            frame.rgba@,
            frame.width as int,
            rect,
            bytes,
        )[k] == frame.rgba@[k],
        inside(k / 4, frame.width as int, rect) && k % 4 == 3 ==> painted(
            frame.rgba@,
            frame.width as int,
            rect,
            bytes,
        )[k] == 255,
{
    if inside(k / 4, frame.width as int, rect) {
        assert(frame.width > 0);
        lemma_place_back(k / 4, frame.width as int, rect);
    }
}

/// Every pixel of a painted rectangle gets its own three colours, row by row
/// from the top left, and is opaque.
pub proof fn law_pixels_get_their_colours(
    frame: Framebuffer,
    rect: FrameRect,
    bytes: Seq<u8>,
    x: int,
    y: int,
    channel: int,
)
    requires
        frame.valid(),
        frame.holds(rect),
        bytes.len() == rect.width * rect.height * 4,
        rect.x <= x < rect.x + rect.width,
        rect.y <= y < rect.y + rect.height,
        0 <= channel < 3,
    ensures
        ({
            let after = painted(frame.rgba@, frame.width as int, rect, bytes);
            &&& after.len() == frame.rgba@.len()
            &&& after[(y * frame.width + x) * 4 + channel] == bytes[((y - rect.y) * rect.width + (x
                - rect.x)) * 4 + channel]
            &&& after[(y * frame.width + x) * 4 + 3] == 255
        }),
{
    let width = frame.width as int;
    let p = y * width + x;
    assert(p == width * y + x) by (nonlinear_arith)
        requires
            p == y * width + x,
    ;
    lemma_fundamental_div_mod_converse(p, width, y, x);
    assert(inside(p, width, rect));
    lemma_place_back(p, width, rect);
    assert(0 <= p < width * frame.height) by (nonlinear_arith)
        requires
            p == y * width + x,
            0 <= y < frame.height,
            0 <= x < width,
    ;
    let k = p * 4 + channel;
    assert(k / 4 == p && k % 4 == channel);
    let a = p * 4 + 3;
    assert(a / 4 == p && a % 4 == 3);
}

/// A pixel that is copied takes the three colours that stood in the source, as
/// far from its corner as it is from the destination's.
pub proof fn law_copies_take_the_colours_of_the_source(
    frame: Framebuffer,
    to: FrameRect,
    from: FrameRect,
    dx: int,
    dy: int,
    channel: int,
)
    requires
        frame.valid(),
        frame.holds(to),
        frame.holds(from),
        to.width == from.width && to.height == from.height,
        0 <= dx < to.width,
        0 <= dy < to.height,
        0 <= channel < 3,
    ensures
        ({
            let width = frame.width as int;
            let after = painted(frame.rgba@, width, to, cut(frame.rgba@, width, from));
            after[((to.y + dy) * width + to.x + dx) * 4 + channel] == frame.rgba@[((from.y + dy)
                * width + from.x + dx) * 4 + channel]
        }),
{
    let w = to.width as int;
    let n = dy * w + dx;
    assert(0 <= n < w * to.height) by (nonlinear_arith)
        requires
            n == dy * w + dx,
            0 <= dx < w,
            0 <= dy < to.height,
    ;
    assert(n == w * dy + dx) by (nonlinear_arith)
        requires
            n == dy * w + dx,
    ;
    lemma_fundamental_div_mod_converse(n, w, dy, dx);
    law_copy_reads_the_old_pixels(frame, to, from, n, channel);
}

/// An event is refused just where it cannot be applied: a desktop without an
/// area or of more than 3840 by 2160 pixels, a rectangle that does not lie on
/// the desktop, bytes or sizes that do not match, a foreign encoding, and what
/// the server itself calls an error.
pub proof fn law_what_is_refused(frame: Framebuffer, event: FrameEvent)
    ensures
        event matches FrameEvent::SetResolution { width, height } ==> (frame.refusal(event) is None
            <==> width > 0 && height > 0 && width * height <= 3840 * 2160),
        event matches FrameEvent::DesktopUpdate { size: Some((width, height)) } ==> (frame.refusal(
            event,
        ) is None <==> (frame.width == width && frame.height == height) || (width > 0 && height > 0
            && width * height <= 3840 * 2160)),
        event matches FrameEvent::DesktopUpdate { size: None } ==> frame.refusal(event) is None,
        event matches FrameEvent::RawImage(rect, bytes) ==> (frame.refusal(event) is None
            <==> rect.x + rect.width <= frame.width && rect.y + rect.height <= frame.height
            && bytes@.len() == rect.width * rect.height * 4),
        event matches FrameEvent::Copy(to, from) ==> (frame.refusal(event) is None <==> to.x
            + to.width <= frame.width && to.y + to.height <= frame.height && from.x + from.width
            <= frame.width && from.y + from.height <= frame.height && to.width == from.width
            && to.height == from.height),
        event is Aside ==> frame.refusal(event) is None,
        event is ForeignImage || event is Unsupported ==> frame.refusal(event) is Some,
        event matches FrameEvent::Error(error) ==> frame.refusal(event) == Some(error@),
{
}

/// Why a refused event was refused is said in words of its own.
pub proof fn law_refusals_are_explained(frame: Framebuffer, event: FrameEvent)
    requires
        frame.refusal(event) is Some,
    ensures
        event is SetResolution || event is DesktopUpdate ==> frame.refusal(event)
            == Some("unsupported desktop size"@),
        event matches FrameEvent::RawImage(rect, _) ==> frame.refusal(event) == Some(
            if rect.x + rect.width <= frame.width && rect.y + rect.height <= frame.height {
                "rectangle byte count mismatch"@
            } else {
                "rectangle outside desktop"@
            },
        ),
        event matches FrameEvent::Copy(to, from) ==> frame.refusal(event) == Some(
            if to.x + to.width <= frame.width && to.y + to.height <= frame.height && from.x
                + from.width <= frame.width && from.y + from.height <= frame.height {
                "copy dimensions differ"@
            } else {
                "rectangle outside desktop"@
            },
        ),
        event is ForeignImage ==> frame.refusal(event) == Some("unrequested image encoding"@),
        event is Unsupported ==> frame.refusal(event) == Some("unsupported viewer event"@),
{
}

/// A new resolution blackens the desktop; the announcement of another size does
/// so too, and that of the same size, like what is no picture, changes nothing.
pub proof fn law_events_leave_the_desktop_they_say(
    frame: Framebuffer,
    event: FrameEvent,
    after: Framebuffer,
)
    requires
        frame.refusal(event) is None,
        frame.applied(event, after),
    ensures
        event matches FrameEvent::SetResolution { width, height } ==> after.width == width
            && after.height == height && forall|k: int|
            0 <= k < after.rgba@.len() ==> #[trigger] after.rgba@[k] == 0,
        event matches FrameEvent::DesktopUpdate { size: Some((width, height)) } ==> after.width
            == width && after.height == height,
        !frame.changes(event) ==> after.width == frame.width && after.height == frame.height
            && after.rgba@ == frame.rgba@,
        frame.changes(event) <==> event is SetResolution || event is RawImage || event is Copy || (
        event is DesktopUpdate && (after.width != frame.width || after.height != frame.height)),
        event is RawImage || event is Copy ==> after.width == frame.width && after.height
            == frame.height && after.rgba@.len() == frame.rgba@.len(),
{
}

/// An error says what happened in its own words; a timeout in these.
pub proof fn law_errors_say_what_happened(error: ViewError)
    ensures
        error is Timeout ==> error.text() == "connection timed out"@,
        error matches ViewError::Io(text) ==> error.text() == text@,
        error matches ViewError::Protocol(text) ==> error.text() == text@,
        error matches ViewError::Server(text) ==> error.text() == text@,
        error matches ViewError::Tunnel(text) ==> error.text() == text@,
        error matches ViewError::Frame(text) ==> error.text() == text@,
{
}

} // verus!
