//! Direct RGB565 video: the frame buffer apps render into and the display
//! side that shows presented frames.
//!
//! The app side starts a rendering session of some size, sets pixels and
//! presents revisions; the display side asks for the active frame and
//! compares its token with the last one it drew. While no session is
//! active, the platform may use the storage itself.

use vstd::prelude::*;

use crate::registry::CapabilityKind;

verus! {

/// Registry capability kind of the direct-video frame buffer.
pub const FRAME_BUFFER_KIND: CapabilityKind = 16;

/// One RGB565 pixel: red in the top five bits, green in the middle six,
/// blue in the low five.
#[derive(Clone, Copy, Debug, PartialEq, Eq, Structural)]
pub struct Rgb565Pixel(pub u16);

/// Error returned when creating or using a frame buffer.
#[derive(Clone, Copy, Debug, PartialEq, Eq, Structural)]
pub enum FrameBufferError {
    /// The supplied dimensions are zero or do not match the storage length.
    InvalidDimensions,
}

/// The rendering session an app has open.
#[derive(Clone, Copy, Debug, PartialEq, Eq, Structural)]
pub struct ActiveFrame {
    pub id: u32,
    pub width: u16,
    pub height: u16,
    pub revision: u32,
}

/// The token of revision `revision` of frame `id`: the frame id in the upper
/// 32 bits, the revision in the lower 32.
pub open spec fn frame_token(id: u32, revision: u32) -> int {
    (id as int) * 0x1_0000_0000 + (revision as int)
}

/// The number of pixels of a `width` by `height` frame.
fn area(width: u16, height: u16) -> (len: usize)
    ensures
        len == (width as int) * (height as int),
{
    proof {
        assert((width as int) * (height as int) <= 0xffff * 0xffff) by (nonlinear_arith)
            requires
                width <= 0xffff,
                height <= 0xffff,
        ;
    }
    (width as usize) * (height as usize)
}

/// The frame buffer: pixel storage of a fixed size, the active session,
/// and the id the next session will get.
pub struct Rgb565FrameBuffer {
    pixels: Vec<Rgb565Pixel>,
    width: u16,
    height: u16,
    active: Option<ActiveFrame>,
    next_id: u32,
}

/// The frame id of the `n`-th session started after one that got `first`
/// (counting that one as the 0-th): ids are handed out in turn, wrapping
/// after `u32::MAX`.
pub open spec fn session_id_after(first: u32, n: nat) -> u32 {
    (((first as int) + n) % 0x1_0000_0000) as u32
}

/// Of fewer than 2^32 sessions started one after another, no two share a
/// frame id, so their tokens differ.
pub proof fn lemma_session_ids_distinct(first: u32, i: nat, j: nat)
    requires
        i < j < 0x1_0000_0000,
    ensures
        session_id_after(first, i) != session_id_after(first, j),
{
    let a = (first as int) + i;
    let b = (first as int) + j;
    assert(a % 0x1_0000_0000 != b % 0x1_0000_0000) by (nonlinear_arith)
        requires
            0 <= a < b,
            b - a < 0x1_0000_0000,
    ;
}

/// A snapshot of the frame that an app has presented.
#[derive(Clone, Copy, Debug, PartialEq, Eq, Structural)]
pub struct PresentedFrame {
    pub frame: ActiveFrame,
}

/// Creates a frame buffer over `pixels`, which must hold exactly
/// `width * height` pixels, with no session active.
pub fn rgb565_frame_buffer(pixels: Vec<Rgb565Pixel>, width: u16, height: u16) -> (result: Result<
    Rgb565FrameBuffer,
    FrameBufferError,
>)
    ensures
        (width as int) * (height as int) == 0 || pixels.len() != (width as int) * (height as int)
            <==> result == Err::<Rgb565FrameBuffer, FrameBufferError>(FrameBufferError::InvalidDimensions),
        result matches Ok(buffer) ==> {
            &&& buffer.wf()
            &&& buffer.pixels() == pixels@
            &&& buffer.storage_width() == width
            &&& buffer.storage_height() == height
            &&& buffer.active() is None
            &&& buffer.next_frame_id() == 1
        },
{
    let expected_len = area(width, height);
    if expected_len == 0 || pixels.len() != expected_len {
        return Err(FrameBufferError::InvalidDimensions);
    }
    Ok(Rgb565FrameBuffer { pixels, width, height, active: None, next_id: 1 })
}

impl Rgb565FrameBuffer {
    pub closed spec fn pixels(&self) -> Seq<Rgb565Pixel> {
        self.pixels@
    }

    pub closed spec fn storage_width(&self) -> u16 {
        self.width
    }

    pub closed spec fn storage_height(&self) -> u16 {
        self.height
    }

    pub closed spec fn active(&self) -> Option<ActiveFrame> {
        self.active
    }

    /// The frame id the next session gets.
    pub closed spec fn next_frame_id(&self) -> u32 {
        self.next_id
    }

    /// The storage holds `width * height` pixels, and an active session
    /// fits in it and has an id other than the next session's.
    pub open spec fn wf(&self) -> bool {
        &&& self.pixels().len() == (self.storage_width() as int) * (self.storage_height() as int)
        &&& self.active() matches Some(frame) ==> {
            &&& 0 < (frame.width as int) * (frame.height as int) <= self.pixels().len()
            &&& frame.width <= self.storage_width()
            &&& frame.height <= self.storage_height()
            &&& frame.id != self.next_frame_id()
        }
    }

    /// Starts a rendering session of `width` by `height` pixels under the
    /// next frame id, which it returns: the session's pixels are cleared to
    /// black and it becomes the active frame at revision 0, replacing any
    /// earlier one. The following session gets the following id, so a new
    /// session never shares the id of the one it replaces.
    pub fn start(&mut self, width: u16, height: u16) -> (result: Result<u32, FrameBufferError>)
        requires
            old(self).wf(),
        ensures
            final(self).wf(),
            final(self).storage_width() == old(self).storage_width(),
            final(self).storage_height() == old(self).storage_height(),
            ({
                let len = (width as int) * (height as int);
                len == 0 || width > old(self).storage_width() || height > old(self).storage_height()
                    || len > old(self).pixels().len()
            }) <==> result is Err,
            result is Err ==> *final(self) == *old(self) && result == Err::<u32, FrameBufferError>(
                FrameBufferError::InvalidDimensions,
            ),
            result matches Ok(id) ==> {
                let len = (width as int) * (height as int);
                &&& id == old(self).next_frame_id()
                &&& final(self).next_frame_id() == session_id_after(id, 1)
                &&& old(self).active() matches Some(frame) ==> frame.id != id
                &&& final(self).active() == Some(ActiveFrame { id, width, height, revision: 0 })
                &&& final(self).pixels().len() == old(self).pixels().len()
                &&& forall|i: int| 0 <= i < len ==> #[trigger] final(self).pixels()[i] == Rgb565Pixel(0)
                &&& forall|i: int|
                    len <= i < old(self).pixels().len() ==> #[trigger] final(self).pixels()[i]
                        == old(self).pixels()[i]
            },
    {
        let len = area(width, height);
        if len == 0 || width > self.width || height > self.height || len > self.pixels.len() {
            return Err(FrameBufferError::InvalidDimensions);
        }
        let mut i: usize = 0;
        while i < len
            invariant
                i <= len,
                len == (width as int) * (height as int),
                len <= self.pixels@.len(),
                self.pixels@.len() == old(self).pixels@.len(),
                self.width == old(self).width,
                self.height == old(self).height,
                self.next_id == old(self).next_id,
                self.active == old(self).active,
                forall|j: int| 0 <= j < i ==> #[trigger] self.pixels@[j] == Rgb565Pixel(0),
                forall|j: int| i <= j < self.pixels@.len() ==> #[trigger] self.pixels@[j] == old(self).pixels@[j],
            decreases len - i,
        {
            self.pixels.set(i, Rgb565Pixel(0));
            i = i + 1;
        }
        let id = self.next_id;
        self.next_id = if id == u32::MAX { 0 } else { id + 1 };
        self.active = Some(ActiveFrame { id, width, height, revision: 0 });
        Ok(id)
    }

    /// Sets pixel (`x`, `y`) of the active session; pixels outside the
    /// session, or with no session active, are ignored.
    pub fn set_pixel(&mut self, x: u16, y: u16, color: Rgb565Pixel)
        requires
            old(self).wf(),
        ensures
            final(self).wf(),
            final(self).active() == old(self).active(),
            final(self).next_frame_id() == old(self).next_frame_id(),
            final(self).storage_width() == old(self).storage_width(),
            final(self).storage_height() == old(self).storage_height(),
            final(self).pixels() == match old(self).active() {
                Some(frame) => if x < frame.width && y < frame.height {
                    old(self).pixels().update((y as int) * (frame.width as int) + (x as int), color)
                } else {
                    old(self).pixels()
                },
                None => old(self).pixels(),
            },
    {
        match self.active {
            Some(frame) => {
                if x >= frame.width || y >= frame.height {
                    return;
                }
                proof {
                    assert((y as int) * (frame.width as int) + (x as int) < (frame.width as int) * (
                    frame.height as int)) by (nonlinear_arith)
                        requires
                            x < frame.width,
                            y < frame.height,
                    ;
                    assert((y as int) * (frame.width as int) <= (frame.width as int) * (frame.height as int))
                        by (nonlinear_arith)
                        requires
                            y < frame.height,
                    ;
                }
                let storage_len = self.pixels.len();
                assert((frame.width as int) * (frame.height as int) <= storage_len);
                let row = (y as usize) * (frame.width as usize);
                let index = row + (x as usize);
                self.pixels.set(index, color);
            },
            None => {},
        }
    }

    /// Makes the pixel writes so far visible to the display side: the
    /// active frame's revision steps on (wrapping), which changes its token.
    pub fn present(&mut self)
        requires
            old(self).wf(),
        ensures
            final(self).wf(),
            final(self).pixels() == old(self).pixels(),
            final(self).next_frame_id() == old(self).next_frame_id(),
            final(self).storage_width() == old(self).storage_width(),
            final(self).storage_height() == old(self).storage_height(),
            final(self).active() == match old(self).active() {
                Some(frame) => Some(ActiveFrame { revision: frame.revision.wrapping_add(1), ..frame }),
                None => None,
            },
    {
        match self.active {
            Some(frame) => {
                self.active = Some(ActiveFrame { revision: frame.revision.wrapping_add(1), ..frame });
            },
            None => {},
        }
    }

    /// Ends the session with frame id `id`; a later session that replaced it
    /// stays active.
    pub fn end_session(&mut self, id: u32)
        requires
            old(self).wf(),
        ensures
            final(self).wf(),
            final(self).pixels() == old(self).pixels(),
            final(self).next_frame_id() == old(self).next_frame_id(),
            final(self).storage_width() == old(self).storage_width(),
            final(self).storage_height() == old(self).storage_height(),
            final(self).active() == match old(self).active() {
                Some(frame) => if frame.id == id {
                    None
                } else {
                    Some(frame)
                },
                None => None,
            },
    {
        match self.active {
            Some(frame) => {
                if frame.id == id {
                    self.active = None;
                }
            },
            None => {},
        }
    }

    /// The frame currently presented by the app, if a session is active.
    pub fn active_frame(&self) -> (frame: Option<PresentedFrame>)
        ensures
            frame == match self.active() {
                Some(f) => Some(PresentedFrame { frame: f }),
                None => None,
            },
    {
        match self.active {
            Some(f) => Some(PresentedFrame { frame: f }),
            None => None,
        }
    }

    /// The pixels of the presented frame `frame`, row by row.
    pub fn frame_pixels(&self, frame: &PresentedFrame) -> (pixels: &[Rgb565Pixel])
        requires
            self.wf(),
            self.active() == Some(frame.frame),
        ensures
            pixels@ == self.pixels().take((frame.frame.width as int) * (frame.frame.height as int)),
    {
        let len = frame.len();
        vstd::slice::slice_subrange(self.pixels.as_slice(), 0, len)
    }

    /// The whole storage, for the platform to draw into while no app has a
    /// session open; `None` while one is active.
    pub fn buffer_mut(&mut self) -> (buffer: Option<&mut Vec<Rgb565Pixel>>)
        requires
            old(self).wf(),
        ensures
            old(self).active() is Some <==> buffer is None,
            buffer is None ==> *final(self) == *old(self),
            buffer matches Some(b) ==> {
                &&& b@ == old(self).pixels()
                &&& final(self).active() is None
                &&& final(self).next_frame_id() == old(self).next_frame_id()
                &&& final(self).pixels() == final(b)@
                &&& final(self).storage_width() == old(self).storage_width()
                &&& final(self).storage_height() == old(self).storage_height()
            },
    {
        if self.active.is_some() {
            return None;
        }
        Some(&mut self.pixels)
    }
}

impl PresentedFrame {
    /// Width of the presented frame in pixels.
    pub fn width(&self) -> (width: u16)
        ensures
            width == self.frame.width,
    {
        self.frame.width
    }

    /// Height of the presented frame in pixels.
    pub fn height(&self) -> (height: u16)
        ensures
            height == self.frame.height,
    {
        self.frame.height
    }

    /// Number of pixels, `width * height`.
    pub fn len(&self) -> (len: usize)
        ensures
            len == (self.frame.width as int) * (self.frame.height as int),
    {
        area(self.frame.width, self.frame.height)
    }

    /// Whether the frame has no pixels.
    pub fn is_empty(&self) -> (empty: bool)
        ensures
            empty == ((self.frame.width as int) * (self.frame.height as int) == 0),
    {
        self.len() == 0
    }

    /// A token that changes whenever the app presents a new revision: the
    /// frame id in the upper 32 bits, the revision in the lower 32.
    pub fn token(&self) -> (token: u64)
        ensures
            token == frame_token(self.frame.id, self.frame.revision),
    {
        let id = self.frame.id as u64;
        let revision = self.frame.revision as u64;
        proof {
            assert((id << 32u64) | revision == id * 0x1_0000_0000 + revision) by (bit_vector)
                requires
                    id < 0x1_0000_0000,
                    revision < 0x1_0000_0000,
            ;
        }
        (id << 32u64) | revision
    }
}

/// Two tokens are equal exactly when they name the same revision of the
/// same frame, so the display side sees every new revision and every new
/// session.
pub proof fn lemma_token_identifies_revision(id1: u32, revision1: u32, id2: u32, revision2: u32)
    ensures
        frame_token(id1, revision1) == frame_token(id2, revision2) <==> id1 == id2 && revision1
            == revision2,
{
}

} // verus!
