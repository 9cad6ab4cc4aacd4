//! A bounded, time-aware queue of frames and the current frame that patches update.
use vstd::prelude::*;
use std::collections::VecDeque;
use crate::raster::{paste, paste_rect};
use crate::types::{change_views, holds_image, image_len, Frame, FrameView, PixelChange, PixelChangeView};

verus! {

/// Frames held at most; pushing onto a full queue drops the oldest.
pub const MAX_BUFFER_SIZE: usize = 3;

/// Age in milliseconds beyond which a queued frame is stale.
pub const FRAME_TIMEOUT_MS: u64 = 5000;

/// The frame is older than the timeout at time `now` (milliseconds since
/// the Unix epoch); a frame stamped after `now` is not stale.
pub open spec fn is_stale(f: FrameView, now: u64) -> bool {
    now > f.timestamp && now - f.timestamp > FRAME_TIMEOUT_MS
}

/// The queue after dropping the stale frames at its head.
pub open spec fn skip_stale(q: Seq<FrameView>, now: u64) -> Seq<FrameView>
    decreases q.len(),
{
    if q.len() > 0 && is_stale(q[0], now) {
        skip_stale(q.drop_first(), now)
    } else {
        q
    }
}

/// The queue after pushing `f`: the oldest frame leaves a full queue first.
pub open spec fn pushed(q: Seq<FrameView>, f: FrameView) -> Seq<FrameView> {
    if q.len() >= MAX_BUFFER_SIZE {
        q.drop_first().push(f)
    } else {
        q.push(f)
    }
}

/// The view of an optional frame.
pub open spec fn opt_view(r: Option<Frame>) -> Option<FrameView> {
    match r {
        Some(f) => Some(f@),
        None => None,
    }
}

/// `after` and `r` are what taking the next frame from `before` at time
/// `now` gives: the stale head of the queue is dropped, then the oldest
/// remaining frame is handed out and becomes the current frame.
pub open spec fn took_next(before: FrameBufferView, after: FrameBufferView, r: Option<FrameView>, now: u64) -> bool {
    let rest = skip_stale(before.frames, now);
    if rest.len() == 0 {
        &&& r is None
        &&& after == (FrameBufferView { frames: Seq::empty(), ..before })
    } else {
        &&& r == Some(rest[0])
        &&& after == (FrameBufferView { frames: rest.drop_first(), current: Some(rest[0]), ..before })
    }
}

/// The change lies inside the frame and carries three bytes per pixel.
pub open spec fn patch_fits(f: FrameView, c: PixelChangeView) -> bool {
    &&& c.x + c.width <= f.width
    &&& c.y + c.height <= f.height
    &&& c.data.len() == image_len(c.width as int, c.height as int)
}

/// The frame with the change's rectangle overwritten by its pixels.
pub open spec fn apply_patch(f: FrameView, c: PixelChangeView) -> FrameView {
    FrameView {
        data: paste(f.data, f.width as int, c.x as int, c.y as int, c.width as int, c.height as int, c.data),
        ..f
    }
}

/// The frame with the changes applied one after another.
pub open spec fn apply_patches(f: FrameView, cs: Seq<PixelChangeView>) -> FrameView
    decreases cs.len(),
{
    if cs.len() == 0 {
        f
    } else {
        apply_patch(apply_patches(f, cs.drop_last()), cs.last())
    }
}

/// Patches never change a frame's id, timestamp or size, and a well-formed
/// frame stays well-formed.
pub proof fn lemma_patches_keep_frame_shape(f: FrameView, cs: Seq<PixelChangeView>)
    ensures
        apply_patches(f, cs).id == f.id,
        apply_patches(f, cs).timestamp == f.timestamp,
        apply_patches(f, cs).width == f.width,
        apply_patches(f, cs).height == f.height,
        apply_patches(f, cs).data.len() == f.data.len(),
        f.wf() ==> apply_patches(f, cs).wf(),
    decreases cs.len(),
{
    if cs.len() > 0 {
        lemma_patches_keep_frame_shape(f, cs.drop_last());
    }
}

/// Errors of the frame buffer.
#[derive(Clone, Copy, Debug, PartialEq, Eq, Structural)]
pub enum BufferError {
    /// A change does not fit the current frame, or the frame's own buffer
    /// does not hold three bytes per pixel.
    PatchOutOfBounds,
}

/// Whether `c` fits frame `f`.
fn change_fits(f: &Frame, c: &PixelChange) -> (r: bool)
    ensures
        r == patch_fits(f@, c@),
{
    if c.x as u64 + c.width as u64 > f.width as u64 || c.y as u64 + c.height as u64 > f.height as u64 {
        return false;
    }
    holds_image(c.data.len(), c.width, c.height)
}

/// The state of a frame buffer.
pub struct FrameBufferView {
    pub frames: Seq<FrameView>,
    pub current: Option<FrameView>,
    pub width: u32,
    pub height: u32,
}

impl FrameBufferView {
    /// The queue holds at most [`MAX_BUFFER_SIZE`] frames.
    pub open spec fn wf(self) -> bool {
        self.frames.len() <= MAX_BUFFER_SIZE
    }
}

/// Queued frames waiting for the renderer, and the frame last handed out,
/// which incoming patches update.
pub struct FrameBuffer {
    frames: VecDeque<Frame>,
    current: Option<Frame>,
    width: u32,
    height: u32,
}

impl View for FrameBuffer {
    type V = FrameBufferView;

    closed spec fn view(&self) -> FrameBufferView {
        FrameBufferView {
            frames: self.frames@.map_values(|f: Frame| f@),
            current: match self.current {
                Some(f) => Some(f@),
                None => None,
            },
            width: self.width,
            height: self.height,
        }
    }
}

/// Relies on std::time::SystemTime::elapsed, taken from the Unix epoch: the
/// wall clock in milliseconds since the epoch, or 0 when the clock reads
/// earlier than the epoch. Nothing is known of the value.
#[verifier::external_body]
fn now_millis() -> (r: u64) {
    match std::time::UNIX_EPOCH.elapsed() {
        Ok(d) => d.as_millis() as u64,
        Err(_) => 0,
    }
}

/// Whether the oldest queued frame is stale at time `now`.
fn head_stale(frames: &VecDeque<Frame>, now: u64) -> (r: bool)
    ensures
        r == (frames@.len() > 0 && is_stale(frames@[0]@, now)),
{
    if frames.len() > 0 {
        let ts = frames[0].timestamp;
        now > ts && now - ts > FRAME_TIMEOUT_MS
    } else {
        false
    }
}

impl FrameBuffer {
    /// Number of queued frames.
    pub fn len(&self) -> (r: usize)
        ensures
            r == self@.frames.len(),
    {
        self.frames.len()
    }

    /// An empty buffer for a display of `width` by `height` pixels.
    pub fn new(width: u32, height: u32) -> (r: FrameBuffer)
        ensures
            r@ == (FrameBufferView { frames: Seq::empty(), current: None, width, height }),
            r@.wf(),
    {
        let r = FrameBuffer { frames: VecDeque::with_capacity(MAX_BUFFER_SIZE), current: None, width, height };
        assert(r@.frames =~= Seq::<FrameView>::empty());
        r
    }

    /// Appends `frame`, dropping the oldest queued frame when the queue is full.
    pub fn push_frame(&mut self, frame: Frame)
        ensures
            final(self)@ == (FrameBufferView { frames: pushed(old(self)@.frames, frame@), ..old(self)@ }),
            old(self)@.wf() ==> final(self)@.wf(),
    {
        let ghost old_frames = self.frames@;
        if self.frames.len() >= MAX_BUFFER_SIZE {
            self.frames.pop_front();
        }
        self.frames.push_back(frame);
        proof {
            let v = old_frames.map_values(|f: Frame| f@);
            if old_frames.len() >= MAX_BUFFER_SIZE {
                assert(self.frames@ =~= old_frames.drop_first().push(frame));
                assert(self.frames@.map_values(|f: Frame| f@) =~= v.drop_first().push(frame@));
            } else {
                assert(self.frames@ =~= old_frames.push(frame));
                assert(self.frames@.map_values(|f: Frame| f@) =~= v.push(frame@));
            }
        }
    }

    /// Drops the stale frames at the head of the queue as of `now`
    /// (milliseconds since the Unix epoch), then hands out the oldest
    /// remaining frame and makes it the current frame.
    pub fn next_frame_at(&mut self, now: u64) -> (r: Option<Frame>)
        ensures
            took_next(old(self)@, final(self)@, opt_view(r), now),
    {
        let ghost old_view = self@;
        while head_stale(&self.frames, now)
            invariant
                self.current == old(self).current,
                self.width == old(self).width,
                self.height == old(self).height,
                skip_stale(self.frames@.map_values(|f: Frame| f@), now) == skip_stale(old_view.frames, now),
            decreases self.frames@.len(),
        {
            let ghost before = self.frames@;
            self.frames.pop_front();
            assert(self.frames@.map_values(|f: Frame| f@) =~= before.map_values(|f: Frame| f@).drop_first());
        }
        let ghost rest = self.frames@.map_values(|f: Frame| f@);
        match self.frames.pop_front() {
            Some(f) => {
                assert(self.frames@.map_values(|f: Frame| f@) =~= rest.drop_first());
                self.current = Some(f.duplicate());
                Some(f)
            },
            None => {
                assert(self.frames@.map_values(|f: Frame| f@) =~= Seq::<FrameView>::empty());
                None
            },
        }
    }

    /// [`Self::next_frame_at`] at the time read from the wall clock.
    pub fn next_frame(&mut self) -> (r: Option<Frame>)
        ensures
            exists|now: u64| #[trigger] took_next(old(self)@, final(self)@, opt_view(r), now),
    {
        let now = now_millis();
        let r = self.next_frame_at(now);
        assert(took_next(old(self)@, self@, opt_view(r), now));
        r
    }

    /// A copy of the current frame, if any; the queue is left as it is.
    pub fn current_frame(&self) -> (r: Option<Frame>)
        ensures
            match r {
                Some(f) => self@.current == Some(f@),
                None => self@.current is None,
            },
    {
        match &self.current {
            Some(f) => Some(f.duplicate()),
            None => None,
        }
    }

    /// Copies each change's pixels into the current frame, in order. With no
    /// current frame nothing happens and `Ok(false)` comes back; when the
    /// current frame is malformed or some change does not fit it, nothing
    /// changes and the error comes back.
    pub fn apply_updates(&mut self, updates: Vec<PixelChange>) -> (r: Result<bool, BufferError>)
        ensures
            match old(self)@.current {
                None => r == Ok::<bool, BufferError>(false) && final(self)@ == old(self)@,
                Some(f) => if f.wf() && forall|i: int| 0 <= i < updates@.len() ==> patch_fits(f, #[trigger] updates@[i]@) {
                    &&& r == Ok::<bool, BufferError>(true)
                    &&& final(self)@ == (FrameBufferView {
                        current: Some(apply_patches(f, change_views(updates@))),
                        ..old(self)@
                    })
                } else {
                    &&& r == Err::<bool, BufferError>(BufferError::PatchOutOfBounds)
                    &&& final(self)@ == old(self)@
                },
            },
    {
        let mut frame = match self.current.take() {
            Some(f) => f,
            None => {
                return Ok(false);
            },
        };
        let ghost f0 = frame@;
        let mut ok = frame.is_well_formed();
        let mut i: usize = 0;
        while i < updates.len() && ok
            invariant
                i <= updates@.len(),
                ok ==> f0.wf() && forall|j: int| 0 <= j < i ==> patch_fits(f0, #[trigger] updates@[j]@),
                !ok ==> !(f0.wf() && forall|j: int| 0 <= j < updates@.len() ==> patch_fits(f0, #[trigger] updates@[j]@)),
                frame@ == f0,
            decreases updates@.len() - i,
        {
            if !change_fits(&frame, &updates[i]) {
                ok = false;
            }
            i = i + 1;
        }
        if !ok {
            self.current = Some(frame);
            return Err(BufferError::PatchOutOfBounds);
        }
        let ghost views = change_views(updates@);
        let mut k: usize = 0;
        while k < updates.len()
            invariant
                k <= updates@.len(),
                views == change_views(updates@),
                f0.wf(),
                forall|j: int| 0 <= j < updates@.len() ==> patch_fits(f0, #[trigger] updates@[j]@),
                frame@ == apply_patches(f0, views.subrange(0, k as int)),
                frame.width == f0.width,
                frame.height == f0.height,
                frame@.wf(),
            decreases updates@.len() - k,
        {
            let c = &updates[k];
            assert(patch_fits(f0, updates@[k as int]@));
            assert(c.width * c.height * 3 <= (c.y + c.height) * frame.width * 3) by (nonlinear_arith)
                requires c.x + c.width <= frame.width, c.y + c.height <= frame.height;
            assert((c.y + c.height) * frame.width * 3 <= frame.height * frame.width * 3) by (nonlinear_arith)
                requires c.y + c.height <= frame.height;
            paste_rect(&mut frame.data, frame.width as usize, c.x as usize, c.y as usize, c.width as usize, c.height as usize, &c.data);
            assert(views.subrange(0, k + 1).drop_last() =~= views.subrange(0, k as int));
            k = k + 1;
        }
        assert(views.subrange(0, updates@.len() as int) =~= views);
        self.current = Some(frame);
        Ok(true)
    }

    /// Empties the queue and forgets the current frame.
    pub fn clear(&mut self)
        ensures
            final(self)@ == (FrameBufferView { frames: Seq::empty(), current: None, ..old(self)@ }),
    {
        self.frames.clear();
        self.current = None;
        assert(self.frames@.map_values(|f: Frame| f@) =~= Seq::<FrameView>::empty());
    }
}

/// Pushing four frames onto an empty queue keeps the last three in order:
/// the first one is dropped.
pub proof fn lemma_push_drops_oldest(f1: FrameView, f2: FrameView, f3: FrameView, f4: FrameView)
    ensures
        pushed(pushed(pushed(pushed(Seq::empty(), f1), f2), f3), f4) == seq![f2, f3, f4],
{
    let q3 = pushed(pushed(pushed(Seq::empty(), f1), f2), f3);
    assert(q3 =~= seq![f1, f2, f3]);
    assert(q3.drop_first().push(f4) =~= seq![f2, f3, f4]);
}

/// A fresh frame at the head of the queue is the one taken next, and the
/// rest of the queue stays in order.
pub proof fn lemma_fresh_head_taken(before: FrameBufferView, after: FrameBufferView, r: Option<FrameView>, now: u64)
    requires
        took_next(before, after, r, now),
        before.frames.len() > 0,
        !is_stale(before.frames[0], now),
    ensures
        r == Some(before.frames[0]),
        after.frames == before.frames.drop_first(),
        after.current == r,
{
}

/// A stale frame at the head of the queue is skipped: taking the next frame
/// gives what it gives on the queue without that frame.
pub proof fn lemma_stale_head_skipped(before: FrameBufferView, after: FrameBufferView, r: Option<FrameView>, now: u64)
    requires
        before.frames.len() > 0,
        is_stale(before.frames[0], now),
    ensures
        took_next(before, after, r, now)
            <==> took_next(FrameBufferView { frames: before.frames.drop_first(), ..before }, after, r, now),
{
}

/// A frame left in the queue past the timeout is never handed out: when
/// every queued frame is stale, nothing is.
pub proof fn lemma_all_stale_gives_none(before: FrameBufferView, after: FrameBufferView, r: Option<FrameView>, now: u64)
    requires
        took_next(before, after, r, now),
        forall|i: int| 0 <= i < before.frames.len() ==> is_stale(#[trigger] before.frames[i], now),
    ensures
        r is None,
        after.frames.len() == 0,
{
    lemma_skip_all_stale(before.frames, now);
}

/// Skipping stale frames from a queue of stale frames leaves it empty.
proof fn lemma_skip_all_stale(q: Seq<FrameView>, now: u64)
    requires
        forall|i: int| 0 <= i < q.len() ==> is_stale(#[trigger] q[i], now),
    ensures
        skip_stale(q, now).len() == 0,
    decreases q.len(),
{
    if q.len() > 0 {
        assert(is_stale(q[0], now));
        assert forall|i: int| 0 <= i < q.drop_first().len() implies is_stale(#[trigger] q.drop_first()[i], now) by {
            assert(q.drop_first()[i] == q[i + 1]);
        }
        lemma_skip_all_stale(q.drop_first(), now);
    }
}

} // verus!
