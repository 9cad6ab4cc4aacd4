//! Block-based change detection between two frames.
use vstd::prelude::*;
use vstd::arithmetic::div_mod::lemma_fundamental_div_mod;
use crate::raster::{extract_rect, lemma_pixel_in_bounds, pixel_index, rect_bytes, rect_fits};
use crate::types::{change_views, image_len, Frame, PixelChange, PixelChangeView, QualityConfig};

verus! {

/// Two bytes differ by more than `threshold`.
pub open spec fn byte_changed(a: u8, b: u8, threshold: u8) -> bool {
    a - b > threshold || b - a > threshold
}

/// Two frames of one size compared with one block size and threshold.
pub struct FramePair {
    pub prev: Seq<u8>,
    pub cur: Seq<u8>,
    pub width: int,
    pub height: int,
    pub block: int,
    pub threshold: u8,
}

impl FramePair {
    /// Both buffers hold the frame's pixels and the block size is positive.
    pub open spec fn wf(self) -> bool {
        &&& 0 <= self.width <= u32::MAX
        &&& 0 <= self.height <= u32::MAX
        &&& 0 < self.block
        &&& self.prev.len() == image_len(self.width, self.height)
        &&& self.cur.len() == image_len(self.width, self.height)
    }

    /// Some channel of pixel (`x`, `y`) moved by more than the threshold.
    pub open spec fn pixel_changed(self, x: int, y: int) -> bool {
        let i = pixel_index(self.width, x, y);
        byte_changed(self.prev[i], self.cur[i], self.threshold)
            || byte_changed(self.prev[i + 1], self.cur[i + 1], self.threshold)
            || byte_changed(self.prev[i + 2], self.cur[i + 2], self.threshold)
    }

    /// Every byte of the two frames is within the threshold of its counterpart.
    pub open spec fn within_threshold(self) -> bool {
        forall|i: int| 0 <= i < self.prev.len() ==> !byte_changed(#[trigger] self.prev[i], self.cur[i], self.threshold)
    }

    /// Width of the block whose left edge is at `bx` (clipped at the right edge).
    pub open spec fn block_width(self, bx: int) -> int {
        if self.block <= self.width - bx { self.block } else { self.width - bx }
    }

    /// Height of the block whose top edge is at `by` (clipped at the bottom edge).
    pub open spec fn block_height(self, by: int) -> int {
        if self.block <= self.height - by { self.block } else { self.height - by }
    }

    /// Pixel (`x`, `y`) lies in the `bw` by `bh` region at (`bx`, `by`) and changed.
    pub open spec fn changed_in(self, bx: int, by: int, bw: int, bh: int, x: int, y: int) -> bool {
        &&& bx <= x < bx + bw
        &&& by <= y < by + bh
        &&& self.pixel_changed(x, y)
    }

    /// Some pixel of the region changed.
    pub open spec fn region_dirty(self, bx: int, by: int, bw: int, bh: int) -> bool {
        exists|x: int, y: int| self.changed_in(bx, by, bw, bh, x, y)
    }

    /// `r` = (x0, y0, x1, y1) is the tight bounding box, ends exclusive, of
    /// the changed pixels of the region.
    pub open spec fn tight_bounds(self, bx: int, by: int, bw: int, bh: int, r: (int, int, int, int)) -> bool {
        &&& forall|x: int, y: int| #[trigger] self.changed_in(bx, by, bw, bh, x, y)
            ==> r.0 <= x < r.2 && r.1 <= y < r.3
        &&& exists|y: int| #[trigger] self.changed_in(bx, by, bw, bh, r.0, y)
        &&& exists|y: int| #[trigger] self.changed_in(bx, by, bw, bh, r.2 - 1, y)
        &&& exists|x: int| #[trigger] self.changed_in(bx, by, bw, bh, x, r.1)
        &&& exists|x: int| #[trigger] self.changed_in(bx, by, bw, bh, x, r.3 - 1)
    }

    /// The change reported for the block at (`bx`, `by`): the bounding box of
    /// its changed pixels with the current frame's bytes there, if any changed.
    pub open spec fn block_change(self, bx: int, by: int) -> Option<PixelChangeView> {
        let bw = self.block_width(bx);
        let bh = self.block_height(by);
        if self.region_dirty(bx, by, bw, bh) {
            let r = choose|r: (int, int, int, int)| self.tight_bounds(bx, by, bw, bh, r);
            Some(PixelChangeView {
                x: r.0 as u32,
                y: r.1 as u32,
                width: (r.2 - r.0) as u32,
                height: (r.3 - r.1) as u32,
                data: rect_bytes(self.cur, self.width, r.0, r.1, r.2 - r.0, r.3 - r.1),
            })
        } else {
            None
        }
    }

    /// Changes of the blocks of the block row at `by`, from column `bx` rightwards.
    pub open spec fn row_changes(self, by: int, bx: int) -> Seq<PixelChangeView>
        decreases self.width - bx,
    {
        if self.block <= 0 || bx >= self.width {
            Seq::empty()
        } else {
            let rest = if bx + self.block < self.width {
                self.row_changes(by, bx + self.block)
            } else {
                Seq::empty()
            };
            match self.block_change(bx, by) {
                Some(c) => seq![c] + rest,
                None => rest,
            }
        }
    }

    /// Changes of the block rows from row `by` downwards, in scan order.
    pub open spec fn changes_from(self, by: int) -> Seq<PixelChangeView>
        decreases self.height - by,
    {
        if self.block <= 0 || by >= self.height {
            Seq::empty()
        } else if by + self.block < self.height {
            self.row_changes(by, 0) + self.changes_from(by + self.block)
        } else {
            self.row_changes(by, 0)
        }
    }

    /// All changes, in row-major block order.
    pub open spec fn changes(self) -> Seq<PixelChangeView> {
        self.changes_from(0)
    }
}

/// Two tight bounding boxes of one region are the same box.
pub proof fn lemma_tight_bounds_unique(
    p: FramePair,
    bx: int,
    by: int,
    bw: int,
    bh: int,
    r1: (int, int, int, int),
    r2: (int, int, int, int),
)
    requires
        p.tight_bounds(bx, by, bw, bh, r1),
        p.tight_bounds(bx, by, bw, bh, r2),
    ensures
        r1 == r2,
{
    let a = choose|y: int| #[trigger] p.changed_in(bx, by, bw, bh, r2.0, y);
    let b = choose|y: int| #[trigger] p.changed_in(bx, by, bw, bh, r2.2 - 1, y);
    let c = choose|x: int| #[trigger] p.changed_in(bx, by, bw, bh, x, r2.1);
    let d = choose|x: int| #[trigger] p.changed_in(bx, by, bw, bh, x, r2.3 - 1);
    let e = choose|y: int| #[trigger] p.changed_in(bx, by, bw, bh, r1.0, y);
    let f = choose|y: int| #[trigger] p.changed_in(bx, by, bw, bh, r1.2 - 1, y);
    let g = choose|x: int| #[trigger] p.changed_in(bx, by, bw, bh, x, r1.1);
    let h = choose|x: int| #[trigger] p.changed_in(bx, by, bw, bh, x, r1.3 - 1);
    assert(p.changed_in(bx, by, bw, bh, r2.0, a));
    assert(p.changed_in(bx, by, bw, bh, r2.2 - 1, b));
    assert(p.changed_in(bx, by, bw, bh, c, r2.1));
    assert(p.changed_in(bx, by, bw, bh, d, r2.3 - 1));
    assert(p.changed_in(bx, by, bw, bh, r1.0, e));
    assert(p.changed_in(bx, by, bw, bh, r1.2 - 1, f));
    assert(p.changed_in(bx, by, bw, bh, g, r1.1));
    assert(p.changed_in(bx, by, bw, bh, h, r1.3 - 1));
}

/// No pixel of the `w` by `h` region at (`x`, `y`) changed.
pub open spec fn region_clean(p: FramePair, x: int, y: int, w: int, h: int) -> bool {
    forall|px: int, py: int| x <= px < x + w && y <= py < y + h ==> !#[trigger] p.pixel_changed(px, py)
}

/// A block row reports no change exactly when none of its pixels changed.
pub proof fn lemma_row_changes_empty(p: FramePair, by: int, bx: int)
    requires
        p.wf(),
        0 <= by < p.height,
        0 <= bx <= p.width,
    ensures
        p.row_changes(by, bx).len() == 0 <==> region_clean(p, bx, by, p.width - bx, p.block_height(by)),
    decreases p.width - bx,
{
    let bh = p.block_height(by);
    if bx < p.width {
        let bw = p.block_width(bx);
        let next = bx + p.block;
        if next < p.width {
            lemma_row_changes_empty(p, by, next);
        }
        let rest = if next < p.width { p.row_changes(by, next) } else { Seq::<PixelChangeView>::empty() };
        assert(p.row_changes(by, bx) == match p.block_change(bx, by) {
            Some(c) => seq![c] + rest,
            None => rest,
        });
        if region_clean(p, bx, by, p.width - bx, bh) {
            assert(!p.region_dirty(bx, by, bw, bh));
        }
        if p.row_changes(by, bx).len() == 0 {
            assert(!p.region_dirty(bx, by, bw, bh));
            assert forall|px: int, py: int| bx <= px < bx + (p.width - bx) && by <= py < by + bh
                implies !#[trigger] p.pixel_changed(px, py) by {
                if px < bx + bw {
                    assert(!p.changed_in(bx, by, bw, bh, px, py));
                }
            }
        }
    }
}

/// From block row `by` down, no change is reported exactly when no pixel
/// in those rows changed.
pub proof fn lemma_changes_from_empty(p: FramePair, by: int)
    requires
        p.wf(),
        0 <= by <= p.height,
    ensures
        p.changes_from(by).len() == 0 <==> region_clean(p, 0, by, p.width, p.height - by),
    decreases p.height - by,
{
    if by < p.height {
        let bh = p.block_height(by);
        let next = by + p.block;
        lemma_row_changes_empty(p, by, 0);
        if next < p.height {
            lemma_changes_from_empty(p, next);
        }
        if p.changes_from(by).len() == 0 {
            assert(p.row_changes(by, 0).len() == 0);
            assert forall|px: int, py: int| 0 <= px < p.width && by <= py < by + (p.height - by)
                implies !#[trigger] p.pixel_changed(px, py) by {
                if py >= by + bh {
                    assert(next < p.height);
                }
            }
        }
    }
}

/// No pixel of the frame changed exactly when every byte is within the threshold.
pub proof fn lemma_clean_iff_within_threshold(p: FramePair)
    requires
        p.wf(),
    ensures
        region_clean(p, 0, 0, p.width, p.height) <==> p.within_threshold(),
{
    if p.within_threshold() {
        assert forall|px: int, py: int| 0 <= px < p.width && 0 <= py < p.height
            implies !#[trigger] p.pixel_changed(px, py) by {
            lemma_pixel_in_bounds(p.width, p.height, px, py);
            let i = pixel_index(p.width, px, py);
            assert(!byte_changed(p.prev[i], p.cur[i], p.threshold));
            assert(!byte_changed(p.prev[i + 1], p.cur[i + 1], p.threshold));
            assert(!byte_changed(p.prev[i + 2], p.cur[i + 2], p.threshold));
        }
    }
    if region_clean(p, 0, 0, p.width, p.height) {
        assert forall|i: int| 0 <= i < p.prev.len()
            implies !byte_changed(#[trigger] p.prev[i], p.cur[i], p.threshold) by {
            let q = i / 3;
            let ch = i % 3;
            lemma_fundamental_div_mod(i, 3);
            assert(p.width > 0) by (nonlinear_arith)
                requires p.prev.len() == p.width * p.height * 3, 0 <= i < p.prev.len(), 0 <= p.width, 0 <= p.height;
            let x = q % p.width;
            let y = q / p.width;
            lemma_fundamental_div_mod(q, p.width);
            assert(0 <= q < p.width * p.height) by (nonlinear_arith)
                requires i == 3 * q + ch, 0 <= ch < 3, 0 <= i < p.width * p.height * 3;
            assert(0 <= y < p.height) by (nonlinear_arith)
                requires q == p.width * y + x, 0 <= x < p.width, 0 <= q < p.width * p.height;
            assert(i == pixel_index(p.width, x, y) + ch) by (nonlinear_arith)
                requires i == 3 * q + ch, q == p.width * y + x;
            assert(!p.pixel_changed(x, y));
        }
    }
}

/// Detection reports nothing exactly when the frames agree within the threshold.
pub proof fn lemma_no_changes_iff_within_threshold(p: FramePair)
    requires
        p.wf(),
    ensures
        p.changes().len() == 0 <==> p.within_threshold(),
{
    lemma_changes_from_empty(p, 0);
    lemma_clean_iff_within_threshold(p);
}

/// Errors of change detection.
#[derive(Clone, Copy, Debug, PartialEq, Eq, Structural)]
pub enum DetectError {
    /// The two frames differ in width or height.
    DimensionMismatch,
    /// A frame's pixel buffer does not hold three bytes per pixel.
    MalformedFrame,
}

/// The settings of a detector.
pub struct DetectorView {
    pub config: QualityConfig,
    pub threshold: u8,
    pub block_size: u32,
}

/// Finds the rectangles that changed between two frames, block by block.
pub struct PCCDetector {
    config: QualityConfig,
    threshold: u8,
    block_size: u32,
}

impl View for PCCDetector {
    type V = DetectorView;

    closed spec fn view(&self) -> DetectorView {
        DetectorView { config: self.config, threshold: self.threshold, block_size: self.block_size }
    }
}

impl Default for PCCDetector {
    /// Default quality settings, a threshold of 5 and blocks of 32 pixels.
    fn default() -> (r: PCCDetector)
        ensures
            r@ == (DetectorView { config: QualityConfig::default_spec(), threshold: 5, block_size: 32 }),
    {
        PCCDetector { config: QualityConfig::default(), threshold: 5, block_size: 32 }
    }
}

/// Whether `a` and `b` differ by more than `threshold`.
fn bytes_differ(a: u8, b: u8, threshold: u8) -> (r: bool)
    ensures
        r == byte_changed(a, b, threshold),
{
    if a >= b {
        a - b > threshold
    } else {
        b - a > threshold
    }
}

/// Whether pixel (`x`, `y`) changed between the two frames of `p`.
fn pixel_differs(prev: &Vec<u8>, cur: &Vec<u8>, stride: usize, x: usize, y: usize, threshold: u8, Ghost(p): Ghost<FramePair>) -> (r: bool)
    requires
        p.wf(),
        p.prev == prev@,
        p.cur == cur@,
        p.width == stride,
        p.threshold == threshold,
        x < p.width,
        y < p.height,
    ensures
        r == p.pixel_changed(x as int, y as int),
{
    let len = prev.len();
    proof {
        lemma_pixel_in_bounds(p.width, p.height, x as int, y as int);
    }
    let i: usize = (y * stride + x) * 3;
    bytes_differ(prev[i], cur[i], threshold) || bytes_differ(prev[i + 1], cur[i + 1], threshold)
        || bytes_differ(prev[i + 2], cur[i + 2], threshold)
}

/// The region lies inside the frame.
pub open spec fn region_in_frame(p: FramePair, bx: int, by: int, bw: int, bh: int) -> bool {
    0 <= bx && 0 <= by && 0 <= bw && 0 <= bh && bx + bw <= p.width && by + bh <= p.height
}

impl PCCDetector {
    #[verifier::type_invariant]
    spec fn inv(&self) -> bool {
        self.block_size > 0
    }

    /// A detector with the given settings; `block_size` is in pixels.
    pub fn new(config: QualityConfig, threshold: u8, block_size: u32) -> (r: PCCDetector)
        requires
            block_size > 0,
        ensures
            r@ == (DetectorView { config, threshold, block_size }),
    {
        PCCDetector { config, threshold, block_size }
    }

    /// The settings in use.
    pub fn threshold(&self) -> (r: u8)
        ensures
            r == self@.threshold,
    {
        self.threshold
    }

    /// The block size in pixels, always positive.
    pub fn block_size(&self) -> (r: u32)
        ensures
            r == self@.block_size,
            r > 0,
    {
        proof {
            use_type_invariant(self);
        }
        self.block_size
    }

    /// The stored quality settings.
    pub fn config(&self) -> (r: QualityConfig)
        ensures
            r == self@.config,
    {
        self.config
    }

    /// Replaces the quality settings; the threshold and block size stay.
    pub fn configure(&mut self, config: QualityConfig)
        ensures
            final(self)@ == (DetectorView { config, ..old(self)@ }),
    {
        proof {
            use_type_invariant(&*self);
        }
        self.config = config;
    }

    /// Whether any pixel of the region changed.
    fn compare_blocks(
        &self,
        prev: &Vec<u8>,
        cur: &Vec<u8>,
        stride: usize,
        bx: usize,
        by: usize,
        bw: usize,
        bh: usize,
        Ghost(p): Ghost<FramePair>,
    ) -> (r: bool)
        requires
            p.wf(),
            p.prev == prev@,
            p.cur == cur@,
            p.width == stride,
            p.threshold == self@.threshold,
            region_in_frame(p, bx as int, by as int, bw as int, bh as int),
        ensures
            r == p.region_dirty(bx as int, by as int, bw as int, bh as int),
    {
        let mut y: usize = by;
        while y < by + bh
            invariant
                p.wf(),
                p.prev == prev@,
                p.cur == cur@,
                p.width == stride,
                p.threshold == self@.threshold,
                region_in_frame(p, bx as int, by as int, bw as int, bh as int),
                by <= y <= by + bh,
                forall|px: int, py: int| py < y ==> !#[trigger] p.changed_in(bx as int, by as int, bw as int, bh as int, px, py),
            decreases by + bh - y,
        {
            let mut x: usize = bx;
            while x < bx + bw
                invariant
                    p.wf(),
                    p.prev == prev@,
                    p.cur == cur@,
                    p.width == stride,
                    p.threshold == self@.threshold,
                    region_in_frame(p, bx as int, by as int, bw as int, bh as int),
                    by <= y < by + bh,
                    bx <= x <= bx + bw,
                    forall|px: int, py: int| py < y ==> !#[trigger] p.changed_in(bx as int, by as int, bw as int, bh as int, px, py),
                    forall|px: int| px < x ==> !#[trigger] p.changed_in(bx as int, by as int, bw as int, bh as int, px, y as int),
                decreases bx + bw - x,
            {
                if pixel_differs(prev, cur, stride, x, y, self.threshold, Ghost(p)) {
                    assert(p.changed_in(bx as int, by as int, bw as int, bh as int, x as int, y as int));
                    return true;
                }
                x = x + 1;
            }
            y = y + 1;
        }
        assert forall|px: int, py: int| !p.changed_in(bx as int, by as int, bw as int, bh as int, px, py) by {
            if py < y {
            }
        }
        false
    }

    /// The tight bounding box (x0, y0, x1, y1), ends exclusive, of the changed
    /// pixels of the region, if any changed.
    fn find_change_bounds(
        &self,
        prev: &Vec<u8>,
        cur: &Vec<u8>,
        stride: usize,
        bx: usize,
        by: usize,
        bw: usize,
        bh: usize,
        Ghost(p): Ghost<FramePair>,
    ) -> (r: Option<(usize, usize, usize, usize)>)
        requires
            p.wf(),
            p.prev == prev@,
            p.cur == cur@,
            p.width == stride,
            p.threshold == self@.threshold,
            region_in_frame(p, bx as int, by as int, bw as int, bh as int),
        ensures
            r is None <==> !p.region_dirty(bx as int, by as int, bw as int, bh as int),
            r matches Some(b) ==> p.tight_bounds(bx as int, by as int, bw as int, bh as int, (b.0 as int, b.1 as int, b.2 as int, b.3 as int)),
    {
        let ghost (ibx, iby, ibw, ibh) = (bx as int, by as int, bw as int, bh as int);
        let mut min_x: usize = bx + bw;
        let mut min_y: usize = by + bh;
        let mut max_x: usize = 0;
        let mut max_y: usize = 0;
        let mut found = false;
        // pixels that witness each edge of the box
        let ghost mut wx0: (int, int) = (0, 0);
        let ghost mut wx1: (int, int) = (0, 0);
        let ghost mut wy0: (int, int) = (0, 0);
        let ghost mut wy1: (int, int) = (0, 0);
        let mut y: usize = by;
        while y < by + bh
            invariant
                p.wf(),
                p.prev == prev@,
                p.cur == cur@,
                p.width == stride,
                p.threshold == self@.threshold,
                region_in_frame(p, ibx, iby, ibw, ibh),
                ibx == bx, iby == by, ibw == bw, ibh == bh,
                by <= y <= by + bh,
                found <==> exists|px: int, py: int| py < y && #[trigger] p.changed_in(ibx, iby, ibw, ibh, px, py),
                forall|px: int, py: int| py < y && #[trigger] p.changed_in(ibx, iby, ibw, ibh, px, py)
                    ==> min_x <= px < max_x && min_y <= py < max_y,
                found ==> {
                    &&& p.changed_in(ibx, iby, ibw, ibh, wx0.0, wx0.1) && wx0.0 == min_x
                    &&& p.changed_in(ibx, iby, ibw, ibh, wx1.0, wx1.1) && wx1.0 == max_x - 1
                    &&& p.changed_in(ibx, iby, ibw, ibh, wy0.0, wy0.1) && wy0.1 == min_y
                    &&& p.changed_in(ibx, iby, ibw, ibh, wy1.0, wy1.1) && wy1.1 == max_y - 1
                },
            decreases by + bh - y,
        {
            let mut x: usize = bx;
            while x < bx + bw
                invariant
                    p.wf(),
                    p.prev == prev@,
                    p.cur == cur@,
                    p.width == stride,
                    p.threshold == self@.threshold,
                    region_in_frame(p, ibx, iby, ibw, ibh),
                    ibx == bx, iby == by, ibw == bw, ibh == bh,
                    by <= y < by + bh,
                    bx <= x <= bx + bw,
                    found <==> exists|px: int, py: int|
                        (py < y || (py == y && px < x)) && #[trigger] p.changed_in(ibx, iby, ibw, ibh, px, py),
                    forall|px: int, py: int| (py < y || (py == y && px < x)) && #[trigger] p.changed_in(ibx, iby, ibw, ibh, px, py)
                        ==> min_x <= px < max_x && min_y <= py < max_y,
                    found ==> {
                        &&& p.changed_in(ibx, iby, ibw, ibh, wx0.0, wx0.1) && wx0.0 == min_x
                        &&& p.changed_in(ibx, iby, ibw, ibh, wx1.0, wx1.1) && wx1.0 == max_x - 1
                        &&& p.changed_in(ibx, iby, ibw, ibh, wy0.0, wy0.1) && wy0.1 == min_y
                        &&& p.changed_in(ibx, iby, ibw, ibh, wy1.0, wy1.1) && wy1.1 == max_y - 1
                    },
                decreases bx + bw - x,
            {
                if pixel_differs(prev, cur, stride, x, y, self.threshold, Ghost(p)) {
                    assert(p.changed_in(ibx, iby, ibw, ibh, x as int, y as int));
                    if !found || x < min_x {
                        min_x = x;
                        proof { wx0 = (x as int, y as int); }
                    }
                    if !found || x + 1 > max_x {
                        max_x = x + 1;
                        proof { wx1 = (x as int, y as int); }
                    }
                    if !found || y < min_y {
                        min_y = y;
                        proof { wy0 = (x as int, y as int); }
                    }
                    if !found || y + 1 > max_y {
                        max_y = y + 1;
                        proof { wy1 = (x as int, y as int); }
                    }
                    found = true;
                }
                x = x + 1;
            }
            y = y + 1;
        }
        if found {
            let r = (min_x, min_y, max_x, max_y);
            assert(exists|py: int| #[trigger] p.changed_in(ibx, iby, ibw, ibh, min_x as int, py));
            assert(exists|py: int| #[trigger] p.changed_in(ibx, iby, ibw, ibh, max_x - 1, py));
            assert(exists|px: int| #[trigger] p.changed_in(ibx, iby, ibw, ibh, px, min_y as int));
            assert(exists|px: int| #[trigger] p.changed_in(ibx, iby, ibw, ibh, px, max_y - 1));
            assert forall|px: int, py: int| #[trigger] p.changed_in(ibx, iby, ibw, ibh, px, py)
                implies min_x <= px < max_x && min_y <= py < max_y by {
                assert(py < y);
            }
            Some(r)
        } else {
            assert forall|px: int, py: int| !p.changed_in(ibx, iby, ibw, ibh, px, py) by {
                if p.changed_in(ibx, iby, ibw, ibh, px, py) {
                    assert(py < y);
                }
            }
            None
        }
    }

    /// The rectangles that changed from `previous` to `current`, one per
    /// dirty block in row-major block order, each the tight bounding box of
    /// the block's changed pixels with the current frame's bytes there.
    pub fn detect_changes(&self, previous: &Frame, current: &Frame) -> (r: Result<Vec<PixelChange>, DetectError>)
        ensures
            (r matches Err(DetectError::DimensionMismatch))
                <==> (previous.width != current.width || previous.height != current.height),
            (r matches Err(DetectError::MalformedFrame)) <==> (previous.width == current.width
                && previous.height == current.height && !(previous.wf() && current.wf())),
            r matches Ok(v) ==> {
                &&& change_views(v@) == frame_pair(self@, previous, current).changes()
                &&& (v@.len() == 0 <==> frame_pair(self@, previous, current).within_threshold())
                &&& forall|i: int| 0 <= i < v@.len() ==> {
                    &&& 0 < #[trigger] v@[i].width && 0 < v@[i].height
                    &&& v@[i].x + v@[i].width <= previous.width
                    &&& v@[i].y + v@[i].height <= previous.height
                    &&& v@[i]@.wf()
                }
            },
    {
        proof {
            use_type_invariant(self);
        }
        if previous.width != current.width || previous.height != current.height {
            return Err(DetectError::DimensionMismatch);
        }
        if !previous.is_well_formed() || !current.is_well_formed() {
            return Err(DetectError::MalformedFrame);
        }
        let ghost p = frame_pair(self@, previous, current);
        let w = previous.width as usize;
        let h = previous.height as usize;
        let bs = self.block_size as usize;
        let mut changes: Vec<PixelChange> = Vec::new();
        let mut y: usize = 0;
        while y < h
            invariant
                p == frame_pair(self@, previous, current),
                p.wf(),
                w == p.width,
                h == p.height,
                bs == p.block,
                y <= h,
                y < h || p.changes_from(y as int) == Seq::<PixelChangeView>::empty(),
                change_views(changes@) + p.changes_from(y as int) == p.changes(),
                forall|i: int| 0 <= i < changes@.len() ==> {
                    &&& 0 < #[trigger] changes@[i].width && 0 < changes@[i].height
                    &&& changes@[i].x + changes@[i].width <= w
                    &&& changes@[i].y + changes@[i].height <= h
                    &&& changes@[i]@.wf()
                },
            decreases h - y,
        {
            let bh: usize = if bs <= h - y { bs } else { h - y };
            let next_y: usize = if bs < h - y { y + bs } else { h };
            assert(p.changes_from(y as int) == p.row_changes(y as int, 0) + p.changes_from(next_y as int));
            let mut x: usize = 0;
            while x < w
                invariant
                    p == frame_pair(self@, previous, current),
                    p.wf(),
                    w == p.width,
                    h == p.height,
                    bs == p.block,
                    y < h,
                    bh == p.block_height(y as int),
                    next_y <= h,
                    next_y < h || p.changes_from(next_y as int) == Seq::<PixelChangeView>::empty(),
                    x <= w,
                    x < w || p.row_changes(y as int, x as int) == Seq::<PixelChangeView>::empty(),
                    change_views(changes@) + p.row_changes(y as int, x as int) + p.changes_from(next_y as int) == p.changes(),
                    forall|i: int| 0 <= i < changes@.len() ==> {
                        &&& 0 < #[trigger] changes@[i].width && 0 < changes@[i].height
                        &&& changes@[i].x + changes@[i].width <= w
                        &&& changes@[i].y + changes@[i].height <= h
                        &&& changes@[i]@.wf()
                    },
                decreases w - x,
            {
                let bw: usize = if bs <= w - x { bs } else { w - x };
                let next_x: usize = if bs < w - x { x + bs } else { w };
                let ghost before = change_views(changes@);
                let ghost rest = p.row_changes(y as int, next_x as int);
                assert(p.row_changes(y as int, x as int) == match p.block_change(x as int, y as int) {
                    Some(c) => seq![c] + rest,
                    None => rest,
                });
                let mut bounds: Option<(usize, usize, usize, usize)> = None;
                if self.compare_blocks(&previous.data, &current.data, w, x, y, bw, bh, Ghost(p)) {
                    bounds = self.find_change_bounds(&previous.data, &current.data, w, x, y, bw, bh, Ghost(p));
                }
                match bounds {
                    Some((x0, y0, x1, y1)) => {
                        let ghost r = (x0 as int, y0 as int, x1 as int, y1 as int);
                        proof {
                            let c = choose|c: (int, int, int, int)| p.tight_bounds(x as int, y as int, bw as int, bh as int, c);
                            lemma_tight_bounds_unique(p, x as int, y as int, bw as int, bh as int, c, r);
                            let wy = choose|wy: int| #[trigger] p.changed_in(x as int, y as int, bw as int, bh as int, x0 as int, wy);
                            let wx = choose|wx: int| #[trigger] p.changed_in(x as int, y as int, bw as int, bh as int, wx, y0 as int);
                            assert(p.changed_in(x as int, y as int, bw as int, bh as int, x0 as int, wy));
                            assert(p.changed_in(x as int, y as int, bw as int, bh as int, wx, y0 as int));
                            assert(((y1 as int) * w) * 3 <= h * w * 3) by (nonlinear_arith)
                                requires y1 <= h, 0 <= w;
                        }
                        let data = extract_rect(&current.data, w, x0, y0, x1 - x0, y1 - y0);
                        let change = PixelChange {
                            x: x0 as u32,
                            y: y0 as u32,
                            width: (x1 - x0) as u32,
                            height: (y1 - y0) as u32,
                            data,
                        };
                        assert(p.block_change(x as int, y as int) == Some(change@));
                        changes.push(change);
                        assert(change_views(changes@) =~= before.push(change@));
                        assert(before + p.row_changes(y as int, x as int) =~= before.push(change@) + rest);
                    },
                    None => {
                        assert(p.block_change(x as int, y as int) is None);
                    },
                }
                x = next_x;
            }
            assert(change_views(changes@) + p.changes_from(next_y as int) =~= change_views(changes@)
                + p.row_changes(y as int, x as int) + p.changes_from(next_y as int));
            y = next_y;
        }
        assert(change_views(changes@) =~= p.changes());
        proof {
            lemma_no_changes_iff_within_threshold(p);
        }
        Ok(changes)
    }
}

/// The comparison of two frames under a detector's settings.
pub open spec fn frame_pair(d: DetectorView, previous: &Frame, current: &Frame) -> FramePair {
    FramePair {
        prev: previous.data@,
        cur: current.data@,
        width: previous.width as int,
        height: previous.height as int,
        block: d.block_size as int,
        threshold: d.threshold,
    }
}

} // verus!