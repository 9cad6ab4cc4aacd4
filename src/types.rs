//! The data model shared by the detector, the wire protocol and the buffer.
use vstd::prelude::*;

verus! {

/// A captured or reassembled frame.
///
/// `timestamp` is the capture time in milliseconds since the Unix epoch.
#[derive(Clone, Debug)]
pub struct Frame {
    pub id: u64,
    pub timestamp: u64,
    pub width: u32,
    pub height: u32,
    pub data: Vec<u8>,
}

/// The mathematical value of a [`Frame`].
pub struct FrameView {
    pub id: u64,
    pub timestamp: u64,
    pub width: u32,
    pub height: u32,
    pub data: Seq<u8>,
}

impl View for Frame {
    type V = FrameView;

    open spec fn view(&self) -> FrameView {
        FrameView {
            id: self.id,
            timestamp: self.timestamp,
            width: self.width,
            height: self.height,
            data: self.data@,
        }
    }
}

impl FrameView {
    /// The pixel buffer holds exactly three bytes for each pixel.
    pub open spec fn wf(self) -> bool {
        self.data.len() == image_len(self.width as int, self.height as int)
    }
}

/// Number of bytes that an RGB image of `width` by `height` pixels occupies.
pub open spec fn image_len(width: int, height: int) -> int {
    width * height * 3
}

impl Frame {
    /// The pixel buffer holds exactly three bytes for each pixel.
    pub open spec fn wf(&self) -> bool {
        self.data@.len() == image_len(self.width as int, self.height as int)
    }

    /// Whether the pixel buffer holds exactly three bytes for each pixel.
    pub fn is_well_formed(&self) -> (r: bool)
        ensures
            r == self.wf(),
    {
        holds_image(self.data.len(), self.width, self.height)
    }

    /// A copy of this frame with the same fields.
    pub fn duplicate(&self) -> (r: Frame)
        ensures
            r@ == self@,
    {
        Frame {
            id: self.id,
            timestamp: self.timestamp,
            width: self.width,
            height: self.height,
            data: copy_bytes(&self.data),
        }
    }
}

/// Whether `len` bytes hold exactly an RGB image of `width` by `height` pixels.
pub fn holds_image(len: usize, width: u32, height: u32) -> (r: bool)
    ensures
        r == (len == image_len(width as int, height as int)),
{
    assert((width as u64) * (height as u64) <= u64::MAX) by (nonlinear_arith)
        requires width <= u32::MAX, height <= u32::MAX;
    let pixels: u64 = (width as u64) * (height as u64);
    match pixels.checked_mul(3) {
        Some(n) => len as u64 == n,
        None => false,
    }
}

/// A copy of a byte vector.
pub fn copy_bytes(v: &Vec<u8>) -> (r: Vec<u8>)
    ensures
        r@ == v@,
{
    let r = v.clone();
    assert(r@ =~= v@);
    r
}

/// A dirty rectangle: pixels of `width` by `height` at (`x`, `y`) in the frame,
/// with their RGB bytes row by row.
#[derive(Clone, Debug)]
pub struct PixelChange {
    pub x: u32,
    pub y: u32,
    pub width: u32,
    pub height: u32,
    pub data: Vec<u8>,
}

/// The mathematical value of a [`PixelChange`].
pub struct PixelChangeView {
    pub x: u32,
    pub y: u32,
    pub width: u32,
    pub height: u32,
    pub data: Seq<u8>,
}

impl View for PixelChange {
    type V = PixelChangeView;

    open spec fn view(&self) -> PixelChangeView {
        PixelChangeView {
            x: self.x,
            y: self.y,
            width: self.width,
            height: self.height,
            data: self.data@,
        }
    }
}

impl PixelChangeView {
    /// The pixel data holds exactly three bytes for each pixel of the rectangle.
    pub open spec fn wf(&self) -> bool {
        self.data.len() == image_len(self.width as int, self.height as int)
    }
}

/// The changes found between two frames, tagged with the newer frame.
#[derive(Clone, Debug)]
pub struct FrameUpdate {
    pub frame_id: u64,
    pub timestamp: u64,
    pub changes: Vec<PixelChange>,
}

/// The views of a sequence of changes.
pub open spec fn change_views(v: Seq<PixelChange>) -> Seq<PixelChangeView> {
    v.map_values(|c: PixelChange| c@)
}

/// Capture and encoding settings.
///
/// `quality_permille` is the image quality on a scale of 0 to 1000;
/// `compression_level` is on a scale of 0 to 9.
#[derive(Clone, Copy, Debug, PartialEq, Eq, Structural)]
pub struct QualityConfig {
    pub target_fps: u32,
    pub max_fps: u32,
    pub quality_permille: u16,
    pub compression_level: u8,
}

impl QualityConfig {
    /// The quality and the compression level are within their scales.
    pub open spec fn wf(&self) -> bool {
        self.quality_permille <= 1000 && self.compression_level <= 9
    }

    /// The default settings: 30 fps aimed at, 60 at most, quality 800, level 6.
    pub open spec fn default_spec() -> QualityConfig {
        QualityConfig { target_fps: 30, max_fps: 60, quality_permille: 800, compression_level: 6 }
    }
}

impl Default for QualityConfig {
    fn default() -> (r: QualityConfig)
        ensures
            r == QualityConfig::default_spec(),
    {
        QualityConfig { target_fps: 30, max_fps: 60, quality_permille: 800, compression_level: 6 }
    }
}

} // verus!
