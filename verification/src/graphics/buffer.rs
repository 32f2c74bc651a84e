//! The kernel's drawing buffers: the frame being drawn and the static
//! base picture, laid out like the hardware framebuffer (rows of
//! `stride` pixels of `bytes_per_pixel` bytes).

use vstd::prelude::*;

verus! {

/// How a pixel's bytes hold its colour.
#[derive(Clone, Copy, Debug, PartialEq, Eq, Structural)]
pub enum PixelFormat {
    Rgb,
    Bgr,
    U8,
    Unknown,
}

/// The frame and base buffers with the framebuffer's geometry.
pub struct GraphicsBuffers {
    pub frame: Vec<u8>,
    pub base: Vec<u8>,
    pub width: usize,
    pub height: usize,
    pub stride: usize,
    pub bytes_per_pixel: usize,
    pub pixel_format: PixelFormat,
}

/// The layout of a framebuffer: visible size, row stride in pixels,
/// bytes per pixel and pixel format.
#[derive(Clone, Copy, Debug, PartialEq, Eq, Structural)]
pub struct Geometry {
    pub width: usize,
    pub height: usize,
    pub stride: usize,
    pub bytes_per_pixel: usize,
    pub pixel_format: PixelFormat,
}

impl GraphicsBuffers {
    /// The buffers' layout.
    pub open spec fn geometry(&self) -> Geometry {
        Geometry {
            width: self.width,
            height: self.height,
            stride: self.stride,
            bytes_per_pixel: self.bytes_per_pixel,
            pixel_format: self.pixel_format,
        }
    }

    /// Visible rows fit in the stride and both buffers hold `stride` by
    /// `height` pixels.
    pub open spec fn wf(&self) -> bool {
        &&& self.width <= self.stride
        &&& self.frame@.len() == self.stride * self.height * self.bytes_per_pixel
        &&& self.base@.len() == self.frame@.len()
    }
}

/// The drawing buffers, once the framebuffer is known.
pub struct GraphicsStorage {
    pub state: Option<GraphicsBuffers>,
}

impl GraphicsStorage {
    /// Storage before initialisation.
    pub fn new() -> (r: Self)
        ensures
            r.state is None,
    {
        GraphicsStorage { state: None }
    }

    /// The buffers, when present, are well formed.
    pub open spec fn wf(&self) -> bool {
        self.state matches Some(b) ==> b.wf()
    }
}

fn zeroed(size: usize) -> (r: Vec<u8>)
    ensures
        r@ == Seq::new(size as nat, |i: int| 0u8),
{
    let mut v: Vec<u8> = Vec::with_capacity(size);
    let mut i: usize = 0;
    while i < size
        invariant
            i <= size,
            v@ == Seq::new(i as nat, |k: int| 0u8),
        decreases size - i,
    {
        v.push(0);
        proof {
            assert(v@ =~= Seq::new((i + 1) as nat, |k: int| 0u8));
        }
        i = i + 1;
    }
    v
}

/// Sets up both buffers, zeroed, for a framebuffer of this geometry.
/// Fails when the buffer size overflows, or when the rows are wider than
/// the stride (a framebuffer the drawing code cannot address).
pub fn init(
    storage: &mut GraphicsStorage,
    width: usize,
    height: usize,
    stride: usize,
    bytes_per_pixel: usize,
    pixel_format: PixelFormat,
) -> (r: Result<(), &'static str>)
    ensures
        r is Ok <==> (stride * height <= usize::MAX && stride * height * bytes_per_pixel <= usize::MAX && width <= stride),
        r is Ok ==> (final(storage).state matches Some(b) && b.wf() && b.width == width && b.height == height
            && b.stride == stride && b.bytes_per_pixel == bytes_per_pixel && b.pixel_format == pixel_format
            && b.frame@ == Seq::new(b.frame@.len(), |i: int| 0u8) && b.base@ == Seq::new(
            b.base@.len(),
            |i: int| 0u8,
        )),
        r is Err ==> final(storage).state == old(storage).state,
{
    let pixels = match stride.checked_mul(height) {
        Some(p) => p,
        None => {
            return Err("Rusty: framebuffer size overflow");
        },
    };
    let size = match pixels.checked_mul(bytes_per_pixel) {
        Some(s) => s,
        None => {
            return Err("Rusty: framebuffer size overflow");
        },
    };
    if width > stride {
        return Err("Rusty: framebuffer stride is smaller than its width");
    }
    let frame = zeroed(size);
    let base = zeroed(size);
    storage.state = Some(
        GraphicsBuffers { frame, base, width, height, stride, bytes_per_pixel, pixel_format },
    );
    Ok(())
}

/// Whether the buffers have been set up.
pub fn is_initialized(storage: &GraphicsStorage) -> (r: bool)
    ensures
        r == (storage.state is Some),
{
    storage.state.is_some()
}

/// The screen width, 0 before set-up.
pub fn width(storage: &GraphicsStorage) -> (r: usize)
    ensures
        r == (match storage.state {
            Some(b) => b.width,
            None => 0,
        }),
{
    match &storage.state {
        Some(b) => b.width,
        None => 0,
    }
}

/// The screen height, 0 before set-up.
pub fn height(storage: &GraphicsStorage) -> (r: usize)
    ensures
        r == (match storage.state {
            Some(b) => b.height,
            None => 0,
        }),
{
    match &storage.state {
        Some(b) => b.height,
        None => 0,
    }
}

/// The row stride in pixels, 0 before set-up.
pub fn stride(storage: &GraphicsStorage) -> (r: usize)
    ensures
        r == (match storage.state {
            Some(b) => b.stride,
            None => 0,
        }),
{
    match &storage.state {
        Some(b) => b.stride,
        None => 0,
    }
}

/// The bytes per pixel, 0 before set-up.
pub fn bytes_per_pixel(storage: &GraphicsStorage) -> (r: usize)
    ensures
        r == (match storage.state {
            Some(b) => b.bytes_per_pixel,
            None => 0,
        }),
{
    match &storage.state {
        Some(b) => b.bytes_per_pixel,
        None => 0,
    }
}

/// The pixel format, RGB before set-up.
pub fn pixel_format(storage: &GraphicsStorage) -> (r: PixelFormat)
    ensures
        r == (match storage.state {
            Some(b) => b.pixel_format,
            None => PixelFormat::Rgb,
        }),
{
    match &storage.state {
        Some(b) => b.pixel_format,
        None => PixelFormat::Rgb,
    }
}

/// Copies `source` over `destination` (equal lengths).
pub(crate) fn copy_bytes(destination: &mut Vec<u8>, source: &Vec<u8>)
    requires
        old(destination)@.len() == source@.len(),
    ensures
        final(destination)@ == source@,
{
    let mut i: usize = 0;
    while i < source.len()
        invariant
            i <= source@.len(),
            destination@.len() == source@.len(),
            forall|k: int| 0 <= k < i ==> destination@[k] == source@[k],
        decreases source@.len() - i,
    {
        destination.set(i, source[i]);
        i = i + 1;
    }
    proof {
        assert(destination@ =~= source@);
    }
}

/// Starts a frame: the frame buffer becomes a copy of the base picture.
pub fn begin_frame(storage: &mut GraphicsStorage)
    requires
        old(storage).wf(),
    ensures
        final(storage).wf(),
        match old(storage).state {
            Some(b) => final(storage).state matches Some(n) && n.frame@ == b.base@ && n.base == b.base && n.width
                == b.width && n.height == b.height && n.stride == b.stride && n.bytes_per_pixel == b.bytes_per_pixel
                && n.pixel_format == b.pixel_format,
            None => final(storage).state is None,
        },
{
    match storage.state.take() {
        Some(mut b) => {
            copy_bytes(&mut b.frame, &b.base);
            storage.state = Some(b);
        },
        None => {},
    }
}

/// The bytes to show on the screen: the frame, cut to the framebuffer's
/// length when that is shorter; nothing before set-up.
pub fn present(storage: &GraphicsStorage, framebuffer_len: usize) -> (r: Vec<u8>)
    ensures
        match storage.state {
            Some(b) => r@ == b.frame@.take(if framebuffer_len < b.frame@.len() {
                framebuffer_len as int
            } else {
                b.frame@.len() as int
            }),
            None => r@.len() == 0,
        },
{
    match &storage.state {
        Some(b) => {
            let size = if framebuffer_len < b.frame.len() {
                framebuffer_len
            } else {
                b.frame.len()
            };
            let mut out: Vec<u8> = Vec::with_capacity(size);
            let mut i: usize = 0;
            while i < size
                invariant
                    i <= size <= b.frame@.len(),
                    out@ == b.frame@.take(i as int),
                decreases size - i,
            {
                out.push(b.frame[i]);
                proof {
                    assert(out@ =~= b.frame@.take(i + 1));
                }
                i = i + 1;
            }
            out
        },
        None => Vec::new(),
    }
}

} // verus!
