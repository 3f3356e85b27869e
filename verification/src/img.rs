//! Pixel buffers: the 8-bit single-channel images a compiled chain runs
//! on, and the raw 1-D integer plane used to exercise expression
//! evaluation on its own.

use vstd::prelude::*;

verus! {

/// Mathematical model of an 8-bit single-channel image: a row-major byte
/// sequence covering a `width x height` grid.
pub ghost struct ImageView {
    pub width: nat,
    pub height: nat,
    pub data: Seq<u8>,
}

impl ImageView {
    /// The byte buffer covers exactly the `width x height` grid.
    pub open spec fn wf(self) -> bool {
        self.data.len() == self.width * self.height
    }

    /// Clamped fetch: coordinates outside `[0,width) x [0,height)` read
    /// as 0; coordinates inside read the zero-extended byte at row-major
    /// position `y * width + x`.
    pub open spec fn at(self, x: int, y: int) -> i64 {
        if 0 <= x < self.width && 0 <= y < self.height {
            self.data[y * self.width + x] as i64
        } else {
            0
        }
    }
}

/// A clamped fetch always lies in the byte range: out-of-bounds reads
/// are 0 and in-bounds reads are zero-extended bytes.
pub proof fn lemma_image_at_bounds(v: ImageView, x: int, y: int)
    ensures
        0 <= v.at(x, y) <= 255,
{
}

/// An owned 8-bit single-channel image with row-major pixel data.
pub struct Image {
    width: u32,
    height: u32,
    data: Vec<u8>,
}

impl View for Image {
    type V = ImageView;

    closed spec fn view(&self) -> ImageView {
        ImageView { width: self.width as nat, height: self.height as nat, data: self.data@ }
    }
}

impl Image {
    #[verifier::type_invariant]
    pub closed spec fn inv(self) -> bool {
        self@.wf()
    }

    /// Builds an image whose dimensions are already known to match the
    /// buffer, as the driver loop produces it.
    pub(crate) fn from_dims(width: u32, height: u32, data: Vec<u8>) -> (r: Image)
        requires
            data@.len() == width * height,
        ensures
            r@ == (ImageView { width: width as nat, height: height as nat, data: data@ }),
    {
        Image { width, height, data }
    }

    /// Builds an image from raw row-major bytes; succeeds exactly when
    /// the buffer length matches the requested dimensions.
    pub fn from_raw(width: u32, height: u32, data: Vec<u8>) -> (r: Option<Image>)
        ensures
            r is Some <==> data@.len() == width * height,
            r matches Some(im) ==> im@ == (ImageView {
                width: width as nat,
                height: height as nat,
                data: data@,
            }),
            r matches Some(im) ==> im@.wf(),
    {
        proof {
            assert((width as int) * (height as int) <= u64::MAX) by (nonlinear_arith)
                requires
                    0 <= width <= u32::MAX,
                    0 <= height <= u32::MAX,
            ;
        }
        let expected: u64 = (width as u64) * (height as u64);
        if (data.len() as u64) == expected {
            Some(Image { width, height, data })
        } else {
            None
        }
    }

    pub fn width(&self) -> (r: u32)
        ensures
            r == self@.width,
    {
        self.width
    }

    pub fn height(&self) -> (r: u32)
        ensures
            r == self@.height,
    {
        self.height
    }

    /// Clamped pixel fetch, as the runtime's input accessor performs it:
    /// out-of-bounds coordinates yield 0.
    pub fn at(&self, x: i64, y: i64) -> (r: i64)
        ensures
            r == self@.at(x as int, y as int),
    {
        proof {
            use_type_invariant(self);
        }
        if x < 0 || y < 0 {
            return 0;
        }
        if x >= self.width as i64 || y >= self.height as i64 {
            return 0;
        }
        let len: usize = self.data.len();
        proof {
            assert((y as int) * (self.width as int) + (x as int) < (self.width as int) * (
            self.height as int)) by (nonlinear_arith)
                requires
                    0 <= x < self.width as int,
                    0 <= y < self.height as int,
            ;
            assert(len == (self.width as int) * (self.height as int));
        }
        let idx: usize = (y as usize) * (self.width as usize) + (x as usize);
        self.data[idx] as i64
    }

    /// Hands the row-major bytes back to the caller.
    pub fn into_raw(self) -> (r: Vec<u8>)
        ensures
            r@ == self@.data,
    {
        self.data
    }
}

/// Fetch from a raw integer plane: a `VecInpt` models a single row at
/// `y == 0`; everything else, and columns outside the row, read as 0.
pub open spec fn vec_plane_at(p: Seq<i64>, x: i64, y: i64) -> i64 {
    if y != 0 {
        0
    } else if x < 0 || x >= p.len() {
        0
    } else {
        p[x as int]
    }
}

/// A raw 1-D plane of 64-bit values, addressable through the same
/// clamped-fetch interface as an image.
pub struct VecInpt {
    v: Vec<i64>,
}

impl View for VecInpt {
    type V = Seq<i64>;

    closed spec fn view(&self) -> Seq<i64> {
        self.v@
    }
}

impl VecInpt {
    #[verifier::type_invariant]
    closed spec fn inv(self) -> bool {
        self.v@.len() <= i64::MAX
    }

    pub fn new(v: Vec<i64>) -> (r: Self)
        requires
            v@.len() <= i64::MAX,
        ensures
            r@ == v@,
    {
        VecInpt { v }
    }

    /// Clamped fetch from the plane.
    pub fn at(&self, x: i64, y: i64) -> (r: i64)
        ensures
            r == vec_plane_at(self@, x, y),
    {
        if y != 0 {
            return 0;
        }
        if x < 0 {
            return 0;
        }
        if (x as u64) >= (self.v.len() as u64) {
            return 0;
        }
        self.v[x as usize]
    }

    pub fn width(&self) -> (r: i64)
        ensures
            r == self@.len(),
    {
        proof {
            use_type_invariant(self);
        }
        self.v.len() as i64
    }

    /// A `VecInpt` reports no vertical extent: only row 0 holds data.
    pub fn height(&self) -> (r: i64)
        ensures
            r == 0,
    {
        0
    }
}

} // verus!
