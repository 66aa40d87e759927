//! Overlay images prepared for premultiplied-alpha compositing.
//!
//! Planes hold exact integers in units of 1/255: the premultiplied color of a
//! channel is `c * a` (that is `c * (a / 255)`, times 255) and the inverse
//! alpha is `255 - a` (that is `1 - a / 255`, times 255). A composite
//! `b * (1 - alpha) + color` is then `(b * beta + color) / 255`, computed
//! exactly and rounded once to a byte.
use vstd::prelude::*;

verus! {

/// Why a source image cannot be prepared.
#[derive(Debug, Clone, Copy, PartialEq, Eq, Structural)]
pub enum AlphaImageError {
    /// The source does not have exactly four channels.
    NotRgba,
    /// The pixel buffer does not hold `width * height * channels` bytes.
    SizeMismatch,
}

/// An RGBA overlay split into a premultiplied color plane and an inverse
/// alpha plane, both with three interleaved channels per pixel, row by row.
#[derive(Debug)]
pub struct AlphaImage {
    width: usize,
    height: usize,
    image: Vec<u32>,
    beta: Vec<u32>,
}

impl Clone for AlphaImage {
    /// A copy with the same size and the same planes.
    fn clone(&self) -> (r: AlphaImage)
        ensures
            r.width_spec() == self.width_spec(),
            r.height_spec() == self.height_spec(),
            r.rgb_spec() == self.rgb_spec(),
            r.beta_spec() == self.beta_spec(),
    {
        proof {
            use_type_invariant(self);
        }
        let image = self.image.clone();
        let beta = self.beta.clone();
        assert(image@ =~= self.image@);
        assert(beta@ =~= self.beta@);
        AlphaImage { width: self.width, height: self.height, image, beta }
    }
}

/// Channel `i % 3` of pixel `i / 3`, premultiplied by the pixel's alpha.
pub open spec fn premultiplied(rgba: Seq<u8>, i: int) -> int {
    rgba[4 * (i / 3) + i % 3] * rgba[4 * (i / 3) + 3]
}

/// The inverse alpha of pixel `i / 3`.
pub open spec fn inverse_alpha(rgba: Seq<u8>, i: int) -> int {
    255 - rgba[4 * (i / 3) + 3]
}

/// The exact composite of background value `b` under an overlay channel,
/// in units of 1/255.
pub open spec fn composite(b: int, beta: int, color: int) -> int {
    b * beta + color
}

/// A value in units of 1/255 rounded to the nearest byte, saturating at 255.
pub open spec fn to_pixel(v: int) -> int {
    if (v + 127) / 255 > 255 {
        255
    } else {
        (v + 127) / 255
    }
}

/// The bytes of `frame` with `img` composited onto them.
pub open spec fn blended(img: AlphaImage, frame: Seq<u8>) -> Seq<u8> {
    Seq::new(
        frame.len(),
        |i: int| to_pixel(composite(frame[i] as int, img.beta_spec()[i] as int, img.rgb_spec()[i] as int)) as u8,
    )
}

/// `resample` can be called on any plane and any sizes, and always returns a
/// plane with three channels for each pixel of the target size.
pub open spec fn resamples_planes<F: Fn(Vec<u32>, usize, usize, usize, usize) -> Vec<u32>>(
    resample: F,
) -> bool {
    &&& forall|plane: Vec<u32>, w0: usize, h0: usize, w1: usize, h1: usize|
        #[trigger] resample.requires((plane, w0, h0, w1, h1))
    &&& forall|plane: Vec<u32>, w0: usize, h0: usize, w1: usize, h1: usize, out: Vec<u32>|
        #[trigger] resample.ensures((plane, w0, h0, w1, h1), out) ==> out@.len() == w1 * h1 * 3
}

impl AlphaImage {
    /// Both planes hold three channels for every pixel, always.
    #[verifier::type_invariant]
    spec fn planes_fit(self) -> bool {
        &&& self.image@.len() == self.width as nat * self.height as nat * 3
        &&& self.beta@.len() == self.width as nat * self.height as nat * 3
    }

    pub closed spec fn width_spec(&self) -> nat {
        self.width as nat
    }

    pub closed spec fn height_spec(&self) -> nat {
        self.height as nat
    }

    pub closed spec fn rgb_plane(&self) -> Vec<u32> {
        self.image
    }

    pub closed spec fn beta_plane(&self) -> Vec<u32> {
        self.beta
    }

    /// The premultiplied color plane.
    pub open spec fn rgb_spec(&self) -> Seq<u32> {
        self.rgb_plane()@
    }

    /// The inverse alpha plane.
    pub open spec fn beta_spec(&self) -> Seq<u32> {
        self.beta_plane()@
    }

    /// Both planes hold three channels for every pixel, as the type's
    /// invariant ensures of every image that exists.
    pub open spec fn wf(&self) -> bool {
        &&& self.rgb_spec().len() == self.width_spec() * self.height_spec() * 3
        &&& self.beta_spec().len() == self.width_spec() * self.height_spec() * 3
    }

    /// What resizing `self` to `width` x `height` gives as far as sizes go:
    /// `after` has the target size, and is `self` itself when `self` already
    /// had it.
    pub open spec fn resized_to(&self, width: nat, height: nat, after: AlphaImage) -> bool {
        &&& after.wf()
        &&& after.width_spec() == width
        &&& after.height_spec() == height
        &&& (self.width_spec() == width && self.height_spec() == height) ==> after == *self
    }

    /// Prepares an overlay from `pixels`, `channels` bytes per pixel, row by
    /// row. Only four-channel (RGBA) sources are accepted.
    pub fn new(pixels: Vec<u8>, width: usize, height: usize, channels: usize) -> (r: Result<
        AlphaImage,
        AlphaImageError,
    >)
        ensures
            r == Err::<AlphaImage, AlphaImageError>(AlphaImageError::NotRgba) <==> channels != 4,
            r == Err::<AlphaImage, AlphaImageError>(AlphaImageError::SizeMismatch) <==> (channels
                == 4 && pixels@.len() != width * height * 4),
            r matches Ok(img) ==> {
                &&& img.wf()
                &&& img.width_spec() == width
                &&& img.height_spec() == height
                &&& forall|i: int|
                    0 <= i < img.rgb_spec().len() ==> #[trigger] img.rgb_spec()[i] == premultiplied(
                        pixels@,
                        i,
                    )
                &&& forall|i: int|
                    0 <= i < img.beta_spec().len() ==> #[trigger] img.beta_spec()[i]
                        == inverse_alpha(pixels@, i)
            },
    {
        if channels != 4 {
            return Err(AlphaImageError::NotRgba);
        }
        let len = pixels.len();
        let n = match width.checked_mul(height) {
            Some(wh) => match wh.checked_mul(4) {
                Some(expected) => if expected == len {
                    wh
                } else {
                    return Err(AlphaImageError::SizeMismatch);
                },
                None => {
                    return Err(AlphaImageError::SizeMismatch);
                },
            },
            None => {
                proof {
                    assert(width * height * 4 >= width * height) by (nonlinear_arith);
                }
                return Err(AlphaImageError::SizeMismatch);
            },
        };
        let total = n * 3;
        let mut image: Vec<u32> = Vec::with_capacity(total);
        let mut beta: Vec<u32> = Vec::with_capacity(total);
        let mut i: usize = 0;
        while i < total
            invariant
                total == n * 3,
                pixels@.len() == n * 4,
                len == pixels@.len(),
                n == width * height,
                0 <= i <= total,
                image@.len() == i,
                beta@.len() == i,
                forall|j: int| 0 <= j < i ==> #[trigger] image@[j] == premultiplied(pixels@, j),
                forall|j: int| 0 <= j < i ==> #[trigger] beta@[j] == inverse_alpha(pixels@, j),
            decreases total - i,
        {
            let p = i / 3;
            let c = i % 3;
            assert(p < n && c < 3) by (nonlinear_arith)
                requires
                    i < n * 3,
                    p == i / 3,
                    c == i % 3,
            ;
            assert(4 * p + 3 < n * 4) by (nonlinear_arith)
                requires
                    p < n,
            ;
            let a = pixels[4 * p + 3] as u32;
            let v = pixels[4 * p + c] as u32;
            assert(v * a <= 255 * 255) by (nonlinear_arith)
                requires
                    v <= 255,
                    a <= 255,
            ;
            image.push(v * a);
            beta.push(255 - a);
            i += 1;
        }
        Ok(AlphaImage { width, height, image, beta })
    }

    pub fn width(&self) -> (r: usize)
        ensures
            r == self.width_spec(),
    {
        self.width
    }

    pub fn height(&self) -> (r: usize)
        ensures
            r == self.height_spec(),
    {
        self.height
    }

    /// The inverse alpha plane, `255 - a` per channel.
    pub fn beta(&self) -> (r: &Vec<u32>)
        ensures
            r@ == self.beta_spec(),
    {
        &self.beta
    }

    /// The premultiplied color plane, `c * a` per channel.
    pub fn rgb(&self) -> (r: &Vec<u32>)
        ensures
            r@ == self.rgb_spec(),
    {
        &self.image
    }

    /// Resizes both planes together to `width` x `height`. `resample(plane,
    /// from_width, from_height, to_width, to_height)` resamples one
    /// three-channel plane. When the image already has the target size it is
    /// returned as it is and `resample` is not called.
    pub fn resize<F>(self, width: usize, height: usize, resample: F) -> (r: AlphaImage) where
        F: Fn(Vec<u32>, usize, usize, usize, usize) -> Vec<u32>,

        requires
            resample.requires((self.rgb_plane(), self.width_spec() as usize, self.height_spec() as usize, width, height)),
            resample.requires((self.beta_plane(), self.width_spec() as usize, self.height_spec() as usize, width, height)),
            forall|plane: Vec<u32>, w0: usize, h0: usize, w1: usize, h1: usize, out: Vec<u32>|
                #[trigger] resample.ensures((plane, w0, h0, w1, h1), out) ==> out@.len() == w1 * h1 * 3,
        ensures
            self.resized_to(width as nat, height as nat, r),
            !(self.width_spec() == width && self.height_spec() == height) ==> {
                &&& resample.ensures((self.rgb_plane(), self.width_spec() as usize, self.height_spec() as usize, width, height), r.rgb_plane())
                &&& resample.ensures((self.beta_plane(), self.width_spec() as usize, self.height_spec() as usize, width, height), r.beta_plane())
            },
    {
        proof {
            use_type_invariant(&self);
        }
        if self.width == width && self.height == height {
            return self;
        }
        let AlphaImage { width: w0, height: h0, image, beta } = self;
        let image = resample(image, w0, h0, width, height);
        let beta = resample(beta, w0, h0, width, height);
        AlphaImage { width, height, image, beta }
    }

    /// Composites the overlay onto `frame`, a background with the same
    /// size and three channels per pixel: `frame * (1 - alpha) + color`,
    /// rounded to bytes.
    pub fn blend(&self, frame: &Vec<u8>) -> (r: Vec<u8>)
        requires
            frame@.len() == self.rgb_spec().len(),
        ensures
            r@ == blended(*self, frame@),
    {
        proof {
            use_type_invariant(self);
        }
        let mut out: Vec<u8> = Vec::with_capacity(frame.len());
        let mut i: usize = 0;
        while i < frame.len()
            invariant
                self.wf(),
                frame@.len() == self.rgb_spec().len(),
                0 <= i <= frame@.len(),
                out@.len() == i,
                forall|j: int|
                    0 <= j < i ==> #[trigger] out@[j] == to_pixel(
                        composite(frame@[j] as int, self.beta_spec()[j] as int, self.rgb_spec()[j] as int),
                    ),
            decreases frame@.len() - i,
        {
            let b = frame[i] as u64;
            let beta = self.beta[i] as u64;
            let color = self.image[i] as u64;
            assert(b * beta <= 255 * 0xffff_ffff) by (nonlinear_arith)
                requires
                    b <= 255,
                    beta <= 0xffff_ffff,
            ;
            let v = (b * beta + color + 127) / 255;
            let px: u8 = if v > 255 {
                255
            } else {
                v as u8
            };
            out.push(px);
            i += 1;
        }
        assert(out@ =~= blended(*self, frame@));
        out
    }
}

/// A fully opaque overlay hides the background: where every inverse alpha is
/// zero, each composite value is the overlay's color, and the composited
/// bytes are the same whatever the background.
pub proof fn lemma_opaque_overlay(img: AlphaImage, frame: Seq<u8>, other: Seq<u8>)
    requires
        img.wf(),
        frame.len() == img.rgb_spec().len(),
        other.len() == img.rgb_spec().len(),
        forall|i: int| 0 <= i < img.beta_spec().len() ==> #[trigger] img.beta_spec()[i] == 0,
    ensures
        forall|i: int|
            0 <= i < frame.len() ==> #[trigger] composite(
                frame[i] as int,
                img.beta_spec()[i] as int,
                img.rgb_spec()[i] as int,
            ) == img.rgb_spec()[i],
        blended(img, frame) == blended(img, other),
{
    assert(blended(img, frame) =~= blended(img, other));
}

/// A fully transparent overlay leaves the background as it is: where every
/// inverse alpha is 255 and every color 0, the composite is the background
/// value, and the composited bytes are the background's bytes.
pub proof fn lemma_transparent_overlay(img: AlphaImage, frame: Seq<u8>)
    requires
        img.wf(),
        frame.len() == img.rgb_spec().len(),
        forall|i: int| 0 <= i < img.beta_spec().len() ==> #[trigger] img.beta_spec()[i] == 255,
        forall|i: int| 0 <= i < img.rgb_spec().len() ==> #[trigger] img.rgb_spec()[i] == 0,
    ensures
        forall|i: int|
            0 <= i < frame.len() ==> #[trigger] composite(
                frame[i] as int,
                img.beta_spec()[i] as int,
                img.rgb_spec()[i] as int,
            ) == 255 * frame[i],
        blended(img, frame) == frame,
{
    assert forall|i: int| 0 <= i < frame.len() implies #[trigger] blended(img, frame)[i]
        == frame[i] by {
        let b = frame[i] as int;
        assert(img.beta_spec()[i] == 255);
        assert(img.rgb_spec()[i] == 0);
        vstd::arithmetic::div_mod::lemma_fundamental_div_mod_converse_div(255 * b + 127, 255, b, 127);
    }
    assert(blended(img, frame) =~= frame);
}

/// Resizing twice ends at the size of the second resize: resizing to one
/// size and then to another gives the same size as resizing to the second
/// one directly.
pub proof fn lemma_resize_twice(
    img: AlphaImage,
    w1: nat,
    h1: nat,
    w2: nat,
    h2: nat,
    once: AlphaImage,
    twice: AlphaImage,
    direct: AlphaImage,
)
    requires
        img.wf(),
        img.resized_to(w1, h1, once),
        once.resized_to(w2, h2, twice),
        img.resized_to(w2, h2, direct),
    ensures
        twice.width_spec() == direct.width_spec(),
        twice.height_spec() == direct.height_spec(),
        twice.wf(),
{
}

} // verus!
