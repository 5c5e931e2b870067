//! RGBA images and the turns and flips that bring a captured frame upright.

use crate::output::Transform;
use vstd::prelude::*;

verus! {

/// One pixel: red, green, blue and alpha, 8 bits each.
#[derive(Debug, Copy, Clone, PartialEq, Eq, Structural)]
pub struct Rgba {
    pub r: u8,
    pub g: u8,
    pub b: u8,
    pub a: u8,
}

impl Rgba {
    /// Black that lets nothing through.
    pub open spec fn spec_opaque_black() -> Rgba {
        Rgba { r: 0, g: 0, b: 0, a: 255 }
    }

    /// Black that lets nothing through: what a canvas holds before anything
    /// is pasted.
    pub fn opaque_black() -> (p: Rgba)
        ensures
            p == Rgba::spec_opaque_black(),
    {
        Rgba { r: 0, g: 0, b: 0, a: 255 }
    }
}

/// Mathematical content of an [`Image`]: `height` rows of `width` pixels,
/// the first row on top, the first pixel of a row on the left.
pub struct ImageView {
    pub width: nat,
    pub height: nat,
    pub rows: Seq<Seq<Rgba>>,
}

impl ImageView {
    /// Every row is there and has its full width.
    pub open spec fn wf(self) -> bool {
        &&& self.rows.len() == self.height
        &&& forall|y: int| 0 <= y < self.height ==> (#[trigger] self.rows[y]).len() == self.width
    }

    /// The image of the given size whose pixels are all `pixel`.
    pub open spec fn filled(width: nat, height: nat, pixel: Rgba) -> ImageView {
        ImageView {
            width,
            height,
            rows: Seq::new(height, |y: int| Seq::new(width, |x: int| pixel)),
        }
    }

    /// The image that a row-major buffer of 4 bytes per pixel holds.
    pub open spec fn of_bytes(width: nat, height: nat, data: Seq<u8>) -> ImageView {
        ImageView {
            width,
            height,
            rows: Seq::new(
                height,
                |y: int|
                    Seq::new(
                        width,
                        |x: int|
                            Rgba {
                                r: data[4 * (y * width + x)],
                                g: data[4 * (y * width + x) + 1],
                                b: data[4 * (y * width + x) + 2],
                                a: data[4 * (y * width + x) + 3],
                            },
                    ),
            ),
        }
    }

    /// The image turned by a quarter clockwise: the pixel at `(x, y)` goes to
    /// `(height - 1 - y, x)`.
    pub open spec fn rotate90(self) -> ImageView {
        ImageView {
            width: self.height,
            height: self.width,
            rows: Seq::new(
                self.width,
                |y: int| Seq::new(self.height, |x: int| self.rows[self.height - 1 - x][y]),
            ),
        }
    }

    /// The image turned by a half: the pixel at `(x, y)` goes to
    /// `(width - 1 - x, height - 1 - y)`.
    pub open spec fn rotate180(self) -> ImageView {
        ImageView {
            width: self.width,
            height: self.height,
            rows: Seq::new(
                self.height,
                |y: int|
                    Seq::new(
                        self.width,
                        |x: int| self.rows[self.height - 1 - y][self.width - 1 - x],
                    ),
            ),
        }
    }

    /// The image turned by three quarters clockwise: the pixel at `(x, y)`
    /// goes to `(y, width - 1 - x)`.
    pub open spec fn rotate270(self) -> ImageView {
        ImageView {
            width: self.height,
            height: self.width,
            rows: Seq::new(
                self.width,
                |y: int| Seq::new(self.height, |x: int| self.rows[x][self.width - 1 - y]),
            ),
        }
    }

    /// The image mirrored left to right: the pixel at `(x, y)` goes to
    /// `(width - 1 - x, y)`.
    pub open spec fn flip_horizontal(self) -> ImageView {
        ImageView {
            width: self.width,
            height: self.height,
            rows: Seq::new(
                self.height,
                |y: int| Seq::new(self.width, |x: int| self.rows[y][self.width - 1 - x]),
            ),
        }
    }

    /// The image brought upright for an output with the given transform.
    pub open spec fn transformed(self, transform: Transform) -> ImageView {
        match transform {
            Transform::Normal => self,
            Transform::_90 => self.rotate90(),
            Transform::_180 => self.rotate180(),
            Transform::_270 => self.rotate270(),
            Transform::Flipped => self.flip_horizontal(),
            Transform::Flipped90 => self.flip_horizontal().rotate90(),
            Transform::Flipped180 => self.flip_horizontal().rotate180(),
            Transform::Flipped270 => self.flip_horizontal().rotate270(),
        }
    }

    /// Whether the pixel at `(px, py)` of this image lies under `top` when
    /// the top-left corner of `top` is put at `(x, y)`.
    pub open spec fn covered_by(self, top: ImageView, x: int, y: int, px: int, py: int) -> bool {
        x <= px < x + top.width && y <= py < y + top.height
    }

    /// This image with `top` pasted over it, the top-left corner of `top` at
    /// `(x, y)`; what of `top` falls outside is cut off.
    pub open spec fn replace(self, top: ImageView, x: int, y: int) -> ImageView {
        ImageView {
            width: self.width,
            height: self.height,
            rows: Seq::new(
                self.height,
                |py: int|
                    Seq::new(
                        self.width,
                        |px: int|
                            if self.covered_by(top, x, y, px, py) {
                                top.rows[py - y][px - x]
                            } else {
                                self.rows[py][px]
                            },
                    ),
            ),
        }
    }
}

/// A row-major RGBA image, 4 bytes per pixel, origin at the top left.
#[derive(Debug, PartialEq, Eq)]
pub struct Image {
    width: u32,
    height: u32,
    data: Vec<u8>,
}

/// The pixels of a `width` by `height` image start at byte
/// `4 * (y * width + x)` and end within the first `4 * width * height` bytes.
pub proof fn lemma_pixel_offset(width: int, height: int, x: int, y: int)
    requires
        0 <= x < width,
        0 <= y < height,
    ensures
        0 <= y * width,
        0 <= 4 * (y * width + x),
        4 * (y * width + x) + 4 <= 4 * width * height,
{
    assert(y * width + x + 1 <= height * width) by (nonlinear_arith)
        requires
            0 <= x < width,
            0 <= y < height,
    ;
    assert(0 <= y * width) by (nonlinear_arith)
        requires
            0 <= y,
            0 <= width,
    ;
    assert(4 * width * height == 4 * (height * width)) by (nonlinear_arith);
}

/// Whether the four bytes of pixel number `j` of a buffer are those of
/// `pixel`.
spec fn holds_pixel_at(data: Seq<u8>, j: int, pixel: Rgba) -> bool {
    &&& data[4 * j] == pixel.r
    &&& data[4 * j + 1] == pixel.g
    &&& data[4 * j + 2] == pixel.b
    &&& data[4 * j + 3] == pixel.a
}

impl View for Image {
    type V = ImageView;

    closed spec fn view(&self) -> ImageView {
        ImageView::of_bytes(self.width as nat, self.height as nat, self.data@)
    }
}

impl Image {
    /// Whether `len` bytes hold an image of `width` by `height` pixels: they
    /// are at least 4 for every pixel, and the bytes of one row and of one
    /// column can be counted on this machine.
    pub open spec fn fits(width: u32, height: u32, len: nat) -> bool {
        &&& 4 * width * height <= len
        &&& 4 * width <= usize::MAX
        &&& 4 * height <= usize::MAX
    }

    /// The buffer holds the image.
    #[verifier::type_invariant]
    pub closed spec fn holds_pixels(&self) -> bool {
        Image::fits(self.width, self.height, self.data@.len())
    }

    /// An image is well formed.
    pub proof fn lemma_view_wf(&self)
        ensures
            self@.wf(),
    {
    }

    /// The image that `data` holds, or `None` where `data` does not hold
    /// `width` by `height` pixels. Bytes beyond the last pixel are kept and
    /// ignored.
    pub fn from_raw(width: u32, height: u32, data: Vec<u8>) -> (r: Option<Image>)
        ensures
            r is Some <==> Image::fits(width, height, data@.len()),
            r is Some ==> r->0@ == ImageView::of_bytes(width as nat, height as nat, data@),
    {
        assert(width * height <= 0xffff_ffff * 0xffff_ffff) by (nonlinear_arith)
            requires
                0 <= width <= 0xffff_ffff,
                0 <= height <= 0xffff_ffff,
        ;
        assert(4 * width * height == 4 * (width * height)) by (nonlinear_arith);
        let pixels: u64 = width as u64 * height as u64;
        let most: u64 = usize::MAX as u64;
        if (data.len() as u64) / 4 >= pixels && 4 * (width as u64) <= most && 4 * (height as u64)
            <= most {
            Some(Image { width, height, data })
        } else {
            None
        }
    }

    /// The image of the given size whose pixels are all `pixel`.
    pub fn from_pixel(width: u32, height: u32, pixel: Rgba) -> (r: Image)
        requires
            Image::fits(width, height, usize::MAX as nat),
        ensures
            r@ == ImageView::filled(width as nat, height as nat, pixel),
    {
        assert(width * height <= 4 * width * height) by (nonlinear_arith)
            requires
                0 <= width,
                0 <= height,
        ;
        assert(4 * width * height == 4 * (width * height)) by (nonlinear_arith);
        let pixels: usize = width as usize * height as usize;
        let mut data: Vec<u8> = Vec::new();
        let mut i: usize = 0;
        while i < pixels
            invariant
                i <= pixels,
                4 * pixels <= usize::MAX,
                data@.len() == 4 * i,
                forall|j: int| 0 <= j < i ==> holds_pixel_at(data@, j, pixel),
            decreases pixels - i,
        {
            let ghost before = data@;
            data.push(pixel.r);
            data.push(pixel.g);
            data.push(pixel.b);
            data.push(pixel.a);
            proof {
                assert forall|j: int| 0 <= j < i + 1 implies holds_pixel_at(data@, j, pixel) by {
                    if j < i {
                        assert(holds_pixel_at(before, j, pixel));
                    }
                }
            }
            i += 1;
        }
        let r = Image { width, height, data };
        proof {
            let filled = ImageView::filled(width as nat, height as nat, pixel);
            assert forall|y: int| 0 <= y < height implies #[trigger] r@.rows[y] =~= filled.rows[y] by {
                assert forall|x: int| 0 <= x < width implies #[trigger] r@.rows[y][x]
                    == filled.rows[y][x] by {
                    lemma_pixel_offset(width as int, height as int, x, y);
                    let j = y * width + x;
                    assert(holds_pixel_at(r.data@, j, pixel));
                }
            }
            assert(r@.rows =~= filled.rows);
        }
        r
    }

    /// Width in pixels.
    pub fn width(&self) -> (w: u32)
        ensures
            w == self@.width,
    {
        self.width
    }

    /// Height in pixels.
    pub fn height(&self) -> (h: u32)
        ensures
            h == self@.height,
    {
        self.height
    }

    /// The pixel at `(x, y)`, or `None` where the image has no such pixel.
    pub fn get_pixel(&self, x: u32, y: u32) -> (p: Option<Rgba>)
        ensures
            p is Some <==> x < self@.width && y < self@.height,
            p is Some ==> p->0 == self@.rows[y as int][x as int],
    {
        if x >= self.width || y >= self.height {
            return None;
        }
        proof {
            use_type_invariant(self);
            lemma_pixel_offset(self.width as int, self.height as int, x as int, y as int);
            assert(self.data@.len() == self.data.len());
        }
        let i: usize = 4 * (y as usize * self.width as usize + x as usize);
        Some(Rgba { r: self.data[i], g: self.data[i + 1], b: self.data[i + 2], a: self.data[i + 3] })
    }

    /// The bytes of the image, row by row, 4 per pixel; bytes beyond the last
    /// pixel, if the image was made with any, follow.
    pub fn into_raw(self) -> (data: Vec<u8>)
        ensures
            4 * self@.width * self@.height <= data@.len(),
            4 * self@.width <= usize::MAX,
            4 * self@.height <= usize::MAX,
            ImageView::of_bytes(self@.width, self@.height, data@) == self@,
    {
        proof {
            use_type_invariant(&self);
        }
        self.data
    }
}

/// Turns `image` by a quarter clockwise.
///
/// Calls `image::imageops::rotate90`, which makes an image of `height` by
/// `width` pixels and puts each pixel `(x, y)` of its argument at
/// `(height - 1 - y, x)`.
#[verifier::external_body]
fn rotate90(image: &Image) -> (out: Image)
    requires
        image.holds_pixels(),
    ensures
        out@ == image@.rotate90(),
{
    let buffer = image::ImageBuffer::<image::Rgba<u8>, &[u8]>::from_raw(
        image.width,
        image.height,
        image.data.as_slice(),
    ).unwrap();
    let out = image::imageops::rotate90(&buffer);
    Image { width: out.width(), height: out.height(), data: out.into_raw() }
}

/// Turns `image` by a half.
///
/// Calls `image::imageops::rotate180`, which makes an image of the same size
/// and puts each pixel `(x, y)` of its argument at
/// `(width - 1 - x, height - 1 - y)`.
#[verifier::external_body]
fn rotate180(image: &Image) -> (out: Image)
    requires
        image.holds_pixels(),
    ensures
        out@ == image@.rotate180(),
{
    let buffer = image::ImageBuffer::<image::Rgba<u8>, &[u8]>::from_raw(
        image.width,
        image.height,
        image.data.as_slice(),
    ).unwrap();
    let out = image::imageops::rotate180(&buffer);
    Image { width: out.width(), height: out.height(), data: out.into_raw() }
}

/// Turns `image` by three quarters clockwise.
///
/// Calls `image::imageops::rotate270`, which makes an image of `height` by
/// `width` pixels and puts each pixel `(x, y)` of its argument at
/// `(y, width - 1 - x)`.
#[verifier::external_body]
fn rotate270(image: &Image) -> (out: Image)
    requires
        image.holds_pixels(),
    ensures
        out@ == image@.rotate270(),
{
    let buffer = image::ImageBuffer::<image::Rgba<u8>, &[u8]>::from_raw(
        image.width,
        image.height,
        image.data.as_slice(),
    ).unwrap();
    let out = image::imageops::rotate270(&buffer);
    Image { width: out.width(), height: out.height(), data: out.into_raw() }
}

/// Mirrors `image` left to right.
///
/// Calls `image::imageops::flip_horizontal`, which makes an image of the same
/// size and puts each pixel `(x, y)` of its argument at `(width - 1 - x, y)`.
#[verifier::external_body]
fn flip_horizontal(image: &Image) -> (out: Image)
    requires
        image.holds_pixels(),
    ensures
        out@ == image@.flip_horizontal(),
{
    let buffer = image::ImageBuffer::<image::Rgba<u8>, &[u8]>::from_raw(
        image.width,
        image.height,
        image.data.as_slice(),
    ).unwrap();
    let out = image::imageops::flip_horizontal(&buffer);
    Image { width: out.width(), height: out.height(), data: out.into_raw() }
}

/// Pastes `top` over `bottom`, the top-left corner of `top` at `(x, y)`.
///
/// Calls `image::imageops::replace`, which keeps the size of `bottom`, cuts
/// `top` to what falls inside `bottom`, and overwrites each pixel of `bottom`
/// under it with the pixel of `top` that lies over it.
#[verifier::external_body]
fn replace(bottom: &mut Image, top: &Image, x: i64, y: i64)
    requires
        old(bottom).holds_pixels(),
        top.holds_pixels(),
    ensures
        final(bottom)@ == old(bottom)@.replace(top@, x as int, y as int),
        final(bottom).holds_pixels(),
{
    let (width, height) = (bottom.width, bottom.height);
    let mut under = image::ImageBuffer::<image::Rgba<u8>, &mut [u8]>::from_raw(
        width,
        height,
        bottom.data.as_mut_slice(),
    ).unwrap();
    let over = image::ImageBuffer::<image::Rgba<u8>, &[u8]>::from_raw(
        top.width,
        top.height,
        top.data.as_slice(),
    ).unwrap();
    image::imageops::replace(&mut under, &over, x, y);
}

impl Image {
    /// Pastes `top` over this image, the top-left corner of `top` at
    /// `(x, y)`; what of `top` falls outside is cut off.
    pub fn paste(&mut self, top: &Image, x: i64, y: i64)
        ensures
            final(self)@ == old(self)@.replace(top@, x as int, y as int),
    {
        proof {
            use_type_invariant(&*self);
            use_type_invariant(top);
        }
        replace(self, top, x, y);
    }
}

/// Brings a captured image upright for an output with the given transform:
/// a quarter, half or three-quarter turn, after a mirroring for the flipped
/// transforms.
pub fn rotate_image_buffer(image: Image, transform: Transform) -> (out: Image)
    ensures
        out@ == image@.transformed(transform),
{
    proof {
        use_type_invariant(&image);
    }
    match transform {
        Transform::_90 => rotate90(&image),
        Transform::_180 => rotate180(&image),
        Transform::_270 => rotate270(&image),
        Transform::Flipped => flip_horizontal(&image),
        Transform::Flipped90 => {
            let flipped_buffer = flip_horizontal(&image);
            proof {
                use_type_invariant(&flipped_buffer);
            }
            rotate90(&flipped_buffer)
        },
        Transform::Flipped180 => {
            let flipped_buffer = flip_horizontal(&image);
            proof {
                use_type_invariant(&flipped_buffer);
            }
            rotate180(&flipped_buffer)
        },
        Transform::Flipped270 => {
            let flipped_buffer = flip_horizontal(&image);
            proof {
                use_type_invariant(&flipped_buffer);
            }
            rotate270(&flipped_buffer)
        },
        Transform::Normal => image,
    }
}

/// Two images of one size whose pixels agree everywhere are the same image.
pub proof fn lemma_same_pixels(a: ImageView, b: ImageView)
    requires
        a.wf(),
        b.wf(),
        a.width == b.width,
        a.height == b.height,
        forall|x: int, y: int|
            0 <= x < a.width && 0 <= y < a.height ==> #[trigger] a.rows[y][x] == b.rows[y][x],
    ensures
        a == b,
{
    assert forall|y: int| 0 <= y < a.height implies #[trigger] a.rows[y] =~= b.rows[y] by {}
    assert(a.rows =~= b.rows);
}

/// Law: two quarter turns make a half turn.
pub proof fn lemma_rotate90_twice(v: ImageView)
    requires
        v.wf(),
    ensures
        v.rotate90().rotate90() == v.rotate180(),
{
    lemma_same_pixels(v.rotate90().rotate90(), v.rotate180());
}

/// Law: three quarter turns make a three-quarter turn.
pub proof fn lemma_rotate90_thrice(v: ImageView)
    requires
        v.wf(),
    ensures
        v.rotate90().rotate90().rotate90() == v.rotate270(),
{
    lemma_rotate90_twice(v);
    lemma_same_pixels(v.rotate180().rotate90(), v.rotate270());
}

/// Law: four quarter turns bring every image back to itself.
pub proof fn lemma_rotate90_four_times(v: ImageView)
    requires
        v.wf(),
    ensures
        v.rotate90().rotate90().rotate90().rotate90() == v,
{
    lemma_rotate90_thrice(v);
    lemma_same_pixels(v.rotate270().rotate90(), v);
}

/// Law: mirroring twice brings every image back to itself.
pub proof fn lemma_flip_horizontal_twice(v: ImageView)
    requires
        v.wf(),
    ensures
        v.flip_horizontal().flip_horizontal() == v,
{
    lemma_same_pixels(v.flip_horizontal().flip_horizontal(), v);
}

} // verus!
