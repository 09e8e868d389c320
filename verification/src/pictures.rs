//! Pictures for the display. A picture is decoded from a GIF or PNG file and
//! held as rows of pixels of four bytes each: red, green, blue and alpha. To
//! show it, it is scaled down where it is larger than the screen, and each
//! pixel is written in the sixteen bits of the display: five of red, six of
//! green, five of blue.

use vstd::prelude::*;
use crate::framebuffer::Framebuffer;
use crate::layers::{high_byte, low_byte};

verus! {

/// A picture of `width` by `height` pixels. Pixel `x` of row `y` begins at
/// byte `4 * (y * width + x)` of `pixels`.
#[derive(Debug, Clone, PartialEq)]
pub struct Picture {
    pub width: u32,
    pub height: u32,
    pub pixels: Vec<u8>,
}

/// What a `Picture` holds, with the pixels as a sequence.
pub struct PictureView {
    pub width: u32,
    pub height: u32,
    pub pixels: Seq<u8>,
}

impl View for Picture {
    type V = PictureView;

    open spec fn view(&self) -> PictureView {
        PictureView { width: self.width, height: self.height, pixels: self.pixels@ }
    }
}

impl PictureView {
    /// Whether the picture holds four bytes for each of its pixels.
    pub open spec fn complete(self) -> bool {
        4 * (self.width * self.height) <= self.pixels.len()
    }
}

/// Why a file gives no picture.
#[derive(Clone, Copy, Debug, PartialEq, Eq, Structural)]
pub enum PictureError {
    /// The file is not an image that can be decoded.
    Undecodable,
    /// The image does not hold red, green, blue and alpha in a byte each.
    NotRgba8,
    /// The picture is too wide for this machine to scale it: the buffers
    /// that scaling needs would not fit in its memory.
    TooLarge,
}

/// How pixels are weighed when a picture is scaled.
#[derive(Clone, Copy, Debug, PartialEq, Eq, Structural)]
pub enum Filter {
    Nearest,
    Triangle,
    CatmullRom,
    Gaussian,
    Lanczos3,
}

/// One frame of an animation, and for how many milliseconds it is shown.
#[derive(Debug, Clone, PartialEq)]
pub struct GifFrame {
    pub picture: Picture,
    pub delay_ms: u32,
}

/// What a `GifFrame` holds.
pub struct GifFrameView {
    pub picture: PictureView,
    pub delay_ms: u32,
}

impl View for GifFrame {
    type V = GifFrameView;

    open spec fn view(&self) -> GifFrameView {
        GifFrameView { picture: self.picture@, delay_ms: self.delay_ms }
    }
}

/// The frames that `image::codecs::gif::GifDecoder` finds in a file, if it
/// can decode all of them.
pub uninterp spec fn decoded_gif(file: Seq<u8>) -> Option<Seq<GifFrameView>>;

/// What the result of decoding an animation holds.
pub open spec fn frames_result(r: Option<Vec<GifFrame>>) -> Option<Seq<GifFrameView>> {
    match r {
        Some(frames) => Some(Seq::new(frames@.len(), |i: int| frames@[i]@)),
        None => None,
    }
}

/// Whether this machine can scale a picture to `height` rows: scaling goes
/// through a buffer of sixteen bytes for each column of the picture and row
/// of the result, and no buffer is larger than half the address space.
pub open spec fn scalable(picture: PictureView, height: int) -> bool {
    32 * (picture.width * height) <= usize::MAX
}

/// `image::load_from_memory`, which guesses the format of a file and decodes
/// it, followed by `DynamicImage::as_rgba8`, which hands out the pixels
/// where the image holds them in four bytes. Which decoder reads the file
/// is for the process to say, so the contract says nothing of the picture
/// but that it holds all its pixels, which the image crate checks whenever
/// it makes an image buffer.
#[verifier::external_body]
fn decode_picture(file: &[u8]) -> (r: Result<Picture, PictureError>)
    ensures
        r matches Ok(picture) ==> picture@.complete(),
{
    match image::load_from_memory(file) {
        Ok(decoded) => match decoded.as_rgba8() {
            Some(rgba) => Ok(
                Picture { width: rgba.width(), height: rgba.height(), pixels: rgba.as_raw().clone() },
            ),
            None => Err(PictureError::NotRgba8),
        },
        Err(_) => Err(PictureError::Undecodable),
    }
}

/// `image::DynamicImage::resize` on a picture of four bytes a pixel, which
/// scales the picture to fit the bounds and keeps its proportions. The
/// pixels come out of arithmetic in floating point, so the contract says
/// nothing of the result but that it holds all its pixels. It asks for a
/// complete picture, which the image crate takes as a buffer of its own,
/// and for a picture and bounds small enough for the buffers that scaling
/// allocates: one of four floating-point numbers for each column of the
/// picture and row of the result, and the result itself.
#[verifier::external_body]
fn resize_picture(picture: &Picture, width: u32, height: u32, filter: Filter) -> (r: Picture)
    requires
        picture@.complete(),
        scalable(picture@, height as int),
        width <= 1024,
        height <= 1024,
    ensures
        r@.complete(),
{
    let how = match filter {
        Filter::Nearest => image::imageops::FilterType::Nearest,
        Filter::Triangle => image::imageops::FilterType::Triangle,
        Filter::CatmullRom => image::imageops::FilterType::CatmullRom,
        Filter::Gaussian => image::imageops::FilterType::Gaussian,
        Filter::Lanczos3 => image::imageops::FilterType::Lanczos3,
    };
    let source = image::RgbaImage::from_raw(picture.width, picture.height, picture.pixels.clone());
    let scaled = image::DynamicImage::ImageRgba8(source.unwrap()).resize(width, height, how);
    let rgba = scaled.into_rgba8();
    Picture { width: rgba.width(), height: rgba.height(), pixels: rgba.into_raw() }
}

/// `image::codecs::gif::GifDecoder::new` with `into_frames` and
/// `collect_frames`, which decode all frames of an animation or fail, and
/// for each frame the numerator of `Frame::delay` in milliseconds and the
/// pixels of `Frame::into_buffer`. The contract gives the outcome a name and
/// claims that each frame holds all its pixels.
#[verifier::external_body]
fn decode_gif(file: &[u8]) -> (r: Option<Vec<GifFrame>>)
    ensures
        frames_result(r) == decoded_gif(file@),
        r matches Some(frames) ==> forall|i: int|
            0 <= i < frames@.len() ==> (#[trigger] frames@[i]).picture@.complete(),
{
    let decoder = image::codecs::gif::GifDecoder::new(std::io::Cursor::new(file)).ok()?;
    let frames = image::AnimationDecoder::into_frames(decoder).collect_frames().ok()?;
    let mut found: Vec<GifFrame> = Vec::new();
    for frame in frames {
        let delay_ms = frame.delay().numer_denom_ms().0;
        let rgba = frame.into_buffer();
        let picture = Picture { width: rgba.width(), height: rgba.height(), pixels: rgba.into_raw() };
        found.push(GifFrame { picture, delay_ms });
    }
    Some(found)
}

/// The pixel of the display for a pixel of a picture: the upper five bits
/// of red, the upper six of green and the upper five of blue, from the top
/// bit down.
pub open spec fn rgb565(red: u8, green: u8, blue: u8) -> u16 {
    ((red / 8) * 2048 + (green / 4) * 32 + blue / 8) as u16
}

/// The smaller of two numbers.
pub open spec fn least(a: int, b: int) -> int {
    if a <= b {
        a
    } else {
        b
    }
}

/// The frame that shows a picture on a screen `w` wide and `h` high: the
/// pixels of the picture's rows, as far as rows and columns are on the
/// screen, one row after the other without a gap.
pub open spec fn encoded(picture: PictureView, w: int, h: int) -> Seq<u8> {
    let width = least(w, picture.width as int);
    let height = least(h, picture.height as int);
    Seq::new(
        (2 * (width * height)) as nat,
        |k: int|
            {
                let p = k / 2;
                let at = 4 * ((p / width) * picture.width + p % width);
                let pixel = rgb565(picture.pixels[at], picture.pixels[at + 1], picture.pixels[at + 2]);
                if k % 2 == 0 {
                    low_byte(pixel)
                } else {
                    high_byte(pixel)
                }
            },
    )
}

/// Whether a picture has to be scaled for a screen `w` wide and `h` high.
pub open spec fn too_big(picture: PictureView, w: int, h: int) -> bool {
    picture.height > h || picture.width > w
}

/// Whether `frame` shows some picture on a screen `w` wide and `h` high.
pub open spec fn shows_a_picture(frame: Seq<u8>, w: int, h: int) -> bool {
    exists|shown: PictureView| #[trigger] shown.complete() && frame == encoded(shown, w, h)
}

/// Whether `frame` shows `picture` on a screen `w` wide and `h` high. A
/// picture that fits the screen is shown as it is. One that does not is
/// scaled first, and what comes of that is for the scaling to say: the
/// frame then shows some picture.
pub open spec fn shows(picture: PictureView, frame: Seq<u8>, w: int, h: int) -> bool {
    if too_big(picture, w, h) {
        shows_a_picture(frame, w, h)
    } else {
        frame == encoded(picture, w, h)
    }
}

/// What becomes of a picture that was decoded, or was not: a frame that
/// shows it, or the reason for which there is none.
pub open spec fn shown_as(
    decoded: Result<Picture, PictureError>,
    r: Result<Vec<u8>, PictureError>,
    w: int,
    h: int,
) -> bool {
    match decoded {
        Ok(picture) => if scalable(picture@, h) {
            r matches Ok(frame) && shows(picture@, frame@, w, h)
        } else {
            r == Err::<Vec<u8>, PictureError>(PictureError::TooLarge)
        },
        Err(e) => r == Err::<Vec<u8>, PictureError>(e),
    }
}

/// Whether this machine can scale every frame of an animation.
pub open spec fn all_scalable(frames: Seq<GifFrameView>, height: int) -> bool {
    forall|i: int| 0 <= i < frames.len() ==> scalable((#[trigger] frames[i]).picture, height)
}

/// One frame for the display, and for how many milliseconds it is shown.
#[derive(Debug, Clone, PartialEq)]
pub struct TimedFrame {
    pub frame: Vec<u8>,
    pub delay_ms: u64,
}

impl<'a> Framebuffer<'a> {
    /// The frame that shows a picture that needs no scaling, or has had it.
    pub fn encode(&self, picture: &Picture) -> (frame: Vec<u8>)
        requires
            picture@.complete(),
        ensures
            frame@ == encoded(picture@, self.w(), self.h()),
    {
        let screen_width: u32 = self.width();
        let screen_height: u32 = self.height();
        let width: usize = if picture.width < screen_width {
            picture.width as usize
        } else {
            screen_width as usize
        };
        let height: usize = if picture.height < screen_height {
            picture.height as usize
        } else {
            screen_height as usize
        };
        let stride: usize = picture.width as usize;
        let ghost want = encoded(picture@, 128, 128);
        let total: usize = picture.pixels.len();
        let mut buf: Vec<u8> = Vec::new();
        let mut y: usize = 0;
        while y < height
            invariant
                y <= height,
                width == least(128, picture.width as int),
                height == least(128, picture.height as int),
                stride == picture.width,
                picture@.complete(),
                picture.pixels@.len() == total,
                want == encoded(picture@, 128, 128),
                buf@.len() == 2 * (width * y),
                forall|k: int| 0 <= k < buf@.len() ==> buf@[k] == want[k],
            decreases height - y,
        {
            let mut x: usize = 0;
            while x < width
                invariant
                    x <= width,
                    y < height,
                    width == least(128, picture.width as int),
                    height == least(128, picture.height as int),
                    stride == picture.width,
                    picture@.complete(),
                    picture.pixels@.len() == total,
                    want == encoded(picture@, 128, 128),
                    buf@.len() == 2 * (width * y + x),
                    forall|k: int| 0 <= k < buf@.len() ==> buf@[k] == want[k],
                decreases width - x,
            {
                let ghost p = width * y + x;
                proof {
                    assert(p == y * width + x) by (nonlinear_arith)
                        requires
                            p == width * y + x,
                    ;
                    vstd::arithmetic::div_mod::lemma_fundamental_div_mod_converse(
                        p as int,
                        width as int,
                        y as int,
                        x as int,
                    );
                    assert(0 <= y * stride && y * stride + x < picture.width * picture.height)
                        by (nonlinear_arith)
                        requires
                            0 <= x < width,
                            width <= stride,
                            0 <= y < height,
                            height <= picture.height,
                            stride == picture.width,
                    ;
                    assert(p < width * height && width * height <= 128 * 128) by (nonlinear_arith)
                        requires
                            p == width * y + x,
                            x < width,
                            y < height,
                            width <= 128,
                            height <= 128,
                    ;
                }
                let at: usize = 4 * (y * stride + x);
                let red: u16 = picture.pixels[at] as u16;
                let green: u16 = picture.pixels[at + 1] as u16;
                let blue: u16 = picture.pixels[at + 2] as u16;
                let rgb565: u16 = (red / 8) * 2048 + (green / 4) * 32 + blue / 8;
                buf.push((rgb565 % 256) as u8);
                buf.push((rgb565 / 256) as u8);
                x += 1;
            }
            assert(width * y + width == width * (y + 1)) by (nonlinear_arith);
            y += 1;
        }
        assert(buf@ =~= want);
        buf
    }

    /// Whether this machine can scale a picture to the screen.
    pub fn can_scale(&self, picture: &Picture) -> (can: bool)
        ensures
            can == scalable(picture@, self.h()),
    {
        let height: u32 = self.height();
        let per_row: u64 = picture.width as u64 * 32;
        assert(per_row * height == 32 * (picture.width * height) && per_row * height
            <= 0xffff_ffff * 32 * 128) by (nonlinear_arith)
            requires
                per_row == picture.width * 32,
                picture.width <= 0xffff_ffff,
                height == 128,
        ;
        per_row * (height as u64) <= usize::MAX as u64
    }

    /// The frame that shows a picture: the picture is scaled to fit the
    /// screen where it is larger, and then written pixel by pixel.
    pub fn write(&self, img: &Picture) -> (frame: Vec<u8>)
        requires
            img@.complete(),
            scalable(img@, self.h()),
        ensures
            shows(img@, frame@, self.w(), self.h()),
    {
        let screen_width: u32 = self.width();
        let screen_height: u32 = self.height();
        if img.height > screen_height || img.width > screen_width {
            let resized: Picture = resize_picture(
                img,
                screen_width,
                screen_height,
                Filter::CatmullRom,
            );
            let frame: Vec<u8> = self.encode(&resized);
            assert(resized@.complete() && frame@ == encoded(resized@, self.w(), self.h()));
            frame
        } else {
            self.encode(img)
        }
    }

    /// The frame for what came of decoding a file: the frame that shows the
    /// picture where there is one and this machine can scale it, and else
    /// the reason for which there is none.
    pub fn draw_decoded(&self, decoded: Result<Picture, PictureError>) -> (r: Result<
        Vec<u8>,
        PictureError,
    >)
        requires
            decoded matches Ok(picture) ==> picture@.complete(),
        ensures
            shown_as(decoded, r, self.w(), self.h()),
    {
        let img: Picture = decoded?;
        if !self.can_scale(&img) {
            return Err(PictureError::TooLarge);
        }
        Ok(self.write(&img))
    }

    /// The frame that shows the picture of a file, if the file holds a
    /// picture that can be shown. What the file decodes to is for the image
    /// decoders of the process to say; whatever it is, the result is what
    /// `draw_decoded` makes of it.
    pub fn draw_img(&self, img_buffer: &[u8]) -> (r: Result<Vec<u8>, PictureError>)
        ensures
            exists|decoded: Result<Picture, PictureError>|
                (decoded matches Ok(picture) ==> picture@.complete()) && #[trigger] shown_as(
                    decoded,
                    r,
                    self.w(),
                    self.h(),
                ),
            r matches Ok(frame) ==> shows_a_picture(frame@, self.w(), self.h()),
    {
        let decoded: Result<Picture, PictureError> = decode_picture(img_buffer);
        let ghost outcome = decoded;
        let r: Result<Vec<u8>, PictureError> = self.draw_decoded(decoded);
        assert(shown_as(outcome, r, self.w(), self.h()));
        r
    }

    /// The frames that show the animation of a file one after the other,
    /// each with the time for which it is shown, if the file holds an
    /// animation that can be shown.
    pub fn draw_gif(&self, img_buffer: &[u8]) -> (r: Result<Vec<TimedFrame>, PictureError>)
        ensures
            match decoded_gif(img_buffer@) {
                Some(frames) => if all_scalable(frames, self.h()) {
                    &&& r matches Ok(shown)
                    &&& shown@.len() == frames.len()
                    &&& forall|i: int|
                        0 <= i < frames.len() ==> shows(
                            frames[i].picture,
                            (#[trigger] shown@[i]).frame@,
                            self.w(),
                            self.h(),
                        ) && shown@[i].delay_ms == frames[i].delay_ms
                } else {
                    r == Err::<Vec<TimedFrame>, PictureError>(PictureError::TooLarge)
                },
                None => r == Err::<Vec<TimedFrame>, PictureError>(PictureError::Undecodable),
            },
    {
        let frames: Vec<GifFrame> = match decode_gif(img_buffer) {
            Some(frames) => frames,
            None => {
                return Err(PictureError::Undecodable);
            },
        };
        let ghost views = decoded_gif(img_buffer@)->Some_0;
        assert(frames_result(Some(frames)) == Some(views));
        let mut shown: Vec<TimedFrame> = Vec::new();
        let mut i: usize = 0;
        while i < frames.len()
            invariant
                i <= frames@.len(),
                decoded_gif(img_buffer@) == Some(views),
                views.len() == frames@.len(),
                forall|j: int| 0 <= j < frames@.len() ==> (#[trigger] frames@[j])@ == views[j],
                forall|j: int|
                    0 <= j < frames@.len() ==> (#[trigger] frames@[j]).picture@.complete(),
                forall|j: int| 0 <= j < i ==> scalable((#[trigger] views[j]).picture, self.h()),
                shown@.len() == i,
                forall|j: int|
                    0 <= j < i ==> shows(
                        views[j].picture,
                        (#[trigger] shown@[j]).frame@,
                        self.w(),
                        self.h(),
                    ) && shown@[j].delay_ms == views[j].delay_ms,
            decreases frames@.len() - i,
        {
            let picture: &Picture = &frames[i].picture;
            if !self.can_scale(picture) {
                assert(frames@[i as int]@ == views[i as int]);
                assert(!scalable(views[i as int].picture, self.h()));
                return Err(PictureError::TooLarge);
            }
            let frame: Vec<u8> = self.write(picture);
            shown.push(TimedFrame { frame, delay_ms: frames[i].delay_ms as u64 });
            i += 1;
        }
        Ok(shown)
    }
}

} // verus!
