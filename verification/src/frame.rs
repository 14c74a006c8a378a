use vstd::prelude::*;
use vstd::string::*;
use crate::error::ImgToTerminalError;
use crate::geometry::{proportional_size, spec_proportional_size, fitted_height};

verus! {

/// An RGBA image, 8 bits per channel, rows stored top to bottom and pixels
/// left to right, four bytes each. The buffer may be longer than the image.
pub struct Frame {
    width: u32,
    height: u32,
    data: Vec<u8>,
}

/// Index of channel `k` of pixel `(x, y)` in a buffer with `channels` bytes per
/// pixel and `width` pixels per row.
pub open spec fn channel_index(width: int, channels: int, x: int, y: int, k: int) -> int {
    (y * width + x) * channels + k
}

impl Frame {
    /// Width in pixels.
    pub closed spec fn w(self) -> u32 {
        self.width
    }

    /// Height in pixels.
    pub closed spec fn h(self) -> u32 {
        self.height
    }

    /// The raw buffer.
    pub closed spec fn bytes(self) -> Seq<u8> {
        self.data@
    }

    #[verifier::type_invariant]
    closed spec fn fits(self) -> bool {
        self.width as int * self.height as int * 4 <= self.data.len()
    }

    /// Channel `k` (0 red, 1 green, 2 blue, 3 alpha) of pixel `(x, y)`.
    pub open spec fn channel(self, x: int, y: int, k: int) -> u8 {
        self.bytes()[channel_index(self.w() as int, 4, x, y, k)]
    }

    /// A frame over `data`, when `data` holds at least `width * height`
    /// pixels; nothing otherwise.
    pub fn from_raw(width: u32, height: u32, data: Vec<u8>) -> (r: Option<Frame>)
        ensures
            r is Some <==> width as int * height as int * 4 <= data@.len(),
            r matches Some(f) ==> f.w() == width && f.h() == height && f.bytes() == data@,
    {
        let len: usize = data.len();
        let fits: bool = match (width as usize).checked_mul(height as usize) {
            Some(px) => match px.checked_mul(4) {
                Some(n) => n <= len,
                None => false,
            },
            None => false,
        };
        if fits {
            Some(Frame { width, height, data })
        } else {
            proof {
                if width as int * height as int * 4 <= len {
                    assert(width as int * height as int <= usize::MAX) by (nonlinear_arith)
                        requires
                            width as int * height as int * 4 <= len,
                            len <= usize::MAX,
                    ;
                }
            }
            None
        }
    }

    /// Width in pixels.
    pub fn width(&self) -> (r: u32)
        ensures
            r == self.w(),
    {
        self.width
    }

    /// Height in pixels.
    pub fn height(&self) -> (r: u32)
        ensures
            r == self.h(),
    {
        self.height
    }

    /// The frame's size in pixels, `(width, height)`.
    pub fn dimensions(&self) -> (r: (u32, u32))
        ensures
            r == (self.w(), self.h()),
    {
        (self.width, self.height)
    }

    /// Every pixel of the frame lies inside its buffer.
    pub fn buffer_fits(&self)
        ensures
            self.w() as int * self.h() as int * 4 <= self.bytes().len(),
    {
        proof {
            use_type_invariant(self);
        }
    }

    /// The red, green and blue channels of pixel `(x, y)`.
    pub fn rgb(&self, x: u32, y: u32) -> (r: (u8, u8, u8))
        requires
            x < self.w(),
            y < self.h(),
        ensures
            r == (self.channel(x as int, y as int, 0), self.channel(x as int, y as int, 1),
                self.channel(x as int, y as int, 2)),
    {
        proof {
            use_type_invariant(self);
            assert((y as int * self.width as int + x as int) * 4 + 3 < self.width as int
                * self.height as int * 4) by (nonlinear_arith)
                requires
                    x < self.width,
                    y < self.height,
            ;
        }
        let base: usize = (y as usize * self.width as usize + x as usize) * 4;
        (self.data[base], self.data[base + 1], self.data[base + 2])
    }

    /// The raw buffer.
    pub fn into_raw(self) -> (r: Vec<u8>)
        ensures
            r@ == self.bytes(),
    {
        self.data
    }
}

/// The rows of a decoded RGB24 video frame that lie wholly inside `src`,
/// laid out without padding: row `y` starts at `y * stride` and is
/// `row_len` bytes long. Only the first `n` rows are considered.
pub open spec fn rows_inside(src: Seq<u8>, row_len: int, stride: int, n: nat) -> Seq<u8>
    decreases n,
{
    if n == 0 {
        Seq::empty()
    } else {
        let before = rows_inside(src, row_len, stride, (n - 1) as nat);
        let start = (n - 1) * stride;
        if start + row_len <= src.len() {
            before + src.subrange(start, start + row_len)
        } else {
            before
        }
    }
}

/// The RGB24 pixels of a `width x height` video frame whose rows are
/// `stride` bytes apart in `src`: when the rows are unpadded, the leading bytes
/// of `src` (as many as the frame needs, or all there are); otherwise the
/// rows that lie wholly inside `src`, with the padding left out.
pub open spec fn packed_rows(src: Seq<u8>, width: u32, height: u32, stride: usize) -> Seq<u8> {
    let row_len = width as int * 3;
    if stride == row_len {
        let n = row_len * height;
        if n <= src.len() {
            src.take(n)
        } else {
            src
        }
    } else {
        rows_inside(src, row_len, stride as int, height as nat)
    }
}

proof fn lemma_rows_inside_len(src: Seq<u8>, row_len: int, stride: int, n: nat)
    requires
        row_len >= 0,
        stride >= 0,
        n > 0 ==> (n - 1) * stride + row_len <= src.len(),
    ensures
        rows_inside(src, row_len, stride, n).len() == n * row_len,
    decreases n,
{
    if n == 0 {
        assert(n * row_len == 0);
    } else {
        if n > 1 {
            assert((n - 2) * stride + row_len <= (n - 1) * stride + row_len) by (nonlinear_arith)
                requires
                    stride >= 0,
                    n >= 2,
            ;
        }
        lemma_rows_inside_len(src, row_len, stride, (n - 1) as nat);
        let start = (n - 1) * stride;
        assert(start >= 0) by (nonlinear_arith)
            requires
                n >= 1,
                stride >= 0,
                start == (n - 1) * stride,
        ;
        assert(start + row_len <= src.len());
        assert(src.subrange(start, start + row_len).len() == row_len);
        assert(rows_inside(src, row_len, stride, n) == rows_inside(src, row_len, stride, (n - 1) as nat)
            + src.subrange(start, start + row_len));
        assert(((n - 1) as nat) * row_len + row_len == n * row_len) by (nonlinear_arith)
            requires
                n >= 1,
        ;
    }
}

/// When every row of a decoded video frame lies inside its buffer, unpacking
/// keeps all of them: the packed pixels are exactly `width * height` RGB
/// triples, with or without row padding.
pub proof fn lemma_complete_frame_packs_fully(src: Seq<u8>, width: u32, height: u32, stride: usize)
    requires
        stride >= width as int * 3,
        height > 0 ==> (height - 1) * stride + width as int * 3 <= src.len(),
    ensures
        packed_rows(src, width, height, stride).len() == width as int * height as int * 3,
{
    let row_len = width as int * 3;
    if stride == row_len {
        if height > 0 {
            assert((height - 1) * stride + row_len == row_len * height) by (nonlinear_arith)
                requires
                    stride == row_len,
            ;
        }
        assert(row_len * height == width as int * height as int * 3) by (nonlinear_arith)
            requires
                row_len == width as int * 3,
        ;
    } else {
        lemma_rows_inside_len(src, row_len, stride as int, height as nat);
        assert(height as int * row_len == width as int * height as int * 3) by (nonlinear_arith)
            requires
                row_len == width as int * 3,
        ;
    }
}

proof fn lemma_rows_inside_content(src: Seq<u8>, row_len: int, stride: int, n: nat, y: int, i: int)
    requires
        row_len >= 0,
        stride >= 0,
        n > 0 ==> (n - 1) * stride + row_len <= src.len(),
        0 <= y < n,
        0 <= i < row_len,
    ensures
        y * row_len + i < rows_inside(src, row_len, stride, n).len(),
        rows_inside(src, row_len, stride, n)[y * row_len + i] == src[y * stride + i],
    decreases n,
{
    lemma_rows_inside_len(src, row_len, stride, n);
    assert(y * row_len + i < n * row_len) by (nonlinear_arith)
        requires
            0 <= y < n,
            0 <= i < row_len,
    ;
    if n > 1 {
        assert((n - 2) * stride + row_len <= (n - 1) * stride + row_len) by (nonlinear_arith)
            requires
                stride >= 0,
                n >= 2,
        ;
    }
    let start = (n - 1) * stride;
    assert(start >= 0) by (nonlinear_arith)
        requires
            n >= 1,
            stride >= 0,
            start == (n - 1) * stride,
    ;
    let before = rows_inside(src, row_len, stride, (n - 1) as nat);
    assert(rows_inside(src, row_len, stride, n) == before + src.subrange(start, start + row_len));
    lemma_rows_inside_len(src, row_len, stride, (n - 1) as nat);
    if y < n - 1 {
        lemma_rows_inside_content(src, row_len, stride, (n - 1) as nat, y, i);
    } else {
        assert(y * row_len == (n - 1) as nat * row_len);
        assert(y * stride == start);
    }
}

/// When every row of a decoded video frame lies inside its buffer, unpacking
/// keeps each row's pixels in place: byte `i` of row `y` of the packed frame is
/// byte `i` of the row that starts at `y * stride` in the buffer.
pub proof fn lemma_complete_frame_keeps_rows(src: Seq<u8>, width: u32, height: u32, stride: usize, y: int, i: int)
    requires
        stride >= width as int * 3,
        height > 0 ==> (height - 1) * stride + width as int * 3 <= src.len(),
        0 <= y < height,
        0 <= i < width as int * 3,
    ensures
        y * (width as int * 3) + i < packed_rows(src, width, height, stride).len(),
        packed_rows(src, width, height, stride)[y * (width as int * 3) + i] == src[y * stride + i],
{
    let row_len = width as int * 3;
    lemma_complete_frame_packs_fully(src, width, height, stride);
    assert(y * row_len + i < row_len * height) by (nonlinear_arith)
        requires
            0 <= y < height,
            0 <= i < row_len,
    ;
    assert(row_len * height == width as int * height as int * 3) by (nonlinear_arith)
        requires
            row_len == width as int * 3,
    ;
    if stride == row_len {
        assert(y * stride == y * row_len);
    } else {
        lemma_rows_inside_content(src, row_len, stride as int, height as nat, y, i);
    }
}

/// The frame sizes for which unpacking a video frame stays in range.
pub open spec fn packing_in_range(width: u32, height: u32, stride: usize) -> bool {
    &&& width as int * 3 <= usize::MAX
    &&& width as int * 3 * height as int <= usize::MAX
    &&& stride != width as int * 3 ==> width as int * 3 * height as int <= isize::MAX
    &&& stride != width as int * 3 && height > 0 ==> (height - 1) * stride + width as int * 3
        <= usize::MAX
}

/// Copies `src[from..to]` to the end of `out`.
fn extend_from_range(out: &mut Vec<u8>, src: &[u8], from: usize, to: usize)
    requires
        from <= to <= src@.len(),
    ensures
        final(out)@ == old(out)@ + src@.subrange(from as int, to as int),
{
    let mut i: usize = from;
    while i < to
        invariant
            from <= i <= to <= src@.len(),
            out@ == old(out)@ + src@.subrange(from as int, i as int),
        decreases to - i,
    {
        out.push(src[i]);
        assert(src@.subrange(from as int, i + 1) =~= src@.subrange(from as int, i as int).push(
            src@[i as int],
        ));
        i = i + 1;
    }
}

/// The RGB24 pixels of a decoded video frame, with any padding at the end of
/// each row removed.
pub fn pack_rows(src: &[u8], width: u32, height: u32, stride: usize) -> (r: Vec<u8>)
    requires
        packing_in_range(width, height, stride),
    ensures
        r@ == packed_rows(src@, width, height, stride),
{
    let row_len: usize = width as usize * 3;
    let mut out: Vec<u8> = Vec::new();
    if stride == row_len {
        let wanted: usize = row_len * height as usize;
        let n: usize = if wanted < src.len() { wanted } else { src.len() };
        extend_from_range(&mut out, src, 0, n);
        assert(out@ =~= packed_rows(src@, width, height, stride));
    } else {
        let mut y: u32 = 0;
        while y < height
            invariant
                packing_in_range(width, height, stride),
                stride != row_len,
                row_len == width as int * 3,
                y <= height,
                out@ == rows_inside(src@, row_len as int, stride as int, y as nat),
            decreases height - y,
        {
            assert(y as int * stride as int + row_len <= usize::MAX) by (nonlinear_arith)
                requires
                    y < height,
                    (height - 1) * stride + row_len <= usize::MAX,
                    stride >= 0,
            ;
            let start: usize = y as usize * stride;
            let end: usize = start + row_len;
            if end <= src.len() {
                extend_from_range(&mut out, src, start, end);
            }
            y = y + 1;
        }
    }
    out
}

/// What `image::imageops::resize` with the triangle filter makes of the image
/// `width x height`, `channels` bytes a pixel, stored in `data`, scaled to
/// `new_width x new_height`, as its raw buffer.
pub uninterp spec fn resized(channels: nat, data: Seq<u8>, width: u32, height: u32, new_width: u32, new_height: u32) -> Seq<u8>;

/// The RGBA buffer of `pixels` RGB pixels stored in `data`: each pixel's red,
/// green and blue bytes copied, and an opaque alpha of 255 added.
pub open spec fn rgb_with_alpha(data: Seq<u8>, pixels: nat) -> Seq<u8> {
    Seq::new(
        pixels * 4,
        |i: int|
            if i % 4 == 3 {
                255u8
            } else {
                data[(i / 4) * 3 + i % 4]
            },
    )
}

/// The sizes for which resizing a `width x height` image to
/// `new_width x new_height` allocates no more than a vector can hold: the
/// resampler keeps a `width x new_height` image of four `f32` channels, and
/// the result has `new_width x new_height` pixels of at most four bytes.
pub open spec fn resize_in_range(width: u32, new_width: u32, new_height: u32) -> bool {
    &&& width as int * new_height as int * 16 <= isize::MAX
    &&& new_width as int * new_height as int * 4 <= isize::MAX
}

/// Calls `image::imageops::resize` (triangle filter) on the RGBA image that
/// `image::RgbaImage::from_raw` builds over `data`. As `from_raw`'s source
/// shows, it builds one exactly when `data` holds `width * height` pixels (and
/// nothing is resized otherwise); the resized buffer has
/// `new_width * new_height` pixels (it is made by `ImageBuffer::new`). Its
/// contents are named, not spelled out.
#[verifier::external_body]
fn resize_rgba8(data: Vec<u8>, width: u32, height: u32, new_width: u32, new_height: u32) -> (r: Option<Vec<u8>>)
    requires
        width as int * height as int * 4 <= data@.len() ==> resize_in_range(width, new_width, new_height),
    ensures
        r is Some <==> width as int * height as int * 4 <= data@.len(),
        r matches Some(v) ==> v@ == resized(4, data@, width, height, new_width, new_height)
            && v@.len() == new_width as int * new_height as int * 4,
{
    let img = match image::RgbaImage::from_raw(width, height, data) {
        Some(img) => img,
        None => return None,
    };
    Some(image::imageops::resize(&img, new_width, new_height, image::imageops::FilterType::Triangle).into_raw())
}

/// Calls `image::imageops::resize` (triangle filter) on the RGB image that
/// `image::RgbImage::from_raw` builds over `data`. As `from_raw`'s source
/// shows, it builds one exactly when `data` holds `width * height` pixels (and
/// nothing is resized otherwise); the resized buffer has
/// `new_width * new_height` pixels (it is made by `ImageBuffer::new`). Its
/// contents are named, not spelled out.
#[verifier::external_body]
fn resize_rgb8(data: Vec<u8>, width: u32, height: u32, new_width: u32, new_height: u32) -> (r: Option<Vec<u8>>)
    requires
        width as int * height as int * 3 <= data@.len() ==> resize_in_range(width, new_width, new_height),
    ensures
        r is Some <==> width as int * height as int * 3 <= data@.len(),
        r matches Some(v) ==> v@ == resized(3, data@, width, height, new_width, new_height)
            && v@.len() == new_width as int * new_height as int * 3,
{
    let img = match image::RgbImage::from_raw(width, height, data) {
        Some(img) => img,
        None => return None,
    };
    Some(image::imageops::resize(&img, new_width, new_height, image::imageops::FilterType::Triangle).into_raw())
}

/// Calls `image::DynamicImage::to_rgba8` on the RGB image over `data` (built by
/// `image::RgbImage::from_raw`, which succeeds exactly when `data` holds
/// `width * height` pixels). For 8-bit RGB the conversion copies each pixel's
/// red, green and blue bytes and sets alpha to 255, as the `image` source shows
/// (`cast_pixels` in `metadata/cicp.rs`, identity `FromPrimitive` for `u8`).
#[verifier::external_body]
fn rgb8_to_rgba8(data: Vec<u8>, width: u32, height: u32) -> (r: Option<Vec<u8>>)
    requires
        width as int * height as int * 4 <= isize::MAX,
    ensures
        r is Some <==> width as int * height as int * 3 <= data@.len(),
        r matches Some(v) ==> v@ == rgb_with_alpha(data@, (width as int * height as int) as nat),
{
    let img = match image::RgbImage::from_raw(width, height, data) {
        Some(img) => img,
        None => return None,
    };
    Some(image::DynamicImage::ImageRgb8(img).to_rgba8().into_raw())
}

/// The size a frame `width x height` is scaled to on a screen `target_width`
/// columns wide and `max_height` pixel rows tall.
pub open spec fn fitted_size(width: u32, height: u32, target_width: u32, max_height: u32) -> (u32, u32) {
    let s = spec_proportional_size(width, height, target_width, max_height);
    (s.0 as u32, s.1 as u32)
}

/// The still-image sizes for which fitting stays in range.
pub open spec fn fit_in_range(width: u32, height: u32, target_width: u32, max_height: u32) -> bool {
    let s = fitted_size(width, height, target_width, max_height);
    resize_in_range(width, s.0, s.1)
}

/// The still image `src` scaled, aspect ratio kept, to fit a screen
/// `target_width` columns wide and `max_height` pixel rows tall.
pub fn fit_frame(src: &Frame, target_width: u32, max_height: u32) -> (r: Frame)
    requires
        fit_in_range(src.w(), src.h(), target_width, max_height),
    ensures
        (r.w(), r.h()) == fitted_size(src.w(), src.h(), target_width, max_height),
        r.bytes() == resized(4, src.bytes(), src.w(), src.h(), r.w(), r.h()),
        r.bytes().len() == r.w() as int * r.h() as int * 4,
{
    let (w, h): (u32, u32) = src.dimensions();
    src.buffer_fits();
    let (out_w, out_h): (u32, u32) = proportional_size(w, h, target_width, max_height);
    let data: Vec<u8> = src.data.clone();
    assert(data@ == src.bytes());
    let pixels: Vec<u8> = resize_rgba8(data, w, h, out_w, out_h).unwrap();
    Frame { width: out_w, height: out_h, data: pixels }
}

/// The RGBA pixels of the RGB frame `width x height` in `rgb`, scaled to
/// `out_w x out_h` and given an opaque alpha channel.
pub open spec fn spec_rgb_frame_bytes(rgb: Seq<u8>, width: u32, height: u32, out_w: u32, out_h: u32) -> Seq<u8> {
    rgb_with_alpha(
        resized(3, rgb, width, height, out_w, out_h),
        (out_w as int * out_h as int) as nat,
    )
}

/// The message of the error for a decoded frame without enough data.
pub open spec fn short_frame_text() -> Seq<char> {
    "dimensioni frame non valide"@
}

/// The RGB frame `width x height` held in `rgb` (as `pack_rows` gives it),
/// scaled to `out_w x out_h` as an RGBA frame. When `rgb` does not hold the
/// whole frame, a decode error.
pub fn rgb_frame(rgb: Vec<u8>, width: u32, height: u32, out_w: u32, out_h: u32) -> (r: Result<Frame, ImgToTerminalError>)
    requires
        width as int * height as int * 3 <= rgb@.len() ==> resize_in_range(width, out_w, out_h),
    ensures
        r is Ok <==> width as int * height as int * 3 <= rgb@.len(),
        match r {
            Ok(f) => {
                &&& f.w() == out_w
                &&& f.h() == out_h
                &&& f.bytes() == spec_rgb_frame_bytes(rgb@, width, height, out_w, out_h)
                &&& f.bytes().len() == out_w as int * out_h as int * 4
            },
            Err(e) => e matches ImgToTerminalError::VideoDecode(s) && s@ == short_frame_text(),
        },
{
    match resize_rgb8(rgb, width, height, out_w, out_h) {
        Some(resized) => {
            let rgba: Vec<u8> = rgb8_to_rgba8(resized, out_w, out_h).unwrap();
            Ok(Frame { width: out_w, height: out_h, data: rgba })
        },
        None => Err(ImgToTerminalError::VideoDecode(String::from_str("dimensioni frame non valide"))),
    }
}

/// The frames of a video, all scaled to the one size that the video's own
/// size fits on the screen, collected up to the end of the decoded stream.
pub struct VideoFrames {
    out_w: u32,
    out_h: u32,
    frames: Vec<Frame>,
    ended: bool,
}

impl VideoFrames {
    /// The size every frame is scaled to.
    pub closed spec fn size(self) -> (u32, u32) {
        (self.out_w, self.out_h)
    }

    /// The frames collected so far.
    pub closed spec fn collected(self) -> Seq<Frame> {
        self.frames@
    }

    /// The decoded stream has ended: later frames are not taken.
    pub closed spec fn is_ended(self) -> bool {
        self.ended
    }

    #[verifier::type_invariant]
    closed spec fn all_sized(self) -> bool {
        forall|i: int|
            0 <= i < self.frames@.len() ==> (#[trigger] self.frames@[i]).w() == self.out_w
                && self.frames@[i].h() == self.out_h
    }

    /// No frames yet, for a video `in_w x in_h` shown on a screen
    /// `target_width` columns wide and `max_height` pixel rows tall.
    pub fn new(in_w: u32, in_h: u32, target_width: u32, max_height: u32) -> (v: VideoFrames)
        ensures
            v.size() == fitted_size(in_w, in_h, target_width, max_height),
            v.collected() == Seq::<Frame>::empty(),
            !v.is_ended(),
    {
        let (out_w, out_h): (u32, u32) = proportional_size(in_w, in_h, target_width, max_height);
        VideoFrames { out_w, out_h, frames: Vec::new(), ended: false }
    }

    /// The size every frame is scaled to.
    pub fn frame_size(&self) -> (r: (u32, u32))
        ensures
            r == self.size(),
    {
        (self.out_w, self.out_h)
    }

    /// Adds the decoded RGB frame `width x height` in `rgb` (as `pack_rows`
    /// gives it), scaled to the common size. When `rgb` does not hold the
    /// whole frame, a decode error, and nothing is added.
    pub fn push_rgb(&mut self, rgb: Vec<u8>, width: u32, height: u32) -> (r: Result<(), ImgToTerminalError>)
        requires
            width as int * height as int * 3 <= rgb@.len() ==> resize_in_range(
                width,
                old(self).size().0,
                old(self).size().1,
            ),
        ensures
            final(self).size() == old(self).size(),
            final(self).is_ended() == old(self).is_ended(),
            r is Ok <==> width as int * height as int * 3 <= rgb@.len(),
            match r {
                Ok(_) => final(self).collected().len() == old(self).collected().len() + 1
                    && final(self).collected().drop_last() == old(self).collected()
                    && final(self).collected().last().bytes() == spec_rgb_frame_bytes(
                    rgb@,
                    width,
                    height,
                    old(self).size().0,
                    old(self).size().1,
                ),
                Err(e) => final(self).collected() == old(self).collected() && (
                e matches ImgToTerminalError::VideoDecode(s) && s@ == short_frame_text()),
            },
    {
        proof {
            use_type_invariant(&*self);
        }
        let frame = rgb_frame(rgb, width, height, self.out_w, self.out_h)?;
        let mut frames: Vec<Frame> = Vec::new();
        std::mem::swap(&mut frames, &mut self.frames);
        frames.push(frame);
        self.frames = frames;
        Ok(())
    }

    /// Takes the next item of the decoded stream: a decoded RGB frame
    /// `(rgb, width, height)` (as `pack_rows` gives it), or nothing when the
    /// stream has ended or a frame could not be decoded. Answers whether to go
    /// on reading. Once the stream has ended, nothing more is taken.
    pub fn accept(&mut self, decoded: Option<(Vec<u8>, u32, u32)>) -> (r: Result<bool, ImgToTerminalError>)
        requires
            !old(self).is_ended() ==> match decoded {
                Some((rgb, width, height)) => width as int * height as int * 3 <= rgb@.len()
                    ==> resize_in_range(width, old(self).size().0, old(self).size().1),
                None => true,
            },
        ensures
            final(self).size() == old(self).size(),
            old(self).is_ended() ==> final(self).is_ended() && final(self).collected()
                == old(self).collected() && r == Ok::<bool, ImgToTerminalError>(false),
            !old(self).is_ended() ==> match decoded {
                None => final(self).is_ended() && final(self).collected() == old(self).collected()
                    && r == Ok::<bool, ImgToTerminalError>(false),
                Some((rgb, width, height)) => {
                    &&& !final(self).is_ended()
                    &&& r is Ok <==> width as int * height as int * 3 <= rgb@.len()
                    &&& match r {
                        Ok(go_on) => go_on && final(self).collected() == old(self).collected().push(
                            final(self).collected().last(),
                        ) && final(self).collected().last().bytes() == spec_rgb_frame_bytes(
                            rgb@,
                            width,
                            height,
                            old(self).size().0,
                            old(self).size().1,
                        ),
                        Err(e) => final(self).collected() == old(self).collected() && (
                        e matches ImgToTerminalError::VideoDecode(s) && s@ == short_frame_text()),
                    }
                },
            },
    {
        proof {
            use_type_invariant(&*self);
        }
        if self.ended {
            return Ok(false);
        }
        match decoded {
            None => {
                self.ended = true;
                Ok(false)
            },
            Some((rgb, width, height)) => {
                self.push_rgb(rgb, width, height)?;
                proof {
                    assert(self.frames@ =~= old(self).frames@.push(self.frames@.last()));
                }
                Ok(true)
            },
        }
    }

    /// The collected frames, each of the common size; a no-frames error
    /// naming `path` when there are none.
    pub fn into_frames(self, path: String) -> (r: Result<Vec<Frame>, ImgToTerminalError>)
        ensures
            r is Ok <==> self.collected().len() > 0,
            match r {
                Ok(v) => v@ == self.collected() && forall|i: int|
                    0 <= i < v@.len() ==> (#[trigger] v@[i]).w() == self.size().0 && v@[i].h()
                        == self.size().1,
                Err(e) => e == ImgToTerminalError::NoFrames(path),
            },
    {
        proof {
            use_type_invariant(&self);
        }
        if self.frames.len() == 0 {
            Err(ImgToTerminalError::NoFrames(path))
        } else {
            Ok(self.frames)
        }
    }
}

/// A frame scaled to the screen keeps the full target width whenever the
/// image fits under the height limit at that width: its width is
/// `max(target_width, 4)` and its height the one that width gives
/// (`target_width * height / width` rounded, halves up), made even within the
/// limit.
pub proof fn lemma_fit_uses_full_width(width: u32, height: u32, target_width: u32, max_height: u32)
    requires
        width > 0,
        height > 0,
    ensures
        ({
            let w = if target_width > 4 {
                target_width as int
            } else {
                4
            };
            let q = (2 * w * height + width) / (2 * width as int);
            let s = fitted_size(width, height, target_width, max_height);
            2 <= q <= max_height ==> {
                &&& s.0 == w
                &&& s.1 % 2 == 0
                &&& s.1 <= max_height
                &&& s.1 == q || s.1 == q + 1 || s.1 == q - 1
            }
        }),
{
    crate::geometry::lemma_size_uses_full_width(width, height, target_width, max_height);
}

/// The frame layout is row-major with four bytes a pixel: channel `k` of pixel
/// `(x, y)` is byte `(y * width + x) * 4 + k` of the buffer.
pub proof fn lemma_channel_layout(f: Frame, x: int, y: int, k: int)
    ensures
        f.channel(x, y, k) == f.bytes()[(y * f.w() + x) * 4 + k],
{
}

} // verus!
