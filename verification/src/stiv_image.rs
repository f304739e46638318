//! An image shown in the terminal: its pixels, its size in pixels and in
//! cells, and whether the terminal holds a copy of it.
use fast_image_resize as fir;
use vstd::prelude::*;
use vstd::string::StringSliceAdditionalSpecFns;

use crate::geometry::{ImgRect, Rect};
use crate::protocol::{
    base64_encode, base64_len, build_delete_command, build_shm_place_command,
    build_shm_transmit_command, delete_command, shm_place_command, shm_transmit_command,
    base64_standard,
};
use crate::win_info::WinInfo;

verus! {

/// The pixels of an 8-bit RGB image: `bytes` holds the rows from top to
/// bottom, each row its pixels from left to right, each pixel red, green
/// and blue.
pub struct Pixels {
    pub width: u32,
    pub height: u32,
    pub bytes: Seq<u8>,
}

impl Pixels {
    /// Three bytes for each pixel.
    pub open spec fn wf(self) -> bool {
        self.bytes.len() == self.width * self.height * 3
    }
}

/// The `w` x `h` cut-out of `p` whose top-left pixel is `(x, y)`.
pub open spec fn crop_pixels(p: Pixels, x: u32, y: u32, w: u32, h: u32) -> Pixels {
    Pixels {
        width: w,
        height: h,
        bytes: Seq::new(
            (w * h * 3) as nat,
            |k: int|
                p.bytes[((y + (k / 3) / (w as int)) * p.width + x + (k / 3) % (w as int)) * 3 + k
                    % 3],
        ),
    }
}

/// What `fast_image_resize::Resizer::resize` writes for an RGB source of
/// `src_width` x `src_height` pixels resized to `dst_width` x `dst_height`
/// with the Lanczos3 convolution filter.
pub uninterp spec fn spec_lanczos3_resize(
    src: Seq<u8>,
    src_width: u32,
    src_height: u32,
    dst_width: u32,
    dst_height: u32,
) -> Seq<u8>;

/// Calls `image::DynamicImage::crop_imm` on the RGB image held in `data`.
/// Claimed: for a cut-out that lies inside the image, the result holds the
/// pixels of that cut-out, row by row (as `image::imageops::crop_imm` and
/// `SubImage::to_image` copy them). `from_raw` succeeds because the buffer
/// has exactly the size of the image.
#[verifier::external_body]
fn crop_rgb8(data: &[u8], width: u32, height: u32, x: u32, y: u32, w: u32, h: u32) -> (res: Vec<u8>)
    requires
        data@.len() == width * height * 3,
        x + w <= width,
        y + h <= height,
    ensures
        res@ == crop_pixels(Pixels { width, height, bytes: data@ }, x, y, w, h).bytes,
{
    let img = image::RgbImage::from_raw(width, height, data.to_vec()).unwrap();
    image::DynamicImage::ImageRgb8(img).crop_imm(x, y, w, h).into_rgb8().into_raw()
}

/// Resizes the RGB image held in `src` with `fast_image_resize`
/// (`ImageRef::new`, `Image::new`, `Resizer::resize` with the Lanczos3
/// convolution, `into_vec`). Claimed: the result is the named resize of the
/// arguments and holds `dst_width * dst_height * 3` bytes (the buffer that
/// `Image::new` allocates). Neither call fails here: the source buffer has
/// exactly the size of the image, `U8x3` needs no alignment, and both images
/// have the same pixel type. The result is a function of the arguments: for
/// 8-bit pixels the filter's weights are computed once in `f64` and rounded
/// to 16-bit fixed point (`Normalizer16`), and every CPU path sums them in
/// integer arithmetic; the crate's tests compare one downscale and one
/// upscale of sample images across the CPU extensions.
#[verifier::external_body]
fn resize_rgb8_lanczos3(
    src: &[u8],
    src_width: u32,
    src_height: u32,
    dst_width: u32,
    dst_height: u32,
) -> (res: Vec<u8>)
    requires
        src@.len() == src_width * src_height * 3,
        dst_width * dst_height * 3 <= usize::MAX,
    ensures
        res@ == spec_lanczos3_resize(src@, src_width, src_height, dst_width, dst_height),
        res@.len() == dst_width * dst_height * 3,
{
    let src_img = fir::images::ImageRef::new(src_width, src_height, src, fir::PixelType::U8x3).unwrap();
    let mut dst = fir::images::Image::new(dst_width, dst_height, fir::PixelType::U8x3);
    let options = fir::ResizeOptions::new().resize_alg(
        fir::ResizeAlg::Convolution(fir::FilterType::Lanczos3),
    );
    fir::Resizer::new().resize(&src_img, &mut dst, &options).unwrap();
    dst.into_vec()
}

/// An 8-bit RGB image whose buffer holds exactly its pixels.
pub struct RgbImage {
    width: u32,
    height: u32,
    data: Vec<u8>,
}

impl View for RgbImage {
    type V = Pixels;

    closed spec fn view(&self) -> Pixels {
        Pixels { width: self.width, height: self.height, bytes: self.data@ }
    }
}

impl RgbImage {
    #[verifier::type_invariant]
    spec fn inv(self) -> bool {
        self.data@.len() == self.width * self.height * 3
    }

    /// The image of `width` x `height` pixels held in `data`, if `data` has
    /// three bytes per pixel.
    pub fn from_raw(width: u32, height: u32, data: Vec<u8>) -> (res: Option<RgbImage>)
        ensures
            res is Some <==> data@.len() == width * height * 3,
            res matches Some(img) ==> img@ == (Pixels { width, height, bytes: data@ }),
    {
        let len = data.len();
        match (width as usize).checked_mul(height as usize) {
            Some(pixels) => match pixels.checked_mul(3) {
                Some(needed) => {
                    if len == needed {
                        Some(RgbImage { width, height, data })
                    } else {
                        None
                    }
                },
                None => {
                    assert(len <= usize::MAX);
                    None
                },
            },
            None => {
                assert(width * height * 3 > usize::MAX) by (nonlinear_arith)
                    requires
                        width * height > usize::MAX,
                ;
                assert(len <= usize::MAX);
                None
            },
        }
    }

    pub fn width(&self) -> (w: u32)
        ensures
            w == self@.width,
            self@.wf(),
    {
        proof {
            use_type_invariant(self);
        }
        self.width
    }

    pub fn height(&self) -> (h: u32)
        ensures
            h == self@.height,
            self@.wf(),
    {
        proof {
            use_type_invariant(self);
        }
        self.height
    }

    /// The pixel bytes, row by row.
    pub fn as_bytes(&self) -> (b: &[u8])
        ensures
            b@ == self@.bytes,
            self@.wf(),
    {
        proof {
            use_type_invariant(self);
        }
        self.data.as_slice()
    }

    /// A copy of the image.
    pub fn copy(&self) -> (res: RgbImage)
        ensures
            res@ == self@,
    {
        proof {
            use_type_invariant(self);
        }
        let mut data: Vec<u8> = Vec::new();
        crate::text::push_bytes(&mut data, self.data.as_slice());
        assert(data@ =~= self.data@);
        RgbImage { width: self.width, height: self.height, data }
    }
}

/// One terminal cell that shows a part of an image: its position on the
/// screen and the row and column of the image's cell grid it shows.
#[derive(Clone, Copy, Debug, PartialEq, Eq, Structural)]
pub struct PlaceholderCell {
    pub x: u16,
    pub y: u16,
    pub row: u16,
    pub col: u16,
}

/// Cell `k` of `area`, counted row by row.
pub open spec fn placeholder_cell(area: Rect, k: int) -> PlaceholderCell {
    let w = area.width as int;
    PlaceholderCell {
        x: (area.x + k % w) as u16,
        y: (area.y + k / w) as u16,
        row: (k / w) as u16,
        col: (k % w) as u16,
    }
}

pub open spec fn div_ceil(a: nat, b: nat) -> nat {
    a / b + if a % b == 0 {
        0nat
    } else {
        1nat
    }
}

pub open spec fn min_nat(a: nat, b: nat) -> nat {
    if a < b {
        a
    } else {
        b
    }
}

pub open spec fn sat_sub(a: int, b: int) -> int {
    if a > b {
        a - b
    } else {
        0
    }
}

pub open spec fn sat_add_u16(a: int, b: int) -> u16 {
    if a + b > u16::MAX {
        u16::MAX
    } else {
        (a + b) as u16
    }
}

proof fn lemma_div_ceil_fits(a: u16, b: u16)
    requires
        b > 0,
    ensures
        a / b + (if a % b == 0 {
            0int
        } else {
            1int
        }) <= u16::MAX,
{
    if b == 1 {
        assert(a % b == 0);
    } else {
        assert(a / b <= a / 2) by (nonlinear_arith)
            requires
                b >= 2,
                a >= 0,
        ;
    }
}

/// A freshly loaded image: the size from the file's header (as `u16`),
/// cells of the window's size, not yet uploaded, placed or cropped, and the
/// decoded pixels both as the original and as the displayed image.
pub open spec fn new_image_view(
    path: Seq<char>,
    header_width: usize,
    header_height: usize,
    pixels: Pixels,
    win_info: WinInfo,
    id: u32,
) -> StivImageView {
    StivImageView {
        path,
        width_px: header_width as u16,
        height_px: header_height as u16,
        size_cols: ((header_width as u16) / win_info.cell_width) as u16,
        size_rows: ((header_height as u16) / win_info.cell_height) as u16,
        cell_width_px: win_info.cell_width,
        cell_height_px: win_info.cell_height,
        pos_col: 0,
        pos_row: 0,
        id,
        uploaded: false,
        last_area: None,
        original: pixels,
        displayed: pixels,
        crop_area: None,
    }
}

/// What `imagesize::blob_size` reads from the header of the image file held
/// in `bytes`: its width and height, or none when it does not recognise the
/// header.
pub uninterp spec fn spec_image_header_size(bytes: Seq<u8>) -> Option<(usize, usize)>;

/// Calls `imagesize::blob_size`. Claimed: the result is the named header size
/// of the bytes (the parse reads only from `bytes`, through a `Cursor`, the
/// same parse that `imagesize::size` runs on a file).
#[verifier::external_body]
fn header_size(bytes: &[u8]) -> (r: Option<(usize, usize)>)
    ensures
        r == spec_image_header_size(bytes@),
{
    match imagesize::blob_size(bytes) {
        Ok(size) => Some((size.width, size.height)),
        Err(_) => None,
    }
}

/// Whether `image` decodes `bytes` in the format that the extension of `path`
/// names (`ImageFormat::from_path`, then `load_from_memory_with_format`), as
/// `image::open` does for a file at `path`.
pub uninterp spec fn spec_decodes(bytes: Seq<u8>, path: Seq<char>) -> bool;

/// Decodes `bytes` with `image`, in the format named by the extension of
/// `path`, and converts the result to 8-bit RGB (`into_rgb8`). Claimed: it
/// succeeds exactly when the named decode does, and then the buffer holds
/// three bytes per pixel: the decoders fill a buffer of `total_bytes`, which
/// for `Rgb8` is `width * height * 3`, and a conversion from another colour
/// type allocates `ImageBuffer::new(width, height)`. Which pixels come out is
/// left unsaid: the JPEG decoder has separate SIMD paths for colour
/// conversion and upsampling, and its source does not show that they match
/// the scalar code on every machine.
#[verifier::external_body]
fn decode_rgb8(bytes: &[u8], path: &str) -> (r: Option<(u32, u32, Vec<u8>)>)
    ensures
        r is Some <==> spec_decodes(bytes@, path@),
        r matches Some((w, h, data)) ==> data@.len() == w * h * 3,
{
    let format = image::ImageFormat::from_path(path).ok()?;
    let img = image::load_from_memory_with_format(bytes, format).ok()?;
    let rgb = img.into_rgb8();
    let (w, h) = rgb.dimensions();
    Some((w, h, rgb.into_raw()))
}

/// Everything the viewer knows about one image, as plain values.
pub struct StivImageView {
    pub path: Seq<char>,
    pub width_px: u16,
    pub height_px: u16,
    pub size_cols: u16,
    pub size_rows: u16,
    pub cell_width_px: u16,
    pub cell_height_px: u16,
    pub pos_col: u16,
    pub pos_row: u16,
    pub id: u32,
    pub uploaded: bool,
    pub last_area: Option<Rect>,
    pub original: Pixels,
    pub displayed: Pixels,
    pub crop_area: Option<ImgRect>,
}

/// The number of columns and rows that an image of `v.width_px` x
/// `v.height_px` pixels takes, at most those of `area`.
pub open spec fn zoomed_cols(v: StivImageView, area: Rect) -> nat {
    min_nat(div_ceil(v.width_px as nat, v.cell_width_px as nat), area.width as nat)
}

pub open spec fn zoomed_rows(v: StivImageView, area: Rect) -> nat {
    min_nat(div_ceil(v.height_px as nat, v.cell_height_px as nat), area.height as nat)
}

/// Where an image of `v`'s size is shown when zoomed: centred in `area`.
pub open spec fn zoomed_display_area(v: StivImageView, area: Rect) -> Rect {
    let cols = zoomed_cols(v, area);
    let rows = zoomed_rows(v, area);
    Rect {
        x: (area.x + (area.width - cols) / 2) as u16,
        y: (area.y + (area.height - rows) / 2) as u16,
        width: cols as u16,
        height: rows as u16,
    }
}

/// The part of the displayed image, in pixels, that a zoomed image shows in
/// `area`: the centre of the image, as wide and high as the area.
pub open spec fn zoom_crop_area(v: StivImageView, area: Rect) -> ImgRect {
    ImgRect {
        x_px: (sat_sub(v.displayed.width as int, area.width * v.cell_width_px) / 2) as u32,
        y_px: (sat_sub(v.displayed.height as int, area.height * v.cell_height_px) / 2) as u32,
        width_px: (area.width * v.cell_width_px) as u32,
        height_px: (area.height * v.cell_height_px) as u32,
    }
}

/// The cut-out of the displayed image that fits `area`, centred; it lies
/// inside the image.
pub open spec fn center_crop_box(v: StivImageView, area: Rect) -> ImgRect {
    let dw = area.width * v.cell_width_px;
    let dh = area.height * v.cell_height_px;
    let x = sat_sub(v.displayed.width as int, dw) / 2;
    let y = sat_sub(v.displayed.height as int, dh) / 2;
    ImgRect {
        x_px: x as u32,
        y_px: y as u32,
        width_px: min_nat(dw as nat, (v.displayed.width - x) as nat) as u32,
        height_px: min_nat(dh as nat, (v.displayed.height - y) as nat) as u32,
    }
}

/// A zoomed image's display area lies within the area it is shown in.
pub proof fn lemma_zoomed_area_within(v: StivImageView, area: Rect)
    requires
        v.cell_width_px > 0,
        v.cell_height_px > 0,
        area.x + area.width <= u16::MAX,
        area.y + area.height <= u16::MAX,
    ensures
        zoomed_display_area(v, area).x >= area.x,
        zoomed_display_area(v, area).y >= area.y,
        zoomed_display_area(v, area).x + zoomed_display_area(v, area).width <= area.x + area.width,
        zoomed_display_area(v, area).y + zoomed_display_area(v, area).height <= area.y
            + area.height,
{
}

/// The cut-out that `crop` takes lies inside the displayed image, and is at
/// most as large as the area it is cut for.
pub proof fn lemma_center_crop_box_inside(v: StivImageView, area: Rect)
    ensures
        center_crop_box(v, area).x_px + center_crop_box(v, area).width_px <= v.displayed.width,
        center_crop_box(v, area).y_px + center_crop_box(v, area).height_px
            <= v.displayed.height,
        center_crop_box(v, area).width_px <= area.width * v.cell_width_px,
        center_crop_box(v, area).height_px <= area.height * v.cell_height_px,
{
}

/// Hands out the numbers by which the terminal knows the images: 1, 2, 3
/// and so on, wrapping around after `u32::MAX` as an atomic counter does.
pub struct KittyIdCounter {
    next: u32,
}

impl View for KittyIdCounter {
    type V = u32;

    closed spec fn view(&self) -> u32 {
        self.next
    }
}

pub open spec fn next_after(id: u32) -> u32 {
    if id == u32::MAX {
        0
    } else {
        (id + 1) as u32
    }
}

impl KittyIdCounter {
    pub fn new() -> (c: KittyIdCounter)
        ensures
            c@ == 1,
    {
        KittyIdCounter { next: 1 }
    }

    /// The next number; the one after it comes next.
    pub fn next_id(&mut self) -> (id: u32)
        ensures
            id == old(self)@,
            final(self)@ == next_after(old(self)@),
    {
        let id = self.next;
        self.next = self.next.wrapping_add(1);
        id
    }
}

/// The numbers that a fresh counter hands out are 1, 2, 3, ...: after `k`
/// numbers (fewer than `u32::MAX`) the counter stands at `k + 1`, so no number
/// comes twice.
pub proof fn lemma_ids_count_up(k: nat)
    requires
        k < u32::MAX,
    ensures
        ids_after(k) == k + 1,
    decreases k,
{
    if k > 0 {
        lemma_ids_count_up((k - 1) as nat);
    }
}

/// Where a fresh counter stands after handing out `k` numbers.
pub open spec fn ids_after(k: nat) -> u32
    decreases k,
{
    if k == 0 {
        1
    } else {
        next_after(ids_after((k - 1) as nat))
    }
}

pub struct StivImage {
    pub path: String,
    width_px: u16,
    height_px: u16,
    size_cols: u16,
    pub cell_width_px: u16,
    pub cell_height_px: u16,
    size_rows: u16,
    pos_col: u16,
    pos_row: u16,
    pub id: u32,
    pub uploaded: bool,
    pub last_area: Option<Rect>,
    original_image: RgbImage,
    pub displayed_image: RgbImage,
    pub crop_area: Option<ImgRect>,
}

impl View for StivImage {
    type V = StivImageView;

    closed spec fn view(&self) -> StivImageView {
        StivImageView {
            path: self.path@,
            width_px: self.width_px,
            height_px: self.height_px,
            size_cols: self.size_cols,
            size_rows: self.size_rows,
            cell_width_px: self.cell_width_px,
            cell_height_px: self.cell_height_px,
            pos_col: self.pos_col,
            pos_row: self.pos_row,
            id: self.id,
            uploaded: self.uploaded,
            last_area: self.last_area,
            original: self.original_image@,
            displayed: self.displayed_image@,
            crop_area: self.crop_area,
        }
    }
}

impl StivImage {
    /// The image at `path`, whose file header gives `header_width` x
    /// `header_height` pixels and whose decoded pixels are `image`, shown in
    /// a terminal described by `win_info`; `id` is the image's number in the
    /// terminal. It is not transmitted yet and shows the whole image.
    pub fn new(
        path: String,
        header_width: usize,
        header_height: usize,
        image: RgbImage,
        win_info: &WinInfo,
        id: u32,
    ) -> (res: StivImage)
        requires
            win_info.cell_width > 0,
            win_info.cell_height > 0,
        ensures
            res@ == new_image_view(path@, header_width, header_height, image@, *win_info, id),
    {
        let img_width_px = header_width as u16;
        let img_height_px = header_height as u16;
        let original = image.copy();
        StivImage {
            path: path,
            width_px: img_width_px,
            height_px: img_height_px,
            size_cols: img_width_px / win_info.cell_width,
            size_rows: img_height_px / win_info.cell_height,
            cell_width_px: win_info.cell_width,
            cell_height_px: win_info.cell_height,
            pos_col: 0,
            pos_row: 0,
            id: id,
            uploaded: false,
            last_area: None,
            original_image: original,
            displayed_image: image,
            crop_area: None,
        }
    }

    /// Loads the image file at `path` whose contents are `bytes`: its size
    /// from the header, then its pixels, decoded in the format that the
    /// path's extension names. Without a readable header or a decodable image
    /// there is none, and no id is taken; else the image takes the next id.
    pub fn load(path: String, bytes: &Vec<u8>, win_info: &WinInfo, ids: &mut KittyIdCounter) -> (r:
        Option<StivImage>)
        requires
            win_info.cell_width > 0,
            win_info.cell_height > 0,
        ensures
            r is Some <==> (spec_image_header_size(bytes@) is Some && spec_decodes(bytes@, path@)),
            r matches Some(img) ==> img@ == new_image_view(
                path@,
                spec_image_header_size(bytes@).unwrap().0,
                spec_image_header_size(bytes@).unwrap().1,
                img@.original,
                *win_info,
                old(ids)@,
            ),
            r matches Some(img) ==> img@.original.wf(),
            r is Some ==> final(ids)@ == next_after(old(ids)@),
            r is None ==> final(ids)@ == old(ids)@,
    {
        let (w, h) = match header_size(bytes.as_slice()) {
            Some(size) => size,
            None => return None,
        };
        let (pw, ph, data) = match decode_rgb8(bytes.as_slice(), path.as_str()) {
            Some(decoded) => decoded,
            None => return None,
        };
        let pixels = match RgbImage::from_raw(pw, ph, data) {
            Some(img) => img,
            None => return None,
        };
        proof {
            use_type_invariant(&pixels);
        }
        let id = ids.next_id();
        Some(StivImage::new(path, w, h, pixels, win_info, id))
    }

    /// The image as it is shown now.
    pub fn displayed(&self) -> (img: &RgbImage)
        ensures
            img@ == self@.displayed,
    {
        &self.displayed_image
    }

    /// The image as it was loaded.
    pub fn original(&self) -> (img: &RgbImage)
        ensures
            img@ == self@.original,
    {
        &self.original_image
    }

    /// The image's number in the terminal.
    pub fn image_id(&self) -> (id: u32)
        ensures
            id == self@.id,
    {
        self.id
    }

    /// Replaces the displayed image by the original resized to
    /// `new_width_px` x `new_height_px`; the terminal's copy is then stale.
    pub fn resize(&mut self, new_width_px: u32, new_height_px: u32)
        requires
            new_width_px * new_height_px * 3 <= usize::MAX,
        ensures
            final(self)@ == (StivImageView {
                displayed: Pixels {
                    width: new_width_px,
                    height: new_height_px,
                    bytes: spec_lanczos3_resize(
                        old(self)@.original.bytes,
                        old(self)@.original.width,
                        old(self)@.original.height,
                        new_width_px,
                        new_height_px,
                    ),
                },
                uploaded: false,
                width_px: new_width_px as u16,
                height_px: new_height_px as u16,
                ..old(self)@
            }),
    {
        let src = self.original_image.as_bytes();
        let data = resize_rgb8_lanczos3(
            src,
            self.original_image.width(),
            self.original_image.height(),
            new_width_px,
            new_height_px,
        );
        self.displayed_image = RgbImage { width: new_width_px, height: new_height_px, data };
        self.uploaded = false;
        self.width_px = new_width_px as u16;
        self.height_px = new_height_px as u16;
    }

    /// The size, in pixels, that fitting the image to `area` asks for:
    /// `None` when no resize is due (the area is larger than the image in
    /// both directions, the image is not transmitted and not zoomed),
    /// else the area's size in pixels, before the zoom is applied.
    pub fn resize_to_fit_target(&self, area: &Rect, zoom_is_one: bool) -> (res: Option<(u32, u32)>)
        requires
            area.width * self@.cell_width_px <= u16::MAX,
            area.height * self@.cell_height_px <= u16::MAX,
        ensures
            ({
                let nw = area.width * self@.cell_width_px;
                let nh = area.height * self@.cell_height_px;
                res == if nw > self@.width_px && nh > self@.height_px && !self@.uploaded
                    && zoom_is_one {
                    None
                } else {
                    Some((nw as u32, nh as u32))
                }
            }),
    {
        let new_width = (area.width * self.cell_width_px) as u32;
        let new_height = (area.height * self.cell_height_px) as u32;
        if new_width > self.width_px as u32 && new_height > self.height_px as u32 && !self.uploaded
            && zoom_is_one {
            return None;
        }
        Some((new_width, new_height))
    }

    /// The cells of `area`, row by row, that show the image: each with its
    /// screen position and the image row and column that it shows.
    pub fn placeholder_cells(&self, area: &Rect) -> (cells: Vec<PlaceholderCell>)
        requires
            area.width > 0 && area.height > 0 ==> area.x + area.width <= u16::MAX + 1 && area.y
                + area.height <= u16::MAX + 1,
        ensures
            cells@.len() == area.width * area.height,
            forall|k: int|
                0 <= k < cells@.len() ==> #[trigger] cells@[k] == placeholder_cell(*area, k),
    {
        let mut cells: Vec<PlaceholderCell> = Vec::new();
        let w = area.width;
        let mut row: u16 = 0;
        while row < area.height
            invariant
                row <= area.height,
                w == area.width,
                area.width > 0 && area.height > 0 ==> area.x + area.width <= u16::MAX + 1 && area.y
                    + area.height <= u16::MAX + 1,
                cells@.len() == row * w,
                forall|k: int|
                    0 <= k < cells@.len() ==> #[trigger] cells@[k] == placeholder_cell(*area, k),
            decreases area.height - row,
        {
            let mut col: u16 = 0;
            while col < w
                invariant
                    row < area.height,
                    col <= w,
                    w == area.width,
                    area.width > 0 && area.height > 0 ==> area.x + area.width <= u16::MAX + 1
                        && area.y + area.height <= u16::MAX + 1,
                    cells@.len() == row * w + col,
                    forall|k: int|
                        0 <= k < cells@.len() ==> #[trigger] cells@[k] == placeholder_cell(
                            *area,
                            k,
                        ),
                decreases w - col,
            {
                proof {
                    let k = row * w + col;
                    vstd::arithmetic::div_mod::lemma_fundamental_div_mod_converse(
                        k,
                        w as int,
                        row as int,
                        col as int,
                    );
                }
                cells.push(PlaceholderCell { x: area.x + col, y: area.y + row, row, col });
                col = col + 1;
            }
            proof {
                assert((row + 1) * w == row * w + w) by (nonlinear_arith);
            }
            row = row + 1;
        }
        assert(row * w == area.width * area.height) by (nonlinear_arith)
            requires
                row == area.height,
                w == area.width,
        ;
        cells
    }

    /// The foreground colour that tells the terminal which image a cell
    /// shows: the image number's bytes as red, green and blue.
    pub fn placeholder_color(&self) -> (rgb: (u8, u8, u8))
        ensures
            rgb.0 == (self@.id >> 16u32) & 0xff,
            rgb.1 == (self@.id >> 8u32) & 0xff,
            rgb.2 == self@.id & 0xff,
            rgb.0 * 65536 + rgb.1 * 256 + rgb.2 == self@.id % 16777216,
    {
        let id = self.id;
        let r = ((id >> 16u32) & 0xff) as u8;
        let g = ((id >> 8u32) & 0xff) as u8;
        let b = (id & 0xff) as u8;
        assert((((id >> 16u32) & 0xff) * 65536 + ((id >> 8u32) & 0xff) * 256 + (id & 0xff)) == id
            % 16777216) by (bit_vector);
        assert(((id >> 16u32) & 0xff) < 256 && ((id >> 8u32) & 0xff) < 256 && (id & 0xff) < 256)
            by (bit_vector);
        (r, g, b)
    }

    /// The area that the zoomed image takes in `area`: as many cells as its
    /// pixels need, at most the area's, centred.
    pub fn get_display_area_for_zoomed_img(&mut self, area: &Rect) -> (res: Rect)
        requires
            old(self)@.cell_width_px > 0,
            old(self)@.cell_height_px > 0,
            area.x + (area.width - zoomed_cols(old(self)@, *area)) / 2 <= u16::MAX,
            area.y + (area.height - zoomed_rows(old(self)@, *area)) / 2 <= u16::MAX,
        ensures
            final(self)@ == old(self)@,
            res == zoomed_display_area(old(self)@, *area),
    {
        proof {
            lemma_div_ceil_fits(self.width_px, self.cell_width_px);
            lemma_div_ceil_fits(self.height_px, self.cell_height_px);
        }
        let mut cols = self.width_px / self.cell_width_px + if self.width_px % self.cell_width_px
            == 0 {
            0
        } else {
            1
        };
        let mut rows = self.height_px / self.cell_height_px + if self.height_px
            % self.cell_height_px == 0 {
            0
        } else {
            1
        };
        if cols > area.width {
            cols = area.width;
        }
        if rows > area.height {
            rows = area.height;
        }
        let x = area.x + area.width.saturating_sub(cols) / 2;
        let y = area.y + area.height.saturating_sub(rows) / 2;
        Rect { x: x, y: y, width: cols, height: rows }
    }

    /// The centred cut-out of the displayed image, in pixels, that `area`
    /// shows; it is remembered as the image's crop area.
    pub fn get_crop_area_for_zoomed_img(&mut self, area: &Rect) -> (res: ImgRect)
        requires
            area.width * old(self)@.cell_width_px <= u16::MAX,
            area.height * old(self)@.cell_height_px <= u16::MAX,
        ensures
            res == zoom_crop_area(old(self)@, *area),
            final(self)@ == (StivImageView { crop_area: Some(res), ..old(self)@ }),
    {
        let disp_w = self.displayed_image.width();
        let disp_h = self.displayed_image.height();
        let x_offset = disp_w.saturating_sub(area.width as u32 * self.cell_width_px as u32) / 2;
        let y_offset = disp_h.saturating_sub(area.height as u32 * self.cell_height_px as u32) / 2;
        let crop_area = ImgRect {
            x_px: x_offset,
            y_px: y_offset,
            width_px: (area.width * self.cell_width_px) as u32,
            height_px: (area.height * self.cell_height_px) as u32,
        };
        self.crop_area = Some(crop_area);
        crop_area
    }

    /// Cuts the displayed image down to the centred part that `area` shows.
    pub fn crop(&mut self, area: &Rect)
        requires
            area.width * old(self)@.cell_width_px <= u16::MAX,
            area.height * old(self)@.cell_height_px <= u16::MAX,
        ensures
            ({
                let b = center_crop_box(old(self)@, *area);
                final(self)@ == (StivImageView {
                    displayed: crop_pixels(
                        old(self)@.displayed,
                        b.x_px,
                        b.y_px,
                        b.width_px,
                        b.height_px,
                    ),
                    ..old(self)@
                })
            }),
    {
        let display_px_w = (area.width * self.cell_width_px) as u32;
        let display_px_h = (area.height * self.cell_height_px) as u32;
        let disp_w = self.displayed_image.width();
        let disp_h = self.displayed_image.height();
        let x = disp_w.saturating_sub(display_px_w) / 2;
        let y = disp_h.saturating_sub(display_px_h) / 2;
        let crop_w = if display_px_w < disp_w - x {
            display_px_w
        } else {
            disp_w - x
        };
        let crop_h = if display_px_h < disp_h - y {
            display_px_h
        } else {
            disp_h - y
        };
        let data = crop_rgb8(self.displayed_image.as_bytes(), disp_w, disp_h, x, y, crop_w, crop_h);
        proof {
            assert(crop_w * crop_h * 3 == data@.len());
        }
        self.displayed_image = RgbImage { width: crop_w, height: crop_h, data };
    }

    /// The command that removes the image from the terminal, if it was
    /// transmitted; the image is then marked as not transmitted and not
    /// placed anywhere.
    pub fn delete_from_terminal(&mut self) -> (cmd: Option<Vec<u8>>)
        ensures
            !old(self)@.uploaded ==> cmd is None && final(self)@ == old(self)@,
            old(self)@.uploaded ==> (cmd matches Some(c) && c@ == delete_command(old(self)@.id)),
            old(self)@.uploaded ==> final(self)@ == (StivImageView {
                uploaded: false,
                last_area: None,
                ..old(self)@
            }),
    {
        if !self.uploaded {
            return None;
        }
        let cmd = build_delete_command(self.id);
        self.uploaded = false;
        self.last_area = None;
        Some(cmd)
    }

    /// The command that shows the image through the shared memory object at
    /// `shm_path` in `area` (one row less than the area's height): a fresh
    /// transmission when the terminal has no copy yet, else a new placement
    /// of its copy.
    pub fn shm_upload_command(&self, area: &Rect, shm_path: &str) -> (cmd: Vec<u8>)
        requires
            area.height >= 1,
            base64_len(shm_path.spec_bytes().len()) <= usize::MAX,
        ensures
            cmd@ == if self@.uploaded {
                shm_place_command(
                    self@.id,
                    area.width,
                    (area.height - 1) as u16,
                    self@.displayed.width,
                    self@.displayed.height,
                )
            } else {
                shm_transmit_command(
                    self@.id,
                    area.width,
                    (area.height - 1) as u16,
                    self@.displayed.width,
                    self@.displayed.height,
                    base64_standard(shm_path.spec_bytes()),
                )
            },
    {
        let width = self.displayed_image.width();
        let height = self.displayed_image.height();
        let path_b64 = base64_encode(shm_path.as_bytes());
        let rows = area.height - 1;
        let cols = area.width;
        if self.uploaded {
            build_shm_place_command(self.id, cols, rows, width, height)
        } else {
            build_shm_transmit_command(self.id, cols, rows, width, height, &path_b64)
        }
    }

    /// Records that the terminal holds the displayed image.
    pub fn mark_uploaded(&mut self)
        ensures
            final(self)@ == (StivImageView { uploaded: true, ..old(self)@ }),
    {
        self.uploaded = true;
    }

    /// Records that the image is placed in `area`.
    pub fn record_placement(&mut self, area: &Rect)
        ensures
            final(self)@ == (StivImageView { last_area: Some(*area), ..old(self)@ }),
    {
        self.last_area = Some(*area);
    }

    /// The crop area of a zoomed image, in pixels; empty for now.
    pub fn get_zoom_crop_area_px(&mut self) -> (r: Rect)
        ensures
            r == (Rect { x: 0, y: 0, width: 0, height: 0 }),
            final(self)@ == old(self)@,
    {
        Rect::default()
    }
}

/// `area` with its size replaced by `width` x `height` and moved so that
/// the new size is centred in the old one (as far as the `u16` range
/// allows).
pub fn center_adjusted_area(area: &Rect, width: u16, height: u16) -> (r: Rect)
    ensures
        r == (Rect {
            x: sat_add_u16(area.x as int, sat_sub(area.width as int, width as int) / 2),
            y: sat_add_u16(area.y as int, sat_sub(area.height as int, height as int) / 2),
            width,
            height,
        }),
{
    let width_offset_in_cols = area.width.saturating_sub(width);
    let height_offset_in_rows = area.height.saturating_sub(height);
    Rect {
        x: area.x.saturating_add(width_offset_in_cols / 2),
        y: area.y.saturating_add(height_offset_in_rows / 2),
        width: width,
        height: height,
    }
}

} // verus!
