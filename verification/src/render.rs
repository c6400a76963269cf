//! Rasterizes the full state store into a square image, downsamples it, and
//! composes the output canvas with a white header margin on top.

use vstd::prelude::*;

use crate::state::{FileState, State};
use fast_image_resize as fr;
use std::num::NonZeroU32;

verus! {

/// An RGB color, one byte per channel.
#[derive(Clone, Copy, Debug, PartialEq, Eq, Structural)]
pub struct Color {
    pub r: u8,
    pub g: u8,
    pub b: u8,
}

/// The fixed color of each lifecycle state: Present green, DeleteMarker
/// yellow, Expired red, the two terminal states black.
pub open spec fn spec_state_color(s: FileState) -> Color {
    match s {
        FileState::Present => Color { r: 0, g: 255, b: 0 },
        FileState::DeleteMarker => Color { r: 255, g: 255, b: 0 },
        FileState::Expired => Color { r: 255, g: 0, b: 0 },
        FileState::DeleteMarkerDeleted => Color { r: 0, g: 0, b: 0 },
        FileState::WeirdCase => Color { r: 0, g: 0, b: 0 },
    }
}

/// Executable color lookup; agrees with `spec_state_color` on every state.
pub fn state_color(s: &FileState) -> (c: Color)
    ensures
        c == spec_state_color(*s),
{
    match s {
        FileState::Present => Color { r: 0, g: 255, b: 0 },
        FileState::DeleteMarker => Color { r: 255, g: 255, b: 0 },
        FileState::Expired => Color { r: 255, g: 0, b: 0 },
        FileState::DeleteMarkerDeleted => Color { r: 0, g: 0, b: 0 },
        FileState::WeirdCase => Color { r: 0, g: 0, b: 0 },
    }
}

/// The color of raster cell `p`: the state color inside the population,
/// background black beyond it.
pub open spec fn spec_cell_color(files: Seq<FileState>, p: int) -> Color {
    if 0 <= p < files.len() {
        spec_state_color(files[p])
    } else {
        Color { r: 0, g: 0, b: 0 }
    }
}

/// Relies on fast_image_resize's Lanczos3 convolution resizer: resizing a
/// square RGB byte buffer fills a destination buffer of exactly
/// `3 * dst_side * dst_side` bytes.
#[verifier::external_body]
fn resize_rgb(src: Vec<u8>, src_side: u32, dst_side: u32) -> (r: Vec<u8>)
    requires
        1 <= src_side,
        1 <= dst_side,
        src_side * src_side <= u32::MAX,
        dst_side * dst_side <= u32::MAX,
        src@.len() == 3 * src_side * src_side,
    ensures
        r@.len() == 3 * dst_side * dst_side,
{
    let w = NonZeroU32::new(src_side).unwrap();
    let h = NonZeroU32::new(src_side).unwrap();
    let src_image = fr::Image::from_vec_u8(w, h, src, fr::PixelType::U8x3).unwrap();
    let dw = NonZeroU32::new(dst_side).unwrap();
    let dh = NonZeroU32::new(dst_side).unwrap();
    let mut dst_image = fr::Image::new(dw, dh, src_image.pixel_type());
    let mut dst_view = dst_image.view_mut();
    let mut resizer = fr::Resizer::new(fr::ResizeAlg::Convolution(fr::FilterType::Lanczos3));
    resizer.resize(&src_image.view(), &mut dst_view).unwrap();
    dst_image.buffer().to_vec()
}

/// Composes the output canvas: 400 white margin rows on top, the downsampled
/// raster below, byte for byte.
pub fn compose_canvas(resized: &Vec<u8>, out_size: u32) -> (r: Vec<u8>)
    requires
        1 <= out_size <= 0xFFFF,
        resized@.len() == 3 * out_size * out_size,
        3 * out_size * (out_size + 400) <= usize::MAX,
    ensures
        r@.len() == 3 * out_size * (out_size + 400),
        forall|i: int| 0 <= i < 3 * out_size * 400 ==> r@[i] == 255u8,
        forall|i: int|
            0 <= i < 3 * out_size * out_size ==> r@[3 * out_size * 400 + i] == resized@[i],
{
    proof {
        assert(3 * out_size * 400 + 3 * out_size * out_size == 3 * out_size * (out_size + 400))
            by (nonlinear_arith);
        assert(3 * out_size * 400 <= 3 * out_size * (out_size + 400)) by (nonlinear_arith);
    }
    let margin_bytes: usize = 3 * (out_size as usize) * 400;
    let mut r: Vec<u8> = Vec::new();
    let mut i: usize = 0;
    while i < margin_bytes
        invariant
            i <= margin_bytes,
            margin_bytes == 3 * out_size * 400,
            r@.len() == i,
            forall|q: int| 0 <= q < i ==> r@[q] == 255u8,
        decreases margin_bytes - i,
    {
        r.push(255);
        i = i + 1;
    }
    let mut j: usize = 0;
    while j < resized.len()
        invariant
            j <= resized@.len(),
            resized@.len() == 3 * out_size * out_size,
            margin_bytes == 3 * out_size * 400,
            r@.len() == margin_bytes + j,
            forall|q: int| 0 <= q < margin_bytes ==> r@[q] == 255u8,
            forall|q: int| 0 <= q < j ==> r@[margin_bytes + q] == resized@[q],
            margin_bytes + resized@.len() <= usize::MAX,
        decreases resized@.len() - j,
    {
        r.push(resized[j]);
        j = j + 1;
    }
    r
}

impl State {
    /// Rasterizes the store into a square side-by-side RGB buffer: cell `p`
    /// of the row-major raster shows the object with flattened index `p`,
    /// background black past the end of the population.
    pub fn render_raster(&self) -> (r: Vec<u8>)
        requires
            self.wf(),
        ensures
            r@.len() == 3 * self.image_size * self.image_size,
            forall|p: int|
                0 <= p < self.image_size * self.image_size ==> r@[3 * p] == spec_cell_color(
                    self.files@,
                    p,
                ).r && r@[3 * p + 1] == spec_cell_color(self.files@, p).g && r@[3 * p + 2]
                    == spec_cell_color(self.files@, p).b,
    {
        proof {
            assert(3 * self.image_size * self.image_size == 3 * (self.image_size
                * self.image_size)) by (nonlinear_arith);
        }
        let total: usize = self.image_size * self.image_size;
        let mut r: Vec<u8> = Vec::new();
        let mut p: usize = 0;
        while p < total
            invariant
                p <= total,
                total == self.image_size * self.image_size,
                3 * total <= usize::MAX,
                r@.len() == 3 * p,
                forall|q: int|
                    0 <= q < p ==> r@[3 * q] == spec_cell_color(self.files@, q).r && r@[3 * q + 1]
                        == spec_cell_color(self.files@, q).g && r@[3 * q + 2] == spec_cell_color(
                        self.files@,
                        q,
                    ).b,
            decreases total - p,
        {
            let c = if p < self.files.len() {
                state_color(&self.files[p])
            } else {
                Color { r: 0, g: 0, b: 0 }
            };
            r.push(c.r);
            r.push(c.g);
            r.push(c.b);
            p = p + 1;
        }
        r
    }

    /// Renders the raster, downsamples it to the output size with the
    /// Lanczos3 resizer, and composes it under the white header margin.  The
    /// raster bytes are pinned by `render_raster`; the downsampled bytes come
    /// from the resizer.
    pub fn get_frame(&self) -> (r: Vec<u8>)
        requires
            self.wf(),
        ensures
            r@.len() == 3 * self.output_image_size * (self.output_image_size + 400),
            forall|i: int| 0 <= i < 3 * self.output_image_size * 400 ==> r@[i] == 255u8,
    {
        proof {
            assert(self.image_size <= u32::MAX && self.output_image_size * self.output_image_size
                <= u32::MAX) by (nonlinear_arith)
                requires
                    self.image_size >= 1,
                    self.image_size * self.image_size <= u32::MAX,
                    1 <= self.output_image_size <= 0xFFFF,
            ;
        }
        let raster = self.render_raster();
        let resized = resize_rgb(raster, self.image_size as u32, self.output_image_size);
        compose_canvas(&resized, self.output_image_size)
    }
}

} // verus!
