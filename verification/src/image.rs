//! The sweep that turns densities into pixels.
//!
//! An empty bin shows the background. A bin that was hit shows its shade in
//! a high-quality render and one flat colour in a preview. Shades are handed
//! in ready-made, one per bin.

use vstd::prelude::*;
use crate::color::{background_color, background_pixel};
use crate::control::ControlBlock;

verus! {

/// What one sweep works on.
#[derive(Debug)]
pub struct ImageDataCreationContext<'a> {
    /// The pixels; the first `image_size` of them are repainted.
    pub image_array: Vec<u32>,
    pub image_size: usize,
    /// The bins, read only.
    pub density_array: &'a Vec<u32>,
    /// Whether each hit bin gets its own shade.
    pub high_quality: bool,
    /// Background channels: red, green, blue, alpha.
    pub background: &'a Vec<i32>,
    /// The colour of every hit bin in a preview.
    pub point_color: u32,
}

/// The pixel of one bin.
pub open spec fn pixel_of(
    density: u32,
    background: u32,
    high_quality: bool,
    point_color: u32,
    shade: u32,
) -> u32 {
    if density == 0 {
        background
    } else if high_quality {
        shade
    } else {
        point_color
    }
}

/// The image after a sweep over its first `size` pixels; pixels past `size`
/// keep what they held.
pub open spec fn swept(
    image: Seq<u32>,
    size: int,
    density: Seq<u32>,
    background: u32,
    high_quality: bool,
    point_color: u32,
    shades: Seq<u32>,
) -> Seq<u32> {
    Seq::new(
        image.len(),
        |i: int|
            if i < size {
                pixel_of(density[i], background, high_quality, point_color, shades[i])
            } else {
                image[i]
            },
    )
}

impl<'a> ImageDataCreationContext<'a> {
    /// The sweep stays inside the pixels and the bins.
    pub open spec fn wf(&self) -> bool {
        &&& self.image_size <= self.image_array@.len()
        &&& self.image_size <= self.density_array@.len()
    }

    /// What a sweep with these `shades` leaves in the pixels.
    pub open spec fn swept_image(&self, shades: Seq<u32>) -> Seq<u32> {
        swept(
            self.image_array@,
            self.image_size as int,
            self.density_array@,
            background_pixel(self.background@),
            self.high_quality,
            self.point_color,
            shades,
        )
    }
}

/// Repaints the first `image_size` pixels from the bins, unless a stop was
/// requested, in which case the pixels stay as they are.
///
/// `shades` is read only in a high-quality render, and there only for bins
/// that were hit.
pub fn create_image_data(
    context: &mut ImageDataCreationContext,
    info: &ControlBlock,
    shades: &Vec<u32>,
)
    requires
        old(context).wf(),
        old(context).high_quality ==> old(context).image_size <= shades@.len(),
    ensures
        final(context).wf(),
        final(context).image_size == old(context).image_size,
        final(context).density_array == old(context).density_array,
        final(context).high_quality == old(context).high_quality,
        final(context).background == old(context).background,
        final(context).point_color == old(context).point_color,
        info.cancel_requested ==> final(context).image_array@ == old(context).image_array@,
        !info.cancel_requested ==> final(context).image_array@ == old(context).swept_image(
            shades@,
        ),
{
    let bg_color: u32 = background_color(context.background);
    let size: usize = context.image_size;
    let mut i: usize = 0;
    while i < size && !info.cancel_requested
        invariant
            i <= size,
            size == context.image_size,
            context.wf(),
            context.image_size == old(context).image_size,
            context.density_array == old(context).density_array,
            context.high_quality == old(context).high_quality,
            context.background == old(context).background,
            context.point_color == old(context).point_color,
            context.high_quality ==> size <= shades@.len(),
            bg_color == background_pixel(context.background@),
            info.cancel_requested ==> context.image_array@ == old(context).image_array@,
            context.image_array@ =~= swept(
                old(context).image_array@,
                i as int,
                context.density_array@,
                bg_color,
                context.high_quality,
                context.point_color,
                shades@,
            ),
        decreases size - i,
    {
        let dval: u32 = context.density_array[i];
        let pixel: u32 = if dval > 0 {
            if context.high_quality {
                shades[i]
            } else {
                context.point_color
            }
        } else {
            bg_color
        };
        context.image_array[i] = pixel;
        i = i + 1;
    }
}

/// A second sweep over unchanged bins, shades and colours repaints every
/// pixel with the value it already has.
pub proof fn lemma_sweep_idempotent(
    image: Seq<u32>,
    size: int,
    density: Seq<u32>,
    background: u32,
    high_quality: bool,
    point_color: u32,
    shades: Seq<u32>,
)
    ensures
        swept(
            swept(image, size, density, background, high_quality, point_color, shades),
            size,
            density,
            background,
            high_quality,
            point_color,
            shades,
        ) == swept(image, size, density, background, high_quality, point_color, shades),
{
    let once = swept(image, size, density, background, high_quality, point_color, shades);
    let twice = swept(once, size, density, background, high_quality, point_color, shades);
    assert(twice =~= once);
}

/// What a sweep paints does not depend on what the pixels held before, as
/// far as the sweep reaches.
pub proof fn lemma_sweep_forgets_old_pixels(
    first: Seq<u32>,
    second: Seq<u32>,
    size: int,
    density: Seq<u32>,
    background: u32,
    high_quality: bool,
    point_color: u32,
    shades: Seq<u32>,
)
    requires
        first.len() == second.len(),
        size >= first.len(),
    ensures
        swept(first, size, density, background, high_quality, point_color, shades) == swept(
            second,
            size,
            density,
            background,
            high_quality,
            point_color,
            shades,
        ),
{
    assert(swept(first, size, density, background, high_quality, point_color, shades) =~= swept(
        second,
        size,
        density,
        background,
        high_quality,
        point_color,
        shades,
    ));
}

/// Where no bin was hit, every swept pixel is the background.
pub proof fn lemma_sweep_of_empty_bins(
    image: Seq<u32>,
    size: int,
    density: Seq<u32>,
    background: u32,
    high_quality: bool,
    point_color: u32,
    shades: Seq<u32>,
)
    requires
        0 <= size <= image.len(),
        size <= density.len(),
        forall|i: int| 0 <= i < size ==> #[trigger] density[i] == 0,
    ensures
        forall|i: int|
            0 <= i < size ==> #[trigger] swept(
                image,
                size,
                density,
                background,
                high_quality,
                point_color,
                shades,
            )[i] == background,
{
}

} // verus!
