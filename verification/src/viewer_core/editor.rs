//! Image edits that are integer geometry: cropping.
//!
//! The colour filters and adjustments compute in floating point and are
//! applied by the program.
use crate::viewer_core::edit_state::{CropRect, EditState};
use crate::viewer_core::image_loader::{
    clone_image, crop_of, crop_size, dimensions_of, image_color, image_crop, image_dimensions,
};
use image::DynamicImage;
use vstd::prelude::*;

verus! {

/// The rectangle actually cropped from an image of `img_w` by `img_h`:
/// the corner is kept inside the image and the size is cut to what remains,
/// but is at least one pixel.
pub open spec fn clamp_crop(rect: CropRect, img_w: u32, img_h: u32) -> (u32, u32, u32, u32) {
    let x = if rect.x < img_w { rect.x } else if img_w == 0 { 0 } else { (img_w - 1) as u32 };
    let y = if rect.y < img_h { rect.y } else if img_h == 0 { 0 } else { (img_h - 1) as u32 };
    let w0 = if rect.w < img_w - x { rect.w } else { (img_w - x) as u32 };
    let h0 = if rect.h < img_h - y { rect.h } else { (img_h - y) as u32 };
    (x, y, if w0 == 0 { 1 } else { w0 }, if h0 == 0 { 1 } else { h0 })
}

/// Crops `image` to `rect`, clamped to the image (see `clamp_crop`).
pub fn apply_crop(image: &DynamicImage, rect: CropRect) -> (r: DynamicImage)
    ensures
        r == image_crop(
            *image,
            clamp_crop(rect, image_dimensions(*image).0, image_dimensions(*image).1).0,
            clamp_crop(rect, image_dimensions(*image).0, image_dimensions(*image).1).1,
            clamp_crop(rect, image_dimensions(*image).0, image_dimensions(*image).1).2,
            clamp_crop(rect, image_dimensions(*image).0, image_dimensions(*image).1).3,
        ),
        ({
            let (w, h) = image_dimensions(*image);
            let c = clamp_crop(rect, w, h);
            image_dimensions(r) == crop_size(w, h, c.0, c.1, c.2, c.3)
        }),
        image_color(r) == image_color(*image),
        rect.x < image_dimensions(*image).0 && rect.y < image_dimensions(*image).1 ==> r
            == image_crop(
            *image,
            rect.x,
            rect.y,
            if rect.w == 0 {
                1
            } else if rect.w <= image_dimensions(*image).0 - rect.x {
                rect.w
            } else {
                (image_dimensions(*image).0 - rect.x) as u32
            },
            if rect.h == 0 {
                1
            } else if rect.h <= image_dimensions(*image).1 - rect.y {
                rect.h
            } else {
                (image_dimensions(*image).1 - rect.y) as u32
            },
        ),
{
    proof {
        law_crop_starts_at_the_corner(rect, image_dimensions(*image).0, image_dimensions(*image).1);
    }
    let (img_w, img_h) = dimensions_of(image);
    let x = rect.x.min(img_w.saturating_sub(1));
    let y = rect.y.min(img_h.saturating_sub(1));
    let w = rect.w.min(img_w - x).max(1);
    let h = rect.h.min(img_h - y).max(1);
    crop_of(image, x, y, w, h)
}


/// `after` is `before` with its chosen crop cut out of the original (see
/// `EditState::apply_crop_edit`).
pub open spec fn apply_crop_edit_spec(before: EditState, after: EditState) -> bool {
    match before.crop_rect {
        None => after == before,
        Some(rect) => {
            let (w, h) = image_dimensions(before.original);
            let c = clamp_crop(rect, w, h);
            &&& after.working == image_crop(before.original, c.0, c.1, c.2, c.3)
            &&& after.original == after.working
            &&& after.crop_rect is None
            &&& after.filter is None
            &&& after.brightness == 0
            &&& after.contrast == 0
            &&& after.saturation == 0
            &&& after.crop_mode == before.crop_mode
        },
    }
}

impl EditState {
    /// Crops the image to the chosen rectangle: the cropped image becomes
    /// the new original and the working image, and the crop, the filter and
    /// the adjustments are dropped. Nothing happens when no rectangle is
    /// chosen.
    pub fn apply_crop_edit(&mut self)
        ensures
            apply_crop_edit_spec(*old(self), *final(self)),
    {
        let rect = match self.crop_rect {
            Some(r) => r,
            None => return ,
        };
        let cropped = apply_crop(&self.original, rect);
        self.original = clone_image(&cropped);
        self.working = cropped;
        self.crop_rect = None;
        self.filter = None;
        self.brightness = 0;
        self.contrast = 0;
        self.saturation = 0;
    }

    /// The "apply" button of the crop section: a selection made on the image
    /// becomes the chosen crop; with no selection the chosen crop is cut out.
    pub fn apply_crop_button(&mut self, selection: Option<CropRect>)
        ensures
            match selection {
                Some(rect) => *final(self) == (EditState {
                    crop_mode: false,
                    crop_rect: Some(rect),
                    ..*old(self)
                }),
                None => apply_crop_edit_spec(*old(self), *final(self)),
            },
    {
        match selection {
            Some(rect) => self.set_crop_result(rect),
            None => self.apply_crop_edit(),
        }
    }
}

/// Law: a rectangle whose corner lies inside the image is cropped from
/// that corner, `rect.w` by `rect.h` pixels where the image has room, else
/// up to the image's edge, and never less than one pixel; a corner outside
/// the image moves to the last row or column. The cropped region always
/// lies inside a non-empty image.
pub proof fn law_crop_starts_at_the_corner(rect: CropRect, img_w: u32, img_h: u32)
    ensures
        rect.x < img_w ==> clamp_crop(rect, img_w, img_h).0 == rect.x,
        rect.y < img_h ==> clamp_crop(rect, img_w, img_h).1 == rect.y,
        rect.x >= img_w && img_w > 0 ==> clamp_crop(rect, img_w, img_h).0 == img_w - 1,
        rect.y >= img_h && img_h > 0 ==> clamp_crop(rect, img_w, img_h).1 == img_h - 1,
        rect.x < img_w ==> clamp_crop(rect, img_w, img_h).2 == (if rect.w == 0 {
            1
        } else if rect.w <= img_w - rect.x {
            rect.w
        } else {
            (img_w - rect.x) as u32
        }),
        rect.y < img_h ==> clamp_crop(rect, img_w, img_h).3 == (if rect.h == 0 {
            1
        } else if rect.h <= img_h - rect.y {
            rect.h
        } else {
            (img_h - rect.y) as u32
        }),
        img_w > 0 ==> 1 <= clamp_crop(rect, img_w, img_h).2 && clamp_crop(rect, img_w, img_h).0
            + clamp_crop(rect, img_w, img_h).2 <= img_w,
        img_h > 0 ==> 1 <= clamp_crop(rect, img_w, img_h).3 && clamp_crop(rect, img_w, img_h).1
            + clamp_crop(rect, img_w, img_h).3 <= img_h,
{
}

/// Law: applying a chosen crop whose corner lies inside the image cuts the
/// image from that corner, makes the cut the new original and the shown
/// image, and drops the crop, the filter and the adjustments; with no crop
/// chosen nothing changes.
pub proof fn law_applied_crop_replaces_the_image(before: EditState, after: EditState)
    requires
        apply_crop_edit_spec(before, after),
    ensures
        before.crop_rect is None ==> after == before,
        before.crop_rect matches Some(rect) ==> {
            let (w, h) = image_dimensions(before.original);
            &&& after.original == after.working
            &&& after.crop_rect is None
            &&& after.filter is None
            &&& after.brightness == 0 && after.contrast == 0 && after.saturation == 0
            &&& rect.x < w && rect.y < h ==> after.working == image_crop(
                before.original,
                rect.x,
                rect.y,
                if rect.w == 0 {
                    1
                } else if rect.w <= w - rect.x {
                    rect.w
                } else {
                    (w - rect.x) as u32
                },
                if rect.h == 0 {
                    1
                } else if rect.h <= h - rect.y {
                    rect.h
                } else {
                    (h - rect.y) as u32
                },
            )
        },
{
    if let Some(rect) = before.crop_rect {
        let (w, h) = image_dimensions(before.original);
        law_crop_starts_at_the_corner(rect, w, h);
    }
}

} // verus!
