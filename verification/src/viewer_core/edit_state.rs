//! The state of an editing session: the image being edited and the edits
//! chosen so far.
use crate::viewer_core::image_loader::clone_image;
use crate::viewer_core::lang::{translations_spec, Language};
use image::DynamicImage;
use vstd::prelude::*;

verus! {

/// A colour filter.
#[derive(Debug, Clone, Copy, PartialEq, Eq, Structural)]
pub enum Filter {
    Grayscale,
    Sepia,
    Invert,
    BlackWhite,
}

/// The label of `f` in `lang`.
pub open spec fn filter_label_spec(f: Filter, lang: Language) -> &'static str {
    let t = translations_spec(lang);
    match f {
        Filter::Grayscale => t.filter_grayscale,
        Filter::Sepia => t.filter_sepia,
        Filter::Invert => t.filter_invert,
        Filter::BlackWhite => t.filter_black_white,
    }
}

impl Filter {
    /// The filter's name in `lang`.
    pub fn label(self, lang: Language) -> (r: &'static str)
        ensures
            r == filter_label_spec(self, lang),
    {
        let t = lang.translations();
        match self {
            Filter::Grayscale => t.filter_grayscale,
            Filter::Sepia => t.filter_sepia,
            Filter::Invert => t.filter_invert,
            Filter::BlackWhite => t.filter_black_white,
        }
    }
}

/// A crop rectangle in image pixels: top-left corner and size.
#[derive(Debug, Clone, Copy, PartialEq, Eq, Structural)]
pub struct CropRect {
    pub x: u32,
    pub y: u32,
    pub w: u32,
    pub h: u32,
}

/// An editing session: the original image, the image shown while editing,
/// and the chosen crop, filter and adjustments.
#[derive(Debug)]
pub struct EditState {
    pub original: DynamicImage,
    pub working: DynamicImage,
    pub crop_rect: Option<CropRect>,
    pub crop_mode: bool,
    pub filter: Option<Filter>,
    pub brightness: i32,
    pub contrast: i32,
    pub saturation: i32,
}

/// Some edit differs from the untouched state.
pub open spec fn has_changes_spec(s: EditState) -> bool {
    s.filter is Some || s.brightness != 0 || s.contrast != 0 || s.saturation != 0
        || s.crop_rect is Some
}

impl EditState {
    /// A session on `image` with no edits.
    pub fn new(image: DynamicImage) -> (r: Self)
        ensures
            r.working == image,
            r.original == image,
            r.crop_rect is None,
            !r.crop_mode,
            r.filter is None,
            r.brightness == 0 && r.contrast == 0 && r.saturation == 0,
    {
        Self {
            original: clone_image(&image),
            working: image,
            crop_rect: None,
            crop_mode: false,
            filter: None,
            brightness: 0,
            contrast: 0,
            saturation: 0,
        }
    }

    /// `true` when a crop is chosen.
    pub fn has_crop(&self) -> (r: bool)
        ensures
            r == self.crop_rect is Some,
    {
        self.crop_rect.is_some()
    }

    /// `true` while the user is selecting a crop.
    pub fn is_crop_mode(&self) -> (r: bool)
        ensures
            r == self.crop_mode,
    {
        self.crop_mode
    }

    /// `true` when a filter, an adjustment or a crop is chosen.
    pub fn has_changes(&self) -> (r: bool)
        ensures
            r == has_changes_spec(*self),
    {
        self.filter.is_some() || self.brightness != 0 || self.contrast != 0 || self.saturation != 0
            || self.crop_rect.is_some()
    }

    /// Starts selecting a crop: any earlier selection is dropped.
    pub fn start_crop(&mut self)
        ensures
            *final(self) == (EditState { crop_mode: true, crop_rect: None, ..*old(self) }),
    {
        self.crop_mode = true;
        self.crop_rect = None;
    }

    /// Keeps `rect` as the chosen crop and leaves selection mode.
    pub fn set_crop_result(&mut self, rect: CropRect)
        ensures
            *final(self) == (EditState { crop_mode: false, crop_rect: Some(rect), ..*old(self) }),
    {
        self.crop_rect = Some(rect);
        self.crop_mode = false;
    }

    /// Drops the chosen crop and leaves selection mode.
    pub fn cancel_crop(&mut self)
        ensures
            *final(self) == (EditState { crop_mode: false, crop_rect: None, ..*old(self) }),
    {
        self.crop_rect = None;
        self.crop_mode = false;
    }

    /// Pressing the button of filter `f`: it is chosen, or dropped when it
    /// was the chosen one.
    pub fn toggle_filter(&mut self, f: Filter)
        ensures
            final(self).filter == (if old(self).filter == Some(f) {
                None
            } else {
                Some(f)
            }),
            *final(self) == (EditState { filter: final(self).filter, ..*old(self) }),
    {
        let selected = match self.filter {
            Some(g) => g == f,
            None => false,
        };
        if selected {
            self.filter = None;
        } else {
            self.filter = Some(f);
        }
    }

    /// Drops every edit and shows a copy of the original again.
    pub fn reset(&mut self)
        ensures
            final(self).original == old(self).original,
            final(self).working == old(self).original,
            final(self).crop_rect is None,
            !final(self).crop_mode,
            final(self).filter is None,
            final(self).brightness == 0 && final(self).contrast == 0 && final(self).saturation == 0,
            !has_changes_spec(*final(self)),
    {
        self.working = clone_image(&self.original);
        self.crop_rect = None;
        self.crop_mode = false;
        self.filter = None;
        self.brightness = 0;
        self.contrast = 0;
        self.saturation = 0;
    }
}

} // verus!
