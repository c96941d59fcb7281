//! Images in the repository: where they land and how they are sized.
//!
//! The builder pins down the target directory and the size bounds; the
//! caller decodes, resizes to the dimensions computed here, and writes
//! the file.  The scaling arithmetic caps the width first, then the
//! height, stretching the other side by the whole-number ratio.

use vstd::prelude::*;
use vstd::string::StringExecFns;

use crate::date::Date;
use crate::error::Error;
use crate::zettel_path::{
    path_push, push_year_month_day, spec_path_join, spec_strip_prefix, strip_prefix_str,
};

verus! {

/// The width cap applied to `(width, height)`: when the cap is set and
/// lies under the width, the width becomes the cap and the height is
/// stretched by the whole-number ratio `width / cap`.
pub open spec fn spec_cap_width(w: nat, h: nat, max_width: Option<u32>) -> (nat, nat) {
    match max_width {
        Some(mw) => if (mw as nat) < w {
            (mw as nat, h * (w / (mw as nat)))
        } else {
            (w, h)
        },
        None => (w, h),
    }
}

/// The height cap, the mirror image of [`spec_cap_width`].
pub open spec fn spec_cap_height(w: nat, h: nat, max_height: Option<u32>) -> (nat, nat) {
    match max_height {
        Some(mh) => if (mh as nat) < h {
            (w * (h / (mh as nat)), mh as nat)
        } else {
            (w, h)
        },
        None => (w, h),
    }
}

/// The dimensions an image of `width` by `height` is resized to under
/// the two caps: the width cap is applied first, then the height cap to
/// the outcome.
pub open spec fn spec_scaled(w: nat, h: nat, max_width: Option<u32>, max_height: Option<u32>) -> (
    nat,
    nat,
) {
    let c = spec_cap_width(w, h, max_width);
    spec_cap_height(c.0, c.1, max_height)
}

/// Computes the resized dimensions per [`spec_scaled`].  A cap of zero
/// under a larger side, or a stretch past the integer range, is left
/// out: the ratio arithmetic has no answer for them.
pub fn scaled_dimensions(width: u32, height: u32, max_width: Option<u32>, max_height: Option<u32>) -> (r: (u32, u32))
    requires
        (match max_width {
            Some(mw) => mw < width ==> mw > 0 && height * (width as nat / mw as nat)
                <= u32::MAX,
            None => true,
        }),
        (match max_height {
            Some(mh) => {
                let c = spec_cap_width(width as nat, height as nat, max_width);
                (mh as nat) < c.1 ==> mh > 0 && c.0 * (c.1 / (mh as nat)) <= u32::MAX
            },
            None => true,
        }),
    ensures
        (r.0 as nat, r.1 as nat) == spec_scaled(width as nat, height as nat, max_width, max_height),
{
    let mut w = width;
    let mut h = height;
    if let Some(mw) = max_width {
        if mw < w {
            let ratio = w / mw;
            w = mw;
            h = h * ratio;
        }
    }
    if let Some(mh) = max_height {
        if mh < h {
            let ratio = h / mh;
            h = mh;
            w = w * ratio;
        }
    }
    (w, h)
}

/// Chooses where an image lands and how large it may be.  Decoding,
/// resizing and writing the file are the caller's work, against the
/// dimensions of [`scaled_dimensions`].
pub struct ImageBuilder {
    base: String,
    max_width: Option<u32>,
    max_height: Option<u32>,
}

impl ImageBuilder {
    /// The target directory so far.
    pub closed spec fn base_val(&self) -> Seq<char> {
        self.base@
    }

    /// The width cap.
    pub closed spec fn max_width_val(&self) -> Option<u32> {
        self.max_width
    }

    /// The height cap.
    pub closed spec fn max_height_val(&self) -> Option<u32> {
        self.max_height
    }

    /// A fresh builder rooted at `base`, with no size caps.
    pub fn new(base: &str) -> (r: ImageBuilder)
        ensures
            r.base_val() == base@,
            r.max_width_val() is None,
            r.max_height_val() is None,
    {
        ImageBuilder { base: String::from_str(base), max_width: None, max_height: None }
    }

    /// Descends into a subdirectory.
    pub fn subdirectory(self, subdir: &str) -> (r: ImageBuilder)
        ensures
            r.base_val() == spec_path_join(self.base_val(), subdir@),
            r.max_width_val() == self.max_width_val(),
            r.max_height_val() == self.max_height_val(),
    {
        let mut this = self;
        path_push(&mut this.base, subdir);
        this
    }

    /// Descends into `year/month/day` directories for the date.
    pub fn with_date_directory(self, date: &Date) -> (r: ImageBuilder)
        ensures
            r.base_val() == spec_path_join(
                spec_path_join(
                    spec_path_join(
                        self.base_val(),
                        crate::date::pad2_chars(date.spec_year() as nat),
                    ),
                    crate::date::pad2_chars(date.spec_month() as nat),
                ),
                crate::date::pad2_chars(date.spec_day() as nat),
            ),
            r.max_width_val() == self.max_width_val(),
            r.max_height_val() == self.max_height_val(),
    {
        let mut this = self;
        push_year_month_day(&mut this.base, date);
        this
    }

    /// Caps the width.
    pub fn max_width(self, width: Option<u32>) -> (r: ImageBuilder)
        ensures
            r.base_val() == self.base_val(),
            r.max_width_val() == width,
            r.max_height_val() == self.max_height_val(),
    {
        let mut this = self;
        this.max_width = width;
        this
    }

    /// Caps the height.
    pub fn max_height(self, height: Option<u32>) -> (r: ImageBuilder)
        ensures
            r.base_val() == self.base_val(),
            r.max_width_val() == self.max_width_val(),
            r.max_height_val() == height,
    {
        let mut this = self;
        this.max_height = height;
        this
    }

    /// The target directory the image will land in.
    pub fn base_dir(&self) -> (r: &String)
        ensures
            r@ == self.base_val(),
    {
        &self.base
    }

    /// The caps, for the caller that resizes.
    pub fn caps(&self) -> (r: (Option<u32>, Option<u32>))
        ensures
            r.0 == self.max_width_val(),
            r.1 == self.max_height_val(),
    {
        (self.max_width, self.max_height)
    }

    /// The path of the image file `name` under the target directory, and
    /// the image value for it.
    pub fn target(self, name: &str) -> (r: Image)
        ensures
            r.path@ == spec_path_join(self.base_val(), name@),
    {
        let mut this = self;
        path_push(&mut this.base, name);
        Image { path: this.base }
    }

    /// The path of a fresh, hash-named `.jpg` under the target directory,
    /// and the image value for it: how a newly imported image is placed.
    pub fn target_hashed(self) -> (r: Image)
        ensures
            (exists|n: Seq<char>|
                n.len() == 8 && r.path@ == spec_path_join(self.base_val(), n + ".jpg"@)),
    {
        let id = match crate::zettel_path::ZettelIDBuilder::new(None).with_hash().to_string() {
            Ok(id) => id,
            Err(_) => {
                proof {
                    assert(false);
                }
                String::new()
            },
        };
        let name = id.concat(".jpg");
        let mut this = self;
        path_push(&mut this.base, name.as_str());
        Image { path: this.base }
    }
}

/// One image stored in the repository.
pub struct Image {
    /// Where the image lives.
    pub path: String,
}

impl Image {
    /// The path relative to `parent`, per
    /// [`crate::zettel_path::spec_strip_prefix`].
    pub fn rel_path(&self, parent: &str) -> (r: Result<String, Error>)
        ensures
            (match r {
                Ok(s) => spec_strip_prefix(self.path@, parent@) == Some(s@),
                Err(e) => spec_strip_prefix(self.path@, parent@) is None && e matches Error::NotFound(_),
            }),
    {
        match strip_prefix_str(self.path.as_str(), parent) {
            Some(s) => Ok(s),
            None => Err(Error::NotFound(String::from_str("path not under parent"))),
        }
    }
}

} // verus!
