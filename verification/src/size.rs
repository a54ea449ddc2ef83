//! Rendered photo sizes: dimension scaling and root-relative URLs.

use vstd::prelude::*;
use vstd::string::*;

verus! {

/// Suffix added to a resized file's name for the untouched original.
pub const SUFFIX_ORIGINAL: &'static str = "o";

/// Suffix for the size shown when an image is enlarged.
pub const SUFFIX_LARGE: &'static str = "l";

/// Suffix for the main size within a post body.
pub const SUFFIX_MEDIUM: &'static str = "m";

/// Suffix for the size shown in post summaries.
pub const SUFFIX_SMALL: &'static str = "s";

/// Suffix for the square search-result size.
pub const SUFFIX_THUMB: &'static str = "t";

/// The decimal digit `d` as a character, for `0 <= d <= 9`.
pub open spec fn digit_char(d: int) -> char {
    if d == 0 {
        '0'
    } else if d == 1 {
        '1'
    } else if d == 2 {
        '2'
    } else if d == 3 {
        '3'
    } else if d == 4 {
        '4'
    } else if d == 5 {
        '5'
    } else if d == 6 {
        '6'
    } else if d == 7 {
        '7'
    } else if d == 8 {
        '8'
    } else {
        '9'
    }
}

/// `n` written as exactly three decimal digits, zero-padded, for
/// `0 <= n <= 999`.
pub open spec fn pad3(n: int) -> Seq<char> {
    seq![digit_char(n / 100), digit_char((n / 10) % 10), digit_char(n % 10)]
}

/// The root-relative URL of one rendered size of one photo:
/// `<post path>/<three-digit photo index>_<size suffix><output extension>`.
pub open spec fn url_chars(
    post_path: Seq<char>,
    photo_index: int,
    suffix: Seq<char>,
    ext: Seq<char>,
) -> Seq<char> {
    post_path + seq!['/'] + pad3(photo_index) + seq!['_'] + suffix + ext
}

/// `dim` scaled by `long_edge / other`, rounded to the nearest integer
/// (halves rounding up).
pub open spec fn scaled(dim: int, long_edge: int, other: int) -> int
    recommends
        other > 0,
{
    (dim * long_edge + other / 2) / other
}

/// The dimensions, `(width, height)`, of a `w` by `h` image whose long
/// edge has been limited to `le` without enlarging the image.
pub open spec fn limit_dims(w: int, h: int, le: int) -> (int, int) {
    if le > w && le > h {
        (w, h)
    } else if h > w {
        (scaled(w, le, h), le)
    } else {
        (le, scaled(h, le, w))
    }
}

/// Holds when `after` is `before` with its URL replaced by the standard
/// URL built from `post_path`, `photo_index` and `ext`.
pub open spec fn url_updated(
    before: Size,
    after: Size,
    post_path: Seq<char>,
    photo_index: int,
    ext: Seq<char>,
) -> bool {
    &&& after.width == before.width
    &&& after.height == before.height
    &&& after.suffix@ == before.suffix@
    &&& after.url@ == url_chars(post_path, photo_index, before.suffix@, ext)
}

/// One rendered size of a photo.
#[derive(Debug, Clone, PartialEq, Eq)]
pub struct Size {
    pub width: u16,
    pub height: u16,
    pub url: String,
    /// Suffix added to the image file name for this size.
    pub suffix: &'static str,
}

/// The decimal digit `d` as a one-character string slice.
fn digit_str(d: u8) -> (r: &'static str)
    requires
        d < 10,
    ensures
        r@ =~= seq![digit_char(d as int)],
{
    proof {
        reveal_strlit("0");
        reveal_strlit("1");
        reveal_strlit("2");
        reveal_strlit("3");
        reveal_strlit("4");
        reveal_strlit("5");
        reveal_strlit("6");
        reveal_strlit("7");
        reveal_strlit("8");
        reveal_strlit("9");
    }
    match d {
        0 => "0",
        1 => "1",
        2 => "2",
        3 => "3",
        4 => "4",
        5 => "5",
        6 => "6",
        7 => "7",
        8 => "8",
        _ => "9",
    }
}

impl Size {
    pub fn new(width: u16, height: u16, suffix: &'static str) -> (r: Size)
        ensures
            r.width == width,
            r.height == height,
            r.suffix@ == suffix@,
            r.url@ == Seq::<char>::empty(),
    {
        Size { width, height, suffix, url: String::new() }
    }

    /// Build the root-relative URL for this photo size.
    pub fn build_url(&mut self, post_path: &str, photo_index: u8, config: &crate::config::PhotoConfig)
        ensures
            url_updated(
                *old(self),
                *final(self),
                post_path@,
                photo_index as int,
                config.output_ext@,
            ),
    {
        proof {
            reveal_strlit("/");
            reveal_strlit("_");
        }
        let mut url = String::new();
        url.append(post_path);
        url.append("/");
        url.append(digit_str(photo_index / 100));
        url.append(digit_str((photo_index / 10) % 10));
        url.append(digit_str(photo_index % 10));
        url.append("_");
        url.append(self.suffix);
        url.append(config.output_ext.as_str());
        assert(url@ =~= url_chars(post_path@, photo_index as int, self.suffix@, config.output_ext@));
        self.url = url;
    }

    /// Coordinates of the largest centered square: x offset, y offset and
    /// edge length.
    pub fn center_square(&self) -> (r: (u16, u16, u16))
        ensures
            self.width > self.height ==> r == ((
                ((self.width - self.height) / 2) as u16,
                0u16,
                self.height,
            )),
            self.width <= self.height ==> r == ((
                0u16,
                ((self.height - self.width) / 2) as u16,
                self.width,
            )),
    {
        if self.width > self.height {
            // crop left and right
            ((self.width - self.height) / 2, 0, self.height)
        } else {
            // crop top and bottom
            (0, (self.height - self.width) / 2, self.width)
        }
    }

    /// A copy whose long edge does not exceed `long_edge`, keeping the
    /// aspect ratio to the nearest pixel. Never enlarges the image; the
    /// unscaled case keeps the URL, the scaled cases leave it empty.
    pub fn limit_to(&self, long_edge: u16, suffix: &'static str) -> (r: Size)
        requires
            self.width > 0,
            self.height > 0,
        ensures
            (r.width as int, r.height as int) == limit_dims(
                self.width as int,
                self.height as int,
                long_edge as int,
            ),
            r.suffix@ == suffix@,
            long_edge > self.width && long_edge > self.height ==> r.url@ == self.url@,
            !(long_edge > self.width && long_edge > self.height) ==> r.url@
                == Seq::<char>::empty(),
    {
        if long_edge > self.width && long_edge > self.height {
            Size { width: self.width, height: self.height, url: self.url.clone(), suffix }
        } else if self.height > self.width {
            let w: u32 = self.width as u32;
            let h: u32 = self.height as u32;
            let le: u32 = long_edge as u32;
            proof {
                assert((w as int) * (le as int) + (h as int) / 2 < 0x1_0000_0000)
                    by (nonlinear_arith)
                    requires
                        w < 0x10000,
                        le < 0x10000,
                        h < 0x10000,
                ;
            }
            let width = (w * le + h / 2) / h;
            proof {
                assert(width <= le) by (nonlinear_arith)
                    requires
                        w < h,
                        0 < h,
                        le < 0x10000,
                        width as int == ((w as int) * (le as int) + (h as int) / 2) / (h as int),
                ;
            }
            Size::new(width as u16, long_edge, suffix)
        } else {
            let w: u32 = self.width as u32;
            let h: u32 = self.height as u32;
            let le: u32 = long_edge as u32;
            proof {
                assert((h as int) * (le as int) + (w as int) / 2 < 0x1_0000_0000)
                    by (nonlinear_arith)
                    requires
                        w < 0x10000,
                        le < 0x10000,
                        h < 0x10000,
                ;
            }
            let height = (h * le + w / 2) / w;
            proof {
                assert(height <= le) by (nonlinear_arith)
                    requires
                        h <= w,
                        0 < w,
                        le < 0x10000,
                        height as int == ((h as int) * (le as int) + (w as int) / 2) / (w as int),
                ;
            }
            Size::new(long_edge, height as u16, suffix)
        }
    }
}

/// Every rendered size of one photo, derived from the original dimensions.
#[derive(Debug, Clone)]
pub struct SizeCollection {
    pub original: Size,
    /// Size shown when the image is enlarged.
    pub large: Size,
    /// Main size within the post body.
    pub medium: Size,
    /// Size shown in a post summary on a category page.
    pub small: Size,
    /// Size shown in search results.
    pub thumb: Size,
}

impl SizeCollection {
    /// Create the size collection from the original dimensions.
    pub fn from(width: u16, height: u16, config: &crate::config::SizeConfig) -> (r: SizeCollection)
        requires
            width > 0,
            height > 0,
        ensures
            r.original.width == width,
            r.original.height == height,
            r.original.suffix@ == SUFFIX_ORIGINAL@,
            (r.large.width as int, r.large.height as int) == limit_dims(
                width as int,
                height as int,
                config.large as int,
            ),
            r.large.suffix@ == SUFFIX_LARGE@,
            (r.medium.width as int, r.medium.height as int) == limit_dims(
                width as int,
                height as int,
                config.medium as int,
            ),
            r.medium.suffix@ == SUFFIX_MEDIUM@,
            (r.small.width as int, r.small.height as int) == limit_dims(
                width as int,
                height as int,
                config.small as int,
            ),
            r.small.suffix@ == SUFFIX_SMALL@,
            r.thumb.width == config.thumb,
            r.thumb.height == config.thumb,
            r.thumb.suffix@ == SUFFIX_THUMB@,
            r.original.url@ == Seq::<char>::empty(),
            r.large.url@ == Seq::<char>::empty(),
            r.medium.url@ == Seq::<char>::empty(),
            r.small.url@ == Seq::<char>::empty(),
            r.thumb.url@ == Seq::<char>::empty(),
    {
        let original = Size::new(width, height, SUFFIX_ORIGINAL);

        SizeCollection {
            large: original.limit_to(config.large, SUFFIX_LARGE),
            medium: original.limit_to(config.medium, SUFFIX_MEDIUM),
            small: original.limit_to(config.small, SUFFIX_SMALL),
            thumb: Size {
                width: config.thumb,
                height: config.thumb,
                suffix: SUFFIX_THUMB,
                url: String::new(),
            },
            original,
        }
    }

    /// Build the root-relative URLs of every rendered size.
    pub fn build_urls(&mut self, post_path: &str, photo_index: u8, config: &crate::config::PhotoConfig)
        ensures
            final(self).original == old(self).original,
            url_updated(
                old(self).large,
                final(self).large,
                post_path@,
                photo_index as int,
                config.output_ext@,
            ),
            url_updated(
                old(self).medium,
                final(self).medium,
                post_path@,
                photo_index as int,
                config.output_ext@,
            ),
            url_updated(
                old(self).small,
                final(self).small,
                post_path@,
                photo_index as int,
                config.output_ext@,
            ),
            url_updated(
                old(self).thumb,
                final(self).thumb,
                post_path@,
                photo_index as int,
                config.output_ext@,
            ),
    {
        self.large.build_url(post_path, photo_index, config);
        self.medium.build_url(post_path, photo_index, config);
        self.small.build_url(post_path, photo_index, config);
        self.thumb.build_url(post_path, photo_index, config);
    }

    /// Whether the photo is taller than it is wide.
    pub fn is_portrait(&self) -> (r: bool)
        ensures
            r == (self.original.width < self.original.height),
    {
        self.original.width < self.original.height
    }

    /// Whether the photo is wider than it is tall.
    pub fn is_landscape(&self) -> (r: bool)
        ensures
            r == (self.original.width > self.original.height),
    {
        self.original.width > self.original.height
    }
}

} // verus!
