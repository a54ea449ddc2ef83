//! Plain configuration values that the engine's decisions read.
//!
//! Loading configuration from disk is a collaborator's job; the engine only
//! sees the resulting values.

use vstd::prelude::*;

verus! {

/// Fixed name of the per-directory configuration file.
pub const CONFIG_FILE: &'static str = "config.ron";

/// Fixed name of the persisted snapshot file, per post directory and at
/// the blog root.
pub const LOG_FILE: &'static str = "log.ron";

/// Photo-source and output file settings.
pub struct PhotoConfig {
    /// Extension of photo source files, e.g. `.tif`.
    pub source_ext: String,
    /// Extension of rendered image files, e.g. `.webp`.
    pub output_ext: String,
    /// Capture moments further than this many seconds from the post's
    /// central date are flagged as outliers.
    pub outlier_seconds: i64,
}

/// Longest-edge limits for the rendered sizes of a photo.
pub struct SizeConfig {
    /// Size shown when an image is enlarged.
    pub large: u16,
    /// Main size within a post body.
    pub medium: u16,
    /// Size shown in a post summary on a category page.
    pub small: u16,
    /// Edge of the square size shown in search results.
    pub thumb: u16,
}

/// Blog-wide settings the engine consults.
pub struct BlogConfig {
    /// When set, every post takes the full processing path even if its
    /// snapshot shows no change.
    pub force_rerender: bool,
    /// Photo-source settings.
    pub photo: PhotoConfig,
}

/// Per-post configuration values.
pub struct PostConfig {
    /// Title the post was configured with.
    pub title: String,
    /// Summary text.
    pub summary: String,
    /// Whether the post's pictures occurred sequentially in a specific
    /// time range, as opposed to a themed set from various times.
    pub chronological: bool,
    /// Zero-based index of the cover photo within the post's photos.
    pub cover_photo_index: usize,
}

/// Configuration shared by the members of a post series.
pub struct SeriesConfig {
    /// Title of the series as a whole.
    pub title: String,
    /// Total number of parts in the series.
    pub parts: u8,
}

} // verus!
