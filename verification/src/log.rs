//! Cached snapshots: the per-post record that lets a later run skip
//! expensive work, and the blog-wide tag record.
//!
//! Serializing snapshots to disk and back is a collaborator's job; a
//! missing or unparseable file is handed to the engine as absence, which
//! the engine answers with the empty snapshot.

use vstd::prelude::*;
use crate::config::BlogConfig;
use crate::photo::{Photo, Stamp};
use crate::staleness::FileEntry;
use crate::post::Post;
use crate::size::{Size, SizeCollection};
use crate::tags::{
    blog_index_view, blog_slug_pos, BlogTagEntry, BlogTagEntryView, clone_tag_index, index_view,
    TagEntry,
};

verus! {

/// Whether two optional paths hold the same characters.
pub open spec fn opt_path_eq(a: Option<String>, b: Option<String>) -> bool {
    match (a, b) {
        (None, None) => true,
        (Some(x), Some(y)) => x@ == y@,
        _ => false,
    }
}

/// Whether two photos carry the same values in every field.
pub open spec fn photo_eqv(a: Photo, b: Photo) -> bool {
    &&& a.index == b.index
    &&& a.taken_on == b.taken_on
    &&& a.date_outlier == b.date_outlier
    &&& a.tags@ == b.tags@
    &&& a.size == b.size
}

/// The post's cover photo: the photo at the configured cover index, if
/// the loaded photos reach it.
pub open spec fn cover_photo_spec(post: Post) -> Option<Photo> {
    if post.cover_photo_index < post.photos@.len() {
        Some(post.photos@[post.cover_photo_index as int])
    } else {
        None
    }
}

/// Whether `log` is a faithful snapshot of `post`, taken at `as_of`:
/// neighbor paths, representative date, photo count, tag index and cover
/// photo copied, with the transient change flag cleared.
pub open spec fn snapshot_of(log: PostLog, post: Post, as_of: i64) -> bool {
    &&& opt_path_eq(log.prev_path, post.prev_path)
    &&& opt_path_eq(log.next_path, post.next_path)
    &&& log.happened_on == post.happened_on
    &&& log.as_of == as_of
    &&& log.photo_count == post.photo_count
    &&& index_view(log.tags@) == index_view(post.tags@)
    &&& (match (log.cover_photo, cover_photo_spec(post)) {
        (None, None) => true,
        (Some(a), Some(b)) => photo_eqv(a, b),
        _ => false,
    })
    &&& log.files_have_changed == false
}

/// Per-post snapshot: what the last full processing of the post saved,
/// so that an unchanged post can be rebuilt without reading its photos.
pub struct PostLog {
    /// Path of the next (newer) chronological post at save time.
    pub next_path: Option<String>,
    /// Path of the previous (older) chronological post at save time.
    pub prev_path: Option<String>,
    /// Representative date of the post: the capture moment of its first
    /// relevant (non-outlier) photo.
    pub happened_on: Option<Stamp>,
    /// When the post's data were last fully loaded, in Unix seconds;
    /// written once per run and immutable until overwritten.
    pub as_of: i64,
    /// Number of photos at the last full load.
    pub photo_count: usize,
    /// The cover photo's summary, kept so category pages can be rebuilt
    /// without reloading the post.
    pub cover_photo: Option<Photo>,
    /// The post's tag index, kept so photo-tag pages can be rebuilt.
    pub tags: Vec<TagEntry>,
    /// Whether the post's source files changed since the snapshot was
    /// taken. Computed against the directory at load time, never stored.
    pub files_have_changed: bool,
}

/// A copy of an optional path.
fn clone_opt_string(o: &Option<String>) -> (r: Option<String>)
    ensures
        r == *o,
{
    match o {
        Some(s) => Some(s.clone()),
        None => None,
    }
}

/// A copy of one rendered size.
fn clone_size(s: &Size) -> (r: Size)
    ensures
        r == *s,
{
    Size { width: s.width, height: s.height, url: s.url.clone(), suffix: s.suffix }
}

/// A copy of a photo's size collection.
fn clone_sizes(s: &SizeCollection) -> (r: SizeCollection)
    ensures
        r == *s,
{
    SizeCollection {
        original: clone_size(&s.original),
        large: clone_size(&s.large),
        medium: clone_size(&s.medium),
        small: clone_size(&s.small),
        thumb: clone_size(&s.thumb),
    }
}

/// A copy of a photo.
fn clone_photo(p: &Photo) -> (r: Photo)
    ensures
        photo_eqv(r, *p),
{
    let mut tags: Vec<String> = Vec::new();
    let mut i: usize = 0;
    while i < p.tags.len()
        invariant
            i <= p.tags@.len(),
            tags@.len() == i,
            forall|k: int| 0 <= k < i ==> #[trigger] tags@[k] == p.tags@[k],
        decreases p.tags@.len() - i,
    {
        tags.push(p.tags[i].clone());
        i += 1;
    }
    proof {
        assert(tags@ =~= p.tags@);
    }
    Photo {
        index: p.index,
        taken_on: p.taken_on,
        tags,
        date_outlier: p.date_outlier,
        size: clone_sizes(&p.size),
    }
}

/// Relies on `chrono::Local::now`: the current local time, read as its
/// Unix timestamp in seconds. The value depends on the clock, so nothing
/// is promised of it.
#[verifier::external_body]
fn now_unix_seconds() -> i64 {
    chrono::Local::now().timestamp()
}

impl PostLog {
    /// The degenerate snapshot: zeroed fields with the change flag set —
    /// the universal safe default that forces full reprocessing.
    pub fn empty() -> (r: PostLog)
        ensures
            r.next_path is None,
            r.prev_path is None,
            r.happened_on is None,
            r.as_of == 0,
            r.photo_count == 0,
            r.cover_photo is None,
            r.tags@ =~= Seq::<TagEntry>::empty(),
            r.files_have_changed == true,
    {
        PostLog {
            next_path: None,
            prev_path: None,
            happened_on: None,
            as_of: 0,
            photo_count: 0,
            cover_photo: None,
            tags: Vec::new(),
            files_have_changed: true,
        }
    }

    /// The snapshot of `post` taken at `as_of`.
    pub fn from_post(post: &Post, as_of: i64) -> (r: PostLog)
        ensures
            snapshot_of(r, *post, as_of),
    {
        let cover = if post.cover_photo_index < post.photos.len() {
            Some(clone_photo(&post.photos[post.cover_photo_index]))
        } else {
            None
        };
        PostLog {
            prev_path: clone_opt_string(&post.prev_path),
            next_path: clone_opt_string(&post.next_path),
            happened_on: post.happened_on,
            as_of,
            photo_count: post.photo_count,
            cover_photo: cover,
            tags: clone_tag_index(&post.tags),
            files_have_changed: false,
        }
    }

    /// The snapshot of `post` taken now: `as_of` is the moment of the
    /// call, read from the local clock.
    pub fn fresh(post: &Post) -> (r: PostLog)
        ensures
            snapshot_of(r, *post, r.as_of),
    {
        let now = now_unix_seconds();
        PostLog::from_post(post, now)
    }

    /// Whether the logged neighbor paths differ from the post's freshly
    /// computed ones. This detects cross-post dependency drift only; it
    /// says nothing about filesystem changes.
    pub fn differs(&self, post: &Post) -> (r: bool)
        ensures
            r == !(opt_path_eq(self.prev_path, post.prev_path) && opt_path_eq(
                self.next_path,
                post.next_path,
            )),
    {
        !(opt_string_eq(&self.prev_path, &post.prev_path) && opt_string_eq(
            &self.next_path,
            &post.next_path,
        ))
    }
}

/// Whether two optional strings hold the same characters.
fn opt_string_eq(a: &Option<String>, b: &Option<String>) -> (r: bool)
    ensures
        r == opt_path_eq(*a, *b),
{
    match (a, b) {
        (None, None) => true,
        (Some(x), Some(y)) => crate::staleness::str_eq(x.as_str(), y.as_str()),
        _ => false,
    }
}

/// What scanning a post's directory produced: the entries, the plain
/// absence of the directory, or a failure to read it at all.
pub enum DirScan {
    /// The directory could not be read; nothing is known about it.
    Failed,
    /// The directory does not exist.
    Missing,
    /// The directory's entries.
    Listed(Vec<FileEntry>),
}

/// The shape of the degenerate snapshot.
pub open spec fn is_empty_log(r: PostLog) -> bool {
    &&& r.next_path is None
    &&& r.prev_path is None
    &&& r.happened_on is None
    &&& r.as_of == 0
    &&& r.photo_count == 0
    &&& r.cover_photo is None
    &&& r.tags@.len() == 0
    &&& r.files_have_changed == true
}

/// Resolve a loaded snapshot against the directory it describes. A post
/// without a well-formed snapshot, or whose directory could not be
/// scanned, gets the empty snapshot, which forces full reprocessing; an
/// intact snapshot keeps its cached fields and learns from the staleness
/// check whether the files changed. The expected file count is the
/// cached photo count plus one, for the configuration file.
pub fn resolve_log(loaded: Option<PostLog>, scan: &DirScan, config: &BlogConfig) -> (r: PostLog)
    requires
        (match loaded {
            Some(log) => log.photo_count < usize::MAX,
            None => true,
        }),
    ensures
        loaded is None ==> is_empty_log(r),
        (match loaded {
            None => true,
            Some(log) => match scan {
                DirScan::Failed => is_empty_log(r),
                DirScan::Missing => r == (PostLog { files_have_changed: true, ..log }),
                DirScan::Listed(entries) => r == (PostLog {
                    files_have_changed: crate::staleness::listing_modified(
                        entries@,
                        log.as_of as int,
                        log.photo_count + 1,
                        config.photo.source_ext@,
                        crate::config::CONFIG_FILE@,
                    ),
                    ..log
                }),
            },
        }),
{
    let mut log = match loaded {
        None => {
            return PostLog::empty();
        },
        Some(log) => log,
    };
    match scan {
        DirScan::Failed => PostLog::empty(),
        DirScan::Missing => {
            log.files_have_changed = true;
            log
        },
        DirScan::Listed(entries) => {
            let modified = crate::staleness::is_modified(
                Some(entries),
                log.as_of,
                log.photo_count + 1,
                config,
            );
            log.files_have_changed = modified;
            log
        },
    }
}

/// Whether one cached blog tag disagrees with the current blog state:
/// its slug is gone, its display name changed, or its member count
/// changed.
pub open spec fn blog_entry_mismatch(e: BlogTagEntryView, current: Seq<BlogTagEntryView>) -> bool {
    let p = blog_slug_pos(current, e.slug);
    ||| p == -1
    ||| current[p].name != e.name
    ||| current[p].photos.len() != e.photos.len()
}

/// Blog-wide snapshot: the tag index of the whole blog as it was last
/// rendered.
pub struct BlogLog {
    pub tags: Vec<BlogTagEntry>,
}

impl BlogLog {
    /// The empty blog snapshot.
    pub fn empty() -> (r: BlogLog)
        ensures
            r.tags@ =~= Seq::<BlogTagEntry>::empty(),
    {
        BlogLog { tags: Vec::new() }
    }

    /// Whether the logged tags differ from the current blog tags: some
    /// cached tag vanished, was renamed, or changed its member count.
    ///
    /// Tags present only in the current state are not detected: the
    /// check looks from the cached side alone, by design.
    pub fn differs(&self, current: &Vec<BlogTagEntry>) -> (r: bool)
        ensures
            r == exists|i: int|
                0 <= i < self.tags@.len() && blog_entry_mismatch(
                    #[trigger] blog_index_view(self.tags@)[i],
                    blog_index_view(current@),
                ),
    {
        let ghost cur = blog_index_view(current@);
        let mut i: usize = 0;
        while i < self.tags.len()
            invariant
                i <= self.tags@.len(),
                cur == blog_index_view(current@),
                forall|k: int|
                    0 <= k < i ==> !blog_entry_mismatch(
                        #[trigger] blog_index_view(self.tags@)[k],
                        cur,
                    ),
            decreases self.tags@.len() - i,
        {
            let ghost ev = blog_index_view(self.tags@)[i as int];
            // find the slug in the current state
            let mut j: usize = 0;
            let mut found = false;
            while j < current.len() && !found
                invariant
                    j <= current@.len(),
                    cur == blog_index_view(current@),
                    ev == blog_index_view(self.tags@)[i as int],
                    0 <= i < self.tags@.len(),
                    ev == self.tags@[i as int]@,
                    found ==> j < current@.len() && cur[j as int].slug == ev.slug,
                    forall|jj: int| 0 <= jj < j ==> (#[trigger] cur[jj]).slug != ev.slug,
                decreases current@.len() - j + (if found {
                    0int
                } else {
                    1int
                }),
            {
                if current[j].slug == self.tags[i].slug {
                    found = true;
                } else {
                    proof {
                        assert(cur[j as int] == current@[j as int]@);
                    }
                    j += 1;
                }
            }
            if !found {
                proof {
                    crate::tags::lemma_blog_slug_pos_scan_pub(cur, ev.slug, cur.len() as int);
                }
                return true;
            }
            proof {
                crate::tags::lemma_blog_slug_pos_scan_pub(cur, ev.slug, j as int);
            }
            if !(current[j].name == self.tags[i].name) || current[j].photos.len() != self.tags[i].photos.len() {
                proof {
                    assert(cur[j as int] == current@[j as int]@);
                }
                return true;
            }
            proof {
                assert(cur[j as int] == current@[j as int]@);
                assert(!blog_entry_mismatch(ev, cur));
            }
            i += 1;
        }
        false
    }
}

} // verus!
