//! Posts and the two-path build decision: rebuild cheaply from a cached
//! snapshot, or process the directory's photos in full.

use vstd::prelude::*;
use vstd::relations::sorted_by;
use crate::chronology::{
    apply_outliers, earliest_photo_date, earliest_relevant, identify_outliers, photo_leq,
    sort_photos,
};
use crate::config::{PhotoConfig, PostConfig, SeriesConfig};
use crate::log::PostLog;
use crate::photo::{Photo, Stamp};
use crate::size::url_updated;
use crate::tags::{clone_tag_index, collate_spec, collate_tags, index_view, TagEntry};

verus! {

/// One blog entry: one source directory of photos and configuration.
pub struct Post {
    /// Path of the post's directory, unique across the blog; the URL key.
    pub path: String,
    /// Portion of the path shared by the members of a series.
    pub series_path: String,
    /// Portion of the path unique among series members.
    pub part_path: String,
    /// Representative date: when the depicted events happened.
    pub happened_on: Option<Stamp>,
    /// Title; for a series member, the series title.
    pub title: String,
    /// Subtitle; for a series member, the post's own configured title.
    pub sub_title: String,
    /// Summary text.
    pub summary: String,
    /// Whether the pictures occurred sequentially in a specific time
    /// range.
    pub chronological: bool,
    /// Whether the post is featured in main navigation.
    pub featured: bool,
    /// The post's photos; empty when the post was rebuilt from its
    /// snapshot.
    pub photos: Vec<Photo>,
    /// Path of the next (newer) chronological post.
    pub next_path: Option<String>,
    /// Path of the previous (older) chronological post.
    pub prev_path: Option<String>,
    /// One-based position in the series, or zero outside a series.
    pub part: u8,
    /// Whether the post is part of a series.
    pub is_partial: bool,
    /// Whether the next post belongs to the same series.
    pub next_is_part: bool,
    /// Whether the previous post belongs to the same series.
    pub prev_is_part: bool,
    /// Total number of parts in the series.
    pub total_parts: u8,
    /// Whether a GPX track was found for the post.
    pub has_track: bool,
    /// Number of photos, also when `photos` itself stays empty.
    pub photo_count: usize,
    /// Whether the post must be re-rendered: set unless the staleness
    /// check found no change and no neighbor drifted.
    pub needs_render: bool,
    /// Zero-based index of the cover photo.
    pub cover_photo_index: usize,
    /// The post's tag index.
    pub tags: Vec<TagEntry>,
    /// The snapshot the post was loaded against.
    pub history: PostLog,
}

impl Default for Post {
    /// The neutral post every build starts from.
    fn default() -> (r: Post)
        ensures
            r.path@ == Seq::<char>::empty(),
            r.series_path@ == Seq::<char>::empty(),
            r.part_path@ == Seq::<char>::empty(),
            r.happened_on is None,
            r.title@ == Seq::<char>::empty(),
            r.sub_title@ == Seq::<char>::empty(),
            r.summary@ == Seq::<char>::empty(),
            r.chronological == true,
            r.featured == false,
            r.photos@.len() == 0,
            r.next_path is None,
            r.prev_path is None,
            r.part == 0,
            r.is_partial == false,
            r.next_is_part == false,
            r.prev_is_part == false,
            r.total_parts == 0,
            r.has_track == false,
            r.photo_count == 0,
            r.needs_render == true,
            r.cover_photo_index == 0,
            r.tags@.len() == 0,
            crate::log::is_empty_log(r.history),
    {
        Post {
            path: String::new(),
            series_path: String::new(),
            part_path: String::new(),
            happened_on: None,
            title: String::new(),
            sub_title: String::new(),
            summary: String::new(),
            chronological: true,
            featured: false,
            photos: Vec::new(),
            next_path: None,
            prev_path: None,
            part: 0,
            is_partial: false,
            next_is_part: false,
            prev_is_part: false,
            total_parts: 0,
            has_track: false,
            photo_count: 0,
            needs_render: true,
            cover_photo_index: 0,
            tags: Vec::new(),
            history: PostLog::empty(),
        }
    }
}

/// Holds when `b` is `a` with the standard URLs of every rendered size
/// built against `path` and `ext`, everything else untouched.
pub open spec fn urls_built(a: Photo, b: Photo, path: Seq<char>, ext: Seq<char>) -> bool {
    &&& b.index == a.index
    &&& b.taken_on == a.taken_on
    &&& b.tags == a.tags
    &&& b.date_outlier == a.date_outlier
    &&& b.size.original == a.size.original
    &&& url_updated(a.size.large, b.size.large, path, a.index as int, ext)
    &&& url_updated(a.size.medium, b.size.medium, path, a.index as int, ext)
    &&& url_updated(a.size.small, b.size.small, path, a.index as int, ext)
    &&& url_updated(a.size.thumb, b.size.thumb, path, a.index as int, ext)
}

impl Post {
    /// The photo at the configured cover index, if the loaded photos
    /// reach it.
    pub fn cover_photo(&self) -> (r: Option<&Photo>)
        ensures
            (match r {
                Some(p) => crate::log::cover_photo_spec(*self) == Some(*p),
                None => crate::log::cover_photo_spec(*self) is None,
            }),
    {
        if self.cover_photo_index < self.photos.len() {
            Some(&self.photos[self.cover_photo_index])
        } else {
            None
        }
    }

    /// Build the root-relative URLs of every photo's rendered sizes.
    pub fn build_photo_urls(&mut self, config: &PhotoConfig)
        ensures
            final(self).photos@.len() == old(self).photos@.len(),
            forall|k: int|
                0 <= k < old(self).photos@.len() ==> urls_built(
                    old(self).photos@[k],
                    #[trigger] final(self).photos@[k],
                    old(self).path@,
                    config.output_ext@,
                ),
            *final(self) == (Post { photos: final(self).photos, ..*old(self) }),
    {
        let ghost orig = self.photos@;
        let ghost n = orig.len() as int;
        let mut out: Vec<Photo> = Vec::new();
        while self.photos.len() > 0
            invariant
                out@.len() + self.photos@.len() == n,
                n == orig.len(),
                self.photos@ == orig.subrange(out@.len() as int, n),
                forall|k: int|
                    0 <= k < out@.len() ==> urls_built(
                        orig[k],
                        #[trigger] out@[k],
                        old(self).path@,
                        config.output_ext@,
                    ),
                *self == (Post { photos: self.photos, ..*old(self) }),
            decreases self.photos@.len(),
        {
            let ghost k = out@.len() as int;
            let mut p = self.photos.remove(0);
            proof {
                assert(p == orig[k]);
                assert(self.photos@ =~= orig.subrange(k + 1, n));
            }
            p.size.build_urls(self.path.as_str(), p.index, config);
            out.push(p);
        }
        self.photos = out;
    }
}

/// Whether the cached snapshot may stand in for full processing: the
/// staleness check found no file change and no re-render is forced.
pub fn use_cached_path(log: &PostLog, force_rerender: bool) -> (r: bool)
    ensures
        r == (!log.files_have_changed && !force_rerender),
{
    !(log.files_have_changed || force_rerender)
}

/// Holds when `r` is the post rebuilt from the snapshot `log` alone:
/// cached fields copied, photos left empty, no re-render required.
pub open spec fn rebuilt_from(r: Post, path: Seq<char>, config: PostConfig, log: PostLog) -> bool {
    &&& r.path@ == path
    &&& r.happened_on == log.happened_on
    &&& r.photo_count == log.photo_count
    &&& r.chronological == config.chronological
    &&& r.needs_render == false
    &&& index_view(r.tags@) == index_view(log.tags@)
    &&& r.cover_photo_index == config.cover_photo_index
    &&& r.photos@.len() == 0
    &&& r.title@ == config.title@
    &&& r.summary@ == config.summary@
    &&& r.history == log
    &&& r.prev_path is None
    &&& r.next_path is None
    &&& r.sub_title@ == Seq::<char>::empty()
    &&& r.series_path@ == Seq::<char>::empty()
    &&& r.part_path@ == Seq::<char>::empty()
    &&& r.featured == false
    &&& r.part == 0
    &&& r.is_partial == false
    &&& r.next_is_part == false
    &&& r.prev_is_part == false
    &&& r.total_parts == 0
    &&& r.has_track == false
}

/// The CACHED build path: reconstruct the post from its snapshot without
/// touching its photos.
pub fn post_from_log(path: String, config: &PostConfig, log: PostLog) -> (r: Post)
    ensures
        rebuilt_from(r, path@, *config, log),
{
    let tags = clone_tag_index(&log.tags);
    Post {
        path,
        happened_on: log.happened_on,
        photo_count: log.photo_count,
        chronological: config.chronological,
        needs_render: false,
        tags,
        cover_photo_index: config.cover_photo_index,
        title: config.title.clone(),
        summary: config.summary.clone(),
        history: log,
        ..Post::default()
    }
}

/// The FULL build path: flag outliers, order the photos, collate their
/// tags and derive the representative date. An empty photo list means
/// the post is invalid and yields nothing.
pub fn post_from_photos(
    path: String,
    config: &PostConfig,
    log: PostLog,
    photos: Vec<Photo>,
    outlier_threshold: i64,
) -> (r: Option<Post>)
    ensures
        (photos@.len() == 0) <==> (r is None),
        (match r {
            None => true,
            Some(p) => {
                &&& p.path@ == path@
                &&& p.chronological == config.chronological
                &&& p.needs_render == true
                &&& p.history == log
                &&& p.photo_count == p.photos@.len()
                &&& p.photos@.len() == photos@.len()
                &&& p.photos@.to_multiset() == apply_outliers(
                    photos@,
                    outlier_threshold,
                ).to_multiset()
                &&& sorted_by(p.photos@, photo_leq(config.chronological))
                &&& index_view(p.tags@) == collate_spec(p.photos@)
                &&& p.happened_on == (if config.chronological {
                    earliest_relevant(p.photos@)
                } else {
                    None::<Stamp>
                })
                &&& p.title@ == config.title@
                &&& p.summary@ == config.summary@
                &&& p.cover_photo_index == 0
                &&& p.prev_path is None
                &&& p.next_path is None
                &&& p.sub_title@ == Seq::<char>::empty()
                &&& p.series_path@ == Seq::<char>::empty()
                &&& p.part_path@ == Seq::<char>::empty()
                &&& p.featured == false
                &&& p.part == 0
                &&& p.is_partial == false
                &&& p.next_is_part == false
                &&& p.prev_is_part == false
                &&& p.total_parts == 0
                &&& p.has_track == false
            },
        }),
{
    if photos.len() == 0 {
        return None;
    }
    let mut photos = photos;
    identify_outliers(&mut photos, outlier_threshold);
    sort_photos(&mut photos, config.chronological);
    let tags = collate_tags(&photos);
    let happened_on = if config.chronological {
        earliest_photo_date(&photos)
    } else {
        None
    };
    let photo_count = photos.len();
    Some(
        Post {
            path,
            chronological: config.chronological,
            history: log,
            happened_on,
            photo_count,
            photos,
            tags,
            title: config.title.clone(),
            summary: config.summary.clone(),
            needs_render: true,
            ..Post::default()
        },
    )
}

/// Mark the post as part of a series: set its position and span, and
/// promote the series title to primary title, demoting the post's own
/// title to subtitle. A position of zero never reaches this point: such
/// a directory is excluded from the series.
pub fn apply_series(post: &mut Post, part: u8, series: &SeriesConfig)
    requires
        part >= 1,
    ensures
        final(post).part == part,
        final(post).total_parts == series.parts,
        final(post).is_partial == true,
        final(post).prev_is_part == (part > 1),
        final(post).next_is_part == (part < series.parts),
        final(post).title@ == series.title@,
        final(post).sub_title@ == old(post).title@,
        *final(post) == (Post {
            part: final(post).part,
            total_parts: final(post).total_parts,
            is_partial: final(post).is_partial,
            prev_is_part: final(post).prev_is_part,
            next_is_part: final(post).next_is_part,
            title: final(post).title,
            sub_title: final(post).sub_title,
            ..*old(post)
        }),
{
    post.sub_title = post.title.clone();
    post.title = series.title.clone();
    post.part = part;
    post.total_parts = series.parts;
    post.is_partial = true;
    post.prev_is_part = part > 1;
    post.next_is_part = part < series.parts;
}

/// Idempotence of the cached path: a post rebuilt from a snapshot of a
/// previously processed post carries the same field values as that post
/// — representative date, photo count, tag index, titles — whatever the
/// save timestamp was. Only the photo list stays empty and no re-render
/// is required.
pub proof fn lemma_cached_rebuild_identical(
    post: Post,
    log: PostLog,
    rebuilt: Post,
    config: PostConfig,
    t: i64,
)
    requires
        crate::log::snapshot_of(log, post, t),
        rebuilt_from(rebuilt, post.path@, config, log),
        config.chronological == post.chronological,
        config.cover_photo_index == post.cover_photo_index,
        config.title@ == post.title@,
        config.summary@ == post.summary@,
    ensures
        rebuilt.path@ == post.path@,
        rebuilt.happened_on == post.happened_on,
        rebuilt.photo_count == post.photo_count,
        index_view(rebuilt.tags@) == index_view(post.tags@),
        rebuilt.chronological == post.chronological,
        rebuilt.cover_photo_index == post.cover_photo_index,
        rebuilt.title@ == post.title@,
        rebuilt.summary@ == post.summary@,
        rebuilt.needs_render == false,
{
}

/// Idempotence across runs: a directory whose permitted files are
/// exactly the ones the snapshot counted, none modified after the save
/// time, resolves to an unchanged snapshot — so, with no forced
/// re-render, the next run takes the cached path — and the post that
/// path rebuilds carries the previous run's field values, the save
/// timestamp excepted.
pub proof fn lemma_unchanged_run_reuses_cache(
    post: Post,
    log: PostLog,
    resolved: PostLog,
    rebuilt: Post,
    config: PostConfig,
    t: i64,
    entries: Seq<crate::staleness::FileEntry>,
    source_ext: Seq<char>,
    config_name: Seq<char>,
)
    requires
        crate::log::snapshot_of(log, post, t),
        crate::staleness::permitted_files(entries, source_ext, config_name).len()
            == log.photo_count + 1,
        forall|i: int|
            0 <= i < entries.len() && crate::staleness::name_permitted(
                (#[trigger] entries[i]).name@,
                source_ext,
                config_name,
            ) ==> entries[i].modified <= log.as_of,
        resolved == (PostLog {
            files_have_changed: crate::staleness::listing_modified(
                entries,
                log.as_of as int,
                log.photo_count + 1,
                source_ext,
                config_name,
            ),
            ..log
        }),
        rebuilt_from(rebuilt, post.path@, config, resolved),
        config.chronological == post.chronological,
        config.cover_photo_index == post.cover_photo_index,
        config.title@ == post.title@,
        config.summary@ == post.summary@,
    ensures
        !resolved.files_have_changed,
        rebuilt.path@ == post.path@,
        rebuilt.happened_on == post.happened_on,
        rebuilt.photo_count == post.photo_count,
        index_view(rebuilt.tags@) == index_view(post.tags@),
        rebuilt.chronological == post.chronological,
        rebuilt.cover_photo_index == post.cover_photo_index,
        rebuilt.title@ == post.title@,
        rebuilt.summary@ == post.summary@,
        rebuilt.needs_render == false,
{
    crate::staleness::lemma_quiet_listing_not_modified(
        entries,
        log.as_of as int,
        log.photo_count + 1,
        source_ext,
        config_name,
    );
    assert(crate::log::snapshot_of(resolved, post, t));
    lemma_cached_rebuild_identical(post, resolved, rebuilt, config, t);
}

} // verus!
