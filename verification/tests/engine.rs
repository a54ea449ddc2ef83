use photolog::blog::{
    assign_neighbors, attach_photos, collate_blog_tags, find_post_index, posts_needing_reload,
    sort_posts,
};
use photolog::chronology::{earliest_photo_date, identify_outliers, sort_photos};
use photolog::config::PostConfig;
use photolog::log::{BlogLog, PostLog};
use photolog::photo::{Photo, Stamp};
use photolog::post::{apply_series, post_from_log, post_from_photos, use_cached_path, Post};
use photolog::size::{Size, SizeCollection};
use photolog::tags::{BlogTagEntry, PhotoPath, TagEntry};
use photolog::config::SeriesConfig;

const DAY: i64 = 24 * 3600;

fn sizes() -> SizeCollection {
    SizeCollection {
        original: Size::new(1024, 768, "o"),
        large: Size::new(800, 600, "l"),
        medium: Size::new(600, 450, "m"),
        small: Size::new(300, 225, "s"),
        thumb: Size::new(100, 100, "t"),
    }
}

fn photo(index: u8, seconds: Option<i64>, tags: &[&str]) -> Photo {
    Photo {
        index,
        taken_on: seconds.map(|s| Stamp { seconds: s, offset_seconds: 0 }),
        tags: tags.iter().map(|t| String::from(*t)).collect(),
        date_outlier: false,
        size: sizes(),
    }
}

fn post_config(title: &str) -> PostConfig {
    PostConfig {
        title: String::from(title),
        summary: String::from("a summary"),
        chronological: true,
        cover_photo_index: 0,
    }
}

fn indexes(photos: &[Photo]) -> Vec<u8> {
    photos.iter().map(|p| p.index).collect()
}

/// Deterministic ordering: two arrangements of one photo set sort to the
/// identical order.
#[test]
fn sorting_is_deterministic() {
    let t0: i64 = 1_600_000_000;
    let mut first = vec![
        photo(2, Some(t0 + 60), &[]),
        photo(0, Some(t0 + 60), &[]),
        photo(1, Some(t0), &[]),
        photo(3, None, &[]),
    ];
    let mut second = vec![
        photo(3, None, &[]),
        photo(1, Some(t0), &[]),
        photo(2, Some(t0 + 60), &[]),
        photo(0, Some(t0 + 60), &[]),
    ];
    sort_photos(&mut first, true);
    sort_photos(&mut second, true);
    assert_eq!(indexes(&first), indexes(&second));
    // undated first in discovery order, then by date, ties by ordinal
    assert_eq!(indexes(&first), vec![3, 1, 0, 2]);
}

/// Without chronology the discovery order is restored.
#[test]
fn non_chronological_keeps_discovery_order() {
    let t0: i64 = 1_600_000_000;
    let mut photos = vec![
        photo(2, Some(t0 + 60), &[]),
        photo(0, Some(t0 + 999), &[]),
        photo(1, Some(t0), &[]),
    ];
    sort_photos(&mut photos, false);
    assert_eq!(indexes(&photos), vec![0, 1, 2]);
}

/// Outlier exclusion: the representative date of a set with one far
/// outlier equals the representative date of the set without it.
#[test]
fn outlier_does_not_shift_representative_date() {
    let t0: i64 = 1_600_000_000;
    let threshold = 2 * DAY;
    let mut with_outlier = vec![
        photo(0, Some(t0 + 3600), &[]),
        photo(1, Some(t0), &[]),
        photo(2, Some(t0 + 7200), &[]),
        photo(3, Some(t0 + 400 * DAY), &[]),
    ];
    let mut without = vec![
        photo(0, Some(t0 + 3600), &[]),
        photo(1, Some(t0), &[]),
        photo(2, Some(t0 + 7200), &[]),
    ];
    identify_outliers(&mut with_outlier, threshold);
    identify_outliers(&mut without, threshold);
    assert!(with_outlier[3].date_outlier);
    assert!(!with_outlier[0].date_outlier);
    let a = earliest_photo_date(&with_outlier);
    let b = earliest_photo_date(&without);
    assert_eq!(a, b);
    assert_eq!(a.map(|s| s.seconds), Some(t0));
}

/// An outlier stays in the rendered set; the flag is advisory only.
#[test]
fn outlier_photo_is_kept() {
    let t0: i64 = 1_600_000_000;
    let mut photos = vec![
        photo(0, Some(t0), &[]),
        photo(1, Some(t0 + 60), &[]),
        photo(2, Some(t0 + 120), &[]),
        photo(3, Some(t0 + 500 * DAY), &[]),
    ];
    identify_outliers(&mut photos, 2 * DAY);
    assert_eq!(photos.len(), 4);
}

/// The FULL path: an empty photo list yields nothing — the post is
/// dropped, not an error.
#[test]
fn empty_photo_set_drops_the_post() {
    let r = post_from_photos(
        String::from("empty-post"),
        &post_config("Empty"),
        PostLog::empty(),
        Vec::new(),
        2 * DAY,
    );
    assert!(r.is_none());
}

/// The FULL path orders photos, counts them, collates tags and derives
/// the representative date.
#[test]
fn full_path_builds_the_post() {
    let t0: i64 = 1_600_000_000;
    let photos = vec![
        photo(1, Some(t0 + 60), &["Hiking"]),
        photo(0, Some(t0 + 120), &["Hiking", "Snow"]),
    ];
    let p = post_from_photos(
        String::from("a-walk"),
        &post_config("A Walk"),
        PostLog::empty(),
        photos,
        2 * DAY,
    )
    .unwrap();
    assert_eq!(p.path, "a-walk");
    assert_eq!(p.photo_count, 2);
    assert!(p.needs_render);
    assert_eq!(p.happened_on.map(|s| s.seconds), Some(t0 + 60));
    assert_eq!(indexes(&p.photos), vec![1, 0]);
    // tags in first-occurrence order, photos in photo order
    assert_eq!(p.tags.len(), 2);
    assert_eq!(p.tags[0].slug, "hiking");
    assert_eq!(p.tags[0].name, "Hiking");
    assert_eq!(p.tags[0].photos, vec![1, 0]);
    assert_eq!(p.tags[1].slug, "snow");
    assert_eq!(p.tags[1].photos, vec![0]);
}

/// Idempotence: a post rebuilt from its own snapshot via the cached path
/// carries identical field values, save timestamp excepted, and needs no
/// re-render.
#[test]
fn cached_rebuild_is_identical() {
    let t0: i64 = 1_600_000_000;
    let photos = vec![
        photo(0, Some(t0), &["Hiking"]),
        photo(1, Some(t0 + 60), &[]),
    ];
    let config = post_config("A Walk");
    let built = post_from_photos(
        String::from("a-walk"),
        &config,
        PostLog::empty(),
        photos,
        2 * DAY,
    )
    .unwrap();
    let snapshot = PostLog::from_post(&built, t0 + 999);
    assert!(!snapshot.files_have_changed);
    assert_eq!(snapshot.as_of, t0 + 999);

    let rebuilt = post_from_log(String::from("a-walk"), &config, snapshot);
    assert_eq!(rebuilt.path, built.path);
    assert_eq!(
        rebuilt.happened_on.map(|s| s.seconds),
        built.happened_on.map(|s| s.seconds)
    );
    assert_eq!(rebuilt.photo_count, built.photo_count);
    assert_eq!(rebuilt.tags.len(), built.tags.len());
    for (a, b) in rebuilt.tags.iter().zip(built.tags.iter()) {
        assert_eq!(a.slug, b.slug);
        assert_eq!(a.name, b.name);
        assert_eq!(a.photos, b.photos);
    }
    assert!(!rebuilt.needs_render);
    assert!(rebuilt.photos.is_empty());
}

/// A cached snapshot is only used when nothing changed and no re-render
/// is forced.
#[test]
fn forced_rerender_overrides_the_cache() {
    let mut log = PostLog::empty();
    log.files_have_changed = false;
    assert!(use_cached_path(&log, false));
    assert!(!use_cached_path(&log, true));
    log.files_have_changed = true;
    assert!(!use_cached_path(&log, false));
}

/// Series membership: position and span are set, the series title is
/// promoted and the post's own title demoted to subtitle.
#[test]
fn series_fields_are_applied() {
    let config = post_config("Day Ten");
    let built = post_from_photos(
        String::from("brother-ride/day-10"),
        &config,
        PostLog::empty(),
        vec![photo(0, Some(1_600_000_000), &[])],
        2 * DAY,
    );
    let mut p = built.unwrap();
    let series = SeriesConfig { title: String::from("Brother Ride"), parts: 12 };
    apply_series(&mut p, 10, &series);
    assert_eq!(p.part, 10);
    assert_eq!(p.total_parts, 12);
    assert!(p.is_partial);
    assert!(p.prev_is_part);
    assert!(p.next_is_part);
    assert_eq!(p.title, "Brother Ride");
    assert_eq!(p.sub_title, "Day Ten");
}

fn bare_post(path: &str, seconds: i64) -> Post {
    post_from_photos(
        String::from(path),
        &post_config(path),
        PostLog::empty(),
        vec![photo(0, Some(seconds), &[])],
        2 * DAY,
    )
    .unwrap()
}

/// Dependency propagation: with posts A < B < C cached, dropping B and
/// rerunning marks both A and C, although their own directories are
/// untouched.
#[test]
fn neighbor_drift_marks_both_neighbors() {
    let t0: i64 = 1_600_000_000;
    // original run: A, B, C in chronological order, snapshots saved
    let mut posts = vec![bare_post("a", t0), bare_post("b", t0 + DAY), bare_post("c", t0 + 2 * DAY)];
    assign_neighbors(&mut posts);
    for p in posts.iter_mut() {
        p.history = PostLog::from_post(p, t0 + 10);
    }
    assert!(posts_needing_reload(&posts).is_empty());

    // next run: B's snapshot is gone, so only A and C remain cached
    let mut next_run = Vec::new();
    let mut it = posts.into_iter();
    let a = it.next().unwrap();
    let _b = it.next().unwrap();
    let c = it.next().unwrap();
    next_run.push(a);
    next_run.push(c);
    assign_neighbors(&mut next_run);
    let dirty = posts_needing_reload(&next_run);
    assert_eq!(dirty, vec![String::from("a"), String::from("c")]);
}

/// One corrective pass suffices even when several consecutive posts
/// vanish: after the marked posts are reprocessed and their snapshots
/// rewritten, a further pass finds no drift.
#[test]
fn one_corrective_pass_suffices() {
    let t0: i64 = 1_600_000_000;
    let mut posts: Vec<Post> = ["a", "b", "c", "d", "e"]
        .iter()
        .enumerate()
        .map(|(k, p)| bare_post(p, t0 + (k as i64) * DAY))
        .collect();
    assign_neighbors(&mut posts);
    for p in posts.iter_mut() {
        p.history = PostLog::from_post(p, t0 + 10);
    }

    // next run: b and d are gone
    let mut next_run: Vec<Post> = posts
        .into_iter()
        .filter(|p| p.path != "b" && p.path != "d")
        .collect();
    assign_neighbors(&mut next_run);
    let dirty = posts_needing_reload(&next_run);
    assert_eq!(
        dirty,
        vec![String::from("a"), String::from("c"), String::from("e")]
    );

    // the corrective pass: reload the marked posts, rewrite snapshots
    for path in dirty {
        let k = find_post_index(&next_run, path.as_str()).unwrap();
        let seconds = next_run[k].happened_on.unwrap().seconds;
        attach_photos(&mut next_run, k, vec![photo(0, Some(seconds), &[])], 2 * DAY);
    }
    for p in next_run.iter_mut() {
        if p.needs_render {
            p.history = PostLog::from_post(p, t0 + 20);
        }
    }

    // a further pass has nothing left to mark
    assign_neighbors(&mut next_run);
    assert!(posts_needing_reload(&next_run).is_empty());
}

/// A reloaded post takes the full processing path again and is marked
/// for re-render; the others stay untouched.
#[test]
fn reload_attaches_photos_and_marks_dirty() {
    let t0: i64 = 1_600_000_000;
    let mut posts = vec![bare_post("a", t0), bare_post("b", t0 + DAY)];
    assign_neighbors(&mut posts);
    posts[0].needs_render = false;
    let k = find_post_index(&posts, "a").unwrap();
    assert_eq!(k, 0);
    attach_photos(
        &mut posts,
        k,
        vec![photo(0, Some(t0), &[]), photo(1, Some(t0 + 60), &[])],
        2 * DAY,
    );
    assert!(posts[0].needs_render);
    assert_eq!(posts[0].photo_count, 2);
    assert_eq!(posts[1].photo_count, 1);
    assert_eq!(posts[1].path, "b");
    assert!(find_post_index(&posts, "nowhere").is_none());
}

/// Tag aggregation: two posts each tag one photo "hiking"; the blog
/// index holds one "hiking" entry with two references, each carrying its
/// originating post's path.
#[test]
fn blog_index_merges_tags_across_posts() {
    let t0: i64 = 1_600_000_000;
    let first = post_from_photos(
        String::from("first-walk"),
        &post_config("First"),
        PostLog::empty(),
        vec![photo(0, Some(t0), &["Hiking"])],
        2 * DAY,
    )
    .unwrap();
    let second = post_from_photos(
        String::from("second-walk"),
        &post_config("Second"),
        PostLog::empty(),
        vec![photo(0, Some(t0 + DAY), &["Hiking"])],
        2 * DAY,
    )
    .unwrap();
    let posts = vec![first, second];
    let blog_tags = collate_blog_tags(&posts);
    assert_eq!(blog_tags.len(), 1);
    assert_eq!(blog_tags[0].slug, "hiking");
    assert_eq!(blog_tags[0].name, "Hiking");
    assert_eq!(blog_tags[0].photos.len(), 2);
    assert_eq!(blog_tags[0].photos[0].post_path, "first-walk");
    assert_eq!(blog_tags[0].photos[1].post_path, "second-walk");
}

fn blog_entry(slug: &str, name: &str, refs: &[(&str, u8)]) -> BlogTagEntry {
    BlogTagEntry {
        slug: String::from(slug),
        name: String::from(name),
        photos: refs
            .iter()
            .map(|(p, i)| PhotoPath { post_path: String::from(*p), photo_index: *i })
            .collect(),
    }
}

/// The blog log detects a vanished, renamed or shrunken tag — but not a
/// tag that is only new in the current state.
#[test]
fn blog_log_differs_is_asymmetric() {
    let cached = BlogLog { tags: vec![blog_entry("hiking", "Hiking", &[("a", 0), ("b", 0)])] };

    // identical current state: no difference
    let same = vec![blog_entry("hiking", "Hiking", &[("a", 0), ("b", 0)])];
    assert!(!cached.differs(&same));

    // the tag vanished
    let gone: Vec<BlogTagEntry> = Vec::new();
    assert!(cached.differs(&gone));

    // renamed
    let renamed = vec![blog_entry("hiking", "Rambling", &[("a", 0), ("b", 0)])];
    assert!(cached.differs(&renamed));

    // member count changed
    let shrunk = vec![blog_entry("hiking", "Hiking", &[("a", 0)])];
    assert!(cached.differs(&shrunk));

    // a tag only present in the current state is not detected
    let grown = vec![
        blog_entry("hiking", "Hiking", &[("a", 0), ("b", 0)]),
        blog_entry("snow", "Snow", &[("a", 1)]),
    ];
    assert!(!cached.differs(&grown));

    // the empty log never differs
    assert!(!BlogLog::empty().differs(&grown));
}

/// Tag entries keep the display name of the first occurrence even when a
/// later photo spells it differently, as both reduce to one slug.
#[test]
fn tag_display_name_comes_from_first_occurrence() {
    let t0: i64 = 1_600_000_000;
    let p = post_from_photos(
        String::from("walk"),
        &post_config("Walk"),
        PostLog::empty(),
        vec![
            photo(0, Some(t0), &["Snow Shoes"]),
            photo(1, Some(t0 + 1), &["snow shoes"]),
        ],
        2 * DAY,
    )
    .unwrap();
    assert_eq!(p.tags.len(), 1);
    assert_eq!(p.tags[0].slug, "snow-shoes");
    assert_eq!(p.tags[0].name, "Snow Shoes");
    assert_eq!(p.tags[0].photos, vec![0, 1]);
}

/// The cover photo follows the configured index and URL building keeps
/// every other field.
#[test]
fn cover_photo_and_urls() {
    let t0: i64 = 1_600_000_000;
    let mut config = post_config("Walk");
    config.chronological = false;
    let mut p = post_from_photos(
        String::from("walk"),
        &config,
        PostLog::empty(),
        vec![photo(0, Some(t0), &[]), photo(1, Some(t0 + 1), &[])],
        2 * DAY,
    )
    .unwrap();
    assert_eq!(p.cover_photo().map(|c| c.index), Some(0));
    let photo_config = photolog::config::PhotoConfig {
        source_ext: String::from(".tif"),
        output_ext: String::from(".webp"),
        outlier_seconds: 2 * DAY,
    };
    p.build_photo_urls(&photo_config);
    assert_eq!(p.photos[1].size.medium.url, "walk/001_m.webp");
    assert_eq!(p.photos[1].size.medium.width, 600);
}

/// Snapshot round trip at the data level: the snapshot carries the
/// post's values with the change flag cleared.
#[test]
fn snapshot_carries_post_values() {
    let t0: i64 = 1_600_000_000;
    let mut p = bare_post("a", t0);
    p.prev_path = Some(String::from("older"));
    let log = PostLog::from_post(&p, t0 + 50);
    assert_eq!(log.prev_path.as_deref(), Some("older"));
    assert_eq!(log.next_path, None);
    assert_eq!(log.photo_count, 1);
    assert_eq!(log.as_of, t0 + 50);
    assert!(!log.files_have_changed);
    assert_eq!(log.cover_photo.as_ref().map(|c| c.index), Some(0));
    assert!(!log.differs(&p));
    p.prev_path = None;
    assert!(log.differs(&p));
}

/// TagEntry helper used by the engine: a freshly collated index starts
/// photo lists in photo order.
#[test]
fn tag_entry_shape() {
    let e = TagEntry {
        slug: String::from("s"),
        name: String::from("S"),
        photos: vec![1, 2],
    };
    assert_eq!(e.photos, vec![1, 2]);
}

/// Posts sort chronologically, undated posts first; the collection is
/// then ready for neighbor assignment.
#[test]
fn posts_sort_chronologically() {
    let t0: i64 = 1_600_000_000;
    let mut posts = vec![
        bare_post("c", t0 + 2 * DAY),
        bare_post("a", t0),
        bare_post("b", t0 + DAY),
    ];
    let mut undated = bare_post("u", t0);
    undated.happened_on = None;
    posts.push(undated);
    sort_posts(&mut posts);
    let order: Vec<&str> = posts.iter().map(|p| p.path.as_str()).collect();
    assert_eq!(order, vec!["u", "a", "b", "c"]);
}
