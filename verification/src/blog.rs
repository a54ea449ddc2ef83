//! Blog-wide passes: neighbor links, dependency propagation and the
//! blog-level tag index.
//!
//! These are fan-in steps: they need the complete set of posts and run
//! once, after all per-post work has finished.

use vstd::prelude::*;
use vstd::relations::sorted_by;
use crate::chronology::{
    apply_outliers, earliest_photo_date, earliest_relevant, identify_outliers, photo_leq,
    sort_photos,
};
use crate::log::opt_path_eq;
use crate::photo::{Photo, Stamp};
use crate::post::Post;
use crate::tags::{
    add_post_tags, add_post_tags_spec, blog_index_view, BlogTagEntry, BlogTagEntryView,
    collate_spec, collate_tags, index_view,
};

verus! {

/// Chronological order on posts: ascending by representative date, with
/// undated posts before dated ones. Two posts sharing a date compare
/// equal under this order.
pub open spec fn post_le(a: Post, b: Post) -> bool {
    match (a.happened_on, b.happened_on) {
        (Some(sa), Some(sb)) => sa.seconds <= sb.seconds,
        (Some(_), None) => false,
        (None, _) => true,
    }
}

/// The chronological order as a binary relation value.
pub open spec fn post_leq() -> spec_fn(Post, Post) -> bool {
    |a: Post, b: Post| post_le(a, b)
}

/// Whether `a` precedes or equals `b` in chronological order.
fn post_le_exec(a: &Post, b: &Post) -> (r: bool)
    ensures
        r == post_le(*a, *b),
{
    match (&a.happened_on, &b.happened_on) {
        (Some(sa), Some(sb)) => sa.seconds <= sb.seconds,
        (Some(_), None) => false,
        (None, _) => true,
    }
}

/// The chronological order is total: any two posts are comparable.
proof fn lemma_post_le_connected(a: Post, b: Post)
    ensures
        post_le(a, b) || post_le(b, a),
{
}

/// The chronological order is transitive.
proof fn lemma_post_le_transitive(a: Post, b: Post, c: Post)
    requires
        post_le(a, b),
        post_le(b, c),
    ensures
        post_le(a, c),
{
}

/// Sort the collection chronologically: ascending by representative
/// date, undated posts first. Posts sharing a date keep their relative
/// order — the insertion only moves a post past strictly later ones.
pub fn sort_posts(posts: &mut Vec<Post>)
    ensures
        sorted_by(final(posts)@, post_leq()),
        final(posts)@.to_multiset() == old(posts)@.to_multiset(),
        final(posts)@.len() == old(posts)@.len(),
{
    broadcast use vstd::seq_lib::group_to_multiset_ensures;
    broadcast use vstd::multiset::group_multiset_axioms;

    let ghost leq = post_leq();
    let mut i: usize = 1;
    while i < posts.len()
        invariant
            1 <= i,
            i <= posts@.len() || posts@.len() == 0,
            leq == post_leq(),
            posts@.to_multiset() == old(posts)@.to_multiset(),
            posts@.len() == old(posts)@.len(),
            sorted_by(posts@.subrange(0, i as int), leq) || i > posts@.len(),
        decreases posts@.len() - i,
    {
        let ghost before = posts@;
        let x = posts.remove(i);
        let ghost removed = posts@;
        proof {
            broadcast use vstd::seq_lib::group_to_multiset_ensures;
            broadcast use vstd::multiset::group_multiset_axioms;

            assert(removed =~= before.remove(i as int));
            assert(removed.subrange(0, i as int) =~= before.subrange(0, i as int));
            assert(before[i as int] == x);
            assert(before.contains(x));
            assert(removed.to_multiset() =~= before.to_multiset().remove(x));
        }
        let mut j: usize = i;
        while j > 0 && !post_le_exec(&posts[j - 1], &x)
            invariant
                j <= i,
                i < removed.len() + 1,
                leq == post_leq(),
                posts@ == removed,
                sorted_by(removed.subrange(0, i as int), leq),
                forall|p: int| j <= p < i ==> post_le(x, #[trigger] removed[p]),
            decreases j,
        {
            proof {
                lemma_post_le_connected(removed[j - 1], x);
            }
            j = j - 1;
        }
        proof {
            // everything left of the insertion point precedes `x`
            if j > 0 {
                assert forall|p: int| 0 <= p < j implies post_le(#[trigger] removed[p], x) by {
                    assert(leq(removed.subrange(0, i as int)[p], removed.subrange(0, i as int)[
                        j - 1]) || p == j - 1);
                    lemma_post_le_transitive(removed[p], removed[j - 1], x);
                }
            }
        }
        posts.insert(j, x);
        proof {
            broadcast use vstd::seq_lib::group_to_multiset_ensures;
            broadcast use vstd::multiset::group_multiset_axioms;

            crate::chronology::lemma_insert_to_multiset_pub(removed, j as int, x);
            assert(before.to_multiset().contains(x));
            assert(before.to_multiset().remove(x).insert(x) =~= before.to_multiset());
            assert(posts@.to_multiset() =~= old(posts)@.to_multiset());
            removed.insert_ensures(j as int, x);
            let now = posts@.subrange(0, i as int + 1);
            let s = removed.subrange(0, i as int);
            assert forall|p: int, q: int| 0 <= p < q < i + 1 implies leq(now[p], now[q]) by {
                if q < j {
                } else if q == j {
                    assert(now[q] == x);
                    assert(now[p] == s[p]);
                } else {
                    assert(now[q] == s[q - 1]);
                    if p < j {
                        assert(now[p] == s[p]);
                        if p < q - 1 {
                            assert(leq(s[p], s[q - 1]));
                        } else {
                            lemma_post_le_connected(s[p], s[p]);
                        }
                    } else if p == j {
                        assert(now[p] == x);
                        assert(post_le(x, removed[q - 1]));
                    } else {
                        assert(now[p] == s[p - 1]);
                        assert(leq(s[p - 1], s[q - 1]) || p - 1 == q - 1);
                    }
                }
            }
            assert(sorted_by(posts@.subrange(0, i as int + 1), leq));
        }
        i = i + 1;
    }
    proof {
        if old(posts)@.len() > 0 {
            assert(posts@.subrange(0, posts@.len() as int) =~= posts@);
        }
    }
}

/// An optional path reduced to its characters.
pub open spec fn opt_view(o: Option<String>) -> Option<Seq<char>> {
    match o {
        None => None,
        Some(s) => Some(s@),
    }
}

/// Holds when `b` is `a` with exactly the given neighbor paths set.
pub open spec fn neighbors_assigned(
    a: Post,
    b: Post,
    prev: Option<Seq<char>>,
    next: Option<Seq<char>>,
) -> bool {
    &&& b == (Post { prev_path: b.prev_path, next_path: b.next_path, ..a })
    &&& opt_view(b.prev_path) == prev
    &&& opt_view(b.next_path) == next
}

/// Link every post to its neighbors in the collection's order: the
/// previous entry is the older post, the next entry the newer one.
pub fn assign_neighbors(posts: &mut Vec<Post>)
    ensures
        final(posts)@.len() == old(posts)@.len(),
        forall|k: int|
            0 <= k < old(posts)@.len() ==> neighbors_assigned(
                old(posts)@[k],
                #[trigger] final(posts)@[k],
                if k == 0 {
                    None
                } else {
                    Some(old(posts)@[k - 1].path@)
                },
                if k + 1 == old(posts)@.len() {
                    None
                } else {
                    Some(old(posts)@[k + 1].path@)
                },
            ),
{
    let ghost orig = posts@;
    let ghost n = orig.len() as int;
    // take a copy of every path first
    let mut paths: Vec<String> = Vec::new();
    let mut i: usize = 0;
    while i < posts.len()
        invariant
            posts@ == orig,
            i <= orig.len(),
            paths@.len() == i,
            forall|k: int| 0 <= k < i ==> (#[trigger] paths@[k])@ == orig[k].path@,
        decreases orig.len() - i,
    {
        paths.push(posts[i].path.clone());
        i += 1;
    }
    let mut out: Vec<Post> = Vec::new();
    while posts.len() > 0
        invariant
            out@.len() + posts@.len() == n,
            n == orig.len(),
            posts@ == orig.subrange(out@.len() as int, n),
            paths@.len() == n,
            forall|k: int| 0 <= k < n ==> (#[trigger] paths@[k])@ == orig[k].path@,
            forall|k: int|
                0 <= k < out@.len() ==> neighbors_assigned(
                    orig[k],
                    #[trigger] out@[k],
                    if k == 0 {
                        None
                    } else {
                        Some(orig[k - 1].path@)
                    },
                    if k + 1 == n {
                        None
                    } else {
                        Some(orig[k + 1].path@)
                    },
                ),
        decreases posts@.len(),
    {
        let ghost k = out@.len() as int;
        let idx = out.len();
        let p = posts.remove(0);
        proof {
            assert(p == orig[k]);
            assert(posts@ =~= orig.subrange(k + 1, n));
        }
        let prev = if idx == 0 {
            None
        } else {
            Some(paths[idx - 1].clone())
        };
        let next = if paths.len() - idx > 1 {
            Some(paths[idx + 1].clone())
        } else {
            None
        };
        out.push(Post { prev_path: prev, next_path: next, ..p });
    }
    *posts = out;
}

/// Whether the post's snapshot disagrees with its freshly computed
/// neighbor paths.
pub open spec fn log_drifted(p: Post) -> bool {
    !(opt_path_eq(p.history.prev_path, p.prev_path) && opt_path_eq(
        p.history.next_path,
        p.next_path,
    ))
}

/// The paths of the posts whose cached neighbor links drifted, in
/// collection order.
pub open spec fn drifted_spec(posts: Seq<Post>) -> Seq<Seq<char>>
    decreases posts.len(),
{
    if posts.len() == 0 {
        Seq::empty()
    } else {
        let rest = drifted_spec(posts.drop_first());
        if log_drifted(posts[0]) {
            seq![posts[0].path@] + rest
        } else {
            rest
        }
    }
}

/// Dependency propagation: the posts whose cached neighbor paths differ
/// from the freshly computed ones. Each of them must take the full
/// processing path again — even when its own directory is untouched —
/// because rendered output embeds neighbor navigation. One corrective
/// pass suffices: neighbor identity only changes through insertions,
/// removals and reorderings already visible in the first pass.
pub fn posts_needing_reload(posts: &Vec<Post>) -> (r: Vec<String>)
    ensures
        r.deep_view() == drifted_spec(posts@),
{
    let ghost n = posts@.len() as int;
    let mut out: Vec<String> = Vec::new();
    let mut i: usize = 0;
    proof {
        assert(posts@.subrange(0, n) =~= posts@);
        assert(out.deep_view() =~= Seq::<Seq<char>>::empty());
        assert(Seq::<Seq<char>>::empty() + drifted_spec(posts@) =~= drifted_spec(posts@));
    }
    while i < posts.len()
        invariant
            i <= posts@.len(),
            n == posts@.len(),
            drifted_spec(posts@) == out.deep_view() + drifted_spec(posts@.subrange(i as int, n)),
        decreases posts@.len() - i,
    {
        let ghost suffix = posts@.subrange(i as int, n);
        proof {
            assert(suffix[0] == posts@[i as int]);
            assert(suffix.drop_first() =~= posts@.subrange(i as int + 1, n));
        }
        if posts[i].history.differs(&posts[i]) {
            out.push(posts[i].path.clone());
            proof {
                assert(out.deep_view() =~= out.deep_view().subrange(
                    0,
                    out.deep_view().len() - 1,
                ).push(posts@[i as int].path@));
                assert(drifted_spec(posts@) =~= out.deep_view() + drifted_spec(
                    posts@.subrange(i as int + 1, n),
                ));
            }
        } else {
            proof {
                assert(drifted_spec(posts@) =~= out.deep_view() + drifted_spec(
                    posts@.subrange(i as int + 1, n),
                ));
            }
        }
        i += 1;
    }
    proof {
        assert(posts@.subrange(n, n) =~= Seq::<Post>::empty());
        assert(out.deep_view() + Seq::<Seq<char>>::empty() =~= out.deep_view());
    }
    out
}

/// The first position of the post with the given path, if any.
pub fn find_post_index(posts: &Vec<Post>, path: &str) -> (r: Option<usize>)
    ensures
        (match r {
            Some(k) => {
                &&& k < posts@.len()
                &&& posts@[k as int].path@ == path@
                &&& forall|j: int| 0 <= j < k ==> (#[trigger] posts@[j]).path@ != path@
            },
            None => forall|j: int| 0 <= j < posts@.len() ==> (#[trigger] posts@[j]).path@ != path@,
        }),
{
    let mut i: usize = 0;
    while i < posts.len()
        invariant
            i <= posts@.len(),
            forall|j: int| 0 <= j < i ==> (#[trigger] posts@[j]).path@ != path@,
        decreases posts@.len() - i,
    {
        if crate::staleness::str_eq(posts[i].path.as_str(), path) {
            return Some(i);
        }
        i += 1;
    }
    None
}

/// Re-run the expensive part of the full path for the post at `k`: its
/// freshly loaded photos are flagged, ordered and collated, its
/// representative date recomputed, and the post marked for re-render.
/// Every other post is left untouched.
pub fn attach_photos(posts: &mut Vec<Post>, k: usize, photos: Vec<Photo>, outlier_threshold: i64)
    requires
        k < old(posts)@.len(),
        photos@.len() > 0,
    ensures
        final(posts)@.len() == old(posts)@.len(),
        forall|j: int|
            0 <= j < old(posts)@.len() && j != k ==> #[trigger] final(posts)@[j] == old(
                posts,
            )@[j],
        ({
            let q = final(posts)@[k as int];
            let a = old(posts)@[k as int];
            &&& q.photos@.to_multiset() == apply_outliers(photos@, outlier_threshold).to_multiset()
            &&& sorted_by(q.photos@, photo_leq(a.chronological))
            &&& q.photos@.len() == photos@.len()
            &&& q.photo_count == q.photos@.len()
            &&& index_view(q.tags@) == collate_spec(q.photos@)
            &&& q.needs_render == true
            &&& q.happened_on == (if a.chronological {
                earliest_relevant(q.photos@)
            } else {
                None::<Stamp>
            })
            &&& q == (Post {
                happened_on: q.happened_on,
                photo_count: q.photo_count,
                photos: q.photos,
                tags: q.tags,
                needs_render: true,
                ..a
            })
        }),
{
    let mut p = posts.remove(k);
    let mut ph = photos;
    identify_outliers(&mut ph, outlier_threshold);
    sort_photos(&mut ph, p.chronological);
    let tags = collate_tags(&ph);
    p.happened_on = if p.chronological {
        earliest_photo_date(&ph)
    } else {
        None
    };
    p.photo_count = ph.len();
    p.photos = ph;
    p.tags = tags;
    p.needs_render = true;
    posts.insert(k, p);
    proof {
        old(posts)@.remove(k as int).insert_ensures(k as int, posts@[k as int]);
        assert forall|j: int| 0 <= j < old(posts)@.len() && j != k implies #[trigger] posts@[j]
            == old(posts)@[j] by {
            if j < k {
                assert(posts@[j] == old(posts)@.remove(k as int)[j]);
            } else {
                assert(posts@[j] == old(posts)@.remove(k as int)[j - 1]);
            }
        }
    }
}

/// The blog-wide tag index built by merging every post's tag index, in
/// post order.
pub open spec fn blog_collate_from(
    entries: Seq<BlogTagEntryView>,
    posts: Seq<Post>,
) -> Seq<BlogTagEntryView>
    decreases posts.len(),
{
    if posts.len() == 0 {
        entries
    } else {
        blog_collate_from(
            add_post_tags_spec(entries, index_view(posts[0].tags@), posts[0].path@),
            posts.drop_first(),
        )
    }
}

/// The blog-wide tag index of a post collection.
pub open spec fn blog_collate_spec(posts: Seq<Post>) -> Seq<BlogTagEntryView> {
    blog_collate_from(Seq::empty(), posts)
}

/// Tag aggregation: merge every post's tag index into one blog-level
/// index. A tag assigned in several posts gets one entry whose photo
/// references carry their originating posts' paths.
pub fn collate_blog_tags(posts: &Vec<Post>) -> (r: Vec<BlogTagEntry>)
    ensures
        blog_index_view(r@) == blog_collate_spec(posts@),
{
    let ghost n = posts@.len() as int;
    let mut acc: Vec<BlogTagEntry> = Vec::new();
    let mut i: usize = 0;
    proof {
        assert(blog_index_view(acc@) =~= Seq::<BlogTagEntryView>::empty());
        assert(posts@.subrange(0, n) =~= posts@);
    }
    while i < posts.len()
        invariant
            i <= posts@.len(),
            n == posts@.len(),
            blog_collate_spec(posts@) == blog_collate_from(
                blog_index_view(acc@),
                posts@.subrange(i as int, n),
            ),
        decreases posts@.len() - i,
    {
        proof {
            let rest = posts@.subrange(i as int, n);
            assert(rest[0] == posts@[i as int]);
            assert(rest.drop_first() =~= posts@.subrange(i as int + 1, n));
        }
        add_post_tags(&mut acc, &posts[i].tags, posts[i].path.as_str());
        i += 1;
    }
    proof {
        assert(posts@.subrange(n, n) =~= Seq::<Post>::empty());
    }
    acc
}

} // verus!
