//! Tag collation at post scope: grouping a post's photos by tag slug.

use vstd::prelude::*;
use vstd::string::*;
use crate::photo::Photo;
use crate::slug::{slug_of, slugify};

verus! {

/// One tag of one post: the slug, the display name it was first seen
/// under, and the ordinals of the photos carrying it, in photo order.
pub struct TagEntry {
    pub slug: String,
    pub name: String,
    pub photos: Vec<u8>,
}

/// The mathematical shape of a tag entry.
pub struct TagEntryView {
    pub slug: Seq<char>,
    pub name: Seq<char>,
    pub photos: Seq<u8>,
}

impl View for TagEntry {
    type V = TagEntryView;

    open spec fn view(&self) -> TagEntryView {
        TagEntryView { slug: self.slug@, name: self.name@, photos: self.photos@ }
    }
}

/// The view of a whole tag index.
pub open spec fn index_view(entries: Seq<TagEntry>) -> Seq<TagEntryView> {
    entries.map_values(|e: TagEntry| e@)
}

/// The first position holding `slug`, or `-1` when no entry does.
pub open spec fn slug_pos(entries: Seq<TagEntryView>, slug: Seq<char>) -> int
    decreases entries.len(),
{
    if entries.len() == 0 {
        -1
    } else if entries[0].slug == slug {
        0
    } else {
        let r = slug_pos(entries.drop_first(), slug);
        if r == -1 {
            -1
        } else {
            r + 1
        }
    }
}

/// One tag assignment folded into the index: append the photo to the
/// slug's entry, or open a new entry at the end for a first occurrence.
pub open spec fn insert_tag(
    entries: Seq<TagEntryView>,
    slug: Seq<char>,
    name: Seq<char>,
    idx: u8,
) -> Seq<TagEntryView> {
    let p = slug_pos(entries, slug);
    if p == -1 {
        entries.push(TagEntryView { slug, name, photos: seq![idx] })
    } else {
        entries.update(
            p,
            TagEntryView {
                slug: entries[p].slug,
                name: entries[p].name,
                photos: entries[p].photos.push(idx),
            },
        )
    }
}

/// One photo's tag names folded into the index, in assignment order.
pub open spec fn add_photo_tags(
    entries: Seq<TagEntryView>,
    tags: Seq<Seq<char>>,
    idx: u8,
) -> Seq<TagEntryView>
    decreases tags.len(),
{
    if tags.len() == 0 {
        entries
    } else {
        add_photo_tags(insert_tag(entries, slug_of(tags[0]), tags[0], idx), tags.drop_first(), idx)
    }
}

/// The photos folded into the index one after the other.
pub open spec fn collate_from(entries: Seq<TagEntryView>, photos: Seq<Photo>) -> Seq<TagEntryView>
    decreases photos.len(),
{
    if photos.len() == 0 {
        entries
    } else {
        collate_from(
            add_photo_tags(entries, photos[0].tags.deep_view(), photos[0].index),
            photos.drop_first(),
        )
    }
}

/// The post-scope tag index of a photo set: photos grouped by tag slug,
/// entries ordered by first occurrence, photo ordinals in photo order.
pub open spec fn collate_spec(photos: Seq<Photo>) -> Seq<TagEntryView> {
    collate_from(Seq::empty(), photos)
}

/// Scanning for a slug and stopping at the first match computes
/// `slug_pos`.
proof fn lemma_slug_pos_scan(entries: Seq<TagEntryView>, slug: Seq<char>, p: int)
    requires
        0 <= p <= entries.len(),
        forall|j: int| 0 <= j < p ==> (#[trigger] entries[j]).slug != slug,
        p < entries.len() ==> entries[p].slug == slug,
    ensures
        slug_pos(entries, slug) == (if p == entries.len() {
            -1
        } else {
            p
        }),
    decreases entries.len(),
{
    if entries.len() == 0 {
    } else if entries[0].slug == slug {
        assert(p == 0);
    } else {
        assert(entries[0].slug != slug);
        assert(p > 0 || p == 0);
        if p == 0 {
            assert(entries[p].slug == slug);
            assert(false);
        }
        assert forall|j: int| 0 <= j < p - 1 implies (#[trigger] entries.drop_first()[j]).slug
            != slug by {
            assert(entries.drop_first()[j] == entries[j + 1]);
        }
        assert(p - 1 < entries.drop_first().len() ==> entries.drop_first()[p - 1].slug == slug);
        lemma_slug_pos_scan(entries.drop_first(), slug, p - 1);
    }
}

/// Group the post's photos by tag slug. Entries appear in order of first
/// occurrence; each entry lists its photos in photo order under the
/// display name the tag was first seen with.
#[verifier::rlimit(50)]
pub fn collate_tags(photos: &Vec<Photo>) -> (r: Vec<TagEntry>)
    ensures
        index_view(r@) == collate_spec(photos@),
{
    let ghost n = photos@.len() as int;
    let mut acc: Vec<TagEntry> = Vec::new();
    let mut i: usize = 0;
    proof {
        assert(index_view(acc@) =~= Seq::<TagEntryView>::empty());
        assert(photos@.subrange(0, n) =~= photos@);
    }
    while i < photos.len()
        invariant
            i <= photos@.len(),
            n == photos@.len(),
            collate_spec(photos@) == collate_from(index_view(acc@), photos@.subrange(i as int, n)),
        decreases photos@.len() - i,
    {
        let idx = photos[i].index;
        let ghost tagviews = photos@[i as int].tags.deep_view();
        let ghost outer_entries = index_view(acc@);
        proof {
            let rest = photos@.subrange(i as int, n);
            assert(rest[0] == photos@[i as int]);
            assert(rest.drop_first() =~= photos@.subrange(i as int + 1, n));
            assert(collate_from(outer_entries, rest) == collate_from(
                add_photo_tags(outer_entries, tagviews, idx),
                photos@.subrange(i as int + 1, n),
            ));
        }
        let mut t: usize = 0;
        let ghost tn = tagviews.len() as int;
        proof {
            assert(tagviews.subrange(0, tn) =~= tagviews);
        }
        while t < photos[i].tags.len()
            invariant
                0 <= i < photos@.len(),
                t <= photos@[i as int].tags@.len(),
                n == photos@.len(),
                tn == tagviews.len(),
                tagviews == photos@[i as int].tags.deep_view(),
                idx == photos@[i as int].index,
                collate_spec(photos@) == collate_from(
                    add_photo_tags(index_view(acc@), tagviews.subrange(t as int, tn), idx),
                    photos@.subrange(i as int + 1, n),
                ),
            decreases photos@[i as int].tags@.len() - t,
        {
            let name = &photos[i].tags[t];
            let slug = slugify(name.as_str());
            proof {
                assert(tagviews[t as int] == photos@[i as int].tags@[t as int]@);
                let tsuf = tagviews.subrange(t as int, tn);
                assert(tsuf[0] == tagviews[t as int]);
                assert(tsuf.drop_first() =~= tagviews.subrange(t as int + 1, tn));
            }
            let ghost g = index_view(acc@);
            let ghost sview = slug@;
            // find the slug's entry, if it is already present
            let mut j: usize = 0;
            let mut found = false;
            while j < acc.len() && !found
                invariant
                    j <= acc@.len(),
                    found ==> j < acc@.len() && index_view(acc@)[j as int].slug == sview,
                    forall|jj: int|
                        0 <= jj < j ==> (#[trigger] index_view(acc@)[jj]).slug != sview,
                    g == index_view(acc@),
                    sview == slug@,
                decreases acc@.len() - j + (if found {
                    0int
                } else {
                    1int
                }),
            {
                if acc[j].slug == slug {
                    found = true;
                } else {
                    proof {
                        assert(index_view(acc@)[j as int] == acc@[j as int]@);
                    }
                    j += 1;
                }
            }
            if found {
                proof {
                    lemma_slug_pos_scan(g, sview, j as int);
                }
                let mut e = acc.remove(j);
                e.photos.push(idx);
                acc.insert(j, e);
                proof {
                    assert(index_view(acc@) =~= g.update(
                        j as int,
                        TagEntryView {
                            slug: g[j as int].slug,
                            name: g[j as int].name,
                            photos: g[j as int].photos.push(idx),
                        },
                    ));
                    assert(index_view(acc@) == insert_tag(g, slug_of(tagviews[t as int]),
                        tagviews[t as int], idx));
                }
            } else {
                proof {
                    lemma_slug_pos_scan(g, sview, acc@.len() as int);
                }
                let mut ph: Vec<u8> = Vec::new();
                ph.push(idx);
                acc.push(TagEntry { slug, name: name.clone(), photos: ph });
                proof {
                    assert(index_view(acc@) =~= g.push(
                        TagEntryView { slug: sview, name: tagviews[t as int], photos: seq![idx] },
                    ));
                    assert(index_view(acc@) == insert_tag(g, slug_of(tagviews[t as int]),
                        tagviews[t as int], idx));
                }
            }
            t += 1;
        }
        proof {
            assert(tagviews.subrange(tn, tn) =~= Seq::<Seq<char>>::empty());
        }
        i += 1;
    }
    proof {
        assert(photos@.subrange(n, n) =~= Seq::<Photo>::empty());
    }
    acc
}

/// A copy of a byte vector.
fn clone_bytes(v: &Vec<u8>) -> (r: Vec<u8>)
    ensures
        r@ == v@,
{
    let mut out: Vec<u8> = Vec::new();
    let mut i: usize = 0;
    while i < v.len()
        invariant
            i <= v@.len(),
            out@ =~= v@.subrange(0, i as int),
        decreases v@.len() - i,
    {
        out.push(v[i]);
        i += 1;
    }
    proof {
        assert(v@.subrange(0, v@.len() as int) =~= v@);
    }
    out
}

/// A copy of a tag index.
pub fn clone_tag_index(v: &Vec<TagEntry>) -> (r: Vec<TagEntry>)
    ensures
        index_view(r@) == index_view(v@),
{
    let mut out: Vec<TagEntry> = Vec::new();
    let mut i: usize = 0;
    while i < v.len()
        invariant
            i <= v@.len(),
            out@.len() == i,
            forall|k: int| 0 <= k < i ==> (#[trigger] out@[k])@ == v@[k]@,
        decreases v@.len() - i,
    {
        let entry = TagEntry {
            slug: v[i].slug.clone(),
            name: v[i].name.clone(),
            photos: clone_bytes(&v[i].photos),
        };
        proof {
            assert(entry@ == v@[i as int]@);
        }
        out.push(entry);
        i += 1;
    }
    proof {
        assert(index_view(out@) =~= index_view(v@));
    }
    out
}


/// A reference from a blog-scope tag to one photo: the owning post's
/// path and the photo's ordinal within that post.
pub struct PhotoPath {
    pub post_path: String,
    pub photo_index: u8,
}

/// The mathematical shape of a photo reference.
pub struct PhotoPathView {
    pub post_path: Seq<char>,
    pub photo_index: u8,
}

impl View for PhotoPath {
    type V = PhotoPathView;

    open spec fn view(&self) -> PhotoPathView {
        PhotoPathView { post_path: self.post_path@, photo_index: self.photo_index }
    }
}

/// The views of a sequence of photo references.
pub open spec fn paths_view(s: Seq<PhotoPath>) -> Seq<PhotoPathView> {
    s.map_values(|p: PhotoPath| p@)
}

/// Photo ordinals of one post turned into blog-scope references carrying
/// the post's path.
pub open spec fn refs_of(ords: Seq<u8>, path: Seq<char>) -> Seq<PhotoPathView> {
    ords.map_values(|o: u8| PhotoPathView { post_path: path, photo_index: o })
}

/// One tag of the whole blog: slug, display name, and every photo
/// carrying the tag, each reference resolving to its owning post.
pub struct BlogTagEntry {
    pub slug: String,
    pub name: String,
    pub photos: Vec<PhotoPath>,
}

/// The mathematical shape of a blog-scope tag entry.
pub struct BlogTagEntryView {
    pub slug: Seq<char>,
    pub name: Seq<char>,
    pub photos: Seq<PhotoPathView>,
}

impl View for BlogTagEntry {
    type V = BlogTagEntryView;

    open spec fn view(&self) -> BlogTagEntryView {
        BlogTagEntryView { slug: self.slug@, name: self.name@, photos: paths_view(self.photos@) }
    }
}

/// The view of a blog-scope tag index.
pub open spec fn blog_index_view(entries: Seq<BlogTagEntry>) -> Seq<BlogTagEntryView> {
    entries.map_values(|e: BlogTagEntry| e@)
}

/// The first position holding `slug`, or `-1` when no entry does.
pub open spec fn blog_slug_pos(entries: Seq<BlogTagEntryView>, slug: Seq<char>) -> int
    decreases entries.len(),
{
    if entries.len() == 0 {
        -1
    } else if entries[0].slug == slug {
        0
    } else {
        let r = blog_slug_pos(entries.drop_first(), slug);
        if r == -1 {
            -1
        } else {
            r + 1
        }
    }
}

/// One post-scope tag entry folded into the blog index: its photo
/// ordinals become references carrying the owning post's path, appended
/// to the slug's entry or opening a new entry at the end.
pub open spec fn blog_insert(
    entries: Seq<BlogTagEntryView>,
    tag: TagEntryView,
    path: Seq<char>,
) -> Seq<BlogTagEntryView> {
    let refs = refs_of(tag.photos, path);
    let p = blog_slug_pos(entries, tag.slug);
    if p == -1 {
        entries.push(BlogTagEntryView { slug: tag.slug, name: tag.name, photos: refs })
    } else {
        entries.update(
            p,
            BlogTagEntryView {
                slug: entries[p].slug,
                name: entries[p].name,
                photos: entries[p].photos + refs,
            },
        )
    }
}

/// One post's whole tag index folded into the blog index, entry by
/// entry.
pub open spec fn add_post_tags_spec(
    entries: Seq<BlogTagEntryView>,
    tags: Seq<TagEntryView>,
    path: Seq<char>,
) -> Seq<BlogTagEntryView>
    decreases tags.len(),
{
    if tags.len() == 0 {
        entries
    } else {
        add_post_tags_spec(blog_insert(entries, tags[0], path), tags.drop_first(), path)
    }
}

/// Scanning for a slug and stopping at the first match computes
/// `blog_slug_pos`.
pub proof fn lemma_blog_slug_pos_scan_pub(entries: Seq<BlogTagEntryView>, slug: Seq<char>, p: int)
    requires
        0 <= p <= entries.len(),
        forall|j: int| 0 <= j < p ==> (#[trigger] entries[j]).slug != slug,
        p < entries.len() ==> entries[p].slug == slug,
    ensures
        blog_slug_pos(entries, slug) == (if p == entries.len() {
            -1
        } else {
            p
        }),
    decreases entries.len(),
{
    if entries.len() == 0 {
    } else if entries[0].slug == slug {
        assert(p == 0);
    } else {
        if p == 0 {
            assert(false);
        }
        assert forall|j: int| 0 <= j < p - 1 implies (#[trigger] entries.drop_first()[j]).slug
            != slug by {
            assert(entries.drop_first()[j] == entries[j + 1]);
        }
        lemma_blog_slug_pos_scan_pub(entries.drop_first(), slug, p - 1);
    }
}

/// Merge one post's tag index into the blog-wide index. Every photo
/// ordinal is rewritten as a reference that carries the owning post's
/// path, so blog-scope entries resolve to their containing posts.
#[verifier::rlimit(50)]
pub fn add_post_tags(entries: &mut Vec<BlogTagEntry>, tags: &Vec<TagEntry>, path: &str)
    ensures
        blog_index_view(final(entries)@) == add_post_tags_spec(
            blog_index_view(old(entries)@),
            index_view(tags@),
            path@,
        ),
{
    let ghost tviews = index_view(tags@);
    let ghost tn = tviews.len() as int;
    let mut t: usize = 0;
    proof {
        assert(tviews.subrange(0, tn) =~= tviews);
    }
    while t < tags.len()
        invariant
            t <= tags@.len(),
            tn == tags@.len(),
            tviews == index_view(tags@),
            add_post_tags_spec(blog_index_view(old(entries)@), tviews, path@)
                == add_post_tags_spec(
                blog_index_view(entries@),
                tviews.subrange(t as int, tn),
                path@,
            ),
        decreases tags@.len() - t,
    {
        let ghost g = blog_index_view(entries@);
        proof {
            let tsuf = tviews.subrange(t as int, tn);
            assert(tsuf[0] == tviews[t as int]);
            assert(tsuf.drop_first() =~= tviews.subrange(t as int + 1, tn));
        }
        // build the photo references for this entry
        let mut refs: Vec<PhotoPath> = Vec::new();
        let mut o: usize = 0;
        while o < tags[t].photos.len()
            invariant
                0 <= t < tags@.len(),
                o <= tags@[t as int].photos@.len(),
                refs@.len() == o,
                forall|k: int|
                    0 <= k < o ==> (#[trigger] refs@[k])@ == (PhotoPathView {
                        post_path: path@,
                        photo_index: tags@[t as int].photos@[k],
                    }),
            decreases tags@[t as int].photos@.len() - o,
        {
            let pp = PhotoPath {
                post_path: String::from_str(path),
                photo_index: tags[t].photos[o],
            };
            refs.push(pp);
            o += 1;
        }
        proof {
            assert(paths_view(refs@) =~= refs_of(tviews[t as int].photos, path@));
        }
        // find the slug's entry, if it is already present
        let ghost sview = tviews[t as int].slug;
        let mut j: usize = 0;
        let mut found = false;
        while j < entries.len() && !found
            invariant
                j <= entries@.len(),
                found ==> j < entries@.len() && blog_index_view(entries@)[j as int].slug == sview,
                forall|jj: int|
                    0 <= jj < j ==> (#[trigger] blog_index_view(entries@)[jj]).slug != sview,
                g == blog_index_view(entries@),
                0 <= t < tags@.len(),
                sview == tags@[t as int].slug@,
            decreases entries@.len() - j + (if found {
                0int
            } else {
                1int
            }),
        {
            if entries[j].slug == tags[t].slug {
                found = true;
            } else {
                proof {
                    assert(blog_index_view(entries@)[j as int] == entries@[j as int]@);
                }
                j += 1;
            }
        }
        if found {
            proof {
                lemma_blog_slug_pos_scan_pub(g, sview, j as int);
            }
            let mut e = entries.remove(j);
            let mut o2: usize = 0;
            let ghost added = paths_view(refs@);
            let ghost e_before = e@;
            let ghost base = e_before.photos.len() as int;
            while o2 < refs.len()
                invariant
                    o2 <= refs@.len(),
                    added == paths_view(refs@),
                    base == e_before.photos.len(),
                    e.slug@ == e_before.slug,
                    e.name@ == e_before.name,
                    e.photos@.len() == base + o2,
                    forall|k: int| 0 <= k < base ==> (#[trigger] e.photos@[k])@ == e_before.photos[k],
                    forall|k: int|
                        base <= k < base + o2 ==> (#[trigger] e.photos@[k])@ == added[k - base],
                decreases refs@.len() - o2,
            {
                let pp = PhotoPath {
                    post_path: refs[o2].post_path.clone(),
                    photo_index: refs[o2].photo_index,
                };
                proof {
                    assert(pp@ == paths_view(refs@)[o2 as int]);
                }
                e.photos.push(pp);
                o2 += 1;
            }
            entries.insert(j, e);
            proof {
                assert(e@.photos =~= g[j as int].photos + refs_of(tviews[t as int].photos, path@));
                assert(blog_index_view(entries@) =~= g.update(
                    j as int,
                    BlogTagEntryView {
                        slug: g[j as int].slug,
                        name: g[j as int].name,
                        photos: g[j as int].photos + refs_of(tviews[t as int].photos, path@),
                    },
                ));
                assert(blog_index_view(entries@) == blog_insert(g, tviews[t as int], path@));
            }
        } else {
            proof {
                lemma_blog_slug_pos_scan_pub(g, sview, entries@.len() as int);
            }
            entries.push(BlogTagEntry {
                slug: tags[t].slug.clone(),
                name: tags[t].name.clone(),
                photos: refs,
            });
            proof {
                assert(blog_index_view(entries@) =~= g.push(
                    BlogTagEntryView {
                        slug: sview,
                        name: tviews[t as int].name,
                        photos: refs_of(tviews[t as int].photos, path@),
                    },
                ));
                assert(blog_index_view(entries@) == blog_insert(g, tviews[t as int], path@));
            }
        }
        t += 1;
    }
    proof {
        assert(tviews.subrange(tn, tn) =~= Seq::<TagEntryView>::empty());
    }
}

} // verus!
