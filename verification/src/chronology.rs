//! Photo chronology: deterministic ordering, outlier detection and the
//! representative date of a post.

use vstd::prelude::*;
use vstd::relations::sorted_by;
use vstd::seq_lib::lemma_multiset_commutative;
use crate::photo::{Photo, Stamp};

verus! {

/// Total order on photos. For a chronological post, dated photos come in
/// capture order after the undated ones; photos without a date, and every
/// photo of a non-chronological post, stay in discovery order. Every tie
/// is broken by the stable, pre-assigned ordinal index, so the order is
/// deterministic.
pub open spec fn photo_le(chronological: bool, a: Photo, b: Photo) -> bool {
    if !chronological {
        a.index <= b.index
    } else {
        match (a.taken_on, b.taken_on) {
            (Some(sa), Some(sb)) => sa.seconds < sb.seconds || (sa.seconds == sb.seconds
                && a.index <= b.index),
            (None, None) => a.index <= b.index,
            (None, Some(_)) => true,
            (Some(_), None) => false,
        }
    }
}

/// The photo order as a binary relation value.
pub open spec fn photo_leq(chronological: bool) -> spec_fn(Photo, Photo) -> bool {
    |a: Photo, b: Photo| photo_le(chronological, a, b)
}

/// Ascending order on capture seconds.
pub open spec fn seconds_leq() -> spec_fn(i64, i64) -> bool {
    |x: i64, y: i64| x <= y
}

/// The capture seconds of the dated photos, in photo order.
pub open spec fn dated_seconds(s: Seq<Photo>) -> Seq<i64>
    decreases s.len(),
{
    if s.len() == 0 {
        Seq::empty()
    } else {
        if s.first().is_dated() {
            seq![s.first().spec_seconds()] + dated_seconds(s.drop_first())
        } else {
            dated_seconds(s.drop_first())
        }
    }
}

/// The median capture moment of the dated photos: the upper-median element
/// of their sorted capture seconds.
pub open spec fn center_seconds(s: Seq<Photo>) -> i64
    recommends
        dated_seconds(s).len() > 0,
{
    let vals = dated_seconds(s);
    vals.sort_by(seconds_leq())[vals.len() as int / 2]
}

/// The absolute distance between two moments, in seconds.
pub open spec fn deviation(sec: int, center: int) -> int {
    if sec >= center {
        sec - center
    } else {
        center - sec
    }
}

/// `p` with its outlier flag set exactly when it is dated and its capture
/// moment deviates from `center` by more than `threshold` seconds.
pub open spec fn flagged_photo(p: Photo, center: i64, threshold: i64) -> Photo {
    Photo {
        index: p.index,
        taken_on: p.taken_on,
        tags: p.tags,
        date_outlier: p.is_dated() && deviation(p.spec_seconds() as int, center as int)
            > threshold as int,
        size: p.size,
    }
}

/// Every photo of `s`, flagged against `center`.
pub open spec fn apply_flags(s: Seq<Photo>, center: i64, threshold: i64) -> Seq<Photo> {
    s.map_values(|p: Photo| flagged_photo(p, center, threshold))
}

/// Every photo of `s`, flagged against the set's own central date.
pub open spec fn apply_outliers(s: Seq<Photo>, threshold: i64) -> Seq<Photo> {
    apply_flags(s, center_seconds(s), threshold)
}

/// Whether a photo counts toward the representative date: it is dated and
/// not an outlier.
pub open spec fn is_relevant(p: Photo) -> bool {
    p.is_dated() && !p.date_outlier
}

/// The capture moment of the earliest relevant photo, preferring the
/// earlier position on equal seconds; `None` when no photo is relevant.
pub open spec fn earliest_relevant(s: Seq<Photo>) -> Option<Stamp>
    decreases s.len(),
{
    if s.len() == 0 {
        None
    } else {
        let rest = earliest_relevant(s.drop_first());
        if is_relevant(s.first()) {
            match rest {
                None => s.first().taken_on,
                Some(st) => if st.seconds < s.first().spec_seconds() {
                    Some(st)
                } else {
                    s.first().taken_on
                },
            }
        } else {
            rest
        }
    }
}

/// The representative date of a photo set: the earliest non-outlier
/// capture moment after outlier flagging.
pub open spec fn representative_date(s: Seq<Photo>, threshold: i64) -> Option<Stamp> {
    earliest_relevant(apply_outliers(s, threshold))
}

/// Inserting an element anywhere adds exactly that element to the
/// sequence's multiset.
pub proof fn lemma_insert_to_multiset_pub<A>(s: Seq<A>, i: int, x: A)
    requires
        0 <= i <= s.len(),
    ensures
        s.insert(i, x).to_multiset() == s.to_multiset().insert(x),
{
    broadcast use vstd::seq_lib::group_to_multiset_ensures;
    broadcast use vstd::multiset::group_multiset_axioms;

    let pre = s.subrange(0, i);
    let post = s.subrange(i, s.len() as int);
    assert(s.insert(i, x) == pre.push(x) + post);
    lemma_multiset_commutative(pre.push(x), post);
    lemma_multiset_commutative(pre, post);
    assert(s =~= pre + post);
    assert(pre.push(x).to_multiset() =~= pre.to_multiset().insert(x));
    assert(s.insert(i, x).to_multiset() =~= s.to_multiset().insert(x));
}

/// The photo order is total: any two photos are comparable.
proof fn lemma_photo_le_connected(chronological: bool, a: Photo, b: Photo)
    ensures
        photo_le(chronological, a, b) || photo_le(chronological, b, a),
{
}

/// The photo order is transitive.
proof fn lemma_photo_le_transitive(chronological: bool, a: Photo, b: Photo, c: Photo)
    requires
        photo_le(chronological, a, b),
        photo_le(chronological, b, c),
    ensures
        photo_le(chronological, a, c),
{
}

/// Whether `a` precedes or equals `b` in the photo order.
fn photo_le_exec(chronological: bool, a: &Photo, b: &Photo) -> (r: bool)
    ensures
        r == photo_le(chronological, *a, *b),
{
    if !chronological {
        a.index <= b.index
    } else {
        match (&a.taken_on, &b.taken_on) {
            (Some(sa), Some(sb)) => sa.seconds < sb.seconds || (sa.seconds == sb.seconds
                && a.index <= b.index),
            (None, None) => a.index <= b.index,
            (None, Some(_)) => true,
            (Some(_), None) => false,
        }
    }
}

/// Sort the photos ascending in the photo order: by capture date for a
/// chronological post, in discovery order otherwise, ties broken by the
/// stable ordinal index.
pub fn sort_photos(photos: &mut Vec<Photo>, chronological: bool)
    ensures
        sorted_by(final(photos)@, photo_leq(chronological)),
        final(photos)@.to_multiset() == old(photos)@.to_multiset(),
        final(photos)@.len() == old(photos)@.len(),
{
    broadcast use vstd::seq_lib::group_to_multiset_ensures;
    broadcast use vstd::multiset::group_multiset_axioms;

    let ghost leq = photo_leq(chronological);
    let mut i: usize = 1;
    while i < photos.len()
        invariant
            1 <= i,
            i <= photos@.len() || photos@.len() == 0,
            leq == photo_leq(chronological),
            photos@.to_multiset() == old(photos)@.to_multiset(),
            photos@.len() == old(photos)@.len(),
            sorted_by(photos@.subrange(0, i as int), leq) || i > photos@.len(),
        decreases photos@.len() - i,
    {
        let ghost before = photos@;
        let x = photos.remove(i);
        let ghost removed = photos@;
        proof {
            broadcast use vstd::seq_lib::group_to_multiset_ensures;
            broadcast use vstd::multiset::group_multiset_axioms;

            assert(removed =~= before.remove(i as int));
            assert(removed.subrange(0, i as int) =~= before.subrange(0, i as int));
            assert(before[i as int] == x);
            assert(before.contains(x));
            assert(removed.to_multiset() =~= before.to_multiset().remove(x));
        }
        let mut j: usize = i;
        while j > 0 && !photo_le_exec(chronological, &photos[j - 1], &x)
            invariant
                j <= i,
                i < removed.len() + 1,
                leq == photo_leq(chronological),
                photos@ == removed,
                sorted_by(removed.subrange(0, i as int), leq),
                forall|p: int| j <= p < i ==> photo_le(chronological, x, #[trigger] removed[p]),
            decreases j,
        {
            proof {
                lemma_photo_le_connected(chronological, removed[j - 1], x);
            }
            j = j - 1;
        }
        proof {
            // everything left of the insertion point precedes `x`
            if j > 0 {
                assert forall|p: int| 0 <= p < j implies photo_le(
                    chronological,
                    #[trigger] removed[p],
                    x,
                ) by {
                    assert(leq(removed.subrange(0, i as int)[p], removed.subrange(0, i as int)[
                        j - 1]) || p == j - 1);
                    lemma_photo_le_transitive(chronological, removed[p], removed[j - 1], x);
                }
            }
        }
        photos.insert(j, x);
        proof {
            broadcast use vstd::seq_lib::group_to_multiset_ensures;
            broadcast use vstd::multiset::group_multiset_axioms;

            lemma_insert_to_multiset_pub(removed, j as int, x);
            assert(before.to_multiset().contains(x));
            assert(before.to_multiset().remove(x).insert(x) =~= before.to_multiset());
            assert(photos@.to_multiset() =~= old(photos)@.to_multiset());
            removed.insert_ensures(j as int, x);
            let now = photos@.subrange(0, i as int + 1);
            assert forall|p: int, q: int| 0 <= p < q < i + 1 implies leq(now[p], now[q]) by {
                let s = removed.subrange(0, i as int);
                if q < j {
                    assert(now[p] == s[p] && now[q] == s[q]);
                } else if q == j {
                    assert(now[q] == x);
                    assert(now[p] == s[p]);
                } else {
                    assert(now[q] == s[q - 1]);
                    if p < j {
                        assert(now[p] == s[p]);
                        if q - 1 == j - 1 {
                            assert(p < j - 1 || p == j - 1);
                            assert(leq(s[p], s[q - 1]) || p == q - 1);
                        }
                        if p < q - 1 {
                            assert(leq(s[p], s[q - 1]));
                        } else {
                            assert(p == j - 1 && q == j + 1 && s[p] == s[q - 1]);
                            lemma_photo_le_connected(chronological, s[p], s[p]);
                        }
                    } else if p == j {
                        assert(now[p] == x);
                        assert(photo_le(chronological, x, removed[q - 1]));
                    } else {
                        assert(now[p] == s[p - 1]);
                        assert(leq(s[p - 1], s[q - 1]) || p - 1 == q - 1);
                    }
                }
            }
            assert(sorted_by(photos@.subrange(0, i as int + 1), leq));
        }
        i = i + 1;
    }
    proof {
        if old(photos)@.len() > 0 {
            assert(photos@.subrange(0, photos@.len() as int) =~= photos@);
        }
    }
}

/// Appending a photo appends its capture seconds exactly when it is
/// dated.
proof fn lemma_dated_seconds_push(s: Seq<Photo>, p: Photo)
    ensures
        dated_seconds(s.push(p)) == dated_seconds(s) + (if p.is_dated() {
            seq![p.spec_seconds()]
        } else {
            Seq::<i64>::empty()
        }),
    decreases s.len(),
{
    if s.len() == 0 {
        assert(s.push(p).drop_first() =~= Seq::<Photo>::empty());
        assert(s.push(p).first() == p);
        assert(dated_seconds(s) =~= Seq::<i64>::empty());
        assert(dated_seconds(Seq::<Photo>::empty()) =~= Seq::<i64>::empty());
        if p.is_dated() {
            assert(dated_seconds(s.push(p)) =~= dated_seconds(s) + seq![p.spec_seconds()]);
        } else {
            assert(dated_seconds(s.push(p)) =~= dated_seconds(s) + Seq::<i64>::empty());
        }
    } else {
        lemma_dated_seconds_push(s.drop_first(), p);
        assert(s.push(p).drop_first() =~= s.drop_first().push(p));
        assert(s.push(p).first() == s.first());
        if p.is_dated() {
            assert(dated_seconds(s.push(p)) =~= dated_seconds(s) + seq![p.spec_seconds()]);
        } else {
            assert(dated_seconds(s.push(p)) =~= dated_seconds(s) + Seq::<i64>::empty());
        }
    }
}

/// A set with no dated capture seconds holds no dated photo.
proof fn lemma_no_dated_photo(s: Seq<Photo>)
    requires
        dated_seconds(s).len() == 0,
    ensures
        forall|k: int| 0 <= k < s.len() ==> !(#[trigger] s[k]).is_dated(),
    decreases s.len(),
{
    if s.len() > 0 {
        lemma_no_dated_photo(s.drop_first());
        assert forall|k: int| 0 <= k < s.len() implies !(#[trigger] s[k]).is_dated() by {
            if k > 0 {
                assert(s.drop_first()[k - 1] == s[k]);
            }
        }
    }
}

/// Sort capture seconds ascending.
#[verifier::rlimit(50)]
fn sort_seconds(v: &mut Vec<i64>)
    ensures
        sorted_by(final(v)@, seconds_leq()),
        final(v)@.to_multiset() == old(v)@.to_multiset(),
        final(v)@.len() == old(v)@.len(),
{
    let ghost leq = seconds_leq();
    let mut i: usize = 1;
    while i < v.len()
        invariant
            1 <= i,
            i <= v@.len() || v@.len() == 0,
            leq == seconds_leq(),
            v@.to_multiset() == old(v)@.to_multiset(),
            v@.len() == old(v)@.len(),
            sorted_by(v@.subrange(0, i as int), leq) || i > v@.len(),
        decreases v@.len() - i,
    {
        let ghost before = v@;
        let x = v.remove(i);
        let ghost removed = v@;
        proof {
            broadcast use vstd::seq_lib::group_to_multiset_ensures;
            broadcast use vstd::multiset::group_multiset_axioms;

            assert(removed =~= before.remove(i as int));
            assert(removed.subrange(0, i as int) =~= before.subrange(0, i as int));
            assert(before[i as int] == x);
            assert(before.contains(x));
            assert(removed.to_multiset() =~= before.to_multiset().remove(x));
        }
        let mut j: usize = i;
        while j > 0 && !(v[j - 1] <= x)
            invariant
                j <= i,
                i < removed.len() + 1,
                leq == seconds_leq(),
                v@ == removed,
                sorted_by(removed.subrange(0, i as int), leq),
                forall|p: int| j <= p < i ==> x <= #[trigger] removed[p],
            decreases j,
        {
            j = j - 1;
        }
        v.insert(j, x);
        proof {
            broadcast use vstd::seq_lib::group_to_multiset_ensures;
            broadcast use vstd::multiset::group_multiset_axioms;

            lemma_insert_to_multiset_pub(removed, j as int, x);
            assert(before.to_multiset().contains(x));
            assert(before.to_multiset().remove(x).insert(x) =~= before.to_multiset());
            assert(v@.to_multiset() =~= old(v)@.to_multiset());
            removed.insert_ensures(j as int, x);
            let now = v@.subrange(0, i as int + 1);
            let s = removed.subrange(0, i as int);
            assert forall|p: int, q: int| 0 <= p < q < i + 1 implies leq(now[p], now[q]) by {
                if q < j {
                } else if q == j {
                    assert(now[q] == x);
                    assert(now[p] == s[p]);
                    assert(leq(s[p], s[j - 1]) || p == j - 1);
                } else {
                    assert(now[q] == s[q - 1]);
                    if p < j {
                        assert(now[p] == s[p]);
                        assert(leq(s[p], s[q - 1]) || p == q - 1);
                    } else if p == j {
                        assert(now[p] == x);
                        assert(x <= removed[q - 1]);
                    } else {
                        assert(now[p] == s[p - 1]);
                        assert(leq(s[p - 1], s[q - 1]) || p - 1 == q - 1);
                    }
                }
            }
            assert(sorted_by(v@.subrange(0, i as int + 1), leq));
        }
        i = i + 1;
    }
    proof {
        if old(v)@.len() > 0 {
            assert(v@.subrange(0, v@.len() as int) =~= v@);
        }
    }
}

/// Flag the photos whose capture date deviates from the set's central
/// date by more than `threshold` seconds. Flagged photos stay in the set:
/// the flag only excludes them from representative-date computation.
pub fn identify_outliers(photos: &mut Vec<Photo>, threshold: i64)
    ensures
        final(photos)@ == apply_outliers(old(photos)@, threshold),
{
    let ghost orig = photos@;
    let mut secs: Vec<i64> = Vec::new();
    let mut i: usize = 0;
    while i < photos.len()
        invariant
            photos@ == orig,
            i <= orig.len(),
            secs@ == dated_seconds(orig.subrange(0, i as int)),
        decreases orig.len() - i,
    {
        proof {
            lemma_dated_seconds_push(orig.subrange(0, i as int), orig[i as int]);
            assert(orig.subrange(0, i as int + 1) =~= orig.subrange(0, i as int).push(
                orig[i as int],
            ));
        }
        match &photos[i].taken_on {
            Some(st) => {
                secs.push(st.seconds);
                proof {
                    assert(secs@ =~= dated_seconds(orig.subrange(0, i as int + 1)));
                }
            },
            None => {
                proof {
                    assert(secs@ =~= dated_seconds(orig.subrange(0, i as int + 1)));
                }
            },
        }
        i = i + 1;
    }
    proof {
        assert(orig.subrange(0, orig.len() as int) =~= orig);
    }
    let center: i64;
    if secs.len() > 0 {
        let n = secs.len();
        sort_seconds(&mut secs);
        center = secs[n / 2];
        proof {
            let d = dated_seconds(orig);
            d.lemma_sort_by_ensures(seconds_leq());
            assert(vstd::relations::total_ordering(seconds_leq()));
            vstd::seq_lib::lemma_sorted_unique(secs@, d.sort_by(seconds_leq()), seconds_leq());
            assert(center == center_seconds(orig));
        }
    } else {
        center = 0;
    }
    let mut out: Vec<Photo> = Vec::new();
    while photos.len() > 0
        invariant
            out@.len() + photos@.len() == orig.len(),
            photos@ == orig.subrange(out@.len() as int, orig.len() as int),
            out@ == apply_flags(orig, center, threshold).subrange(0, out@.len() as int),
        decreases photos@.len(),
    {
        let ghost k = out@.len() as int;
        let p = photos.remove(0);
        proof {
            assert(p == orig[k]);
            assert(photos@ =~= orig.subrange(k + 1, orig.len() as int));
        }
        let flag = match &p.taken_on {
            Some(st) => {
                let d = (st.seconds as i128) - (center as i128);
                let ad = if d < 0 {
                    -d
                } else {
                    d
                };
                ad > (threshold as i128)
            },
            None => false,
        };
        out.push(Photo { index: p.index, taken_on: p.taken_on, tags: p.tags, date_outlier: flag, size: p.size });
        proof {
            assert(out@.last() == flagged_photo(orig[k], center, threshold));
            assert(out@ =~= apply_flags(orig, center, threshold).subrange(0, k + 1));
        }
    }
    *photos = out;
    proof {
        assert(photos@ =~= apply_flags(orig, center, threshold));
        if dated_seconds(orig).len() == 0 {
            lemma_no_dated_photo(orig);
            assert forall|k: int| 0 <= k < orig.len() implies flagged_photo(orig[k], center, threshold)
                == flagged_photo(orig[k], center_seconds(orig), threshold) by {
                assert(!orig[k].is_dated());
            }
            assert(apply_flags(orig, center, threshold) =~= apply_outliers(orig, threshold));
        }
    }
}

/// The capture moment of the post's earliest dated, non-outlier photo, or
/// `None` when the post has none. On equal moments the earlier position
/// wins, keeping the result deterministic.
pub fn earliest_photo_date(photos: &Vec<Photo>) -> (r: Option<Stamp>)
    ensures
        r == earliest_relevant(photos@),
{
    let ghost n = photos@.len() as int;
    let mut acc: Option<Stamp> = None;
    let mut i: usize = photos.len();
    proof {
        assert(photos@.subrange(n, n) =~= Seq::<Photo>::empty());
    }
    while i > 0
        invariant
            i <= photos@.len(),
            n == photos@.len(),
            acc == earliest_relevant(photos@.subrange(i as int, n)),
        decreases i,
    {
        i = i - 1;
        let p = &photos[i];
        proof {
            assert(photos@.subrange(i as int, n).drop_first() =~= photos@.subrange(i as int + 1, n));
            assert(photos@.subrange(i as int, n).first() == photos@[i as int]);
        }
        if !p.date_outlier {
            if let Some(st) = &p.taken_on {
                acc = match acc {
                    None => Some(*st),
                    Some(cur) => if cur.seconds < st.seconds {
                        Some(cur)
                    } else {
                        Some(*st)
                    },
                };
            }
        }
    }
    proof {
        assert(photos@.subrange(0, n) =~= photos@);
    }
    acc
}

/// Every capture second of a set whose dated photos all lie in the
/// window lies in the window itself.
proof fn lemma_dated_seconds_bounds(s: Seq<Photo>, lo: int, hi: int)
    requires
        forall|j: int|
            0 <= j < s.len() && (#[trigger] s[j]).is_dated() ==> lo <= s[j].spec_seconds() as int
                <= hi,
    ensures
        forall|m: int|
            0 <= m < dated_seconds(s).len() ==> lo <= (#[trigger] dated_seconds(s)[m]) as int
                <= hi,
    decreases s.len(),
{
    if s.len() > 0 {
        assert forall|j: int|
            0 <= j < s.drop_first().len() && (#[trigger] s.drop_first()[j]).is_dated() implies lo
            <= s.drop_first()[j].spec_seconds() as int <= hi by {
            assert(s.drop_first()[j] == s[j + 1]);
        }
        lemma_dated_seconds_bounds(s.drop_first(), lo, hi);
        assert(s[0] == s.first());
        let d = dated_seconds(s);
        let rec = dated_seconds(s.drop_first());
        if s.first().is_dated() {
            assert(d == seq![s.first().spec_seconds()] + rec);
            assert forall|m: int| 0 <= m < d.len() implies lo <= (#[trigger] d[m]) as int
                <= hi by {
                if m > 0 {
                    assert(d[m] == rec[m - 1]);
                }
            }
        } else {
            assert(d == rec);
        }
    }
}

/// The position that photo `i`'s capture seconds occupy among the dated
/// seconds, when every other dated photo lies in the window: every other
/// position lies in the window too.
proof fn lemma_dated_seconds_window(s: Seq<Photo>, i: int, lo: int, hi: int) -> (k: int)
    requires
        0 <= i < s.len(),
        s[i].is_dated(),
        forall|j: int|
            0 <= j < s.len() && j != i && (#[trigger] s[j]).is_dated() ==> lo
                <= s[j].spec_seconds() as int <= hi,
    ensures
        0 <= k < dated_seconds(s).len(),
        dated_seconds(s)[k] == s[i].spec_seconds(),
        forall|m: int|
            0 <= m < dated_seconds(s).len() && m != k ==> lo <= (#[trigger] dated_seconds(
                s,
            )[m]) as int <= hi,
    decreases s.len(),
{
    let d = dated_seconds(s);
    if i == 0 {
        assert forall|j: int|
            0 <= j < s.drop_first().len() && (#[trigger] s.drop_first()[j]).is_dated() implies lo
            <= s.drop_first()[j].spec_seconds() as int <= hi by {
            assert(s.drop_first()[j] == s[j + 1]);
        }
        lemma_dated_seconds_bounds(s.drop_first(), lo, hi);
        assert(s[0] == s.first());
        assert(d == seq![s[0].spec_seconds()] + dated_seconds(s.drop_first()));
        0
    } else {
        assert forall|j: int|
            0 <= j < s.drop_first().len() && j != i - 1 && (#[trigger] s.drop_first()[
            j]).is_dated() implies lo <= s.drop_first()[j].spec_seconds() as int <= hi by {
            assert(s.drop_first()[j] == s[j + 1]);
        }
        assert(s.drop_first()[i - 1] == s[i]);
        let k0 = lemma_dated_seconds_window(s.drop_first(), i - 1, lo, hi);
        assert(s[0] == s.first());
        if s[0].is_dated() {
            assert(d == seq![s[0].spec_seconds()] + dated_seconds(s.drop_first()));
            assert(lo <= s[0].spec_seconds() as int <= hi);
            k0 + 1
        } else {
            assert(d == dated_seconds(s.drop_first()));
            k0
        }
    }
}

/// Removing one dated photo removes exactly one capture second.
proof fn lemma_dated_seconds_remove(s: Seq<Photo>, i: int)
    requires
        0 <= i < s.len(),
        s[i].is_dated(),
    ensures
        dated_seconds(s.remove(i)).len() == dated_seconds(s).len() - 1,
    decreases s.len(),
{
    if i == 0 {
        assert(s.remove(0) =~= s.drop_first());
        assert(s[0] == s.first());
    } else {
        assert(s.remove(i).drop_first() =~= s.drop_first().remove(i - 1));
        assert(s.drop_first()[i - 1] == s[i]);
        lemma_dated_seconds_remove(s.drop_first(), i - 1);
        assert(s.remove(i)[0] == s[0]);
        assert(s[0] == s.first());
        assert(s.remove(i).first() == s.first());
    }
}

/// The upper median of a sequence whose values, except at most the one
/// at position `k`, lie in a window lies in that window itself, as soon
/// as the sequence has three values.
proof fn lemma_median_in_window(vals: Seq<i64>, k: int, lo: int, hi: int)
    requires
        0 <= k < vals.len(),
        vals.len() >= 3,
        forall|m: int|
            0 <= m < vals.len() && m != k ==> lo <= (#[trigger] vals[m]) as int <= hi,
    ensures
        lo <= (vals.sort_by(seconds_leq())[vals.len() as int / 2]) as int <= hi,
{
    broadcast use vstd::seq_lib::group_to_multiset_ensures;
    broadcast use vstd::multiset::group_multiset_axioms;

    let leq = seconds_leq();
    vals.lemma_sort_by_ensures(leq);
    let sorted = vals.sort_by(leq);
    assert(sorted.to_multiset().len() == vals.to_multiset().len());
    assert(sorted.len() == vals.len());
    let n = sorted.len() as int;
    let mid = n / 2;
    let x = vals[k];
    let rest = vals.remove(k);
    assert(rest.to_multiset() =~= vals.to_multiset().remove(x));
    // every value of the multiset besides `x` lies in the window
    assert forall|v: i64| rest.to_multiset().contains(v) implies lo <= v as int <= hi by {
        assert(rest.contains(v));
        let j = choose|j: int| 0 <= j < rest.len() && rest[j] == v;
        if j < k {
            assert(rest[j] == vals[j]);
        } else {
            assert(rest[j] == vals[j + 1]);
        }
    }
    assert(vals.to_multiset().contains(x));
    assert(sorted.to_multiset() == vals.to_multiset());
    let mv = sorted[mid] as int;
    if mv > hi {
        let hi_val = sorted[n - 1];
        assert(leq(sorted[mid], sorted[n - 1]));
        assert((hi_val as int) > hi);
        assert(sorted.to_multiset().contains(sorted[mid]));
        assert(sorted.to_multiset().contains(hi_val));
        if sorted[mid] == hi_val {
            // one value at two positions: its multiplicity is at least 2
            let trimmed = sorted.remove(n - 1);
            assert(trimmed.to_multiset() =~= sorted.to_multiset().remove(hi_val));
            assert(trimmed[mid] == sorted[mid]);
            assert(trimmed.contains(hi_val));
            assert(trimmed.to_multiset().contains(hi_val));
            assert(sorted.to_multiset().count(hi_val) >= 2);
            // but the window multiset holds it at most once
            assert(!rest.to_multiset().contains(hi_val));
            assert(rest.to_multiset().count(hi_val) == 0);
            assert(vals.to_multiset().count(hi_val) <= 1);
            assert(false);
        } else {
            // two distinct values above the window, yet only `x` may be
            assert(!rest.to_multiset().contains(sorted[mid]));
            assert(!rest.to_multiset().contains(hi_val));
            assert(vals.to_multiset().count(sorted[mid]) >= 1);
            assert(vals.to_multiset().count(hi_val) >= 1);
            assert(sorted[mid] == x && hi_val == x);
            assert(false);
        }
    }
    if mv < lo {
        let lo_val = sorted[0];
        assert(leq(sorted[0], sorted[mid]));
        assert((lo_val as int) < lo);
        assert(mid >= 1);
        assert(sorted.to_multiset().contains(sorted[mid]));
        assert(sorted.to_multiset().contains(lo_val));
        if sorted[mid] == lo_val {
            let trimmed = sorted.remove(0);
            assert(trimmed.to_multiset() =~= sorted.to_multiset().remove(lo_val));
            assert(trimmed[mid - 1] == sorted[mid]);
            assert(trimmed.contains(lo_val));
            assert(trimmed.to_multiset().contains(lo_val));
            assert(sorted.to_multiset().count(lo_val) >= 2);
            assert(!rest.to_multiset().contains(lo_val));
            assert(rest.to_multiset().count(lo_val) == 0);
            assert(vals.to_multiset().count(lo_val) <= 1);
            assert(false);
        } else {
            assert(!rest.to_multiset().contains(sorted[mid]));
            assert(!rest.to_multiset().contains(lo_val));
            assert(sorted[mid] == x && lo_val == x);
            assert(false);
        }
    }
}

/// The upper median of a sequence of window values lies in the window.
proof fn lemma_median_inside(vals: Seq<i64>, lo: int, hi: int)
    requires
        vals.len() >= 1,
        forall|m: int| 0 <= m < vals.len() ==> lo <= (#[trigger] vals[m]) as int <= hi,
    ensures
        lo <= (vals.sort_by(seconds_leq())[vals.len() as int / 2]) as int <= hi,
{
    broadcast use vstd::seq_lib::group_to_multiset_ensures;
    broadcast use vstd::multiset::group_multiset_axioms;

    let leq = seconds_leq();
    vals.lemma_sort_by_ensures(leq);
    let sorted = vals.sort_by(leq);
    assert(sorted.to_multiset().len() == vals.to_multiset().len());
    assert(sorted.len() == vals.len());
    let mid = sorted.len() as int / 2;
    assert(sorted.to_multiset().contains(sorted[mid]));
    assert(vals.to_multiset().contains(sorted[mid]));
    assert(vals.contains(sorted[mid]));
    let j = choose|j: int| 0 <= j < vals.len() && vals[j] == sorted[mid];
    assert(lo <= (vals[j]) as int <= hi);
}

/// Dropping an irrelevant photo leaves the earliest relevant moment
/// unchanged.
proof fn lemma_earliest_skip(s: Seq<Photo>, i: int)
    requires
        0 <= i < s.len(),
        !is_relevant(s[i]),
    ensures
        earliest_relevant(s.remove(i)) == earliest_relevant(s),
    decreases s.len(),
{
    if i == 0 {
        assert(s.remove(0) =~= s.drop_first());
        assert(s[0] == s.first());
    } else {
        assert(s.remove(i).drop_first() =~= s.drop_first().remove(i - 1));
        assert(s.drop_first()[i - 1] == s[i]);
        lemma_earliest_skip(s.drop_first(), i - 1);
        assert(s.remove(i)[0] == s[0]);
        assert(s[0] == s.first());
        assert(s.remove(i).first() == s.first());
    }
}

/// Outlier exclusion: the representative date of a photo set holding one
/// far outlier equals the representative date of the same set with the
/// outlier removed. The set must hold at least three dated photos, the
/// others must lie together in a window no wider than the threshold, and
/// the outlier must lie more than the threshold outside that window.
pub proof fn lemma_outlier_exclusion(s: Seq<Photo>, i: int, threshold: i64, lo: int, hi: int)
    requires
        0 <= i < s.len(),
        s[i].is_dated(),
        threshold >= 0,
        hi - lo <= threshold as int,
        lo <= hi,
        forall|j: int|
            0 <= j < s.len() && j != i && (#[trigger] s[j]).is_dated() ==> lo
                <= s[j].spec_seconds() as int <= hi,
        ((s[i].spec_seconds() as int) > hi + (threshold as int)) || ((s[i].spec_seconds() as int)
            < lo - (threshold as int)),
        dated_seconds(s).len() >= 3,
    ensures
        representative_date(s, threshold) == representative_date(s.remove(i), threshold),
{
    let d = dated_seconds(s);
    let k = lemma_dated_seconds_window(s, i, lo, hi);
    lemma_median_in_window(d, k, lo, hi);
    let c1 = center_seconds(s);
    assert(lo <= c1 as int <= hi);

    let rest = s.remove(i);
    assert forall|j: int|
        0 <= j < rest.len() && (#[trigger] rest[j]).is_dated() implies lo
        <= rest[j].spec_seconds() as int <= hi by {
        if j < i {
            assert(rest[j] == s[j]);
        } else {
            assert(rest[j] == s[j + 1]);
        }
    }
    lemma_dated_seconds_bounds(rest, lo, hi);
    lemma_dated_seconds_remove(s, i);
    lemma_median_inside(dated_seconds(rest), lo, hi);
    let c2 = center_seconds(rest);
    assert(lo <= c2 as int <= hi);

    let a1 = apply_outliers(s, threshold);
    let a2 = apply_outliers(rest, threshold);
    // the outlier is flagged; every other photo keeps a clear flag in
    // both computations
    assert(a1[i] == flagged_photo(s[i], c1, threshold));
    assert(deviation(s[i].spec_seconds() as int, c1 as int) > threshold as int);
    assert(!is_relevant(a1[i]));
    assert forall|m: int| 0 <= m < rest.len() implies #[trigger] a2[m] == a1.remove(i)[m] by {
        let p = if m < i {
            s[m]
        } else {
            s[m + 1]
        };
        assert(rest[m] == p);
        assert(a1.remove(i)[m] == a1[if m < i {
            m
        } else {
            m + 1
        }]);
        assert(a2[m] == flagged_photo(p, c2, threshold));
        if p.is_dated() {
            assert(lo <= p.spec_seconds() as int <= hi);
            assert(deviation(p.spec_seconds() as int, c1 as int) <= threshold as int);
            assert(deviation(p.spec_seconds() as int, c2 as int) <= threshold as int);
        }
    }
    assert(a2 =~= a1.remove(i));
    lemma_earliest_skip(a1, i);
}

/// No two photos of the sequence share an ordinal index.
pub open spec fn distinct_indexes(s: Seq<Photo>) -> bool {
    forall|i: int, j: int| 0 <= i < j < s.len() ==> s[i].index != s[j].index
}

/// Deterministic ordering: two sequences that hold the same photos, have
/// no duplicate ordinal indexes, and are both sorted in the photo order
/// are identical. Sorting an identical unordered photo set therefore
/// yields the identical output ordering, however the input was arranged.
pub proof fn lemma_sorted_order_unique(x: Seq<Photo>, y: Seq<Photo>, chronological: bool)
    requires
        sorted_by(x, photo_leq(chronological)),
        sorted_by(y, photo_leq(chronological)),
        x.to_multiset() == y.to_multiset(),
        distinct_indexes(x),
        distinct_indexes(y),
    ensures
        x =~= y,
    decreases x.len(),
{
    broadcast use vstd::seq_lib::group_to_multiset_ensures;
    broadcast use vstd::multiset::group_multiset_axioms;

    if x.len() == 0 || y.len() == 0 {
        assert(x.to_multiset().len() == y.to_multiset().len());
    } else {
        assert(x.to_multiset().contains(x[0]));
        assert(y.contains(x[0]));
        assert(y.to_multiset().contains(y[0]));
        assert(x.contains(y[0]));
        let leq = photo_leq(chronological);
        let k = choose|k: int| 0 <= k < y.len() && y[k] == x[0];
        let l = choose|l: int| 0 <= l < x.len() && x[l] == y[0];
        assert(leq(y[0], y[k]) || k == 0);
        assert(leq(x[0], x[l]) || l == 0);
        assert(photo_le(chronological, y[0], y[k]) || k == 0);
        assert(photo_le(chronological, x[0], x[l]) || l == 0);
        if x[0] != y[0] {
            // both precede each other, so they carry the same index; two
            // distinct photos with one index cannot share a sequence
            assert(photo_le(chronological, y[0], x[0]));
            assert(photo_le(chronological, x[0], y[0]));
            assert(x[0].index == y[0].index);
            assert(k != 0 && 0 < k < y.len());
            assert(y[0].index != y[k].index);
            assert(false);
        }
        let xr = x.drop_first();
        let yr = y.drop_first();
        assert(x.remove(0) =~= xr);
        assert(y.remove(0) =~= yr);
        assert(xr.to_multiset() =~= x.to_multiset().remove(x[0]));
        assert(yr.to_multiset() =~= y.to_multiset().remove(y[0]));
        assert forall|p: int, q: int| 0 <= p < q < xr.len() implies photo_leq(chronological)(
            xr[p],
            xr[q],
        ) by {
            assert(xr[p] == x[p + 1] && xr[q] == x[q + 1]);
        }
        assert forall|p: int, q: int| 0 <= p < q < yr.len() implies photo_leq(chronological)(
            yr[p],
            yr[q],
        ) by {
            assert(yr[p] == y[p + 1] && yr[q] == y[q + 1]);
        }
        assert forall|p: int, q: int| 0 <= p < q < xr.len() implies xr[p].index != xr[q].index by {
            assert(xr[p] == x[p + 1] && xr[q] == x[q + 1]);
        }
        assert forall|p: int, q: int| 0 <= p < q < yr.len() implies yr[p].index != yr[q].index by {
            assert(yr[p] == y[p + 1] && yr[q] == y[q + 1]);
        }
        lemma_sorted_order_unique(xr, yr, chronological);
        assert forall|m: int| 0 <= m < x.len() implies x[m] == y[m] by {
            if m > 0 {
                assert(xr[m - 1] == yr[m - 1]);
            }
        }
    }
}

} // verus!
