//! Staleness detection: whether a post directory holds any pertinent file
//! change relative to a cached timestamp and file count.
//!
//! The decision is O(entries): no content hashing. It trades a possible
//! false positive (an unneeded reprocessing) for never missing a real
//! change.

use vstd::prelude::*;
use crate::config::BlogConfig;

verus! {

/// One directory entry, reduced to what the detector reads: its file name
/// and its modification time in seconds since the Unix epoch.
pub struct FileEntry {
    pub name: String,
    pub modified: i64,
}

/// Whether a file name belongs to the permitted set: it ends with the
/// photo-source extension, or it is exactly the configuration file name.
pub open spec fn name_permitted(name: Seq<char>, source_ext: Seq<char>, config_name: Seq<char>) -> bool {
    ||| (name.len() >= source_ext.len() && name.subrange(
        name.len() - source_ext.len(),
        name.len() as int,
    ) == source_ext)
    ||| name == config_name
}

/// The permitted-name test as a predicate on directory entries.
pub open spec fn permitted_pred(source_ext: Seq<char>, config_name: Seq<char>) -> spec_fn(
    FileEntry,
) -> bool {
    |e: FileEntry| name_permitted(e.name@, source_ext, config_name)
}

/// The permitted entries of a listing, in listing order.
pub open spec fn permitted_files(
    entries: Seq<FileEntry>,
    source_ext: Seq<char>,
    config_name: Seq<char>,
) -> Seq<FileEntry> {
    entries.filter(permitted_pred(source_ext, config_name))
}

/// Whether any file of the sequence was modified strictly after
/// `threshold`. Equality with the threshold does not count.
pub open spec fn any_file_newer(files: Seq<FileEntry>, threshold: int) -> bool {
    exists|i: int| 0 <= i < files.len() && files[i].modified > threshold
}

/// The staleness verdict for a directory listing: some permitted file is
/// newer than `threshold`, or the number of permitted files is not
/// `expected`.
pub open spec fn listing_modified(
    entries: Seq<FileEntry>,
    threshold: int,
    expected: int,
    source_ext: Seq<char>,
    config_name: Seq<char>,
) -> bool {
    ||| any_file_newer(permitted_files(entries, source_ext, config_name), threshold)
    ||| permitted_files(entries, source_ext, config_name).len() != expected
}

/// Whether `name` ends with `suffix`, by characters.
pub fn str_ends_with(name: &str, suffix: &str) -> (r: bool)
    ensures
        r == (name@.len() >= suffix@.len() && name@.subrange(
            name@.len() - suffix@.len(),
            name@.len() as int,
        ) == suffix@),
{
    let n = name.unicode_len();
    let m = suffix.unicode_len();
    if m > n {
        return false;
    }
    let mut i: usize = 0;
    while i < m
        invariant
            i <= m,
            m <= n,
            n == name@.len(),
            m == suffix@.len(),
            forall|j: int| 0 <= j < i ==> name@[n - m + j] == suffix@[j],
        decreases m - i,
    {
        if name.get_char(n - m + i) != suffix.get_char(i) {
            proof {
                if name@.subrange(n - m, n as int) == suffix@ {
                    assert(name@.subrange(n - m, n as int)[i as int] == name@[n - m + i]);
                }
            }
            return false;
        }
        i += 1;
    }
    proof {
        assert(name@.subrange(n - m, n as int) =~= suffix@);
    }
    true
}

/// Whether two string slices hold the same characters.
pub fn str_eq(a: &str, b: &str) -> (r: bool)
    ensures
        r == (a@ == b@),
{
    let n = a.unicode_len();
    if n != b.unicode_len() {
        return false;
    }
    let mut i: usize = 0;
    while i < n
        invariant
            i <= n,
            n == a@.len(),
            n == b@.len(),
            forall|j: int| 0 <= j < i ==> a@[j] == b@[j],
        decreases n - i,
    {
        if a.get_char(i) != b.get_char(i) {
            return false;
        }
        i += 1;
    }
    proof {
        assert(a@ =~= b@);
    }
    true
}

/// The permitted entries of a one-longer prefix: the previous permitted
/// entries, extended by the next entry exactly when its name passes.
proof fn lemma_permitted_step(s: Seq<FileEntry>, i: int, pred: spec_fn(FileEntry) -> bool)
    requires
        0 <= i < s.len(),
    ensures
        s.subrange(0, i + 1).filter(pred) == (if pred(s[i]) {
            s.subrange(0, i).filter(pred).push(s[i])
        } else {
            s.subrange(0, i).filter(pred)
        }),
{
    broadcast use vstd::seq_lib::group_seq_properties;

    assert(s.subrange(0, i + 1) =~= s.subrange(0, i) + seq![s[i]]);
    Seq::filter_distributes_over_add(s.subrange(0, i), seq![s[i]], pred);
    reveal_with_fuel(Seq::filter, 2);
    assert(seq![s[i]].drop_last() =~= Seq::<FileEntry>::empty());
    if pred(s[i]) {
        assert(seq![s[i]].filter(pred) =~= Seq::<FileEntry>::empty().push(s[i]));
        assert(s.subrange(0, i).filter(pred) + seq![s[i]].filter(pred) =~= s.subrange(
            0,
            i,
        ).filter(pred).push(s[i]));
    } else {
        assert(seq![s[i]].filter(pred) =~= Seq::<FileEntry>::empty());
        assert(s.subrange(0, i).filter(pred) + seq![s[i]].filter(pred) =~= s.subrange(
            0,
            i,
        ).filter(pred));
    }
}

/// Every permitted entry is one of the listing's entries.
proof fn lemma_filter_from_original(s: Seq<FileEntry>, pred: spec_fn(FileEntry) -> bool, i: int)
    requires
        0 <= i < s.filter(pred).len(),
    ensures
        s.contains(s.filter(pred)[i]),
    decreases s.len(),
{
    reveal(Seq::filter);
    if s.len() > 0 {
        let sub = s.drop_last().filter(pred);
        if i < sub.len() {
            lemma_filter_from_original(s.drop_last(), pred, i);
            let j = choose|j: int| 0 <= j < s.drop_last().len() && s.drop_last()[j] == sub[i];
            assert(s[j] == s.filter(pred)[i]);
        } else {
            assert(s[s.len() - 1] == s.filter(pred)[i]);
        }
    }
}

/// Whether the directory holds any pertinent file modified strictly after
/// the `threshold` timestamp, or a different number of permitted files
/// than `file_count`.
///
/// `listing` is the directory's entries, or `None` when the directory
/// does not exist — which counts as modified, failing safe toward
/// reprocessing.
pub fn is_modified(
    listing: Option<&Vec<FileEntry>>,
    threshold: i64,
    file_count: usize,
    config: &BlogConfig,
) -> (r: bool)
    ensures
        r == (match listing {
            None => true,
            Some(entries) => listing_modified(
                entries@,
                threshold as int,
                file_count as int,
                config.photo.source_ext@,
                crate::config::CONFIG_FILE@,
            ),
        }),
{
    broadcast use vstd::seq_lib::group_filter_ensures;

    let entries = match listing {
        None => { return true; },
        Some(entries) => entries,
    };
    let ghost pred = permitted_pred(config.photo.source_ext@, crate::config::CONFIG_FILE@);
    let mut count: usize = 0;
    let mut i: usize = 0;
    while i < entries.len()
        invariant
            listing == Some(entries),
            i <= entries@.len(),
            count == entries@.subrange(0, i as int).filter(pred).len(),
            count <= file_count,
            pred == permitted_pred(config.photo.source_ext@, crate::config::CONFIG_FILE@),
            forall|j: int|
                0 <= j < entries@.subrange(0, i as int).filter(pred).len()
                    ==> #[trigger] entries@.subrange(0, i as int).filter(pred)[j].modified
                    <= threshold,
        decreases entries@.len() - i,
    {
        let e = &entries[i];
        let allowed = str_ends_with(e.name.as_str(), config.photo.source_ext.as_str())
            || str_eq(e.name.as_str(), crate::config::CONFIG_FILE);
        proof {
            lemma_permitted_step(entries@, i as int, pred);
        }
        if allowed {
            if count >= file_count {
                // more than the expected number of permitted files
                proof {
                    assert(pred(entries@[i as int]));
                    assert(entries@.subrange(0, i as int + 1).filter(pred).len() == count + 1);
                    assert(entries@ =~= entries@.subrange(0, i as int + 1) + entries@.subrange(
                        i as int + 1,
                        entries@.len() as int,
                    ));
                    Seq::filter_distributes_over_add(
                        entries@.subrange(0, i as int + 1),
                        entries@.subrange(i as int + 1, entries@.len() as int),
                        pred,
                    );
                    assert(entries@.filter(pred).len() >= count + 1);
                }
                return true;
            }
            count = count + 1;
            if threshold < e.modified {
                // a file modified more recently than the threshold
                proof {
                    Seq::lemma_filter_contains(entries@, pred, i as int);
                    assert(entries@.filter(pred).contains(entries@[i as int]));
                    let k = choose|k: int|
                        0 <= k < entries@.filter(pred).len() && entries@.filter(pred)[k]
                            == entries@[i as int];
                    assert(entries@.filter(pred)[k].modified > threshold);
                }
                return true;
            }
        }
        i += 1;
    }
    proof {
        assert(entries@.subrange(0, entries@.len() as int) =~= entries@);
    }
    // the directory is considered modified if it holds a different number
    // of permitted files than expected
    file_count != count
}

/// A permitted file newer than the threshold always makes the listing
/// modified, whatever else the directory holds: adding such a file can
/// flip the verdict to modified, never the reverse.
pub proof fn lemma_newer_file_forces_modified(
    entries: Seq<FileEntry>,
    e: FileEntry,
    threshold: int,
    expected: int,
    source_ext: Seq<char>,
    config_name: Seq<char>,
)
    requires
        name_permitted(e.name@, source_ext, config_name),
        e.modified > threshold,
        entries.contains(e),
    ensures
        listing_modified(entries, threshold, expected, source_ext, config_name),
{
    broadcast use vstd::seq_lib::group_filter_ensures;

    let pred = permitted_pred(source_ext, config_name);
    let i = choose|i: int| 0 <= i < entries.len() && entries[i] == e;
    assert(entries.filter(pred).contains(e));
    let k = choose|k: int| 0 <= k < entries.filter(pred).len() && entries.filter(pred)[k] == e;
    assert(any_file_newer(permitted_files(entries, source_ext, config_name), threshold));
}

/// A quiet directory is not modified: exactly the expected number of
/// permitted files, none newer than the threshold.
pub proof fn lemma_quiet_listing_not_modified(
    entries: Seq<FileEntry>,
    threshold: int,
    expected: int,
    source_ext: Seq<char>,
    config_name: Seq<char>,
)
    requires
        permitted_files(entries, source_ext, config_name).len() == expected,
        forall|i: int|
            0 <= i < entries.len() && name_permitted(#[trigger] entries[i].name@, source_ext, config_name)
                ==> entries[i].modified <= threshold,
    ensures
        !listing_modified(entries, threshold, expected, source_ext, config_name),
{
    broadcast use vstd::seq_lib::group_filter_ensures;

    let pred = permitted_pred(source_ext, config_name);
    let files = permitted_files(entries, source_ext, config_name);
    assert forall|i: int| 0 <= i < files.len() implies files[i].modified <= threshold by {
        Seq::lemma_filter_pred(entries, pred, i);
        lemma_filter_from_original(entries, pred, i);
        assert(pred(files[i]));
        assert(entries.contains(files[i]));
        let j = choose|j: int| 0 <= j < entries.len() && entries[j] == files[i];
        assert(name_permitted(entries[j].name@, source_ext, config_name));
    }
}

/// Removing one permitted file from a directory that held exactly the
/// expected number makes the listing modified.
pub proof fn lemma_removed_file_forces_modified(
    entries: Seq<FileEntry>,
    i: int,
    threshold: int,
    expected: int,
    source_ext: Seq<char>,
    config_name: Seq<char>,
)
    requires
        permitted_files(entries, source_ext, config_name).len() == expected,
        0 <= i < entries.len(),
        name_permitted(entries[i].name@, source_ext, config_name),
    ensures
        listing_modified(entries.remove(i), threshold, expected, source_ext, config_name),
{
    broadcast use vstd::seq_lib::group_seq_properties;

    let pred = permitted_pred(source_ext, config_name);
    assert(entries =~= entries.subrange(0, i) + seq![entries[i]] + entries.subrange(
        i + 1,
        entries.len() as int,
    ));
    Seq::filter_distributes_over_add(
        entries.subrange(0, i) + seq![entries[i]],
        entries.subrange(i + 1, entries.len() as int),
        pred,
    );
    Seq::filter_distributes_over_add(entries.subrange(0, i), seq![entries[i]], pred);
    reveal_with_fuel(Seq::filter, 2);
    assert(seq![entries[i]].drop_last() =~= Seq::<FileEntry>::empty());
    assert(seq![entries[i]].filter(pred) =~= Seq::<FileEntry>::empty().push(entries[i]));
    assert(entries.remove(i) =~= entries.subrange(0, i) + entries.subrange(
        i + 1,
        entries.len() as int,
    ));
    Seq::filter_distributes_over_add(
        entries.subrange(0, i),
        entries.subrange(i + 1, entries.len() as int),
        pred,
    );
    assert(permitted_files(entries.remove(i), source_ext, config_name).len() == expected - 1);
}

/// Adding one more permitted file to a directory that held exactly the
/// expected number makes the listing modified, even when the added file's
/// modification time is old.
pub proof fn lemma_added_file_forces_modified(
    entries: Seq<FileEntry>,
    e: FileEntry,
    threshold: int,
    expected: int,
    source_ext: Seq<char>,
    config_name: Seq<char>,
)
    requires
        permitted_files(entries, source_ext, config_name).len() == expected,
        name_permitted(e.name@, source_ext, config_name),
    ensures
        listing_modified(entries.push(e), threshold, expected, source_ext, config_name),
{
    broadcast use vstd::seq_lib::group_seq_properties;

    let pred = permitted_pred(source_ext, config_name);
    assert(entries.push(e) =~= entries + seq![e]);
    Seq::filter_distributes_over_add(entries, seq![e], pred);
    reveal_with_fuel(Seq::filter, 2);
    assert(seq![e].drop_last() =~= Seq::<FileEntry>::empty());
    assert(seq![e].filter(pred) =~= Seq::<FileEntry>::empty().push(e));
    assert(permitted_files(entries.push(e), source_ext, config_name).len() == expected + 1);
}

} // verus!
