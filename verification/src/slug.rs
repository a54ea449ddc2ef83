//! Slugs: tag display names and titles reduced to lower-case,
//! dash-separated URL keys.
//!
//! The reduction works on ASCII letters; characters outside the slug
//! alphabet are dropped.

use vstd::prelude::*;
use vstd::string::*;

verus! {

/// An ASCII lower-case letter.
pub open spec fn is_lower(c: char) -> bool {
    'a' <= c <= 'z'
}

/// An ASCII upper-case letter.
pub open spec fn is_upper(c: char) -> bool {
    'A' <= c <= 'Z'
}

/// A separator character: whitespace, underscore, slash or dash.
pub open spec fn is_sep(c: char) -> bool {
    c == ' ' || c == '\t' || c == '\n' || c == '\r' || c == '_' || c == '/' || c == '-'
}

/// A character the final slug may hold.
pub open spec fn is_allowed(c: char) -> bool {
    c == '-' || is_lower(c) || ('0' <= c <= '9')
}

/// `c` with an ASCII upper-case letter folded to lower case.
pub open spec fn to_lower_char(c: char) -> char {
    if is_upper(c) {
        (((c as u8) + 32) as char)
    } else {
        c
    }
}

/// A dash inserted between a lower-case letter and the upper-case letter
/// that follows it, splitting camel-case words.
pub open spec fn camel_split(s: Seq<char>) -> Seq<char>
    decreases s.len(),
{
    if s.len() == 0 {
        Seq::empty()
    } else if s.len() == 1 {
        s
    } else {
        camel_split(s.drop_last()) + (if is_lower(s[s.len() - 2]) && is_upper(s.last()) {
            seq!['-', s.last()]
        } else {
            seq![s.last()]
        })
    }
}

/// Every character folded to lower case.
pub open spec fn lower_seq(s: Seq<char>) -> Seq<char> {
    s.map_values(|c: char| to_lower_char(c))
}

/// Every run of separator characters replaced by a single dash.
pub open spec fn collapse_seps(s: Seq<char>) -> Seq<char>
    decreases s.len(),
{
    if s.len() == 0 {
        Seq::empty()
    } else {
        collapse_seps(s.drop_last()) + (if is_sep(s.last()) {
            if s.len() >= 2 && is_sep(s[s.len() - 2]) {
                Seq::empty()
            } else {
                seq!['-']
            }
        } else {
            seq![s.last()]
        })
    }
}

/// Every occurrence of `-&-` spelt out as `-and-`, scanning left to
/// right.
pub open spec fn spell_amp(s: Seq<char>) -> Seq<char>
    decreases s.len(),
{
    if s.len() >= 3 && s[0] == '-' && s[1] == '&' && s[2] == '-' {
        seq!['-', 'a', 'n', 'd', '-'] + spell_amp(s.skip(3))
    } else if s.len() == 0 {
        Seq::empty()
    } else {
        seq![s[0]] + spell_amp(s.drop_first())
    }
}

/// Only the slug alphabet kept: dashes, lower-case letters and digits.
pub open spec fn keep_allowed(s: Seq<char>) -> Seq<char>
    decreases s.len(),
{
    if s.len() == 0 {
        Seq::empty()
    } else {
        keep_allowed(s.drop_last()) + (if is_allowed(s.last()) {
            seq![s.last()]
        } else {
            Seq::empty()
        })
    }
}

/// Every run of dashes replaced by a single dash.
pub open spec fn collapse_dashes(s: Seq<char>) -> Seq<char>
    decreases s.len(),
{
    if s.len() == 0 {
        Seq::empty()
    } else {
        collapse_dashes(s.drop_last()) + (if s.last() == '-' {
            if s.len() >= 2 && s[s.len() - 2] == '-' {
                Seq::empty()
            } else {
                seq!['-']
            }
        } else {
            seq![s.last()]
        })
    }
}

/// The slug of a text: camel-case words split, letters folded to lower
/// case, separator runs turned into dashes, `-&-` spelt out, characters
/// outside the slug alphabet dropped and dash runs collapsed.
pub open spec fn slug_of(s: Seq<char>) -> Seq<char> {
    collapse_dashes(keep_allowed(spell_amp(collapse_seps(lower_seq(camel_split(s))))))
}

/// Relies on `String` implementing `FromIterator<char>`: collecting an
/// iterator of characters yields the string of exactly those characters
/// in order.
#[verifier::external_body]
fn chars_to_string(v: &Vec<char>) -> (r: String)
    ensures
        r@ == v@,
{
    v.iter().collect()
}

/// The characters of a string slice.
fn str_chars(s: &str) -> (r: Vec<char>)
    ensures
        r@ == s@,
{
    let n = s.unicode_len();
    let mut out: Vec<char> = Vec::new();
    let mut i: usize = 0;
    while i < n
        invariant
            i <= n,
            n == s@.len(),
            out@ =~= s@.subrange(0, i as int),
        decreases n - i,
    {
        out.push(s.get_char(i));
        i += 1;
    }
    proof {
        assert(s@.subrange(0, n as int) =~= s@);
    }
    out
}

/// Stage one: split camel-case words with a dash.
fn camel_split_exec(s: &Vec<char>) -> (r: Vec<char>)
    ensures
        r@ == camel_split(s@),
{
    let mut out: Vec<char> = Vec::new();
    let mut i: usize = 0;
    while i < s.len()
        invariant
            i <= s@.len(),
            out@ == camel_split(s@.subrange(0, i as int)),
        decreases s@.len() - i,
    {
        let c = s[i];
        proof {
            let pre = s@.subrange(0, i as int + 1);
            assert(pre.drop_last() =~= s@.subrange(0, i as int));
            assert(pre.last() == s@[i as int]);
        }
        if i > 0 {
            let p = s[i - 1];
            if 'a' <= p && p <= 'z' && 'A' <= c && c <= 'Z' {
                out.push('-');
                out.push(c);
            } else {
                out.push(c);
            }
        } else {
            out.push(c);
            proof {
                assert(s@.subrange(0, 1) =~= Seq::<char>::empty().push(s@[0]));
                assert(camel_split(s@.subrange(0, 1)) =~= seq![s@[0]]);
            }
        }
        proof {
            assert(out@ =~= camel_split(s@.subrange(0, i as int + 1)));
        }
        i += 1;
    }
    proof {
        assert(s@.subrange(0, s@.len() as int) =~= s@);
    }
    out
}

/// Stage two: fold letters to lower case.
fn lower_exec(s: &Vec<char>) -> (r: Vec<char>)
    ensures
        r@ == lower_seq(s@),
{
    let mut out: Vec<char> = Vec::new();
    let mut i: usize = 0;
    while i < s.len()
        invariant
            i <= s@.len(),
            out@ == lower_seq(s@.subrange(0, i as int)),
        decreases s@.len() - i,
    {
        let c = s[i];
        if 'A' <= c && c <= 'Z' {
            out.push(((c as u8) + 32) as char);
        } else {
            out.push(c);
        }
        proof {
            assert(out@ =~= lower_seq(s@.subrange(0, i as int + 1)));
        }
        i += 1;
    }
    proof {
        assert(s@.subrange(0, s@.len() as int) =~= s@);
    }
    out
}

/// Whether the character is a separator.
fn is_sep_exec(c: char) -> (r: bool)
    ensures
        r == is_sep(c),
{
    c == ' ' || c == '\t' || c == '\n' || c == '\r' || c == '_' || c == '/' || c == '-'
}

/// Stage three: turn separator runs into single dashes.
fn collapse_seps_exec(s: &Vec<char>) -> (r: Vec<char>)
    ensures
        r@ == collapse_seps(s@),
{
    let mut out: Vec<char> = Vec::new();
    let mut i: usize = 0;
    while i < s.len()
        invariant
            i <= s@.len(),
            out@ == collapse_seps(s@.subrange(0, i as int)),
        decreases s@.len() - i,
    {
        let c = s[i];
        proof {
            let pre = s@.subrange(0, i as int + 1);
            assert(pre.drop_last() =~= s@.subrange(0, i as int));
            assert(pre.last() == s@[i as int]);
        }
        if is_sep_exec(c) {
            if i > 0 && is_sep_exec(s[i - 1]) {
                // still inside a separator run
            } else {
                out.push('-');
            }
        } else {
            out.push(c);
        }
        proof {
            assert(out@ =~= collapse_seps(s@.subrange(0, i as int + 1)));
        }
        i += 1;
    }
    proof {
        assert(s@.subrange(0, s@.len() as int) =~= s@);
    }
    out
}

/// Stage four: spell `-&-` out as `-and-`.
fn spell_amp_exec(s: &Vec<char>) -> (r: Vec<char>)
    ensures
        r@ == spell_amp(s@),
{
    let ghost n = s@.len() as int;
    let mut out: Vec<char> = Vec::new();
    let mut i: usize = 0;
    proof {
        assert(s@.subrange(0, n) =~= s@);
        assert(Seq::<char>::empty() + spell_amp(s@) =~= spell_amp(s@));
    }
    while i < s.len()
        invariant
            i <= s@.len(),
            n == s@.len(),
            spell_amp(s@) == out@ + spell_amp(s@.subrange(i as int, n)),
        decreases s@.len() - i,
    {
        let ghost suffix = s@.subrange(i as int, n);
        proof {
            assert(suffix.len() > 0);
            assert(suffix[0] == s@[i as int]);
        }
        if s.len() - i > 2 && s[i] == '-' && s[i + 1] == '&' && s[i + 2] == '-' {
            proof {
                assert(suffix[1] == s@[i as int + 1] && suffix[2] == s@[i as int + 2]);
                assert(suffix.skip(3) =~= s@.subrange(i as int + 3, n));
            }
            out.push('-');
            out.push('a');
            out.push('n');
            out.push('d');
            out.push('-');
            proof {
                assert(spell_amp(suffix) =~= seq!['-', 'a', 'n', 'd', '-'] + spell_amp(
                    s@.subrange(i as int + 3, n),
                ));
                assert(spell_amp(s@) =~= out@ + spell_amp(s@.subrange(i as int + 3, n)));
            }
            i += 3;
        } else {
            proof {
                assert(suffix.drop_first() =~= s@.subrange(i as int + 1, n));
                if suffix.len() >= 3 {
                    assert(suffix[1] == s@[i as int + 1] && suffix[2] == s@[i as int + 2]);
                }
                assert(spell_amp(suffix) =~= seq![s@[i as int]] + spell_amp(
                    s@.subrange(i as int + 1, n),
                ));
            }
            out.push(s[i]);
            proof {
                assert(spell_amp(s@) =~= out@ + spell_amp(s@.subrange(i as int + 1, n)));
            }
            i += 1;
        }
    }
    proof {
        assert(s@.subrange(n, n) =~= Seq::<char>::empty());
        assert(spell_amp(Seq::<char>::empty()) =~= Seq::<char>::empty());
        assert(out@ + Seq::<char>::empty() =~= out@);
    }
    out
}

/// Stage five: keep only the slug alphabet.
fn keep_allowed_exec(s: &Vec<char>) -> (r: Vec<char>)
    ensures
        r@ == keep_allowed(s@),
{
    let mut out: Vec<char> = Vec::new();
    let mut i: usize = 0;
    while i < s.len()
        invariant
            i <= s@.len(),
            out@ == keep_allowed(s@.subrange(0, i as int)),
        decreases s@.len() - i,
    {
        let c = s[i];
        proof {
            let pre = s@.subrange(0, i as int + 1);
            assert(pre.drop_last() =~= s@.subrange(0, i as int));
            assert(pre.last() == s@[i as int]);
        }
        if c == '-' || ('a' <= c && c <= 'z') || ('0' <= c && c <= '9') {
            out.push(c);
        }
        proof {
            assert(out@ =~= keep_allowed(s@.subrange(0, i as int + 1)));
        }
        i += 1;
    }
    proof {
        assert(s@.subrange(0, s@.len() as int) =~= s@);
    }
    out
}

/// Stage six: collapse dash runs.
fn collapse_dashes_exec(s: &Vec<char>) -> (r: Vec<char>)
    ensures
        r@ == collapse_dashes(s@),
{
    let mut out: Vec<char> = Vec::new();
    let mut i: usize = 0;
    while i < s.len()
        invariant
            i <= s@.len(),
            out@ == collapse_dashes(s@.subrange(0, i as int)),
        decreases s@.len() - i,
    {
        let c = s[i];
        proof {
            let pre = s@.subrange(0, i as int + 1);
            assert(pre.drop_last() =~= s@.subrange(0, i as int));
            assert(pre.last() == s@[i as int]);
        }
        if c == '-' {
            if i > 0 && s[i - 1] == '-' {
                // still inside a dash run
            } else {
                out.push('-');
            }
        } else {
            out.push(c);
        }
        proof {
            assert(out@ =~= collapse_dashes(s@.subrange(0, i as int + 1)));
        }
        i += 1;
    }
    proof {
        assert(s@.subrange(0, s@.len() as int) =~= s@);
    }
    out
}

/// The URL slug of a text: camel-case words split, letters folded to
/// lower case, separators and `&` normalised, everything outside the
/// slug alphabet dropped.
pub fn slugify(s: &str) -> (r: String)
    ensures
        r@ == slug_of(s@),
{
    let chars = str_chars(s);
    let a = camel_split_exec(&chars);
    let b = lower_exec(&a);
    let c = collapse_seps_exec(&b);
    let d = spell_amp_exec(&c);
    let e = keep_allowed_exec(&d);
    let f = collapse_dashes_exec(&e);
    chars_to_string(&f)
}

} // verus!
