//! Deterministic slug derivation.
//!
//! A slug is derived from an article title by lowering ASCII letters and
//! collapsing every run of other characters into a single hyphen, with no
//! hyphen at either end. `slug_of` is the mathematical definition;
//! `slugify` computes it, and `lemma_slug_of_wf` proves that every slug is
//! well formed: only `a-z`, `0-9` and `-`, with no leading, trailing or
//! doubled hyphen.

use vstd::prelude::*;

verus! {

/// A character that may stand in a slug besides the hyphen:
/// a lower-case ASCII letter or an ASCII digit.
pub open spec fn is_slug_alnum(c: char) -> bool {
    (97 <= c as u32 && c as u32 <= 122) || (48 <= c as u32 && c as u32 <= 57)
}

/// ASCII upper-case letters are lowered; every other character is kept.
pub open spec fn lower(c: char) -> char {
    if 65 <= c as u32 && c as u32 <= 90 {
        ((c as u8) + 32) as char
    } else {
        c
    }
}

/// One step of slug building: a (lowered) letter or digit is appended;
/// any other character appends a single hyphen, but only after some
/// output and never directly after another hyphen.
pub open spec fn slug_step(acc: Seq<char>, c: char) -> Seq<char> {
    let d = lower(c);
    if is_slug_alnum(d) {
        acc.push(d)
    } else if acc.len() > 0 && acc.last() != '-' {
        acc.push('-')
    } else {
        acc
    }
}

/// The slug-building fold over the whole title, before trimming.
pub open spec fn slug_fold(t: Seq<char>) -> Seq<char>
    decreases t.len(),
{
    if t.len() == 0 {
        Seq::empty()
    } else {
        slug_step(slug_fold(t.drop_last()), t.last())
    }
}

/// The slug of a title: the fold, with a trailing hyphen trimmed.
pub open spec fn slug_of(t: Seq<char>) -> Seq<char> {
    let s = slug_fold(t);
    if s.len() > 0 && s.last() == '-' {
        s.drop_last()
    } else {
        s
    }
}

/// Well-formedness that `slug_fold` maintains: only slug characters, no
/// leading hyphen, no two hyphens in a row.
pub open spec fn slug_wf_partial(s: Seq<char>) -> bool {
    &&& forall|i: int| 0 <= i < s.len() ==> is_slug_alnum(#[trigger] s[i]) || s[i] == '-'
    &&& s.len() > 0 ==> s[0] != '-'
    &&& forall|i: int| 0 <= i < s.len() - 1 ==> !(#[trigger] s[i] == '-' && s[i + 1] == '-')
}

/// Full slug well-formedness: additionally no trailing hyphen.
pub open spec fn slug_wf(s: Seq<char>) -> bool {
    &&& slug_wf_partial(s)
    &&& s.len() > 0 ==> s.last() != '-'
}

/// The characters of a byte sequence, read as ASCII.
pub open spec fn bytes_as_chars(s: Seq<u8>) -> Seq<char> {
    s.map_values(|b: u8| b as char)
}

/// Relies on `String::from_utf8` of std: a sequence of ASCII bytes is valid
/// UTF-8 and decodes to the characters with the same code points.
#[verifier::external_body]
fn ascii_to_string(bytes: Vec<u8>) -> (r: String)
    requires
        forall|i: int| 0 <= i < bytes@.len() ==> bytes@[i] < 128,
    ensures
        r@ == bytes_as_chars(bytes@),
{
    String::from_utf8(bytes).unwrap_or_default()
}

proof fn lemma_bytes_as_chars_push(s: Seq<u8>, b: u8)
    ensures
        bytes_as_chars(s.push(b)) == bytes_as_chars(s).push(b as char),
{
    assert(bytes_as_chars(s.push(b)) =~= bytes_as_chars(s).push(b as char));
}

/// Computes the slug of a title.
///
/// The result is fully determined by the title: equal titles always give
/// equal slugs.
pub fn slugify(title: &str) -> (r: String)
    ensures
        r@ == slug_of(title@),
{
    let n = title.unicode_len();
    let mut out: Vec<u8> = Vec::new();
    let mut i: usize = 0;
    while i < n
        invariant
            n == title@.len(),
            i <= n,
            bytes_as_chars(out@) == slug_fold(title@.take(i as int)),
            forall|k: int| 0 <= k < out@.len() ==> out@[k] < 128,
        decreases n - i,
    {
        let c = title.get_char(i);
        let u: u32 = c as u32;
        proof {
            assert(title@.take(i + 1).drop_last() =~= title@.take(i as int));
            assert(title@.take(i + 1).last() == title@[i as int]);
        }
        let ghost prev = out@;
        if (97 <= u && u <= 122) || (48 <= u && u <= 57) {
            out.push(u as u8);
            proof {
                assert((u as u8) as char == c);
                lemma_bytes_as_chars_push(prev, u as u8);
            }
        } else if 65 <= u && u <= 90 {
            out.push((u + 32) as u8);
            proof {
                assert(((u + 32) as u8) as char == lower(c));
                lemma_bytes_as_chars_push(prev, (u + 32) as u8);
            }
        } else {
            proof {
                assert(!is_slug_alnum(lower(c)));
            }
            if out.len() > 0 && out[out.len() - 1] != 45 {
                out.push(45);
                proof {
                    assert(45u8 as char == '-');
                    lemma_bytes_as_chars_push(prev, 45u8);
                }
            } else {
                proof {
                    if out@.len() > 0 {
                        assert(bytes_as_chars(prev).last() == '-');
                    }
                }
            }
        }
        i = i + 1;
    }
    proof {
        assert(title@.take(n as int) =~= title@);
    }
    if out.len() > 0 && out[out.len() - 1] == 45 {
        let ghost prev = out@;
        let _trimmed = out.pop();
        proof {
            assert(bytes_as_chars(prev).last() == '-');
            assert(bytes_as_chars(out@) =~= bytes_as_chars(prev).drop_last());
        }
    }
    ascii_to_string(out)
}

/// The fold keeps its output partially well formed at every step.
pub proof fn lemma_slug_fold_wf(t: Seq<char>)
    ensures
        slug_wf_partial(slug_fold(t)),
    decreases t.len(),
{
    if t.len() == 0 {
    } else {
        lemma_slug_fold_wf(t.drop_last());
    }
}

/// Every slug is well formed: it holds only `a-z`, `0-9` and `-`, and has
/// no leading, trailing or doubled hyphen.
pub proof fn lemma_slug_of_wf(t: Seq<char>)
    ensures
        slug_wf(slug_of(t)),
{
    lemma_slug_fold_wf(t);
    let s = slug_fold(t);
    if s.len() > 0 && s.last() == '-' {
        let d = s.drop_last();
        assert(forall|i: int| 0 <= i < d.len() ==> d[i] == s[i]);
        if d.len() > 0 {
            assert(!(s[d.len() as int - 1] == '-' && s[d.len() as int] == '-'));
        }
    }
}

} // verus!
