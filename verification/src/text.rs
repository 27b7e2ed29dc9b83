//! Whitespace and trimming, as a model over sequences of characters, and the
//! one call that trims a string slice.

use vstd::prelude::*;
use vstd::utf8::encode_utf8;

verus! {

/// Whether `c` is a whitespace character: one of the 25 code points that
/// carry the Unicode property `White_Space`. The line feed and the carriage
/// return are among them.
pub open spec fn is_whitespace(c: char) -> bool {
    let u = c as u32;
    // tab, line feed, vertical tab, form feed, carriage return
    ||| 0x0009 <= u <= 0x000D
    // space
    ||| u == 0x0020
    // next line
    ||| u == 0x0085
    // no-break space
    ||| u == 0x00A0
    // ogham space mark
    ||| u == 0x1680
    // en quad to hair space
    ||| 0x2000 <= u <= 0x200A
    // line separator, paragraph separator
    ||| u == 0x2028
    ||| u == 0x2029
    // narrow no-break space
    ||| u == 0x202F
    // medium mathematical space
    ||| u == 0x205F
    // ideographic space
    ||| u == 0x3000
}

/// `s` without the whitespace it starts with.
pub open spec fn trim_start(s: Seq<char>) -> Seq<char>
    decreases s.len(),
{
    if s.len() > 0 && is_whitespace(s.first()) {
        trim_start(s.drop_first())
    } else {
        s
    }
}

/// `s` without the whitespace it ends with.
pub open spec fn trim_end(s: Seq<char>) -> Seq<char>
    decreases s.len(),
{
    if s.len() > 0 && is_whitespace(s.last()) {
        trim_end(s.drop_last())
    } else {
        s
    }
}

/// `s` without leading and trailing whitespace. Whitespace between two other
/// characters stays.
pub open spec fn trimmed(s: Seq<char>) -> Seq<char> {
    trim_end(trim_start(s))
}

/// Whether every character of `s` is whitespace.
pub open spec fn all_whitespace(s: Seq<char>) -> bool {
    forall|i: int| 0 <= i < s.len() ==> is_whitespace(#[trigger] s[i])
}

/// Calls `str::trim` of the standard library. Not verified: the contract
/// restates its documentation, which promises the slice with leading and
/// trailing whitespace removed, whitespace being the characters with the
/// Unicode property `White_Space`.
#[verifier::external_body]
pub(crate) fn trim(line: &str) -> (name: &str)
    ensures
        name@ == trimmed(line@),
{
    line.trim()
}

/// `trim_start` cuts a prefix of whitespace off, and what is left does not
/// start with whitespace.
pub proof fn lemma_trim_start(s: Seq<char>)
    ensures
        trim_start(s).len() <= s.len(),
        trim_start(s) == s.skip(s.len() - trim_start(s).len()),
        all_whitespace(s.take(s.len() - trim_start(s).len())),
        trim_start(s).len() > 0 ==> !is_whitespace(trim_start(s).first()),
    decreases s.len(),
{
    if s.len() > 0 && is_whitespace(s.first()) {
        let rest = s.drop_first();
        lemma_trim_start(rest);
        let cut = s.len() - trim_start(s).len();
        assert(rest.skip(cut - 1) =~= s.skip(cut));
        assert forall|i: int| 0 <= i < cut implies is_whitespace(#[trigger] s.take(cut)[i]) by {
            if i > 0 {
                assert(s.take(cut)[i] == rest.take(cut - 1)[i - 1]);
            }
        }
    } else {
        assert(s.skip(0) =~= s);
    }
}

/// `trim_end` cuts a suffix of whitespace off, and what is left does not end
/// with whitespace.
pub proof fn lemma_trim_end(s: Seq<char>)
    ensures
        trim_end(s).len() <= s.len(),
        trim_end(s) == s.take(trim_end(s).len() as int),
        all_whitespace(s.skip(trim_end(s).len() as int)),
        trim_end(s).len() > 0 ==> !is_whitespace(trim_end(s).last()),
    decreases s.len(),
{
    if s.len() > 0 && is_whitespace(s.last()) {
        let rest = s.drop_last();
        lemma_trim_end(rest);
        let kept = trim_end(s).len() as int;
        assert(rest.take(kept) =~= s.take(kept));
        assert forall|i: int| 0 <= i < s.len() - kept implies is_whitespace(
            #[trigger] s.skip(kept)[i],
        ) by {
            if i < s.len() - kept - 1 {
                assert(s.skip(kept)[i] == rest.skip(kept)[i]);
            }
        }
    } else {
        assert(s.take(s.len() as int) =~= s);
    }
}

/// What trimming does: `trimmed(s)` is one stretch of `s`, all that stands
/// before and after it is whitespace, and it neither starts nor ends with
/// whitespace.
pub proof fn lemma_trimmed(s: Seq<char>)
    ensures
        ({
            let from = s.len() - trim_start(s).len();
            let to = from + trimmed(s).len();
            &&& 0 <= from <= to <= s.len()
            &&& trimmed(s) == s.subrange(from, to)
            &&& all_whitespace(s.take(from))
            &&& all_whitespace(s.skip(to))
            &&& trimmed(s).len() > 0 ==> !is_whitespace(trimmed(s).first()) && !is_whitespace(
                trimmed(s).last(),
            )
        }),
{
    let front = trim_start(s);
    lemma_trim_start(s);
    lemma_trim_end(front);
    let from = s.len() - front.len();
    let to = from + trimmed(s).len();
    assert(trimmed(s) =~= s.subrange(from, to));
    assert forall|i: int| 0 <= i < s.len() - to implies is_whitespace(#[trigger] s.skip(to)[i]) by {
        assert(s.skip(to)[i] == front.skip(trimmed(s).len() as int)[i]);
    }
    if trimmed(s).len() > 0 {
        assert(trimmed(s).first() == front.first());
    }
}

/// The UTF-8 bytes of two sequences of characters, one after the other, are
/// the bytes of the first and then the bytes of the second.
pub proof fn lemma_encode_utf8_concat(a: Seq<char>, b: Seq<char>)
    ensures
        encode_utf8(a + b) == encode_utf8(a) + encode_utf8(b),
    decreases a.len(),
{
    if a.len() == 0 {
        assert(a + b =~= b);
    } else {
        lemma_encode_utf8_concat(a.drop_first(), b);
        assert((a + b).drop_first() =~= a.drop_first() + b);
    }
}

/// Trimming never adds a byte: the trimmed text takes no more bytes in UTF-8
/// than the text itself.
pub proof fn lemma_trimmed_takes_no_more_bytes(s: Seq<char>)
    ensures
        encode_utf8(trimmed(s)).len() <= encode_utf8(s).len(),
{
    lemma_trimmed(s);
    let from = s.len() - trim_start(s).len();
    let to = from + trimmed(s).len();
    assert(s =~= s.take(from) + trimmed(s) + s.skip(to));
    lemma_encode_utf8_concat(s.take(from) + trimmed(s), s.skip(to));
    lemma_encode_utf8_concat(s.take(from), trimmed(s));
}

} // verus!
