//! Text primitives: comparing two texts, and trimming white space off both
//! ends of one.

use vstd::prelude::*;
use vstd::string::StringSliceAdditionalSpecFns;
use vstd::utf8::{encode_utf8, encode_utf8_decode_utf8};

verus! {

/// Whether `c` counts as white space: what `char::is_whitespace` answers for
/// it, which std documents as the Unicode property `White_Space`.
pub uninterp spec fn is_white_space(c: char) -> bool;

/// `char::is_whitespace` depends on the character alone; its answer is the
/// one that [`is_white_space`] names.
pub assume_specification[ char::is_whitespace ](c: char) -> (b: bool)
    ensures
        b == is_white_space(c),
;

/// `String::push` appends the character to the end of the text.
pub assume_specification[ String::push ](text: &mut String, c: char)
    ensures
        final(text)@ == old(text)@.push(c),
;

/// `s` without its leading white space.
pub open spec fn trim_start(s: Seq<char>) -> Seq<char>
    decreases s.len(),
{
    if s.len() > 0 && is_white_space(s.first()) {
        trim_start(s.drop_first())
    } else {
        s
    }
}

/// `s` without its trailing white space.
pub open spec fn trim_end(s: Seq<char>) -> Seq<char>
    decreases s.len(),
{
    if s.len() > 0 && is_white_space(s.last()) {
        trim_end(s.drop_last())
    } else {
        s
    }
}

/// `s` without its leading and trailing white space.
pub open spec fn trimmed(s: Seq<char>) -> Seq<char> {
    trim_end(trim_start(s))
}

/// Whether every character of `s` is white space.
pub open spec fn is_blank(s: Seq<char>) -> bool {
    forall|j: int| 0 <= j < s.len() ==> is_white_space(#[trigger] s[j])
}

/// Leading white space ends at the first character that is none.
pub proof fn lemma_trim_start_skips(s: Seq<char>, k: int)
    requires
        0 <= k <= s.len(),
        forall|j: int| 0 <= j < k ==> is_white_space(#[trigger] s[j]),
        k < s.len() ==> !is_white_space(s[k]),
    ensures
        trim_start(s) == s.skip(k),
    decreases k,
{
    if k == 0 {
        assert(s.skip(0) =~= s);
    } else {
        let rest = s.drop_first();
        assert forall|j: int| 0 <= j < k - 1 implies is_white_space(#[trigger] rest[j]) by {
            assert(rest[j] == s[j + 1]);
        }
        lemma_trim_start_skips(rest, k - 1);
        assert(rest.skip(k - 1) =~= s.skip(k));
    }
}

/// Trailing white space begins after the last character that is none.
pub proof fn lemma_trim_end_takes(s: Seq<char>, m: int)
    requires
        0 <= m <= s.len(),
        forall|j: int| m <= j < s.len() ==> is_white_space(#[trigger] s[j]),
        0 < m ==> !is_white_space(s[m - 1]),
    ensures
        trim_end(s) == s.take(m),
    decreases s.len() - m,
{
    if m == s.len() {
        assert(s.take(m) =~= s);
    } else {
        let rest = s.drop_last();
        lemma_trim_end_takes(rest, m);
        assert(rest.take(m) =~= s.take(m));
    }
}

/// Trimming the start leaves nothing of a blank text, and only of a blank
/// text; and what it leaves of a text that is not blank is not blank.
pub proof fn lemma_trim_start_of_blank(s: Seq<char>)
    ensures
        trim_start(s).len() == 0 <==> is_blank(s),
        is_blank(trim_start(s)) <==> is_blank(s),
    decreases s.len(),
{
    if s.len() > 0 && is_white_space(s.first()) {
        let rest = s.drop_first();
        lemma_trim_start_of_blank(rest);
        if is_blank(rest) {
            assert forall|j: int| 0 <= j < s.len() implies is_white_space(#[trigger] s[j]) by {
                if j > 0 {
                    assert(s[j] == rest[j - 1]);
                }
            }
        }
        if is_blank(s) {
            assert forall|j: int| 0 <= j < rest.len() implies is_white_space(
                #[trigger] rest[j],
            ) by {
                assert(rest[j] == s[j + 1]);
            }
        }
    } else if s.len() > 0 {
        assert(!is_white_space(s[0]));
    }
}

/// Trimming the end leaves nothing of a blank text, and only of a blank
/// text.
pub proof fn lemma_trim_end_of_blank(s: Seq<char>)
    ensures
        trim_end(s).len() == 0 <==> is_blank(s),
    decreases s.len(),
{
    if s.len() > 0 && is_white_space(s.last()) {
        let rest = s.drop_last();
        lemma_trim_end_of_blank(rest);
        if is_blank(rest) {
            assert forall|j: int| 0 <= j < s.len() implies is_white_space(#[trigger] s[j]) by {
                if j < rest.len() {
                    assert(s[j] == rest[j]);
                }
            }
        }
        if is_blank(s) {
            assert forall|j: int| 0 <= j < rest.len() implies is_white_space(
                #[trigger] rest[j],
            ) by {
                assert(rest[j] == s[j]);
            }
        }
    } else if s.len() > 0 {
        assert(!is_white_space(s[s.len() - 1]));
    }
}

/// Trimming leaves nothing of a text exactly if the text is blank.
pub proof fn lemma_blank_trims_to_nothing(s: Seq<char>)
    ensures
        trimmed(s).len() == 0 <==> is_blank(s),
{
    lemma_trim_start_of_blank(s);
    lemma_trim_end_of_blank(trim_start(s));
}

/// A text has at most as many characters as its encoding has bytes.
pub proof fn lemma_encoding_is_no_shorter(s: Seq<char>)
    ensures
        s.len() <= encode_utf8(s).len(),
    decreases s.len(),
{
    if s.len() > 0 {
        lemma_encoding_is_no_shorter(s.drop_first());
    }
}

/// Whether the two texts hold the same characters.
pub fn text_equals(a: &str, b: &str) -> (same: bool)
    ensures
        same == (a@ == b@),
{
    let x = a.as_bytes();
    let y = b.as_bytes();
    if x.len() != y.len() {
        return false;
    }
    let mut i: usize = 0;
    while i < x.len()
        invariant
            i <= x@.len(),
            x@.len() == y@.len(),
            x@ == a.spec_bytes(),
            y@ == b.spec_bytes(),
            forall|j: int| 0 <= j < i ==> x@[j] == y@[j],
        decreases x@.len() - i,
    {
        if x[i] != y[i] {
            return false;
        }
        i = i + 1;
    }
    proof {
        assert(x@ =~= y@);
        encode_utf8_decode_utf8(a@);
        encode_utf8_decode_utf8(b@);
    }
    true
}

/// A copy of the texts from position `from` on, in order.
pub(crate) fn copy_texts(texts: &Vec<String>, from: usize) -> (copies: Vec<String>)
    requires
        from <= texts.len(),
    ensures
        copies.deep_view() == texts.deep_view().skip(from as int),
{
    let ghost all = texts.deep_view();
    let count: usize = texts.len();
    let mut copies: Vec<String> = Vec::new();
    let mut i: usize = from;
    assert(copies.deep_view() =~= all.subrange(from as int, from as int));
    while i < count
        invariant
            from <= i <= count,
            count == texts.len(),
            all == texts.deep_view(),
            copies.deep_view() == all.subrange(from as int, i as int),
        decreases count - i,
    {
        let ghost copied = copies.deep_view();
        copies.push(texts[i].clone());
        assert(all[i as int] == texts[i as int]@);
        assert(copies.deep_view() =~= copied.push(all[i as int]));
        assert(copied.push(all[i as int]) =~= all.subrange(from as int, i + 1));
        i = i + 1;
    }
    assert(all.subrange(from as int, count as int) =~= all.skip(from as int));
    copies
}

/// The text without the white space at its two ends.
pub fn trim(line: &str) -> (inner: &str)
    ensures
        inner@ == trimmed(line@),
{
    let byte_count: usize = line.as_bytes().len();
    proof {
        lemma_encoding_is_no_shorter(line@);
    }
    // `start..end` spans from the first to the last character seen so far
    // that is no white space; while none has been seen, both stand at `i`.
    let mut start: usize = 0;
    let mut end: usize = 0;
    let mut i: usize = 0;
    let chars = line.chars();
    for c in it: chars
        invariant
            it.seq() == line@,
            line@.len() <= byte_count,
            i == it.index(),
            start <= end <= i,
            forall|j: int| 0 <= j < start ==> is_white_space(#[trigger] line@[j]),
            forall|j: int| end <= j < i ==> is_white_space(#[trigger] line@[j]),
            start < end ==> !is_white_space(line@[start as int]) && !is_white_space(
                line@[end - 1],
            ),
            start == end ==> end == i,
    {
        if !c.is_whitespace() {
            if start == end {
                start = i;
            }
            end = i + 1;
        } else if start == end {
            start = i + 1;
            end = i + 1;
        }
        i = i + 1;
    }
    proof {
        let s = line@;
        lemma_trim_start_skips(s, start as int);
        lemma_trim_end_takes(s.skip(start as int), end - start);
        assert(s.skip(start as int).take(end - start) =~= s.subrange(start as int, end as int));
    }
    line.substring_char(start, end)
}

} // verus!
