//! Text as the recognizer hands it over: whitespace stripping and substring
//! search, over the characters of a string.

use vstd::prelude::*;
use vstd::string::*;

verus! {

/// Unicode's White_Space property.
pub open spec fn is_white_space(c: char) -> bool {
    let u = c as u32;
    (0x09 <= u <= 0x0D) || u == 0x20 || u == 0x85 || u == 0xA0 || u == 0x1680 || (0x2000 <= u
        <= 0x200A) || u == 0x2028 || u == 0x2029 || u == 0x202F || u == 0x205F || u == 0x3000
}

/// Relies on `char::is_whitespace`: true exactly for the characters with
/// Unicode's White_Space property.
#[verifier::external_body]
fn char_is_white_space(c: char) -> (r: bool)
    ensures
        r == is_white_space(c),
{
    c.is_whitespace()
}

/// `s` with every whitespace character removed.
pub open spec fn strip_white(s: Seq<char>) -> Seq<char>
    decreases s.len(),
{
    if s.len() == 0 {
        s
    } else {
        let rest = strip_white(s.drop_last());
        if is_white_space(s.last()) {
            rest
        } else {
            rest.push(s.last())
        }
    }
}

/// Whether `needle` occurs in `hay` as a contiguous run.
pub open spec fn contains_seq(hay: Seq<char>, needle: Seq<char>) -> bool {
    exists|i: int|
        0 <= i && i + needle.len() <= hay.len() && #[trigger] hay.subrange(i, i + needle.len())
            == needle
}

/// The characters of `s`.
pub fn chars_of(s: &str) -> (r: Vec<char>)
    ensures
        r@ == s@,
{
    let n = s.unicode_len();
    let mut r: Vec<char> = Vec::new();
    let mut i: usize = 0;
    while i < n
        invariant
            n == s@.len(),
            i <= n,
            r@ == s@.take(i as int),
        decreases n - i,
    {
        let c = s.get_char(i);
        r.push(c);
        assert(r@ =~= s@.take(i as int + 1));
        i = i + 1;
    }
    assert(r@ =~= s@);
    r
}

/// The characters of `s` that are not whitespace.
pub fn strip_white_chars(s: &str) -> (r: Vec<char>)
    ensures
        r@ == strip_white(s@),
{
    let cs = chars_of(s);
    let mut r: Vec<char> = Vec::new();
    let mut i: usize = 0;
    while i < cs.len()
        invariant
            cs@ == s@,
            i <= cs.len(),
            r@ == strip_white(cs@.take(i as int)),
        decreases cs.len() - i,
    {
        let c = cs[i];
        assert(cs@.take(i as int + 1).drop_last() =~= cs@.take(i as int));
        assert(cs@.take(i as int + 1).last() == c);
        if !char_is_white_space(c) {
            r.push(c);
        }
        i = i + 1;
    }
    assert(cs@.take(i as int) =~= cs@);
    r
}

/// Whether `needle` occurs in `hay`.
pub fn contains_chars(hay: &Vec<char>, needle: &Vec<char>) -> (r: bool)
    ensures
        r == contains_seq(hay@, needle@),
{
    let n = needle.len();
    if n == 0 {
        assert(hay@.subrange(0int, 0int + needle@.len()) =~= needle@);
        return true;
    }
    if n > hay.len() {
        return false;
    }
    let hl = hay.len();
    let last = hl - n;
    let mut i: usize = 0;
    while i <= last
        invariant
            n == needle@.len(),
            n > 0,
            last + n == hl,
            hl == hay@.len(),
            forall|k: int| 0 <= k < i ==> #[trigger] hay@.subrange(k, k + n) != needle@,
        decreases last + 1 - i,
    {
        let mut j: usize = 0;
        while j < n && hay[i + j] == needle[j]
            invariant
                j <= n,
                i <= last,
                n == needle@.len(),
                last + n == hl,
                hl == hay@.len(),
                forall|m: int| 0 <= m < j ==> hay@[i + m] == needle@[m],
            decreases n - j,
        {
            j = j + 1;
        }
        if j == n {
            assert(hay@.subrange(i as int, i + n) =~= needle@);
            return true;
        }
        assert(hay@.subrange(i as int, i + n)[j as int] != needle@[j as int]);
        i = i + 1;
    }
    assert forall|k: int| 0 <= k && k + needle@.len() <= hay@.len() implies #[trigger] hay@.subrange(
        k,
        k + needle@.len(),
    ) != needle@ by {
        assert(k < i);
    }
    false
}

/// Whether recognized text `ocr`, whitespace removed, contains `expected`.
pub fn text_matches(ocr: &str, expected: &str) -> (r: bool)
    ensures
        r == contains_seq(strip_white(ocr@), expected@),
{
    let hay = strip_white_chars(ocr);
    let needle = chars_of(expected);
    contains_chars(&hay, &needle)
}

/// Stripping whitespace from a concatenation strips each part.
pub proof fn lemma_strip_concat(a: Seq<char>, b: Seq<char>)
    ensures
        strip_white(a + b) == strip_white(a) + strip_white(b),
    decreases b.len(),
{
    if b.len() == 0 {
        assert(a + b =~= a);
        assert(strip_white(a) + strip_white(b) =~= strip_white(a));
    } else {
        lemma_strip_concat(a, b.drop_last());
        assert((a + b).drop_last() =~= a + b.drop_last());
        assert((a + b).last() == b.last());
        if !is_white_space(b.last()) {
            assert(strip_white(a) + strip_white(b.drop_last()).push(b.last()) =~= (strip_white(a)
                + strip_white(b.drop_last())).push(b.last()));
        }
    }
}

/// Text matching does not see whitespace: a whitespace character anywhere in
/// the recognized text changes nothing.
pub proof fn lemma_text_match_ignores_white_space(
    before: Seq<char>,
    after: Seq<char>,
    w: char,
    expected: Seq<char>,
)
    requires
        is_white_space(w),
    ensures
        contains_seq(strip_white(before + seq![w] + after), expected) == contains_seq(
            strip_white(before + after),
            expected,
        ),
{
    lemma_strip_concat(before + seq![w], after);
    lemma_strip_concat(before, seq![w]);
    lemma_strip_concat(before, after);
    assert(seq![w].drop_last() =~= Seq::<char>::empty());
    assert(strip_white(Seq::<char>::empty()) =~= Seq::<char>::empty());
    assert(strip_white(seq![w]) =~= Seq::<char>::empty());
    assert(strip_white(before + seq![w]) =~= strip_white(before));
}

} // verus!
