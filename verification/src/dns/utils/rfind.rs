//! Searching a string from its end for the n-th occurrence of a character.
use vstd::prelude::*;

use vstd::utf8::encode_utf8;

use super::text::{byte_offset, byte_offset_of, chars_of, count_char, lemma_byte_offset_step};

verus! {

/// Character index of the occurrence of `c` in `s` that has exactly `n` further
/// occurrences after it (the `n`-th occurrence counted from the end, from zero),
/// or `None` when `s` holds at most `n` occurrences of `c`.
pub open spec fn rfind_nth_index(s: Seq<char>, c: char, n: nat) -> Option<int>
    decreases s.len(),
{
    if s.len() == 0 {
        None
    } else if s.last() == c {
        if n == 0 {
            Some(s.len() - 1)
        } else {
            rfind_nth_index(s.drop_last(), c, (n - 1) as nat)
        }
    } else {
        rfind_nth_index(s.drop_last(), c, n)
    }
}

/// What `str::rfind_nth` returns: the byte offset of that occurrence.
pub open spec fn rfind_nth_offset(s: Seq<char>, c: char, n: nat) -> Option<usize> {
    match rfind_nth_index(s, c, n) {
        Some(k) => Some(byte_offset(s, k) as usize),
        None => None,
    }
}

/// Counting occurrences of `c` over a sequence split at `k`.
pub proof fn lemma_count_char_split(s: Seq<char>, c: char, k: int)
    requires
        0 <= k <= s.len(),
    ensures
        count_char(s, c) == count_char(s.take(k), c) + count_char(s.skip(k), c),
    decreases s.len() - k,
{
    if k == s.len() {
        assert(s.take(k) =~= s);
        assert(s.skip(k) =~= Seq::<char>::empty());
    } else {
        let t = s.skip(k);
        lemma_count_char_split(s, c, k + 1);
        assert(s.take(k + 1).drop_last() =~= s.take(k));
        assert(s.take(k + 1).last() == s[k]);
        lemma_count_char_first(t, c);
        assert(t.drop_first() =~= s.skip(k + 1));
    }
}

/// Counting occurrences of `c` from the front of a non-empty sequence.
pub proof fn lemma_count_char_first(s: Seq<char>, c: char)
    requires
        s.len() > 0,
    ensures
        count_char(s, c) == count_char(s.drop_first(), c) + if s[0] == c { 1nat } else { 0nat },
    decreases s.len(),
{
    if s.len() == 1 {
        assert(s.drop_last() =~= Seq::<char>::empty());
        assert(s.drop_first() =~= Seq::<char>::empty());
    } else {
        lemma_count_char_first(s.drop_last(), c);
        assert(s.drop_last().drop_first() =~= s.drop_first().drop_last());
        assert(s.drop_first().last() == s.last());
    }
}

/// The index found by `rfind_nth_index` is an occurrence of `c` followed by exactly
/// `n` further occurrences; there is none exactly when `s` holds at most `n` of them.
pub proof fn lemma_rfind_nth_index(s: Seq<char>, c: char, n: nat)
    ensures
        match rfind_nth_index(s, c, n) {
            Some(k) => 0 <= k < s.len() && s[k] == c && count_char(s.skip(k + 1), c) == n,
            None => count_char(s, c) <= n,
        },
    decreases s.len(),
{
    if s.len() > 0 {
        let p = s.drop_last();
        if s.last() == c && n == 0 {
            let k = s.len() - 1;
            assert(s.skip(k + 1) =~= Seq::<char>::empty());
        } else {
            let m: nat = if s.last() == c { (n - 1) as nat } else { n };
            lemma_rfind_nth_index(p, c, m);
            match rfind_nth_index(p, c, m) {
                Some(k) => {
                    let t = s.skip(k + 1);
                    assert(t.drop_last() =~= p.skip(k + 1));
                    assert(t.last() == s.last());
                },
                None => {},
            }
        }
    }
}

/// There is no such occurrence exactly when `s` holds at most `n` occurrences of `c`.
pub proof fn lemma_rfind_nth_none_iff(s: Seq<char>, c: char, n: nat)
    ensures
        rfind_nth_index(s, c, n) is None <==> count_char(s, c) <= n,
    decreases s.len(),
{
    lemma_rfind_nth_index(s, c, n);
    if let Some(k) = rfind_nth_index(s, c, n) {
        lemma_count_char_split(s, c, k + 1);
        lemma_count_char_split(s.take(k + 1), c, k);
        assert(s.take(k + 1).skip(k) =~= seq![c]);
        assert(seq![c].drop_last() =~= Seq::<char>::empty());
        assert(count_char(seq![c], c) == 1);
    }
}

/// Counting one more occurrence from the end moves further left: the occurrence with
/// `n + 1` later ones lies strictly before the one with `n`, and when there is none with
/// `n` later ones there is none with `n + 1` either.
pub proof fn lemma_rfind_nth_index_monotone(s: Seq<char>, c: char, n: nat)
    ensures
        rfind_nth_index(s, c, n + 1) matches Some(j) ==> (rfind_nth_index(s, c, n) matches Some(i) && j < i),
        rfind_nth_index(s, c, n) is None ==> rfind_nth_index(s, c, n + 1) is None,
    decreases s.len(),
{
    if s.len() > 0 {
        let p = s.drop_last();
        if s.last() == c {
            if n == 0 {
                lemma_rfind_nth_index(p, c, 0);
            } else {
                lemma_rfind_nth_index_monotone(p, c, (n - 1) as nat);
            }
        } else {
            lemma_rfind_nth_index_monotone(p, c, n);
        }
    }
}

/// Byte offsets grow strictly with the character index, and stay within the encoding.
pub proof fn lemma_byte_offset_increasing(s: Seq<char>, j: int, i: int)
    requires
        0 <= j < i <= s.len(),
    ensures
        byte_offset(s, j) < byte_offset(s, i),
        byte_offset(s, i) <= encode_utf8(s).len(),
    decreases i - j,
{
    lemma_byte_offset_step(s, i - 1);
    if j < i - 1 {
        lemma_byte_offset_increasing(s, j, i - 1);
    }
}

/// `rfind_nth` is monotone in `n`: the offset found for `n + 1` is smaller than the one
/// found for `n`, and when nothing is found for `n`, nothing is found for `n + 1`.
pub proof fn lemma_rfind_nth_offset_monotone(s: Seq<char>, c: char, n: nat)
    requires
        encode_utf8(s).len() <= usize::MAX,
    ensures
        rfind_nth_offset(s, c, n + 1) matches Some(bj) ==> (rfind_nth_offset(s, c, n) matches Some(bi)
            && bj < bi),
        rfind_nth_offset(s, c, n) is None ==> rfind_nth_offset(s, c, n + 1) is None,
{
    lemma_rfind_nth_index_monotone(s, c, n);
    lemma_rfind_nth_index(s, c, n);
    lemma_rfind_nth_index(s, c, n + 1);
    if let Some(j) = rfind_nth_index(s, c, n + 1) {
        let i = rfind_nth_index(s, c, n).unwrap();
        lemma_byte_offset_increasing(s, j, i);
        lemma_byte_offset_increasing(s, i, i + 1);
    }
}

/// `k` is the index of the last occurrence of `c` in `s`.
pub open spec fn is_last_occurrence(s: Seq<char>, c: char, k: int) -> bool {
    &&& 0 <= k < s.len()
    &&& s[k] == c
    &&& forall|j: int| k < j < s.len() ==> s[j] != c
}

/// With `n == 0` the search finds what `str::rfind` documents: the last occurrence of the
/// character, at the byte offset of that character; `None` exactly when the character
/// does not occur.
pub proof fn lemma_rfind_nth_zero_is_last(s: Seq<char>, c: char)
    ensures
        rfind_nth_index(s, c, 0) matches Some(k) ==> is_last_occurrence(s, c, k)
            && rfind_nth_offset(s, c, 0) == Some(byte_offset(s, k) as usize),
        rfind_nth_index(s, c, 0) is None <==> forall|j: int| 0 <= j < s.len() ==> s[j] != c,
    decreases s.len(),
{
    if s.len() > 0 && s.last() != c {
        let p = s.drop_last();
        lemma_rfind_nth_zero_is_last(p, c);
        assert forall|j: int| 0 <= j < p.len() implies p[j] == s[j] by {}
    }
}

/// Search from the end of a string for an occurrence of a character.
pub trait RFindNth {
    /// Byte offset of the `n`-th occurrence of `needle` counted from the end
    /// (`n == 0` is the last one), or `None` when there are not that many.
    fn rfind_nth(&self, needle: char, n: usize) -> Option<usize>;
}

/// Character index of the `n`-th occurrence of `needle` from the end of `chars`.
pub fn rfind_nth_char(chars: &Vec<char>, needle: char, n: usize) -> (r: Option<usize>)
    ensures
        match r {
            Some(k) => rfind_nth_index(chars@, needle, n as nat) == Some(k as int),
            None => rfind_nth_index(chars@, needle, n as nat) is None,
        },
{
    let ghost s = chars@;
    let mut i: usize = chars.len();
    let mut left: usize = n;
    assert(s.take(i as int) =~= s);
    while i > 0
        invariant
            s == chars@,
            i <= s.len(),
            rfind_nth_index(s, needle, n as nat) == rfind_nth_index(s.take(i as int), needle, left as nat),
        decreases i,
    {
        assert(s.take(i as int).drop_last() =~= s.take(i - 1));
        assert(s.take(i as int).last() == s[i - 1]);
        i = i - 1;
        if chars[i] == needle {
            if left == 0 {
                return Some(i);
            }
            left = left - 1;
        }
    }
    None
}

impl RFindNth for str {
    fn rfind_nth(&self, needle: char, n: usize) -> (r: Option<usize>)
        ensures
            r == rfind_nth_offset(self@, needle, n as nat),
            r is None <==> count_char(self@, needle) <= n,
            r matches Some(b) ==> exists|k: int|
                0 <= k < self@.len() && self@[k] == needle
                    && count_char(#[trigger] self@.skip(k + 1), needle) == n
                    && b == byte_offset(self@, k),
    {
        proof {
            lemma_rfind_nth_index(self@, needle, n as nat);
            lemma_rfind_nth_none_iff(self@, needle, n as nat);
        }
        let chars = chars_of(self);
        match rfind_nth_char(&chars, needle, n) {
            Some(k) => {
                proof {
                    lemma_rfind_nth_index(chars@, needle, n as nat);
                }
                Some(byte_offset_of(self, &chars, k))
            },
            None => None,
        }
    }
}

} // verus!
