//! Character-level helpers over strings: UTF-8 widths, occurrence counts.
use vstd::prelude::*;
use vstd::utf8::*;

verus! {

/// Number of occurrences of `c` in `s`.
pub open spec fn count_char(s: Seq<char>, c: char) -> nat
    decreases s.len(),
{
    if s.len() == 0 {
        0
    } else {
        count_char(s.drop_last(), c) + if s.last() == c { 1nat } else { 0nat }
    }
}

/// Byte offset, in the UTF-8 encoding of `s`, of the character at index `k`.
pub open spec fn byte_offset(s: Seq<char>, k: int) -> nat {
    encode_utf8(s.take(k)).len()
}

/// The UTF-8 encoding of a concatenation is the concatenation of the encodings.
pub proof fn lemma_encode_utf8_concat(a: Seq<char>, b: Seq<char>)
    ensures
        encode_utf8(a + b) == encode_utf8(a) + encode_utf8(b),
    decreases a.len(),
{
    if a.len() == 0 {
        assert(a + b =~= b);
        assert(encode_utf8(a) =~= Seq::<u8>::empty());
        assert(encode_utf8(a) + encode_utf8(b) =~= encode_utf8(b));
    } else {
        lemma_encode_utf8_concat(a.drop_first(), b);
        assert((a + b).drop_first() =~= a.drop_first() + b);
        assert((a + b)[0] == a[0]);
        assert(encode_utf8(a + b) =~= encode_scalar(a[0] as u32) + encode_utf8(a.drop_first() + b));
        assert(encode_utf8(a) =~= encode_scalar(a[0] as u32) + encode_utf8(a.drop_first()));
    }
}

/// Extending a character prefix by one character extends its byte offset by that
/// character's UTF-8 width, and no prefix is longer in bytes than the whole string.
pub proof fn lemma_byte_offset_step(s: Seq<char>, k: int)
    requires
        0 <= k < s.len(),
    ensures
        byte_offset(s, k + 1) == byte_offset(s, k) + encode_scalar(s[k] as u32).len(),
        byte_offset(s, k + 1) <= encode_utf8(s).len(),
{
    let p = s.take(k);
    assert(s.take(k + 1) =~= p + seq![s[k]]);
    lemma_encode_utf8_concat(p, seq![s[k]]);
    let one = seq![s[k]];
    assert(one.drop_first() =~= Seq::<char>::empty());
    assert(encode_utf8(one.drop_first()) =~= Seq::<u8>::empty());
    assert(encode_utf8(one) =~= encode_scalar(s[k] as u32));
    assert(s =~= s.take(k + 1) + s.skip(k + 1));
    lemma_encode_utf8_concat(s.take(k + 1), s.skip(k + 1));
}

/// Number of bytes of the UTF-8 encoding of `c`.
pub fn utf8_width(c: char) -> (w: usize)
    ensures
        w == encode_scalar(c as u32).len(),
        1 <= w <= 4,
{
    let u = c as u32;
    proof {
        char_is_scalar(c);
    }
    if u <= 0x7F {
        1
    } else if u <= 0x7FF {
        2
    } else if u <= 0xFFFF {
        3
    } else {
        4
    }
}

/// Number of occurrences of `c` among `chars`.
pub fn count_char_in(chars: &Vec<char>, c: char) -> (n: usize)
    ensures
        n == count_char(chars@, c),
{
    let ghost s = chars@;
    let mut n: usize = 0;
    let mut i: usize = 0;
    assert(s.take(0) =~= Seq::<char>::empty());
    while i < chars.len()
        invariant
            s == chars@,
            i <= s.len(),
            n == count_char(s.take(i as int), c),
            n <= i,
        decreases s.len() - i,
    {
        assert(s.take(i + 1).drop_last() =~= s.take(i as int));
        assert(s.take(i + 1).last() == s[i as int]);
        if chars[i] == c {
            n = n + 1;
        }
        i = i + 1;
    }
    assert(s.take(s.len() as int) =~= s);
    n
}

/// The characters of `s`, in order.
pub fn chars_of(s: &str) -> (v: Vec<char>)
    ensures
        v@ == s@,
{
    let mut v: Vec<char> = Vec::new();
    for c in it: s.chars()
        invariant
            v@ == it.seq().take(it.index() as int),
    {
        v.push(c);
    }
    v
}

/// Byte offset of the character at index `k` of `s`, given the characters of `s`.
pub fn byte_offset_of(s: &str, chars: &Vec<char>, k: usize) -> (b: usize)
    requires
        chars@ == s@,
        k <= chars@.len(),
    ensures
        b == byte_offset(s@, k as int),
{
    let total = s.as_bytes().len();
    let mut b: usize = 0;
    let mut j: usize = 0;
    assert(s@.take(0) =~= Seq::<char>::empty());
    assert(encode_utf8(s@.take(0)) =~= Seq::<u8>::empty());
    while j < k
        invariant
            chars@ == s@,
            k <= chars@.len(),
            j <= k,
            total == encode_utf8(s@).len(),
            b == byte_offset(s@, j as int),
        decreases k - j,
    {
        proof {
            lemma_byte_offset_step(s@, j as int);
        }
        let w = utf8_width(chars[j]);
        b = b + w;
        j = j + 1;
    }
    b
}

} // verus!
