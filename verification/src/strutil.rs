//! Verified string helpers: substring search and decimal formatting.

use vstd::prelude::*;

verus! {

/// The needle occurs in the haystack starting at position `i`.
pub open spec fn has_substring_at(hay: Seq<char>, needle: Seq<char>, i: int) -> bool {
    &&& 0 <= i
    &&& i + needle.len() <= hay.len()
    &&& hay.subrange(i, i + needle.len()) == needle
}

/// The needle occurs somewhere in the haystack.
pub open spec fn contains_seq(hay: Seq<char>, needle: Seq<char>) -> bool {
    exists|i: int| has_substring_at(hay, needle, i)
}

/// Whether the needle occurs in the haystack at exactly position `i`.
fn matches_at(hay: &str, needle: &str, i: usize) -> (r: bool)
    requires
        i + needle@.len() <= hay@.len(),
        hay@.len() <= usize::MAX,
    ensures
        r == has_substring_at(hay@, needle@, i as int),
{
    let needle_len = needle.unicode_len();
    let mut j: usize = 0;
    while j < needle_len
        invariant
            needle_len == needle@.len(),
            i + needle_len <= hay@.len(),
            hay@.len() <= usize::MAX,
            j <= needle_len,
            forall|k: int| 0 <= k < j ==> hay@[i + k] == needle@[k],
        decreases needle_len - j,
    {
        if hay.get_char(i + j) != needle.get_char(j) {
            assert(hay@.subrange(i as int, i + needle@.len() as int)[j as int] == hay@[i + j]);
            return false;
        }
        j += 1;
    }
    assert(hay@.subrange(i as int, i + needle@.len() as int) =~= needle@);
    true
}

/// Whether `hay` contains `needle` as a contiguous substring.
pub fn contains_substr(hay: &str, needle: &str) -> (r: bool)
    ensures
        r == contains_seq(hay@, needle@),
{
    let hay_len = hay.unicode_len();
    let needle_len = needle.unicode_len();
    if needle_len > hay_len {
        assert(forall|i: int| !has_substring_at(hay@, needle@, i));
        return false;
    }
    if needle_len == 0 {
        assert(hay@.subrange(0, 0) =~= needle@);
        assert(has_substring_at(hay@, needle@, 0));
        return true;
    }
    let mut i: usize = 0;
    while i <= hay_len - needle_len
        invariant
            needle_len == needle@.len(),
            hay_len == hay@.len(),
            0 < needle_len <= hay_len,
            i <= hay_len - needle_len + 1,
            forall|k: int| 0 <= k < i ==> !has_substring_at(hay@, needle@, k),
        decreases hay_len - needle_len + 1 - i,
    {
        if matches_at(hay, needle, i) {
            return true;
        }
        i += 1;
    }
    assert(forall|k: int| !has_substring_at(hay@, needle@, k));
    false
}

/// The haystack ends with the needle.
pub open spec fn ends_with_seq(hay: Seq<char>, needle: Seq<char>) -> bool {
    hay.len() >= needle.len() && has_substring_at(hay, needle, hay.len() - needle.len())
}

/// Whether `hay` ends with `needle`.
pub fn ends_with_substr(hay: &str, needle: &str) -> (r: bool)
    ensures
        r == ends_with_seq(hay@, needle@),
{
    let hay_len = hay.unicode_len();
    let needle_len = needle.unicode_len();
    if needle_len > hay_len {
        return false;
    }
    matches_at(hay, needle, hay_len - needle_len)
}

/// A haystack without some character of the needle cannot contain the needle.
pub proof fn lemma_missing_char_no_substring(hay: Seq<char>, needle: Seq<char>, c: char, k: int)
    requires
        0 <= k < needle.len(),
        needle[k] == c,
        forall|j: int| 0 <= j < hay.len() ==> hay[j] != c,
    ensures
        !contains_seq(hay, needle),
{
    assert forall|i: int| !has_substring_at(hay, needle, i) by {
        if has_substring_at(hay, needle, i) {
            assert(hay.subrange(i, i + needle.len())[k] == needle[k]);
            assert(hay[i + k] == c);
        }
    }
}

/// A haystack in which the needle's first two characters never appear
/// adjacently cannot contain the needle.
pub proof fn lemma_missing_pair_no_substring(hay: Seq<char>, needle: Seq<char>, c0: char, c1: char)
    requires
        needle.len() >= 2,
        needle[0] == c0,
        needle[1] == c1,
        forall|j: int| 0 <= j < hay.len() - 1 ==> !((#[trigger] hay[j]) == c0 && hay[j + 1] == c1),
    ensures
        !contains_seq(hay, needle),
{
    assert forall|i: int| !has_substring_at(hay, needle, i) by {
        if has_substring_at(hay, needle, i) {
            assert(hay.subrange(i, i + needle.len())[0] == needle[0]);
            assert(hay.subrange(i, i + needle.len())[1] == needle[1]);
            assert(hay[i] == c0 && hay[i + 1] == c1);
        }
    }
}

/// Concatenation with a common left part cancels.
pub proof fn lemma_concat_cancel_left(a: Seq<char>, x: Seq<char>, y: Seq<char>)
    requires
        a + x == a + y,
    ensures
        x == y,
{
    assert(x =~= (a + x).subrange(a.len() as int, (a + x).len() as int));
    assert(y =~= (a + y).subrange(a.len() as int, (a + y).len() as int));
}

/// The character for a single decimal digit.
pub open spec fn dec_digit(d: nat) -> char {
    if d == 0 {
        '0'
    } else if d == 1 {
        '1'
    } else if d == 2 {
        '2'
    } else if d == 3 {
        '3'
    } else if d == 4 {
        '4'
    } else if d == 5 {
        '5'
    } else if d == 6 {
        '6'
    } else if d == 7 {
        '7'
    } else if d == 8 {
        '8'
    } else {
        '9'
    }
}

/// The decimal representation of a natural number, without leading zeros.
pub open spec fn dec_str(n: nat) -> Seq<char>
    decreases n,
{
    if n < 10 {
        seq![dec_digit(n)]
    } else {
        dec_str(n / 10).push(dec_digit(n % 10))
    }
}

/// A one-character string for a single decimal digit.
fn digit_str(d: u64) -> (r: &'static str)
    requires
        d < 10,
    ensures
        r@ =~= seq![dec_digit(d as nat)],
{
    proof {
        reveal_strlit("0");
        reveal_strlit("1");
        reveal_strlit("2");
        reveal_strlit("3");
        reveal_strlit("4");
        reveal_strlit("5");
        reveal_strlit("6");
        reveal_strlit("7");
        reveal_strlit("8");
        reveal_strlit("9");
    }
    match d {
        0 => "0",
        1 => "1",
        2 => "2",
        3 => "3",
        4 => "4",
        5 => "5",
        6 => "6",
        7 => "7",
        8 => "8",
        _ => "9",
    }
}

/// Formats a number in decimal.
pub fn u64_to_string(n: u64) -> (s: String)
    ensures
        s@ == dec_str(n as nat),
    decreases n,
{
    if n < 10 {
        let s = String::from_str(digit_str(n));
        assert(s@ =~= dec_str(n as nat));
        s
    } else {
        let mut s = u64_to_string(n / 10);
        s.append(digit_str(n % 10));
        assert(s@ =~= dec_str(n as nat));
        s
    }
}

} // verus!
