//! Small text utilities shared by the encoders, the checkers and the origin
//! stub: decimal rendering of numbers, first-occurrence search of a byte
//! pattern, and reading bytes as UTF-8 text.

use vstd::prelude::*;
use vstd::utf8::{decode_utf8, valid_utf8};

verus! {

/// Relies on std's `str::from_utf8`: it succeeds exactly on valid UTF-8, and
/// the text returned is the decoding of those bytes.
#[verifier::external_body]
pub(crate) fn bytes_to_text(bytes: &[u8]) -> (r: Option<String>)
    ensures
        r is Some <==> valid_utf8(bytes@),
        r matches Some(s) ==> s@ == decode_utf8(bytes@),
{
    match core::str::from_utf8(bytes) {
        Ok(s) => Some(s.to_owned()),
        Err(_) => None,
    }
}

/// The character for one decimal digit.
pub open spec fn digit_char(d: nat) -> char {
    if d == 0 {
        '0'
    } else if d == 1 {
        '1'
    } else if d == 2 {
        '2'
    } else if d == 3 {
        '3'
    } else if d == 4 {
        '4'
    } else if d == 5 {
        '5'
    } else if d == 6 {
        '6'
    } else if d == 7 {
        '7'
    } else if d == 8 {
        '8'
    } else {
        '9'
    }
}

/// The usual decimal rendering of `n`, most significant digit first, with no
/// leading zeroes (except for `n == 0` itself).
pub open spec fn spec_decimal(n: nat) -> Seq<char>
    decreases n,
{
    if n < 10 {
        seq![digit_char(n)]
    } else {
        spec_decimal(n / 10) + seq![digit_char(n % 10)]
    }
}

fn digit_str(d: usize) -> (r: &'static str)
    requires
        d < 10,
    ensures
        r@ == seq![digit_char(d as nat)],
{
    proof {
        reveal_strlit("0");
        reveal_strlit("1");
        reveal_strlit("2");
        reveal_strlit("3");
        reveal_strlit("4");
        reveal_strlit("5");
        reveal_strlit("6");
        reveal_strlit("7");
        reveal_strlit("8");
        reveal_strlit("9");
    }
    let r = if d == 0 {
        "0"
    } else if d == 1 {
        "1"
    } else if d == 2 {
        "2"
    } else if d == 3 {
        "3"
    } else if d == 4 {
        "4"
    } else if d == 5 {
        "5"
    } else if d == 6 {
        "6"
    } else if d == 7 {
        "7"
    } else if d == 8 {
        "8"
    } else {
        "9"
    };
    proof {
        assert(r@ =~= seq![digit_char(d as nat)]);
    }
    r
}

/// Renders `n` in decimal.
pub fn decimal_string(n: usize) -> (r: String)
    ensures
        r@ == spec_decimal(n as nat),
    decreases n,
{
    if n < 10 {
        String::from_str(digit_str(n))
    } else {
        let mut s = decimal_string(n / 10);
        s.append(digit_str(n % 10));
        s
    }
}

/// The byte pattern `needle` occurs in `hay` at position `i`.
pub open spec fn match_at(hay: Seq<u8>, needle: Seq<u8>, i: int) -> bool {
    &&& 0 <= i
    &&& i + needle.len() <= hay.len()
    &&& hay.subrange(i, i + needle.len()) == needle
}

/// The position of the first occurrence of `needle` in `hay`, if any. An
/// empty pattern occurs at position zero.
pub open spec fn spec_find(hay: Seq<u8>, needle: Seq<u8>) -> Option<nat>
    decreases hay.len(),
{
    if needle.len() > hay.len() {
        None
    } else if needle.len() == 0 {
        Some(0)
    } else if hay.subrange(0, needle.len() as int) == needle {
        Some(0)
    } else {
        match spec_find(hay.drop_first(), needle) {
            Some(i) => Some((i + 1) as nat),
            None => None,
        }
    }
}

/// `spec_find` names exactly the first occurrence of the pattern.
pub proof fn lemma_spec_find_characterizes(hay: Seq<u8>, needle: Seq<u8>)
    ensures
        match spec_find(hay, needle) {
            Some(i) => match_at(hay, needle, i as int) && (forall|j: int|
                0 <= j < i ==> !match_at(hay, needle, j)),
            None => forall|j: int| !match_at(hay, needle, j),
        },
    decreases hay.len(),
{
    if needle.len() > hay.len() {
        assert(forall|j: int| !match_at(hay, needle, j));
    } else if needle.len() == 0 {
        assert(hay.subrange(0, 0) =~= needle);
        assert(match_at(hay, needle, 0));
    } else if hay.subrange(0, needle.len() as int) == needle {
        assert(match_at(hay, needle, 0));
    } else {
        let tail = hay.drop_first();
        lemma_spec_find_characterizes(tail, needle);
        assert forall|j: int| 1 <= j && match_at(hay, needle, j) implies match_at(
            tail,
            needle,
            j - 1,
        ) by {
            assert(tail.subrange(j - 1, j - 1 + needle.len()) =~= hay.subrange(
                j,
                j + needle.len(),
            ));
        }
        match spec_find(tail, needle) {
            Some(i) => {
                assert(hay.subrange(i as int + 1, i as int + 1 + needle.len()) =~= tail.subrange(
                    i as int,
                    i as int + needle.len(),
                ));
                assert(match_at(hay, needle, i as int + 1));
                assert forall|j: int| 0 <= j < i + 1 implies !match_at(hay, needle, j) by {
                    if j >= 1 && match_at(hay, needle, j) {
                        assert(match_at(tail, needle, j - 1));
                    }
                }
            },
            None => {
                assert forall|j: int| !match_at(hay, needle, j) by {
                    if 1 <= j && match_at(hay, needle, j) {
                        assert(match_at(tail, needle, j - 1));
                    }
                }
            },
        }
    }
}

/// Finds the first occurrence of `needle` in `hay`.
pub fn find_first(hay: &[u8], needle: &[u8]) -> (r: Option<usize>)
    ensures
        match r {
            Some(i) => spec_find(hay@, needle@) == Some(i as nat),
            None => spec_find(hay@, needle@) is None,
        },
{
    let hay_len = hay.len();
    let needle_len = needle.len();
    if needle_len > hay_len {
        return None;
    }
    if needle_len == 0 {
        return Some(0);
    }
    let mut i: usize = 0;
    let mut found = false;
    proof {
        assert(hay@.skip(0) =~= hay@);
    }
    loop
        invariant_except_break
            !found,
        invariant
            i + needle_len <= hay_len,
            hay_len == hay@.len(),
            needle_len == needle@.len(),
            needle_len >= 1,
            spec_find(hay@, needle@) == match spec_find(hay@.skip(i as int), needle@) {
                Some(k) => Some((k + i) as nat),
                None => None::<nat>,
            },
        ensures
            found ==> spec_find(hay@, needle@) == Some(i as nat),
            !found ==> spec_find(hay@, needle@) is None,
        decreases hay_len - i,
    {
        if prefix_check(hay, needle, i) {
            proof {
                assert(hay@.skip(i as int).subrange(0, needle@.len() as int) =~= hay@.subrange(
                    i as int,
                    i + needle@.len(),
                ));
                assert(spec_find(hay@.skip(i as int), needle@) == Some(0nat));
            }
            found = true;
            break ;
        }
        proof {
            assert(hay@.skip(i as int).subrange(0, needle@.len() as int) =~= hay@.subrange(
                i as int,
                i + needle@.len(),
            ));
            assert(hay@.skip(i as int).drop_first() =~= hay@.skip(i as int + 1));
        }
        if i + needle_len == hay_len {
            proof {
                assert(needle@.len() > hay@.skip(i as int).drop_first().len());
                assert(spec_find(hay@.skip(i as int).drop_first(), needle@) is None);
                assert(spec_find(hay@.skip(i as int), needle@) is None);
            }
            break ;
        }
        i = i + 1;
    }
    if found {
        Some(i)
    } else {
        None
    }
}

/// `needle` occurs in `hay` at position `i`, stated over the raw bytes.
spec fn prefix_matches(hay: Seq<u8>, needle: Seq<u8>, i: int) -> bool {
    hay.subrange(i, i + needle.len()) == needle
}

fn prefix_check(hay: &[u8], needle: &[u8], i: usize) -> (r: bool)
    requires
        i + needle@.len() <= hay@.len(),
    ensures
        r == prefix_matches(hay@, needle@, i as int),
{
    let hay_len = hay.len();
    let needle_len = needle.len();
    let mut j: usize = 0;
    while j < needle_len
        invariant
            j <= needle_len,
            hay_len == hay@.len(),
            i + needle_len <= hay_len,
            needle_len == needle@.len(),
            forall|k: int| 0 <= k < j ==> hay@[i + k] == needle@[k],
        decreases needle_len - j,
    {
        if hay[i + j] != needle[j] {
            proof {
                assert(hay@.subrange(i as int, i + needle@.len())[j as int] != needle@[j as int]);
            }
            return false;
        }
        j = j + 1;
    }
    proof {
        assert(hay@.subrange(i as int, i + needle@.len()) =~= needle@);
    }
    true
}


/// The two byte strings are equal.
pub(crate) fn bytes_equal(a: &[u8], b: &[u8]) -> (r: bool)
    ensures
        r == (a@ == b@),
{
    let n = a.len();
    if n != b.len() {
        return false;
    }
    let mut i: usize = 0;
    while i < n
        invariant
            i <= n,
            n == a@.len(),
            n == b@.len(),
            forall|k: int| 0 <= k < i ==> a@[k] == b@[k],
        decreases n - i,
    {
        if a[i] != b[i] {
            return false;
        }
        i = i + 1;
    }
    proof {
        assert(a@ =~= b@);
    }
    true
}

/// The bytes are one or more ASCII decimal digits.
pub open spec fn spec_is_digits(b: Seq<u8>) -> bool {
    b.len() > 0 && forall|i: int| 0 <= i < b.len() ==> 48 <= #[trigger] b[i] <= 57
}

/// The number the bytes spell in decimal, reading each byte as the digit it
/// is (a byte outside the digits counts as zero; callers guard with
/// [`spec_is_digits`]).
pub open spec fn spec_digits_value(b: Seq<u8>) -> nat
    decreases b.len(),
{
    if b.len() == 0 {
        0
    } else {
        spec_digits_value(b.drop_last()) * 10 + (if 48 <= b.last() <= 57 {
            (b.last() - 48) as nat
        } else {
            0
        })
    }
}

proof fn lemma_digits_value_take_monotone(b: Seq<u8>, k: int)
    requires
        0 <= k <= b.len(),
    ensures
        spec_digits_value(b.take(k)) <= spec_digits_value(b),
    decreases b.len() - k,
{
    if k == b.len() {
        assert(b.take(k) =~= b);
    } else {
        assert(b.take(k + 1).drop_last() =~= b.take(k));
        assert(spec_digits_value(b.take(k)) * 10 >= spec_digits_value(b.take(k)));
        lemma_digits_value_take_monotone(b, k + 1);
    }
}

/// Reads the bytes as a decimal number. `None` when they are not all digits,
/// are empty, or spell a number too large for `usize`.
pub(crate) fn parse_decimal(v: &[u8]) -> (r: Option<usize>)
    ensures
        match r {
            Some(n) => spec_is_digits(v@) && spec_digits_value(v@) == n,
            None => !spec_is_digits(v@) || spec_digits_value(v@) > usize::MAX,
        },
{
    let n = v.len();
    if n == 0 {
        return None;
    }
    let mut acc: usize = 0;
    let mut i: usize = 0;
    proof {
        assert(v@.take(0) =~= Seq::<u8>::empty());
    }
    while i < n
        invariant
            i <= n,
            n == v@.len(),
            acc == spec_digits_value(v@.take(i as int)),
            forall|k: int| 0 <= k < i ==> 48 <= #[trigger] v@[k] <= 57,
        decreases n - i,
    {
        let c = v[i];
        if c < 48 || c > 57 {
            return None;
        }
        let d = (c - 48) as usize;
        if acc > (usize::MAX - d) / 10 {
            proof {
                assert(spec_digits_value(v@.take(i as int + 1)) == acc * 10 + d) by {
                    assert(v@.take(i as int + 1).drop_last() =~= v@.take(i as int));
                };
                assert(acc * 10 + d > usize::MAX) by (nonlinear_arith)
                    requires
                        acc > (usize::MAX - d) / 10,
                        d <= 9,
                ;
                lemma_digits_value_take_monotone(v@, i as int + 1);
            }
            return None;
        }
        proof {
            assert(acc * 10 + d <= usize::MAX) by (nonlinear_arith)
                requires
                    acc <= (usize::MAX - d) / 10,
                    d <= 9,
            ;
            assert(v@.take(i as int + 1).drop_last() =~= v@.take(i as int));
        }
        acc = acc * 10 + d;
        i = i + 1;
    }
    proof {
        assert(v@.take(n as int) =~= v@);
    }
    Some(acc)
}

} // verus!
