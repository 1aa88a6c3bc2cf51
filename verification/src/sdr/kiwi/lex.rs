//! Lexing of notifications: tokens between white space, keys and values
//! around `=`, and unsigned decimal numbers.

use vstd::prelude::*;
use vstd::slice::slice_subrange;

verus! {

/// ASCII white space: the space, and the controls from tab to carriage return.
pub open spec fn is_space(b: u8) -> bool {
    b == 0x20 || (0x09 <= b <= 0x0D)
}

/// The tokens of a text: its maximal runs of bytes that are not white space,
/// from left to right. Defined along the text: a white-space byte adds
/// nothing, another byte extends the token that the byte before it belongs
/// to, or starts a token where there is none.
pub open spec fn tokens(s: Seq<u8>) -> Seq<Seq<u8>>
    decreases s.len(),
{
    if s.len() == 0 {
        Seq::empty()
    } else {
        let before = tokens(s.drop_last());
        if is_space(s.last()) {
            before
        } else if s.len() >= 2 && !is_space(s[s.len() - 2]) && before.len() > 0 {
            before.drop_last().push(before.last().push(s.last()))
        } else {
            before.push(seq![s.last()])
        }
    }
}

/// The byte contents of a list of tokens.
pub open spec fn views(toks: Seq<Vec<u8>>) -> Seq<Seq<u8>> {
    Seq::new(toks.len(), |i: int| toks[i]@)
}

/// The index of the first `b` in `t`, or the length of `t` where there is none.
pub open spec fn first_index(t: Seq<u8>, b: u8) -> int
    decreases t.len(),
{
    if t.len() == 0 {
        0
    } else if t[0] == b {
        0
    } else {
        1 + first_index(t.drop_first(), b)
    }
}

/// The key of a token: what stands before its first `=`, or all of it.
pub open spec fn token_key(t: Seq<u8>) -> Seq<u8> {
    t.take(first_index(t, 0x3D))
}

/// The value of a token: what stands between its first `=` and its second,
/// or its end. A token without `=` has none.
pub open spec fn token_value(t: Seq<u8>) -> Option<Seq<u8>> {
    let k = first_index(t, 0x3D);
    if k >= t.len() {
        None
    } else {
        let rest = t.skip(k + 1);
        Some(rest.take(first_index(rest, 0x3D)))
    }
}

/// Whether one of the tokens is `token`.
pub open spec fn has_token(toks: Seq<Seq<u8>>, token: Seq<u8>) -> bool {
    exists|i: int| 0 <= i < toks.len() && toks[i] == token
}

/// Whether one of the tokens has the key `key`.
pub open spec fn has_key(toks: Seq<Seq<u8>>, key: Seq<u8>) -> bool {
    exists|i: int| 0 <= i < toks.len() && #[trigger] token_key(toks[i]) == key
}

/// The first token with the key `key`.
pub open spec fn first_with_key(toks: Seq<Seq<u8>>, key: Seq<u8>) -> Option<Seq<u8>>
    decreases toks.len(),
{
    if toks.len() == 0 {
        None
    } else if token_key(toks[0]) == key {
        Some(toks[0])
    } else {
        first_with_key(toks.drop_first(), key)
    }
}

pub open spec fn is_digit(b: u8) -> bool {
    0x30 <= b <= 0x39
}

pub open spec fn all_digits(s: Seq<u8>) -> bool {
    forall|i: int| 0 <= i < s.len() ==> is_digit(#[trigger] s[i])
}

/// The number that a run of decimal digits stands for.
pub open spec fn digits_value(s: Seq<u8>) -> nat
    decreases s.len(),
{
    if s.len() == 0 {
        0
    } else {
        digits_value(s.drop_last()) * 10 + (s.last() - 0x30) as nat
    }
}

/// The `u32` that a text stands for: one or more decimal digits, after at
/// most one `+`, with a value that fits. Anything else stands for none.
pub open spec fn parse_u32(s: Seq<u8>) -> Option<u32> {
    let digits = if s.len() > 0 && s[0] == 0x2B {
        s.drop_first()
    } else {
        s
    };
    if digits.len() > 0 && all_digits(digits) && digits_value(digits) <= u32::MAX {
        Some(digits_value(digits) as u32)
    } else {
        None
    }
}

/// The value of a run of digits is no less than that of any of its prefixes.
pub proof fn lemma_digits_value_grows(s: Seq<u8>, k: int)
    requires
        0 <= k <= s.len(),
        all_digits(s),
    ensures
        digits_value(s.take(k)) <= digits_value(s),
    decreases s.len() - k,
{
    if k == s.len() {
        assert(s.take(k) =~= s);
    } else {
        lemma_digits_value_grows(s, k + 1);
        assert(s.take(k + 1).drop_last() =~= s.take(k));
        assert(is_digit(s[k]));
        assert(s.take(k + 1).last() == s[k]);
    }
}

/// Whether two runs of bytes are the same.
pub fn bytes_eq(a: &[u8], b: &[u8]) -> (same: bool)
    ensures
        same == (a@ == b@),
{
    if a.len() != b.len() {
        return false;
    }
    let mut i: usize = 0;
    while i < a.len()
        invariant
            i <= a.len(),
            a.len() == b.len(),
            forall|j: int| 0 <= j < i ==> a@[j] == b@[j],
        decreases a.len() - i,
    {
        if a[i] != b[i] {
            return false;
        }
        i += 1;
    }
    assert(a@ =~= b@);
    true
}

/// Whether a byte is ASCII white space.
pub fn byte_is_space(b: u8) -> (r: bool)
    ensures
        r == is_space(b),
{
    b == 0x20 || (0x09 <= b && b <= 0x0D)
}

/// Splits a text into its tokens.
pub fn split_tokens(bytes: &[u8]) -> (toks: Vec<Vec<u8>>)
    ensures
        views(toks@) == tokens(bytes@),
{
    let mut toks: Vec<Vec<u8>> = Vec::new();
    let mut cur: Vec<u8> = Vec::new();
    let mut i: usize = 0;
    assert(bytes@.take(0) =~= Seq::<u8>::empty());
    assert(views(toks@) =~= Seq::<Seq<u8>>::empty());
    while i < bytes.len()
        invariant
            i <= bytes.len(),
            cur@.len() > 0 <==> (i > 0 && !is_space(bytes@[i - 1])),
            tokens(bytes@.take(i as int)) == if cur@.len() > 0 {
                views(toks@).push(cur@)
            } else {
                views(toks@)
            },
        decreases bytes.len() - i,
    {
        let b = bytes[i];
        let ghost done = bytes@.take(i as int);
        let ghost next = bytes@.take(i + 1);
        let ghost old_toks = toks@;
        let ghost old_cur = cur@;
        proof {
            assert(next.drop_last() =~= done);
            assert(next.last() == b);
            if i > 0 {
                assert(next[next.len() - 2] == bytes@[i - 1]);
            }
        }
        if byte_is_space(b) {
            if cur.len() > 0 {
                toks.push(cur);
                cur = Vec::new();
                assert(views(toks@) =~= views(old_toks).push(old_cur));
            }
        } else {
            cur.push(b);
            proof {
                if old_cur.len() > 0 {
                    let before = views(old_toks).push(old_cur);
                    assert(before.drop_last() =~= views(old_toks));
                    assert(before.last() == old_cur);
                    assert(cur@ =~= old_cur.push(b));
                } else {
                    assert(cur@ =~= seq![b]);
                    if i > 0 {
                        assert(is_space(bytes@[i - 1]));
                    }
                }
            }
        }
        i += 1;
    }
    assert(bytes@.take(i as int) =~= bytes@);
    if cur.len() > 0 {
        let ghost old_toks = toks@;
        let ghost old_cur = cur@;
        toks.push(cur);
        assert(views(toks@) =~= views(old_toks).push(old_cur));
    }
    toks
}

/// The index of the first `b` in `t`, or the length of `t`.
pub fn find_byte(t: &[u8], b: u8) -> (k: usize)
    ensures
        k as int == first_index(t@, b),
        k <= t@.len(),
{
    let mut i: usize = 0;
    assert(t@.skip(0) =~= t@);
    while i < t.len() && t[i] != b
        invariant
            i <= t.len(),
            first_index(t@, b) == i + first_index(t@.skip(i as int), b),
        decreases t.len() - i,
    {
        proof {
            let rest = t@.skip(i as int);
            assert(rest[0] == t@[i as int]);
            assert(rest.drop_first() =~= t@.skip(i + 1));
        }
        i += 1;
    }
    proof {
        let rest = t@.skip(i as int);
        if i < t.len() {
            assert(rest[0] == t@[i as int]);
        }
    }
    i
}

/// The key of a token.
pub fn key_of(t: &[u8]) -> (k: &[u8])
    ensures
        k@ == token_key(t@),
{
    let n = find_byte(t, 0x3D);
    slice_subrange(t, 0, n)
}

/// The value of a token, where it has one.
pub fn value_of(t: &[u8]) -> (v: Option<&[u8]>)
    ensures
        match v {
            Some(x) => token_value(t@) == Some(x@),
            None => token_value(t@) is None,
        },
{
    let k = find_byte(t, 0x3D);
    if k >= t.len() {
        None
    } else {
        let rest = slice_subrange(t, k + 1, t.len());
        let n = find_byte(rest, 0x3D);
        Some(slice_subrange(rest, 0, n))
    }
}

/// Whether one of the tokens is `token`.
pub fn contains_token(toks: &Vec<Vec<u8>>, token: &[u8]) -> (found: bool)
    ensures
        found == has_token(views(toks@), token@),
{
    let mut i: usize = 0;
    while i < toks.len()
        invariant
            i <= toks.len(),
            forall|j: int| 0 <= j < i ==> views(toks@)[j] != token@,
        decreases toks.len() - i,
    {
        if bytes_eq(toks[i].as_slice(), token) {
            assert(views(toks@)[i as int] == token@);
            return true;
        }
        i += 1;
    }
    false
}

/// Whether one of the tokens has the key `key`.
pub fn contains_key(toks: &Vec<Vec<u8>>, key: &[u8]) -> (found: bool)
    ensures
        found == has_key(views(toks@), key@),
{
    let mut i: usize = 0;
    while i < toks.len()
        invariant
            i <= toks.len(),
            forall|j: int| 0 <= j < i ==> token_key(views(toks@)[j]) != key@,
        decreases toks.len() - i,
    {
        if bytes_eq(key_of(toks[i].as_slice()), key) {
            assert(token_key(views(toks@)[i as int]) == key@);
            return true;
        }
        i += 1;
    }
    false
}

/// The place of the first token with the key `key`.
pub fn find_key(toks: &Vec<Vec<u8>>, key: &[u8]) -> (place: Option<usize>)
    ensures
        match place {
            Some(i) => i < toks@.len() && first_with_key(views(toks@), key@) == Some(toks@[i as int]@),
            None => first_with_key(views(toks@), key@) is None,
        },
{
    let mut i: usize = 0;
    assert(views(toks@).skip(0) =~= views(toks@));
    while i < toks.len()
        invariant
            i <= toks.len(),
            first_with_key(views(toks@), key@) == first_with_key(views(toks@).skip(i as int), key@),
        decreases toks.len() - i,
    {
        let ghost rest = views(toks@).skip(i as int);
        assert(rest[0] == toks@[i as int]@);
        if bytes_eq(key_of(toks[i].as_slice()), key) {
            return Some(i);
        }
        assert(rest.drop_first() =~= views(toks@).skip(i + 1));
        i += 1;
    }
    None
}

/// Reads a `u32` from its decimal text.
pub fn read_u32(s: &[u8]) -> (r: Option<u32>)
    ensures
        r == parse_u32(s@),
{
    let start: usize = if s.len() > 0 && s[0] == 0x2B {
        1
    } else {
        0
    };
    let digits = slice_subrange(s, start, s.len());
    assert(digits@ =~= if s@.len() > 0 && s@[0] == 0x2B {
        s@.drop_first()
    } else {
        s@
    });
    if digits.len() == 0 {
        return None;
    }
    let mut acc: u64 = 0;
    let mut i: usize = 0;
    assert(digits@.take(0) =~= Seq::<u8>::empty());
    while i < digits.len()
        invariant
            i <= digits.len(),
            all_digits(digits@.take(i as int)),
            acc == digits_value(digits@.take(i as int)),
            acc <= u32::MAX,
            parse_u32(s@) == if all_digits(digits@) && digits_value(digits@) <= u32::MAX {
                Some(digits_value(digits@) as u32)
            } else {
                None
            },
        decreases digits.len() - i,
    {
        let b = digits[i];
        if !(0x30 <= b && b <= 0x39) {
            assert(!is_digit(digits@[i as int]));
            return None;
        }
        proof {
            let next = digits@.take(i + 1);
            assert(next.drop_last() =~= digits@.take(i as int));
            assert(next.last() == b);
            assert forall|j: int| 0 <= j < next.len() implies is_digit(#[trigger] next[j]) by {
                if j < i {
                    assert(digits@.take(i as int)[j] == next[j]);
                }
            }
        }
        acc = acc * 10 + (b - 0x30) as u64;
        if acc > u32::MAX as u64 {
            proof {
                if all_digits(digits@) {
                    lemma_digits_value_grows(digits@, i + 1);
                }
            }
            return None;
        }
        i += 1;
    }
    assert(digits@.take(i as int) =~= digits@);
    Some(acc as u32)
}

/// A run of bytes without white space.
pub open spec fn is_word(t: Seq<u8>) -> bool {
    t.len() > 0 && forall|i: int| 0 <= i < t.len() ==> !is_space(#[trigger] t[i])
}

/// Every token is a word, and a text that is a word is its own single token.
pub proof fn lemma_tokens_are_words(s: Seq<u8>)
    ensures
        forall|k: int| 0 <= k < tokens(s).len() ==> is_word(#[trigger] tokens(s)[k]),
        is_word(s) ==> tokens(s) == seq![s],
        s.len() > 0 && !is_space(s.last()) ==> tokens(s).len() > 0,
    decreases s.len(),
{
    if s.len() > 0 {
        let front = s.drop_last();
        let before = tokens(front);
        lemma_tokens_are_words(front);
        if is_space(s.last()) {
        } else if s.len() >= 2 && !is_space(s[s.len() - 2]) && before.len() > 0 {
            let grown = before.last().push(s.last());
            assert(is_word(before[before.len() - 1]));
            assert forall|i: int| 0 <= i < grown.len() implies !is_space(#[trigger] grown[i]) by {
                if i < grown.len() - 1 {
                    assert(grown[i] == before.last()[i]);
                }
            }
            assert(is_word(grown));
            assert forall|k: int| 0 <= k < tokens(s).len() implies is_word(
                #[trigger] tokens(s)[k],
            ) by {
                if k < before.len() - 1 {
                    assert(tokens(s)[k] == before[k]);
                }
            }
            if is_word(s) {
                assert(front[front.len() - 1] == s[s.len() - 2]);
                assert forall|i: int| 0 <= i < front.len() implies !is_space(#[trigger] front[i]) by {
                    assert(front[i] == s[i]);
                }
                assert(is_word(front));
                assert(before =~= seq![front]);
                assert(grown =~= s);
                assert(tokens(s) =~= seq![s]);
            }
        } else {
            let fresh = seq![s.last()];
            assert(is_word(fresh));
            assert forall|k: int| 0 <= k < tokens(s).len() implies is_word(
                #[trigger] tokens(s)[k],
            ) by {
                if k < before.len() {
                    assert(tokens(s)[k] == before[k]);
                }
            }
            if is_word(s) {
                if s.len() >= 2 {
                    // the byte before the last is no white space, so `front` has a token
                    assert(front.last() == s[s.len() - 2]);
                    assert(before.len() > 0);
                }
                assert(front.len() == 0);
                assert(fresh =~= s);
                assert(tokens(s) =~= seq![s]);
            }
        }
    }
}

} // verus!
