use vstd::prelude::*;

verus! {

/// Number of bytes that a UTF-8 sequence starting with `b` declares; 0 for a
/// continuation byte or a byte that never starts a sequence.
pub open spec fn lead_len(b: u8) -> nat {
    if b < 0x80 {
        1
    } else if b < 0xC0 {
        0
    } else if b < 0xE0 {
        2
    } else if b < 0xF0 {
        3
    } else if b < 0xF8 {
        4
    } else {
        0
    }
}

/// A continuation byte (`10xxxxxx`).
pub open spec fn is_cont(b: u8) -> bool {
    0x80 <= b < 0xC0
}

/// The last `j` bytes of `s` are a lead byte followed by continuation bytes,
/// fewer in all than the lead byte declares.
pub open spec fn tail_is_incomplete(s: Seq<u8>, j: int) -> bool {
    &&& 1 <= j <= 3
    &&& j <= s.len()
    &&& lead_len(s[s.len() - j]) > j
    &&& forall|i: int| s.len() - j < i < s.len() ==> is_cont(#[trigger] s[i])
}

/// Length of the incomplete multi-byte sequence at the end of `s` (0 if `s`
/// does not end inside one): those bytes wait for the rest of their character.
pub open spec fn held_tail(s: Seq<u8>) -> nat {
    if tail_is_incomplete(s, 1) {
        1
    } else if tail_is_incomplete(s, 2) {
        2
    } else if tail_is_incomplete(s, 3) {
        3
    } else {
        0
    }
}

/// The complete encoding of one character, by its shape: a lead byte and as many
/// continuation bytes as it declares.
pub open spec fn is_char_encoding(c: Seq<u8>) -> bool {
    &&& c.len() >= 1
    &&& lead_len(c[0]) == c.len()
    &&& forall|i: int| 0 < i < c.len() ==> is_cont(#[trigger] c[i])
}

/// What `std::str::from_utf8` makes of the bytes: the text, or `None` where they
/// are not valid UTF-8.
pub uninterp spec fn utf8_text(b: Seq<u8>) -> Option<Seq<char>>;

pub fn lead_byte_len(b: u8) -> (r: u8)
    ensures
        r as nat == lead_len(b),
{
    if b < 0x80 {
        1
    } else if b < 0xC0 {
        0
    } else if b < 0xE0 {
        2
    } else if b < 0xF0 {
        3
    } else if b < 0xF8 {
        4
    } else {
        0
    }
}

pub fn is_continuation(b: u8) -> (r: bool)
    ensures
        r == is_cont(b),
{
    0x80 <= b && b < 0xC0
}

/// Length of the incomplete character at the end of `s`, which a reader holds
/// back until its remaining bytes arrive.
pub fn held_tail_len(s: &[u8]) -> (r: usize)
    ensures
        r == held_tail(s@),
        r <= s@.len(),
{
    let n = s.len();
    if n >= 1 && lead_byte_len(s[n - 1]) > 1 {
        1
    } else if n >= 2 && is_continuation(s[n - 1]) && lead_byte_len(s[n - 2]) > 2 {
        2
    } else if n >= 3 && is_continuation(s[n - 1]) && is_continuation(s[n - 2])
        && lead_byte_len(s[n - 3]) > 3 {
        3
    } else {
        proof {
            if n >= 2 && tail_is_incomplete(s@, 2) {
                assert(is_cont(s@[n - 1]));
            }
            if n >= 3 && tail_is_incomplete(s@, 3) {
                assert(is_cont(s@[n - 1]));
                assert(is_cont(s@[n - 2]));
            }
        }
        0
    }
}

/// Relies on `std::str::from_utf8`: it accepts exactly the valid UTF-8 byte
/// sequences, and what it returns depends on the bytes alone.
#[verifier::external_body]
pub(crate) fn decode_utf8(b: &[u8]) -> (r: Option<String>)
    ensures
        r is Some <==> utf8_text(b@) is Some,
        r is Some ==> utf8_text(b@) == Some(r->0@),
{
    std::str::from_utf8(b).ok().map(|s| s.to_string())
}

/// A read that stops after part of a character holds back exactly that part,
/// whatever came before it: the boundary never falls inside a character.
pub proof fn lemma_split_character_is_held(before: Seq<u8>, c: Seq<u8>, k: int)
    requires
        is_char_encoding(c),
        0 < k < c.len(),
    ensures
        held_tail(before + c.subrange(0, k)) == k,
{
    let s = before + c.subrange(0, k);
    let n = s.len();
    assert(s[n - k] == c[0]);
    assert forall|i: int| n - k < i < n implies is_cont(#[trigger] s[i]) by {
        assert(s[i] == c[i - (n - k)]);
    }
    if k > 1 {
        assert(s[n - 1] == c[k - 1]);
        assert(is_cont(c[k - 1]));
    }
    if k > 2 {
        assert(s[n - 2] == c[k - 2]);
        assert(is_cont(c[k - 2]));
    }
}

/// Once the last character is complete, nothing is held back.
pub proof fn lemma_complete_character_is_released(before: Seq<u8>, c: Seq<u8>)
    requires
        is_char_encoding(c),
    ensures
        held_tail(before + c) == 0,
{
    let s = before + c;
    let n = s.len();
    let m = c.len() as int;
    assert(s[n - m] == c[0]);
    assert forall|j: int| 1 <= j <= 3 implies !tail_is_incomplete(s, j) by {
        if j < m {
            assert(s[n - j] == c[m - j]);
            assert(is_cont(c[m - j]));
        } else if j > m && j <= n {
            assert(n - j < n - m < n);
            assert(!is_cont(s[n - m]));
        }
    }
}

} // verus!
