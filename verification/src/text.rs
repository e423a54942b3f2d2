//! Byte strings: their lexicographic order, ASCII case, and the bridge
//! between `String` values and the bytes they hold.

use vstd::prelude::*;
use vstd::string::*;
use vstd::utf8::*;

verus! {

/// The bytes of a string whose characters are `chars`.
pub open spec fn str_bytes(chars: Seq<char>) -> Seq<u8> {
    encode_utf8(chars)
}

/// Lexicographic order on byte strings: a proper prefix comes first, and
/// otherwise the first differing byte decides.
pub open spec fn lex_le(a: Seq<u8>, b: Seq<u8>) -> bool
    decreases a.len(),
{
    if a.len() == 0 {
        true
    } else if b.len() == 0 {
        false
    } else if a[0] != b[0] {
        a[0] < b[0]
    } else {
        lex_le(a.drop_first(), b.drop_first())
    }
}

/// Strict lexicographic order.
pub open spec fn lex_lt(a: Seq<u8>, b: Seq<u8>) -> bool {
    lex_le(a, b) && a != b
}

pub proof fn lemma_lex_le_refl(a: Seq<u8>)
    ensures
        lex_le(a, a),
    decreases a.len(),
{
    if a.len() > 0 {
        lemma_lex_le_refl(a.drop_first());
    }
}

pub proof fn lemma_lex_le_antisym(a: Seq<u8>, b: Seq<u8>)
    requires
        lex_le(a, b),
        lex_le(b, a),
    ensures
        a == b,
    decreases a.len(),
{
    if a.len() == 0 {
        assert(b.len() == 0);
        assert(a =~= b);
    } else {
        lemma_lex_le_antisym(a.drop_first(), b.drop_first());
        assert(a =~= seq![a[0]] + a.drop_first());
        assert(b =~= seq![b[0]] + b.drop_first());
    }
}

pub proof fn lemma_lex_le_trans(a: Seq<u8>, b: Seq<u8>, c: Seq<u8>)
    requires
        lex_le(a, b),
        lex_le(b, c),
    ensures
        lex_le(a, c),
    decreases a.len(),
{
    if a.len() > 0 && a[0] == b[0] && b[0] == c[0] {
        lemma_lex_le_trans(a.drop_first(), b.drop_first(), c.drop_first());
    }
}

pub proof fn lemma_lex_le_total(a: Seq<u8>, b: Seq<u8>)
    ensures
        lex_le(a, b) || lex_le(b, a),
    decreases a.len(),
{
    if a.len() > 0 && b.len() > 0 && a[0] == b[0] {
        lemma_lex_le_total(a.drop_first(), b.drop_first());
    }
}

/// The lexicographic order is a total order.
pub proof fn law_lex_order_total(a: Seq<u8>, b: Seq<u8>, c: Seq<u8>)
    ensures
        lex_le(a, a),
        lex_le(a, b) || lex_le(b, a),
        lex_le(a, b) && lex_le(b, a) ==> a == b,
        lex_le(a, b) && lex_le(b, c) ==> lex_le(a, c),
{
    lemma_lex_le_refl(a);
    lemma_lex_le_total(a, b);
    if lex_le(a, b) && lex_le(b, a) {
        lemma_lex_le_antisym(a, b);
    }
    if lex_le(a, b) && lex_le(b, c) {
        lemma_lex_le_trans(a, b, c);
    }
}

/// A common prefix does not change the order of what follows it.
pub proof fn lemma_lex_le_skip(a: Seq<u8>, b: Seq<u8>, n: int)
    requires
        0 <= n <= a.len(),
        n <= b.len(),
        a.take(n) == b.take(n),
    ensures
        lex_le(a, b) == lex_le(a.skip(n), b.skip(n)),
    decreases n,
{
    if n == 0 {
        assert(a.skip(0) =~= a);
        assert(b.skip(0) =~= b);
    } else {
        assert(a[0] == a.take(n)[0]);
        assert(b[0] == b.take(n)[0]);
        assert(a.drop_first().take(n - 1) =~= a.take(n).drop_first());
        assert(b.drop_first().take(n - 1) =~= b.take(n).drop_first());
        lemma_lex_le_skip(a.drop_first(), b.drop_first(), n - 1);
        assert(a.drop_first().skip(n - 1) =~= a.skip(n));
        assert(b.drop_first().skip(n - 1) =~= b.skip(n));
    }
}

/// Whether `a` comes before `b`, or equals it, in lexicographic order.
pub fn bytes_le(a: &[u8], b: &[u8]) -> (r: bool)
    ensures
        r == lex_le(a@, b@),
{
    let mut i: usize = 0;
    while i < a.len() && i < b.len()
        invariant
            i <= a.len(),
            i <= b.len(),
            a@.take(i as int) == b@.take(i as int),
        decreases a.len() - i,
    {
        if a[i] != b[i] {
            proof {
                lemma_lex_le_skip(a@, b@, i as int);
            }
            return a[i] < b[i];
        }
        proof {
            assert(a@.take(i + 1) =~= a@.take(i as int).push(a@[i as int]));
            assert(b@.take(i + 1) =~= b@.take(i as int).push(b@[i as int]));
        }
        i = i + 1;
    }
    proof {
        lemma_lex_le_skip(a@, b@, i as int);
    }
    i == a.len()
}

/// Whether two byte strings are the same.
pub fn bytes_eq(a: &[u8], b: &[u8]) -> (r: bool)
    ensures
        r == (a@ == b@),
{
    if a.len() != b.len() {
        return false;
    }
    let mut i: usize = 0;
    while i < a.len()
        invariant
            i <= a.len(),
            a.len() == b.len(),
            a@.take(i as int) == b@.take(i as int),
        decreases a.len() - i,
    {
        if a[i] != b[i] {
            return false;
        }
        proof {
            assert(a@.take(i + 1) =~= a@.take(i as int).push(a@[i as int]));
            assert(b@.take(i + 1) =~= b@.take(i as int).push(b@[i as int]));
        }
        i = i + 1;
    }
    proof {
        assert(a@.take(i as int) =~= a@);
        assert(b@.take(i as int) =~= b@);
    }
    true
}

/// The bytes of a string of ASCII characters are its characters.
pub proof fn lemma_ascii_bytes(chars: Seq<char>)
    requires
        is_ascii_chars(chars),
    ensures
        str_bytes(chars).len() == chars.len(),
        forall|i: int| 0 <= i < chars.len() ==> #[trigger] str_bytes(chars)[i] == chars[i] as u8,
{
    is_ascii_chars_encode_utf8(chars);
}

/// Where `m` is at least `r` at the first place they differ, if there is one
/// within `r`.
pub open spec fn dominated_at(r: Seq<u8>, m: Seq<u8>, i: int) -> bool {
    (i <= m.len() && r.take(i) == m.take(i)) ==> i < m.len() && r[i] <= m[i]
}

/// A string comes before another, or equals it, where it is dominated at
/// each of its places.
pub proof fn lemma_lex_dominated(r: Seq<u8>, m: Seq<u8>)
    requires
        forall|i: int| 0 <= i < r.len() ==> #[trigger] dominated_at(r, m, i),
    ensures
        lex_le(r, m),
    decreases r.len(),
{
    if r.len() > 0 {
        assert(dominated_at(r, m, 0));
        assert(r.take(0) =~= m.take(0));
        if r[0] == m[0] {
            let r1 = r.drop_first();
            let m1 = m.drop_first();
            assert forall|i: int| 0 <= i < r1.len() implies #[trigger] dominated_at(r1, m1, i) by {
                if i <= m1.len() && r1.take(i) == m1.take(i) {
                    assert(r.take(i + 1) =~= seq![r[0]] + r1.take(i));
                    assert(m.take(i + 1) =~= seq![m[0]] + m1.take(i));
                    assert(dominated_at(r, m, i + 1));
                    assert(r1[i] == r[i + 1]);
                    assert(m1[i] == m[i + 1]);
                }
            }
            lemma_lex_dominated(r1, m1);
        }
    }
}

/// Whether `b` is one of the ASCII letters `A` to `Z`.
pub open spec fn is_ascii_upper(b: u8) -> bool {
    65 <= b <= 90
}

/// The byte `b` with the ASCII letters `A` to `Z` mapped to `a` to `z`.
pub open spec fn ascii_lower(b: u8) -> u8 {
    if is_ascii_upper(b) {
        (b + 32) as u8
    } else {
        b
    }
}

/// The byte string `s` in ASCII lower case.
pub open spec fn lower(s: Seq<u8>) -> Seq<u8> {
    Seq::new(s.len(), |i: int| ascii_lower(s[i]))
}

/// Whether `s` holds none of the ASCII letters `A` to `Z`.
pub open spec fn is_lower(s: Seq<u8>) -> bool {
    forall|i: int| 0 <= i < s.len() ==> !is_ascii_upper(#[trigger] s[i])
}

/// Lower-casing is idempotent, and a string is in lower case exactly when
/// lower-casing leaves it as it is.
pub proof fn lemma_lower_idempotent(s: Seq<u8>)
    ensures
        lower(lower(s)) == lower(s),
        is_lower(lower(s)),
        is_lower(s) <==> lower(s) == s,
{
    assert(lower(lower(s)) =~= lower(s));
    if is_lower(s) {
        assert(lower(s) =~= s);
    }
    if lower(s) == s {
        assert forall|i: int| 0 <= i < s.len() implies !is_ascii_upper(#[trigger] s[i]) by {
            assert(lower(s)[i] == ascii_lower(s[i]));
        }
    }
}

/// Whether `s` holds none of the ASCII letters `A` to `Z`.
pub fn bytes_are_lower(s: &[u8]) -> (r: bool)
    ensures
        r == is_lower(s@),
{
    let mut i: usize = 0;
    while i < s.len()
        invariant
            i <= s.len(),
            forall|j: int| 0 <= j < i ==> !is_ascii_upper(#[trigger] s@[j]),
        decreases s.len() - i,
    {
        if 65 <= s[i] && s[i] <= 90 {
            return false;
        }
        i = i + 1;
    }
    true
}

/// `str::to_ascii_lowercase` of the standard library. The claim: the result
/// holds the bytes of `s`, with each of the ASCII letters `A` to `Z` replaced
/// by its lower-case letter and every other byte kept.
#[verifier::external_body]
pub(crate) fn ascii_lowercase(s: &str) -> (r: String)
    ensures
        str_bytes(r@) == lower(str_bytes(s@)),
{
    s.to_ascii_lowercase()
}

/// `String::push` of the standard library. The claim: the character is
/// appended to the end of the string.
#[verifier::external_body]
pub(crate) fn push_char(s: &mut String, c: char)
    ensures
        final(s)@ == old(s)@.push(c),
{
    s.push(c)
}

/// `String::from_utf8` of the standard library. The claim: it succeeds
/// exactly on valid UTF-8, and the string then holds the characters that
/// those bytes encode.
#[verifier::external_body]
pub(crate) fn string_from_utf8(bytes: Vec<u8>) -> (r: Option<String>)
    ensures
        r is Some <==> valid_utf8(bytes@),
        r matches Some(s) ==> s@ == decode_utf8(bytes@),
{
    String::from_utf8(bytes).ok()
}

/// The part of `s` between the byte offsets `from` and `to`, where each
/// offset is an end of `s` or has an ASCII byte on the side named.
pub(crate) fn segment<'a>(s: &'a str, from: usize, to: usize) -> (r: &'a str)
    requires
        from <= to <= str_bytes(s@).len(),
        from == 0 || str_bytes(s@)[from - 1] < 128,
        to == str_bytes(s@).len() || str_bytes(s@)[to as int] < 128,
    ensures
        str_bytes(r@) == str_bytes(s@).subrange(from as int, to as int),
{
    broadcast use {
        encode_utf8_valid_utf8,
        is_char_boundary_iff_not_is_continuation_byte,
        is_char_boundary_start_end_of_seq,
    };

    let ghost whole = str_bytes(s@);
    let tail: &str = if from == 0 {
        s
    } else {
        proof {
            assert(valid_utf8(whole));
            assert(!is_continuation_byte(whole[from - 1]));
            assert(is_char_boundary(whole, from - 1));
        }
        let (_, rest) = s.split_at(from - 1);
        proof {
            let rb = str_bytes(rest@);
            assert(valid_utf8(rb));
            assert(rb[0] == whole[from - 1]);
            assert(is_leading_byte_width_1(rb[0]));
            assert(length_of_first_scalar(rb) == 1);
            assert(is_char_boundary(pop_first_scalar(rb), 0));
            assert(is_char_boundary(rb, 1));
        }
        let (_, after) = rest.split_at(1);
        after
    };
    proof {
        let tb = str_bytes(tail@);
        assert(tb =~= whole.subrange(from as int, whole.len() as int));
        assert(valid_utf8(tb));
        if to < whole.len() {
            assert(tb[to - from] == whole[to as int]);
            assert(!is_continuation_byte(tb[to - from]));
            assert(is_char_boundary(tb, to - from));
        } else {
            assert(is_char_boundary(tb, tb.len() as int));
        }
    }
    let (part, _) = tail.split_at(to - from);
    proof {
        assert(str_bytes(part@) =~= whole.subrange(from as int, to as int));
    }
    part
}

} // verus!
