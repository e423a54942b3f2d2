//! The stored form of a value: fields of fixed width, laid out so that the
//! lexicographic order of the bytes is the order of the values.

use crate::text::{
    lemma_lex_le_antisym, lemma_lex_le_refl, lemma_lex_le_total, lex_le,
};
use vstd::prelude::*;

verus! {

/// `n` zero bytes.
pub open spec fn zeros(n: nat) -> Seq<u8> {
    Seq::new(n, |i: int| 0u8)
}

/// The bytes `a` filled up with zeros to `width`, then the byte `mark`.
pub open spec fn framed(a: Seq<u8>, width: nat, mark: u8) -> Seq<u8> {
    a + zeros((width - a.len()) as nat) + seq![mark]
}

/// A field of `width` bytes and one more: the bytes `a`, filled up with
/// zeros, then the length of `a`.
pub open spec fn field(a: Seq<u8>, width: nat) -> Seq<u8> {
    framed(a, width, a.len() as u8)
}

/// What a field of `width` bytes and one more holds, where it is well
/// formed: its last byte is a length within the width, and only zeros
/// follow that many bytes.
pub open spec fn unfield(f: Seq<u8>, width: nat) -> Option<Seq<u8>> {
    let len = f[width as int] as nat;
    if f.len() == width + 1 && len <= width && (forall|i: int|
        len <= i < width ==> #[trigger] f[i] == 0) {
        Some(f.take(len as int))
    } else {
        None
    }
}

/// The four bytes of `t`, the most significant first.
pub open spec fn be32(t: u32) -> Seq<u8> {
    seq![
        (t / 16777216) as u8,
        ((t / 65536) % 256) as u8,
        ((t / 256) % 256) as u8,
        (t % 256) as u8,
    ]
}

/// The number whose four bytes are `b`, the most significant first.
pub open spec fn un_be32(b: Seq<u8>) -> u32 {
    (b[0] as int * 16777216 + b[1] as int * 65536 + b[2] as int * 256 + b[3] as int) as u32
}

pub proof fn lemma_field_roundtrip(a: Seq<u8>, width: nat)
    requires
        a.len() <= width <= 255,
    ensures
        field(a, width).len() == width + 1,
        unfield(field(a, width), width) == Some(a),
{
    let f = field(a, width);
    assert(f[width as int] == a.len() as u8);
    assert(f.take(a.len() as int) =~= a);
}

pub proof fn lemma_unfield_exact(f: Seq<u8>, width: nat)
    requires
        width <= 255,
        unfield(f, width) is Some,
    ensures
        unfield(f, width)->0.len() <= width,
        field(unfield(f, width)->0, width) == f,
{
    let a = unfield(f, width)->0;
    assert(field(a, width) =~= f);
}

pub proof fn lemma_be32_roundtrip(t: u32)
    ensures
        be32(t).len() == 4,
        un_be32(be32(t)) == t,
{
    let x = t as int;
    let q8 = x / 256;
    let q16 = x / 65536;
    let q24 = x / 16777216;
    vstd::arithmetic::div_mod::lemma_div_denominator(x, 256, 256);
    vstd::arithmetic::div_mod::lemma_div_denominator(x, 65536, 256);
    assert(q8 / 256 == q16);
    assert(q16 / 256 == q24);
    assert(0 <= q24 < 256);
    let b = be32(t);
    assert(b[0] == q24);
    assert(b[1] == q16 - 256 * q24);
    assert(b[2] == q8 - 256 * q16);
    assert(b[3] == x - 256 * q8);
}

pub proof fn lemma_un_be32_exact(b: Seq<u8>)
    requires
        b.len() == 4,
    ensures
        be32(un_be32(b)) == b,
{
    let q1 = b[0] as int * 256 + b[1] as int;
    let q2 = q1 * 256 + b[2] as int;
    let v = q2 * 256 + b[3] as int;
    assert(v == un_be32(b));
    assert(v / 256 == q2 && v % 256 == b[3]);
    vstd::arithmetic::div_mod::lemma_div_denominator(v, 256, 256);
    vstd::arithmetic::div_mod::lemma_div_denominator(v, 65536, 256);
    assert(q2 / 256 == q1 && q2 % 256 == b[2]);
    assert(v / 65536 == q1);
    assert(q1 / 256 == b[0] && q1 % 256 == b[1]);
    assert(v / 16777216 == b[0]);
    assert(be32(un_be32(b)) =~= b);
}

/// Of two texts that start with blocks of one length, the blocks decide the
/// order where they differ, and what follows them where they do not.
pub proof fn lemma_lex_le_blocks(x1: Seq<u8>, r1: Seq<u8>, x2: Seq<u8>, r2: Seq<u8>)
    requires
        x1.len() == x2.len(),
    ensures
        lex_le(x1 + r1, x2 + r2) == (if x1 == x2 {
            lex_le(r1, r2)
        } else {
            lex_le(x1, x2)
        }),
    decreases x1.len(),
{
    if x1.len() == 0 {
        assert(x1 =~= x2);
        assert(x1 + r1 =~= r1);
        assert(x2 + r2 =~= r2);
    } else {
        let y1 = x1.drop_first();
        let y2 = x2.drop_first();
        assert((x1 + r1).drop_first() =~= y1 + r1);
        assert((x2 + r2).drop_first() =~= y2 + r2);
        assert((x1 + r1)[0] == x1[0]);
        assert((x2 + r2)[0] == x2[0]);
        if x1[0] == x2[0] {
            lemma_lex_le_blocks(y1, r1, y2, r2);
            assert(x1 =~= seq![x1[0]] + y1);
            assert(x2 =~= seq![x2[0]] + y2);
        }
    }
}

/// Zeros and a mark come before any framed text of the same width whose
/// mark is larger by at least the length of that text.
proof fn lemma_zeros_le_framed(b: Seq<u8>, width: nat, la: u8, lb: u8)
    requires
        b.len() <= width,
        la + b.len() <= lb,
    ensures
        lex_le(framed(Seq::<u8>::empty(), width, la), framed(b, width, lb)),
    decreases width,
{
    let e = Seq::<u8>::empty();
    let x = framed(e, width, la);
    let y = framed(b, width, lb);
    assert(x.len() == width + 1 && y.len() == width + 1);
    if width == 0 {
        assert(x[0] == la && y[0] == lb);
        assert(x.drop_first().len() == 0);
        assert(lex_le(x.drop_first(), y.drop_first()));
    } else {
        assert(x[0] == 0);
        assert(x.drop_first() =~= framed(e, (width - 1) as nat, la));
        if b.len() == 0 {
            assert(y[0] == 0);
            assert(y.drop_first() =~= framed(e, (width - 1) as nat, lb));
            lemma_zeros_le_framed(e, (width - 1) as nat, la, lb);
            assert(lex_le(x.drop_first(), y.drop_first()));
        } else {
            assert(y[0] == b[0]);
            if b[0] == 0 {
                assert(y.drop_first() =~= framed(b.drop_first(), (width - 1) as nat, lb));
                lemma_zeros_le_framed(b.drop_first(), (width - 1) as nat, la, lb);
                assert(lex_le(x.drop_first(), y.drop_first()));
            }
        }
    }
}

/// Framing keeps the order of two texts whose marks exceed their lengths by
/// the same amount.
proof fn lemma_framed_monotone(a: Seq<u8>, b: Seq<u8>, width: nat, la: u8, lb: u8)
    requires
        a.len() <= width,
        b.len() <= width,
        lex_le(a, b),
        la - a.len() == lb - b.len(),
        la >= a.len(),
    ensures
        lex_le(framed(a, width, la), framed(b, width, lb)),
    decreases a.len(),
{
    if a.len() == 0 {
        assert(a =~= Seq::<u8>::empty());
        lemma_zeros_le_framed(b, width, la, lb);
    } else {
        let x = framed(a, width, la);
        let y = framed(b, width, lb);
        assert(x.len() == width + 1 && y.len() == width + 1);
        assert(x[0] == a[0]);
        assert(y[0] == b[0]);
        if a[0] == b[0] {
            assert(x.drop_first() =~= framed(a.drop_first(), (width - 1) as nat, la));
            assert(y.drop_first() =~= framed(b.drop_first(), (width - 1) as nat, lb));
            lemma_framed_monotone(a.drop_first(), b.drop_first(), (width - 1) as nat, la, lb);
            assert(lex_le(x.drop_first(), y.drop_first()));
        }
    }
}

/// Fields of one width are ordered as what they hold, and differ where
/// what they hold differs.
pub proof fn lemma_field_order(a: Seq<u8>, b: Seq<u8>, width: nat)
    requires
        a.len() <= width <= 255,
        b.len() <= width,
    ensures
        lex_le(field(a, width), field(b, width)) == lex_le(a, b),
        (field(a, width) == field(b, width)) == (a == b),
        field(a, width).len() == field(b, width).len(),
{
    lemma_field_roundtrip(a, width);
    lemma_field_roundtrip(b, width);
    if lex_le(a, b) {
        lemma_framed_monotone(a, b, width, a.len() as u8, b.len() as u8);
    } else {
        lemma_lex_le_total(a, b);
        lemma_framed_monotone(b, a, width, b.len() as u8, a.len() as u8);
        if lex_le(field(a, width), field(b, width)) {
            lemma_lex_le_antisym(field(a, width), field(b, width));
            lemma_lex_le_refl(a);
        }
    }
}

/// The four bytes of a number are ordered as the numbers.
pub proof fn lemma_be32_order(s: u32, t: u32)
    ensures
        lex_le(be32(s), be32(t)) == (s <= t),
        (be32(s) == be32(t)) == (s == t),
{
    let x = be32(s);
    let y = be32(t);
    lemma_be32_roundtrip(s);
    lemma_be32_roundtrip(t);
    let x1 = x.drop_first();
    let y1 = y.drop_first();
    let x2 = x1.drop_first();
    let y2 = y1.drop_first();
    let x3 = x2.drop_first();
    let y3 = y2.drop_first();
    assert(x1[0] == x[1] && x2[0] == x[2] && x3[0] == x[3]);
    assert(y1[0] == y[1] && y2[0] == y[2] && y3[0] == y[3]);
    assert(x.len() == 4 && x1.len() == 3 && x2.len() == 2 && x3.len() == 1);
    assert(y.len() == 4 && y1.len() == 3 && y2.len() == 2 && y3.len() == 1);
    assert(x3.drop_first().len() == 0);
    assert(lex_le(x3.drop_first(), y3.drop_first()));
    assert(lex_le(x3, y3) == (x[3] <= y[3]));
    assert(lex_le(x2, y2) == (x[2] < y[2] || (x[2] == y[2] && x[3] <= y[3])));
    assert(lex_le(x1, y1) == (x[1] < y[1] || (x[1] == y[1] && lex_le(x2, y2))));
    assert(lex_le(x, y) == (x[0] < y[0] || (x[0] == y[0] && lex_le(x1, y1))));
}

/// Appends to `out` the field of `width` bytes and one more that holds `a`.
pub(crate) fn put_field(out: &mut Vec<u8>, a: &[u8], width: usize)
    requires
        a@.len() <= width <= 255,
    ensures
        final(out)@ == old(out)@ + field(a@, width as nat),
{
    let ghost start = out@;
    let mut i: usize = 0;
    while i < a.len()
        invariant
            i <= a.len(),
            out@ == start + a@.take(i as int),
        decreases a.len() - i,
    {
        out.push(a[i]);
        proof {
            assert(a@.take(i + 1) =~= a@.take(i as int).push(a@[i as int]));
            assert(out@ =~= start + a@.take(i + 1));
        }
        i = i + 1;
    }
    proof {
        assert(a@.take(i as int) =~= a@);
        assert(out@ =~= start + a@ + zeros(0));
    }
    let mut j: usize = a.len();
    while j < width
        invariant
            a.len() <= j <= width,
            out@ == start + a@ + zeros((j - a.len()) as nat),
        decreases width - j,
    {
        out.push(0u8);
        proof {
            assert(out@ =~= start + a@ + zeros((j + 1 - a.len()) as nat));
        }
        j = j + 1;
    }
    out.push(a.len() as u8);
    proof {
        assert(out@ =~= start + field(a@, width as nat));
    }
}

/// Reads the field of `width` bytes and one more that starts at `at`: the
/// length of what it holds, where it is well formed.
pub(crate) fn get_field(b: &[u8], at: usize, width: usize) -> (r: Option<usize>)
    requires
        at + width + 1 <= b@.len(),
        width <= 255,
    ensures
        match r {
            Some(len) => len <= width && unfield(
                b@.subrange(at as int, at + width + 1),
                width as nat,
            ) == Some(b@.subrange(at as int, at + len)),
            None => unfield(b@.subrange(at as int, at + width + 1), width as nat) is None,
        },
{
    let ghost f = b@.subrange(at as int, at + width + 1);
    let n = b.len();
    let len = b[at + width] as usize;
    assert(f[width as int] == b@[at + width]);
    if len > width {
        return None;
    }
    let mut i: usize = len;
    while i < width
        invariant
            len <= i <= width,
            at + width + 1 <= b@.len(),
            n == b@.len(),
            f == b@.subrange(at as int, at + width + 1),
            f[width as int] as nat == len,
            forall|j: int| len <= j < i ==> #[trigger] f[j] == 0,
        decreases width - i,
    {
        if b[at + i] != 0 {
            proof {
                assert(f[i as int] == b@[at + i]);
            }
            return None;
        }
        proof {
            assert(f[i as int] == b@[at + i]);
        }
        i = i + 1;
    }
    proof {
        assert(f.take(len as int) =~= b@.subrange(at as int, at + len));
    }
    Some(len)
}

/// Appends to `out` the four bytes of `t`, the most significant first.
pub(crate) fn put_be32(out: &mut Vec<u8>, t: u32)
    ensures
        final(out)@ == old(out)@ + be32(t),
{
    let ghost start = out@;
    out.push((t / 16777216) as u8);
    out.push(((t / 65536) % 256) as u8);
    out.push(((t / 256) % 256) as u8);
    out.push((t % 256) as u8);
    proof {
        assert(out@ =~= start + be32(t));
    }
}

/// Reads the number whose four bytes start at `at`.
pub(crate) fn get_be32(b: &[u8], at: usize) -> (t: u32)
    requires
        at + 4 <= b@.len(),
    ensures
        t == un_be32(b@.subrange(at as int, at + 4)),
{
    let ghost f = b@.subrange(at as int, at + 4);
    assert(f[0] == b@[at as int] && f[1] == b@[at + 1] && f[2] == b@[at + 2] && f[3] == b@[at
        + 3]);
    let b0 = b[at] as u32;
    let b1 = b[at + 1] as u32;
    let b2 = b[at + 2] as u32;
    let b3 = b[at + 3] as u32;
    b0 * 16777216 + b1 * 65536 + b2 * 256 + b3
}

/// Appends the bytes `a` to `out`.
pub(crate) fn put_bytes(out: &mut Vec<u8>, a: &[u8])
    ensures
        final(out)@ == old(out)@ + a@,
{
    let ghost start = out@;
    let mut i: usize = 0;
    while i < a.len()
        invariant
            i <= a.len(),
            out@ == start + a@.take(i as int),
        decreases a.len() - i,
    {
        out.push(a[i]);
        proof {
            assert(a@.take(i + 1) =~= a@.take(i as int).push(a@[i as int]));
            assert(out@ =~= start + a@.take(i + 1));
        }
        i = i + 1;
    }
    proof {
        assert(a@.take(i as int) =~= a@);
    }
}

/// A copy of the bytes of `b` from `from` to `to`.
pub(crate) fn copy_range(b: &[u8], from: usize, to: usize) -> (r: Vec<u8>)
    requires
        from <= to <= b@.len(),
    ensures
        r@ == b@.subrange(from as int, to as int),
{
    let mut out: Vec<u8> = Vec::new();
    let mut i: usize = from;
    while i < to
        invariant
            from <= i <= to <= b@.len(),
            out@ == b@.subrange(from as int, i as int),
        decreases to - i,
    {
        out.push(b[i]);
        proof {
            assert(out@ =~= b@.subrange(from as int, i + 1));
        }
        i = i + 1;
    }
    out
}

} // verus!
