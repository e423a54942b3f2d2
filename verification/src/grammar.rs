//! The label grammar shared by apex domains and record names: a name is a
//! run of labels separated by dots, and each label has to be well formed.

use crate::common::{HYPHEN, LABEL_SEPARATOR, MAX_DOMAIN_LABEL_LENGTH, UNDERSCORE};
use vstd::prelude::*;

verus! {

/// What can be wrong with a single label.
#[derive(Clone, Copy, Debug, PartialEq, Eq, Structural)]
pub enum LabelFault {
    /// The label has no bytes.
    Empty,
    /// The label is longer than a label may be.
    TooLong,
    /// The label holds a byte outside the accepted set.
    Invalid,
    /// The label starts or ends with a hyphen.
    MisplacedHyphen,
}

/// The first faulty label of a text, by its byte range, and its fault.
pub struct FaultyLabel {
    /// Offset of the label's first byte.
    pub start: usize,
    /// Offset just behind the label's last byte.
    pub end: usize,
    /// What is wrong with the label.
    pub fault: LabelFault,
}

/// Whether `b` is an ASCII letter or digit.
pub open spec fn is_alnum(b: u8) -> bool {
    (48 <= b <= 57) || (65 <= b <= 90) || (97 <= b <= 122)
}

/// Whether `b` may stand in a label; the underscore only where `underscore`
/// admits it.
pub open spec fn label_byte(b: u8, underscore: bool) -> bool {
    is_alnum(b) || b == HYPHEN || (underscore && b == UNDERSCORE)
}

/// Whether every byte of `l` may stand in a label.
pub open spec fn all_label_bytes(l: Seq<u8>, underscore: bool) -> bool {
    forall|i: int| 0 <= i < l.len() ==> label_byte(#[trigger] l[i], underscore)
}

/// The fault of the label `l`, if it has one. The rules apply in this order:
/// not empty, not too long, accepted bytes only, no hyphen at either end.
pub open spec fn label_fault(l: Seq<u8>, underscore: bool) -> Option<LabelFault> {
    if l.len() == 0 {
        Some(LabelFault::Empty)
    } else if l.len() > MAX_DOMAIN_LABEL_LENGTH {
        Some(LabelFault::TooLong)
    } else if !all_label_bytes(l, underscore) {
        Some(LabelFault::Invalid)
    } else if l[0] == HYPHEN || l.last() == HYPHEN {
        Some(LabelFault::MisplacedHyphen)
    } else {
        None
    }
}

/// The length of the first label of `s`: the number of bytes before its
/// first dot, or all of them where it has none.
pub open spec fn first_dot(s: Seq<u8>) -> int
    decreases s.len(),
{
    if s.len() == 0 || s[0] == LABEL_SEPARATOR {
        0
    } else {
        1 + first_dot(s.drop_first())
    }
}

/// The labels of `s`: the parts between its dots. A text without a dot is
/// one label, and a text that ends with a dot has an empty last label.
pub open spec fn labels(s: Seq<u8>) -> Seq<Seq<u8>>
    decreases s.len(),
{
    let k = first_dot(s);
    if 0 <= k && k < s.len() {
        seq![s.take(k)] + labels(s.skip(k + 1))
    } else {
        seq![s]
    }
}

/// The first label among `ls` that has a fault, with that fault.
pub open spec fn first_fault(ls: Seq<Seq<u8>>, underscore: bool) -> Option<(Seq<u8>, LabelFault)>
    decreases ls.len(),
{
    if ls.len() == 0 {
        None
    } else {
        match label_fault(ls[0], underscore) {
            Some(f) => Some((ls[0], f)),
            None => first_fault(ls.drop_first(), underscore),
        }
    }
}

/// The first faulty label of the text `s`, with its fault.
pub open spec fn text_fault(s: Seq<u8>, underscore: bool) -> Option<(Seq<u8>, LabelFault)> {
    first_fault(labels(s), underscore)
}

/// No label among `ls` has a fault exactly where none of them is the first
/// with a fault.
pub proof fn law_fault_free_labels(ls: Seq<Seq<u8>>, underscore: bool)
    ensures
        first_fault(ls, underscore) is None <==> forall|i: int|
            0 <= i < ls.len() ==> label_fault(#[trigger] ls[i], underscore) is None,
    decreases ls.len(),
{
    if ls.len() > 0 {
        let rest = ls.drop_first();
        law_fault_free_labels(rest, underscore);
        if first_fault(ls, underscore) is None {
            assert forall|i: int| 0 <= i < ls.len() implies label_fault(
                #[trigger] ls[i],
                underscore,
            ) is None by {
                if i > 0 {
                    assert(ls[i] == rest[i - 1]);
                }
            }
        }
        if forall|i: int| 0 <= i < ls.len() ==> label_fault(#[trigger] ls[i], underscore) is None {
            assert(label_fault(ls[0], underscore) is None);
            assert forall|i: int| 0 <= i < rest.len() implies label_fault(
                #[trigger] rest[i],
                underscore,
            ) is None by {
                assert(rest[i] == ls[i + 1]);
            }
        }
    }
}

pub proof fn lemma_first_dot_bounds(s: Seq<u8>)
    ensures
        0 <= first_dot(s) <= s.len(),
        first_dot(s) < s.len() ==> s[first_dot(s)] == LABEL_SEPARATOR,
        forall|j: int| 0 <= j < first_dot(s) ==> #[trigger] s[j] != LABEL_SEPARATOR,
    decreases s.len(),
{
    if s.len() == 0 || s[0] == LABEL_SEPARATOR {
    } else {
        let t = s.drop_first();
        lemma_first_dot_bounds(t);
        assert forall|j: int| 0 <= j < first_dot(s) implies #[trigger] s[j] != LABEL_SEPARATOR by {
            if j > 0 {
                assert(s[j] == t[j - 1]);
            }
        }
    }
}

/// The first label ends at `d` where no byte before `d` is a dot and `d` is
/// a dot or the end.
pub proof fn lemma_first_dot_is(s: Seq<u8>, d: int)
    requires
        0 <= d <= s.len(),
        forall|j: int| 0 <= j < d ==> #[trigger] s[j] != LABEL_SEPARATOR,
        d == s.len() || s[d] == LABEL_SEPARATOR,
    ensures
        first_dot(s) == d,
    decreases d,
{
    if d > 0 {
        let t = s.drop_first();
        assert forall|j: int| 0 <= j < d - 1 implies #[trigger] t[j] != LABEL_SEPARATOR by {
            assert(t[j] == s[j + 1]);
        }
        lemma_first_dot_is(t, d - 1);
    }
}

/// How the fault of a text follows from its first label and the text
/// behind that label's dot.
pub proof fn lemma_text_fault_unfold(s: Seq<u8>, underscore: bool)
    ensures
        text_fault(s, underscore) == match label_fault(s.take(first_dot(s)), underscore) {
            Some(f) => Some((s.take(first_dot(s)), f)),
            None => if first_dot(s) < s.len() {
                text_fault(s.skip(first_dot(s) + 1), underscore)
            } else {
                None
            },
        },
{
    lemma_first_dot_bounds(s);
    let k = first_dot(s);
    if k < s.len() {
        let rest = labels(s.skip(k + 1));
        let all = seq![s.take(k)] + rest;
        assert(labels(s) == all);
        assert(all[0] == s.take(k));
        assert(all.drop_first() =~= rest);
    } else {
        assert(s.take(k) =~= s);
        assert(labels(s) == seq![s]);
        assert(seq![s].drop_first() =~= Seq::<Seq<u8>>::empty());
        assert(first_fault(Seq::<Seq<u8>>::empty(), underscore) is None);
    }
}

/// A first label of 1 to 63 times the letter `z` has no fault: the fault of
/// the text is that of what follows the label's dot.
pub proof fn lemma_z_label_step(s: Seq<u8>, k: int, underscore: bool)
    requires
        1 <= k <= MAX_DOMAIN_LABEL_LENGTH,
        k <= s.len(),
        forall|j: int| 0 <= j < k ==> #[trigger] s[j] == 122,
        k == s.len() || s[k] == LABEL_SEPARATOR,
    ensures
        text_fault(s, underscore) == if k < s.len() {
            text_fault(s.skip(k + 1), underscore)
        } else {
            None
        },
{
    lemma_first_dot_is(s, k);
    lemma_text_fault_unfold(s, underscore);
    let label = s.take(k);
    assert forall|i: int| 0 <= i < label.len() implies label_byte(
        #[trigger] label[i],
        underscore,
    ) by {
        assert(label[i] == s[i]);
    }
    assert(label[0] == s[0]);
    assert(label.last() == s[k - 1]);
}

/// The text of `n` bytes that no text of its length comes after: the letter
/// `z` throughout, in labels of 63, with a dot behind each full label.
pub open spec fn z_text(n: nat) -> Seq<u8> {
    Seq::new(
        n,
        |i: int|
            if i % 64 == 63 {
                LABEL_SEPARATOR
            } else {
                122u8
            },
    )
}

/// A text of `z` that does not end with a dot has no faulty label.
pub proof fn lemma_z_text_fault_free(n: nat, underscore: bool)
    requires
        n >= 1,
        n % 64 != 0,
    ensures
        text_fault(z_text(n), underscore) is None,
    decreases n,
{
    let s = z_text(n);
    if n <= 63 {
        lemma_z_label_step(s, n as int, underscore);
    } else {
        assert(s[63] == LABEL_SEPARATOR);
        lemma_z_label_step(s, 63, underscore);
        assert(s.skip(64) =~= z_text((n - 64) as nat));
        lemma_z_text_fault_free((n - 64) as nat, underscore);
    }
}

/// Every byte of a text without a faulty label is a dot or a label byte.
pub proof fn lemma_fault_free_bytes(s: Seq<u8>, underscore: bool)
    requires
        text_fault(s, underscore) is None,
    ensures
        forall|i: int|
            0 <= i < s.len() ==> #[trigger] s[i] == LABEL_SEPARATOR || label_byte(s[i], underscore),
    decreases s.len(),
{
    lemma_first_dot_bounds(s);
    lemma_text_fault_unfold(s, underscore);
    let k = first_dot(s);
    let head = s.take(k);
    assert(all_label_bytes(head, underscore));
    if k < s.len() {
        let rest = s.skip(k + 1);
        lemma_fault_free_bytes(rest, underscore);
        assert forall|i: int| 0 <= i < s.len() implies #[trigger] s[i] == LABEL_SEPARATOR
            || label_byte(s[i], underscore) by {
            if i < k {
                assert(head[i] == s[i]);
            } else if i > k {
                assert(rest[i - k - 1] == s[i]);
            }
        }
    } else {
        assert forall|i: int| 0 <= i < s.len() implies #[trigger] s[i] == LABEL_SEPARATOR
            || label_byte(s[i], underscore) by {
            assert(head[i] == s[i]);
        }
    }
}

/// A text without a faulty label has no run of more than 63 bytes without a
/// dot.
pub proof fn lemma_dotless_run(s: Seq<u8>, underscore: bool, a: int, b: int)
    requires
        text_fault(s, underscore) is None,
        0 <= a <= b <= s.len(),
        forall|j: int| a <= j < b ==> #[trigger] s[j] != LABEL_SEPARATOR,
    ensures
        b - a <= MAX_DOMAIN_LABEL_LENGTH,
    decreases s.len(),
{
    lemma_first_dot_bounds(s);
    lemma_text_fault_unfold(s, underscore);
    let k = first_dot(s);
    assert(s.take(k).len() == k);
    if b > k {
        assert(k < s.len());
        assert(s[k] == LABEL_SEPARATOR);
        if a <= k {
            assert(false);
        }
        let rest = s.skip(k + 1);
        assert forall|j: int| a - k - 1 <= j < b - k - 1 implies #[trigger] rest[j]
            != LABEL_SEPARATOR by {
            assert(rest[j] == s[j + k + 1]);
        }
        lemma_dotless_run(rest, underscore, a - k - 1, b - k - 1);
    }
}

/// The offset at which the label that starts at `start` ends.
fn label_end(s: &[u8], start: usize, end: usize) -> (k: usize)
    requires
        start <= end <= s.len(),
    ensures
        start <= k <= end,
        k == end || s@[k as int] == LABEL_SEPARATOR,
        forall|j: int| start <= j < k ==> #[trigger] s@[j] != LABEL_SEPARATOR,
        k - start == first_dot(s@.take(end as int).skip(start as int)),
{
    let mut k: usize = start;
    while k < end && s[k] != LABEL_SEPARATOR
        invariant
            start <= k <= end <= s.len(),
            forall|j: int| start <= j < k ==> #[trigger] s@[j] != LABEL_SEPARATOR,
        decreases end - k,
    {
        k = k + 1;
    }
    proof {
        let u = s@.take(end as int).skip(start as int);
        assert forall|j: int| 0 <= j < k - start implies #[trigger] u[j] != LABEL_SEPARATOR by {
            assert(u[j] == s@[start + j]);
        }
        lemma_first_dot_is(u, k - start);
    }
    k
}

/// Whether `b` may stand in a label.
fn is_label_byte(b: u8, underscore: bool) -> (r: bool)
    ensures
        r == label_byte(b, underscore),
{
    (48 <= b && b <= 57) || (65 <= b && b <= 90) || (97 <= b && b <= 122) || b == HYPHEN || (
    underscore && b == UNDERSCORE)
}

/// The fault of the label that holds the bytes from `start` to `end`.
fn check_label(s: &[u8], start: usize, end: usize, underscore: bool) -> (r: Option<LabelFault>)
    requires
        start <= end <= s.len(),
    ensures
        r == label_fault(s@.subrange(start as int, end as int), underscore),
{
    let ghost l = s@.subrange(start as int, end as int);
    if start == end {
        return Some(LabelFault::Empty);
    }
    if end - start > MAX_DOMAIN_LABEL_LENGTH {
        return Some(LabelFault::TooLong);
    }
    let mut i: usize = start;
    while i < end
        invariant
            start <= i <= end <= s.len(),
            start < end,
            end - start <= MAX_DOMAIN_LABEL_LENGTH,
            l == s@.subrange(start as int, end as int),
            forall|j: int| 0 <= j < i - start ==> label_byte(#[trigger] l[j], underscore),
        decreases end - i,
    {
        if !is_label_byte(s[i], underscore) {
            proof {
                assert(l[i - start] == s@[i as int]);
                assert(!all_label_bytes(l, underscore));
            }
            return Some(LabelFault::Invalid);
        }
        proof {
            assert(l[i - start] == s@[i as int]);
        }
        i = i + 1;
    }
    assert(all_label_bytes(l, underscore));
    assert(l[0] == s@[start as int]);
    assert(l.last() == s@[end - 1]);
    if s[start] == HYPHEN || s[end - 1] == HYPHEN {
        return Some(LabelFault::MisplacedHyphen);
    }
    None
}

/// Finds the first faulty label among the first `end` bytes of `s`.
pub fn find_label_fault(s: &[u8], end: usize, underscore: bool) -> (r: Option<FaultyLabel>)
    requires
        end <= s.len(),
    ensures
        match r {
            None => text_fault(s@.take(end as int), underscore) is None,
            Some(f) => {
                &&& f.start <= f.end <= end
                &&& f.start == 0 || s@[f.start - 1] == LABEL_SEPARATOR
                &&& f.end == end || s@[f.end as int] == LABEL_SEPARATOR
                &&& text_fault(s@.take(end as int), underscore) == Some(
                    (s@.subrange(f.start as int, f.end as int), f.fault),
                )
            },
        },
{
    let ghost t = s@.take(end as int);
    let mut start: usize = 0;
    proof {
        assert(t.skip(0) =~= t);
    }
    loop
        invariant
            start <= end <= s.len(),
            t == s@.take(end as int),
            start == 0 || s@[start - 1] == LABEL_SEPARATOR,
            text_fault(t, underscore) == text_fault(t.skip(start as int), underscore),
        decreases end - start,
    {
        let k = label_end(s, start, end);
        let fault = check_label(s, start, k, underscore);
        proof {
            let u = t.skip(start as int);
            lemma_text_fault_unfold(u, underscore);
            assert(u.take(k - start) =~= s@.subrange(start as int, k as int));
            if k < end {
                assert(u.skip(k - start + 1) =~= t.skip(k + 1));
            }
        }
        match fault {
            Some(f) => {
                return Some(FaultyLabel { start, end: k, fault: f });
            },
            None => {},
        }
        if k == end {
            return None;
        }
        start = k + 1;
    }
}

} // verus!
