use crate::common::{
    APEX_MARK, LABEL_SEPARATOR, MAX_DOMAIN_ASCII_CHAR_VALUE, MAX_DOMAIN_LABEL_LENGTH, UNDERSCORE,
};
use crate::errors::{NameFault, RecordNameError};
use crate::grammar::{
    find_label_fault, label_fault, labels, lemma_dotless_run, lemma_fault_free_bytes,
    lemma_z_text_fault_free, text_fault, z_text, LabelFault,
};
use crate::text::{
    ascii_lowercase, dominated_at, lemma_ascii_bytes, lemma_lex_dominated, lemma_lex_le_refl,
    lex_le, lower, segment, str_bytes,
};
use crate::types::zone_apex_domain::{apex_fault, is_apex_value, ZoneApexDomain};
use vstd::prelude::*;
use vstd::string::*;

verus! {

/// The greatest length of a record name qualified by its apex domain.
pub const MAX_QUALIFIED_NAME_LENGTH: usize = 255;

/// The error that a faulty label of a record name gives.
pub open spec fn name_label_fault(label: Seq<u8>, fault: LabelFault) -> NameFault {
    match fault {
        LabelFault::Empty => NameFault::NonEmptyLabel,
        LabelFault::TooLong => NameFault::LabelTooLong {
            label_length: label.len(),
            max_label_length: MAX_DOMAIN_LABEL_LENGTH as nat,
        },
        LabelFault::Invalid => NameFault::InvalidNameLabel { label },
        LabelFault::MisplacedHyphen => NameFault::MisplacedHyphen,
    }
}

/// The fully qualified name: the record name, a dot, and the apex domain.
pub open spec fn qualified(name: Seq<u8>, apex: Seq<u8>) -> Seq<u8> {
    name + seq![LABEL_SEPARATOR] + apex
}

/// Whether an underscore stands in `q` only as its first byte, if at all.
pub open spec fn underscore_only_first(q: Seq<u8>) -> bool {
    forall|i: int| 0 < i < q.len() ==> #[trigger] q[i] != UNDERSCORE
}

/// A length as a `usize` holds it: itself, or the greatest `usize` where it
/// is larger than that.
pub open spec fn saturated(n: nat) -> nat {
    if n > usize::MAX {
        usize::MAX as nat
    } else {
        n
    }
}

/// Why the bytes `name` are not a record name of the apex domain `apex`, or
/// `None` where they are one. A record name is not empty and does not end
/// with a dot. The lone `@` is a record name. Any other has labels of 1 to
/// 63 letters, digits, hyphens and underscores with no hyphen at either
/// end; qualified by the apex domain it has at most 255 bytes, and an
/// underscore only as its first byte. The first rule that fails gives the
/// error.
pub open spec fn record_fault(name: Seq<u8>, apex: Seq<u8>) -> Option<NameFault> {
    if name.len() == 0 {
        Some(NameFault::NonEmptyName)
    } else if name.last() == LABEL_SEPARATOR {
        Some(NameFault::InvalidEndWithDot)
    } else if name == seq![APEX_MARK] {
        None
    } else {
        match text_fault(name, true) {
            Some((label, fault)) => Some(name_label_fault(label, fault)),
            None => {
                if qualified(name, apex).len() > MAX_QUALIFIED_NAME_LENGTH {
                    Some(
                        NameFault::NameTooLong {
                            name_length: saturated(qualified(name, apex).len()),
                            max_name_length: MAX_QUALIFIED_NAME_LENGTH as nat,
                        },
                    )
                } else if !underscore_only_first(qualified(name, apex)) {
                    Some(NameFault::MisplacedUnderscore)
                } else {
                    None
                }
            },
        }
    }
}

/// What constructing a record name from the bytes `raw` gives: the name in
/// lower case, or the fault of that lower-case text.
pub open spec fn record_outcome(raw: Seq<u8>, apex: Seq<u8>) -> Result<Seq<u8>, NameFault> {
    match record_fault(lower(raw), apex) {
        None => Ok(lower(raw)),
        Some(fault) => Err(fault),
    }
}

/// The room that the apex domain leaves to a record name: 255 bytes less
/// the apex domain and the dot before it, and nothing where that is not
/// positive.
pub open spec fn name_budget(apex_len: nat) -> nat {
    if apex_len + 1 < MAX_QUALIFIED_NAME_LENGTH {
        (MAX_QUALIFIED_NAME_LENGTH - apex_len - 1) as nat
    } else {
        0
    }
}

/// The length of the greatest record name for a budget that is not zero:
/// the whole budget, dots counted, or one less where the last byte of the
/// budget would be a dot.
pub open spec fn max_name_len(budget: nat) -> nat {
    if budget % 64 == 0 {
        (budget - 1) as nat
    } else {
        budget
    }
}

/// The greatest record name for a budget: the letter `z` in labels of 63
/// with dots between them, as many bytes as the budget has, and no dot at
/// the end. A budget of zero leaves `@`.
pub open spec fn max_name(budget: nat) -> Seq<u8> {
    if budget == 0 {
        seq![APEX_MARK]
    } else {
        z_text(max_name_len(budget))
    }
}

/// The bytes of an apex domain that may be missing: none where it is.
pub open spec fn opt_apex_bytes(apex: Option<ZoneApexDomain>) -> Seq<u8> {
    match apex {
        Some(a) => a@,
        None => Seq::<u8>::empty(),
    }
}

/// The name of a record within a zone, relative to the zone's apex domain,
/// in lower case; `@` names the apex itself.
#[derive(Debug, Eq, PartialEq)]
pub struct RecordName(String);

impl View for RecordName {
    type V = Seq<u8>;

    closed spec fn view(&self) -> Seq<u8> {
        str_bytes(self.0@)
    }
}

impl Clone for RecordName {
    fn clone(&self) -> (r: Self)
        ensures
            r@ == self@,
    {
        RecordName(self.0.clone())
    }
}

impl Default for RecordName {
    /// The name `@`, which stands for the apex itself.
    fn default() -> (r: Self)
        ensures
            r@ == seq![APEX_MARK],
    {
        Self::min_value()
    }
}

impl RecordName {
    /// The greatest length of a record name qualified by its apex domain.
    pub const MAX_SIZE: usize = MAX_QUALIFIED_NAME_LENGTH;

    /// Makes a record name of `name`, in lower case, or says why `name` is
    /// none for the apex domain.
    pub fn new(name: String, apex_domain: &ZoneApexDomain) -> (r: Result<Self, RecordNameError>)
        ensures
            match r {
                Ok(n) => record_outcome(str_bytes(name@), apex_domain@) == Ok::<
                    Seq<u8>,
                    NameFault,
                >(n@),
                Err(e) => record_outcome(str_bytes(name@), apex_domain@) == Err::<
                    Seq<u8>,
                    NameFault,
                >(e@),
            },
    {
        let lowered = ascii_lowercase(name.as_str());
        match Self::validate(lowered.as_str(), apex_domain) {
            Ok(()) => Ok(RecordName(lowered)),
            Err(e) => Err(e),
        }
    }

    /// The name as a string slice.
    pub fn as_str(&self) -> (r: &str)
        ensures
            str_bytes(r@) == self@,
    {
        self.0.as_str()
    }

    /// Checks that `record_name` is a record name of the apex domain.
    #[verifier::loop_isolation(false)]
    pub fn validate(record_name: &str, apex_domain: &ZoneApexDomain) -> (r: Result<
        (),
        RecordNameError,
    >)
        ensures
            match r {
                Ok(()) => record_fault(str_bytes(record_name@), apex_domain@) is None,
                Err(e) => record_fault(str_bytes(record_name@), apex_domain@) == Some(e@),
            },
    {
        let bytes = record_name.as_bytes();
        let n = bytes.len();
        if n == 0 {
            return Err(RecordNameError::NonEmptyName);
        }
        if bytes[n - 1] == LABEL_SEPARATOR {
            return Err(RecordNameError::InvalidEndWithDot);
        }
        if n == 1 && bytes[0] == APEX_MARK {
            assert(bytes@ =~= seq![APEX_MARK]);
            return Ok(());
        }
        assert(bytes@ != seq![APEX_MARK]) by {
            if bytes@ == seq![APEX_MARK] {
                assert(bytes@.len() == 1);
                assert(bytes@[0] == APEX_MARK);
            }
        }
        proof {
            assert(bytes@.take(n as int) =~= bytes@);
        }
        match find_label_fault(bytes, n, true) {
            Some(found) => {
                let e = match found.fault {
                    LabelFault::Empty => RecordNameError::NonEmptyLabel,
                    LabelFault::TooLong => RecordNameError::LabelTooLong {
                        label_length: found.end - found.start,
                        max_label_length: MAX_DOMAIN_LABEL_LENGTH,
                    },
                    LabelFault::Invalid => RecordNameError::InvalidNameLabel {
                        label: segment(record_name, found.start, found.end).to_owned(),
                    },
                    LabelFault::MisplacedHyphen => RecordNameError::MisplacedHyphen,
                };
                return Err(e);
            },
            None => {},
        }
        let apex = apex_domain.as_str().as_bytes();
        let ghost q = qualified(bytes@, apex@);
        let total: usize = match n.checked_add(1 + apex.len()) {
            Some(t) => t,
            None => usize::MAX,
        };
        if total > MAX_QUALIFIED_NAME_LENGTH {
            return Err(
                RecordNameError::NameTooLong {
                    name_length: total,
                    max_name_length: MAX_QUALIFIED_NAME_LENGTH,
                },
            );
        }
        let mut i: usize = 1;
        while i < n
            invariant
                1 <= i <= n,
                n == bytes@.len(),
                forall|j: int| 0 < j < i ==> #[trigger] bytes@[j] != UNDERSCORE,
            decreases n - i,
        {
            if bytes[i] == UNDERSCORE {
                proof {
                    assert(q[i as int] == bytes@[i as int]);
                }
                return Err(RecordNameError::MisplacedUnderscore);
            }
            i = i + 1;
        }
        proof {
            lemma_apex_has_no_underscore(apex@);
            assert forall|j: int| 0 < j < q.len() implies #[trigger] q[j] != UNDERSCORE by {
                if j < n {
                    assert(q[j] == bytes@[j]);
                } else if j > n {
                    assert(q[j] == apex@[j - n - 1]);
                }
            }
        }
        Ok(())
    }

    /// The greatest record name for the apex domain: a record name of that
    /// domain which no record name of the domain comes after.
    pub fn max_value(apex_domain: Option<ZoneApexDomain>) -> (r: RecordName)
        ensures
            r@ == max_name(name_budget(opt_apex_bytes(apex_domain).len())),
            record_fault(r@, opt_apex_bytes(apex_domain)) is None,
            opt_apex_bytes(apex_domain).len() <= 253 ==> r@.len() + 1 + opt_apex_bytes(
                apex_domain,
            ).len() <= MAX_QUALIFIED_NAME_LENGTH,
    {
        let apex_len: usize = match &apex_domain {
            Some(apex) => apex.as_str().as_bytes().len(),
            None => 0,
        };
        proof {
            let apex = opt_apex_bytes(apex_domain);
            if apex_domain is Some {
                lemma_apex_has_no_underscore(apex);
            }
            lemma_max_name_fits(apex);
        }
        let budget: usize = if apex_len < MAX_QUALIFIED_NAME_LENGTH - 1 {
            MAX_QUALIFIED_NAME_LENGTH - apex_len - 1
        } else {
            0
        };
        if budget == 0 {
            return Self::min_value();
        }
        let total: usize = if budget % 64 == 0 {
            budget - 1
        } else {
            budget
        };
        let mut text = String::new();
        let mut i: usize = 0;
        while i < total
            invariant
                i <= total <= 254,
                text@ == Seq::new(
                    i as nat,
                    |j: int|
                        if j % 64 == 63 {
                            '.'
                        } else {
                            'z'
                        },
                ),
            decreases total - i,
        {
            let ghost before = text@;
            if i % 64 == 63 {
                text.append(".");
                proof {
                    reveal_strlit(".");
                    assert(text@ =~= before.push('.'));
                }
            } else {
                text.append("z");
                proof {
                    reveal_strlit("z");
                    assert(text@ =~= before.push('z'));
                }
            }
            i = i + 1;
            proof {
                assert(text@ =~= Seq::new(
                    i as nat,
                    |j: int|
                        if j % 64 == 63 {
                            '.'
                        } else {
                            'z'
                        },
                ));
            }
        }
        proof {
            lemma_ascii_bytes(text@);
            assert(str_bytes(text@) =~= max_name(budget as nat));
        }
        RecordName(text)
    }

    /// The least record name, `@`.
    pub fn min_value() -> (r: RecordName)
        ensures
            r@ == seq![APEX_MARK],
    {
        let s = String::from_str("@");
        proof {
            reveal_strlit("@");
            assert(s@ =~= seq!['@']);
            lemma_ascii_bytes(s@);
            assert(str_bytes(s@) =~= seq![APEX_MARK]);
        }
        RecordName(s)
    }
}

/// The case of a text does not matter to whether it makes a record name,
/// nor to which: a text and the same text in lower case give one outcome.
pub proof fn law_record_name_case_insensitive(raw: Seq<u8>, apex: Seq<u8>)
    ensures
        record_outcome(lower(raw), apex) == record_outcome(raw, apex),
        record_outcome(raw, apex) matches Ok(name) ==> record_outcome(name, apex) == Ok::<
            Seq<u8>,
            NameFault,
        >(name),
{
    crate::text::lemma_lower_idempotent(raw);
}

/// The rule of record names, all at once: a text is a record name of an
/// apex domain exactly where it is not empty, does not end with a dot, and
/// is the lone `@` or else has labels without fault, at most 255 bytes
/// when qualified, and an underscore only as its first byte.
pub proof fn law_record_name_rule(name: Seq<u8>, apex: Seq<u8>)
    ensures
        record_fault(name, apex) is None <==> {
            &&& name.len() >= 1
            &&& name.last() != LABEL_SEPARATOR
            &&& name == seq![APEX_MARK] || {
                &&& forall|i: int|
                    0 <= i < labels(name).len() ==> label_fault(
                        #[trigger] labels(name)[i],
                        true,
                    ) is None
                &&& qualified(name, apex).len() <= MAX_QUALIFIED_NAME_LENGTH
                &&& underscore_only_first(qualified(name, apex))
            }
        },
{
    crate::grammar::law_fault_free_labels(labels(name), true);
}

/// A record name of any apex domain is one of the lone dot, which leaves
/// the most room of all.
pub proof fn law_lone_dot_admits(name: Seq<u8>, apex: Seq<u8>)
    requires
        apex.len() >= 1,
        record_fault(name, apex) is None,
    ensures
        record_fault(name, seq![LABEL_SEPARATOR]) is None,
{
    if name != seq![APEX_MARK] {
        let q = qualified(name, apex);
        let least = qualified(name, seq![LABEL_SEPARATOR]);
        assert(q.len() == name.len() + 1 + apex.len());
        assert(least.len() == name.len() + 2);
        assert forall|i: int| 0 < i < least.len() implies #[trigger] least[i] != UNDERSCORE by {
            if i < name.len() {
                assert(least[i] == name[i]);
                assert(q[i] == name[i]);
            }
        }
    }
}

/// No byte of a record name comes after the letter `z`: this is what makes
/// a text of `z` an upper bound of the names.
pub proof fn law_record_name_bytes(name: Seq<u8>, apex: Seq<u8>)
    requires
        record_fault(name, apex) is None,
    ensures
        name.len() >= 1,
        forall|i: int| 0 <= i < name.len() ==> #[trigger] name[i] <= MAX_DOMAIN_ASCII_CHAR_VALUE,
{
    if name != seq![APEX_MARK] {
        lemma_fault_free_bytes(name, true);
    }
}

/// No apex domain holds an underscore.
pub proof fn lemma_apex_has_no_underscore(apex: Seq<u8>)
    requires
        is_apex_value(apex),
    ensures
        forall|i: int| 0 <= i < apex.len() ==> #[trigger] apex[i] != UNDERSCORE,
{
    if apex != seq![LABEL_SEPARATOR] {
        let body = apex.drop_last();
        lemma_fault_free_bytes(body, false);
        assert forall|i: int| 0 <= i < apex.len() implies #[trigger] apex[i] != UNDERSCORE by {
            if i < body.len() {
                assert(body[i] == apex[i]);
            }
        }
    }
}

/// The greatest record name for a budget is a record name of every apex
/// domain that leaves that budget, and fits the budget where it is not the
/// lone `@`.
pub proof fn lemma_max_name_fits(apex: Seq<u8>)
    requires
        forall|i: int| 0 <= i < apex.len() ==> #[trigger] apex[i] != UNDERSCORE,
    ensures
        record_fault(max_name(name_budget(apex.len())), apex) is None,
        max_name(name_budget(apex.len())).len() >= 1,
        apex.len() <= 253 ==> max_name(name_budget(apex.len())).len() + 1 + apex.len()
            <= MAX_QUALIFIED_NAME_LENGTH,
{
    let budget = name_budget(apex.len());
    let m = max_name(budget);
    if budget == 0 {
        assert(m.last() == m[0]);
    } else {
        let len = max_name_len(budget);
        assert(len >= 1 && len % 64 != 0);
        assert(m.last() == m[len - 1]);
        assert(m[0] == MAX_DOMAIN_ASCII_CHAR_VALUE);
        lemma_z_text_fault_free(len, true);
        let q = qualified(m, apex);
        assert(q.len() == len + 1 + apex.len());
        assert forall|i: int| 0 < i < q.len() implies #[trigger] q[i] != UNDERSCORE by {
            if i < len {
                assert(q[i] == m[i]);
            } else if i > len {
                assert(q[i] == apex[i - len - 1]);
            }
        }
    }
}

/// The greatest record name for an apex domain is a record name of that
/// domain: qualified by the domain it has at most 255 bytes.
pub proof fn law_max_name_is_record_name(apex: Seq<u8>)
    requires
        is_apex_value(apex),
    ensures
        record_fault(max_name(name_budget(apex.len())), apex) is None,
        apex.len() <= 253 ==> qualified(max_name(name_budget(apex.len())), apex).len()
            <= MAX_QUALIFIED_NAME_LENGTH,
{
    lemma_apex_has_no_underscore(apex);
    lemma_max_name_fits(apex);
    let m = max_name(name_budget(apex.len()));
    assert(qualified(m, apex).len() == m.len() + 1 + apex.len());
}

/// No record name of an apex domain comes after the greatest record name
/// for that domain, in the lexicographic order of their bytes.
pub proof fn law_max_name_dominates(name: Seq<u8>, apex: Seq<u8>)
    requires
        is_apex_value(apex),
        record_fault(name, apex) is None,
    ensures
        lex_le(name, max_name(name_budget(apex.len()))),
{
    let budget = name_budget(apex.len());
    let m = max_name(budget);
    if name == seq![APEX_MARK] {
        if budget == 0 {
            lemma_lex_le_refl(name);
        } else {
            assert(m.len() >= 1);
            assert(m[0] == MAX_DOMAIN_ASCII_CHAR_VALUE);
        }
    } else {
        assert(qualified(name, apex).len() == name.len() + 1 + apex.len());
        assert(name.len() <= budget);
        lemma_fault_free_bytes(name, true);
        assert forall|i: int| 0 <= i < name.len() implies #[trigger] dominated_at(name, m, i) by {
            if i <= m.len() && name.take(i) == m.take(i) {
                if i == m.len() {
                    assert(i % 64 == 63);
                    assert(name[i] == name.last());
                }
                if i % 64 == 63 && name[i] != LABEL_SEPARATOR {
                    assert forall|j: int| i - 63 <= j < i + 1 implies #[trigger] name[j]
                        != LABEL_SEPARATOR by {
                        if j < i {
                            assert(name[j] == name.take(i)[j]);
                            assert(m[j] == m.take(i)[j]);
                        }
                    }
                    lemma_dotless_run(name, true, i - 63, i + 1);
                }
            }
        }
        lemma_lex_dominated(name, m);
    }
}

} // verus!
