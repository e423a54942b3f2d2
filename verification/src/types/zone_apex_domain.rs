use crate::common::{LABEL_SEPARATOR, MAX_DOMAIN_LABEL_LENGTH, MAX_DOMAIN_NAME_LENGTH};
use crate::errors::{ApexFault, ZoneApexDomainError};
use crate::grammar::{
    find_label_fault, first_dot, label_fault, labels, lemma_dotless_run, lemma_fault_free_bytes,
    lemma_first_dot_bounds, lemma_text_fault_unfold, lemma_z_text_fault_free, text_fault, z_text,
    LabelFault,
};
use crate::text::{
    ascii_lowercase, dominated_at, is_lower, lemma_ascii_bytes, lemma_lex_dominated,
    lemma_lower_idempotent, lex_le, lower, segment, str_bytes,
};
use crate::utils::{max_domain_name, max_domain_name_bytes};
use vstd::prelude::*;
use vstd::string::*;

verus! {

/// The error that a faulty label of an apex domain name gives.
pub open spec fn apex_label_fault(label: Seq<u8>, fault: LabelFault) -> ApexFault {
    match fault {
        LabelFault::Empty => ApexFault::NonEmptyLabel,
        LabelFault::TooLong => ApexFault::DomainLabelTooLong {
            label_length: label.len(),
            max_label_length: MAX_DOMAIN_LABEL_LENGTH as nat,
        },
        LabelFault::Invalid => ApexFault::InvalidDomainNameLabel { label },
        LabelFault::MisplacedHyphen => ApexFault::MisplacedHyphen,
    }
}

/// Why the bytes `s` are not an apex domain name, or `None` where they are
/// one. A name is not empty, has at most 255 bytes and ends with a dot; each
/// label before that dot has 1 to 63 letters, digits and hyphens, and no
/// hyphen at either end. The first rule that fails gives the error, label
/// by label.
pub open spec fn apex_fault(s: Seq<u8>) -> Option<ApexFault> {
    if s.len() == 0 {
        Some(ApexFault::NonEmptyDomain)
    } else if s.len() > MAX_DOMAIN_NAME_LENGTH {
        Some(
            ApexFault::DomainTooLong {
                domain_name_length: s.len(),
                max_domain_name_length: MAX_DOMAIN_NAME_LENGTH as nat,
            },
        )
    } else if s.last() != LABEL_SEPARATOR {
        Some(ApexFault::MissingEndWithDot)
    } else {
        match text_fault(s.drop_last(), false) {
            None => None,
            Some((label, fault)) => Some(apex_label_fault(label, fault)),
        }
    }
}

/// What constructing an apex domain from the bytes `raw` gives: the name in
/// lower case, or the fault of that lower-case text.
pub open spec fn apex_outcome(raw: Seq<u8>) -> Result<Seq<u8>, ApexFault> {
    match apex_fault(lower(raw)) {
        None => Ok(lower(raw)),
        Some(fault) => Err(fault),
    }
}

/// Whether `s` is what an apex domain holds: a valid name in lower case, or
/// the lone dot that stands below every name.
pub open spec fn is_apex_value(s: Seq<u8>) -> bool {
    s == seq![LABEL_SEPARATOR] || (apex_fault(s) is None && is_lower(s))
}

/// The case of a text does not matter to whether it makes an apex domain,
/// nor to which: a text and the same text in lower case give one outcome.
pub proof fn law_apex_case_insensitive(raw: Seq<u8>)
    ensures
        apex_outcome(lower(raw)) == apex_outcome(raw),
        apex_outcome(raw) matches Ok(name) ==> is_apex_value(name) && apex_outcome(name) == Ok::<
            Seq<u8>,
            ApexFault,
        >(name),
{
    lemma_lower_idempotent(raw);
}

/// The rule of apex domain names, all at once: a text is an apex domain
/// name exactly where it has 1 to 255 bytes, ends with a dot, and each label
/// before that dot is without fault.
pub proof fn law_apex_name_rule(s: Seq<u8>)
    ensures
        apex_fault(s) is None <==> {
            &&& 1 <= s.len() <= MAX_DOMAIN_NAME_LENGTH
            &&& s.last() == LABEL_SEPARATOR
            &&& forall|i: int|
                0 <= i < labels(s.drop_last()).len() ==> label_fault(
                    #[trigger] labels(s.drop_last())[i],
                    false,
                ) is None
        },
{
    crate::grammar::law_fault_free_labels(labels(s.drop_last()), false);
}

/// An apex domain holds nothing but the letters `a` to `z`, digits, hyphens
/// and dots, and no more than 255 of them.
pub proof fn law_apex_bytes(s: Seq<u8>)
    requires
        is_apex_value(s),
    ensures
        1 <= s.len() <= MAX_DOMAIN_NAME_LENGTH,
        forall|i: int|
            0 <= i < s.len() ==> (97 <= #[trigger] s[i] <= 122) || (48 <= s[i] <= 57) || s[i]
                == crate::common::HYPHEN || s[i] == LABEL_SEPARATOR,
{
    if s != seq![LABEL_SEPARATOR] {
        let body = s.drop_last();
        crate::grammar::lemma_fault_free_bytes(body, false);
        assert forall|i: int| 0 <= i < s.len() implies (97 <= #[trigger] s[i] <= 122) || (48
            <= s[i] <= 57) || s[i] == crate::common::HYPHEN || s[i] == LABEL_SEPARATOR by {
            if i < body.len() {
                assert(body[i] == s[i]);
            } else {
                assert(s[i] == s.last());
            }
        }
    }
}

/// The greatest domain name is an apex domain name in lower case.
pub proof fn lemma_max_domain_name_is_apex()
    ensures
        apex_fault(max_domain_name_bytes()) is None,
        is_lower(max_domain_name_bytes()),
        max_domain_name_bytes().len() == 255,
{
    let m = max_domain_name_bytes();
    assert(m.last() == LABEL_SEPARATOR);
    assert(m.drop_last() =~= z_text(254));
    lemma_z_text_fault_free(254, false);
}

/// The two ends of the apex domain names: none comes after the greatest
/// domain name, and none before the lone dot.
pub proof fn law_max_domain_name_dominates(a: Seq<u8>)
    requires
        apex_fault(a) is None,
    ensures
        lex_le(a, max_domain_name_bytes()),
        lex_le(seq![LABEL_SEPARATOR], a),
{
    let m = max_domain_name_bytes();
    let body = a.drop_last();
    lemma_fault_free_bytes(body, false);
    assert forall|i: int| 0 <= i < a.len() implies #[trigger] dominated_at(a, m, i) by {
        if i <= m.len() && a.take(i) == m.take(i) {
            if i == a.len() - 1 {
                assert(a[i] == a.last());
            } else {
                assert(a[i] == body[i]);
                if i % 64 == 63 && a[i] != LABEL_SEPARATOR {
                    assert forall|j: int| i - 63 <= j < i + 1 implies #[trigger] body[j]
                        != LABEL_SEPARATOR by {
                        if j < i {
                            assert(body[j] == a[j]);
                            assert(a[j] == a.take(i)[j]);
                            assert(m[j] == m.take(i)[j]);
                        }
                    }
                    lemma_dotless_run(body, false, i - 63, i + 1);
                }
            }
        }
    }
    lemma_lex_dominated(a, m);
    lemma_first_dot_bounds(body);
    lemma_text_fault_unfold(body, false);
    let label = body.take(first_dot(body));
    assert(label[0] == body[0]);
    assert(body[0] == a[0]);
    assert(a[0] != LABEL_SEPARATOR);
    assert(seq![LABEL_SEPARATOR][0] == LABEL_SEPARATOR);
}

/// The lone dot is no apex domain name: its one label is empty.
pub proof fn lemma_lone_dot_is_no_name(s: Seq<u8>)
    requires
        is_apex_value(s),
    ensures
        s.len() >= 1,
        s.len() <= MAX_DOMAIN_NAME_LENGTH,
        s.len() == 1 <==> s == seq![LABEL_SEPARATOR],
        s.len() == 1 ==> apex_fault(s) is Some,
        s.len() > 1 ==> apex_fault(s) is None && is_lower(s),
{
    if s.len() == 1 {
        assert(s.last() == s[0]);
        if s[0] == LABEL_SEPARATOR {
            assert(s =~= seq![LABEL_SEPARATOR]);
        }
        let body = s.drop_last();
        assert(body.len() == 0);
        crate::grammar::lemma_text_fault_unfold(body, false);
        crate::grammar::lemma_first_dot_bounds(body);
        assert(body.take(0).len() == 0);
    }
}

/// The apex domain name of a zone, such as `mydomain.tld.`: fully qualified,
/// in lower case.
#[derive(Debug, Eq, PartialEq)]
pub struct ZoneApexDomain(String);

impl View for ZoneApexDomain {
    type V = Seq<u8>;

    closed spec fn view(&self) -> Seq<u8> {
        str_bytes(self.0@)
    }
}

impl Clone for ZoneApexDomain {
    fn clone(&self) -> (r: Self)
        ensures
            r@ == self@,
    {
        proof {
            use_type_invariant(self);
        }
        ZoneApexDomain(self.0.clone())
    }
}

impl Default for ZoneApexDomain {
    /// The lone dot, which stands below every name.
    fn default() -> (r: Self)
        ensures
            r@ == seq![LABEL_SEPARATOR],
    {
        let s = String::from_str(".");
        proof {
            reveal_strlit(".");
            assert(s@ =~= seq!['.']);
            lemma_ascii_bytes(s@);
            assert(str_bytes(s@) =~= seq![LABEL_SEPARATOR]);
        }
        ZoneApexDomain(s)
    }
}

impl ZoneApexDomain {
    /// The greatest length of a domain name, in bytes.
    pub const MAX_SIZE: usize = MAX_DOMAIN_NAME_LENGTH;

    /// What holds of every apex domain.
    #[verifier::type_invariant]
    pub open spec fn well_formed(&self) -> bool {
        is_apex_value(self@)
    }

    /// The greatest domain name, which ends a range that is open above.
    pub fn max_value() -> (r: Self)
        ensures
            r@ == max_domain_name_bytes(),
    {
        let text = max_domain_name();
        proof {
            lemma_max_domain_name_is_apex();
        }
        ZoneApexDomain(text)
    }

    /// Makes an apex domain of `name`, in lower case, or says why `name` is
    /// none.
    pub fn new(name: String) -> (r: Result<Self, ZoneApexDomainError>)
        ensures
            match r {
                Ok(apex) => apex_outcome(str_bytes(name@)) == Ok::<Seq<u8>, ApexFault>(apex@),
                Err(e) => apex_outcome(str_bytes(name@)) == Err::<Seq<u8>, ApexFault>(e@),
            },
    {
        let lowered = ascii_lowercase(name.as_str());
        match Self::validate(lowered.as_str()) {
            Ok(()) => {
                proof {
                    lemma_lower_idempotent(str_bytes(name@));
                }
                Ok(ZoneApexDomain(lowered))
            },
            Err(e) => Err(e),
        }
    }

    /// The name as a string slice.
    pub fn as_str(&self) -> (r: &str)
        ensures
            str_bytes(r@) == self@,
            is_apex_value(self@),
    {
        proof {
            use_type_invariant(self);
        }
        self.0.as_str()
    }

    /// Checks that `domain_name` is an apex domain name.
    pub fn validate(domain_name: &str) -> (r: Result<(), ZoneApexDomainError>)
        ensures
            match r {
                Ok(()) => apex_fault(str_bytes(domain_name@)) is None,
                Err(e) => apex_fault(str_bytes(domain_name@)) == Some(e@),
            },
    {
        let bytes = domain_name.as_bytes();
        let n = bytes.len();
        if n == 0 {
            return Err(ZoneApexDomainError::NonEmptyDomain);
        }
        if n > MAX_DOMAIN_NAME_LENGTH {
            return Err(
                ZoneApexDomainError::DomainTooLong {
                    domain_name_length: n,
                    max_domain_name_length: MAX_DOMAIN_NAME_LENGTH,
                },
            );
        }
        if bytes[n - 1] != LABEL_SEPARATOR {
            return Err(ZoneApexDomainError::MissingEndWithDot);
        }
        proof {
            assert(bytes@.take(n - 1) =~= bytes@.drop_last());
        }
        match find_label_fault(bytes, n - 1, false) {
            None => Ok(()),
            Some(found) => {
                let e = match found.fault {
                    LabelFault::Empty => ZoneApexDomainError::NonEmptyLabel,
                    LabelFault::TooLong => ZoneApexDomainError::DomainLabelTooLong {
                        label_length: found.end - found.start,
                        max_label_length: MAX_DOMAIN_LABEL_LENGTH,
                    },
                    LabelFault::Invalid => ZoneApexDomainError::InvalidDomainNameLabel {
                        label: segment(domain_name, found.start, found.end).to_owned(),
                    },
                    LabelFault::MisplacedHyphen => ZoneApexDomainError::MisplacedHyphen,
                };
                Err(e)
            },
        }
    }
}

} // verus!
