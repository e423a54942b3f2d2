use cns_name_registry::common::{MAX_DOMAIN_LABEL_LENGTH, MAX_DOMAIN_NAME_LENGTH};
use cns_name_registry::errors::ZoneApexDomainError;
use cns_name_registry::types::ZoneApexDomain;
use cns_name_registry::utils::{max_domain_label, max_domain_name, repeat_char};

fn apex(text: &str) -> Result<ZoneApexDomain, ZoneApexDomainError> {
    ZoneApexDomain::new(String::from(text))
}

#[test]
fn apex_domain_validation_pass_regular_domain_name() {
    assert!(apex("internetcomputer.tld.").is_ok());
}

#[test]
fn apex_domain_validation_pass_short_domain_name() {
    assert!(apex("a.tld.").is_ok());
}

#[test]
fn apex_domain_validation_pass_long_domain_name() {
    assert!(apex("abcdefghijklmnopqrstuvwxyzabcdefghijklmnopqrstuvwxyz123456.tld.").is_ok());
}

#[test]
fn apex_domain_validation_pass_max_possible_domain_name() {
    let name = max_domain_name();
    assert_eq!(name.len(), 255);
    assert!(apex(&name).is_ok());
}

#[test]
fn apex_domain_validation_fail_empty_domain() {
    assert_eq!(apex("").unwrap_err(), ZoneApexDomainError::NonEmptyDomain);
}

#[test]
fn apex_domain_validation_fail_empty_label() {
    assert_eq!(apex(".tld.").unwrap_err(), ZoneApexDomainError::NonEmptyLabel);
    assert_eq!(apex("a..tld.").unwrap_err(), ZoneApexDomainError::NonEmptyLabel);
    assert_eq!(apex(".").unwrap_err(), ZoneApexDomainError::NonEmptyLabel);
}

#[test]
fn apex_domain_validation_fail_missing_end_with_dot() {
    assert_eq!(apex("internetcomputer.tld").unwrap_err(), ZoneApexDomainError::MissingEndWithDot);
}

#[test]
fn apex_domain_validation_fail_label_too_long() {
    assert_eq!(
        apex("abcdefghijklmnopqrstuvwxyzabcdefghijklmnopqrstuvwxyz123456789abc.tld.").unwrap_err(),
        ZoneApexDomainError::DomainLabelTooLong {
            label_length: 64,
            max_label_length: MAX_DOMAIN_LABEL_LENGTH
        }
    );
}

#[test]
fn apex_domain_validation_fail_invalid_hyphen_start() {
    assert_eq!(apex("-test.tld.").unwrap_err(), ZoneApexDomainError::MisplacedHyphen);
}

#[test]
fn apex_domain_validation_fail_invalid_hyphen_end() {
    assert_eq!(apex("test-.tld.").unwrap_err(), ZoneApexDomainError::MisplacedHyphen);
}

#[test]
fn apex_domain_validation_fail_invalid_name_start_with_underscore() {
    assert_eq!(
        apex("_test.tld.").unwrap_err(),
        ZoneApexDomainError::InvalidDomainNameLabel { label: String::from("_test") }
    );
}

#[test]
fn apex_domain_validation_fail_domain_too_long() {
    let mut name = String::new();
    for _ in 0..5 {
        name.push_str(&repeat_char('a', 63));
        name.push('.');
    }
    assert_eq!(name.len(), 320);
    assert_eq!(
        apex(&name).unwrap_err(),
        ZoneApexDomainError::DomainTooLong {
            domain_name_length: 320,
            max_domain_name_length: MAX_DOMAIN_NAME_LENGTH
        }
    );
}

#[test]
fn apex_domain_of_255_bytes_is_accepted_and_of_256_is_not() {
    let name = format!(
        "{}.{}.{}.{}.",
        repeat_char('a', 63),
        repeat_char('b', 63),
        repeat_char('c', 63),
        repeat_char('d', 62)
    );
    assert_eq!(name.len(), 255);
    assert!(apex(&name).is_ok());
    let longer = format!("a{}", name);
    assert_eq!(
        apex(&longer).unwrap_err(),
        ZoneApexDomainError::DomainTooLong { domain_name_length: 256, max_domain_name_length: 255 }
    );
}

#[test]
fn apex_domain_errors_come_in_the_order_of_the_rules() {
    // the second label is faulty in two ways: the bytes are looked at before the hyphens
    assert_eq!(
        apex("ok.-b_d.tld.").unwrap_err(),
        ZoneApexDomainError::InvalidDomainNameLabel { label: String::from("-b_d") }
    );
    // the first faulty label gives the error
    assert_eq!(apex("a-.b_.tld.").unwrap_err(), ZoneApexDomainError::MisplacedHyphen);
}

#[test]
fn apex_domain_is_kept_in_lower_case() {
    let upper = apex("InternetComputer.TLD.").unwrap();
    let lower = apex("internetcomputer.tld.").unwrap();
    assert_eq!(upper.as_str(), "internetcomputer.tld.");
    assert_eq!(upper, lower);
}

#[test]
fn apex_domain_error_holds_the_label_in_lower_case() {
    assert_eq!(
        apex("Te_St.tld.").unwrap_err(),
        ZoneApexDomainError::InvalidDomainNameLabel { label: String::from("te_st") }
    );
}

#[test]
fn apex_domain_of_other_than_ascii_is_refused_with_its_label() {
    assert_eq!(
        apex("caf\u{e9}.tld.").unwrap_err(),
        ZoneApexDomainError::InvalidDomainNameLabel { label: String::from("caf\u{e9}") }
    );
    assert_eq!(
        apex("a.\u{65e5}\u{672c}.tld.").unwrap_err(),
        ZoneApexDomainError::InvalidDomainNameLabel { label: String::from("\u{65e5}\u{672c}") }
    );
}

#[test]
fn apex_domain_validate_checks_without_changing_case() {
    assert!(ZoneApexDomain::validate("Example.tld.").is_ok());
    assert_eq!(
        ZoneApexDomain::validate("ex ample.tld.").unwrap_err(),
        ZoneApexDomainError::InvalidDomainNameLabel { label: String::from("ex ample") }
    );
}

#[test]
fn apex_domain_default_is_the_lone_dot() {
    assert_eq!(ZoneApexDomain::default().as_str(), ".");
}

#[test]
fn apex_domain_max_value_is_the_greatest_domain_name() {
    assert_eq!(ZoneApexDomain::max_value().as_str(), max_domain_name());
}

#[test]
fn max_domain_name_has_its_dots_at_the_ends_of_four_labels() {
    let name = max_domain_name();
    let labels: Vec<&str> = name.split('.').collect();
    assert_eq!(labels.len(), 5);
    assert_eq!(labels[0], repeat_char('z', 63));
    assert_eq!(labels[1], repeat_char('z', 63));
    assert_eq!(labels[2], repeat_char('z', 63));
    assert_eq!(labels[3], repeat_char('z', 62));
    assert_eq!(labels[4], "");
    assert_eq!(name.len(), 255);
}

#[test]
fn max_domain_name_is_not_below_an_apex_domain() {
    let max = max_domain_name();
    let full_first_label = format!("{}.tld.", repeat_char('z', 63));
    let nearly_max = format!(
        "{}.{}.{}.{}.",
        repeat_char('z', 63),
        repeat_char('z', 63),
        repeat_char('z', 63),
        repeat_char('z', 61)
    );
    for text in ["a.", "z.", "zz.zz.", "0-9.tld.", "internetcomputer.tld.", &full_first_label, &nearly_max, &max]
    {
        let a = apex(text).unwrap();
        assert!(a.as_str().as_bytes() <= max.as_bytes(), "{} comes after the greatest", text);
        assert!(ZoneApexDomain::default().as_str().as_bytes() <= a.as_str().as_bytes());
    }
}

#[test]
fn max_domain_label_is_63_times_z() {
    assert_eq!(max_domain_label(), "z".repeat(63));
}

#[test]
fn repeat_char_repeats() {
    assert_eq!(repeat_char('x', 0), "");
    assert_eq!(repeat_char('x', 3), "xxx");
    assert_eq!(repeat_char('\u{e9}', 2), "\u{e9}\u{e9}");
}
