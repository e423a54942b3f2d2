use cns_name_registry::errors::RecordNameError;
use cns_name_registry::types::{DomainRecord, RecordName, ZoneApexDomain};
use cns_name_registry::utils::repeat_char;

fn apex(text: &str) -> ZoneApexDomain {
    ZoneApexDomain::new(String::from(text)).unwrap()
}

fn name(apex_text: &str, text: &str) -> Result<RecordName, RecordNameError> {
    RecordName::new(String::from(text), &apex(apex_text))
}

#[test]
fn record_name_validation_pass_apex_record() {
    assert!(name("internetcomputer.tld.", "@").is_ok());
}

#[test]
fn record_name_validation_pass_subdomain_record() {
    assert!(name("internetcomputer.tld.", "wiki").is_ok());
}

#[test]
fn record_name_validation_pass_multiple_subdomain_record() {
    assert!(name("internetcomputer.tld.", "subdomain.wiki").is_ok());
}

#[test]
fn record_name_validation_pass_valid_middle_hyphen() {
    assert!(name("internetcomputer.tld.", "subdomain-wiki").is_ok());
}

#[test]
fn record_name_validation_pass_valid_begin_with_underscore() {
    assert!(name("internetcomputer.tld.", "_canister").is_ok());
}

#[test]
fn record_name_validation_fail_invalid_empty() {
    assert_eq!(name("internetcomputer.tld.", "").unwrap_err(), RecordNameError::NonEmptyName);
}

#[test]
fn record_name_validation_fail_non_empty_label() {
    assert_eq!(
        name("internetcomputer.tld.", ".subdomain").unwrap_err(),
        RecordNameError::NonEmptyLabel
    );
    assert_eq!(name("internetcomputer.tld.", "a..b").unwrap_err(), RecordNameError::NonEmptyLabel);
}

#[test]
fn record_name_validation_fail_misplaced_hyphen_begin() {
    assert_eq!(
        name("internetcomputer.tld.", "-domain").unwrap_err(),
        RecordNameError::MisplacedHyphen
    );
}

#[test]
fn record_name_validation_fail_misplaced_hyphen_end() {
    assert_eq!(
        name("internetcomputer.tld.", "domain-").unwrap_err(),
        RecordNameError::MisplacedHyphen
    );
}

#[test]
fn record_name_validation_fail_misplaced_underscore_end() {
    assert_eq!(
        name("internetcomputer.tld.", "domain_").unwrap_err(),
        RecordNameError::MisplacedUnderscore
    );
}

#[test]
fn record_name_validation_fail_misplaced_underscore_middle() {
    assert_eq!(
        name("internetcomputer.tld.", "domain_another").unwrap_err(),
        RecordNameError::MisplacedUnderscore
    );
}

#[test]
fn record_name_validation_fail_misplaced_underscore_other_subdomain() {
    assert_eq!(
        name("internetcomputer.tld.", "domain._another").unwrap_err(),
        RecordNameError::MisplacedUnderscore
    );
}

#[test]
fn record_name_validation_fail_two_underscores() {
    assert_eq!(
        name("internetcomputer.tld.", "__canister").unwrap_err(),
        RecordNameError::MisplacedUnderscore
    );
}

#[test]
fn record_name_validation_fail_end_with_dot() {
    assert_eq!(
        name("internetcomputer.tld.", "wiki.").unwrap_err(),
        RecordNameError::InvalidEndWithDot
    );
    assert_eq!(name("internetcomputer.tld.", ".").unwrap_err(), RecordNameError::InvalidEndWithDot);
}

#[test]
fn record_name_validation_fail_label_too_long() {
    let label = repeat_char('a', 64);
    assert_eq!(
        name("internetcomputer.tld.", &label).unwrap_err(),
        RecordNameError::LabelTooLong { label_length: 64, max_label_length: 63 }
    );
}

#[test]
fn record_name_validation_fail_invalid_label() {
    assert_eq!(
        name("internetcomputer.tld.", "wi ki").unwrap_err(),
        RecordNameError::InvalidNameLabel { label: String::from("wi ki") }
    );
    assert_eq!(
        name("internetcomputer.tld.", "a.@").unwrap_err(),
        RecordNameError::InvalidNameLabel { label: String::from("@") }
    );
    assert_eq!(
        name("internetcomputer.tld.", "ok.B\u{fc}cher").unwrap_err(),
        RecordNameError::InvalidNameLabel { label: String::from("b\u{fc}cher") }
    );
}

#[test]
fn record_name_validation_fail_name_too_long() {
    // 4 labels of 63 bytes and 3 dots are 255 bytes; with ".a.tld." that is 262
    let text = format!(
        "{}.{}.{}.{}",
        repeat_char('a', 63),
        repeat_char('b', 63),
        repeat_char('c', 63),
        repeat_char('d', 63)
    );
    assert_eq!(
        name("a.tld.", &text).unwrap_err(),
        RecordNameError::NameTooLong { name_length: 262, max_name_length: 255 }
    );
}

#[test]
fn record_name_fills_the_budget_of_255_bytes_exactly() {
    // "a.tld." has 6 bytes: 248 bytes are left to the record name
    let fits = format!(
        "{}.{}.{}.{}",
        repeat_char('a', 63),
        repeat_char('b', 63),
        repeat_char('c', 63),
        repeat_char('d', 56)
    );
    assert_eq!(fits.len(), 248);
    assert!(name("a.tld.", &fits).is_ok());
    let over = format!("{}e", fits);
    assert_eq!(
        name("a.tld.", &over).unwrap_err(),
        RecordNameError::NameTooLong { name_length: 256, max_name_length: 255 }
    );
}

#[test]
fn record_name_is_kept_in_lower_case() {
    let n = name("internetcomputer.tld.", "Sub.Wiki").unwrap();
    assert_eq!(n.as_str(), "sub.wiki");
    assert_eq!(n, name("internetcomputer.tld.", "sub.wiki").unwrap());
}

#[test]
fn record_name_validate_reports_the_first_rule_that_fails() {
    let a = apex("internetcomputer.tld.");
    assert!(RecordName::validate("wiki", &a).is_ok());
    assert!(RecordName::validate("@", &a).is_ok());
    // the labels are looked at before the underscores
    assert_eq!(RecordName::validate("a_b.-c", &a).unwrap_err(), RecordNameError::MisplacedHyphen);
}

#[test]
fn record_name_min_value_and_default_are_the_apex_mark() {
    assert_eq!(RecordName::min_value().as_str(), "@");
    assert_eq!(RecordName::default().as_str(), "@");
}

#[test]
fn record_name_max_value_for_an_apex_domain() {
    // "internetcomputer.tld." has 21 bytes: 233 are left, for 3 labels of 63,
    // their 3 dots and a label of 41
    let zone = apex("internetcomputer.tld.");
    let max = RecordName::max_value(Some(zone.clone()));
    let expected = format!(
        "{}.{}.{}.{}",
        repeat_char('z', 63),
        repeat_char('z', 63),
        repeat_char('z', 63),
        repeat_char('z', 41)
    );
    assert_eq!(max.as_str(), expected);
    assert_eq!(max.as_str().len() + 1 + zone.as_str().len(), 255);
    assert_eq!(RecordName::validate(max.as_str(), &zone), Ok(()));
    assert_eq!(DomainRecord::max_record_name_value(Some(zone)), max);
}

#[test]
fn record_name_max_value_counts_the_dots() {
    // an apex domain of 128 bytes leaves 126: a label of 63, a dot, a label of 62
    let zone = format!("{}.{}.", repeat_char('a', 63), repeat_char('b', 63));
    assert_eq!(zone.len(), 128);
    let max = RecordName::max_value(Some(apex(&zone)));
    assert_eq!(max.as_str(), format!("{}.{}", repeat_char('z', 63), repeat_char('z', 62)));
}

#[test]
fn record_name_max_value_does_not_end_with_a_dot() {
    // an apex domain of 190 bytes leaves 64: a label of 63, and no dot behind it
    let zone =
        format!("{}.{}.{}.", repeat_char('a', 63), repeat_char('b', 63), repeat_char('c', 61));
    assert_eq!(zone.len(), 190);
    let zone = apex(&zone);
    let max = RecordName::max_value(Some(zone.clone()));
    assert_eq!(max.as_str(), repeat_char('z', 63));
    assert_eq!(RecordName::validate(max.as_str(), &zone), Ok(()));
    // an apex domain of 62 bytes leaves 192: three labels of 63 and two dots
    let zone = apex(&format!("{}.", repeat_char('a', 61)));
    let max = RecordName::max_value(Some(zone.clone()));
    assert_eq!(
        max.as_str(),
        format!("{}.{}.{}", repeat_char('z', 63), repeat_char('z', 63), repeat_char('z', 63))
    );
    assert_eq!(RecordName::validate(max.as_str(), &zone), Ok(()));
}

#[test]
fn record_name_max_value_without_an_apex_domain() {
    let max = RecordName::max_value(None);
    let expected = format!(
        "{}.{}.{}.{}",
        repeat_char('z', 63),
        repeat_char('z', 63),
        repeat_char('z', 63),
        repeat_char('z', 62)
    );
    assert_eq!(max.as_str(), expected);
    assert_eq!(max.as_str().len(), 254);
}

/// An apex domain of `n` bytes, for `n` from 2 to 255.
fn apex_of_len(n: usize) -> ZoneApexDomain {
    let mut text = String::new();
    let mut left = n;
    while left > 0 {
        let mut label = std::cmp::min(63, left - 1);
        if left - (label + 1) == 1 {
            label -= 1;
        }
        text.push_str(&repeat_char('a', label));
        text.push('.');
        left -= label + 1;
    }
    assert_eq!(text.len(), n);
    apex(&text)
}

#[test]
fn record_name_max_value_is_a_record_name_of_every_apex_domain() {
    for n in 2..=255 {
        let zone = apex_of_len(n);
        let max = RecordName::max_value(Some(zone.clone()));
        assert_eq!(RecordName::validate(max.as_str(), &zone), Ok(()), "apex domain of {}", n);
        if n <= 253 {
            let qualified = max.as_str().len() + 1 + n;
            assert!(qualified == 255 || qualified == 254, "apex domain of {}", n);
            // one more `z` is too long, or one label too long
            let more = format!("{}z", max.as_str());
            assert!(RecordName::validate(&more, &zone).is_err());
        } else {
            assert_eq!(max.as_str(), "@");
        }
    }
}

#[test]
fn record_name_max_value_where_no_room_is_left_is_the_apex_mark() {
    let full = ZoneApexDomain::max_value();
    assert_eq!(full.as_str().len(), 255);
    assert_eq!(RecordName::max_value(Some(full)).as_str(), "@");
    let nearly = format!(
        "{}.{}.{}.{}.",
        repeat_char('a', 63),
        repeat_char('b', 63),
        repeat_char('c', 63),
        repeat_char('d', 61)
    );
    assert_eq!(nearly.len(), 254);
    assert_eq!(RecordName::max_value(Some(apex(&nearly))).as_str(), "@");
}

#[test]
fn record_name_max_value_is_not_below_a_record_name_of_the_domain() {
    let zone = "internetcomputer.tld.";
    let max = RecordName::max_value(Some(apex(zone)));
    for text in ["@", "wiki", "zzzz", "z-z.zz", "_canister", "0start", "a.b.c"] {
        let n = name(zone, text).unwrap();
        assert!(n.as_str().as_bytes() <= max.as_str().as_bytes());
    }
    let long = format!("{}.{}", repeat_char('z', 63), repeat_char('z', 63));
    let n = name(zone, &long).unwrap();
    assert!(n.as_str().as_bytes() <= max.as_str().as_bytes());
}
