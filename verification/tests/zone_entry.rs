use cns_name_registry::errors::{RecordNameError, SearchInputError, ZoneApexDomainError};
use cns_name_registry::repositories::RepositorySearchInto;
use cns_name_registry::types::{
    DomainRecord, DomainRecordInput, DomainZone, DomainZoneEntry, DomainZoneEntryInput,
    DomainZoneInput, RecordName, ZoneApexDomain,
};
use cns_name_registry::utils::max_domain_name;

#[test]
fn deserialization_for_domain_zone_entry_match() {
    let zone_apex_domain = ZoneApexDomain::new(String::from("internetcomputer.icp.")).unwrap();
    let record_name = RecordName::new(String::from("@"), &zone_apex_domain).unwrap();
    let domain_zone_entry = DomainZoneEntry::new(
        DomainZone { name: zone_apex_domain },
        DomainRecord {
            name: record_name,
            record_type: "A".to_string(),
            ttl: 3600,
            data: String::default(),
        },
    );

    let serialized_domain_zone = domain_zone_entry.to_bytes();
    let deserialized_domain_zone = DomainZoneEntry::from_bytes(&serialized_domain_zone).unwrap();

    assert_eq!(domain_zone_entry.0.name, deserialized_domain_zone.0.name);
    assert_eq!(domain_zone_entry.1.name, deserialized_domain_zone.1.name);
    assert_eq!(domain_zone_entry.1.record_type, deserialized_domain_zone.1.record_type);
    assert_eq!(domain_zone_entry.1.ttl, deserialized_domain_zone.1.ttl);
    assert_eq!(domain_zone_entry.1.data, deserialized_domain_zone.1.data);
}

#[test]
fn zone_entry_deserialization_for_domain_zone_entry_match() {
    let zone_apex_domain = ZoneApexDomain::new(String::from("internetcomputer.icp.")).unwrap();
    let record_name = RecordName::new(String::from("@"), &zone_apex_domain).unwrap();
    let domain_zone_entry = DomainZoneEntry::new(
        DomainZone { name: zone_apex_domain },
        DomainRecord {
            name: record_name,
            record_type: "A".to_string(),
            ttl: 3600,
            data: String::default(),
        },
    );

    let serialized_domain_zone = domain_zone_entry.to_bytes();
    let deserialized_domain_zone = DomainZoneEntry::from_bytes(&serialized_domain_zone).unwrap();

    assert_eq!(domain_zone_entry.0.name, deserialized_domain_zone.0.name);
    assert_eq!(domain_zone_entry.1.name, deserialized_domain_zone.1.name);
    assert_eq!(domain_zone_entry.1.record_type, deserialized_domain_zone.1.record_type);
    assert_eq!(domain_zone_entry.1.ttl, deserialized_domain_zone.1.ttl);
    assert_eq!(domain_zone_entry.1.data, deserialized_domain_zone.1.data);
}

fn entry(zone: &str, name: &str, record_type: &str, ttl: u32, data: &str) -> DomainZoneEntry {
    let apex = ZoneApexDomain::new(zone.to_string()).unwrap();
    let name = RecordName::new(name.to_string(), &apex).unwrap();
    DomainZoneEntry::new(
        DomainZone::new(apex),
        DomainRecord::new(name, record_type.to_string(), ttl, data.to_string()),
    )
}

#[test]
fn entry_roundtrip_gives_the_entry_back() {
    let entries = [
        entry("internetcomputer.tld.", "@", "CNAME", 0, ""),
        entry("internetcomputer.tld.", "subdomain", "CNAME", 0, "ic.boundary.network."),
        entry("a.b.", "_x.y-z.0", "TXT", u32::MAX, "{\"k\": \"\u{e9}\u{65e5}\"}"),
        entry("canister.tld.", "w", "ABCDEFGHIJKL", 1, &"d".repeat(2550)),
    ];
    for e in entries.iter() {
        assert!(e.is_valid());
        let bytes = e.to_bytes();
        assert_eq!(&DomainZoneEntry::from_bytes(&bytes).unwrap(), e);
    }
}

#[test]
fn entry_stored_form_is_the_zone_then_the_record() {
    let e = entry("a.tld.", "w", "A", 5, "data");
    let bytes = e.to_bytes();
    assert_eq!(bytes.len(), 256 + 273 + 4);
    assert_eq!(&bytes[..256], &e.0.to_bytes()[..]);
    assert_eq!(&bytes[256..], &e.1.to_bytes()[..]);
    assert_eq!(DomainZoneEntry::MAX_SIZE, 255 + 255 + 12 + 4 + 2550);
    assert_eq!(DomainZoneEntry::TUPLE_ZONE_BYTE_SIZE, 255);
    assert_eq!(DomainZoneEntry::TUPLE_RECORD_BYTE_SIZE, 2821);
}

#[test]
fn entry_from_bytes_checks_the_name_against_the_zone() {
    // 248 bytes of record name fit "a.tld." but not "aa.tld."
    let name = format!("{}.{}.{}.{}", "a".repeat(63), "b".repeat(63), "c".repeat(63), "d".repeat(56));
    let fits = entry("a.tld.", &name, "A", 0, "");
    let mut bytes = DomainZone::new(ZoneApexDomain::new("aa.tld.".to_string()).unwrap()).to_bytes();
    bytes.extend_from_slice(&fits.1.to_bytes());
    assert!(DomainZoneEntry::from_bytes(&bytes).is_none());
    assert!(DomainZoneEntry::from_bytes(&fits.to_bytes()).is_some());
    assert!(DomainZoneEntry::from_bytes(&fits.to_bytes()[..255]).is_none());
}

#[test]
fn entry_order_is_decided_by_the_zone_where_the_zones_differ() {
    let low = entry("a.tld.", "zzz", "ZZZ", u32::MAX, "zzz");
    let high = entry("b.tld.", "@", "", 0, "");
    assert!(low.le(&high));
    assert!(!high.le(&low));
    assert!(low.to_bytes() < high.to_bytes());
    // a zone that starts as another comes after it
    let short = entry("a.tld.", "zzz", "ZZZ", 9, "z");
    let long = entry("a.tld.x.", "@", "", 0, "");
    assert!(short.le(&long));
    assert!(!long.le(&short));
    assert!(short.to_bytes() < long.to_bytes());
}

#[test]
fn entry_order_is_that_of_its_parts_in_turn() {
    let entries = [
        entry("a.tld.", "@", "", 0, ""),
        entry("a.tld.", "@", "", 0, "x"),
        entry("a.tld.", "@", "", 7, ""),
        entry("a.tld.", "@", "A", 0, ""),
        entry("a.tld.", "a", "", 0, ""),
        entry("a.tld.", "a", "", 0, "\u{e9}"),
        entry("b.tld.", "@", "", 0, ""),
    ];
    for i in 0..entries.len() {
        for j in 0..entries.len() {
            assert_eq!(entries[i].le(&entries[j]), i <= j);
            assert_eq!(entries[i].to_bytes() <= entries[j].to_bytes(), i <= j);
        }
    }
}

#[test]
fn entry_validity() {
    assert!(entry("a.tld.", "w", "A", 0, "").is_valid());
    assert!(entry("a.tld.", "w", "A", 0, "").is_encodable());
    assert!(!entry("a.tld.", "w", "ABCDEFGHIJKLM", 0, "").is_valid());
    assert!(!entry("a.tld.", "w", "ABCDEFGHIJKLM", 0, "").is_encodable());
    // the lone dot is a bound, not a zone
    let bound = DomainZoneEntry::new(DomainZone::default(), DomainRecord::default());
    assert!(bound.is_encodable());
    assert!(!bound.is_valid());
}

fn input(
    zone: Option<&str>,
    name: Option<&str>,
    record_type: Option<&str>,
    ttl: Option<u32>,
    data: Option<&str>,
) -> DomainZoneEntryInput {
    DomainZoneEntryInput::new(
        DomainZoneInput { name: zone.map(|s| s.to_string()) },
        DomainRecordInput {
            name: name.map(|s| s.to_string()),
            record_type: record_type.map(|s| s.to_string()),
            ttl,
            data: data.map(|s| s.to_string()),
        },
    )
}

#[test]
fn range_keys_of_a_zone_fill_the_record_with_the_least_and_the_greatest() {
    let whole = input(Some("Internetcomputer.TLD."), None, None, None, None);
    let lower = whole.map_to_lower_range_key().unwrap();
    assert_eq!(lower, entry("internetcomputer.tld.", "@", "", 0, ""));
    let upper = whole.map_to_upper_range_key().unwrap();
    assert_eq!(upper.0.name.as_str(), "internetcomputer.tld.");
    assert_eq!(
        upper.1.name,
        RecordName::max_value(Some(ZoneApexDomain::new("internetcomputer.tld.".to_string()).unwrap()))
    );
    assert_eq!(upper.1.record_type, "z".repeat(12));
    assert_eq!(upper.1.ttl, u32::MAX);
    assert_eq!(upper.1.data, "z".repeat(2550));
    assert_eq!(whole.map_to_range_key(false).unwrap(), lower);
    assert_eq!(whole.map_to_range_key(true).unwrap(), upper);
}

#[test]
fn range_keys_keep_what_is_given() {
    let given = input(Some("a.tld."), Some("Wiki"), Some("TXT"), Some(7), Some("hello"));
    assert_eq!(given.map_to_lower_range_key().unwrap(), entry("a.tld.", "wiki", "TXT", 7, "hello"));
    assert_eq!(given.map_to_upper_range_key().unwrap(), entry("a.tld.", "wiki", "TXT", 7, "hello"));
}

#[test]
fn range_keys_without_a_zone_start_at_the_lone_dot_and_end_at_the_greatest_name() {
    let open = input(None, None, None, None, None);
    let lower = open.map_to_lower_range_key().unwrap();
    assert_eq!(lower.0.name.as_str(), ".");
    assert_eq!(lower.1, DomainRecord::default());
    let upper = open.map_to_upper_range_key().unwrap();
    assert_eq!(upper.0.name.as_str(), max_domain_name());
    assert_eq!(upper.1.name.as_str(), "@");
    assert_eq!(upper.1.record_type, "z".repeat(12));
}

#[test]
fn range_keys_fail_on_a_name_that_is_none() {
    assert_eq!(
        input(Some("-a.tld."), None, None, None, None).map_to_lower_range_key().unwrap_err(),
        SearchInputError::Zone(ZoneApexDomainError::MisplacedHyphen)
    );
    assert_eq!(
        input(Some("a.tld"), None, None, None, None).map_to_upper_range_key().unwrap_err(),
        SearchInputError::Zone(ZoneApexDomainError::MissingEndWithDot)
    );
    assert_eq!(
        input(Some("a.tld."), Some("a_b"), None, None, None).map_to_lower_range_key().unwrap_err(),
        SearchInputError::Record(RecordNameError::MisplacedUnderscore)
    );
    assert_eq!(
        input(Some("a.tld."), Some(""), None, None, None).map_to_upper_range_key().unwrap_err(),
        SearchInputError::Record(RecordNameError::NonEmptyName)
    );
}

#[test]
fn range_keys_fail_on_a_type_or_data_beyond_the_budget() {
    assert_eq!(
        input(Some("a.tld."), None, Some("ABCDEFGHIJKLM"), None, None)
            .map_to_lower_range_key()
            .unwrap_err(),
        SearchInputError::RecordTypeTooLong { type_length: 13, max_type_length: 12 }
    );
    assert_eq!(
        input(Some("a.tld."), None, None, None, Some(&"d".repeat(2551)))
            .map_to_upper_range_key()
            .unwrap_err(),
        SearchInputError::DataTooLong { data_length: 2551, max_data_length: 2550 }
    );
}
