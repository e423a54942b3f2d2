use cns_name_registry::errors::{SearchInputError, ZoneApexDomainError};
use cns_name_registry::repositories::{DomainZoneRepository, Repository, RepositorySearch};
use cns_name_registry::types::{
    DomainRecord, DomainRecordInput, DomainRecordTypes, DomainZone, DomainZoneEntry,
    DomainZoneEntryInput, DomainZoneInput, RecordName, ZoneApexDomain,
};

fn zone_input(name: &str) -> DomainZoneEntryInput {
    DomainZoneEntryInput::new(
        DomainZoneInput { name: Some(name.to_string()) },
        DomainRecordInput::default(),
    )
}

#[test]
fn init_domain_zone_repository() {
    let repository = DomainZoneRepository::default();
    let input = DomainZoneEntryInput::new(
        DomainZoneInput { name: Some("internetcomputer.tld.".to_string()) },
        DomainRecordInput::default(),
    );
    assert!(repository.search(&input, &input).unwrap().is_empty());
}

#[test]
fn insert_domain_zone() {
    let mut repository = DomainZoneRepository::default();
    repository.insert(&DomainZoneEntry::new(
        DomainZone { name: ZoneApexDomain::new(String::from("internetcomputer.tld.")).unwrap() },
        DomainRecord::default(),
    ));
    repository.insert(&DomainZoneEntry::new(
        DomainZone { name: ZoneApexDomain::new(String::from("internetcomputer.tld.")).unwrap() },
        DomainRecord {
            name: RecordName::default(),
            record_type: DomainRecordTypes::CNAME.to_string(),
            ttl: 0,
            data: "ic.boundary.network.".to_string(),
        },
    ));
    let input = DomainZoneEntryInput::new(
        DomainZoneInput { name: Some("internetcomputer.tld.".to_string()) },
        DomainRecordInput::default(),
    );
    let results = repository.search(&input, &input).unwrap();

    assert_eq!(results.len(), 2);
    assert_eq!(
        DomainZoneEntry::new(
            DomainZone {
                name: ZoneApexDomain::new(String::from("internetcomputer.tld.")).unwrap(),
            },
            DomainRecord::default(),
        ),
        results.get(0).unwrap().to_owned()
    );
    assert_eq!(
        DomainZoneEntry::new(
            DomainZone {
                name: ZoneApexDomain::new(String::from("internetcomputer.tld.")).unwrap(),
            },
            DomainRecord {
                name: RecordName::default(),
                record_type: DomainRecordTypes::CNAME.to_string(),
                ttl: 0,
                data: "ic.boundary.network.".to_string(),
            },
        ),
        results.get(1).unwrap().to_owned()
    );
}

#[test]
fn remove_domain_zone_exact_match() {
    let mut repository = DomainZoneRepository::default();
    let domain_zone_entry = DomainZoneEntry::new(
        DomainZone { name: ZoneApexDomain::new(String::from("internetcomputer.tld.")).unwrap() },
        DomainRecord::default(),
    );
    repository.insert(&domain_zone_entry);
    assert!(repository.get(&domain_zone_entry).is_some());
    repository.remove(&domain_zone_entry);
    assert!(repository.get(&domain_zone_entry).is_none());
}

#[test]
fn search_domain_zone_partial_match() {
    let mut repository = DomainZoneRepository::default();
    let internetcomputer_apex = ZoneApexDomain::new(String::from("internetcomputer.tld.")).unwrap();
    repository.insert(&DomainZoneEntry::new(
        DomainZone { name: internetcomputer_apex.clone() },
        DomainRecord::default(),
    ));
    repository.insert(&DomainZoneEntry::new(
        DomainZone { name: internetcomputer_apex.clone() },
        DomainRecord {
            name: RecordName::default(),
            record_type: DomainRecordTypes::CNAME.to_string(),
            ttl: 0,
            data: "ic.boundary.network.".to_string(),
        },
    ));
    repository.insert(&DomainZoneEntry::new(
        DomainZone { name: internetcomputer_apex.clone() },
        DomainRecord {
            name: RecordName::new(String::from("subdomain"), &internetcomputer_apex).unwrap(),
            record_type: DomainRecordTypes::CNAME.to_string(),
            ttl: 0,
            data: "ic.boundary.network.".to_string(),
        },
    ));
    repository.insert(&DomainZoneEntry::new(
        DomainZone { name: ZoneApexDomain::new(String::from("canister.tld.")).unwrap() },
        DomainRecord {
            name: RecordName::default(),
            record_type: DomainRecordTypes::TXT.to_string(),
            ttl: 0,
            data: "ic.boundary.network.".to_string(),
        },
    ));

    let input_icp = DomainZoneEntryInput::new(
        DomainZoneInput { name: Some(internetcomputer_apex.as_str().to_string()) },
        DomainRecordInput::default(),
    );
    let results_icp = repository.search(&input_icp, &input_icp).unwrap();

    let input_canister = DomainZoneEntryInput::new(
        DomainZoneInput { name: Some("canister.tld.".to_string()) },
        DomainRecordInput::default(),
    );
    let results_canister = repository.search(&input_canister, &input_canister).unwrap();
    assert_eq!(results_icp.len(), 3);
    assert_eq!(results_canister.len(), 1);
}

#[test]
fn get_domain_zone_exact_match() {
    let mut repository = DomainZoneRepository::default();
    let domain_zone_entry = DomainZoneEntry::new(
        DomainZone { name: ZoneApexDomain::new(String::from("internetcomputer.tld.")).unwrap() },
        DomainRecord::default(),
    );
    repository.insert(&domain_zone_entry);
    assert!(repository.get(&domain_zone_entry).is_some());
}

fn entry(zone: &str, name: &str, record_type: &str, ttl: u32, data: &str) -> DomainZoneEntry {
    let apex = ZoneApexDomain::new(zone.to_string()).unwrap();
    let name = RecordName::new(name.to_string(), &apex).unwrap();
    DomainZoneEntry::new(
        DomainZone::new(apex),
        DomainRecord::new(name, record_type.to_string(), ttl, data.to_string()),
    )
}

#[test]
fn search_bounded_to_a_zone_returns_the_entries_of_that_zone() {
    let mut repository = DomainZoneRepository::new();
    let apex_record = entry("internetcomputer.tld.", "@", "CNAME", 0, "");
    let subdomain = entry("internetcomputer.tld.", "subdomain", "CNAME", 0, "ic.boundary.network.");
    let other = entry("canister.tld.", "@", "TXT", 0, "ic.boundary.network.");
    repository.insert(&subdomain);
    repository.insert(&other);
    repository.insert(&apex_record);

    let zone = zone_input("internetcomputer.tld.");
    let found = repository.search(&zone, &zone).unwrap();
    assert_eq!(found, vec![apex_record, subdomain]);
    let zone = zone_input("canister.tld.");
    assert_eq!(repository.search(&zone, &zone).unwrap(), vec![other]);
    let zone = zone_input("nothing.tld.");
    assert!(repository.search(&zone, &zone).unwrap().is_empty());
}

#[test]
fn insert_is_idempotent() {
    let mut repository = DomainZoneRepository::new();
    let e = entry("a.tld.", "w", "A", 1, "x");
    assert!(!repository.contains(&e));
    repository.insert(&e);
    repository.insert(&e);
    repository.insert(&e.clone());
    assert!(repository.contains(&e));
    let zone = zone_input("a.tld.");
    assert_eq!(repository.search(&zone, &zone).unwrap().len(), 1);
    assert!(repository.remove(&e));
    assert!(!repository.remove(&e));
    assert!(!repository.contains(&e));
    assert!(repository.search(&zone, &zone).unwrap().is_empty());
}

#[test]
fn entries_differ_by_any_of_their_parts() {
    let mut repository = DomainZoneRepository::new();
    let base = entry("a.tld.", "w", "A", 1, "x");
    let others = [
        entry("b.tld.", "w", "A", 1, "x"),
        entry("a.tld.", "v", "A", 1, "x"),
        entry("a.tld.", "w", "B", 1, "x"),
        entry("a.tld.", "w", "A", 2, "x"),
        entry("a.tld.", "w", "A", 1, "y"),
    ];
    repository.insert(&base);
    for other in others.iter() {
        assert!(!repository.contains(other));
        assert!(repository.get(other).is_none());
    }
    for other in others.iter() {
        repository.insert(other);
    }
    assert!(repository.remove(&others[3]));
    assert!(repository.contains(&base));
    assert!(!repository.contains(&others[3]));
    assert!(repository.contains(&others[4]));
    assert_eq!(repository.get(&base), Some(base));
}

#[test]
fn repository_does_not_hold_what_is_not_valid() {
    let mut repository = DomainZoneRepository::new();
    let over_budget = entry("a.tld.", "w", "ABCDEFGHIJKLM", 1, "x");
    assert!(!over_budget.is_valid());
    assert!(!repository.contains(&over_budget));
    assert!(!repository.remove(&over_budget));
    assert!(repository.get(&over_budget).is_none());
    let any = entry("a.tld.", "w", "ANY", 1, "x");
    assert!(!any.is_valid());
    assert!(!repository.contains(&any));
}

#[test]
fn search_returns_the_entries_in_ascending_order() {
    let mut repository = DomainZoneRepository::new();
    let sorted = [
        entry("a.tld.", "@", "", 0, ""),
        entry("a.tld.", "@", "A", 0, "1"),
        entry("a.tld.", "@", "A", 0, "2"),
        entry("a.tld.", "@", "A", 300, ""),
        entry("a.tld.", "@", "B", 0, ""),
        entry("a.tld.", "a", "A", 0, ""),
        entry("a.tld.", "a.b", "A", 0, ""),
        entry("a.tld.", "ab", "A", 0, ""),
        entry("a.tld.", "z", "A", 0, ""),
    ];
    for i in [4, 0, 8, 2, 6, 1, 7, 3, 5] {
        repository.insert(&sorted[i]);
    }
    repository.insert(&entry("a.tl.", "z", "A", 0, ""));
    repository.insert(&entry("a.tld.x.", "@", "", 0, ""));
    let zone = zone_input("a.tld.");
    let found = repository.search(&zone, &zone).unwrap();
    assert_eq!(found, sorted.to_vec());
    for pair in found.windows(2) {
        assert!(pair[0].le(&pair[1]));
        assert!(!pair[1].le(&pair[0]));
    }
}

#[test]
fn search_with_parts_of_the_record_given_narrows_the_range() {
    let mut repository = DomainZoneRepository::new();
    let a = entry("a.tld.", "w", "A", 5, "1");
    let b = entry("a.tld.", "w", "A", 5, "2");
    let c = entry("a.tld.", "w", "A", 6, "0");
    let d = entry("a.tld.", "w", "B", 0, "");
    let e = entry("a.tld.", "x", "A", 0, "");
    for x in [&e, &d, &c, &b, &a] {
        repository.insert(x);
    }
    let named = DomainZoneEntryInput::new(
        DomainZoneInput { name: Some("a.tld.".to_string()) },
        DomainRecordInput { name: Some("w".to_string()), ..DomainRecordInput::default() },
    );
    assert_eq!(
        repository.search(&named, &named).unwrap(),
        vec![a.clone(), b.clone(), c.clone(), d.clone()]
    );
    let typed = DomainZoneEntryInput::new(
        DomainZoneInput { name: Some("a.tld.".to_string()) },
        DomainRecordInput {
            name: Some("w".to_string()),
            record_type: Some("A".to_string()),
            ttl: Some(5),
            data: None,
        },
    );
    assert_eq!(repository.search(&typed, &typed).unwrap(), vec![a.clone(), b.clone()]);
    // the two ends may differ: from ("w", "A", 5, "2") to the end of the name "w"
    let from = DomainZoneEntryInput::new(
        DomainZoneInput { name: Some("a.tld.".to_string()) },
        DomainRecordInput {
            name: Some("w".to_string()),
            record_type: Some("A".to_string()),
            ttl: Some(5),
            data: Some("2".to_string()),
        },
    );
    assert_eq!(repository.search(&from, &named).unwrap(), vec![b.clone(), c.clone(), d.clone()]);
    // a range whose ends are the wrong way round is empty
    let below = DomainZoneEntryInput::new(
        DomainZoneInput { name: Some("a.tld.".to_string()) },
        DomainRecordInput {
            name: Some("w".to_string()),
            record_type: Some("A".to_string()),
            ttl: Some(4),
            data: None,
        },
    );
    assert!(repository.search(&from, &below).unwrap().is_empty());
    assert_eq!(repository.search(&named, &from).unwrap(), vec![a.clone(), b.clone()]);
    // an exact description finds the entry itself
    assert_eq!(repository.search(&from, &from).unwrap(), vec![b]);
}

#[test]
fn search_without_a_zone_spans_the_zones() {
    let mut repository = DomainZoneRepository::new();
    let a = entry("a.tld.", "w", "A", 0, "");
    let b = entry("b.tld.", "w", "A", 0, "");
    repository.insert(&b);
    repository.insert(&a);
    let open = DomainZoneEntryInput::new(DomainZoneInput::default(), DomainRecordInput::default());
    assert_eq!(repository.search(&open, &open).unwrap(), vec![a, b]);
}

#[test]
fn search_without_a_zone_meets_the_zones_of_greatest_names() {
    let mut repository = DomainZoneRepository::new();
    let full_label = entry(&format!("{}.tld.", "z".repeat(63)), "w", "A", 0, "");
    let least = entry("0.", "@", "", 0, "");
    let greatest_zone = DomainZoneEntry::new(
        DomainZone::new(ZoneApexDomain::max_value()),
        DomainRecord::default(),
    );
    assert!(greatest_zone.is_valid());
    repository.insert(&greatest_zone);
    repository.insert(&full_label);
    repository.insert(&least);
    let open = DomainZoneEntryInput::new(DomainZoneInput::default(), DomainRecordInput::default());
    assert_eq!(repository.search(&open, &open).unwrap(), vec![least, full_label, greatest_zone]);
}

#[test]
fn scan_of_a_zone_meets_the_greatest_record_name() {
    let mut repository = DomainZoneRepository::new();
    let zone = ZoneApexDomain::new("a.tld.".to_string()).unwrap();
    let greatest = DomainZoneEntry::new(
        DomainZone::new(zone.clone()),
        DomainRecord::new(RecordName::max_value(Some(zone)), "A".to_string(), 0, String::new()),
    );
    assert!(greatest.is_valid());
    repository.insert(&greatest);
    let input = zone_input("a.tld.");
    assert_eq!(repository.search(&input, &input).unwrap(), vec![greatest]);
}

#[test]
fn search_fails_on_a_description_that_names_no_record() {
    let repository = DomainZoneRepository::new();
    let good = zone_input("a.tld.");
    let bad = zone_input("a.tld");
    assert_eq!(
        repository.search(&bad, &good).unwrap_err(),
        SearchInputError::Zone(ZoneApexDomainError::MissingEndWithDot)
    );
    assert_eq!(
        repository.search(&good, &bad).unwrap_err(),
        SearchInputError::Zone(ZoneApexDomainError::MissingEndWithDot)
    );
    let worse = zone_input("");
    assert_eq!(
        repository.search(&worse, &bad).unwrap_err(),
        SearchInputError::Zone(ZoneApexDomainError::NonEmptyDomain)
    );
}

#[test]
fn scan_of_a_zone_starts_at_the_apex_mark() {
    // the range of a zone starts at the name "@", which the digits come before
    let mut repository = DomainZoneRepository::new();
    let digit = entry("a.tld.", "0w", "A", 0, "");
    let letter = entry("a.tld.", "w", "A", 0, "");
    repository.insert(&digit);
    repository.insert(&letter);
    let zone = zone_input("a.tld.");
    assert_eq!(repository.search(&zone, &zone).unwrap(), vec![letter]);
    assert!(repository.contains(&digit));
}

#[test]
fn repository_opened_on_fresh_memory_holds_nothing_and_takes_entries() {
    let mut repository = DomainZoneRepository::init();
    let e = entry("a.tld.", "w", "A", 0, "");
    assert!(!repository.contains(&e));
    repository.insert(&e);
    assert!(repository.contains(&e));
    let zone = zone_input("a.tld.");
    assert_eq!(repository.search(&zone, &zone).unwrap(), vec![e]);
}

#[test]
fn repository_holds_many_entries() {
    let mut repository = DomainZoneRepository::new();
    let mut expected = Vec::new();
    for i in 0..200u32 {
        let e = entry("a.tld.", &format!("n{:03}", i), "A", i, &"d".repeat((i * 7 % 50) as usize));
        expected.push(e);
    }
    for i in 0..200usize {
        repository.insert(&expected[(i * 37) % 200]);
    }
    let zone = zone_input("a.tld.");
    assert_eq!(repository.search(&zone, &zone).unwrap(), expected);
    for i in (0..200usize).step_by(2) {
        assert!(repository.remove(&expected[i]));
    }
    let odd: Vec<DomainZoneEntry> = expected.iter().skip(1).step_by(2).cloned().collect();
    assert_eq!(repository.search(&zone, &zone).unwrap(), odd);
}
