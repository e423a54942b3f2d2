use crate::errors::{SearchFault, SearchInputError};
use crate::repositories::setup::{Repository, RepositorySearch, RepositorySearchInto};
use crate::repositories::store::{
    in_range, stored_keys, tree_contains, tree_init, tree_insert, tree_new, tree_range,
    tree_remove, ZoneTree,
};
use crate::common::APEX_MARK;
use crate::grammar::{first_dot, label_byte, lemma_first_dot_bounds, lemma_text_fault_unfold};
use crate::text::{lemma_lex_le_antisym, lemma_lower_idempotent, lex_le, lex_lt};
use crate::types::record::{record_le, z_bytes, RecordView, RECORD_DATA_BYTES, RECORD_TYPE_BYTES};
use crate::types::record_name::{law_max_name_dominates, max_name, name_budget};
use crate::types::zone::zone_valid;
use crate::types::zone_apex_domain::{law_max_domain_name_dominates, lemma_max_domain_name_is_apex};
use crate::utils::max_domain_name_bytes;
use crate::types::zone_entry::{
    entry_bytes, entry_decoding, entry_encodable, entry_le, entry_lt, entry_valid,
    law_entry_bytes_order, law_entry_roundtrip, lemma_entry_decoding_exact, range_end,
    DomainZoneEntry, DomainZoneEntryInput, EntryInputView, EntryView,
};
use vstd::prelude::*;

verus! {

/// The store of zone entries: an ordered set of the entries of all zones.
pub struct DomainZoneRepository {
    tree: ZoneTree,
}

impl View for DomainZoneRepository {
    type V = Set<EntryView>;

    /// The entries that the store holds.
    closed spec fn view(&self) -> Set<EntryView> {
        Self::entries_of(stored_keys(self.tree))
    }
}

/// Whether `items` are the entries of `store` from `lower` to `upper`, both
/// included: each of them once, in ascending order, and no other.
pub open spec fn is_range_scan(
    items: Seq<DomainZoneEntry>,
    store: Set<EntryView>,
    lower: EntryView,
    upper: EntryView,
) -> bool {
    &&& forall|i: int|
        0 <= i < items.len() ==> store.contains((#[trigger] items[i])@) && entry_le(
            lower,
            items[i]@,
        ) && entry_le(items[i]@, upper)
    &&& forall|i: int, j: int|
        0 <= i < j < items.len() ==> entry_lt((#[trigger] items[i])@, (#[trigger] items[j])@)
    &&& forall|v: EntryView|
        #[trigger] store.contains(v) && entry_le(lower, v) && entry_le(v, upper) ==> exists|
            i: int,
        |
            0 <= i < items.len() && (#[trigger] items[i])@ == v
}

/// The description of all entries of the zone `zone`: the zone is given,
/// each part of the record is open.
pub open spec fn zone_description(zone: Seq<u8>) -> EntryInputView {
    EntryInputView { zone: Some(zone), name: None, record_type: None, ttl: None, data: None }
}

/// Whether the name starts with a digit, and so comes before the name `@`.
pub open spec fn leads_with_digit(name: Seq<u8>) -> bool {
    name.len() > 0 && 48 <= name[0] <= 57
}

/// The greatest record of a zone: the greatest record name for the zone,
/// 12 times `z`, the greatest ttl and 2550 times `z`.
pub open spec fn greatest_record(zone: Seq<u8>) -> RecordView {
    RecordView {
        name: max_name(name_budget(zone.len())),
        record_type: z_bytes(RECORD_TYPE_BYTES as nat),
        ttl: u32::MAX,
        data: z_bytes(RECORD_DATA_BYTES as nat),
    }
}

/// Whether the record has the greatest record name for the zone and comes
/// after the greatest record of the zone all the same, by a type or data
/// that come after a text of `z`.
pub open spec fn exceeds_greatest(record: RecordView, zone: Seq<u8>) -> bool {
    record.name == greatest_record(zone).name && !record_le(record, greatest_record(zone))
}

/// A scan between the two ends of a zone's description meets the entries of
/// that zone, and no entry of another zone. This holds of entries whose
/// record name does not start with a digit, and which do not come after the
/// greatest record of the zone: the name `@` that starts the range comes
/// after the digits, and a type or data may come after a text of `z`.
pub proof fn law_zone_scan(store: Set<EntryView>, zone: Seq<u8>)
    requires
        zone_valid(zone),
        forall|v: EntryView| #[trigger] store.contains(v) ==> entry_valid(v),
        forall|v: EntryView| #[trigger]
            store.contains(v) && v.zone == zone ==> !leads_with_digit(v.record.name)
                && !exceeds_greatest(v.record, zone),
    ensures
        range_end(zone_description(zone), false) is Ok,
        range_end(zone_description(zone), true) is Ok,
        forall|v: EntryView| #[trigger]
            store.contains(v) ==> ((entry_le(range_end(zone_description(zone), false)->Ok_0, v)
                && entry_le(v, range_end(zone_description(zone), true)->Ok_0)) <==> v.zone
                == zone),
{
    lemma_lower_idempotent(zone);
    let first = range_end(zone_description(zone), false)->Ok_0;
    let last = range_end(zone_description(zone), true)->Ok_0;
    assert(first.zone == zone && last.zone == zone);
    assert(last.record == greatest_record(zone));
    assert forall|v: EntryView| #[trigger] store.contains(v) implies ((entry_le(first, v)
        && entry_le(v, last)) <==> v.zone == zone) by {
        if v.zone == zone {
            let name = v.record.name;
            if name != first.record.name {
                lemma_first_dot_bounds(name);
                lemma_text_fault_unfold(name, true);
                let label = name.take(first_dot(name));
                assert(label[0] == name[0]);
                assert(label_byte(label[0], true));
                assert(name[0] != APEX_MARK);
                assert(first.record.name[0] == APEX_MARK);
                assert(lex_le(first.record.name, name));
            } else {
                assert(lex_le(first.record.record_type, v.record.record_type));
                assert(lex_le(first.record.data, v.record.data));
            }
            assert(entry_le(first, v));
            if name != last.record.name {
                law_max_name_dominates(name, zone);
            }
            assert(entry_le(v, last));
        } else {
            if entry_le(first, v) && entry_le(v, last) {
                lemma_lex_le_antisym(zone, v.zone);
            }
        }
    }
}

/// The description that gives nothing: the zone and each part of the record
/// are open.
pub open spec fn open_description() -> EntryInputView {
    EntryInputView { zone: None, name: None, record_type: None, ttl: None, data: None }
}

/// A scan between the two ends of the description that gives nothing meets
/// the entries of every zone: no zone comes before the lone dot or after the
/// greatest domain name. Of the zone with the greatest domain name itself it
/// meets the entries that do not come after the greatest record.
pub proof fn law_open_scan(store: Set<EntryView>)
    requires
        forall|v: EntryView| #[trigger] store.contains(v) ==> entry_valid(v),
        forall|v: EntryView| #[trigger]
            store.contains(v) && v.zone == max_domain_name_bytes() ==> !exceeds_greatest(
                v.record,
                v.zone,
            ),
    ensures
        range_end(open_description(), false) is Ok,
        range_end(open_description(), true) is Ok,
        forall|v: EntryView| #[trigger]
            store.contains(v) ==> entry_le(range_end(open_description(), false)->Ok_0, v)
                && entry_le(v, range_end(open_description(), true)->Ok_0),
{
    let first = range_end(open_description(), false)->Ok_0;
    let last = range_end(open_description(), true)->Ok_0;
    lemma_max_domain_name_is_apex();
    assert(last.record == greatest_record(last.zone));
    assert forall|v: EntryView| #[trigger] store.contains(v) implies entry_le(first, v)
        && entry_le(v, last) by {
        law_max_domain_name_dominates(v.zone);
        if v.zone == last.zone {
            let q = crate::types::record_name::qualified(v.record.name, v.zone);
            assert(q.len() == v.record.name.len() + 1 + v.zone.len());
            assert(v.record.name == last.record.name);
        }
    }
}

/// A search between the two ends of a zone's description returns the
/// entries of that zone, each once, in ascending order, and no entry of
/// another zone. As [`law_zone_scan`], this holds of entries whose record
/// name does not start with a digit and which do not come after the
/// greatest record of the zone.
pub proof fn law_search_of_zone(
    items: Seq<DomainZoneEntry>,
    store: Set<EntryView>,
    zone: Seq<u8>,
)
    requires
        zone_valid(zone),
        forall|v: EntryView| #[trigger] store.contains(v) ==> entry_valid(v),
        forall|v: EntryView| #[trigger]
            store.contains(v) && v.zone == zone ==> !leads_with_digit(v.record.name)
                && !exceeds_greatest(v.record, zone),
        is_range_scan(
            items,
            store,
            range_end(zone_description(zone), false)->Ok_0,
            range_end(zone_description(zone), true)->Ok_0,
        ),
    ensures
        range_end(zone_description(zone), false) is Ok,
        range_end(zone_description(zone), true) is Ok,
        forall|i: int|
            0 <= i < items.len() ==> store.contains((#[trigger] items[i])@) && items[i]@.zone
                == zone,
        forall|v: EntryView| #[trigger]
            store.contains(v) && v.zone == zone ==> exists|i: int|
                0 <= i < items.len() && (#[trigger] items[i])@ == v,
        forall|i: int, j: int|
            0 <= i < j < items.len() ==> entry_lt((#[trigger] items[i])@, (#[trigger] items[j])@),
{
    law_zone_scan(store, zone);
}

impl Default for DomainZoneRepository {
    fn default() -> (r: Self)
        ensures
            r@ == Set::<EntryView>::empty(),
    {
        Self::new()
    }
}

impl DomainZoneRepository {
    /// A store that holds no entry. In a canister every store stands on
    /// the one stable memory: only one store may live in a process, and a
    /// second one corrupts the first.
    pub fn new() -> (r: Self)
        ensures
            r@ == Set::<EntryView>::empty(),
    {
        let r = DomainZoneRepository { tree: tree_new() };
        proof {
            assert(r@ =~= Set::<EntryView>::empty());
        }
        r
    }

    /// The store that the stable memory holds, with the entries that were
    /// put into it before; a store without entries where the memory holds
    /// none. Only one store may live in a process.
    pub fn init() -> (r: Self)
        ensures
            forall|v: EntryView| #[trigger] r@.contains(v) ==> entry_valid(v),
    {
        Self::from_tree(tree_init())
    }

    /// The entries that a map with the keys `keys` stands for: the valid
    /// entries whose stored form is one of the keys. A key that is the stored
    /// form of no valid entry stands for nothing.
    pub open spec fn entries_of(keys: Set<Seq<u8>>) -> Set<EntryView> {
        Set::new(|v: EntryView| entry_valid(v) && keys.contains(entry_bytes(v)))
    }

    /// The store over the map `tree`: it holds the entries that the keys of
    /// the map stand for.
    pub(crate) fn from_tree(tree: ZoneTree) -> (r: Self)
        ensures
            r@ == Self::entries_of(stored_keys(tree)),
    {
        DomainZoneRepository { tree }
    }

    /// The store holds valid entries only.
    pub proof fn law_holds_valid_entries(&self)
        ensures
            forall|v: EntryView| #[trigger] self@.contains(v) ==> entry_valid(v),
    {
    }

    /// The entry itself, where the store holds it.
    pub fn get(&self, record: &DomainZoneEntry) -> (r: Option<DomainZoneEntry>)
        ensures
            r is Some <==> self@.contains(record@),
            r matches Some(entry) ==> entry@ == record@,
    {
        if self.contains(record) {
            Some(record.clone())
        } else {
            None
        }
    }
}

impl Repository<DomainZoneEntry> for DomainZoneRepository {
    open spec fn holds(&self, record: &DomainZoneEntry) -> bool {
        self@.contains(record@)
    }

    open spec fn admits(&self, record: &DomainZoneEntry) -> bool {
        entry_valid(record@)
    }

    fn contains(&self, record: &DomainZoneEntry) -> (found: bool) {
        if !record.is_valid() {
            return false;
        }
        let key = record.to_bytes();
        tree_contains(&self.tree, &key)
    }

    fn insert(&mut self, record: &DomainZoneEntry)
        ensures
            final(self)@ == old(self)@.insert(record@),
    {
        let key = record.to_bytes();
        tree_insert(&mut self.tree, key);
        proof {
            assert forall|v: EntryView| #[trigger]
                self@.contains(v) == old(self)@.insert(record@).contains(v) by {
                if entry_valid(v) {
                    law_entry_bytes_order(v, record@);
                }
            }
            assert(self@ =~= old(self)@.insert(record@));
        }
    }

    fn remove(&mut self, record: &DomainZoneEntry) -> (removed: bool)
        ensures
            final(self)@ == old(self)@.remove(record@),
    {
        if !record.is_valid() {
            proof {
                assert(self@ =~= old(self)@.remove(record@));
            }
            return false;
        }
        let key = record.to_bytes();
        let removed = tree_remove(&mut self.tree, &key);
        proof {
            assert forall|v: EntryView| #[trigger]
                self@.contains(v) == old(self)@.remove(record@).contains(v) by {
                if entry_valid(v) {
                    law_entry_bytes_order(v, record@);
                }
            }
            assert(self@ =~= old(self)@.remove(record@));
        }
        removed
    }
}

impl RepositorySearch<
    DomainZoneEntryInput,
    DomainZoneEntry,
    SearchInputError,
> for DomainZoneRepository {
    fn search(&self, lower: &DomainZoneEntryInput, upper: &DomainZoneEntryInput) -> (found: Result<
        Vec<DomainZoneEntry>,
        SearchInputError,
    >)
        ensures
            match found {
                Ok(items) => {
                    &&& range_end(lower@, false) is Ok
                    &&& range_end(upper@, true) is Ok
                    &&& is_range_scan(
                        items@,
                        self@,
                        range_end(lower@, false)->Ok_0,
                        range_end(upper@, true)->Ok_0,
                    )
                },
                Err(e) => match range_end(lower@, false) {
                    Err(fault) => e@ == fault,
                    Ok(_) => range_end(upper@, true) == Err::<EntryView, SearchFault>(e@),
                },
            },
    {
        let first = match lower.map_to_lower_range_key() {
            Ok(entry) => entry,
            Err(e) => {
                return Err(e);
            },
        };
        let last = match upper.map_to_upper_range_key() {
            Ok(entry) => entry,
            Err(e) => {
                return Err(e);
            },
        };
        let first_key = first.to_bytes();
        let last_key = last.to_bytes();
        let keys = tree_range(&self.tree, &first_key, &last_key);
        let mut items: Vec<DomainZoneEntry> = Vec::new();
        let mut i: usize = 0;
        while i < keys.len()
            invariant
                i <= keys@.len(),
                first_key@ == entry_bytes(first@),
                last_key@ == entry_bytes(last@),
                entry_encodable(first@),
                entry_encodable(last@),
                forall|m: int|
                    0 <= m < keys@.len() ==> stored_keys(self.tree).contains(
                        (#[trigger] keys@[m])@,
                    ) && in_range(keys@[m]@, first_key@, last_key@),
                forall|m: int, n: int|
                    0 <= m < n < keys@.len() ==> lex_lt(
                        (#[trigger] keys@[m])@,
                        (#[trigger] keys@[n])@,
                    ),
                forall|j: int|
                    0 <= j < items@.len() ==> self@.contains((#[trigger] items@[j])@) && entry_le(
                        first@,
                        items@[j]@,
                    ) && entry_le(items@[j]@, last@),
                forall|j: int, k: int|
                    0 <= j < k < items@.len() ==> entry_lt(
                        (#[trigger] items@[j])@,
                        (#[trigger] items@[k])@,
                    ),
                forall|j: int, m: int|
                    0 <= j < items@.len() && i <= m < keys@.len() ==> lex_lt(
                        entry_bytes((#[trigger] items@[j])@),
                        (#[trigger] keys@[m])@,
                    ),
                forall|m: int|
                    0 <= m < i && entry_decoding((#[trigger] keys@[m])@) is Some ==> exists|j: int|
                        0 <= j < items@.len() && entry_bytes((#[trigger] items@[j])@)
                            == keys@[m]@,
            decreases keys@.len() - i,
        {
            let ghost before = items@;
            match DomainZoneEntry::from_bytes(keys[i].as_slice()) {
                Some(entry) => {
                    proof {
                        let key = keys@[i as int]@;
                        lemma_entry_decoding_exact(key);
                        law_entry_bytes_order(first@, entry@);
                        law_entry_bytes_order(entry@, last@);
                        assert forall|j: int| 0 <= j < before.len() implies entry_lt(
                            (#[trigger] before[j])@,
                            entry@,
                        ) by {
                            assert(lex_lt(entry_bytes(before[j]@), keys@[i as int]@));
                            law_entry_bytes_order(before[j]@, entry@);
                        }
                    }
                    items.push(entry);
                    proof {
                        assert forall|j: int| 0 <= j < items@.len() implies self@.contains(
                            (#[trigger] items@[j])@,
                        ) && entry_le(first@, items@[j]@) && entry_le(items@[j]@, last@) by {
                            if j < before.len() {
                                assert(items@[j] == before[j]);
                            }
                        }
                        assert forall|j: int, k: int|
                            0 <= j < k < items@.len() implies entry_lt(
                            (#[trigger] items@[j])@,
                            (#[trigger] items@[k])@,
                        ) by {
                            assert(items@[j] == before[j]);
                            if k < before.len() {
                                assert(items@[k] == before[k]);
                            }
                        }
                        assert forall|j: int, m: int|
                            0 <= j < items@.len() && i + 1 <= m < keys@.len() implies lex_lt(
                            entry_bytes((#[trigger] items@[j])@),
                            (#[trigger] keys@[m])@,
                        ) by {
                            if j < before.len() {
                                assert(items@[j] == before[j]);
                            } else {
                                assert(lex_lt(keys@[i as int]@, keys@[m]@));
                            }
                        }
                        assert forall|m: int|
                            0 <= m < i + 1 && entry_decoding(
                                (#[trigger] keys@[m])@,
                            ) is Some implies exists|j: int|
                            0 <= j < items@.len() && entry_bytes((#[trigger] items@[j])@)
                                == keys@[m]@ by {
                            if m < i {
                                let j = choose|j: int|
                                    0 <= j < before.len() && entry_bytes((#[trigger] before[j])@)
                                        == keys@[m]@;
                                assert(items@[j] == before[j]);
                            } else {
                                assert(items@[before.len() as int] == entry);
                            }
                        }
                    }
                },
                None => {},
            }
            i = i + 1;
        }
        proof {
            assert forall|v: EntryView|
                #[trigger] self@.contains(v) && entry_le(first@, v) && entry_le(
                    v,
                    last@,
                ) implies exists|j: int| 0 <= j < items@.len() && (#[trigger] items@[j])@ == v by {
                law_entry_bytes_order(first@, v);
                law_entry_bytes_order(v, last@);
                law_entry_roundtrip(v);
                let key = entry_bytes(v);
                assert(stored_keys(self.tree).contains(key));
                let m = choose|m: int| 0 <= m < keys@.len() && (#[trigger] keys@[m])@ == key;
                let j = choose|j: int|
                    0 <= j < items@.len() && entry_bytes((#[trigger] items@[j])@) == keys@[m]@;
                law_entry_bytes_order(items@[j]@, v);
            }
        }
        Ok(items)
    }
}

} // verus!
