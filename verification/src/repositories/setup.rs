//! What a repository offers, whatever it holds.

use vstd::prelude::*;

verus! {

/// A store of records, each its own key.
pub trait Repository<Record> {
    /// Whether the repository holds the record.
    spec fn holds(&self, record: &Record) -> bool;

    /// Whether the record is one that the repository takes.
    spec fn admits(&self, record: &Record) -> bool;

    /// Says whether the repository holds the record.
    fn contains(&self, record: &Record) -> (found: bool)
        ensures
            found == self.holds(record),
    ;

    /// Puts the record into the repository, where it is not yet there.
    fn insert(&mut self, record: &Record)
        requires
            old(self).admits(record),
        ensures
            final(self).holds(record),
    ;

    /// Takes the record out of the repository, and says whether it was
    /// there.
    fn remove(&mut self, record: &Record) -> (removed: bool)
        ensures
            removed == old(self).holds(record),
            !final(self).holds(record),
    ;
}

/// What turns a partial description of a record into the two ends of a
/// range of records.
pub trait RepositorySearchInto<SearchResultItem, SearchError> {
    /// The least record that meets the description, or why the
    /// description names none.
    fn map_to_lower_range_key(&self) -> Result<SearchResultItem, SearchError>;

    /// The greatest record that meets the description, or why the
    /// description names none.
    fn map_to_upper_range_key(&self) -> Result<SearchResultItem, SearchError>;
}

/// A repository that can hand out the records between two ends.
pub trait RepositorySearch<SearchInput, SearchResultItem, SearchError>: Repository<
    SearchResultItem,
> where SearchInput: RepositorySearchInto<SearchResultItem, SearchError> {
    /// The records that the repository holds between the least record that
    /// meets `lower` and the greatest that meets `upper`, in ascending
    /// order; or why one of the two descriptions names no record.
    fn search(&self, lower: &SearchInput, upper: &SearchInput) -> (found: Result<
        Vec<SearchResultItem>,
        SearchError,
    >)
        ensures
            found matches Ok(items) ==> forall|i: int|
                0 <= i < items@.len() ==> self.holds(#[trigger] &items@[i]),
    ;
}

} // verus!
