//! Lightweight references to records, as autocomplete results carry them.
use vstd::prelude::*;

verus! {

/// A reference to one record: its type tag, its primary key, and its display name.
#[derive(Debug, Clone, PartialEq, Eq)]
pub struct WhoWhatWhere<PK> {
    pub data_type: String,
    pub pk: PK,
    pub name: String,
}

} // verus!
