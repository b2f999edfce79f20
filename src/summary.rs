//! Rows that the statistics stage reads back from storage.

use vstd::prelude::*;

verus! {

/// A data version, its date, and its age in days.
#[derive(Debug)]
pub struct FileParams {
    pub vcode: String,
    pub vdate_as_string: String,
    pub vdays: i32,
}

/// The number of organisations of one type.
#[derive(Debug)]
pub struct OrgRow {
    pub type_id: i32,
    pub name: String,
    pub org_num: i64,
}

} // verus!
