//! Statistics with no content, for pools that report nothing.

use vstd::prelude::*;

use crate::traits::{CSVField, Stats, ToCSV};

verus! {

/// Statistics with no fields.
#[derive(Clone, Copy, Debug, PartialEq, Eq, Structural)]
pub struct EmptyStats;

impl ToCSV for EmptyStats {
    fn csv_headers(&self) -> (r: Vec<CSVField>) {
        Vec::new()
    }

    fn to_csv_record(&self) -> (r: Vec<CSVField>) {
        Vec::new()
    }
}

impl Stats for EmptyStats {

}

} // verus!
