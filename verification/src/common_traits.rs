//! What every kind of scan result offers.

use vstd::prelude::*;

verus! {

/// An entry that a scan found: a path with the size and the modification
/// time of what lies there.
pub trait ResultEntry {
    /// The text of the path.
    spec fn path_text(&self) -> Seq<char>;

    /// The modification time, in seconds since the Unix epoch.
    spec fn modified_date_value(&self) -> u64;

    /// The size in bytes.
    spec fn size_value(&self) -> u64;

    fn get_path(&self) -> (r: &str)
        ensures
            r@ == self.path_text(),
    ;

    fn get_modified_date(&self) -> (r: u64)
        ensures
            r == self.modified_date_value(),
    ;

    fn get_size(&self) -> (r: u64)
        ensures
            r == self.size_value(),
    ;
}

} // verus!
