//! The item picker in a fight: the rows the acting member's usable kit makes.

use vstd::prelude::*;

verus! {

/// One usable item of the acting member's kit, as the picker shows it.
#[derive(Debug, Clone, PartialEq, Eq)]
pub struct UseRow {
    /// Its row in the kit, the number `use-item` takes.
    pub index: u8,
    /// The item's name.
    pub name: String,
    /// How many.
    pub count: u16,
    /// Why it cannot be used here, in a few words.
    pub blocked: Option<String>,
}

} // verus!
