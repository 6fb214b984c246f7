//! The selected filesystem entry an expansion works against: its path, its
//! line number, its classification and its executable bit. The engine only
//! reads it; the caller owns it for the duration of one expansion.

use vstd::prelude::*;

verus! {

/// What kind of entry the selection points at.
#[derive(Clone, Copy, Debug, PartialEq, Eq, Structural)]
pub enum SelectionType {
    File,
    Directory,
    Other,
}

/// A selected filesystem entry.
#[derive(Debug, Clone)]
pub struct Selection {
    /// the absolute path of the entry
    pub path: String,
    /// the line number, 0 when not applicable
    pub line: usize,
    /// the entry's classification
    pub stype: SelectionType,
    /// whether the entry carries the executable bit
    pub is_exe: bool,
}

} // verus!
