//! What every operation needs to know about the notebook it works on.

use vstd::prelude::*;

verus! {

#[derive(Debug)]
pub enum ConfigGetError {
    NoEditor(String),
}

/// The notebook's settings: the root data directory, the editor to open
/// notes with, whether to stay offline, and whether removals skip the
/// confirmation prompt.
#[derive(Clone, Debug)]
pub struct Config {
    pub data_dir: String,
    pub editor: String,
    pub offline: bool,
    pub is_test: bool,
}

} // verus!
