pub mod config;
pub mod discovery;
pub mod filter;
pub mod highlight;
pub mod ignore;
pub mod pattern;
pub mod preview;
pub mod state;
pub mod text;

use vstd::prelude::*;

verus! {

/// Which matching algorithm the filter and the preview builder use:
/// fuzzy matching on the file path, or regex search over file contents.
#[derive(Clone, Copy, Debug, PartialEq, Eq, Structural)]
pub enum SearchMode {
    Filename,
    Contents,
}

} // verus!
