//! The commands of the command line.
use vstd::prelude::*;
use std::path::PathBuf;

verus! {

/// Commands which can be called, mapped from strings of the same name.
pub enum Command {
    /// Create a new site.
    Init { site: PathBuf },
    /// Generate the site at `site`.
    Build { site: PathBuf },
    Create,
    Serve,
}

} // verus!
