//! File-system paths, as std represents them.
use vstd::prelude::*;

verus! {

/// std's owned path, held opaquely.
#[verifier::external_type_specification]
#[verifier::external_body]
pub struct ExPathBuf(std::path::PathBuf);

} // verus!
