//! Per-topic configuration. The broker's fixed picture leaves nothing to
//! configure yet; the storage-backed topic state itself lives with the
//! storage collaborator, outside the verified core.

use vstd::prelude::*;

verus! {

/// Settings of one topic.
pub struct TopicConfig {}

} // verus!
