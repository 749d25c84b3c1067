//! What the file system reported of a path.

use crate::timestamp::Timestamp;
use vstd::prelude::*;

verus! {

/// The answer to one metadata query.
///
/// `metadata` holds the path's modification time, or the text of the I/O
/// error where the metadata could not be read (the path is absent, a
/// directory on the way is closed, the platform keeps no modification time).
#[derive(Debug, PartialEq, Eq)]
pub struct Probe {
    pub path: String,
    pub metadata: Result<Timestamp, String>,
}

/// A probe as plain values: the path's characters, and the modification time
/// in nanoseconds since the Unix epoch or the error text.
pub struct ProbeView {
    pub path: Seq<char>,
    pub modified: Result<int, Seq<char>>,
}

impl ProbeView {
    /// The metadata of the path could be read.
    pub open spec fn accessible(self) -> bool {
        self.modified is Ok
    }
}

/// The answer of a metadata query as plain values.
pub open spec fn metadata_view(metadata: Result<Timestamp, String>) -> Result<int, Seq<char>> {
    match metadata {
        Ok(time) => Ok(time@),
        Err(cause) => Err(cause@),
    }
}

impl View for Probe {
    type V = ProbeView;

    open spec fn view(&self) -> ProbeView {
        ProbeView { path: self.path@, modified: metadata_view(self.metadata) }
    }
}

impl DeepView for Probe {
    type V = ProbeView;

    open spec fn deep_view(&self) -> ProbeView {
        self@
    }
}

impl Clone for Probe {
    fn clone(&self) -> (copy: Self)
        ensures
            copy == *self,
    {
        let metadata = match &self.metadata {
            Ok(time) => Ok(*time),
            Err(cause) => Err(cause.clone()),
        };
        Probe { path: self.path.clone(), metadata }
    }
}

/// The paths of `probes`, in order.
pub open spec fn paths(probes: Seq<ProbeView>) -> Seq<Seq<char>> {
    probes.map_values(|probe: ProbeView| probe.path)
}

} // verus!
