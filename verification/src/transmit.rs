//! Who may transmit.
//!
//! A permit to send exists only for a source that is watched live. Reading a
//! capture file never gives one, so nothing that needs a permit can be made on
//! such a run.
use vstd::prelude::*;

verus! {

/// Where packets come from.
#[derive(Debug)]
pub enum CaptureSource {
    /// A device that is watched live.
    Live {
        /// The device.
        device: String,
    },
    /// Capture files.
    File {
        /// Their paths.
        paths: Vec<String>,
    },
}

/// Proof that a run watches a live source.
#[derive(Debug)]
pub struct TransmitPermit {
    live: bool,
}

impl TransmitPermit {
    /// Whether the permit is for a live source, as every permit is.
    pub closed spec fn valid(self) -> bool {
        self.live
    }

    /// The permit that a source gives: one for a live source, none for files.
    pub fn for_source(source: &CaptureSource) -> (r: Option<TransmitPermit>)
        ensures
            r is Some <==> source is Live,
            r matches Some(p) ==> p.valid(),
    {
        match source {
            CaptureSource::Live { .. } => Some(TransmitPermit { live: true }),
            CaptureSource::File { .. } => None,
        }
    }
}

} // verus!
