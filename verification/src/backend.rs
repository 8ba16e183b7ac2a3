//! Which program does the work on media files.

use vstd::prelude::*;

verus! {

/// The program that was asked for.
#[derive(Clone, Copy, Debug, PartialEq, Eq, Structural)]
pub enum BackendSelection {
    CompatibilityDefault,
    Ffmpeg,
    Mkvmerge,
    Mp4forge,
}

impl Default for BackendSelection {
    fn default() -> (r: Self)
        ensures
            r == BackendSelection::CompatibilityDefault,
    {
        BackendSelection::CompatibilityDefault
    }
}

/// Whether MP4 files may be handled without another program.
#[derive(Debug, PartialEq, Eq)]
pub struct Mp4BackendPolicy {
    pub enabled: bool,
    pub source_version: Option<String>,
}

impl Default for Mp4BackendPolicy {
    fn default() -> (r: Self)
        ensures
            !r.enabled,
            r.source_version is None,
    {
        Mp4BackendPolicy { enabled: false, source_version: None }
    }
}

/// Which programs may be used.
#[derive(Debug, PartialEq, Eq)]
pub struct BackendPolicy {
    pub mp4: Mp4BackendPolicy,
}

impl Default for BackendPolicy {
    fn default() -> (r: Self)
        ensures
            !r.mp4.enabled,
            r.mp4.source_version is None,
    {
        BackendPolicy { mp4: Mp4BackendPolicy::default() }
    }
}

} // verus!
