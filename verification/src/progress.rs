//! How far a download has come.

use vstd::prelude::*;

verus! {

/// Progress of everything.
#[derive(Clone, Copy, Debug, PartialEq, Eq, Structural)]
pub struct AggregateProgress {
    pub downloaded_bytes: u64,
    pub total_bytes: Option<u64>,
    pub bytes_per_second: u64,
}

/// Progress of one stream.
#[derive(Debug, PartialEq, Eq)]
pub struct StreamProgress {
    pub stream_id: String,
    pub downloaded_bytes: u64,
    pub total_bytes: Option<u64>,
    pub bytes_per_second: u64,
    pub low_speed_count: u32,
    pub completed_segments: u64,
    pub total_segments: Option<u64>,
}

/// Model of `StreamProgress`.
pub struct StreamProgressView {
    pub stream_id: Seq<char>,
    pub downloaded_bytes: u64,
    pub total_bytes: Option<u64>,
    pub bytes_per_second: u64,
    pub low_speed_count: u32,
    pub completed_segments: u64,
    pub total_segments: Option<u64>,
}

impl DeepView for StreamProgress {
    type V = StreamProgressView;

    open spec fn deep_view(&self) -> StreamProgressView {
        StreamProgressView {
            stream_id: self.stream_id@,
            downloaded_bytes: self.downloaded_bytes,
            total_bytes: self.total_bytes,
            bytes_per_second: self.bytes_per_second,
            low_speed_count: self.low_speed_count,
            completed_segments: self.completed_segments,
            total_segments: self.total_segments,
        }
    }
}

impl Clone for StreamProgress {
    fn clone(&self) -> (r: Self)
        ensures
            r.deep_view() == self.deep_view(),
    {
        StreamProgress {
            stream_id: self.stream_id.clone(),
            downloaded_bytes: self.downloaded_bytes,
            total_bytes: self.total_bytes,
            bytes_per_second: self.bytes_per_second,
            low_speed_count: self.low_speed_count,
            completed_segments: self.completed_segments,
            total_segments: self.total_segments,
        }
    }
}

/// Progress of one segment.
#[derive(Debug, PartialEq, Eq)]
pub struct SegmentProgress {
    pub stream_id: String,
    pub segment_index: u64,
    pub downloaded_bytes: u64,
    pub total_bytes: Option<u64>,
    pub bytes_per_second: u64,
    pub low_speed_count: u32,
    pub retry_attempt: u32,
}

/// Model of `SegmentProgress`.
pub struct SegmentProgressView {
    pub stream_id: Seq<char>,
    pub segment_index: u64,
    pub downloaded_bytes: u64,
    pub total_bytes: Option<u64>,
    pub bytes_per_second: u64,
    pub low_speed_count: u32,
    pub retry_attempt: u32,
}

impl DeepView for SegmentProgress {
    type V = SegmentProgressView;

    open spec fn deep_view(&self) -> SegmentProgressView {
        SegmentProgressView {
            stream_id: self.stream_id@,
            segment_index: self.segment_index,
            downloaded_bytes: self.downloaded_bytes,
            total_bytes: self.total_bytes,
            bytes_per_second: self.bytes_per_second,
            low_speed_count: self.low_speed_count,
            retry_attempt: self.retry_attempt,
        }
    }
}

impl Clone for SegmentProgress {
    fn clone(&self) -> (r: Self)
        ensures
            r.deep_view() == self.deep_view(),
    {
        SegmentProgress {
            stream_id: self.stream_id.clone(),
            segment_index: self.segment_index,
            downloaded_bytes: self.downloaded_bytes,
            total_bytes: self.total_bytes,
            bytes_per_second: self.bytes_per_second,
            low_speed_count: self.low_speed_count,
            retry_attempt: self.retry_attempt,
        }
    }
}

} // verus!
