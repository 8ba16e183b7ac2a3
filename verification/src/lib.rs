//! Planning and parsing core of an HLS, DASH and Smooth Streaming downloader.

pub mod api;
pub mod attribute;
pub mod attribute_laws;
pub mod backend;
pub mod box_laws;
pub mod boxes;
pub mod cancellation;
pub mod cli;
pub mod cli_laws;
pub mod cli_report;
pub mod cli_schema;
pub mod cli_values;
pub mod codec;
pub mod codec_laws;
pub mod config;
pub mod console;
pub mod console_color;
pub mod console_laws;
pub mod dash;
pub mod dash_laws;
pub mod dash_stream_laws;
pub mod datetime;
pub mod decrypt;
pub mod decrypt_laws;
pub mod download;
pub mod download_laws;
pub mod error;
pub mod event;
pub mod hardening;
pub mod hls;
pub mod hls_laws;
pub mod hls_written;
pub mod http;
pub mod key_load;
pub mod live;
pub mod live_laws;
pub mod manifest;
pub mod media_info;
pub mod metadata;
pub mod mss;
pub mod mss_init;
pub mod mss_init_laws;
pub mod mss_laws;
pub mod mux;
pub mod mux_laws;
pub mod numeric;
pub mod observability;
pub mod outside;
pub mod path;
pub mod pattern;
pub mod playlist_fetch;
pub mod processor;
pub mod progress;
pub mod prompt;
pub mod protection_laws;
pub mod redaction;
pub mod refresh;
pub mod repair;
pub mod report_laws;
pub mod secret_laws;
pub mod segment_task;
pub mod stream_gather;
pub mod stream_laws;
pub mod stream_run;
pub mod stream_task;
pub mod task_laws;
pub mod text;
pub mod text_laws;
pub mod text_map;
pub mod time_laws;
pub mod url;
pub mod value_laws;
pub mod web_laws;
pub mod xml;

pub use crate::api::{DownloadClient, DownloadRequest, LiveRecorder, ProgressCallback};
pub use crate::backend::{BackendPolicy, BackendSelection, Mp4BackendPolicy};
pub use crate::cancellation::CancellationToken;
pub use crate::cli::{parse_args, CliParseResult};
pub use crate::cli_schema::{CliApiBinding, CliOptionSchema, CliSchemaValueKind};
pub use crate::config::{
    CompatibilityProfile, CustomKey, CustomRange, DecryptionEngine, DownloadOptions, HlsMethod,
    LogLevel, MuxAfterDoneOptions, MuxerKind, StreamFilter, SubtitleFormat, TaskStartAt, UiLanguage,
};
pub use crate::dash::{DashManifest, DashParser};
pub use crate::decrypt::{
    aes_128_cbc_decrypt, aes_128_ecb_decrypt, chacha20_decrypt_per_1024_bytes, custom_keys_to_pairs,
    decrypt_hls_segment_bytes, plan_external_decrypt, read_mp4_protection_info, redact_secrets,
    search_key_text_file, select_key_pair, ExternalDecryptPlan, ExternalDecryptRequest,
    Mp4ProtectionInfo, PsshInfo, PsshSystem, SelectedKey,
};
pub use crate::download::{
    cleanup_after_success, merge_policy_for_stream, planned_output_path,
    split_large_single_file_by_size, stream_output_extension, stream_temp_dir, DownloadMergePolicy,
    DownloadScheduler, SegmentDownloadResult, SegmentDownloader, SpeedState, StreamDownloadResult,
};
pub use crate::error::{Error, Result};
pub use crate::event::ProgressEvent;
pub use crate::hardening::{
    contains_unredacted_secret, estimate_segment_count, redact_and_verify,
    scan_unchecked_exit_paths, validate_cleanup_paths, validate_manifest_size,
    validate_resource_limits, BenchmarkMetric, BoundedEventQueue, ResourceLimits,
};
pub use crate::hls::{HlsManifest, HlsParser};
pub use crate::http::{DefaultHttpClient, HttpRequest, HttpResponse, ProxyMode};
pub use crate::key_load::{DefaultHlsKeyProcessor, KeyProcessor};
pub use crate::live::{
    add_recorded_duration, compute_live_wait_seconds, filter_new_live_segments, live_option_effects,
    live_segment_name, plan_live_pipe_mux, sync_live_startup_windows, update_http_live_ts_state,
    HttpLiveTsState, LiveIdentityMode, LiveOptionEffects, LiveRefreshResult, LiveStreamState,
};
pub use crate::manifest::{
    audio_channel_order, compare_streams_compatible, sort_streams_compatible, ByteRange, Choice,
    EncryptionInfo, EncryptionMethod, ExtractorType, KeySource, Manifest, MediaPart, MediaSegment,
    MediaType, MssData, Playlist, RoleType, Stream, StreamSelector,
};
pub use crate::metadata::streams_metadata_json;
pub use crate::mss::{MssManifest, MssParser};
pub use crate::mss_init::{MssGeneratedInit, MssInitGenerator};
pub use crate::mux::{
    combine_files, merge_extension, mp4forge_support_for_stream, mux_extension,
    output_files_with_imports, partial_combine_files, plan_ffmpeg_merge, plan_ffmpeg_mux,
    plan_mkvmerge_mux, validate_mp4forge_merge_request, validate_mp4forge_mux_after_done,
    FfmpegMergeMetadata, FfmpegMergeRequest, MediaInfo, MergeOutputFormat, Mp4forgeSupport,
    Mp4forgeSupportMatrix, MuxCommandPlan, MuxFormat, MuxImport, MuxOptions, OutputArtifact,
    OutputFile,
};
pub use crate::observability::{
    check_update_with_client, format_duration, format_file_size, initialize_log_file,
    latest_version_from_release_redirect, plan_log_file, redact_progress_event, should_log,
    summarize_events, DEFAULT_UPDATE_CHECK_URL, LogFilePlan, LogPlanConfig, ProgressEventCollector,
    ProgressSummary, UpdateCheckClient, UpdateCheckHttpClient, UpdateCheckResult,
};
pub use crate::processor::{
    compatibility_headers, resolve_media_url, signed_dash_secure_value, ContentProcessor,
    DEFAULT_USER_AGENT, DefaultDashContentProcessor, DefaultHlsContentProcessor,
    DefaultUrlProcessor, ParserConfig, SignedDashUrlProcessor, UrlProcessor,
};
pub use crate::progress::{AggregateProgress, SegmentProgress, StreamProgress};
