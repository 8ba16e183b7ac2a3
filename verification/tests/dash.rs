use haki_dl::dash::{
    DashAnswer, DashFacts, DashManifest, DashParser, DashQuestion, DashStop,
};
use haki_dl::error::Error;
use haki_dl::manifest::{MediaType, MssData, Stream};
use haki_dl::mss::{publish_time_text, MssParser};
use haki_dl::mss_init::MssInitGenerator;
use haki_dl::datetime::LocalTime;
use haki_dl::processor::{ParserConfig, ParserDiagnostics};
use haki_dl::text_map::TextMap;

fn facts(answers: Vec<(DashQuestion, DashAnswer)>) -> DashFacts {
    DashFacts { local_offset: 0, answers }
}

fn parse(text: &str, answers: Vec<(DashQuestion, DashAnswer)>) -> Result<DashManifest, DashStop> {
    let mut notes = ParserDiagnostics::new();
    DashParser::new().parse(
        text,
        "https://a.example/d/stream.mpd",
        &ParserConfig::default(),
        &facts(answers),
        &mut notes,
    )
}

const LIST: &str = "<?xml version=\"1.0\" encoding=\"UTF-8\"?>\n<MPD xmlns=\"urn:mpeg:dash:schema:mpd:2011\" type=\"static\" mediaPresentationDuration=\"PT2S\">\n  <Period id=\"0\" duration=\"PT2S\">\n    <AdaptationSet contentType=\"video\" mimeType=\"video/mp4\" codecs=\"avc1.42c00a\">\n      <Representation id=\"v1\" bandwidth=\"12000\" width=\"32\" height=\"32\">\n        <SegmentList timescale=\"1\" duration=\"1\">\n          <Initialization sourceURL=\"init.mp4\"/>\n          <SegmentURL media=\"seg-1.m4s\"/>\n          <SegmentURL media=\"seg-2.m4s\"/>\n        </SegmentList>\n      </Representation>\n    </AdaptationSet>\n  </Period>\n</MPD>\n";

#[test]
fn manifest_with_a_segment_list() {
    let m = parse(LIST, Vec::new()).unwrap();
    assert!(!m.is_dynamic);
    assert_eq!(m.streams.len(), 1);
    let s = &m.streams[0];
    assert_eq!(s.media_type, None);
    assert_eq!(s.bandwidth, Some(12000));
    assert_eq!(s.resolution.as_deref(), Some("32x32"));
    assert_eq!(s.codecs.as_deref(), Some("avc1.42c00a"));
    let p = s.playlist.as_ref().unwrap();
    assert_eq!(p.media_init.as_ref().unwrap().url, "https://a.example/d/init.mp4");
    let segments = &p.media_parts[0].media_segments;
    assert_eq!(segments.len(), 2);
    assert_eq!(segments[0].url, "https://a.example/d/seg-1.m4s");
    assert_eq!(segments[1].url, "https://a.example/d/seg-2.m4s");
    assert_eq!(s.segments_count(), 2);
}

const TIMELINE: &str = "<MPD xmlns=\"urn:mpeg:dash:schema:mpd:2011\" type=\"static\" mediaPresentationDuration=\"PT6S\"><Period><AdaptationSet mimeType=\"audio/mp4\" lang=\"en\"><SegmentTemplate timescale=\"1000\" startNumber=\"3\" initialization=\"$RepresentationID$/init.mp4\" media=\"$RepresentationID$/$Number%05d$-$Time$.m4s\"><SegmentTimeline><S t=\"0\" d=\"2000\" r=\"1\"/><S d=\"1000\"/></SegmentTimeline></SegmentTemplate><Representation id=\"a1\" bandwidth=\"64000\" codecs=\"mp4a.40.2\"/></AdaptationSet></Period></MPD>";

#[test]
fn manifest_with_a_timeline() {
    let m = parse(TIMELINE, Vec::new()).unwrap();
    let s = &m.streams[0];
    assert_eq!(s.media_type, Some(MediaType::Audio));
    assert_eq!(s.language.as_deref(), Some("en"));
    let p = s.playlist.as_ref().unwrap();
    assert_eq!(p.media_init.as_ref().unwrap().url, "https://a.example/d/a1/init.mp4");
    let urls: Vec<&str> = p.media_parts[0].media_segments.iter().map(|x| x.url.as_str()).collect();
    assert_eq!(
        urls,
        vec![
            "https://a.example/d/a1/00003-0.m4s",
            "https://a.example/d/a1/00004-2000.m4s",
            "https://a.example/d/a1/00005-4000.m4s",
        ]
    );
}

const NUMBERED: &str = "<MPD xmlns=\"urn:mpeg:dash:schema:mpd:2011\" type=\"static\" mediaPresentationDuration=\"PT9S\"><Period><AdaptationSet mimeType=\"video/mp4\"><SegmentTemplate timescale=\"1\" duration=\"4\" initialization=\"i.mp4\" media=\"$Number$.m4s\"/><Representation id=\"v\" bandwidth=\"5\"/></AdaptationSet></Period></MPD>";

#[test]
fn number_of_segments_is_asked_for() {
    let question = match parse(NUMBERED, Vec::new()) {
        Err(DashStop::Ask(q)) => q,
        other => panic!("{:?}", other),
    };
    match &question {
        DashQuestion::SegmentCount { timescale, duration, .. } => {
            assert_eq!((*timescale, *duration), (1, 4));
        }
        other => panic!("{:?}", other),
    }
    let m = parse(NUMBERED, vec![(question, DashAnswer::Count(3))]).unwrap();
    assert_eq!(m.streams[0].segments_count(), 3);
    let p = m.streams[0].playlist.as_ref().unwrap();
    assert_eq!(p.media_parts[0].media_segments[2].url, "https://a.example/d/3.m4s");
}

const WHOLE: &str = "<MPD xmlns=\"urn:mpeg:dash:schema:mpd:2011\" type=\"static\" mediaPresentationDuration=\"PT9S\"><Period><AdaptationSet mimeType=\"audio/mp4\"><Representation id=\"a1\" bandwidth=\"5\"><BaseURL>a1.mp4</BaseURL><SegmentBase indexRange=\"0-9\"><Initialization sourceURL=\"a1.mp4\" range=\"0-99\"/></SegmentBase></Representation><Representation id=\"a2\" bandwidth=\"9\"><BaseURL>a2.mp4</BaseURL></Representation></AdaptationSet><AdaptationSet mimeType=\"video/mp4\"><Representation id=\"v1\" bandwidth=\"7\" width=\"4\" height=\"3\"><BaseURL>v1.mp4</BaseURL></Representation></AdaptationSet></Period></MPD>";

#[test]
fn video_is_joined_with_the_widest_audio() {
    let m = parse(WHOLE, Vec::new()).unwrap();
    let video = m.streams.iter().find(|s| s.resolution.is_some()).unwrap();
    assert_eq!(video.audio_id.as_deref(), Some("a2"));
    let audio = m.streams.iter().find(|s| s.group_id.as_deref() == Some("a1")).unwrap();
    let init = audio.playlist.as_ref().unwrap().media_init.as_ref().unwrap();
    assert_eq!((init.start_range, init.expected_length), (Some(0), Some(100)));
    assert_eq!(init.stop_range(), Some(99));
}

#[test]
fn broken_manifests_are_refused() {
    assert!(matches!(parse("<MPD", Vec::new()), Err(DashStop::Fail(Error::Protocol { .. }))));
    assert!(matches!(parse("<html/>", Vec::new()), Err(DashStop::Fail(Error::Protocol { .. }))));
}

#[test]
fn fresh_segments_are_taken_over() {
    let streams = parse(LIST, Vec::new()).unwrap().streams;
    let longer = LIST.replace(
        "<SegmentURL media=\"seg-2.m4s\"/>",
        "<SegmentURL media=\"seg-2.m4s\"/><SegmentURL media=\"seg-3.m4s\"/>",
    );
    let mut notes = ParserDiagnostics::new();
    let refreshed = DashParser::new()
        .refresh_streams(
            &streams,
            &longer,
            "https://a.example/d/stream.mpd",
            &ParserConfig::default(),
            &facts(Vec::new()),
            0,
            &mut notes,
        )
        .unwrap();
    assert_eq!(refreshed[0].segments_count(), 3);
}

#[test]
fn parameters_of_the_manifest_are_appended() {
    let streams = parse(LIST, Vec::new()).unwrap().streams;
    let mut config = ParserConfig::default();
    config.append_url_params = true;
    config.url = "https://a.example/d/stream.mpd?x=1".to_string();
    let mut notes = ParserDiagnostics::new();
    let processed = DashParser::new().process_stream_urls(&streams, &config, 0, &mut notes).unwrap();
    let p = processed[0].playlist.as_ref().unwrap();
    assert_eq!(p.media_parts[0].media_segments[0].url, "https://a.example/d/seg-1.m4s?x=1");
}

const SMOOTH: &str = "<SmoothStreamingMedia MajorVersion=\"2\" MinorVersion=\"0\" Duration=\"40000000\" TimeScale=\"10000000\"><StreamIndex Type=\"audio\" Name=\"audio\" Language=\"eng\" Url=\"QualityLevels({bitrate})/Fragments(audio={start time})\"><QualityLevel Index=\"0\" Bitrate=\"128000\" FourCC=\"AACL\" SamplingRate=\"44100\" Channels=\"2\" BitsPerSample=\"16\" PacketSize=\"4\" AudioTag=\"255\" CodecPrivateData=\"1210\"/><c t=\"0\" d=\"20000000\" r=\"2\"/></StreamIndex></SmoothStreamingMedia>";

#[test]
fn smooth_streaming_manifest() {
    let m = MssParser::new()
        .parse_at(SMOOTH, "https://a.example/s/Manifest", &ParserConfig::default(), "now", 0)
        .unwrap();
    assert_eq!(m.timescale, 10_000_000);
    assert_eq!(m.duration, 40_000_000);
    assert!(!m.is_live);
    assert_eq!(m.streams.len(), 1);
    let s = &m.streams[0];
    assert_eq!(s.media_type, Some(MediaType::Audio));
    assert_eq!(s.bandwidth, Some(128_000));
    let p = s.playlist.as_ref().unwrap();
    let urls: Vec<&str> = p.media_parts[0].media_segments.iter().map(|x| x.url.as_str()).collect();
    assert_eq!(
        urls,
        vec![
            "https://a.example/s/QualityLevels(128000)/Fragments(audio=0)",
            "https://a.example/s/QualityLevels(128000)/Fragments(audio=20000000)",
        ]
    );
    let now = MssParser::new()
        .parse(SMOOTH, "https://a.example/s/Manifest", &ParserConfig::default())
        .unwrap();
    assert_eq!(now.streams.len(), 1);
    assert!(matches!(
        MssParser::new().parse_at("<x/>", "u", &ParserConfig::default(), "now", 0),
        Err(Error::Protocol { .. })
    ));
}

#[test]
fn initialization_segments_are_generated() {
    let stream = Stream {
        media_type: Some(MediaType::Audio),
        mss_data: Some(MssData {
            four_cc: "AACL".to_string(),
            codec_private_data: "1210".to_string(),
            stream_type: "audio".to_string(),
            timescale: 10_000_000,
            sampling_rate: 44100,
            channels: 2,
            bits_per_sample: 16,
            nal_unit_length_field: 4,
            duration: 40_000_000,
            is_protection: false,
            protection_system_id: String::new(),
            protection_data: String::new(),
        }),
        ..Stream::default()
    };
    assert!(MssInitGenerator::can_handle("AACL"));
    assert!(!MssInitGenerator::can_handle("XXXX"));
    let made = MssInitGenerator::generate(&stream, 5).unwrap();
    assert_eq!(&made.bytes[4..8], b"ftyp");
    let ftyp = u32::from_be_bytes([made.bytes[0], made.bytes[1], made.bytes[2], made.bytes[3]]) as usize;
    assert_eq!(&made.bytes[ftyp + 4..ftyp + 8], b"moov");
    let moov = u32::from_be_bytes([
        made.bytes[ftyp],
        made.bytes[ftyp + 1],
        made.bytes[ftyp + 2],
        made.bytes[ftyp + 3],
    ]) as usize;
    assert_eq!(ftyp + moov, made.bytes.len());
    assert_eq!(made.codec_private_data, "1210");
    assert_eq!(
        MssInitGenerator::generate_aac_codec_private_data("AACL", 44100, 2).as_deref(),
        Some("0000000000001210")
    );
    assert!(MssInitGenerator::generate(&Stream::default(), 0).is_err());
}

#[test]
fn publish_time_of_a_day() {
    let t = LocalTime {
        year: 2024,
        month: 1,
        day: 2,
        hour: 3,
        minute: 4,
        second: 5,
        nanosecond: 6_000_000,
        offset_seconds: 0,
    };
    assert!(publish_time_text(&t).starts_with("2024-01-02T03:04:05"));
    let empty: TextMap<String> = TextMap::new();
    assert!(empty.entries.is_empty());
}
