use haki_dl::attribute::{hls_attribute, non_empty_hls_attribute};
use haki_dl::config::{DownloadOptions, LogLevel};
use haki_dl::error::Error;
use haki_dl::hls::{parse_master, HlsManifest, HlsParser, HlsStop, KeyAnswer};
use haki_dl::http::HttpResponse;
use haki_dl::key_load::{parse_key, DefaultHlsKeyProcessor, KeyAction, KeyLoad, KeyProcessor};
use haki_dl::manifest::{
    EncryptionInfo, EncryptionMethod, ExtractorType, KeySource, MediaDuration, MediaType, Stream,
};
use haki_dl::path::LocalPath;
use haki_dl::playlist_fetch::FetchAction;
use haki_dl::processor::{
    bytes_to_spaced_hex, compatibility_headers, finish_key, format_source_http_request_headers,
    hex_to_bytes, read_key_line, resolve_media_url, signed_dash_secure_value, DefaultUrlProcessor,
    LoadedKey, ParserConfig, ParserDiagnostics, SignedDashUrlProcessor,
};
use haki_dl::text_map::TextMap;

fn config() -> ParserConfig {
    ParserConfig::default()
}

fn read(text: &str) -> HlsManifest {
    let mut notes = ParserDiagnostics::new();
    let url = "https://a.example/x/list.m3u8";
    match HlsParser::new().parse(text, url, &config(), &Vec::new(), &mut notes) {
        Ok(r) => r,
        Err(e) => panic!("{:?}", e),
    }
}

const MEDIA: &str = "#EXTM3U\n#EXT-X-VERSION:3\n#EXT-X-TARGETDURATION:6\n#EXT-X-MEDIA-SEQUENCE:5\n#EXTINF:6.000,first\nseg5.ts\n#EXTINF:4.5,\nseg6.ts\n#EXT-X-ENDLIST\n";

#[test]
fn attributes_of_a_line() {
    let line = "METHOD=AES-128,URI=\"https://a/k?x=1,2\",IV=0xAB";
    assert_eq!(hls_attribute(line, "METHOD").unwrap().as_deref(), Some("AES-128"));
    assert_eq!(hls_attribute(line, "URI").unwrap().as_deref(), Some("https://a/k?x=1,2"));
    assert_eq!(hls_attribute(line, "IV").unwrap().as_deref(), Some("0xAB"));
    assert_eq!(hls_attribute(line, "NAME").unwrap(), None);
    assert_eq!(non_empty_hls_attribute("A=\"\",B=1", "A").unwrap(), None);
}

#[test]
fn media_playlist_of_two_segments() {
    let r = read(MEDIA);
    assert!(!r.is_master);
    assert!(!r.requires_binary_merge);
    assert_eq!(r.streams.len(), 1);
    let s = &r.streams[0];
    assert_eq!(s.extension.as_deref(), Some("ts"));
    let p = s.playlist.as_ref().unwrap();
    assert!(!p.is_live);
    assert_eq!(p.target_duration.as_deref(), Some("6"));
    assert_eq!(p.media_parts.len(), 1);
    let segments = &p.media_parts[0].media_segments;
    assert_eq!(segments.len(), 2);
    assert_eq!(segments[0].index, 5);
    assert_eq!(segments[0].url, "https://a.example/x/seg5.ts");
    assert_eq!(segments[0].title, None);
    assert_eq!(segments[1].index, 6);
    assert_eq!(segments[1].duration, MediaDuration::Seconds("4.5".to_string()));
}

#[test]
fn playlist_without_an_end_is_live() {
    let text = MEDIA.replace("#EXT-X-ENDLIST\n", "");
    let r = read(&text);
    assert!(r.streams[0].playlist.as_ref().unwrap().is_live);
}

#[test]
fn byte_ranges_and_parts() {
    let text = "#EXTM3U\n#EXT-X-MAP:URI=\"init.mp4\",BYTERANGE=\"100@0\"\n#EXTINF:1,\n#EXT-X-BYTERANGE:50@100\na.mp4\n#EXTINF:1,\n#EXT-X-BYTERANGE:60\na.mp4\n#EXT-X-DISCONTINUITY\n#EXTINF:1,\nb.mp4\n#EXT-X-ENDLIST\n";
    let r = read(text);
    let s = &r.streams[0];
    assert_eq!(s.extension.as_deref(), Some("mp4"));
    let p = s.playlist.as_ref().unwrap();
    let init = p.media_init.as_ref().unwrap();
    assert_eq!((init.start_range, init.expected_length), (Some(0), Some(100)));
    assert_eq!(p.media_parts.len(), 2);
    let first = &p.media_parts[0].media_segments;
    assert_eq!((first[0].start_range, first[0].expected_length), (Some(100), Some(50)));
    assert_eq!((first[1].start_range, first[1].expected_length), (Some(150), Some(60)));
    assert_eq!(first[1].stop_range(), Some(209));
    assert_eq!(p.media_parts[1].media_segments[0].url, "https://a.example/x/b.mp4");
}

#[test]
fn parts_of_an_ended_playlist_are_not_empty() {
    let text = "#EXTM3U\n#EXT-X-DISCONTINUITY\n#EXTINF:1,\na.ts\n#EXT-X-DISCONTINUITY\n#EXT-X-DISCONTINUITY\n#EXTINF:1,\nb.ts\n#EXT-X-ENDLIST\n";
    let r = read(text);
    let parts = &r.streams[0].playlist.as_ref().unwrap().media_parts;
    assert_eq!(parts.len(), 2);
    assert!(parts.iter().all(|part| !part.media_segments.is_empty()));
}

#[test]
fn no_playlist_is_refused() {
    let mut notes = ParserDiagnostics::new();
    match HlsParser::new().parse("hello", "u", &config(), &Vec::new(), &mut notes) {
        Err(HlsStop::Fail(e)) => assert_eq!(e, Error::protocol("HLS input must start with #EXTM3U")),
        other => panic!("{:?}", other),
    }
}

#[test]
fn master_playlist_of_two_variants_and_audio() {
    let text = "#EXTM3U\n#EXT-X-MEDIA:TYPE=AUDIO,GROUP-ID=\"aud\",NAME=\"English\",LANGUAGE=\"en\",CHANNELS=\"2\",URI=\"audio.m3u8\"\n#EXT-X-STREAM-INF:BANDWIDTH=1280000,RESOLUTION=640x360,CODECS=\"avc1.4d401e,mp4a.40.2\",AUDIO=\"aud\",FRAME-RATE=25.000\nlow.m3u8\n#EXT-X-STREAM-INF:AVERAGE-BANDWIDTH=2000000,BANDWIDTH=2560000\nhigh.m3u8\n#EXT-X-STREAM-INF:BANDWIDTH=1\nhigh.m3u8\n";
    let r = read(text);
    assert!(r.is_master);
    assert_eq!(r.streams.len(), 3);
    let audio = &r.streams[0];
    assert_eq!(audio.media_type, Some(MediaType::Audio));
    assert_eq!(audio.group_id.as_deref(), Some("aud"));
    assert_eq!(audio.url, "https://a.example/x/audio.m3u8");
    let low = &r.streams[1];
    assert_eq!(low.bandwidth, Some(1_280_000));
    assert_eq!(low.codecs.as_deref(), Some("avc1.4d401e"));
    assert_eq!(low.audio_id.as_deref(), Some("aud"));
    assert_eq!(low.resolution.as_deref(), Some("640x360"));
    assert_eq!(r.streams[2].bandwidth, Some(2_000_000));
}

#[test]
fn key_lines_ask_for_their_keys() {
    let text = "#EXTM3U\n#EXT-X-KEY:METHOD=AES-128,URI=\"k.bin\"\n#EXTINF:1,\na.ts\n#EXT-X-KEY:METHOD=AES-128,URI=\"k.bin\"\n#EXTINF:1,\nb.ts\n#EXT-X-ENDLIST\n";
    let parser = HlsParser::new();
    let mut notes = ParserDiagnostics::new();
    let line = match parser.parse(text, "https://a/x.m3u8", &config(), &Vec::new(), &mut notes) {
        Err(HlsStop::KeyNeeded { line }) => line,
        other => panic!("{:?}", other),
    };
    assert_eq!(line, "#EXT-X-KEY:METHOD=AES-128,URI=\"k.bin\"");
    let info = EncryptionInfo {
        method: EncryptionMethod::Aes128,
        key: Some(vec![1; 16]),
        source: KeySource::Uri,
        ..EncryptionInfo::default()
    };
    let keys = vec![KeyAnswer { info, diagnostics: ParserDiagnostics::new() }];
    let r = parser.parse(text, "https://a/x.m3u8", &config(), &keys, &mut notes).unwrap();
    let p = r.streams[0].playlist.as_ref().unwrap();
    let segments = &p.media_parts[0].media_segments;
    assert_eq!(segments[0].encryption.key, Some(vec![1; 16]));
    assert_eq!(segments[1].encryption.key, Some(vec![1; 16]));
    let mut iv = vec![0; 16];
    assert_eq!(segments[0].encryption.iv, Some(iv.clone()));
    iv[15] = 1;
    assert_eq!(segments[1].encryption.iv, Some(iv));
}

fn texts(notes: &ParserDiagnostics) -> Vec<&str> {
    notes.entries.iter().map(|entry| entry.message.as_str()).collect()
}

fn config_with_params() -> ParserConfig {
    let mut c = config();
    c.append_url_params = true;
    c.url = "https://a/x.m3u8?t=1".to_string();
    c
}

#[test]
fn failing_playlists_keep_their_messages() {
    let c = config_with_params();
    let mut notes = ParserDiagnostics::new();
    let text = "#EXTM3U\n#EXTINF:1,\na.ts\n#EXT-X-MAP:URI=\"i.mp4\",BYTERANGE=\"x\"\n#EXTINF:1,\nb.ts\n";
    let r = HlsParser::new().parse(text, "https://a/x.m3u8", &c, &Vec::new(), &mut notes);
    assert!(matches!(r, Err(HlsStop::Fail(_))));
    assert_eq!(
        texts(&notes),
        [
            "Before: https://a/a.ts",
            "After: https://a/a.ts?t=1",
            "Before: https://a/i.mp4",
            "After: https://a/i.mp4?t=1",
        ]
    );
}

#[test]
fn failing_masters_keep_their_messages() {
    let c = config_with_params();
    let mut notes = ParserDiagnostics::new();
    let text = "#EXTM3U\n#EXT-X-MEDIA:TYPE=AUDIO,URI=\"a.m3u8\"\n#EXT-X-STREAM-INF:BANDWIDTH=x\nb.m3u8\n";
    assert!(parse_master(text, "https://a/x.m3u8", &c, &mut notes).is_err());
    assert_eq!(texts(&notes), ["Before: https://a/a.m3u8", "After: https://a/a.m3u8?t=1"]);
}

#[test]
fn missing_keys_leave_the_messages_before_them() {
    let c = config_with_params();
    let mut notes = ParserDiagnostics::new();
    let text = "#EXTM3U\n#EXTINF:1,\na.ts\n#EXT-X-KEY:METHOD=AES-128,URI=\"k.bin\"\n#EXTINF:1,\nb.ts\n";
    let r = HlsParser::new().parse(text, "https://a/x.m3u8", &c, &Vec::new(), &mut notes);
    assert!(matches!(r, Err(HlsStop::KeyNeeded { .. })));
    assert_eq!(texts(&notes), ["Before: https://a/a.ts", "After: https://a/a.ts?t=1"]);
}

#[test]
fn several_maps_are_warned_of_whatever_the_text_is() {
    let mut c = config();
    c.custom_parser_args.insert("AllowHlsMultiExtMap".to_string(), "true".to_string());
    let mut notes = ParserDiagnostics::new();
    let r = HlsParser::new().parse("hello", "https://a/x.m3u8", &c, &Vec::new(), &mut notes);
    assert!(matches!(r, Err(HlsStop::Fail(_))));
    assert_eq!(notes.entries.len(), 1);
    assert_eq!(notes.entries[0].level, LogLevel::Warn);
}

#[test]
fn key_line_is_read() {
    let mut notes = ParserDiagnostics::new();
    let line = read_key_line("#EXT-X-KEY:METHOD=AES-128,URI=\"k.bin\",IV=0x0A0B", &config(), &mut notes).unwrap();
    assert_eq!(line.uri.as_deref(), Some("k.bin"));
    assert_eq!(line.info.iv, Some(vec![0x0a, 0x0b]));
    assert_eq!(line.info.method, EncryptionMethod::Aes128);
    assert_eq!(notes.entries[0].message, "METHOD:AES-128,URI:k.bin,IV:0x0A0B");
    let failed = finish_key(
        line,
        Some(LoadedKey::Failed { message: "gone".to_string() }),
        &config(),
        &mut notes,
    );
    assert_eq!(failed.method, EncryptionMethod::Unknown);
    assert_eq!(notes.entries[1].message, "Failed to get KEY, ignore.: gone");
    assert_eq!(notes.entries[1].level, LogLevel::Error);
}

#[test]
fn key_lines_of_playlists_are_processed() {
    let mut notes = ParserDiagnostics::new();
    let line = "#EXT-X-KEY:METHOD=NONE";
    let key = parse_key(&DefaultHlsKeyProcessor, line, "u", "t", &config(), &mut notes).unwrap();
    assert_eq!(key.info.method, EncryptionMethod::Unencrypted);
    let default = DefaultHlsKeyProcessor;
    assert!(default.can_process(ExtractorType::Hls, line, "u", "t", &config()));
    assert!(!default.can_process(ExtractorType::Mss, line, "u", "t", &config()));
}

#[test]
fn messages_about_a_key_line_stay_where_it_fails() {
    let mut notes = ParserDiagnostics::new();
    notes.push(LogLevel::Info, "before");
    let line = "#EXT-X-KEY:METHOD=AES-128,IV=0xZZ";
    assert!(parse_key(&DefaultHlsKeyProcessor, line, "u", "t", &config(), &mut notes).is_err());
    let messages: Vec<&str> = notes.entries.iter().map(|n| n.message.as_str()).collect();
    assert_eq!(messages, vec!["before", "METHOD:AES-128,URI:,IV:0xZZ"]);
}

#[test]
fn messages_come_out_once() {
    let first = config();
    let second = first.clone();
    let mut queue = ParserDiagnostics::new();
    first.push_diagnostic(&mut queue, LogLevel::Info, "a");
    second.push_diagnostic(&mut queue, LogLevel::Warn, "b");
    let drained = first.drain_diagnostics(&mut queue);
    let messages: Vec<&str> = drained.iter().map(|n| n.message.as_str()).collect();
    assert_eq!(messages, vec!["a", "b"]);
    assert!(second.drain_diagnostics(&mut queue).is_empty());
}

#[test]
fn urls_go_through_all_processors() {
    let mut c = config();
    c.url = "https://a/list.m3u8?x=1".to_string();
    c.append_url_params = true;
    let mut notes = ParserDiagnostics::new();
    let none: Vec<DefaultUrlProcessor> = Vec::new();
    let url = resolve_media_url(
        ExtractorType::Hls,
        "s.ts",
        "https://a/list.m3u8",
        &c,
        &none,
        0,
        &mut notes,
    );
    assert_eq!(url.unwrap(), "https://a/s.ts");
    assert!(notes.entries.is_empty());
    let two = vec![DefaultUrlProcessor, DefaultUrlProcessor];
    let url = resolve_media_url(
        ExtractorType::Hls,
        "s.ts",
        "https://a/list.m3u8",
        &c,
        &two,
        0,
        &mut notes,
    );
    assert_eq!(url.unwrap(), "https://a/s.ts?x=1");
    assert_eq!(notes.entries.len(), 4);
    c.base_url = "https://b/d/".to_string();
    c.urlprocessor_args = Some("nowehoryzonty:timeDifference=x".to_string());
    let signed = vec![SignedDashUrlProcessor, SignedDashUrlProcessor];
    let refused = resolve_media_url(
        ExtractorType::MpegDash,
        "s.mpd",
        "https://a/list.mpd",
        &c,
        &signed,
        0,
        &mut notes,
    );
    assert!(refused.is_err());
    assert_eq!(notes.entries.len(), 4);
}

#[test]
fn key_in_the_uri_itself() {
    let mut load = KeyLoad::new("base64:AAEC", "https://a/x.m3u8", 3, false);
    match load.begin() {
        KeyAction::Done(LoadedKey::Key { bytes, source }) => {
            assert_eq!(bytes, vec![0, 1, 2]);
            assert_eq!(source, KeySource::Inline);
        }
        other => panic!("{:?}", other),
    }
    let mut load = KeyLoad::new("data:;base64,AAE", "https://a/x.m3u8", 3, false);
    assert!(matches!(load.begin(), KeyAction::Done(LoadedKey::Failed { .. })));
}

#[test]
fn key_is_asked_for_again_after_a_failure() {
    let mut notes = ParserDiagnostics::new();
    let mut load = KeyLoad::new("k.bin", "https://a/x/list.m3u8", 1, false);
    match load.begin() {
        KeyAction::Look(path) => assert_eq!(path, "k.bin"),
        other => panic!("{:?}", other),
    }
    match load.looked(false, &config(), &mut notes) {
        KeyAction::Look(path) => assert_eq!(path, "https://a/x/k.bin"),
        other => panic!("{:?}", other),
    }
    match load.looked(false, &config(), &mut notes) {
        KeyAction::Fetch(url) => assert_eq!(url, "https://a/x/k.bin"),
        other => panic!("{:?}", other),
    }
    match load.fetched(Err(Error::http("gone")), &mut notes) {
        KeyAction::Wait(millis) => assert_eq!(millis, 1000),
        other => panic!("{:?}", other),
    }
    assert_eq!(notes.entries.last().unwrap().message, "gone retryCount: 1");
    assert!(matches!(load.waited(&config(), &mut notes), KeyAction::Fetch(_)));
    let response = HttpResponse {
        status: 200,
        final_url: "https://a/x/k.bin".to_string(),
        headers: TextMap::new(),
        body: vec![0xab, 0x01],
        debug_logs: vec!["log".to_string()],
    };
    match load.fetched(Ok(response), &mut notes) {
        KeyAction::Done(LoadedKey::Key { bytes, source }) => {
            assert_eq!(bytes, vec![0xab, 0x01]);
            assert_eq!(source, KeySource::Uri);
        }
        other => panic!("{:?}", other),
    }
    assert_eq!(notes.entries.last().unwrap().message, "ab 01");
    let mut load = KeyLoad::new("k.bin", "https://a/x/list.m3u8", 0, false);
    load.begin();
    load.looked(false, &config(), &mut notes);
    load.looked(false, &config(), &mut notes);
    match load.fetched(Err(Error::http("gone")), &mut notes) {
        KeyAction::Done(LoadedKey::Failed { message }) => assert_eq!(message, "gone"),
        other => panic!("{:?}", other),
    }
}

#[test]
fn key_files_are_read() {
    let mut notes = ParserDiagnostics::new();
    let mut load = KeyLoad::new("file:///tmp/k.bin", "https://a/x/list.m3u8", 1, false);
    load.begin();
    match load.looked(false, &config(), &mut notes) {
        KeyAction::Read(LocalPath::Text(path)) => {
            assert!(path.ends_with("k.bin") && !path.starts_with("file:"));
        }
        other => panic!("{:?}", other),
    }
    match load.read(Ok(vec![5])) {
        KeyAction::Done(LoadedKey::Key { bytes, source }) => {
            assert_eq!(bytes, vec![5]);
            assert_eq!(source, KeySource::File);
        }
        other => panic!("{:?}", other),
    }
}

fn variant(url: &str) -> Stream {
    Stream { url: url.to_string(), bandwidth: Some(7), ..Stream::default() }
}

#[test]
fn playlists_of_streams_are_loaded() {
    let streams = vec![variant("https://a/1.m3u8"), variant("https://a/2.m3u8")];
    let mut c = config();
    c.url = "https://a/master.m3u8".to_string();
    let mut notes = ParserDiagnostics::new();
    let mut fetch = HlsParser::new().fetch_playlists(streams, &c);
    match fetch.action() {
        FetchAction::Load(url) => assert_eq!(url, "https://a/1.m3u8"),
        other => panic!("{:?}", other),
    }
    fetch.playlist_loaded(MEDIA, "https://a/1.m3u8", &c, &Vec::new(), &mut notes).unwrap();
    match fetch.action() {
        FetchAction::Load(url) => assert_eq!(url, "https://a/2.m3u8"),
        other => panic!("{:?}", other),
    }
    fetch.load_failed(Error::http("gone"), &mut notes).unwrap();
    match fetch.action() {
        FetchAction::LoadMaster(url) => assert_eq!(url, "https://a/master.m3u8"),
        other => panic!("{:?}", other),
    }
    let candidates = vec![variant("https://a/new.m3u8")];
    fetch.master_loaded(&candidates, &vec![true], &mut notes).unwrap();
    assert_eq!(notes.entries.last().unwrap().message, "https://a/2.m3u8 => https://a/new.m3u8");
    match fetch.action() {
        FetchAction::Load(url) => assert_eq!(url, "https://a/new.m3u8"),
        other => panic!("{:?}", other),
    }
    assert_eq!(fetch.load_failed(Error::http("twice"), &mut notes), Err(Error::http("twice")));
    fetch.playlist_loaded(MEDIA, "https://a/new.m3u8", &c, &Vec::new(), &mut notes).unwrap();
    assert!(matches!(fetch.action(), FetchAction::Done));
    let (streams, merge) = fetch.finish();
    assert!(!merge);
    assert_eq!(streams[0].extension.as_deref(), Some("ts"));
    assert_eq!(streams[1].url, "https://a/new.m3u8");
    let again = HlsParser::new().fetch_playlists(streams, &c);
    assert!(matches!(again.action(), FetchAction::Done));
}

#[test]
fn first_failure_stands_where_the_master_does_not_help() {
    let mut c = config();
    c.url = "https://a/master.m3u8".to_string();
    let mut notes = ParserDiagnostics::new();
    let mut fetch = HlsParser::new().refresh_playlists(vec![variant("https://a/1.m3u8")], &c);
    fetch.load_failed(Error::http("gone"), &mut notes).unwrap();
    let candidates = vec![variant("https://a/new.m3u8")];
    assert_eq!(
        fetch.master_loaded(&candidates, &vec![false], &mut notes),
        Err(Error::http("gone"))
    );
}

#[test]
fn user_headers_win() {
    let mut user: TextMap<String> = TextMap::new();
    user.insert("user-agent".to_string(), "mine".to_string());
    let all = compatibility_headers(&user);
    assert_eq!(all.get("user-agent"), Some(&"mine".to_string()));
    let text = format_source_http_request_headers(&user);
    assert_eq!(text, "Accept-Encoding: gzip, deflate\nCache-Control: no-cache\nuser-agent: mine");
}

#[test]
fn bytes_of_keys() {
    assert_eq!(hex_to_bytes("0aFF").unwrap(), vec![10, 255]);
    assert!(hex_to_bytes("0aF").is_err());
    assert!(hex_to_bytes("zz").is_err());
    assert_eq!(bytes_to_spaced_hex(&vec![0, 255, 16]), "00 ff 10");
    assert_eq!(bytes_to_spaced_hex(&Vec::new()), "");
}

#[test]
fn signature_of_a_path() {
    let a = signed_dash_secure_value("/v/1.mpd", "secret", 0, 1_000_000);
    let b = signed_dash_secure_value("/v/1.mpd", "other", 0, 1_000_000);
    assert_ne!(a, b);
    assert_eq!(a, signed_dash_secure_value("/v/1.mpd", "secret", 0, 1_000_000));
}

#[test]
fn settings_follow_the_options() {
    let mut options = DownloadOptions::for_parallelism(None);
    options.set_base_url("https://base/".to_string());
    options.set_custom_hls_key(Some(vec![1; 16]));
    let c = ParserConfig::from_options(&options);
    assert_eq!(c.base_url, "https://base/");
    assert_eq!(c.custom_key, Some(vec![1; 16]));
}
