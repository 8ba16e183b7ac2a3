use flate2::write::{DeflateEncoder, GzEncoder, ZlibEncoder};
use flate2::Compression;
use haki_dl::config::DownloadOptions;
use haki_dl::error::Error;
use haki_dl::http::{
    after_response, decode_content_body, decode_once, follow_redirect, format_response_headers,
    next_sleep_millis, redact_proxy_error_message, resolve_redirect, response_headers,
    source_probe_is_mpeg2_ts, source_probe_looks_binary, DefaultHttpClient, HttpRequest, ProbeBody,
    ProxyMode, ResponseStep, SourceAttempts,
};
use haki_dl::repair::{is_gzip_header, is_image_header, process_image_header, repair_downloaded_file};
use haki_dl::text_map::TextMap;
use std::io::Write;

fn gzip(data: &[u8]) -> Vec<u8> {
    let mut e = GzEncoder::new(Vec::new(), Compression::default());
    e.write_all(data).unwrap();
    e.finish().unwrap()
}

#[test]
fn bodies_are_decoded() {
    let data = b"some text some text some text".to_vec();
    assert_eq!(decode_once("gzip", gzip(&data)), Ok(data.clone()));
    let mut z = ZlibEncoder::new(Vec::new(), Compression::default());
    z.write_all(&data).unwrap();
    assert_eq!(decode_once("deflate", z.finish().unwrap()), Ok(data.clone()));
    let mut d = DeflateEncoder::new(Vec::new(), Compression::default());
    d.write_all(&data).unwrap();
    assert_eq!(decode_once("deflate", d.finish().unwrap()), Ok(data.clone()));
    let mut b = Vec::new();
    {
        let mut w = brotli::CompressorWriter::new(&mut b, 4096, 5, 22);
        w.write_all(&data).unwrap();
    }
    assert_eq!(decode_once("br", b), Ok(data.clone()));
    assert_eq!(decode_once("identity", data.clone()), Ok(data));
    assert_eq!(decode_once("gzip", vec![1, 2, 3]), Ok(vec![1, 2, 3]));
    assert!(decode_once("gzip", vec![0x1f, 0x8b, 3]).is_err());
}

#[test]
fn encodings_are_undone_in_turn() {
    let data = b"abcabcabc".to_vec();
    let twice = gzip(&gzip(&data));
    let mut headers: TextMap<String> = TextMap::new();
    headers.insert("content-encoding".to_string(), "gzip, gzip".to_string());
    assert_eq!(decode_content_body(twice, &headers), Ok(data.clone()));
    assert_eq!(decode_content_body(data.clone(), &TextMap::new()), Ok(data));
}

#[test]
fn redirects_are_followed() {
    assert_eq!(
        follow_redirect("https://a/x", 302, Some("/y")).as_deref(),
        Some("https://a/y")
    );
    assert_eq!(follow_redirect("https://a/x", 200, Some("/y")), None);
    assert_eq!(follow_redirect("https://a/x", 302, None), None);
    assert!(matches!(after_response("https://a/x", 200, None), ResponseStep::Take));
    assert!(matches!(after_response("https://a/x", 404, None), ResponseStep::Fail(Error::Http { .. })));
    match after_response("https://a/d/x", 301, Some("y")) {
        ResponseStep::Follow(url) => assert_eq!(url, "https://a/d/y"),
        other => panic!("{:?}", other),
    }
    assert_eq!(resolve_redirect("https://a/b/c", "../d"), "https://a/d");
    assert_eq!(resolve_redirect("https://a/b/c", "https://z/q"), "https://z/q");
}

#[test]
fn headers_of_a_response() {
    let list = vec![
        ("Content-Type".to_string(), "text/plain".to_string()),
        ("X-A".to_string(), "1".to_string()),
    ];
    let map = response_headers(&list);
    assert_eq!(map.get("content-type"), Some(&"text/plain".to_string()));
    assert!(format_response_headers(&list).contains("text/plain"));
    assert_eq!(HttpRequest::new("https://a").url, "https://a");
}

#[test]
fn proxies_and_their_secrets() {
    let message = redact_proxy_error_message("http://user:pw@host:1", "failed http://user:pw@host:1 now");
    assert!(!message.contains("user:pw"));
    let client = DefaultHttpClient::new()
        .with_timeout("5".to_string())
        .with_proxy_mode(ProxyMode::Custom("http://u:p@h".to_string()))
        .with_insecure_tls(true);
    assert_eq!(client.timeout(), "5");
    assert!(client.allow_insecure_tls());
    assert_eq!(client.proxy_mode(), &ProxyMode::Custom("http://u:p@h".to_string()));
    assert!(!client.redact_error("via http://u:p@h").contains("u:p"));
    let mut options = DownloadOptions::for_parallelism(None);
    options.set_custom_proxy(Some("http://h:1".to_string()));
    assert_eq!(
        DefaultHttpClient::from_options(&options).proxy_mode(),
        &ProxyMode::Custom("http://h:1".to_string())
    );
}

#[test]
fn waiting_in_small_steps() {
    let mut waited = 0;
    let mut steps = 0;
    while let Some(step) = next_sleep_millis(waited, 1500) {
        assert!(step > 0);
        waited += step;
        steps += 1;
    }
    assert_eq!(waited, 1500);
    assert!(steps >= 1);
}

#[test]
fn sources_are_asked_for_some_times() {
    let mut attempts = SourceAttempts::new();
    let mut waits = 0;
    while let Some(millis) = attempts.failed() {
        assert_eq!(millis, 1500);
        waits += 1;
    }
    assert_eq!(waits, 9);
    assert_eq!(attempts.failed(), None);
    assert_eq!(SourceAttempts::for_live_refresh().failed(), Some(1000));
}

#[test]
fn what_a_body_looks_like() {
    let mut ts = vec![0u8; 188 * 3];
    ts[0] = 0x47;
    ts[188] = 0x47;
    ts[376] = 0x47;
    assert!(source_probe_is_mpeg2_ts(&ts));
    assert!(!source_probe_is_mpeg2_ts(&b"#EXTM3U".to_vec()));
    assert!(source_probe_looks_binary(&vec![0, 1, 2, 0]));
    assert!(!source_probe_looks_binary(&b"#EXTM3U\n".to_vec()));
    let mut body = ProbeBody::new();
    body.read(&b"#EXTM3U\n".to_vec());
    assert_eq!(body.bytes, b"#EXTM3U\n".to_vec());
    assert!(!body.done);
}

#[test]
fn disguised_segments_are_repaired() {
    let data = b"payload".to_vec();
    let packed = gzip(&data);
    assert!(is_gzip_header(&packed));
    assert_eq!(repair_downloaded_file(packed, false, true), Ok(data.clone()));
    assert_eq!(repair_downloaded_file(data.clone(), false, false), Ok(data.clone()));
    assert!(is_image_header(&vec![0x89, 0x50, 0x4e, 0x47, 0x0d, 0x0a, 0x1a, 0x0a]));
    assert!(!is_image_header(&data));
    let mut hidden = vec![0x89, 0x50, 0x4e, 0x47];
    hidden.resize(600, 1);
    let mut ts = vec![2u8; 188 * 4];
    for k in 0..4 {
        ts[k * 188] = 0x47;
    }
    hidden.extend(ts.iter());
    let repaired = process_image_header(hidden).unwrap();
    assert_eq!(repaired[0], 0x47);
    assert_eq!(repaired, ts);
}
