use aes::Aes128;
use cipher::block_padding::Pkcs7;
use cipher::{BlockEncryptMut, KeyInit, KeyIvInit};
use haki_dl::boxes::{box_bytes, full_box};
use haki_dl::codec::base64_encode;
use haki_dl::config::{CustomKey, DecryptionEngine};
use haki_dl::decrypt::{
    aes_128_cbc_decrypt, aes_128_ecb_decrypt, chacha20_decrypt_per_1024_bytes,
    custom_keys_to_pairs, decrypt_hls_segment_bytes, find_key_line, plan_external_decrypt,
    read_mp4_protection_info, redact_secrets, search_key_text_file, select_key_pair,
    ExternalDecryptRequest, PsshSystem,
};
use haki_dl::error::Error;
use haki_dl::event::ProgressEvent;
use haki_dl::hardening::{
    contains_unredacted_secret, estimate_segment_count, redact_and_verify,
    scan_unchecked_exit_paths, validate_cleanup_paths, validate_manifest_size,
    validate_resource_limits, BenchmarkMetric, BoundedEventQueue, CleanupPath, ResourceLimits,
};
use haki_dl::datetime::TimeSpan;
use haki_dl::manifest::{EncryptionMethod, MediaPart, MediaSegment, Playlist, Stream};

fn plain(n: usize) -> Vec<u8> {
    (0..n).map(|i| (i * 7 + 3) as u8).collect()
}

#[test]
fn cbc_gives_the_plain_bytes_back() {
    let key = [1u8; 16];
    let iv = [2u8; 16];
    for n in [0usize, 1, 15, 16, 17, 100] {
        let data = plain(n);
        let encrypted = cbc::Encryptor::<Aes128>::new_from_slices(&key, &iv)
            .unwrap()
            .encrypt_padded_vec_mut::<Pkcs7>(&data);
        assert_ne!(encrypted, data);
        assert_eq!(aes_128_cbc_decrypt(&encrypted, &key, &iv), Ok(data.clone()));
        assert_eq!(
            decrypt_hls_segment_bytes(EncryptionMethod::Aes128, &encrypted, Some(&key), Some(&iv)),
            Ok(data)
        );
    }
}

#[test]
fn ecb_gives_the_plain_bytes_back() {
    let key = [9u8; 16];
    let data = plain(50);
    let encrypted = ecb::Encryptor::<Aes128>::new_from_slice(&key)
        .unwrap()
        .encrypt_padded_vec_mut::<Pkcs7>(&data);
    assert_eq!(aes_128_ecb_decrypt(&encrypted, &key), Ok(data));
}

#[test]
fn wrong_keys_are_refused() {
    assert!(matches!(aes_128_cbc_decrypt(&[0; 16], &[0; 15], &[0; 16]), Err(Error::Decrypt { .. })));
    assert!(matches!(aes_128_cbc_decrypt(&[0; 15], &[0; 16], &[0; 16]), Err(Error::Decrypt { .. })));
    assert_eq!(
        aes_128_ecb_decrypt(&[0; 16], &[0; 3]),
        Err(Error::decrypt("AES-128-ECB key length is invalid"))
    );
    assert_eq!(
        decrypt_hls_segment_bytes(EncryptionMethod::Aes128, &[], None, None),
        Err(Error::decrypt("AES key is missing"))
    );
    assert_eq!(
        decrypt_hls_segment_bytes(EncryptionMethod::Aes128, &[], Some(&[0; 16]), None),
        Err(Error::decrypt("AES IV is missing"))
    );
    assert_eq!(
        decrypt_hls_segment_bytes(EncryptionMethod::Chacha20, &[], Some(&[0; 32]), None),
        Err(Error::decrypt("ChaCha20 nonce is missing"))
    );
    assert_eq!(
        chacha20_decrypt_per_1024_bytes(&[], &[0; 31], &[0; 12]),
        Err(Error::decrypt("ChaCha20 key must be 32 bytes"))
    );
    assert_eq!(
        chacha20_decrypt_per_1024_bytes(&[], &[0; 32], &[0; 11]),
        Err(Error::decrypt("ChaCha20 nonce must be 12 or 8 bytes"))
    );
    assert_eq!(
        decrypt_hls_segment_bytes(EncryptionMethod::SampleAes, &[1, 2], None, None),
        Ok(vec![1, 2])
    );
}

#[test]
fn chacha_starts_anew_after_1024_bytes() {
    let key = [0u8; 32];
    let zeros = vec![0u8; 2048];
    let stream = chacha20_decrypt_per_1024_bytes(&zeros, &key, &[0; 12]).unwrap();
    assert_eq!(&stream[..8], &[0x76, 0xb8, 0xe0, 0xad, 0xa0, 0xf1, 0x3d, 0x90]);
    assert_eq!(&stream[..1024], &stream[1024..]);
    assert_eq!(chacha20_decrypt_per_1024_bytes(&zeros, &key, &[0; 8]).unwrap(), stream);
}

#[test]
fn chacha_twice_changes_nothing() {
    let key: Vec<u8> = (0..32u8).collect();
    let nonce = [5u8; 12];
    let data = plain(3000);
    let once = chacha20_decrypt_per_1024_bytes(&data, &key, &nonce).unwrap();
    assert_ne!(once, data);
    assert_eq!(chacha20_decrypt_per_1024_bytes(&once, &key, &nonce), Ok(data));
}

#[test]
fn protection_of_a_file() {
    let widevine: [u8; 16] = [
        0xed, 0xef, 0x8b, 0xa9, 0x79, 0xd6, 0x4a, 0xce, 0xa3, 0xc8, 0x27, 0xdc, 0xd5, 0x1d, 0x21,
        0xed,
    ];
    let mut payload = widevine.to_vec();
    payload.extend([0, 0, 0, 4, 1, 2, 3, 4]);
    let pssh = full_box("pssh", 0, 0, payload);
    let moov = box_bytes("moov", pssh);
    let info = read_mp4_protection_info(&moov);
    assert_eq!(info.pssh_system, Some(PsshSystem::Widevine));
    assert_eq!(info.psshs.len(), 1);
    assert_eq!(info.psshs[0].data, info.pssh.clone().unwrap());
    assert_eq!(info.kid, None);
    let nothing = read_mp4_protection_info(&Vec::new());
    assert_eq!(nothing.pssh, None);
    assert!(!base64_encode(&vec![1, 2, 3, 4]).is_empty());
}

#[test]
fn keys_for_programs() {
    let keys = vec![
        CustomKey::Track { track_id: 2, key_hex: "aa".to_string() },
        CustomKey::Kid { kid_hex: "bb".to_string(), key_hex: "cc".to_string() },
        CustomKey::Key { key_hex: "dd".to_string() },
    ];
    let pairs = custom_keys_to_pairs(&keys);
    assert_eq!(pairs, vec!["2:aa", "bb:cc", "dd"]);
    let selected = select_key_pair(&pairs, Some("bb"), false).unwrap();
    assert_eq!(selected.key_pair, "bb:cc");
    assert_eq!(selected.track_id, None);
    assert!(select_key_pair(&Vec::new(), Some("bb"), false).is_none());
}

#[test]
fn keys_in_a_text_file() {
    let text = "# keys\n  aabb:0011  \nccdd:2233\n";
    assert_eq!(find_key_line(text, "aabb").as_deref(), Some("aabb:0011"));
    assert_eq!(find_key_line(text, "ffff"), None);
    assert_eq!(find_key_line(text, ""), None);
    let bytes = text.as_bytes().to_vec();
    assert_eq!(search_key_text_file(Some(&bytes), Some("ccdd")).as_deref(), Some("ccdd:2233"));
    assert_eq!(search_key_text_file(Some(&bytes), None), None);
    assert_eq!(search_key_text_file(None, Some("ccdd")), None);
    let broken = vec![0xff, b'\n', b'a', b':', b'1'];
    assert_eq!(search_key_text_file(Some(&broken), Some("a")).as_deref(), Some("a:1"));
    assert_eq!(search_key_text_file(Some(&broken), Some("\u{fffd}")).as_deref(), Some("\u{fffd}"));
}

#[test]
fn programs_that_decrypt() {
    let keys = vec!["00112233445566778899aabbccddeeff:000102030405060708090a0b0c0d0e0f".to_string()];
    let plan = plan_external_decrypt(ExternalDecryptRequest {
        engine: DecryptionEngine::Mp4decrypt,
        program: "/usr/bin/mp4decrypt",
        keys: &keys,
        source: "/tmp/a.mp4",
        dest: "/tmp/b.mp4",
        kid: Some("00112233445566778899aabbccddeeff"),
        init: None,
        is_multi_drm: false,
    })
    .unwrap();
    assert_eq!(plan.engine, DecryptionEngine::Mp4decrypt);
    assert_eq!(plan.program, "/usr/bin/mp4decrypt");
    assert!(!plan.redacted_arguments.contains("000102030405060708090a0b0c0d0e0f"));
    assert!(!plan.requires_init_concat);
}

fn plan_with(engine: DecryptionEngine, key: &str) -> String {
    let keys = vec![format!("aabb:{}", key), format!("ccdd:{}", key)];
    plan_external_decrypt(ExternalDecryptRequest {
        engine,
        program: "tool",
        keys: &keys,
        source: "/tmp/a.mp4",
        dest: "/tmp/b.mp4",
        kid: Some("ccdd"),
        init: Some("/tmp/init.mp4"),
        is_multi_drm: false,
    })
    .unwrap()
    .redacted_arguments
}

fn plan_with_bare_key(engine: DecryptionEngine, key: &str) -> String {
    let keys = vec![key.to_string()];
    plan_external_decrypt(ExternalDecryptRequest {
        engine,
        program: "tool",
        keys: &keys,
        source: "/tmp/a.mp4",
        dest: "/tmp/b.mp4",
        kid: Some("ccdd"),
        init: None,
        is_multi_drm: false,
    })
    .unwrap()
    .redacted_arguments
}

#[test]
fn plans_do_not_depend_on_a_lone_bare_key() {
    for engine in [
        DecryptionEngine::Mp4decrypt,
        DecryptionEngine::ShakaPackager,
        DecryptionEngine::Ffmpeg,
    ] {
        assert_eq!(plan_with_bare_key(engine, "00112233"), plan_with_bare_key(engine, "44556677"));
    }
    assert_eq!(
        plan_with_bare_key(DecryptionEngine::ShakaPackager, "00112233"),
        "--quiet --enable_raw_key_decryption input=\"/tmp/a.mp4\",stream=0,output=\"/tmp/b.mp4\" --keys key_id=ccdd:key=<redacted:8>"
    );
    assert_eq!(
        plan_with_bare_key(DecryptionEngine::Mp4decrypt, "00112233"),
        "--key <redacted:8> \"a.mp4\" \"b.mp4\""
    );
}

#[test]
fn plans_do_not_depend_on_the_keys() {
    for engine in [
        DecryptionEngine::Mp4decrypt,
        DecryptionEngine::ShakaPackager,
        DecryptionEngine::Ffmpeg,
    ] {
        assert_eq!(plan_with(engine, "00112233"), plan_with(engine, "44556677"));
    }
    assert_eq!(
        plan_with(DecryptionEngine::ShakaPackager, "00112233"),
        "--quiet --enable_raw_key_decryption input=\"/tmp/a.mp4\",stream=0,output=\"/tmp/b.mp4\" --keys key_id=ccdd:key=<redacted:8>"
    );
    assert_eq!(
        plan_with(DecryptionEngine::Mp4decrypt, "00112233"),
        "--key aabb:<redacted:8> --key ccdd:<redacted:8> \"a.mp4\" \"b.mp4\""
    );
}

#[test]
fn secrets_are_not_shown() {
    assert_eq!(redact_secrets("https://a/b?token=abc&x=1"), "https://a/b?token=<redacted>&x=1");
    assert_eq!(redact_secrets("plain text"), "plain text");
    assert_eq!(redact_secrets("--key 00:11 next"), "--key <redacted> next");
    assert_eq!(
        redact_secrets("https://a/b?token=other&x=1"),
        redact_secrets("https://a/b?token=abc&x=1")
    );
    for text in [
        "--key xdecryption_key SECRET",
        "key=a,key=b&token=c",
        "sig=1&signature=2 key=3",
        "Policy=key=1&Key-Pair-Id=2",
        "key=",
        "token=<redacted>x&y",
    ] {
        let once = redact_secrets(text);
        assert_eq!(redact_secrets(&once), once);
    }
    assert!(contains_unredacted_secret("x abc y", &["abc"]));
    assert!(!contains_unredacted_secret("x abc y", &["", "zzz"]));
    assert_eq!(redact_and_verify("token=abc", &["abc"]).unwrap(), "token=<redacted>");
    assert_eq!(
        redact_and_verify("say abc", &["abc"]),
        Err(Error::config("redaction left sensitive material visible"))
    );
}

fn stream_of(n: usize) -> Stream {
    let segments: Vec<MediaSegment> = (0..n).map(|_| MediaSegment::default()).collect();
    Stream {
        playlist: Some(Playlist {
            media_parts: vec![MediaPart { media_segments: segments }],
            ..Playlist::default()
        }),
        ..Stream::default()
    }
}

#[test]
fn limits_are_kept() {
    let limits = ResourceLimits {
        max_concurrent_streams: 1,
        max_segments_per_stream: 2,
        max_event_queue: 1,
        max_manifest_bytes: 10,
    };
    assert_eq!(validate_resource_limits(&vec![stream_of(2)], &limits), Ok(()));
    assert_eq!(
        validate_resource_limits(&vec![stream_of(3)], &limits),
        Err(Error::config("too many segments in one stream"))
    );
    assert_eq!(
        validate_resource_limits(&vec![stream_of(1), stream_of(1)], &limits),
        Err(Error::config("too many concurrent streams"))
    );
    assert_eq!(validate_manifest_size(10, &limits), Ok(()));
    assert_eq!(
        validate_manifest_size(11, &limits),
        Err(Error::config("manifest exceeds configured size limit"))
    );
    assert_eq!(estimate_segment_count(&vec![stream_of(3), stream_of(4)]), 7);
    let mut queue = BoundedEventQueue::new(1);
    assert_eq!(queue.push(ProgressEvent::Cancelled), Ok(()));
    assert_eq!(
        queue.push(ProgressEvent::Cancelled),
        Err(Error::config("progress event queue capacity exceeded"))
    );
    assert_eq!(queue.events().len(), 1);
}

#[test]
fn rates_and_marks() {
    let metric = BenchmarkMetric {
        name: "x".to_string(),
        items: 500,
        elapsed: TimeSpan { seconds: 2, nanoseconds: 0 },
    };
    assert_eq!(metric.items_per_second(), 250);
    assert!(scan_unchecked_exit_paths("fn f() {}").is_empty());
    assert!(!scan_unchecked_exit_paths("x.unwrap()").is_empty());
}

#[test]
fn cleanup_stays_within_its_directory() {
    let inside = CleanupPath {
        path: "/tmp/root/a".to_string(),
        resolved: Some("/tmp/root/a".to_string()),
        resolved_parent: Some("/tmp/root".to_string()),
    };
    assert_eq!(validate_cleanup_paths("/tmp/root", &vec![inside]), Ok(()));
    let outside = CleanupPath {
        path: "/tmp/root/../x".to_string(),
        resolved: Some("/tmp/x".to_string()),
        resolved_parent: Some("/tmp".to_string()),
    };
    assert_eq!(
        validate_cleanup_paths("/tmp/root", &vec![outside]),
        Err(Error::config("cleanup path escapes temp root"))
    );
}
