//! What the options of the command line set.

use crate::cli::{
    finished, inline_of, settled, value_at, with_filter, with_input, with_scalar, with_switch,
    with_text, CliResultView, CliState,
};
use crate::cli_values::{
    engine_of, file_name_of, hls_method_of, i32_of, language_of, level_of, mux_of, proxy_of,
    range_of, record_limit_of, speed_of, start_of, subtitle_of, timeout_of,
};
use crate::config::{DecryptionEngine, DownloadOptionsView, StreamFilterView, Toggle};
use crate::text_laws::{law_cut_at_a_character, law_prefix_comes_off};
use vstd::prelude::*;

verus! {

proof fn lemma_switch_mp4_real_time_decryption(o: DownloadOptionsView, on: Toggle)
    ensures
        with_switch(o, "--mp4-real-time-decryption"@, on) is Some && (with_switch(o, "--mp4-real-time-decryption"@, on)->0).mp4_real_time_decryption == on,
{
    reveal_strlit("--mp4-real-time-decryption");
    assert("--mp4-real-time-decryption"@.len() == 26);
}

proof fn lemma_switch_use_shaka_packager(o: DownloadOptionsView, on: Toggle)
    ensures
        with_switch(o, "--use-shaka-packager"@, on) is Some && (with_switch(o, "--use-shaka-packager"@, on)->0).use_shaka_packager == on,
{
    reveal_strlit("--use-shaka-packager");
    reveal_strlit("--mp4-real-time-decryption");
    assert("--use-shaka-packager"@.len() == 20);
    assert("--mp4-real-time-decryption"@.len() == 26);
}

proof fn lemma_switch_append_url_params(o: DownloadOptionsView, on: Toggle)
    ensures
        with_switch(o, "--append-url-params"@, on) is Some && (with_switch(o, "--append-url-params"@, on)->0).append_url_params == on,
{
    reveal_strlit("--append-url-params");
    reveal_strlit("--mp4-real-time-decryption");
    reveal_strlit("--use-shaka-packager");
    assert("--append-url-params"@.len() == 19);
    assert("--mp4-real-time-decryption"@.len() == 26);
    assert("--use-shaka-packager"@.len() == 20);
}

proof fn lemma_switch_use_system_proxy(o: DownloadOptionsView, on: Toggle)
    ensures
        with_switch(o, "--use-system-proxy"@, on) is Some && (with_switch(o, "--use-system-proxy"@, on)->0).use_system_proxy == on,
{
    reveal_strlit("--use-system-proxy");
    reveal_strlit("--append-url-params");
    reveal_strlit("--mp4-real-time-decryption");
    reveal_strlit("--use-shaka-packager");
    assert("--use-system-proxy"@.len() == 18);
    assert("--mp4-real-time-decryption"@.len() == 26);
    assert("--use-shaka-packager"@.len() == 20);
    assert("--append-url-params"@.len() == 19);
}

proof fn lemma_switch_no_log(o: DownloadOptionsView, on: Toggle)
    ensures
        with_switch(o, "--no-log"@, on) is Some && (with_switch(o, "--no-log"@, on)->0).no_log == on,
{
    reveal_strlit("--no-log");
    reveal_strlit("--append-url-params");
    reveal_strlit("--mp4-real-time-decryption");
    reveal_strlit("--use-shaka-packager");
    reveal_strlit("--use-system-proxy");
    assert("--no-log"@.len() == 8);
    assert("--mp4-real-time-decryption"@.len() == 26);
    assert("--use-shaka-packager"@.len() == 20);
    assert("--append-url-params"@.len() == 19);
    assert("--use-system-proxy"@.len() == 18);
}

proof fn lemma_switch_force_ansi_console(o: DownloadOptionsView, on: Toggle)
    ensures
        with_switch(o, "--force-ansi-console"@, on) is Some && (with_switch(o, "--force-ansi-console"@, on)->0).force_ansi_console == on,
{
    reveal_strlit("--force-ansi-console");
    reveal_strlit("--append-url-params");
    reveal_strlit("--mp4-real-time-decryption");
    reveal_strlit("--no-log");
    reveal_strlit("--use-shaka-packager");
    reveal_strlit("--use-system-proxy");
    assert("--force-ansi-console"@.len() == 20);
    assert("--mp4-real-time-decryption"@.len() == 26);
    assert("--force-ansi-console"@[2] == 'f' && "--use-shaka-packager"@[2] == 'u');
    assert("--append-url-params"@.len() == 19);
    assert("--use-system-proxy"@.len() == 18);
    assert("--no-log"@.len() == 8);
}

proof fn lemma_switch_no_ansi_color(o: DownloadOptionsView, on: Toggle)
    ensures
        with_switch(o, "--no-ansi-color"@, on) is Some && (with_switch(o, "--no-ansi-color"@, on)->0).no_ansi_color == on,
{
    reveal_strlit("--no-ansi-color");
    reveal_strlit("--append-url-params");
    reveal_strlit("--force-ansi-console");
    reveal_strlit("--mp4-real-time-decryption");
    reveal_strlit("--no-log");
    reveal_strlit("--use-shaka-packager");
    reveal_strlit("--use-system-proxy");
    assert("--no-ansi-color"@.len() == 15);
    assert("--mp4-real-time-decryption"@.len() == 26);
    assert("--use-shaka-packager"@.len() == 20);
    assert("--append-url-params"@.len() == 19);
    assert("--use-system-proxy"@.len() == 18);
    assert("--no-log"@.len() == 8);
    assert("--force-ansi-console"@.len() == 20);
}

proof fn lemma_switch_disable_update_check(o: DownloadOptionsView, on: Toggle)
    ensures
        with_switch(o, "--disable-update-check"@, on) is Some && (with_switch(o, "--disable-update-check"@, on)->0).disable_update_check == on,
{
    reveal_strlit("--disable-update-check");
    reveal_strlit("--append-url-params");
    reveal_strlit("--force-ansi-console");
    reveal_strlit("--mp4-real-time-decryption");
    reveal_strlit("--no-ansi-color");
    reveal_strlit("--no-log");
    reveal_strlit("--use-shaka-packager");
    reveal_strlit("--use-system-proxy");
    assert("--disable-update-check"@.len() == 22);
    assert("--mp4-real-time-decryption"@.len() == 26);
    assert("--use-shaka-packager"@.len() == 20);
    assert("--append-url-params"@.len() == 19);
    assert("--use-system-proxy"@.len() == 18);
    assert("--no-log"@.len() == 8);
    assert("--force-ansi-console"@.len() == 20);
    assert("--no-ansi-color"@.len() == 15);
}

proof fn lemma_switch_auto_select(o: DownloadOptionsView, on: Toggle)
    ensures
        with_switch(o, "--auto-select"@, on) is Some && (with_switch(o, "--auto-select"@, on)->0).auto_select == on,
{
    reveal_strlit("--auto-select");
    reveal_strlit("--append-url-params");
    reveal_strlit("--disable-update-check");
    reveal_strlit("--force-ansi-console");
    reveal_strlit("--mp4-real-time-decryption");
    reveal_strlit("--no-ansi-color");
    reveal_strlit("--no-log");
    reveal_strlit("--use-shaka-packager");
    reveal_strlit("--use-system-proxy");
    assert("--auto-select"@.len() == 13);
    assert("--mp4-real-time-decryption"@.len() == 26);
    assert("--use-shaka-packager"@.len() == 20);
    assert("--append-url-params"@.len() == 19);
    assert("--use-system-proxy"@.len() == 18);
    assert("--no-log"@.len() == 8);
    assert("--force-ansi-console"@.len() == 20);
    assert("--no-ansi-color"@.len() == 15);
    assert("--disable-update-check"@.len() == 22);
}

proof fn lemma_switch_sub_only(o: DownloadOptionsView, on: Toggle)
    ensures
        with_switch(o, "--sub-only"@, on) is Some && (with_switch(o, "--sub-only"@, on)->0).sub_only == on,
{
    reveal_strlit("--sub-only");
    reveal_strlit("--append-url-params");
    reveal_strlit("--auto-select");
    reveal_strlit("--disable-update-check");
    reveal_strlit("--force-ansi-console");
    reveal_strlit("--mp4-real-time-decryption");
    reveal_strlit("--no-ansi-color");
    reveal_strlit("--no-log");
    reveal_strlit("--use-shaka-packager");
    reveal_strlit("--use-system-proxy");
    assert("--sub-only"@.len() == 10);
    assert("--mp4-real-time-decryption"@.len() == 26);
    assert("--use-shaka-packager"@.len() == 20);
    assert("--append-url-params"@.len() == 19);
    assert("--use-system-proxy"@.len() == 18);
    assert("--no-log"@.len() == 8);
    assert("--force-ansi-console"@.len() == 20);
    assert("--no-ansi-color"@.len() == 15);
    assert("--disable-update-check"@.len() == 22);
    assert("--auto-select"@.len() == 13);
}

proof fn lemma_switch_short_mt(o: DownloadOptionsView, on: Toggle)
    ensures
        with_switch(o, "-mt"@, on) is Some && (with_switch(o, "-mt"@, on)->0).concurrent_download == on,
{
    reveal_strlit("-mt");
    reveal_strlit("--append-url-params");
    reveal_strlit("--auto-select");
    reveal_strlit("--disable-update-check");
    reveal_strlit("--force-ansi-console");
    reveal_strlit("--mp4-real-time-decryption");
    reveal_strlit("--no-ansi-color");
    reveal_strlit("--no-log");
    reveal_strlit("--sub-only");
    reveal_strlit("--use-shaka-packager");
    reveal_strlit("--use-system-proxy");
    assert("-mt"@.len() == 3);
    assert("--mp4-real-time-decryption"@.len() == 26);
    assert("--use-shaka-packager"@.len() == 20);
    assert("--append-url-params"@.len() == 19);
    assert("--use-system-proxy"@.len() == 18);
    assert("--no-log"@.len() == 8);
    assert("--force-ansi-console"@.len() == 20);
    assert("--no-ansi-color"@.len() == 15);
    assert("--disable-update-check"@.len() == 22);
    assert("--auto-select"@.len() == 13);
    assert("--sub-only"@.len() == 10);
}

proof fn lemma_switch_concurrent_download(o: DownloadOptionsView, on: Toggle)
    ensures
        with_switch(o, "--concurrent-download"@, on) is Some && (with_switch(o, "--concurrent-download"@, on)->0).concurrent_download == on,
{
    reveal_strlit("--concurrent-download");
    reveal_strlit("--append-url-params");
    reveal_strlit("--auto-select");
    reveal_strlit("--disable-update-check");
    reveal_strlit("--force-ansi-console");
    reveal_strlit("--mp4-real-time-decryption");
    reveal_strlit("--no-ansi-color");
    reveal_strlit("--no-log");
    reveal_strlit("--sub-only");
    reveal_strlit("--use-shaka-packager");
    reveal_strlit("--use-system-proxy");
    reveal_strlit("-mt");
    assert("--concurrent-download"@.len() == 21);
    assert("--mp4-real-time-decryption"@.len() == 26);
    assert("--use-shaka-packager"@.len() == 20);
    assert("--append-url-params"@.len() == 19);
    assert("--use-system-proxy"@.len() == 18);
    assert("--no-log"@.len() == 8);
    assert("--force-ansi-console"@.len() == 20);
    assert("--no-ansi-color"@.len() == 15);
    assert("--disable-update-check"@.len() == 22);
    assert("--auto-select"@.len() == 13);
    assert("--sub-only"@.len() == 10);
    assert("-mt"@.len() == 3);
}

proof fn lemma_switch_skip_download(o: DownloadOptionsView, on: Toggle)
    ensures
        with_switch(o, "--skip-download"@, on) is Some && (with_switch(o, "--skip-download"@, on)->0).skip_download == on,
{
    reveal_strlit("--skip-download");
    reveal_strlit("--append-url-params");
    reveal_strlit("--auto-select");
    reveal_strlit("--concurrent-download");
    reveal_strlit("--disable-update-check");
    reveal_strlit("--force-ansi-console");
    reveal_strlit("--mp4-real-time-decryption");
    reveal_strlit("--no-ansi-color");
    reveal_strlit("--no-log");
    reveal_strlit("--sub-only");
    reveal_strlit("--use-shaka-packager");
    reveal_strlit("--use-system-proxy");
    reveal_strlit("-mt");
    assert("--skip-download"@.len() == 15);
    assert("--mp4-real-time-decryption"@.len() == 26);
    assert("--use-shaka-packager"@.len() == 20);
    assert("--append-url-params"@.len() == 19);
    assert("--use-system-proxy"@.len() == 18);
    assert("--no-log"@.len() == 8);
    assert("--force-ansi-console"@.len() == 20);
    assert("--skip-download"@[2] == 's' && "--no-ansi-color"@[2] == 'n');
    assert("--disable-update-check"@.len() == 22);
    assert("--auto-select"@.len() == 13);
    assert("--sub-only"@.len() == 10);
    assert("-mt"@.len() == 3);
    assert("--concurrent-download"@.len() == 21);
}

proof fn lemma_switch_skip_merge(o: DownloadOptionsView, on: Toggle)
    ensures
        with_switch(o, "--skip-merge"@, on) is Some && (with_switch(o, "--skip-merge"@, on)->0).skip_merge == on,
{
    reveal_strlit("--skip-merge");
    reveal_strlit("--append-url-params");
    reveal_strlit("--auto-select");
    reveal_strlit("--concurrent-download");
    reveal_strlit("--disable-update-check");
    reveal_strlit("--force-ansi-console");
    reveal_strlit("--mp4-real-time-decryption");
    reveal_strlit("--no-ansi-color");
    reveal_strlit("--no-log");
    reveal_strlit("--skip-download");
    reveal_strlit("--sub-only");
    reveal_strlit("--use-shaka-packager");
    reveal_strlit("--use-system-proxy");
    reveal_strlit("-mt");
    assert("--skip-merge"@.len() == 12);
    assert("--mp4-real-time-decryption"@.len() == 26);
    assert("--use-shaka-packager"@.len() == 20);
    assert("--append-url-params"@.len() == 19);
    assert("--use-system-proxy"@.len() == 18);
    assert("--no-log"@.len() == 8);
    assert("--force-ansi-console"@.len() == 20);
    assert("--no-ansi-color"@.len() == 15);
    assert("--disable-update-check"@.len() == 22);
    assert("--auto-select"@.len() == 13);
    assert("--sub-only"@.len() == 10);
    assert("-mt"@.len() == 3);
    assert("--concurrent-download"@.len() == 21);
    assert("--skip-download"@.len() == 15);
}

proof fn lemma_switch_binary_merge(o: DownloadOptionsView, on: Toggle)
    ensures
        with_switch(o, "--binary-merge"@, on) is Some && (with_switch(o, "--binary-merge"@, on)->0).binary_merge == on,
{
    reveal_strlit("--binary-merge");
    reveal_strlit("--append-url-params");
    reveal_strlit("--auto-select");
    reveal_strlit("--concurrent-download");
    reveal_strlit("--disable-update-check");
    reveal_strlit("--force-ansi-console");
    reveal_strlit("--mp4-real-time-decryption");
    reveal_strlit("--no-ansi-color");
    reveal_strlit("--no-log");
    reveal_strlit("--skip-download");
    reveal_strlit("--skip-merge");
    reveal_strlit("--sub-only");
    reveal_strlit("--use-shaka-packager");
    reveal_strlit("--use-system-proxy");
    reveal_strlit("-mt");
    assert("--binary-merge"@.len() == 14);
    assert("--mp4-real-time-decryption"@.len() == 26);
    assert("--use-shaka-packager"@.len() == 20);
    assert("--append-url-params"@.len() == 19);
    assert("--use-system-proxy"@.len() == 18);
    assert("--no-log"@.len() == 8);
    assert("--force-ansi-console"@.len() == 20);
    assert("--no-ansi-color"@.len() == 15);
    assert("--disable-update-check"@.len() == 22);
    assert("--auto-select"@.len() == 13);
    assert("--sub-only"@.len() == 10);
    assert("-mt"@.len() == 3);
    assert("--concurrent-download"@.len() == 21);
    assert("--skip-download"@.len() == 15);
    assert("--skip-merge"@.len() == 12);
}

proof fn lemma_switch_use_ffmpeg_concat_demuxer(o: DownloadOptionsView, on: Toggle)
    ensures
        with_switch(o, "--use-ffmpeg-concat-demuxer"@, on) is Some && (with_switch(o, "--use-ffmpeg-concat-demuxer"@, on)->0).use_ffmpeg_concat_demuxer == on,
{
    reveal_strlit("--use-ffmpeg-concat-demuxer");
    reveal_strlit("--append-url-params");
    reveal_strlit("--auto-select");
    reveal_strlit("--binary-merge");
    reveal_strlit("--concurrent-download");
    reveal_strlit("--disable-update-check");
    reveal_strlit("--force-ansi-console");
    reveal_strlit("--mp4-real-time-decryption");
    reveal_strlit("--no-ansi-color");
    reveal_strlit("--no-log");
    reveal_strlit("--skip-download");
    reveal_strlit("--skip-merge");
    reveal_strlit("--sub-only");
    reveal_strlit("--use-shaka-packager");
    reveal_strlit("--use-system-proxy");
    reveal_strlit("-mt");
    assert("--use-ffmpeg-concat-demuxer"@.len() == 27);
    assert("--mp4-real-time-decryption"@.len() == 26);
    assert("--use-shaka-packager"@.len() == 20);
    assert("--append-url-params"@.len() == 19);
    assert("--use-system-proxy"@.len() == 18);
    assert("--no-log"@.len() == 8);
    assert("--force-ansi-console"@.len() == 20);
    assert("--no-ansi-color"@.len() == 15);
    assert("--disable-update-check"@.len() == 22);
    assert("--auto-select"@.len() == 13);
    assert("--sub-only"@.len() == 10);
    assert("-mt"@.len() == 3);
    assert("--concurrent-download"@.len() == 21);
    assert("--skip-download"@.len() == 15);
    assert("--skip-merge"@.len() == 12);
    assert("--binary-merge"@.len() == 14);
}

proof fn lemma_switch_del_after_done(o: DownloadOptionsView, on: Toggle)
    ensures
        with_switch(o, "--del-after-done"@, on) is Some && (with_switch(o, "--del-after-done"@, on)->0).del_after_done == on,
{
    reveal_strlit("--del-after-done");
    reveal_strlit("--append-url-params");
    reveal_strlit("--auto-select");
    reveal_strlit("--binary-merge");
    reveal_strlit("--concurrent-download");
    reveal_strlit("--disable-update-check");
    reveal_strlit("--force-ansi-console");
    reveal_strlit("--mp4-real-time-decryption");
    reveal_strlit("--no-ansi-color");
    reveal_strlit("--no-log");
    reveal_strlit("--skip-download");
    reveal_strlit("--skip-merge");
    reveal_strlit("--sub-only");
    reveal_strlit("--use-ffmpeg-concat-demuxer");
    reveal_strlit("--use-shaka-packager");
    reveal_strlit("--use-system-proxy");
    reveal_strlit("-mt");
    assert("--del-after-done"@.len() == 16);
    assert("--mp4-real-time-decryption"@.len() == 26);
    assert("--use-shaka-packager"@.len() == 20);
    assert("--append-url-params"@.len() == 19);
    assert("--use-system-proxy"@.len() == 18);
    assert("--no-log"@.len() == 8);
    assert("--force-ansi-console"@.len() == 20);
    assert("--no-ansi-color"@.len() == 15);
    assert("--disable-update-check"@.len() == 22);
    assert("--auto-select"@.len() == 13);
    assert("--sub-only"@.len() == 10);
    assert("-mt"@.len() == 3);
    assert("--concurrent-download"@.len() == 21);
    assert("--skip-download"@.len() == 15);
    assert("--skip-merge"@.len() == 12);
    assert("--binary-merge"@.len() == 14);
    assert("--use-ffmpeg-concat-demuxer"@.len() == 27);
}

proof fn lemma_switch_check_segments_count(o: DownloadOptionsView, on: Toggle)
    ensures
        with_switch(o, "--check-segments-count"@, on) is Some && (with_switch(o, "--check-segments-count"@, on)->0).check_segments_count == on,
{
    reveal_strlit("--check-segments-count");
    reveal_strlit("--append-url-params");
    reveal_strlit("--auto-select");
    reveal_strlit("--binary-merge");
    reveal_strlit("--concurrent-download");
    reveal_strlit("--del-after-done");
    reveal_strlit("--disable-update-check");
    reveal_strlit("--force-ansi-console");
    reveal_strlit("--mp4-real-time-decryption");
    reveal_strlit("--no-ansi-color");
    reveal_strlit("--no-log");
    reveal_strlit("--skip-download");
    reveal_strlit("--skip-merge");
    reveal_strlit("--sub-only");
    reveal_strlit("--use-ffmpeg-concat-demuxer");
    reveal_strlit("--use-shaka-packager");
    reveal_strlit("--use-system-proxy");
    reveal_strlit("-mt");
    assert("--check-segments-count"@.len() == 22);
    assert("--mp4-real-time-decryption"@.len() == 26);
    assert("--use-shaka-packager"@.len() == 20);
    assert("--append-url-params"@.len() == 19);
    assert("--use-system-proxy"@.len() == 18);
    assert("--no-log"@.len() == 8);
    assert("--force-ansi-console"@.len() == 20);
    assert("--no-ansi-color"@.len() == 15);
    assert("--check-segments-count"@[2] == 'c' && "--disable-update-check"@[2] == 'd');
    assert("--auto-select"@.len() == 13);
    assert("--sub-only"@.len() == 10);
    assert("-mt"@.len() == 3);
    assert("--concurrent-download"@.len() == 21);
    assert("--skip-download"@.len() == 15);
    assert("--skip-merge"@.len() == 12);
    assert("--binary-merge"@.len() == 14);
    assert("--use-ffmpeg-concat-demuxer"@.len() == 27);
    assert("--del-after-done"@.len() == 16);
}

proof fn lemma_switch_write_meta_json(o: DownloadOptionsView, on: Toggle)
    ensures
        with_switch(o, "--write-meta-json"@, on) is Some && (with_switch(o, "--write-meta-json"@, on)->0).write_meta_json == on,
{
    reveal_strlit("--write-meta-json");
    reveal_strlit("--append-url-params");
    reveal_strlit("--auto-select");
    reveal_strlit("--binary-merge");
    reveal_strlit("--check-segments-count");
    reveal_strlit("--concurrent-download");
    reveal_strlit("--del-after-done");
    reveal_strlit("--disable-update-check");
    reveal_strlit("--force-ansi-console");
    reveal_strlit("--mp4-real-time-decryption");
    reveal_strlit("--no-ansi-color");
    reveal_strlit("--no-log");
    reveal_strlit("--skip-download");
    reveal_strlit("--skip-merge");
    reveal_strlit("--sub-only");
    reveal_strlit("--use-ffmpeg-concat-demuxer");
    reveal_strlit("--use-shaka-packager");
    reveal_strlit("--use-system-proxy");
    reveal_strlit("-mt");
    assert("--write-meta-json"@.len() == 17);
    assert("--mp4-real-time-decryption"@.len() == 26);
    assert("--use-shaka-packager"@.len() == 20);
    assert("--append-url-params"@.len() == 19);
    assert("--use-system-proxy"@.len() == 18);
    assert("--no-log"@.len() == 8);
    assert("--force-ansi-console"@.len() == 20);
    assert("--no-ansi-color"@.len() == 15);
    assert("--disable-update-check"@.len() == 22);
    assert("--auto-select"@.len() == 13);
    assert("--sub-only"@.len() == 10);
    assert("-mt"@.len() == 3);
    assert("--concurrent-download"@.len() == 21);
    assert("--skip-download"@.len() == 15);
    assert("--skip-merge"@.len() == 12);
    assert("--binary-merge"@.len() == 14);
    assert("--use-ffmpeg-concat-demuxer"@.len() == 27);
    assert("--del-after-done"@.len() == 16);
    assert("--check-segments-count"@.len() == 22);
}

proof fn lemma_switch_no_date_info(o: DownloadOptionsView, on: Toggle)
    ensures
        with_switch(o, "--no-date-info"@, on) is Some && (with_switch(o, "--no-date-info"@, on)->0).no_date_info == on,
{
    reveal_strlit("--no-date-info");
    reveal_strlit("--append-url-params");
    reveal_strlit("--auto-select");
    reveal_strlit("--binary-merge");
    reveal_strlit("--check-segments-count");
    reveal_strlit("--concurrent-download");
    reveal_strlit("--del-after-done");
    reveal_strlit("--disable-update-check");
    reveal_strlit("--force-ansi-console");
    reveal_strlit("--mp4-real-time-decryption");
    reveal_strlit("--no-ansi-color");
    reveal_strlit("--no-log");
    reveal_strlit("--skip-download");
    reveal_strlit("--skip-merge");
    reveal_strlit("--sub-only");
    reveal_strlit("--use-ffmpeg-concat-demuxer");
    reveal_strlit("--use-shaka-packager");
    reveal_strlit("--use-system-proxy");
    reveal_strlit("--write-meta-json");
    reveal_strlit("-mt");
    assert("--no-date-info"@.len() == 14);
    assert("--mp4-real-time-decryption"@.len() == 26);
    assert("--use-shaka-packager"@.len() == 20);
    assert("--append-url-params"@.len() == 19);
    assert("--use-system-proxy"@.len() == 18);
    assert("--no-log"@.len() == 8);
    assert("--force-ansi-console"@.len() == 20);
    assert("--no-ansi-color"@.len() == 15);
    assert("--disable-update-check"@.len() == 22);
    assert("--auto-select"@.len() == 13);
    assert("--sub-only"@.len() == 10);
    assert("-mt"@.len() == 3);
    assert("--concurrent-download"@.len() == 21);
    assert("--skip-download"@.len() == 15);
    assert("--skip-merge"@.len() == 12);
    assert("--no-date-info"@[2] == 'n' && "--binary-merge"@[2] == 'b');
    assert("--use-ffmpeg-concat-demuxer"@.len() == 27);
    assert("--del-after-done"@.len() == 16);
    assert("--check-segments-count"@.len() == 22);
    assert("--write-meta-json"@.len() == 17);
}

proof fn lemma_switch_auto_subtitle_fix(o: DownloadOptionsView, on: Toggle)
    ensures
        with_switch(o, "--auto-subtitle-fix"@, on) is Some && (with_switch(o, "--auto-subtitle-fix"@, on)->0).auto_subtitle_fix == on,
{
    reveal_strlit("--auto-subtitle-fix");
    reveal_strlit("--append-url-params");
    reveal_strlit("--auto-select");
    reveal_strlit("--binary-merge");
    reveal_strlit("--check-segments-count");
    reveal_strlit("--concurrent-download");
    reveal_strlit("--del-after-done");
    reveal_strlit("--disable-update-check");
    reveal_strlit("--force-ansi-console");
    reveal_strlit("--mp4-real-time-decryption");
    reveal_strlit("--no-ansi-color");
    reveal_strlit("--no-date-info");
    reveal_strlit("--no-log");
    reveal_strlit("--skip-download");
    reveal_strlit("--skip-merge");
    reveal_strlit("--sub-only");
    reveal_strlit("--use-ffmpeg-concat-demuxer");
    reveal_strlit("--use-shaka-packager");
    reveal_strlit("--use-system-proxy");
    reveal_strlit("--write-meta-json");
    reveal_strlit("-mt");
    assert("--auto-subtitle-fix"@.len() == 19);
    assert("--mp4-real-time-decryption"@.len() == 26);
    assert("--use-shaka-packager"@.len() == 20);
    assert("--auto-subtitle-fix"@[3] == 'u' && "--append-url-params"@[3] == 'p');
    assert("--use-system-proxy"@.len() == 18);
    assert("--no-log"@.len() == 8);
    assert("--force-ansi-console"@.len() == 20);
    assert("--no-ansi-color"@.len() == 15);
    assert("--disable-update-check"@.len() == 22);
    assert("--auto-select"@.len() == 13);
    assert("--sub-only"@.len() == 10);
    assert("-mt"@.len() == 3);
    assert("--concurrent-download"@.len() == 21);
    assert("--skip-download"@.len() == 15);
    assert("--skip-merge"@.len() == 12);
    assert("--binary-merge"@.len() == 14);
    assert("--use-ffmpeg-concat-demuxer"@.len() == 27);
    assert("--del-after-done"@.len() == 16);
    assert("--check-segments-count"@.len() == 22);
    assert("--write-meta-json"@.len() == 17);
    assert("--no-date-info"@.len() == 14);
}

proof fn lemma_switch_allow_hls_multi_ext_map(o: DownloadOptionsView, on: Toggle)
    ensures
        with_switch(o, "--allow-hls-multi-ext-map"@, on) is Some && (with_switch(o, "--allow-hls-multi-ext-map"@, on)->0).allow_hls_multi_ext_map == on,
{
    reveal_strlit("--allow-hls-multi-ext-map");
    reveal_strlit("--append-url-params");
    reveal_strlit("--auto-select");
    reveal_strlit("--auto-subtitle-fix");
    reveal_strlit("--binary-merge");
    reveal_strlit("--check-segments-count");
    reveal_strlit("--concurrent-download");
    reveal_strlit("--del-after-done");
    reveal_strlit("--disable-update-check");
    reveal_strlit("--force-ansi-console");
    reveal_strlit("--mp4-real-time-decryption");
    reveal_strlit("--no-ansi-color");
    reveal_strlit("--no-date-info");
    reveal_strlit("--no-log");
    reveal_strlit("--skip-download");
    reveal_strlit("--skip-merge");
    reveal_strlit("--sub-only");
    reveal_strlit("--use-ffmpeg-concat-demuxer");
    reveal_strlit("--use-shaka-packager");
    reveal_strlit("--use-system-proxy");
    reveal_strlit("--write-meta-json");
    reveal_strlit("-mt");
    assert("--allow-hls-multi-ext-map"@.len() == 25);
    assert("--mp4-real-time-decryption"@.len() == 26);
    assert("--use-shaka-packager"@.len() == 20);
    assert("--append-url-params"@.len() == 19);
    assert("--use-system-proxy"@.len() == 18);
    assert("--no-log"@.len() == 8);
    assert("--force-ansi-console"@.len() == 20);
    assert("--no-ansi-color"@.len() == 15);
    assert("--disable-update-check"@.len() == 22);
    assert("--auto-select"@.len() == 13);
    assert("--sub-only"@.len() == 10);
    assert("-mt"@.len() == 3);
    assert("--concurrent-download"@.len() == 21);
    assert("--skip-download"@.len() == 15);
    assert("--skip-merge"@.len() == 12);
    assert("--binary-merge"@.len() == 14);
    assert("--use-ffmpeg-concat-demuxer"@.len() == 27);
    assert("--del-after-done"@.len() == 16);
    assert("--check-segments-count"@.len() == 22);
    assert("--write-meta-json"@.len() == 17);
    assert("--no-date-info"@.len() == 14);
    assert("--auto-subtitle-fix"@.len() == 19);
}

proof fn lemma_switch_live_perform_as_vod(o: DownloadOptionsView, on: Toggle)
    ensures
        with_switch(o, "--live-perform-as-vod"@, on) is Some && (with_switch(o, "--live-perform-as-vod"@, on)->0).live_perform_as_vod == on,
{
    reveal_strlit("--live-perform-as-vod");
    reveal_strlit("--allow-hls-multi-ext-map");
    reveal_strlit("--append-url-params");
    reveal_strlit("--auto-select");
    reveal_strlit("--auto-subtitle-fix");
    reveal_strlit("--binary-merge");
    reveal_strlit("--check-segments-count");
    reveal_strlit("--concurrent-download");
    reveal_strlit("--del-after-done");
    reveal_strlit("--disable-update-check");
    reveal_strlit("--force-ansi-console");
    reveal_strlit("--mp4-real-time-decryption");
    reveal_strlit("--no-ansi-color");
    reveal_strlit("--no-date-info");
    reveal_strlit("--no-log");
    reveal_strlit("--skip-download");
    reveal_strlit("--skip-merge");
    reveal_strlit("--sub-only");
    reveal_strlit("--use-ffmpeg-concat-demuxer");
    reveal_strlit("--use-shaka-packager");
    reveal_strlit("--use-system-proxy");
    reveal_strlit("--write-meta-json");
    reveal_strlit("-mt");
    assert("--live-perform-as-vod"@.len() == 21);
    assert("--mp4-real-time-decryption"@.len() == 26);
    assert("--use-shaka-packager"@.len() == 20);
    assert("--append-url-params"@.len() == 19);
    assert("--use-system-proxy"@.len() == 18);
    assert("--no-log"@.len() == 8);
    assert("--force-ansi-console"@.len() == 20);
    assert("--no-ansi-color"@.len() == 15);
    assert("--disable-update-check"@.len() == 22);
    assert("--auto-select"@.len() == 13);
    assert("--sub-only"@.len() == 10);
    assert("-mt"@.len() == 3);
    assert("--live-perform-as-vod"@[2] == 'l' && "--concurrent-download"@[2] == 'c');
    assert("--skip-download"@.len() == 15);
    assert("--skip-merge"@.len() == 12);
    assert("--binary-merge"@.len() == 14);
    assert("--use-ffmpeg-concat-demuxer"@.len() == 27);
    assert("--del-after-done"@.len() == 16);
    assert("--check-segments-count"@.len() == 22);
    assert("--write-meta-json"@.len() == 17);
    assert("--no-date-info"@.len() == 14);
    assert("--auto-subtitle-fix"@.len() == 19);
    assert("--allow-hls-multi-ext-map"@.len() == 25);
}

proof fn lemma_switch_live_real_time_merge(o: DownloadOptionsView, on: Toggle)
    ensures
        with_switch(o, "--live-real-time-merge"@, on) is Some && (with_switch(o, "--live-real-time-merge"@, on)->0).live_real_time_merge == on,
{
    reveal_strlit("--live-real-time-merge");
    reveal_strlit("--allow-hls-multi-ext-map");
    reveal_strlit("--append-url-params");
    reveal_strlit("--auto-select");
    reveal_strlit("--auto-subtitle-fix");
    reveal_strlit("--binary-merge");
    reveal_strlit("--check-segments-count");
    reveal_strlit("--concurrent-download");
    reveal_strlit("--del-after-done");
    reveal_strlit("--disable-update-check");
    reveal_strlit("--force-ansi-console");
    reveal_strlit("--live-perform-as-vod");
    reveal_strlit("--mp4-real-time-decryption");
    reveal_strlit("--no-ansi-color");
    reveal_strlit("--no-date-info");
    reveal_strlit("--no-log");
    reveal_strlit("--skip-download");
    reveal_strlit("--skip-merge");
    reveal_strlit("--sub-only");
    reveal_strlit("--use-ffmpeg-concat-demuxer");
    reveal_strlit("--use-shaka-packager");
    reveal_strlit("--use-system-proxy");
    reveal_strlit("--write-meta-json");
    reveal_strlit("-mt");
    assert("--live-real-time-merge"@.len() == 22);
    assert("--mp4-real-time-decryption"@.len() == 26);
    assert("--use-shaka-packager"@.len() == 20);
    assert("--append-url-params"@.len() == 19);
    assert("--use-system-proxy"@.len() == 18);
    assert("--no-log"@.len() == 8);
    assert("--force-ansi-console"@.len() == 20);
    assert("--no-ansi-color"@.len() == 15);
    assert("--live-real-time-merge"@[2] == 'l' && "--disable-update-check"@[2] == 'd');
    assert("--auto-select"@.len() == 13);
    assert("--sub-only"@.len() == 10);
    assert("-mt"@.len() == 3);
    assert("--concurrent-download"@.len() == 21);
    assert("--skip-download"@.len() == 15);
    assert("--skip-merge"@.len() == 12);
    assert("--binary-merge"@.len() == 14);
    assert("--use-ffmpeg-concat-demuxer"@.len() == 27);
    assert("--del-after-done"@.len() == 16);
    assert("--live-real-time-merge"@[2] == 'l' && "--check-segments-count"@[2] == 'c');
    assert("--write-meta-json"@.len() == 17);
    assert("--no-date-info"@.len() == 14);
    assert("--auto-subtitle-fix"@.len() == 19);
    assert("--allow-hls-multi-ext-map"@.len() == 25);
    assert("--live-perform-as-vod"@.len() == 21);
}

proof fn lemma_switch_live_keep_segments(o: DownloadOptionsView, on: Toggle)
    ensures
        with_switch(o, "--live-keep-segments"@, on) is Some && (with_switch(o, "--live-keep-segments"@, on)->0).live_keep_segments == on,
{
    reveal_strlit("--live-keep-segments");
    reveal_strlit("--allow-hls-multi-ext-map");
    reveal_strlit("--append-url-params");
    reveal_strlit("--auto-select");
    reveal_strlit("--auto-subtitle-fix");
    reveal_strlit("--binary-merge");
    reveal_strlit("--check-segments-count");
    reveal_strlit("--concurrent-download");
    reveal_strlit("--del-after-done");
    reveal_strlit("--disable-update-check");
    reveal_strlit("--force-ansi-console");
    reveal_strlit("--live-perform-as-vod");
    reveal_strlit("--live-real-time-merge");
    reveal_strlit("--mp4-real-time-decryption");
    reveal_strlit("--no-ansi-color");
    reveal_strlit("--no-date-info");
    reveal_strlit("--no-log");
    reveal_strlit("--skip-download");
    reveal_strlit("--skip-merge");
    reveal_strlit("--sub-only");
    reveal_strlit("--use-ffmpeg-concat-demuxer");
    reveal_strlit("--use-shaka-packager");
    reveal_strlit("--use-system-proxy");
    reveal_strlit("--write-meta-json");
    reveal_strlit("-mt");
    assert("--live-keep-segments"@.len() == 20);
    assert("--mp4-real-time-decryption"@.len() == 26);
    assert("--live-keep-segments"@[2] == 'l' && "--use-shaka-packager"@[2] == 'u');
    assert("--append-url-params"@.len() == 19);
    assert("--use-system-proxy"@.len() == 18);
    assert("--no-log"@.len() == 8);
    assert("--live-keep-segments"@[2] == 'l' && "--force-ansi-console"@[2] == 'f');
    assert("--no-ansi-color"@.len() == 15);
    assert("--disable-update-check"@.len() == 22);
    assert("--auto-select"@.len() == 13);
    assert("--sub-only"@.len() == 10);
    assert("-mt"@.len() == 3);
    assert("--concurrent-download"@.len() == 21);
    assert("--skip-download"@.len() == 15);
    assert("--skip-merge"@.len() == 12);
    assert("--binary-merge"@.len() == 14);
    assert("--use-ffmpeg-concat-demuxer"@.len() == 27);
    assert("--del-after-done"@.len() == 16);
    assert("--check-segments-count"@.len() == 22);
    assert("--write-meta-json"@.len() == 17);
    assert("--no-date-info"@.len() == 14);
    assert("--auto-subtitle-fix"@.len() == 19);
    assert("--allow-hls-multi-ext-map"@.len() == 25);
    assert("--live-perform-as-vod"@.len() == 21);
    assert("--live-real-time-merge"@.len() == 22);
}

proof fn lemma_switch_live_pipe_mux(o: DownloadOptionsView, on: Toggle)
    ensures
        with_switch(o, "--live-pipe-mux"@, on) is Some && (with_switch(o, "--live-pipe-mux"@, on)->0).live_pipe_mux == on,
{
    reveal_strlit("--live-pipe-mux");
    reveal_strlit("--allow-hls-multi-ext-map");
    reveal_strlit("--append-url-params");
    reveal_strlit("--auto-select");
    reveal_strlit("--auto-subtitle-fix");
    reveal_strlit("--binary-merge");
    reveal_strlit("--check-segments-count");
    reveal_strlit("--concurrent-download");
    reveal_strlit("--del-after-done");
    reveal_strlit("--disable-update-check");
    reveal_strlit("--force-ansi-console");
    reveal_strlit("--live-keep-segments");
    reveal_strlit("--live-perform-as-vod");
    reveal_strlit("--live-real-time-merge");
    reveal_strlit("--mp4-real-time-decryption");
    reveal_strlit("--no-ansi-color");
    reveal_strlit("--no-date-info");
    reveal_strlit("--no-log");
    reveal_strlit("--skip-download");
    reveal_strlit("--skip-merge");
    reveal_strlit("--sub-only");
    reveal_strlit("--use-ffmpeg-concat-demuxer");
    reveal_strlit("--use-shaka-packager");
    reveal_strlit("--use-system-proxy");
    reveal_strlit("--write-meta-json");
    reveal_strlit("-mt");
    assert("--live-pipe-mux"@.len() == 15);
    assert("--mp4-real-time-decryption"@.len() == 26);
    assert("--use-shaka-packager"@.len() == 20);
    assert("--append-url-params"@.len() == 19);
    assert("--use-system-proxy"@.len() == 18);
    assert("--no-log"@.len() == 8);
    assert("--force-ansi-console"@.len() == 20);
    assert("--live-pipe-mux"@[2] == 'l' && "--no-ansi-color"@[2] == 'n');
    assert("--disable-update-check"@.len() == 22);
    assert("--auto-select"@.len() == 13);
    assert("--sub-only"@.len() == 10);
    assert("-mt"@.len() == 3);
    assert("--concurrent-download"@.len() == 21);
    assert("--live-pipe-mux"@[2] == 'l' && "--skip-download"@[2] == 's');
    assert("--skip-merge"@.len() == 12);
    assert("--binary-merge"@.len() == 14);
    assert("--use-ffmpeg-concat-demuxer"@.len() == 27);
    assert("--del-after-done"@.len() == 16);
    assert("--check-segments-count"@.len() == 22);
    assert("--write-meta-json"@.len() == 17);
    assert("--no-date-info"@.len() == 14);
    assert("--auto-subtitle-fix"@.len() == 19);
    assert("--allow-hls-multi-ext-map"@.len() == 25);
    assert("--live-perform-as-vod"@.len() == 21);
    assert("--live-real-time-merge"@.len() == 22);
    assert("--live-keep-segments"@.len() == 20);
}

proof fn lemma_switch_live_fix_vtt_by_audio(o: DownloadOptionsView, on: Toggle)
    ensures
        with_switch(o, "--live-fix-vtt-by-audio"@, on) is Some && (with_switch(o, "--live-fix-vtt-by-audio"@, on)->0).live_fix_vtt_by_audio == on,
{
    reveal_strlit("--live-fix-vtt-by-audio");
    reveal_strlit("--allow-hls-multi-ext-map");
    reveal_strlit("--append-url-params");
    reveal_strlit("--auto-select");
    reveal_strlit("--auto-subtitle-fix");
    reveal_strlit("--binary-merge");
    reveal_strlit("--check-segments-count");
    reveal_strlit("--concurrent-download");
    reveal_strlit("--del-after-done");
    reveal_strlit("--disable-update-check");
    reveal_strlit("--force-ansi-console");
    reveal_strlit("--live-keep-segments");
    reveal_strlit("--live-perform-as-vod");
    reveal_strlit("--live-pipe-mux");
    reveal_strlit("--live-real-time-merge");
    reveal_strlit("--mp4-real-time-decryption");
    reveal_strlit("--no-ansi-color");
    reveal_strlit("--no-date-info");
    reveal_strlit("--no-log");
    reveal_strlit("--skip-download");
    reveal_strlit("--skip-merge");
    reveal_strlit("--sub-only");
    reveal_strlit("--use-ffmpeg-concat-demuxer");
    reveal_strlit("--use-shaka-packager");
    reveal_strlit("--use-system-proxy");
    reveal_strlit("--write-meta-json");
    reveal_strlit("-mt");
    assert("--live-fix-vtt-by-audio"@.len() == 23);
    assert("--mp4-real-time-decryption"@.len() == 26);
    assert("--use-shaka-packager"@.len() == 20);
    assert("--append-url-params"@.len() == 19);
    assert("--use-system-proxy"@.len() == 18);
    assert("--no-log"@.len() == 8);
    assert("--force-ansi-console"@.len() == 20);
    assert("--no-ansi-color"@.len() == 15);
    assert("--disable-update-check"@.len() == 22);
    assert("--auto-select"@.len() == 13);
    assert("--sub-only"@.len() == 10);
    assert("-mt"@.len() == 3);
    assert("--concurrent-download"@.len() == 21);
    assert("--skip-download"@.len() == 15);
    assert("--skip-merge"@.len() == 12);
    assert("--binary-merge"@.len() == 14);
    assert("--use-ffmpeg-concat-demuxer"@.len() == 27);
    assert("--del-after-done"@.len() == 16);
    assert("--check-segments-count"@.len() == 22);
    assert("--write-meta-json"@.len() == 17);
    assert("--no-date-info"@.len() == 14);
    assert("--auto-subtitle-fix"@.len() == 19);
    assert("--allow-hls-multi-ext-map"@.len() == 25);
    assert("--live-perform-as-vod"@.len() == 21);
    assert("--live-real-time-merge"@.len() == 22);
    assert("--live-keep-segments"@.len() == 20);
    assert("--live-pipe-mux"@.len() == 15);
}

/// Each switch sets what it names.
pub proof fn law_switches_set_what_they_name(o: DownloadOptionsView, on: Toggle)
    ensures
        with_switch(o, "--mp4-real-time-decryption"@, on) is Some && (with_switch(o, "--mp4-real-time-decryption"@, on)->0).mp4_real_time_decryption == on,
        with_switch(o, "--use-shaka-packager"@, on) is Some && (with_switch(o, "--use-shaka-packager"@, on)->0).use_shaka_packager == on,
        with_switch(o, "--append-url-params"@, on) is Some && (with_switch(o, "--append-url-params"@, on)->0).append_url_params == on,
        with_switch(o, "--use-system-proxy"@, on) is Some && (with_switch(o, "--use-system-proxy"@, on)->0).use_system_proxy == on,
        with_switch(o, "--no-log"@, on) is Some && (with_switch(o, "--no-log"@, on)->0).no_log == on,
        with_switch(o, "--force-ansi-console"@, on) is Some && (with_switch(o, "--force-ansi-console"@, on)->0).force_ansi_console == on,
        with_switch(o, "--no-ansi-color"@, on) is Some && (with_switch(o, "--no-ansi-color"@, on)->0).no_ansi_color == on,
        with_switch(o, "--disable-update-check"@, on) is Some && (with_switch(o, "--disable-update-check"@, on)->0).disable_update_check == on,
        with_switch(o, "--auto-select"@, on) is Some && (with_switch(o, "--auto-select"@, on)->0).auto_select == on,
        with_switch(o, "--sub-only"@, on) is Some && (with_switch(o, "--sub-only"@, on)->0).sub_only == on,
        with_switch(o, "-mt"@, on) is Some && (with_switch(o, "-mt"@, on)->0).concurrent_download == on,
        with_switch(o, "--concurrent-download"@, on) is Some && (with_switch(o, "--concurrent-download"@, on)->0).concurrent_download == on,
        with_switch(o, "--skip-download"@, on) is Some && (with_switch(o, "--skip-download"@, on)->0).skip_download == on,
        with_switch(o, "--skip-merge"@, on) is Some && (with_switch(o, "--skip-merge"@, on)->0).skip_merge == on,
        with_switch(o, "--binary-merge"@, on) is Some && (with_switch(o, "--binary-merge"@, on)->0).binary_merge == on,
        with_switch(o, "--use-ffmpeg-concat-demuxer"@, on) is Some && (with_switch(o, "--use-ffmpeg-concat-demuxer"@, on)->0).use_ffmpeg_concat_demuxer == on,
        with_switch(o, "--del-after-done"@, on) is Some && (with_switch(o, "--del-after-done"@, on)->0).del_after_done == on,
        with_switch(o, "--check-segments-count"@, on) is Some && (with_switch(o, "--check-segments-count"@, on)->0).check_segments_count == on,
        with_switch(o, "--write-meta-json"@, on) is Some && (with_switch(o, "--write-meta-json"@, on)->0).write_meta_json == on,
        with_switch(o, "--no-date-info"@, on) is Some && (with_switch(o, "--no-date-info"@, on)->0).no_date_info == on,
        with_switch(o, "--auto-subtitle-fix"@, on) is Some && (with_switch(o, "--auto-subtitle-fix"@, on)->0).auto_subtitle_fix == on,
        with_switch(o, "--allow-hls-multi-ext-map"@, on) is Some && (with_switch(o, "--allow-hls-multi-ext-map"@, on)->0).allow_hls_multi_ext_map == on,
        with_switch(o, "--live-perform-as-vod"@, on) is Some && (with_switch(o, "--live-perform-as-vod"@, on)->0).live_perform_as_vod == on,
        with_switch(o, "--live-real-time-merge"@, on) is Some && (with_switch(o, "--live-real-time-merge"@, on)->0).live_real_time_merge == on,
        with_switch(o, "--live-keep-segments"@, on) is Some && (with_switch(o, "--live-keep-segments"@, on)->0).live_keep_segments == on,
        with_switch(o, "--live-pipe-mux"@, on) is Some && (with_switch(o, "--live-pipe-mux"@, on)->0).live_pipe_mux == on,
        with_switch(o, "--live-fix-vtt-by-audio"@, on) is Some && (with_switch(o, "--live-fix-vtt-by-audio"@, on)->0).live_fix_vtt_by_audio == on,
{
    lemma_switch_mp4_real_time_decryption(o, on);
    lemma_switch_use_shaka_packager(o, on);
    lemma_switch_append_url_params(o, on);
    lemma_switch_use_system_proxy(o, on);
    lemma_switch_no_log(o, on);
    lemma_switch_force_ansi_console(o, on);
    lemma_switch_no_ansi_color(o, on);
    lemma_switch_disable_update_check(o, on);
    lemma_switch_auto_select(o, on);
    lemma_switch_sub_only(o, on);
    lemma_switch_short_mt(o, on);
    lemma_switch_concurrent_download(o, on);
    lemma_switch_skip_download(o, on);
    lemma_switch_skip_merge(o, on);
    lemma_switch_binary_merge(o, on);
    lemma_switch_use_ffmpeg_concat_demuxer(o, on);
    lemma_switch_del_after_done(o, on);
    lemma_switch_check_segments_count(o, on);
    lemma_switch_write_meta_json(o, on);
    lemma_switch_no_date_info(o, on);
    lemma_switch_auto_subtitle_fix(o, on);
    lemma_switch_allow_hls_multi_ext_map(o, on);
    lemma_switch_live_perform_as_vod(o, on);
    lemma_switch_live_real_time_merge(o, on);
    lemma_switch_live_keep_segments(o, on);
    lemma_switch_live_pipe_mux(o, on);
    lemma_switch_live_fix_vtt_by_audio(o, on);
}

proof fn lemma_text_tmp_dir(o: DownloadOptionsView, v: Seq<char>)
    ensures
        with_text(o, "--tmp-dir"@, v) is Some && (with_text(o, "--tmp-dir"@, v)->0).tmp_dir == Some(v),
{
    reveal_strlit("--tmp-dir");
    assert("--tmp-dir"@.len() == 9);
}

proof fn lemma_text_save_dir(o: DownloadOptionsView, v: Seq<char>)
    ensures
        with_text(o, "--save-dir"@, v) is Some && (with_text(o, "--save-dir"@, v)->0).save_dir == Some(v),
{
    reveal_strlit("--save-dir");
    reveal_strlit("--tmp-dir");
    assert("--save-dir"@.len() == 10);
    assert("--tmp-dir"@.len() == 9);
}

proof fn lemma_text_save_pattern(o: DownloadOptionsView, v: Seq<char>)
    ensures
        with_text(o, "--save-pattern"@, v) is Some && (with_text(o, "--save-pattern"@, v)->0).save_pattern == Some(v),
{
    reveal_strlit("--save-pattern");
    reveal_strlit("--save-dir");
    reveal_strlit("--tmp-dir");
    assert("--save-pattern"@.len() == 14);
    assert("--tmp-dir"@.len() == 9);
    assert("--save-dir"@.len() == 10);
}

proof fn lemma_text_urlprocessor_args(o: DownloadOptionsView, v: Seq<char>)
    ensures
        with_text(o, "--urlprocessor-args"@, v) is Some && (with_text(o, "--urlprocessor-args"@, v)->0).urlprocessor_args == Some(v),
{
    reveal_strlit("--urlprocessor-args");
    reveal_strlit("--save-dir");
    reveal_strlit("--save-pattern");
    reveal_strlit("--tmp-dir");
    assert("--urlprocessor-args"@.len() == 19);
    assert("--tmp-dir"@.len() == 9);
    assert("--save-dir"@.len() == 10);
    assert("--save-pattern"@.len() == 14);
}

proof fn lemma_text_key_text_file(o: DownloadOptionsView, v: Seq<char>)
    ensures
        with_text(o, "--key-text-file"@, v) is Some && (with_text(o, "--key-text-file"@, v)->0).key_text_file == Some(v),
{
    reveal_strlit("--key-text-file");
    reveal_strlit("--save-dir");
    reveal_strlit("--save-pattern");
    reveal_strlit("--tmp-dir");
    reveal_strlit("--urlprocessor-args");
    assert("--key-text-file"@.len() == 15);
    assert("--tmp-dir"@.len() == 9);
    assert("--save-dir"@.len() == 10);
    assert("--save-pattern"@.len() == 14);
    assert("--urlprocessor-args"@.len() == 19);
}

proof fn lemma_text_decryption_binary_path(o: DownloadOptionsView, v: Seq<char>)
    ensures
        with_text(o, "--decryption-binary-path"@, v) is Some && (with_text(o, "--decryption-binary-path"@, v)->0).decryption_binary_path == Some(v),
{
    reveal_strlit("--decryption-binary-path");
    reveal_strlit("--key-text-file");
    reveal_strlit("--save-dir");
    reveal_strlit("--save-pattern");
    reveal_strlit("--tmp-dir");
    reveal_strlit("--urlprocessor-args");
    assert("--decryption-binary-path"@.len() == 24);
    assert("--tmp-dir"@.len() == 9);
    assert("--save-dir"@.len() == 10);
    assert("--save-pattern"@.len() == 14);
    assert("--urlprocessor-args"@.len() == 19);
    assert("--key-text-file"@.len() == 15);
}

proof fn lemma_text_base_url(o: DownloadOptionsView, v: Seq<char>)
    ensures
        with_text(o, "--base-url"@, v) is Some && (with_text(o, "--base-url"@, v)->0).base_url == Some(v),
{
    reveal_strlit("--base-url");
    reveal_strlit("--decryption-binary-path");
    reveal_strlit("--key-text-file");
    reveal_strlit("--save-dir");
    reveal_strlit("--save-pattern");
    reveal_strlit("--tmp-dir");
    reveal_strlit("--urlprocessor-args");
    assert("--base-url"@.len() == 10);
    assert("--tmp-dir"@.len() == 9);
    assert("--base-url"@[2] == 'b' && "--save-dir"@[2] == 's');
    assert("--save-pattern"@.len() == 14);
    assert("--urlprocessor-args"@.len() == 19);
    assert("--key-text-file"@.len() == 15);
    assert("--decryption-binary-path"@.len() == 24);
}

proof fn lemma_text_ffmpeg_binary_path(o: DownloadOptionsView, v: Seq<char>)
    ensures
        with_text(o, "--ffmpeg-binary-path"@, v) is Some && (with_text(o, "--ffmpeg-binary-path"@, v)->0).ffmpeg_binary_path == Some(v),
{
    reveal_strlit("--ffmpeg-binary-path");
    reveal_strlit("--base-url");
    reveal_strlit("--decryption-binary-path");
    reveal_strlit("--key-text-file");
    reveal_strlit("--save-dir");
    reveal_strlit("--save-pattern");
    reveal_strlit("--tmp-dir");
    reveal_strlit("--urlprocessor-args");
    assert("--ffmpeg-binary-path"@.len() == 20);
    assert("--tmp-dir"@.len() == 9);
    assert("--save-dir"@.len() == 10);
    assert("--save-pattern"@.len() == 14);
    assert("--urlprocessor-args"@.len() == 19);
    assert("--key-text-file"@.len() == 15);
    assert("--decryption-binary-path"@.len() == 24);
    assert("--base-url"@.len() == 10);
}

proof fn lemma_text_mkvmerge_binary_path(o: DownloadOptionsView, v: Seq<char>)
    ensures
        with_text(o, "--mkvmerge-binary-path"@, v) is Some && (with_text(o, "--mkvmerge-binary-path"@, v)->0).mkvmerge_binary_path == Some(v),
{
    reveal_strlit("--mkvmerge-binary-path");
    reveal_strlit("--base-url");
    reveal_strlit("--decryption-binary-path");
    reveal_strlit("--ffmpeg-binary-path");
    reveal_strlit("--key-text-file");
    reveal_strlit("--save-dir");
    reveal_strlit("--save-pattern");
    reveal_strlit("--tmp-dir");
    reveal_strlit("--urlprocessor-args");
    assert("--mkvmerge-binary-path"@.len() == 22);
    assert("--tmp-dir"@.len() == 9);
    assert("--save-dir"@.len() == 10);
    assert("--save-pattern"@.len() == 14);
    assert("--urlprocessor-args"@.len() == 19);
    assert("--key-text-file"@.len() == 15);
    assert("--decryption-binary-path"@.len() == 24);
    assert("--base-url"@.len() == 10);
    assert("--ffmpeg-binary-path"@.len() == 20);
}

/// Each option that takes a text sets what it names to that text.
pub proof fn law_texts_set_what_they_name(o: DownloadOptionsView, v: Seq<char>)
    ensures
        with_text(o, "--tmp-dir"@, v) is Some && (with_text(o, "--tmp-dir"@, v)->0).tmp_dir == Some(v),
        with_text(o, "--save-dir"@, v) is Some && (with_text(o, "--save-dir"@, v)->0).save_dir == Some(v),
        with_text(o, "--save-pattern"@, v) is Some && (with_text(o, "--save-pattern"@, v)->0).save_pattern == Some(v),
        with_text(o, "--urlprocessor-args"@, v) is Some && (with_text(o, "--urlprocessor-args"@, v)->0).urlprocessor_args == Some(v),
        with_text(o, "--key-text-file"@, v) is Some && (with_text(o, "--key-text-file"@, v)->0).key_text_file == Some(v),
        with_text(o, "--decryption-binary-path"@, v) is Some && (with_text(o, "--decryption-binary-path"@, v)->0).decryption_binary_path == Some(v),
        with_text(o, "--base-url"@, v) is Some && (with_text(o, "--base-url"@, v)->0).base_url == Some(v),
        with_text(o, "--ffmpeg-binary-path"@, v) is Some && (with_text(o, "--ffmpeg-binary-path"@, v)->0).ffmpeg_binary_path == Some(v),
        with_text(o, "--mkvmerge-binary-path"@, v) is Some && (with_text(o, "--mkvmerge-binary-path"@, v)->0).mkvmerge_binary_path == Some(v),
{
    lemma_text_tmp_dir(o, v);
    lemma_text_save_dir(o, v);
    lemma_text_save_pattern(o, v);
    lemma_text_urlprocessor_args(o, v);
    lemma_text_key_text_file(o, v);
    lemma_text_decryption_binary_path(o, v);
    lemma_text_base_url(o, v);
    lemma_text_ffmpeg_binary_path(o, v);
    lemma_text_mkvmerge_binary_path(o, v);
}

proof fn lemma_scalar_save_name(o: DownloadOptionsView, v: Seq<char>)
    ensures
        file_name_of(v, "--save-name"@) is Ok ==> with_scalar(o, "--save-name"@, v) is Ok && with_scalar(o, "--save-name"@, v)->Ok_0.save_name == Some(file_name_of(v, "--save-name"@)->Ok_0),
        file_name_of(v, "--save-name"@) is Err ==> with_scalar(o, "--save-name"@, v) is Err,
{
    reveal_strlit("--save-name");
    assert("--save-name"@.len() == 11);
}

proof fn lemma_scalar_ui_language(o: DownloadOptionsView, v: Seq<char>)
    ensures
        language_of(v) is Ok ==> with_scalar(o, "--ui-language"@, v) is Ok && with_scalar(o, "--ui-language"@, v)->Ok_0.ui_language == Some(language_of(v)->Ok_0),
        language_of(v) is Err ==> with_scalar(o, "--ui-language"@, v) is Err,
{
    reveal_strlit("--ui-language");
    reveal_strlit("--save-name");
    assert("--ui-language"@.len() == 13);
    assert("--save-name"@.len() == 11);
}

proof fn lemma_scalar_decryption_engine(o: DownloadOptionsView, v: Seq<char>)
    ensures
        engine_of(v) is Ok ==> with_scalar(o, "--decryption-engine"@, v) is Ok && with_scalar(o, "--decryption-engine"@, v)->Ok_0.decryption_engine == engine_of(v)->Ok_0,
        engine_of(v) is Err ==> with_scalar(o, "--decryption-engine"@, v) is Err,
{
    reveal_strlit("--decryption-engine");
    reveal_strlit("--save-name");
    reveal_strlit("--ui-language");
    assert("--decryption-engine"@.len() == 19);
    assert("--save-name"@.len() == 11);
    assert("--ui-language"@.len() == 13);
}

proof fn lemma_scalar_custom_proxy(o: DownloadOptionsView, v: Seq<char>)
    ensures
        proxy_of(v) is Ok ==> with_scalar(o, "--custom-proxy"@, v) is Ok && with_scalar(o, "--custom-proxy"@, v)->Ok_0.custom_proxy == proxy_of(v)->Ok_0,
        proxy_of(v) is Err ==> with_scalar(o, "--custom-proxy"@, v) is Err,
{
    reveal_strlit("--custom-proxy");
    reveal_strlit("--decryption-engine");
    reveal_strlit("--save-name");
    reveal_strlit("--ui-language");
    assert("--custom-proxy"@.len() == 14);
    assert("--save-name"@.len() == 11);
    assert("--ui-language"@.len() == 13);
    assert("--decryption-engine"@.len() == 19);
}

proof fn lemma_scalar_http_request_timeout(o: DownloadOptionsView, v: Seq<char>)
    ensures
        timeout_of(v, "--http-request-timeout"@) is Ok ==> with_scalar(o, "--http-request-timeout"@, v) is Ok && with_scalar(o, "--http-request-timeout"@, v)->Ok_0.http_request_timeout == timeout_of(v, "--http-request-timeout"@)->Ok_0,
        timeout_of(v, "--http-request-timeout"@) is Err ==> with_scalar(o, "--http-request-timeout"@, v) is Err,
{
    reveal_strlit("--http-request-timeout");
    reveal_strlit("--custom-proxy");
    reveal_strlit("--decryption-engine");
    reveal_strlit("--save-name");
    reveal_strlit("--ui-language");
    assert("--http-request-timeout"@.len() == 22);
    assert("--save-name"@.len() == 11);
    assert("--ui-language"@.len() == 13);
    assert("--decryption-engine"@.len() == 19);
    assert("--custom-proxy"@.len() == 14);
}

proof fn lemma_scalar_log_level(o: DownloadOptionsView, v: Seq<char>)
    ensures
        level_of(v) is Ok ==> with_scalar(o, "--log-level"@, v) is Ok && with_scalar(o, "--log-level"@, v)->Ok_0.log_level == level_of(v)->Ok_0,
        level_of(v) is Err ==> with_scalar(o, "--log-level"@, v) is Err,
{
    reveal_strlit("--log-level");
    reveal_strlit("--custom-proxy");
    reveal_strlit("--decryption-engine");
    reveal_strlit("--http-request-timeout");
    reveal_strlit("--save-name");
    reveal_strlit("--ui-language");
    assert("--log-level"@.len() == 11);
    assert("--log-level"@[2] == 'l' && "--save-name"@[2] == 's');
    assert("--ui-language"@.len() == 13);
    assert("--decryption-engine"@.len() == 19);
    assert("--custom-proxy"@.len() == 14);
    assert("--http-request-timeout"@.len() == 22);
}

proof fn lemma_scalar_custom_range(o: DownloadOptionsView, v: Seq<char>)
    ensures
        range_of(v) is Ok ==> with_scalar(o, "--custom-range"@, v) is Ok && with_scalar(o, "--custom-range"@, v)->Ok_0.custom_range == range_of(v)->Ok_0,
        range_of(v) is Err ==> with_scalar(o, "--custom-range"@, v) is Err,
{
    reveal_strlit("--custom-range");
    reveal_strlit("--custom-proxy");
    reveal_strlit("--decryption-engine");
    reveal_strlit("--http-request-timeout");
    reveal_strlit("--log-level");
    reveal_strlit("--save-name");
    reveal_strlit("--ui-language");
    assert("--custom-range"@.len() == 14);
    assert("--save-name"@.len() == 11);
    assert("--ui-language"@.len() == 13);
    assert("--decryption-engine"@.len() == 19);
    assert("--custom-range"@[9] == 'r' && "--custom-proxy"@[9] == 'p');
    assert("--http-request-timeout"@.len() == 22);
    assert("--log-level"@.len() == 11);
}

proof fn lemma_scalar_thread_count(o: DownloadOptionsView, v: Seq<char>)
    ensures
        i32_of(v, "--thread-count"@) is Ok ==> with_scalar(o, "--thread-count"@, v) is Ok && with_scalar(o, "--thread-count"@, v)->Ok_0.thread_count == i32_of(v, "--thread-count"@)->Ok_0,
        i32_of(v, "--thread-count"@) is Err ==> with_scalar(o, "--thread-count"@, v) is Err,
{
    reveal_strlit("--thread-count");
    reveal_strlit("--custom-proxy");
    reveal_strlit("--custom-range");
    reveal_strlit("--decryption-engine");
    reveal_strlit("--http-request-timeout");
    reveal_strlit("--log-level");
    reveal_strlit("--save-name");
    reveal_strlit("--ui-language");
    assert("--thread-count"@.len() == 14);
    assert("--save-name"@.len() == 11);
    assert("--ui-language"@.len() == 13);
    assert("--decryption-engine"@.len() == 19);
    assert("--thread-count"@[2] == 't' && "--custom-proxy"@[2] == 'c');
    assert("--http-request-timeout"@.len() == 22);
    assert("--log-level"@.len() == 11);
    assert("--thread-count"@[2] == 't' && "--custom-range"@[2] == 'c');
}

proof fn lemma_scalar_download_retry_count(o: DownloadOptionsView, v: Seq<char>)
    ensures
        i32_of(v, "--download-retry-count"@) is Ok ==> with_scalar(o, "--download-retry-count"@, v) is Ok && with_scalar(o, "--download-retry-count"@, v)->Ok_0.download_retry_count == i32_of(v, "--download-retry-count"@)->Ok_0,
        i32_of(v, "--download-retry-count"@) is Err ==> with_scalar(o, "--download-retry-count"@, v) is Err,
{
    reveal_strlit("--download-retry-count");
    reveal_strlit("--custom-proxy");
    reveal_strlit("--custom-range");
    reveal_strlit("--decryption-engine");
    reveal_strlit("--http-request-timeout");
    reveal_strlit("--log-level");
    reveal_strlit("--save-name");
    reveal_strlit("--thread-count");
    reveal_strlit("--ui-language");
    assert("--download-retry-count"@.len() == 22);
    assert("--save-name"@.len() == 11);
    assert("--ui-language"@.len() == 13);
    assert("--decryption-engine"@.len() == 19);
    assert("--custom-proxy"@.len() == 14);
    assert("--download-retry-count"@[2] == 'd' && "--http-request-timeout"@[2] == 'h');
    assert("--log-level"@.len() == 11);
    assert("--custom-range"@.len() == 14);
    assert("--thread-count"@.len() == 14);
}

proof fn lemma_scalar_short_r_upper(o: DownloadOptionsView, v: Seq<char>)
    ensures
        speed_of(v) is Ok ==> with_scalar(o, "-R"@, v) is Ok && with_scalar(o, "-R"@, v)->Ok_0.max_speed == Some(speed_of(v)->Ok_0),
        speed_of(v) is Err ==> with_scalar(o, "-R"@, v) is Err,
{
    reveal_strlit("-R");
    reveal_strlit("--custom-proxy");
    reveal_strlit("--custom-range");
    reveal_strlit("--decryption-engine");
    reveal_strlit("--download-retry-count");
    reveal_strlit("--http-request-timeout");
    reveal_strlit("--log-level");
    reveal_strlit("--save-name");
    reveal_strlit("--thread-count");
    reveal_strlit("--ui-language");
    assert("-R"@.len() == 2);
    assert("--save-name"@.len() == 11);
    assert("--ui-language"@.len() == 13);
    assert("--decryption-engine"@.len() == 19);
    assert("--custom-proxy"@.len() == 14);
    assert("--http-request-timeout"@.len() == 22);
    assert("--log-level"@.len() == 11);
    assert("--custom-range"@.len() == 14);
    assert("--thread-count"@.len() == 14);
    assert("--download-retry-count"@.len() == 22);
}

proof fn lemma_scalar_max_speed(o: DownloadOptionsView, v: Seq<char>)
    ensures
        speed_of(v) is Ok ==> with_scalar(o, "--max-speed"@, v) is Ok && with_scalar(o, "--max-speed"@, v)->Ok_0.max_speed == Some(speed_of(v)->Ok_0),
        speed_of(v) is Err ==> with_scalar(o, "--max-speed"@, v) is Err,
{
    reveal_strlit("--max-speed");
    reveal_strlit("--custom-proxy");
    reveal_strlit("--custom-range");
    reveal_strlit("--decryption-engine");
    reveal_strlit("--download-retry-count");
    reveal_strlit("--http-request-timeout");
    reveal_strlit("--log-level");
    reveal_strlit("--save-name");
    reveal_strlit("--thread-count");
    reveal_strlit("--ui-language");
    reveal_strlit("-R");
    assert("--max-speed"@.len() == 11);
    assert("--max-speed"@[2] == 'm' && "--save-name"@[2] == 's');
    assert("--ui-language"@.len() == 13);
    assert("--decryption-engine"@.len() == 19);
    assert("--custom-proxy"@.len() == 14);
    assert("--http-request-timeout"@.len() == 22);
    assert("--max-speed"@[2] == 'm' && "--log-level"@[2] == 'l');
    assert("--custom-range"@.len() == 14);
    assert("--thread-count"@.len() == 14);
    assert("--download-retry-count"@.len() == 22);
    assert("-R"@.len() == 2);
}

proof fn lemma_scalar_sub_format(o: DownloadOptionsView, v: Seq<char>)
    ensures
        subtitle_of(v) is Ok ==> with_scalar(o, "--sub-format"@, v) is Ok && with_scalar(o, "--sub-format"@, v)->Ok_0.sub_format == subtitle_of(v)->Ok_0,
        subtitle_of(v) is Err ==> with_scalar(o, "--sub-format"@, v) is Err,
{
    reveal_strlit("--sub-format");
    reveal_strlit("--custom-proxy");
    reveal_strlit("--custom-range");
    reveal_strlit("--decryption-engine");
    reveal_strlit("--download-retry-count");
    reveal_strlit("--http-request-timeout");
    reveal_strlit("--log-level");
    reveal_strlit("--max-speed");
    reveal_strlit("--save-name");
    reveal_strlit("--thread-count");
    reveal_strlit("--ui-language");
    reveal_strlit("-R");
    assert("--sub-format"@.len() == 12);
    assert("--save-name"@.len() == 11);
    assert("--ui-language"@.len() == 13);
    assert("--decryption-engine"@.len() == 19);
    assert("--custom-proxy"@.len() == 14);
    assert("--http-request-timeout"@.len() == 22);
    assert("--log-level"@.len() == 11);
    assert("--custom-range"@.len() == 14);
    assert("--thread-count"@.len() == 14);
    assert("--download-retry-count"@.len() == 22);
    assert("-R"@.len() == 2);
    assert("--max-speed"@.len() == 11);
}

proof fn lemma_scalar_short_m_upper(o: DownloadOptionsView, v: Seq<char>)
    ensures
        mux_of(v) is Ok ==> with_scalar(o, "-M"@, v) is Ok && with_scalar(o, "-M"@, v)->Ok_0.mux_after_done == Some(mux_of(v)->Ok_0),
        mux_of(v) is Err ==> with_scalar(o, "-M"@, v) is Err,
{
    reveal_strlit("-M");
    reveal_strlit("--custom-proxy");
    reveal_strlit("--custom-range");
    reveal_strlit("--decryption-engine");
    reveal_strlit("--download-retry-count");
    reveal_strlit("--http-request-timeout");
    reveal_strlit("--log-level");
    reveal_strlit("--max-speed");
    reveal_strlit("--save-name");
    reveal_strlit("--sub-format");
    reveal_strlit("--thread-count");
    reveal_strlit("--ui-language");
    reveal_strlit("-R");
    assert("-M"@.len() == 2);
    assert("--save-name"@.len() == 11);
    assert("--ui-language"@.len() == 13);
    assert("--decryption-engine"@.len() == 19);
    assert("--custom-proxy"@.len() == 14);
    assert("--http-request-timeout"@.len() == 22);
    assert("--log-level"@.len() == 11);
    assert("--custom-range"@.len() == 14);
    assert("--thread-count"@.len() == 14);
    assert("--download-retry-count"@.len() == 22);
    assert("-M"@[1] == 'M' && "-R"@[1] == 'R');
    assert("--max-speed"@.len() == 11);
    assert("--sub-format"@.len() == 12);
}

proof fn lemma_scalar_mux_after_done(o: DownloadOptionsView, v: Seq<char>)
    ensures
        mux_of(v) is Ok ==> with_scalar(o, "--mux-after-done"@, v) is Ok && with_scalar(o, "--mux-after-done"@, v)->Ok_0.mux_after_done == Some(mux_of(v)->Ok_0),
        mux_of(v) is Err ==> with_scalar(o, "--mux-after-done"@, v) is Err,
{
    reveal_strlit("--mux-after-done");
    reveal_strlit("--custom-proxy");
    reveal_strlit("--custom-range");
    reveal_strlit("--decryption-engine");
    reveal_strlit("--download-retry-count");
    reveal_strlit("--http-request-timeout");
    reveal_strlit("--log-level");
    reveal_strlit("--max-speed");
    reveal_strlit("--save-name");
    reveal_strlit("--sub-format");
    reveal_strlit("--thread-count");
    reveal_strlit("--ui-language");
    reveal_strlit("-M");
    reveal_strlit("-R");
    assert("--mux-after-done"@.len() == 16);
    assert("--save-name"@.len() == 11);
    assert("--ui-language"@.len() == 13);
    assert("--decryption-engine"@.len() == 19);
    assert("--custom-proxy"@.len() == 14);
    assert("--http-request-timeout"@.len() == 22);
    assert("--log-level"@.len() == 11);
    assert("--custom-range"@.len() == 14);
    assert("--thread-count"@.len() == 14);
    assert("--download-retry-count"@.len() == 22);
    assert("-R"@.len() == 2);
    assert("--max-speed"@.len() == 11);
    assert("--sub-format"@.len() == 12);
    assert("-M"@.len() == 2);
}

proof fn lemma_scalar_custom_hls_method(o: DownloadOptionsView, v: Seq<char>)
    ensures
        hls_method_of(v) is Ok ==> with_scalar(o, "--custom-hls-method"@, v) is Ok && with_scalar(o, "--custom-hls-method"@, v)->Ok_0.custom_hls_method == Some(hls_method_of(v)->Ok_0),
        hls_method_of(v) is Err ==> with_scalar(o, "--custom-hls-method"@, v) is Err,
{
    reveal_strlit("--custom-hls-method");
    reveal_strlit("--custom-proxy");
    reveal_strlit("--custom-range");
    reveal_strlit("--decryption-engine");
    reveal_strlit("--download-retry-count");
    reveal_strlit("--http-request-timeout");
    reveal_strlit("--log-level");
    reveal_strlit("--max-speed");
    reveal_strlit("--mux-after-done");
    reveal_strlit("--save-name");
    reveal_strlit("--sub-format");
    reveal_strlit("--thread-count");
    reveal_strlit("--ui-language");
    reveal_strlit("-M");
    reveal_strlit("-R");
    assert("--custom-hls-method"@.len() == 19);
    assert("--save-name"@.len() == 11);
    assert("--ui-language"@.len() == 13);
    assert("--custom-hls-method"@[2] == 'c' && "--decryption-engine"@[2] == 'd');
    assert("--custom-proxy"@.len() == 14);
    assert("--http-request-timeout"@.len() == 22);
    assert("--log-level"@.len() == 11);
    assert("--custom-range"@.len() == 14);
    assert("--thread-count"@.len() == 14);
    assert("--download-retry-count"@.len() == 22);
    assert("-R"@.len() == 2);
    assert("--max-speed"@.len() == 11);
    assert("--sub-format"@.len() == 12);
    assert("-M"@.len() == 2);
    assert("--mux-after-done"@.len() == 16);
}

proof fn lemma_scalar_task_start_at(o: DownloadOptionsView, v: Seq<char>)
    ensures
        start_of(v) is Ok ==> with_scalar(o, "--task-start-at"@, v) is Ok && with_scalar(o, "--task-start-at"@, v)->Ok_0.task_start_at == Some(start_of(v)->Ok_0),
        start_of(v) is Err ==> with_scalar(o, "--task-start-at"@, v) is Err,
{
    reveal_strlit("--task-start-at");
    reveal_strlit("--custom-hls-method");
    reveal_strlit("--custom-proxy");
    reveal_strlit("--custom-range");
    reveal_strlit("--decryption-engine");
    reveal_strlit("--download-retry-count");
    reveal_strlit("--http-request-timeout");
    reveal_strlit("--log-level");
    reveal_strlit("--max-speed");
    reveal_strlit("--mux-after-done");
    reveal_strlit("--save-name");
    reveal_strlit("--sub-format");
    reveal_strlit("--thread-count");
    reveal_strlit("--ui-language");
    reveal_strlit("-M");
    reveal_strlit("-R");
    assert("--task-start-at"@.len() == 15);
    assert("--save-name"@.len() == 11);
    assert("--ui-language"@.len() == 13);
    assert("--decryption-engine"@.len() == 19);
    assert("--custom-proxy"@.len() == 14);
    assert("--http-request-timeout"@.len() == 22);
    assert("--log-level"@.len() == 11);
    assert("--custom-range"@.len() == 14);
    assert("--thread-count"@.len() == 14);
    assert("--download-retry-count"@.len() == 22);
    assert("-R"@.len() == 2);
    assert("--max-speed"@.len() == 11);
    assert("--sub-format"@.len() == 12);
    assert("-M"@.len() == 2);
    assert("--mux-after-done"@.len() == 16);
    assert("--custom-hls-method"@.len() == 19);
}

proof fn lemma_scalar_live_record_limit(o: DownloadOptionsView, v: Seq<char>)
    ensures
        record_limit_of(v, "--live-record-limit"@) is Ok ==> with_scalar(o, "--live-record-limit"@, v) is Ok && with_scalar(o, "--live-record-limit"@, v)->Ok_0.live_record_limit == Some(record_limit_of(v, "--live-record-limit"@)->Ok_0),
        record_limit_of(v, "--live-record-limit"@) is Err ==> with_scalar(o, "--live-record-limit"@, v) is Err,
{
    reveal_strlit("--live-record-limit");
    reveal_strlit("--custom-hls-method");
    reveal_strlit("--custom-proxy");
    reveal_strlit("--custom-range");
    reveal_strlit("--decryption-engine");
    reveal_strlit("--download-retry-count");
    reveal_strlit("--http-request-timeout");
    reveal_strlit("--log-level");
    reveal_strlit("--max-speed");
    reveal_strlit("--mux-after-done");
    reveal_strlit("--save-name");
    reveal_strlit("--sub-format");
    reveal_strlit("--task-start-at");
    reveal_strlit("--thread-count");
    reveal_strlit("--ui-language");
    reveal_strlit("-M");
    reveal_strlit("-R");
    assert("--live-record-limit"@.len() == 19);
    assert("--save-name"@.len() == 11);
    assert("--ui-language"@.len() == 13);
    assert("--live-record-limit"@[2] == 'l' && "--decryption-engine"@[2] == 'd');
    assert("--custom-proxy"@.len() == 14);
    assert("--http-request-timeout"@.len() == 22);
    assert("--log-level"@.len() == 11);
    assert("--custom-range"@.len() == 14);
    assert("--thread-count"@.len() == 14);
    assert("--download-retry-count"@.len() == 22);
    assert("-R"@.len() == 2);
    assert("--max-speed"@.len() == 11);
    assert("--sub-format"@.len() == 12);
    assert("-M"@.len() == 2);
    assert("--mux-after-done"@.len() == 16);
    assert("--live-record-limit"@[2] == 'l' && "--custom-hls-method"@[2] == 'c');
    assert("--task-start-at"@.len() == 15);
}

proof fn lemma_scalar_live_wait_time(o: DownloadOptionsView, v: Seq<char>)
    ensures
        i32_of(v, "--live-wait-time"@) is Ok ==> with_scalar(o, "--live-wait-time"@, v) is Ok && with_scalar(o, "--live-wait-time"@, v)->Ok_0.live_wait_time == Some(i32_of(v, "--live-wait-time"@)->Ok_0),
        i32_of(v, "--live-wait-time"@) is Err ==> with_scalar(o, "--live-wait-time"@, v) is Err,
{
    reveal_strlit("--live-wait-time");
    reveal_strlit("--custom-hls-method");
    reveal_strlit("--custom-proxy");
    reveal_strlit("--custom-range");
    reveal_strlit("--decryption-engine");
    reveal_strlit("--download-retry-count");
    reveal_strlit("--http-request-timeout");
    reveal_strlit("--live-record-limit");
    reveal_strlit("--log-level");
    reveal_strlit("--max-speed");
    reveal_strlit("--mux-after-done");
    reveal_strlit("--save-name");
    reveal_strlit("--sub-format");
    reveal_strlit("--task-start-at");
    reveal_strlit("--thread-count");
    reveal_strlit("--ui-language");
    reveal_strlit("-M");
    reveal_strlit("-R");
    assert("--live-wait-time"@.len() == 16);
    assert("--save-name"@.len() == 11);
    assert("--ui-language"@.len() == 13);
    assert("--decryption-engine"@.len() == 19);
    assert("--custom-proxy"@.len() == 14);
    assert("--http-request-timeout"@.len() == 22);
    assert("--log-level"@.len() == 11);
    assert("--custom-range"@.len() == 14);
    assert("--thread-count"@.len() == 14);
    assert("--download-retry-count"@.len() == 22);
    assert("-R"@.len() == 2);
    assert("--max-speed"@.len() == 11);
    assert("--sub-format"@.len() == 12);
    assert("-M"@.len() == 2);
    assert("--live-wait-time"@[2] == 'l' && "--mux-after-done"@[2] == 'm');
    assert("--custom-hls-method"@.len() == 19);
    assert("--task-start-at"@.len() == 15);
    assert("--live-record-limit"@.len() == 19);
}

proof fn lemma_scalar_live_take_count(o: DownloadOptionsView, v: Seq<char>)
    ensures
        i32_of(v, "--live-take-count"@) is Ok ==> with_scalar(o, "--live-take-count"@, v) is Ok && with_scalar(o, "--live-take-count"@, v)->Ok_0.live_take_count == i32_of(v, "--live-take-count"@)->Ok_0,
        i32_of(v, "--live-take-count"@) is Err ==> with_scalar(o, "--live-take-count"@, v) is Err,
{
    reveal_strlit("--live-take-count");
    reveal_strlit("--custom-hls-method");
    reveal_strlit("--custom-proxy");
    reveal_strlit("--custom-range");
    reveal_strlit("--decryption-engine");
    reveal_strlit("--download-retry-count");
    reveal_strlit("--http-request-timeout");
    reveal_strlit("--live-record-limit");
    reveal_strlit("--live-wait-time");
    reveal_strlit("--log-level");
    reveal_strlit("--max-speed");
    reveal_strlit("--mux-after-done");
    reveal_strlit("--save-name");
    reveal_strlit("--sub-format");
    reveal_strlit("--task-start-at");
    reveal_strlit("--thread-count");
    reveal_strlit("--ui-language");
    reveal_strlit("-M");
    reveal_strlit("-R");
    assert("--live-take-count"@.len() == 17);
    assert("--save-name"@.len() == 11);
    assert("--ui-language"@.len() == 13);
    assert("--decryption-engine"@.len() == 19);
    assert("--custom-proxy"@.len() == 14);
    assert("--http-request-timeout"@.len() == 22);
    assert("--log-level"@.len() == 11);
    assert("--custom-range"@.len() == 14);
    assert("--thread-count"@.len() == 14);
    assert("--download-retry-count"@.len() == 22);
    assert("-R"@.len() == 2);
    assert("--max-speed"@.len() == 11);
    assert("--sub-format"@.len() == 12);
    assert("-M"@.len() == 2);
    assert("--mux-after-done"@.len() == 16);
    assert("--custom-hls-method"@.len() == 19);
    assert("--task-start-at"@.len() == 15);
    assert("--live-record-limit"@.len() == 19);
    assert("--live-wait-time"@.len() == 16);
}

/// Each option that takes a value sets what it names to what the value means, and fails where the
/// value means nothing.
pub proof fn law_values_set_what_they_name(o: DownloadOptionsView, v: Seq<char>)
    ensures
        file_name_of(v, "--save-name"@) is Ok ==> with_scalar(o, "--save-name"@, v) is Ok && with_scalar(o, "--save-name"@, v)->Ok_0.save_name == Some(file_name_of(v, "--save-name"@)->Ok_0),
        file_name_of(v, "--save-name"@) is Err ==> with_scalar(o, "--save-name"@, v) is Err,
        language_of(v) is Ok ==> with_scalar(o, "--ui-language"@, v) is Ok && with_scalar(o, "--ui-language"@, v)->Ok_0.ui_language == Some(language_of(v)->Ok_0),
        language_of(v) is Err ==> with_scalar(o, "--ui-language"@, v) is Err,
        engine_of(v) is Ok ==> with_scalar(o, "--decryption-engine"@, v) is Ok && with_scalar(o, "--decryption-engine"@, v)->Ok_0.decryption_engine == engine_of(v)->Ok_0,
        engine_of(v) is Err ==> with_scalar(o, "--decryption-engine"@, v) is Err,
        proxy_of(v) is Ok ==> with_scalar(o, "--custom-proxy"@, v) is Ok && with_scalar(o, "--custom-proxy"@, v)->Ok_0.custom_proxy == proxy_of(v)->Ok_0,
        proxy_of(v) is Err ==> with_scalar(o, "--custom-proxy"@, v) is Err,
        timeout_of(v, "--http-request-timeout"@) is Ok ==> with_scalar(o, "--http-request-timeout"@, v) is Ok && with_scalar(o, "--http-request-timeout"@, v)->Ok_0.http_request_timeout == timeout_of(v, "--http-request-timeout"@)->Ok_0,
        timeout_of(v, "--http-request-timeout"@) is Err ==> with_scalar(o, "--http-request-timeout"@, v) is Err,
        level_of(v) is Ok ==> with_scalar(o, "--log-level"@, v) is Ok && with_scalar(o, "--log-level"@, v)->Ok_0.log_level == level_of(v)->Ok_0,
        level_of(v) is Err ==> with_scalar(o, "--log-level"@, v) is Err,
        range_of(v) is Ok ==> with_scalar(o, "--custom-range"@, v) is Ok && with_scalar(o, "--custom-range"@, v)->Ok_0.custom_range == range_of(v)->Ok_0,
        range_of(v) is Err ==> with_scalar(o, "--custom-range"@, v) is Err,
        i32_of(v, "--thread-count"@) is Ok ==> with_scalar(o, "--thread-count"@, v) is Ok && with_scalar(o, "--thread-count"@, v)->Ok_0.thread_count == i32_of(v, "--thread-count"@)->Ok_0,
        i32_of(v, "--thread-count"@) is Err ==> with_scalar(o, "--thread-count"@, v) is Err,
        i32_of(v, "--download-retry-count"@) is Ok ==> with_scalar(o, "--download-retry-count"@, v) is Ok && with_scalar(o, "--download-retry-count"@, v)->Ok_0.download_retry_count == i32_of(v, "--download-retry-count"@)->Ok_0,
        i32_of(v, "--download-retry-count"@) is Err ==> with_scalar(o, "--download-retry-count"@, v) is Err,
        speed_of(v) is Ok ==> with_scalar(o, "-R"@, v) is Ok && with_scalar(o, "-R"@, v)->Ok_0.max_speed == Some(speed_of(v)->Ok_0),
        speed_of(v) is Err ==> with_scalar(o, "-R"@, v) is Err,
        speed_of(v) is Ok ==> with_scalar(o, "--max-speed"@, v) is Ok && with_scalar(o, "--max-speed"@, v)->Ok_0.max_speed == Some(speed_of(v)->Ok_0),
        speed_of(v) is Err ==> with_scalar(o, "--max-speed"@, v) is Err,
        subtitle_of(v) is Ok ==> with_scalar(o, "--sub-format"@, v) is Ok && with_scalar(o, "--sub-format"@, v)->Ok_0.sub_format == subtitle_of(v)->Ok_0,
        subtitle_of(v) is Err ==> with_scalar(o, "--sub-format"@, v) is Err,
        mux_of(v) is Ok ==> with_scalar(o, "-M"@, v) is Ok && with_scalar(o, "-M"@, v)->Ok_0.mux_after_done == Some(mux_of(v)->Ok_0),
        mux_of(v) is Err ==> with_scalar(o, "-M"@, v) is Err,
        mux_of(v) is Ok ==> with_scalar(o, "--mux-after-done"@, v) is Ok && with_scalar(o, "--mux-after-done"@, v)->Ok_0.mux_after_done == Some(mux_of(v)->Ok_0),
        mux_of(v) is Err ==> with_scalar(o, "--mux-after-done"@, v) is Err,
        hls_method_of(v) is Ok ==> with_scalar(o, "--custom-hls-method"@, v) is Ok && with_scalar(o, "--custom-hls-method"@, v)->Ok_0.custom_hls_method == Some(hls_method_of(v)->Ok_0),
        hls_method_of(v) is Err ==> with_scalar(o, "--custom-hls-method"@, v) is Err,
        start_of(v) is Ok ==> with_scalar(o, "--task-start-at"@, v) is Ok && with_scalar(o, "--task-start-at"@, v)->Ok_0.task_start_at == Some(start_of(v)->Ok_0),
        start_of(v) is Err ==> with_scalar(o, "--task-start-at"@, v) is Err,
        record_limit_of(v, "--live-record-limit"@) is Ok ==> with_scalar(o, "--live-record-limit"@, v) is Ok && with_scalar(o, "--live-record-limit"@, v)->Ok_0.live_record_limit == Some(record_limit_of(v, "--live-record-limit"@)->Ok_0),
        record_limit_of(v, "--live-record-limit"@) is Err ==> with_scalar(o, "--live-record-limit"@, v) is Err,
        i32_of(v, "--live-wait-time"@) is Ok ==> with_scalar(o, "--live-wait-time"@, v) is Ok && with_scalar(o, "--live-wait-time"@, v)->Ok_0.live_wait_time == Some(i32_of(v, "--live-wait-time"@)->Ok_0),
        i32_of(v, "--live-wait-time"@) is Err ==> with_scalar(o, "--live-wait-time"@, v) is Err,
        i32_of(v, "--live-take-count"@) is Ok ==> with_scalar(o, "--live-take-count"@, v) is Ok && with_scalar(o, "--live-take-count"@, v)->Ok_0.live_take_count == i32_of(v, "--live-take-count"@)->Ok_0,
        i32_of(v, "--live-take-count"@) is Err ==> with_scalar(o, "--live-take-count"@, v) is Err,
{
    lemma_scalar_save_name(o, v);
    lemma_scalar_ui_language(o, v);
    lemma_scalar_decryption_engine(o, v);
    lemma_scalar_custom_proxy(o, v);
    lemma_scalar_http_request_timeout(o, v);
    lemma_scalar_log_level(o, v);
    lemma_scalar_custom_range(o, v);
    lemma_scalar_thread_count(o, v);
    lemma_scalar_download_retry_count(o, v);
    lemma_scalar_short_r_upper(o, v);
    lemma_scalar_max_speed(o, v);
    lemma_scalar_sub_format(o, v);
    lemma_scalar_short_m_upper(o, v);
    lemma_scalar_mux_after_done(o, v);
    lemma_scalar_custom_hls_method(o, v);
    lemma_scalar_task_start_at(o, v);
    lemma_scalar_live_record_limit(o, v);
    lemma_scalar_live_wait_time(o, v);
    lemma_scalar_live_take_count(o, v);
}

proof fn lemma_filter_short_sv(o: DownloadOptionsView, f: StreamFilterView)
    ensures
        with_filter(o, "-sv"@, f).select_video == o.select_video.push(f),
{
    reveal_strlit("-sv");
    assert("-sv"@.len() == 3);
}

proof fn lemma_filter_select_video(o: DownloadOptionsView, f: StreamFilterView)
    ensures
        with_filter(o, "--select-video"@, f).select_video == o.select_video.push(f),
{
    reveal_strlit("--select-video");
    reveal_strlit("-sv");
    assert("--select-video"@.len() == 14);
    assert("-sv"@.len() == 3);
}

proof fn lemma_filter_short_sa(o: DownloadOptionsView, f: StreamFilterView)
    ensures
        with_filter(o, "-sa"@, f).select_audio == o.select_audio.push(f),
{
    reveal_strlit("-sa");
    reveal_strlit("--select-video");
    reveal_strlit("-sv");
    assert("-sa"@.len() == 3);
    assert("-sa"@[2] == 'a' && "-sv"@[2] == 'v');
    assert("--select-video"@.len() == 14);
}

proof fn lemma_filter_select_audio(o: DownloadOptionsView, f: StreamFilterView)
    ensures
        with_filter(o, "--select-audio"@, f).select_audio == o.select_audio.push(f),
{
    reveal_strlit("--select-audio");
    reveal_strlit("--select-video");
    reveal_strlit("-sa");
    reveal_strlit("-sv");
    assert("--select-audio"@.len() == 14);
    assert("-sv"@.len() == 3);
    assert("--select-audio"@[9] == 'a' && "--select-video"@[9] == 'v');
    assert("-sa"@.len() == 3);
}

proof fn lemma_filter_short_ss(o: DownloadOptionsView, f: StreamFilterView)
    ensures
        with_filter(o, "-ss"@, f).select_subtitle == o.select_subtitle.push(f),
{
    reveal_strlit("-ss");
    reveal_strlit("--select-audio");
    reveal_strlit("--select-video");
    reveal_strlit("-sa");
    reveal_strlit("-sv");
    assert("-ss"@.len() == 3);
    assert("-ss"@[2] == 's' && "-sv"@[2] == 'v');
    assert("--select-video"@.len() == 14);
    assert("-ss"@[2] == 's' && "-sa"@[2] == 'a');
    assert("--select-audio"@.len() == 14);
}

proof fn lemma_filter_select_subtitle(o: DownloadOptionsView, f: StreamFilterView)
    ensures
        with_filter(o, "--select-subtitle"@, f).select_subtitle == o.select_subtitle.push(f),
{
    reveal_strlit("--select-subtitle");
    reveal_strlit("--select-audio");
    reveal_strlit("--select-video");
    reveal_strlit("-sa");
    reveal_strlit("-ss");
    reveal_strlit("-sv");
    assert("--select-subtitle"@.len() == 17);
    assert("-sv"@.len() == 3);
    assert("--select-video"@.len() == 14);
    assert("-sa"@.len() == 3);
    assert("--select-audio"@.len() == 14);
    assert("-ss"@.len() == 3);
}

proof fn lemma_filter_short_dv(o: DownloadOptionsView, f: StreamFilterView)
    ensures
        with_filter(o, "-dv"@, f).drop_video == o.drop_video.push(f),
{
    reveal_strlit("-dv");
    reveal_strlit("--select-audio");
    reveal_strlit("--select-subtitle");
    reveal_strlit("--select-video");
    reveal_strlit("-sa");
    reveal_strlit("-ss");
    reveal_strlit("-sv");
    assert("-dv"@.len() == 3);
    assert("-dv"@[1] == 'd' && "-sv"@[1] == 's');
    assert("--select-video"@.len() == 14);
    assert("-dv"@[1] == 'd' && "-sa"@[1] == 's');
    assert("--select-audio"@.len() == 14);
    assert("-dv"@[1] == 'd' && "-ss"@[1] == 's');
    assert("--select-subtitle"@.len() == 17);
}

proof fn lemma_filter_drop_video(o: DownloadOptionsView, f: StreamFilterView)
    ensures
        with_filter(o, "--drop-video"@, f).drop_video == o.drop_video.push(f),
{
    reveal_strlit("--drop-video");
    reveal_strlit("--select-audio");
    reveal_strlit("--select-subtitle");
    reveal_strlit("--select-video");
    reveal_strlit("-dv");
    reveal_strlit("-sa");
    reveal_strlit("-ss");
    reveal_strlit("-sv");
    assert("--drop-video"@.len() == 12);
    assert("-sv"@.len() == 3);
    assert("--select-video"@.len() == 14);
    assert("-sa"@.len() == 3);
    assert("--select-audio"@.len() == 14);
    assert("-ss"@.len() == 3);
    assert("--select-subtitle"@.len() == 17);
    assert("-dv"@.len() == 3);
}

proof fn lemma_filter_short_da(o: DownloadOptionsView, f: StreamFilterView)
    ensures
        with_filter(o, "-da"@, f).drop_audio == o.drop_audio.push(f),
{
    reveal_strlit("-da");
    reveal_strlit("--drop-video");
    reveal_strlit("--select-audio");
    reveal_strlit("--select-subtitle");
    reveal_strlit("--select-video");
    reveal_strlit("-dv");
    reveal_strlit("-sa");
    reveal_strlit("-ss");
    reveal_strlit("-sv");
    assert("-da"@.len() == 3);
    assert("-da"@[1] == 'd' && "-sv"@[1] == 's');
    assert("--select-video"@.len() == 14);
    assert("-da"@[1] == 'd' && "-sa"@[1] == 's');
    assert("--select-audio"@.len() == 14);
    assert("-da"@[1] == 'd' && "-ss"@[1] == 's');
    assert("--select-subtitle"@.len() == 17);
    assert("-da"@[2] == 'a' && "-dv"@[2] == 'v');
    assert("--drop-video"@.len() == 12);
}

proof fn lemma_filter_drop_audio(o: DownloadOptionsView, f: StreamFilterView)
    ensures
        with_filter(o, "--drop-audio"@, f).drop_audio == o.drop_audio.push(f),
{
    reveal_strlit("--drop-audio");
    reveal_strlit("--drop-video");
    reveal_strlit("--select-audio");
    reveal_strlit("--select-subtitle");
    reveal_strlit("--select-video");
    reveal_strlit("-da");
    reveal_strlit("-dv");
    reveal_strlit("-sa");
    reveal_strlit("-ss");
    reveal_strlit("-sv");
    assert("--drop-audio"@.len() == 12);
    assert("-sv"@.len() == 3);
    assert("--select-video"@.len() == 14);
    assert("-sa"@.len() == 3);
    assert("--select-audio"@.len() == 14);
    assert("-ss"@.len() == 3);
    assert("--select-subtitle"@.len() == 17);
    assert("-dv"@.len() == 3);
    assert("--drop-audio"@[7] == 'a' && "--drop-video"@[7] == 'v');
    assert("-da"@.len() == 3);
}

proof fn lemma_filter_short_ds(o: DownloadOptionsView, f: StreamFilterView)
    ensures
        with_filter(o, "-ds"@, f).drop_subtitle == o.drop_subtitle.push(f),
{
    reveal_strlit("-ds");
    reveal_strlit("--drop-audio");
    reveal_strlit("--drop-video");
    reveal_strlit("--select-audio");
    reveal_strlit("--select-subtitle");
    reveal_strlit("--select-video");
    reveal_strlit("-da");
    reveal_strlit("-dv");
    reveal_strlit("-sa");
    reveal_strlit("-ss");
    reveal_strlit("-sv");
    assert("-ds"@.len() == 3);
    assert("-ds"@[1] == 'd' && "-sv"@[1] == 's');
    assert("--select-video"@.len() == 14);
    assert("-ds"@[1] == 'd' && "-sa"@[1] == 's');
    assert("--select-audio"@.len() == 14);
    assert("-ds"@[1] == 'd' && "-ss"@[1] == 's');
    assert("--select-subtitle"@.len() == 17);
    assert("-ds"@[2] == 's' && "-dv"@[2] == 'v');
    assert("--drop-video"@.len() == 12);
    assert("-ds"@[2] == 's' && "-da"@[2] == 'a');
    assert("--drop-audio"@.len() == 12);
}

proof fn lemma_filter_drop_subtitle(o: DownloadOptionsView, f: StreamFilterView)
    ensures
        with_filter(o, "--drop-subtitle"@, f).drop_subtitle == o.drop_subtitle.push(f),
{
    reveal_strlit("--drop-subtitle");
    reveal_strlit("--drop-audio");
    reveal_strlit("--drop-video");
    reveal_strlit("--select-audio");
    reveal_strlit("--select-subtitle");
    reveal_strlit("--select-video");
    reveal_strlit("-da");
    reveal_strlit("-ds");
    reveal_strlit("-dv");
    reveal_strlit("-sa");
    reveal_strlit("-ss");
    reveal_strlit("-sv");
    assert("--drop-subtitle"@.len() == 15);
    assert("-sv"@.len() == 3);
    assert("--select-video"@.len() == 14);
    assert("-sa"@.len() == 3);
    assert("--select-audio"@.len() == 14);
    assert("-ss"@.len() == 3);
    assert("--select-subtitle"@.len() == 17);
    assert("-dv"@.len() == 3);
    assert("--drop-video"@.len() == 12);
    assert("-da"@.len() == 3);
    assert("--drop-audio"@.len() == 12);
    assert("-ds"@.len() == 3);
}

/// Each filter option adds its filter to the filters that it names.
pub proof fn law_filters_go_where_they_name(o: DownloadOptionsView, f: StreamFilterView)
    ensures
        with_filter(o, "-sv"@, f).select_video == o.select_video.push(f),
        with_filter(o, "--select-video"@, f).select_video == o.select_video.push(f),
        with_filter(o, "-sa"@, f).select_audio == o.select_audio.push(f),
        with_filter(o, "--select-audio"@, f).select_audio == o.select_audio.push(f),
        with_filter(o, "-ss"@, f).select_subtitle == o.select_subtitle.push(f),
        with_filter(o, "--select-subtitle"@, f).select_subtitle == o.select_subtitle.push(f),
        with_filter(o, "-dv"@, f).drop_video == o.drop_video.push(f),
        with_filter(o, "--drop-video"@, f).drop_video == o.drop_video.push(f),
        with_filter(o, "-da"@, f).drop_audio == o.drop_audio.push(f),
        with_filter(o, "--drop-audio"@, f).drop_audio == o.drop_audio.push(f),
        with_filter(o, "-ds"@, f).drop_subtitle == o.drop_subtitle.push(f),
        with_filter(o, "--drop-subtitle"@, f).drop_subtitle == o.drop_subtitle.push(f),
{
    lemma_filter_short_sv(o, f);
    lemma_filter_select_video(o, f);
    lemma_filter_short_sa(o, f);
    lemma_filter_select_audio(o, f);
    lemma_filter_short_ss(o, f);
    lemma_filter_select_subtitle(o, f);
    lemma_filter_short_dv(o, f);
    lemma_filter_drop_video(o, f);
    lemma_filter_short_da(o, f);
    lemma_filter_drop_audio(o, f);
    lemma_filter_short_ds(o, f);
    lemma_filter_drop_subtitle(o, f);
}

/// A value may stand behind an equals sign, or be the next argument.
pub proof fn law_values_stand_inline_or_next(
    name: Seq<char>,
    value: Seq<char>,
    tokens: Seq<Seq<char>>,
    index: int,
)
    requires
        !name.contains('='),
        0 <= index < tokens.len(),
    ensures
        inline_of("--"@ + name + "="@ + value) == ("--"@ + name, Some(value)),
        inline_of("--"@ + name) == ("--"@ + name, None::<Seq<char>>),
        value_at(tokens, index, name, Some(value)) == CliResultView::<(Seq<char>, int)>::Ok(
            (value, index),
        ),
        value_at(tokens, index, name, None) == CliResultView::<(Seq<char>, int)>::Ok(
            (tokens[index], index + 1),
        ),
        value_at(tokens, tokens.len() as int, name, None) is Err,
{
    reveal_strlit("--");
    reveal_strlit("=");
    assert("="@ =~= seq!['=']);
    let long = "--"@ + name;
    assert(!long.contains('=')) by {
        if long.contains('=') {
            let i = choose|i: int| 0 <= i < long.len() && long[i] == '=';
            if i >= 2 {
                assert(name[i - 2] == '=');
            }
        }
    }
    law_cut_at_a_character(long, '=', value);
    crate::text_laws::law_no_cut_without_the_character(long, '=');
    law_prefix_comes_off("--"@, name);
    law_prefix_comes_off("--"@, name + "="@ + value);
    assert("--"@ + name + "="@ + value =~= "--"@ + (name + "="@ + value));
}

/// The first argument that is no option is the input; a second one is refused.
pub proof fn law_one_input(st: CliState, value: Seq<char>)
    ensures
        st.input is None ==> with_input(st, value, None) == CliResultView::<CliState>::Ok(
            CliState { input: Some(value), ..st },
        ),
        st.input is Some ==> with_input(st, value, None) is Err,
{
}

/// What some options imply of others.
pub proof fn law_implied_options(o: DownloadOptionsView)
    ensures
        o.use_shaka_packager == Toggle::On ==> settled(o).decryption_engine
            == DecryptionEngine::ShakaPackager,
        o.use_shaka_packager == Toggle::Off ==> settled(o).decryption_engine == o.decryption_engine,
        o.live_pipe_mux == Toggle::On ==> settled(o).live_real_time_merge == Toggle::On,
        o.live_pipe_mux == Toggle::Off ==> settled(o).live_real_time_merge
            == o.live_real_time_merge,
        o.mux_after_done is Some ==> settled(o).binary_merge == Toggle::On,
        o.mux_after_done is None ==> settled(o).binary_merge == o.binary_merge,
        settled(o).save_name == o.save_name,
        settled(o).save_dir == o.save_dir,
        settled(o).thread_count == o.thread_count,
        settled(o).keys == o.keys,
{
}

/// Without an input there is no request; with one the request is for it.
pub proof fn law_requests_are_for_the_input(st: CliState, input: Seq<char>)
    requires
        st.options.mux_imports.len() == 0,
    ensures
        st.input is None ==> finished(st) is Err,
        st.input == Some(input) ==> finished(st) is Ok && finished(st)->Ok_0 is Request
            && finished(st)->Ok_0->Request_0.input == input,
{
}

} // verus!
