use hls_mirror::playlist::{base_url, local_line, resolve_reference, rewrite_m3u8, segment_urls};

#[test]
fn rewrite_reduces_segment_lines_to_file_names() {
    let m = "#EXTM3U\nhttp://x/a/seg1.ts\n\n#EXT-X-ENDLIST";
    assert_eq!(rewrite_m3u8(m), "#EXTM3U\nseg1.ts\n\n#EXT-X-ENDLIST");
}

#[test]
fn rewrite_is_idempotent() {
    let inputs = [
        "#EXTM3U\nhttp://x/a/seg1.ts\n\n#EXT-X-ENDLIST",
        "a/b/#c\nx/  \n/\nplain.ts\n",
        "",
        "\r\n#EXTINF:10,\r\nhttp://h/p/s.ts\r\n",
    ];
    for m in inputs {
        let once = rewrite_m3u8(m);
        assert_eq!(rewrite_m3u8(&once), once);
    }
}

#[test]
fn rewrite_keeps_directives_and_blank_lines() {
    let m = "#EXTM3U\n  \t\n#EXT-X-KEY:URI=\"http://k/e/y\"\nhttps://h/q/s2.ts\r\n";
    assert_eq!(
        rewrite_m3u8(m),
        "#EXTM3U\n  \t\n#EXT-X-KEY:URI=\"http://k/e/y\"\ns2.ts\r\n"
    );
}

#[test]
fn local_line_forms() {
    assert_eq!(local_line("#EXTINF:4.0,"), "#EXTINF:4.0,");
    assert_eq!(local_line("   "), "   ");
    assert_eq!(local_line("seg.ts"), "seg.ts");
    assert_eq!(local_line("a/b/c.ts"), "c.ts");
    assert_eq!(local_line("dir/"), "");
}

#[test]
fn relative_reference_resolves_against_playlist_directory() {
    let urls = segment_urls("http://host/path/index.m3u8", "#EXTM3U\nseg2.ts\n");
    assert_eq!(urls, vec!["http://host/path/seg2.ts".to_string()]);
}

#[test]
fn segment_urls_keep_order_and_skip_directives() {
    let content = "#EXTM3U\n#EXTINF:10,\nhttp://cdn/a.ts\r\n\n  \nb.ts\nhttps://cdn/c.ts\n#EXT-X-ENDLIST\n";
    let urls = segment_urls("http://host/live/stream", content);
    assert_eq!(
        urls,
        vec![
            "http://cdn/a.ts".to_string(),
            "http://host/live/b.ts".to_string(),
            "https://cdn/c.ts".to_string(),
        ]
    );
}

#[test]
fn base_url_drops_final_segment() {
    assert_eq!(base_url("http://host/path/index.m3u8"), "http://host/path");
    assert_eq!(base_url("http://host/path/stream"), "http://host/path");
    assert_eq!(base_url("index.m3u8"), "");
}

#[test]
fn resolve_reference_joins_with_one_slash() {
    assert_eq!(resolve_reference("http://h/p", "s.ts"), "http://h/p/s.ts");
    assert_eq!(resolve_reference("http://h/p", "https://o/s.ts"), "https://o/s.ts");
}
