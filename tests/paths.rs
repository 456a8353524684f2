use hls_mirror::clock::unix_now;
use hls_mirror::html::{gen_html_hls, gen_html_no_poster};
use hls_mirror::paths::{
    decode_uri, encode_uri, get_file_name, get_path_from_url, strip_leading_slashes,
    try_get_file_name,
};

#[test]
fn file_names() {
    assert_eq!(get_file_name("/a/b/c.ts"), "c.ts");
    assert_eq!(get_file_name("/a/b/"), "b");
    assert_eq!(get_file_name("/"), "");
    assert_eq!(get_file_name("a/.."), "");
    assert_eq!(try_get_file_name("x/y.m3u8").unwrap(), "y.m3u8");
    let e = try_get_file_name("/").unwrap_err();
    assert_eq!(e.path, "/");
}

#[test]
fn url_paths() {
    assert_eq!(get_path_from_url("http://h/a/b.m3u8?x=1"), Some("a/b.m3u8".to_string()));
    assert_eq!(get_path_from_url("http://h"), Some("".to_string()));
    assert_eq!(get_path_from_url("not a url"), None);
    assert_eq!(strip_leading_slashes("//a/b"), "a/b");
}

#[test]
fn encode_and_decode() {
    assert_eq!(encode_uri("a b/c&d"), "a%20b/c%26d");
    assert_eq!(encode_uri("/x/"), "/x/");
    assert_eq!(decode_uri("a%20b/c%26d"), Some("a b/c&d".to_string()));
    assert_eq!(decode_uri("%FF"), None);
}

#[test]
fn player_pages() {
    let plain = gen_html_no_poster();
    let poster = gen_html_hls();
    assert!(plain.contains("data-setup='{}'"));
    assert!(plain.contains("if (url){"));
    assert!(!plain.contains("poster"));
    assert!(poster.contains("video.setAttribute('poster', poster);"));
    assert!(poster.contains("} else {"));
}

#[test]
fn clock_is_after_epoch() {
    assert!(unix_now().unwrap().as_secs() > 0);
}
