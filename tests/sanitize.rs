use clipboard_sanitizer::link::parse_url;
use clipboard_sanitizer::rules::{
    get_query_value, map_youtube_prefix, sanitize, strip_params, strip_tracking,
};
use clipboard_sanitizer::settings::{enabled_prefixes, Settings};

fn test_settings() -> Settings {
    let mut settings = Settings::new();
    settings.insert("YOUTUBE_PREFIXES".to_string(), "live,shorts".to_string());
    settings
}

fn clean(input: &str, settings: &Settings) -> String {
    let url = parse_url(input).unwrap();
    strip_tracking(&url, settings).to_url_string()
}

#[test]
fn test_strip_params() {
    let url = parse_url("https://example.com/path?foo=bar&baz=qux").unwrap();
    let stripped_url = strip_params(&url, vec!["baz"]);
    assert_eq!(
        stripped_url.to_url_string(),
        "https://example.com/path?foo=bar",
        "Stripped URL is incorrect"
    );
}

#[test]
fn test_strip_tracking() {
    let settings = test_settings();

    let test_cases = vec![
        (
            "https://www.youtube.com/watch?v=1234&si=stripped&feature=share",
            "https://youtu.be/1234?feature=share",
        ),
        (
            "https://music.youtube.com/watch?v=5678&si=stripped&feature=share",
            "https://music.youtube.com/watch?v=5678&feature=share",
        ),
        (
            "https://example.com/path?utm_source=foo&utm_medium=bar",
            "https://example.com/path",
        ),
        (
            "https://youtu.be/1234?si=stripped&t=123",
            "https://youtu.be/1234?t=123",
        ),
        (
            "https://youtube.com/live/xxxxxxxxxx?feature=share",
            "https://youtu.be/xxxxxxxxxx?feature=share",
        ),
        (
            "https://youtube.com/shorts/xxxxxxxxxx?feature=share",
            "https://youtu.be/xxxxxxxxxx?feature=share",
        ),
    ];

    for (input, expected) in test_cases {
        let url = parse_url(input).unwrap();
        let stripped_url = strip_tracking(&url, &settings);
        assert_eq!(stripped_url.to_url_string(), expected, "Stripped URL is incorrect");
    }
}

#[test]
fn rewrite_twice_is_rewrite_once() {
    let settings = test_settings();
    for input in [
        "https://www.youtube.com/watch?v=1234&si=stripped&feature=share",
        "https://youtube.com/live/abc/extra?si=x&t=5",
        "https://youtube.com/channel/abc?si=x&q=1",
        "https://music.youtube.com/watch?v=5678&si=stripped",
        "https://example.com/a?utm_term=x&keep=1",
    ] {
        let once = strip_tracking(&parse_url(input).unwrap(), &settings);
        let twice = strip_tracking(&once, &settings);
        assert_eq!(twice.to_url_string(), once.to_url_string());
    }
}

#[test]
fn stripping_keeps_order_and_repeated_keys() {
    let url = parse_url("https://example.com/p?c=3&a=1&b=2&a=4&d=5").unwrap();
    let stripped = strip_params(&url, vec!["b", "d"]);
    assert_eq!(stripped.to_url_string(), "https://example.com/p?c=3&a=1&a=4");
    let none = strip_params(&url, vec![]);
    assert_eq!(none.to_url_string(), "https://example.com/p?c=3&a=1&b=2&a=4&d=5");
}

#[test]
fn stripping_every_pair_drops_the_question_mark() {
    let url = parse_url("https://example.com/p?utm_source=a&utm_content=b#top").unwrap();
    let stripped = strip_tracking(&url, &Settings::new());
    assert_eq!(stripped.to_url_string(), "https://example.com/p#top");
    assert!(!stripped.to_url_string().contains('?'));
    let empty = parse_url("https://example.com/p?").unwrap();
    assert_eq!(strip_params(&empty, vec!["x"]).to_url_string(), "https://example.com/p");
}

#[test]
fn other_domains_keep_scheme_host_port_and_path() {
    let url = parse_url(
        "http://user:pw@shop.example.org:8080/a/b?utm_campaign=x&si=1&fbclid=2&utm_term=y#f",
    )
    .unwrap();
    let out = strip_tracking(&url, &test_settings());
    assert_eq!(
        out.to_url_string(),
        "http://user:pw@shop.example.org:8080/a/b?si=1&fbclid=2#f"
    );
}

#[test]
fn youtube_without_video_only_loses_si() {
    let out = clean("https://www.youtube.com/results?search_query=cats&si=abc", &test_settings());
    assert_eq!(out, "https://www.youtube.com/results?search_query=cats");
}

#[test]
fn prefixes_are_ignored_when_not_configured() {
    let out = clean("https://youtube.com/live/xxxxxxxxxx?feature=share&si=1", &Settings::new());
    assert_eq!(out, "https://youtube.com/live/xxxxxxxxxx?feature=share");
}

#[test]
fn first_configured_prefix_wins_and_segment_stops_at_slash() {
    let mut settings = Settings::new();
    settings.insert("YOUTUBE_PREFIXES".to_string(), "live/abc,live".to_string());
    let out = clean("https://youtube.com/live/abc/more?si=1&t=2", &settings);
    assert_eq!(out, "https://youtu.be/more?t=2");
    settings.insert("YOUTUBE_PREFIXES".to_string(), "live,live/abc".to_string());
    let out = clean("https://youtube.com/live/abc/more?si=1&t=2", &settings);
    assert_eq!(out, "https://youtu.be/abc?t=2");
}

#[test]
fn video_parameter_is_percent_encoded_in_the_path() {
    let out = clean("https://www.youtube.com/watch?v=a%20b&x=y%20z", &Settings::new());
    assert_eq!(out, "https://youtu.be/a%20b?x=y+z");
}

#[test]
fn non_url_text_gives_no_write() {
    assert_eq!(sanitize("hello world", &test_settings()), None);
}

#[test]
fn url_without_domain_is_rejected() {
    assert!(parse_url("file:///tmp/x").is_none());
    assert!(parse_url("http://127.0.0.1/?utm_source=a").is_none());
    assert!(parse_url("/relative/path").is_none());
    assert_eq!(sanitize("http://127.0.0.1/?utm_source=a", &Settings::new()), None);
}

#[test]
fn sanitize_writes_only_changed_urls() {
    let settings = test_settings();
    assert_eq!(
        sanitize("https://youtu.be/1234?si=stripped&t=123", &settings),
        Some("https://youtu.be/1234?t=123".to_string())
    );
    assert_eq!(sanitize("https://youtu.be/1234?t=123", &settings), None);
    assert_eq!(sanitize("https://example.com/path", &settings), None);
}

#[test]
fn enabled_prefixes_wrap_each_token() {
    let prefixes = enabled_prefixes(&test_settings());
    assert_eq!(prefixes, vec!["/live/".to_string(), "/shorts/".to_string()]);
    assert!(enabled_prefixes(&Settings::new()).is_empty());
    let mut empty = Settings::new();
    empty.insert("YOUTUBE_PREFIXES".to_string(), String::new());
    assert!(enabled_prefixes(&empty).is_empty());
    let mut odd = Settings::new();
    odd.insert("YOUTUBE_PREFIXES".to_string(), "a,".to_string());
    assert_eq!(enabled_prefixes(&odd), vec!["/a/".to_string(), "//".to_string()]);
}

#[test]
fn settings_lookup_and_replace() {
    let mut settings = Settings::new();
    assert_eq!(settings.get("k"), None);
    settings.insert("k".to_string(), "1".to_string());
    settings.insert("j".to_string(), "2".to_string());
    settings.insert("k".to_string(), "3".to_string());
    assert_eq!(settings.get("k"), Some("3".to_string()));
    assert_eq!(settings.get("j"), Some("2".to_string()));
}

#[test]
fn query_value_is_first_match_decoded() {
    let url = parse_url("https://example.com/?v=a%2Fb&v=second").unwrap();
    assert_eq!(get_query_value(&url, "v"), Some("a/b".to_string()));
    assert_eq!(get_query_value(&url, "w"), None);
}

#[test]
fn prefix_mapping_moves_to_short_host() {
    let url = parse_url("https://youtube.com/shorts/id42?si=1").unwrap();
    let moved = map_youtube_prefix(&url, "/shorts/").unwrap();
    assert_eq!(moved.to_url_string(), "https://youtu.be/id42?si=1");
    assert!(map_youtube_prefix(&url, "/live/").is_none());
}
