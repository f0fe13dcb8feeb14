use chromia::sources::{stream_download_args, thumbnail_location, track_from_info_json, InfoError};
use chromia::config::schema::SourcesConfig;
use chromia::library::SourceKind;
use chromia::sources::{
    default_source, derive_file_id, enabled_sources, entry_url, extract_filepath, format_selector,
    parse_search_response, track_from_fields, InfoEntry, JsonField,
};
use chromia::sources::local::LocalSource;
use chromia::sources::soundcloud::SoundcloudSource;
use chromia::sources::youtube::YoutubeSource;

#[test]
fn parses_search_response() {
    let json = r#"{
        "entries": [
            {
                "id": "abc123",
                "title": "First Track",
                "url": "https://www.youtube.com/watch?v=abc123",
                "duration": 214,
                "channel": "Channel One"
            },
            {
                "id": "def456",
                "title": "Second Track",
                "duration": 95.5,
                "uploader": "Uploader Two"
            }
        ]
    }"#;
    let tracks = parse_search_response(json, SourceKind::Youtube);
    assert_eq!(tracks.len(), 2);
    assert_eq!(tracks[0].source, SourceKind::Youtube);
    assert_eq!(tracks[0].title, "First Track");
    assert_eq!(tracks[0].url.as_deref(), Some("https://www.youtube.com/watch?v=abc123"));
    assert_eq!(tracks[0].artist, "Channel One");
    assert_eq!(tracks[0].duration_ns, 214_000_000_000);
    assert_eq!(tracks[0].album, "YouTube");
    assert_eq!(tracks[1].url.as_deref(), Some("https://www.youtube.com/watch?v=def456"));
    assert_eq!(tracks[1].artist, "Uploader Two");
    assert_eq!(tracks[1].duration_ns, 95_000_000_000);
}

#[test]
fn empty_response_yields_no_tracks() {
    let tracks = parse_search_response("{}", SourceKind::Youtube);
    assert!(tracks.is_empty());
    assert!(parse_search_response("not json", SourceKind::Youtube).is_empty());
}

#[test]
fn parses_soundcloud_search_response() {
    let json = r#"{
        "entries": [
            {
                "id": "123456",
                "title": "SC Track",
                "url": "https://soundcloud.com/artist/track",
                "duration": 180,
                "uploader": "SC Artist"
            }
        ]
    }"#;
    let tracks = parse_search_response(json, SourceKind::Soundcloud);
    assert_eq!(tracks.len(), 1);
    assert_eq!(tracks[0].source, SourceKind::Soundcloud);
    assert_eq!(tracks[0].title, "SC Track");
    assert_eq!(tracks[0].url.as_deref(), Some("https://soundcloud.com/artist/track"));
    assert_eq!(tracks[0].artist, "SC Artist");
    assert_eq!(tracks[0].duration_ns, 180_000_000_000);
    assert_eq!(tracks[0].album, "SoundCloud");
}

#[test]
fn extracts_filepath_from_requested_downloads() {
    let json = r#"{
        "id": "xyz",
        "requested_downloads": [{"filepath": "/tmp/yt-abc123.mp3"}],
        "filepath": "/tmp/ignored.mp3"
    }"#;
    assert_eq!(extract_filepath(json), Some("/tmp/yt-abc123.mp3".to_string()));
}

#[test]
fn falls_back_to_top_level_filepath() {
    let json = r#"{"id": "xyz", "filepath": "/tmp/fallback.webm"}"#;
    assert_eq!(extract_filepath(json), Some("/tmp/fallback.webm".to_string()));
    assert_eq!(extract_filepath("[]"), None);
}

fn entry() -> InfoEntry {
    InfoEntry {
        title: JsonField::Text("T".into()),
        url: JsonField::Missing,
        webpage_url: JsonField::Missing,
        id: JsonField::Text("id9".into()),
        uploader: JsonField::Missing,
        channel: JsonField::Other,
        artist: JsonField::Text("A".into()),
        duration_secs: None,
        thumbnail: JsonField::Text("https://img/x.jpg".into()),
    }
}

#[test]
fn entry_fields_fall_back_in_order() {
    let t = track_from_fields(&entry(), SourceKind::Soundcloud).unwrap();
    assert_eq!(t.url.as_deref(), Some("https://soundcloud.com/id9"));
    // `channel` is present but not a string: it wins over `artist` and gives nothing.
    assert_eq!(t.artist, "");
    assert_eq!(t.duration_ns, 0);
    assert_eq!(t.thumbnail.as_deref(), Some("https://img/x.jpg"));

    let mut e = entry();
    e.url = JsonField::Other;
    e.webpage_url = JsonField::Text("https://ignored".into());
    let t = track_from_fields(&e, SourceKind::Youtube).unwrap();
    assert_eq!(t.url.as_deref(), Some("https://www.youtube.com/watch?v=id9"));

    let mut e = entry();
    e.id = JsonField::Missing;
    assert!(track_from_fields(&e, SourceKind::Youtube).is_none());
    let mut e = entry();
    e.title = JsonField::Other;
    assert!(track_from_fields(&e, SourceKind::Youtube).is_none());
    let mut e = entry();
    e.duration_secs = Some(u64::MAX);
    assert_eq!(track_from_fields(&e, SourceKind::Youtube).unwrap().duration_ns, u64::MAX as u128 * 1_000_000_000);
}

#[test]
fn enabled_and_default_sources_follow_config() {
    let mut config = SourcesConfig::default();
    assert_eq!(enabled_sources(&config), vec![SourceKind::Local, SourceKind::Youtube, SourceKind::Soundcloud]);
    config.enabled = vec!["soundcloud".into(), "spotify".into(), "local".into()];
    assert_eq!(enabled_sources(&config), vec![SourceKind::Soundcloud, SourceKind::Local]);
    assert_eq!(default_source(&config), SourceKind::Local);
    config.default = "youtube".into();
    assert_eq!(default_source(&config), SourceKind::Youtube);
    config.default = "nope".into();
    assert_eq!(default_source(&config), SourceKind::Local);
}

#[test]
fn entry_urls_and_format_selectors() {
    assert_eq!(entry_url(SourceKind::Youtube, "abc"), "https://www.youtube.com/watch?v=abc");
    assert_eq!(entry_url(SourceKind::Soundcloud, "a/b"), "https://soundcloud.com/a/b");
    assert_eq!(entry_url(SourceKind::Local, "abc"), "");
    assert_eq!(format_selector("best"), "bestaudio");
    assert_eq!(format_selector("  "), "bestaudio");
    assert_eq!(format_selector(" 128k "), "bestaudio[abr<=128k]/bestaudio");
}

#[test]
fn file_ids_are_sixteen_hex_digits_and_stable() {
    let a = derive_file_id("https://youtu.be/x");
    assert_eq!(a.len(), 16);
    assert!(a.chars().all(|c| c.is_ascii_hexdigit() && !c.is_ascii_uppercase()));
    assert_eq!(a, derive_file_id("https://youtu.be/x"));
    assert_ne!(a, derive_file_id("https://youtu.be/y"));
}

#[test]
fn sources_keep_their_settings() {
    let yt = YoutubeSource::new("320k", "/cache".into());
    assert_eq!(yt.quality(), "320k");
    assert_eq!(yt.cache_dir(), "/cache");
    let sc = SoundcloudSource::new("best", "/c2".into());
    assert_eq!(sc.quality(), "best");
    assert_eq!(sc.cache_dir(), "/c2");
    let local = LocalSource::new(vec!["~/Music".into()]);
    assert_eq!(local.paths(), &vec!["~/Music".to_string()]);
}

#[test]
fn stream_downloads_and_thumbnails_go_to_the_cache() {
    let id = derive_file_id("https://y/x");
    let args = stream_download_args("https://y/x", "/cache", "yt", "best");
    assert_eq!(
        args,
        vec![
            "--no-playlist".to_string(),
            "-f".into(),
            "bestaudio".into(),
            "-o".into(),
            format!("/cache/yt-{id}.%(ext)s"),
            "--print-json".into(),
            "https://y/x".into(),
        ]
    );
    let (dir, file) = thumbnail_location("https://i/cover.PNG", "/cache");
    assert_eq!(dir, "/cache/thumbnails");
    assert_eq!(file, format!("/cache/thumbnails/{}.png", derive_file_id("https://i/cover.PNG")));
    let (_, file) = thumbnail_location("https://i/cover.gif", "/cache");
    assert!(file.ends_with(".jpg"));
}

#[test]
fn info_replies_make_tracks_or_say_why_not() {
    let ok = track_from_info_json(
        r#"{"title": "Song", "webpage_url": "https://y/w", "uploader": "Up", "duration": 61.9}"#,
        SourceKind::Youtube,
    )
    .unwrap();
    assert_eq!(ok.title, "Song");
    assert_eq!(ok.url.as_deref(), Some("https://y/w"));
    assert_eq!(ok.artist, "Up");
    assert_eq!(ok.duration_ns, 61_000_000_000);
    assert_eq!(ok.album, "YouTube");
    assert_eq!(track_from_info_json("not json", SourceKind::Youtube), Err(InfoError::NotJson));
    assert_eq!(track_from_info_json(r#"{"url": "https://y/w"}"#, SourceKind::Soundcloud), Err(InfoError::Unusable));
}

#[test]
fn searches_ask_yt_dlp_for_a_flat_json_listing() {
    let yt = YoutubeSource::new("best", "/c".into());
    assert_eq!(yt.search_args("daft punk"), vec!["--flat-playlist", "-J", "ytsearch25:daft punk"]);
    let sc = SoundcloudSource::new("128k", "/c".into());
    assert_eq!(sc.search_args("x"), vec!["--flat-playlist", "-J", "scsearch10:x"]);
}
