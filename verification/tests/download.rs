use chromia::download::{
    download_args, parse_download_line, DownloadLine, DownloadRequest, DownloadScheduler, MAX_CONCURRENT_DOWNLOADS,
};
use chromia::library::{SourceKind, Track};

fn request(url: Option<&str>) -> DownloadRequest {
    let mut track = Track::new_remote(SourceKind::Youtube, url.unwrap_or("").to_string(), "Song".into());
    if url.is_none() {
        track.url = None;
    }
    DownloadRequest { track, destination_dir: "/tmp/Music".into(), quality: "320k".into() }
}

#[test]
fn parses_progress_lines() {
    assert_eq!(parse_download_line("download:45.2%"), Some(DownloadLine::Progress("45.2".into())));
    assert_eq!(parse_download_line("download:100.0%\r"), Some(DownloadLine::Progress("100.0".into())));
    assert!(parse_download_line("download:not-a-number").is_none());
}

#[test]
fn progress_figures_must_read_as_numbers() {
    for figure in ["7", "7.", ".5", "-3.25", "+1e3", "2.5E-2", "inf", "-Infinity", "NaN", "  45 %"] {
        let line = format!("download:{figure}");
        assert!(
            matches!(parse_download_line(&line), Some(DownloadLine::Progress(_))),
            "{figure}"
        );
        let stripped = figure.trim().trim_end_matches('%').trim();
        assert!(stripped.parse::<f32>().is_ok(), "{figure}");
    }
    for figure in [".", "", "1.2.3", "e5", "1e", "1e+", "--1", "12a", "infin", "1 2", "N/A"] {
        let line = format!("download:{figure}");
        assert_eq!(parse_download_line(&line), None, "{figure}");
        let stripped = figure.trim_end_matches('%').trim();
        assert!(stripped.parse::<f32>().is_err(), "{figure}");
    }
}

#[test]
fn parses_filepath_lines() {
    assert_eq!(
        parse_download_line("filepath:/tmp/Music/Song.webm"),
        Some(DownloadLine::FilePath("/tmp/Music/Song.webm".into()))
    );
    assert_eq!(parse_download_line("filepath:"), None);
}

#[test]
fn ignores_noise() {
    assert_eq!(parse_download_line("[youtube] Extracting URL: x"), None);
    assert_eq!(parse_download_line(""), None);
}

#[test]
fn progress_keeps_inner_spaces_trimmed() {
    assert_eq!(parse_download_line("  download:  7.5 %%  "), Some(DownloadLine::Progress("7.5".into())));
}

#[test]
fn download_args_need_a_url() {
    assert_eq!(download_args(&request(None), "/tmp/Music/%(title).%(ext)s"), None);
    let args = download_args(&request(Some("https://youtu.be/x")), "/tmp/Music/%(title).%(ext)s").unwrap();
    assert_eq!(
        args,
        vec![
            "--no-playlist",
            "-f",
            "bestaudio[abr<=320k]/bestaudio",
            "-o",
            "/tmp/Music/%(title).%(ext)s",
            "--progress",
            "--newline",
            "--progress-template",
            "download:%(progress._percent_str)s",
            "--print",
            "after_download:filepath:%(filepath)s",
            "https://youtu.be/x",
        ]
    );
}

#[test]
fn scheduler_runs_at_most_three_and_starts_waiting_ones_in_order() {
    let mut s = DownloadScheduler::new();
    let mut started = Vec::new();
    for id in 1..=5u64 {
        if let Some((i, _)) = s.enqueue(id, request(Some("u"))) {
            started.push(i);
        }
    }
    assert_eq!(started, vec![1, 2, 3]);
    assert_eq!(MAX_CONCURRENT_DOWNLOADS, 3);
    assert_eq!(s.finished().map(|(i, _)| i), Some(4));
    assert_eq!(s.finished().map(|(i, _)| i), Some(5));
    assert_eq!(s.finished().map(|(i, _)| i), None);
}

#[test]
fn cancel_reaches_started_downloads_once() {
    let mut s = DownloadScheduler::new();
    s.enqueue(1, request(Some("u")));
    assert!(s.cancel(1));
    assert!(!s.cancel(1));
    assert!(!s.cancel(42));
}
