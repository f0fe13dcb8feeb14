use chromia::lyrics::lrclib::{lrclib_record, lyrics_query, reply_status, ReplyStatus};
use chromia::lyrics::lrclib::{active_line, lrc_fits, lyrics_from_record, parse_lrc, LyricLine};

#[test]
fn parses_realistic_lrc() {
    let lrc = "[ti:Never Gonna Give You Up]\n\
[ar:Rick Astley]\n\
[al:Whenever You Need Somebody]\n\
[length:03:33]\n\
[00:12.00]We're no strangers to love\n\
[00:15.50]You know the rules and so do I\n\
[00:18.20][00:24.00]A full commitment's what I'm thinking of\n\
[00:27.50]You wouldn't get this from any other guy\n\
[01:02]I just wanna tell you how I'm feeling\n";
    let lines = parse_lrc(lrc);
    assert_eq!(lines.len(), 6);

    let first = &lines[0];
    assert_eq!(first.time_ms, 12_000);
    assert_eq!(first.text, "We're no strangers to love");

    assert_eq!(lines[2].time_ms, 18_200);
    assert_eq!(lines[2].text, "A full commitment's what I'm thinking of");
    assert_eq!(lines[3].time_ms, 24_000);
    assert_eq!(lines[3].text, "A full commitment's what I'm thinking of");
    assert_eq!(lines[5].time_ms, 62_000);
    assert_eq!(lines[5].text, "I just wanna tell you how I'm feeling");
}

#[test]
fn ignores_metadata_and_blank_lines() {
    let lrc = "[ar:Some Artist]\n\n[00:01.00]First line\n";
    let lines = parse_lrc(lrc);
    assert_eq!(lines.len(), 1);
    assert_eq!(lines[0].time_ms, 1_000);
    assert_eq!(lines[0].text, "First line");
}

#[test]
fn out_of_order_lines_come_out_sorted_by_time_then_text() {
    let lrc = "[00:05.00]b\r\n[00:01.5]later\n[00:05]a\n[00:00.123456]first";
    let lines = parse_lrc(lrc);
    let got: Vec<(u64, &str)> = lines.iter().map(|l| (l.time_ms, l.text.as_str())).collect();
    assert_eq!(got, vec![(123, "first"), (1_500, "later"), (5_000, "a"), (5_000, "b")]);
}

#[test]
fn fraction_digits_are_milliseconds() {
    let lines = parse_lrc("[01:02.5]x\n[00:00.07]y\n[ 2 : 3 ]z");
    let got: Vec<(u64, &str)> = lines.iter().map(|l| (l.time_ms, l.text.as_str())).collect();
    assert_eq!(got, vec![(70, "y"), (62_500, "x"), (123_000, "z")]);
}

#[test]
fn plain_lyrics_become_one_line_at_zero() {
    let lyrics = lyrics_from_record(None, Some("la la la")).unwrap();
    assert_eq!(lyrics.lines, vec![LyricLine { time_ms: 0, text: "la la la".to_string() }]);
    assert_eq!(lyrics.plain.as_deref(), Some("la la la"));
    assert!(lyrics_from_record(None, None).is_none());
    let synced = lyrics_from_record(Some("[00:02]two\n[00:01]one"), Some("p")).unwrap();
    assert_eq!(synced.lines.len(), 2);
    assert_eq!(synced.lines[0].text, "one");
    assert_eq!(synced.plain.as_deref(), Some("p"));
}

#[test]
fn active_line_is_the_last_one_started() {
    let lines = parse_lrc("[00:01]a\n[00:03]b\n[00:05]c");
    assert_eq!(active_line(&lines, 0), None);
    assert_eq!(active_line(&lines, 1_000), Some(0));
    assert_eq!(active_line(&lines, 4_999), Some(1));
    assert_eq!(active_line(&lines, 60_000), Some(2));
    assert_eq!(active_line(&[], 10), None);
}

#[test]
fn lrclib_queries_and_replies() {
    let q = lyrics_query("Rick", "Song", "Album", 213);
    let q: Vec<(&str, &str)> = q.iter().map(|(k, v)| (k.as_str(), v.as_str())).collect();
    assert_eq!(q, vec![("artist", "Rick"), ("track_name", "Song"), ("album_name", "Album"), ("duration", "213")]);
    assert_eq!(reply_status(200), ReplyStatus::Found);
    assert_eq!(reply_status(404), ReplyStatus::NotFound);
    assert_eq!(reply_status(500), ReplyStatus::Failed);
}

#[test]
fn timestamps_beyond_u64_milliseconds_do_not_fit() {
    assert!(lrc_fits("[00:12.00]a\n[03:33.50]b\nplain"));
    assert!(lrc_fits("[307445734561826:00.00]minutes saturate"));
    assert!(!lrc_fits("[307445734561826:00.50]saturated minutes plus a fraction"));
    assert!(!lrc_fits("[00:01.00]ok\n[1:18446744073709552]too far"));
}

#[test]
fn lrclib_records_give_their_lyric_fields() {
    let body = r#"{"id": 3, "syncedLyrics": "[00:01.00]hi", "plainLyrics": "hi"}"#;
    assert_eq!(lrclib_record(body), Some((Some("[00:01.00]hi".to_string()), Some("hi".to_string()))));
    assert_eq!(lrclib_record(r#"{"syncedLyrics": null, "plainLyrics": "p"}"#), Some((None, Some("p".to_string()))));
    assert_eq!(lrclib_record("<html>"), None);
}

#[test]
fn the_highlight_only_moves_forward() {
    let lines = parse_lrc("[00:03.00]c\n[00:01.00]a\n[00:02.00]b\n[00:02.00]a");
    let mut last: Option<usize> = None;
    for pos in [0u64, 999, 1_000, 1_500, 2_000, 2_999, 3_000, 60_000] {
        let now = active_line(&lines, pos);
        if let Some(before) = last {
            assert!(now.unwrap() >= before);
        }
        last = now.or(last);
        assert_eq!(now.is_some(), pos >= 1_000);
    }
    assert_eq!(active_line(&lines, 2_500), Some(2));
}
