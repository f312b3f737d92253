use sonora::display::{fmt_duration, fmt_duration_u64};

#[test]
fn unknown_duration_is_a_dash() {
    assert_eq!(fmt_duration(None), "-");
}

#[test]
fn durations_format_as_minutes_and_seconds() {
    assert_eq!(fmt_duration(Some(0)), "0:00");
    assert_eq!(fmt_duration(Some(999)), "0:00");
    assert_eq!(fmt_duration(Some(59_999)), "0:59");
    assert_eq!(fmt_duration(Some(61_000)), "1:01");
    assert_eq!(fmt_duration(Some(185_000)), "3:05");
    assert_eq!(fmt_duration(Some(600_000)), "10:00");
}

#[test]
fn long_durations_keep_whole_minutes() {
    assert_eq!(fmt_duration_u64(3_600_000), "60:00");
    assert_eq!(fmt_duration_u64(3_661_000), "61:01");
}

#[test]
fn track_line_formats_known_fields() {
    let mut t = sonora::track::empty_row("music/albums/song.mp3".to_string());
    t.track_no = Some(3);
    t.artist = Some("Some Artist".to_string());
    t.title = Some("A Song".to_string());
    t.album = Some("An Album".to_string());
    assert_eq!(
        sonora::display::format_track_one_line(&t),
        "#3 — Some Artist — A Song (An Album)"
    );
}

#[test]
fn track_line_falls_back_per_field() {
    let t = sonora::track::empty_row("music/albums/song.mp3".to_string());
    assert_eq!(
        sonora::display::format_track_one_line(&t),
        "#?? — Unknown Artist — song (Unknown Album)"
    );
}
