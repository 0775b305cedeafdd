use apex_tux::Area;
use apex_tux::Coord;
use apex_tux::FrameBuffer;
use apex_tux::MediaPlayerBuilder;
use apex_tux::MediaPlayerRenderer;
use apex_tux::MetadataError;
use apex_tux::PixelUpdate;
use apex_tux::PlaybackStatus;
use apex_tux::ScrollableBuilder;
use apex_tux::StatefulScrollable;
use apex_tux::mpris::BadPlaybackStatus;
use apex_tux::mpris::Metadata;
use apex_tux::mpris::find_active;
use apex_tux::mpris::find_preferred;
use apex_tux::mpris::parse_playback_status;
use apex_tux::music::progress_cols;

#[test]
fn progress_bar_is_the_completed_fraction_of_122_columns() {
    assert_eq!(progress_cols(0, 100), 0);
    assert_eq!(progress_cols(50, 100), 61);
    assert_eq!(progress_cols(1, 3), 40);
    assert_eq!(progress_cols(100, 100), 122);
    assert_eq!(progress_cols(150, 100), 122);
    assert_eq!(progress_cols(-5, 100), 0);
    assert_eq!(progress_cols(5, 0), 0);
}

#[test]
fn metadata_joins_artists_with_commas() {
    let m = Metadata {
        title: Some("Song".to_string()),
        artists: Some(vec!["A".to_string(), "B".to_string(), "C".to_string()]),
        length: Some(1000),
    };
    assert_eq!(m.artists().unwrap(), "A, B, C");
    assert_eq!(m.title().unwrap(), "Song");
    assert_eq!(m.length().unwrap(), 1000);
    assert_eq!(m.length_().unwrap(), 1000);
}

#[test]
fn missing_metadata_fields_are_reported() {
    let m = Metadata { title: None, artists: None, length: None };
    assert_eq!(m.title().unwrap_err(), MetadataError::MissingTitle);
    assert_eq!(m.artists().unwrap_err(), MetadataError::MissingArtists);
    assert_eq!(m.length().unwrap_err(), MetadataError::MissingLength);
}

#[test]
fn playback_status_strings_parse_exactly() {
    assert_eq!(parse_playback_status("Playing").unwrap(), PlaybackStatus::Playing);
    assert_eq!(parse_playback_status("Paused").unwrap(), PlaybackStatus::Paused);
    assert_eq!(parse_playback_status("Stopped").unwrap(), PlaybackStatus::Stopped);
    assert_eq!(parse_playback_status("playing").unwrap_err(), BadPlaybackStatus);
    assert_eq!(parse_playback_status("").unwrap_err(), BadPlaybackStatus);
}

#[test]
fn preferred_player_is_found_by_substring() {
    let names = vec![
        "org.mpris.MediaPlayer2.firefox".to_string(),
        "org.mpris.MediaPlayer2.vlc".to_string(),
    ];
    assert_eq!(find_preferred(&names, "vlc"), Some(1));
    assert_eq!(find_preferred(&names, "firefox"), Some(0));
    assert_eq!(find_preferred(&names, "spotify"), None);
    assert_eq!(find_preferred(&names, ""), Some(0));
}

#[test]
fn first_playing_or_paused_player_wins() {
    assert_eq!(
        find_active(&vec![PlaybackStatus::Stopped, PlaybackStatus::Paused, PlaybackStatus::Playing]),
        Some(1)
    );
    assert_eq!(find_active(&vec![PlaybackStatus::Playing]), Some(0));
    assert_eq!(find_active(&vec![PlaybackStatus::Stopped, PlaybackStatus::Stopped]), None);
    assert_eq!(find_active(&vec![]), None);
}

#[test]
fn builder_keeps_the_player_preference() {
    let b = MediaPlayerBuilder::new();
    assert!(b.name.is_none());
    let b = b.with_player_name("spotify");
    assert_eq!(b.name.unwrap(), "spotify");
}

fn line(text: &str, y: i32) -> StatefulScrollable {
    let builder = ScrollableBuilder::new()
        .with_text(text)
        .with_custom_spacing(10)
        .with_position(Coord { x: 32, y })
        .with_projection(Area { width: 96, height: 10 });
    StatefulScrollable::from_builder(builder, &vec![]).unwrap()
}

fn renderer() -> MediaPlayerRenderer {
    MediaPlayerRenderer::new(
        line("Unknown artist", 13),
        line("Unknown title", 3),
        FrameBuffer::new(),
        FrameBuffer::new(),
    )
}

#[test]
fn update_lights_the_progress_bar_rows() {
    let mut r = renderer();
    let frame = r.update(
        PlaybackStatus::Playing,
        50,
        100,
        "Unknown artist",
        "Unknown title",
        &vec![],
        &vec![],
    );
    // Half the track: columns 3 ..= 64 of rows 34-36 are lit.
    assert!(frame.read_pixel(3, 35));
    assert!(frame.read_pixel(64, 34));
    assert!(frame.read_pixel(64, 36));
    assert!(!frame.read_pixel(65, 35));
    assert!(!frame.read_pixel(2, 35));
}

#[test]
fn unchanged_long_text_scrolls_one_column_per_update() {
    let mut r = renderer();
    // Both default lines are over 16 bytes? "Unknown title" is 13: static.
    // "Unknown artist" is 14: static too, so nothing scrolls.
    r.update(PlaybackStatus::Paused, 0, 1, "Unknown artist", "Unknown title", &vec![], &vec![]);
    assert_eq!(r.artist.text.scroll, 0);
    // A changed, longer artist line rebuilds, then scrolls on repeats.
    let long = "A very long artist name";
    let glyphs: Vec<PixelUpdate> = vec![PixelUpdate { x: 0, y: 0, on: true }];
    r.update(PlaybackStatus::Paused, 0, 1, long, "Unknown title", &glyphs, &vec![]);
    assert_eq!(r.artist.text.scroll, 0);
    r.update(PlaybackStatus::Paused, 0, 1, long, "Unknown title", &glyphs, &vec![]);
    assert_eq!(r.artist.text.scroll, 1);
    r.update(PlaybackStatus::Paused, 0, 1, long, "Unknown title", &glyphs, &vec![]);
    assert_eq!(r.artist.text.scroll, 2);
}

#[test]
fn update_windows_the_title_onto_the_frame() {
    let mut r = renderer();
    let glyphs = vec![PixelUpdate { x: 0, y: 0, on: true }];
    let frame = r.update(
        PlaybackStatus::Playing,
        0,
        1,
        "Unknown artist",
        "Some new title",
        &vec![],
        &glyphs,
    );
    // The rebuilt title line shows its first canvas column at (32, 3).
    assert!(frame.read_pixel(32, 3));
}
