use mass_dvd_backup::export::{filter_expression, output_path, u64_to_string};
use mass_dvd_backup::monitor::{eject_on_startup, step, wait_for_tray, DriveState, MonitorState};
use mass_dvd_backup::names::{classify_entry, file_stem_of, is_stream_file, track_name, EntryKind};
use mass_dvd_backup::tracks::TrackMap;

#[test]
fn key_before_last_underscore() {
    let (key, flagged) = track_name("title_01.vob");
    assert_eq!(key, "title");
    assert!(flagged);
    let (key, flagged) = track_name("my_movie_part_2.vob");
    assert_eq!(key, "my_movie_part");
    assert!(flagged);
}

#[test]
fn key_without_underscore_is_whole_stem() {
    let (key, flagged) = track_name("menu.vob");
    assert_eq!(key, "menu");
    assert!(!flagged);
}

#[test]
fn key_ignores_directories_and_extension() {
    let (key, flagged) = track_name("/tmp/stage/VIDEO_TS/VTS_01_1.VOB");
    assert_eq!(key, "VTS_01");
    assert!(flagged);
}

#[test]
fn key_of_trailing_underscore_is_empty() {
    let (key, flagged) = track_name("part_.vob");
    assert_eq!(key, "part");
    assert!(flagged);
    let (key, flagged) = track_name("_.vob");
    assert_eq!(key, "");
    assert!(flagged);
}

#[test]
fn stem_handles_dots() {
    assert_eq!(file_stem_of("a.b.vob"), "a.b");
    assert_eq!(file_stem_of(".hidden"), ".hidden");
    assert_eq!(file_stem_of("plain"), "plain");
    assert_eq!(file_stem_of("trailing."), "trailing");
}

#[test]
fn stream_extension_is_case_insensitive() {
    assert!(is_stream_file("feature_1.vob"));
    assert!(is_stream_file("feature_1.VOB"));
    assert!(is_stream_file("feature_1.Vob"));
    assert!(!is_stream_file("poster.jpg"));
    assert!(!is_stream_file("novob"));
    assert!(!is_stream_file(".vob"));
    assert!(!is_stream_file("archive.vob.bak"));
}

#[test]
fn classification_of_entries() {
    assert_eq!(classify_entry("feature_1.vob", false), EntryKind::Stream);
    assert_eq!(classify_entry("poster.jpg", false), EntryKind::Plain);
    assert_eq!(classify_entry("VIDEO_TS", true), EntryKind::Directory);
    // a directory whose name looks like a stream file is still a directory
    assert_eq!(classify_entry("odd.vob", true), EntryKind::Directory);
}

#[test]
fn grouping_by_key() {
    let mut map = TrackMap::new();
    assert!(map.push(String::from("a_1.vob"), 10));
    assert!(map.push(String::from("a_2.vob"), 20));
    assert!(map.push(String::from("b_1.vob"), 5));
    assert_eq!(map.tracks.len(), 2);
    assert_eq!(map.tracks[0].key, "a");
    assert_eq!(map.tracks[0].files, vec!["a_1.vob", "a_2.vob"]);
    assert_eq!(map.tracks[1].key, "b");
    assert_eq!(map.tracks[1].files, vec!["b_1.vob"]);
}

#[test]
fn sizes_accumulate() {
    let mut map = TrackMap::new();
    assert!(map.push(String::from("a_1.vob"), 100));
    assert!(map.push(String::from("a_2.vob"), 200));
    assert_eq!(map.tracks[0].bytes, 300);
}

#[test]
fn unreadable_size_contributes_zero() {
    let mut map = TrackMap::new();
    assert!(map.push(String::from("a_1.vob"), 100));
    // a file whose size could not be read is inserted with zero bytes
    assert!(map.push(String::from("a_2.vob"), 0));
    assert_eq!(map.tracks[0].bytes, 100);
    assert_eq!(map.tracks[0].files.len(), 2);
}

#[test]
fn overflowing_size_is_refused() {
    let mut map = TrackMap::new();
    assert!(map.push(String::from("a_1.vob"), u64::MAX));
    assert!(!map.push(String::from("a_2.vob"), 1));
    assert_eq!(map.tracks.len(), 1);
    assert_eq!(map.tracks[0].files.len(), 1);
    assert_eq!(map.tracks[0].bytes, u64::MAX);
}

#[test]
fn largest_track_is_selected() {
    let mut map = TrackMap::new();
    assert!(map.push(String::from("a_1.vob"), 100));
    assert!(map.push(String::from("b_1.vob"), 500));
    assert!(map.push(String::from("c_1.vob"), 300));
    let (key, track) = map.take_largest().expect("a main track");
    assert_eq!(key, "b");
    assert_eq!(track.bytes, 500);
    assert_eq!(map.tracks.len(), 2);
    assert_eq!(map.tracks[0].key, "a");
    assert_eq!(map.tracks[1].key, "c");
}

#[test]
fn empty_registry_has_no_main_track() {
    let mut map = TrackMap::new();
    assert!(map.take_largest().is_none());
    assert_eq!(map.tracks.len(), 0);
    let plan = TrackMap::new().export_plan(String::from("disc"));
    assert!(plan.is_empty());
}

#[test]
fn ties_go_to_the_earliest_track() {
    let mut map = TrackMap::new();
    assert!(map.push(String::from("a_1.vob"), 300));
    assert!(map.push(String::from("b_1.vob"), 300));
    let (key, _track) = map.take_largest().expect("a main track");
    assert_eq!(key, "a");
}

#[test]
fn debounce_requires_second_empty() {
    let tray_open = DriveState::TrayOpen;
    let not_ready = DriveState::NotReady;
    let empty = DriveState::Empty;
    let loaded = DriveState::Loaded;
    // the wait must not end on the first empty reading
    assert_eq!(wait_for_tray(&vec![tray_open, empty, tray_open]), None);
    assert_eq!(wait_for_tray(&vec![tray_open, empty, tray_open, empty]), Some(empty));
    // a loaded reading ends the wait at once
    assert_eq!(wait_for_tray(&vec![empty, loaded]), Some(loaded));
    assert_eq!(wait_for_tray(&vec![loaded]), Some(loaded));
    // settling readings change nothing
    assert_eq!(wait_for_tray(&vec![tray_open, not_ready, not_ready]), None);
    assert_eq!(wait_for_tray(&vec![not_ready, empty, not_ready, empty]), Some(empty));
}

#[test]
fn step_keeps_debounce_state() {
    let s0 = MonitorState::start();
    let (s1, out) = step(s0, DriveState::TrayOpen);
    assert_eq!(out, None);
    assert!(!s1.seen_empty);
    let (s2, out) = step(s1, DriveState::Empty);
    assert_eq!(out, None);
    assert!(s2.seen_empty);
    let (s3, out) = step(s2, DriveState::NotReady);
    assert_eq!(out, None);
    assert!(s3.seen_empty);
    let (_s4, out) = step(s3, DriveState::Empty);
    assert_eq!(out, Some(DriveState::Empty));
}

#[test]
fn startup_eject_decision() {
    assert!(!eject_on_startup(Some(DriveState::TrayOpen)));
    assert!(!eject_on_startup(Some(DriveState::Loaded)));
    assert!(eject_on_startup(Some(DriveState::Empty)));
    assert!(eject_on_startup(Some(DriveState::NotReady)));
    assert!(eject_on_startup(None));
}

#[test]
fn decimal_formatting() {
    assert_eq!(u64_to_string(0), "0");
    assert_eq!(u64_to_string(7), "7");
    assert_eq!(u64_to_string(10), "10");
    assert_eq!(u64_to_string(12345), "12345");
    assert_eq!(u64_to_string(u64::MAX), "18446744073709551615");
}

#[test]
fn filter_graph_expression() {
    assert_eq!(filter_expression(1), "[0:v][0:a]concat=n=1:v=1:a=1[v][a]");
    assert_eq!(
        filter_expression(2),
        "[0:v][0:a][1:v][1:a]concat=n=2:v=1:a=1[v][a]"
    );
    assert_eq!(
        filter_expression(3),
        "[0:v][0:a][1:v][1:a][2:v][2:a]concat=n=3:v=1:a=1[v][a]"
    );
}

#[test]
fn output_path_appends_or_replaces_extension() {
    assert_eq!(output_path("/out", "movie", "mp4"), "/out/movie.mp4");
    assert_eq!(output_path("/out/", "movie", "mp4"), "/out/movie.mp4");
    assert_eq!(output_path("/out", "movie.avi", "mp4"), "/out/movie.mp4");
    assert_eq!(output_path("", "movie", "mp4"), "movie.mp4");
}

#[test]
fn output_path_touches_only_the_final_component() {
    // a dot inside a directory component is not an extension
    assert_eq!(output_path("/out", "a.b/c", "mp4"), "/out/a.b/c.mp4");
    assert_eq!(output_path("/out", "a.b/c.avi", "mp4"), "/out/a.b/c.mp4");
    // an absolute name stands on its own, as a path join would leave it
    assert_eq!(output_path("/out", "/abs/name.avi", "mp4"), "/abs/name.mp4");
}

#[test]
fn transcoder_invocation_for_one_track() {
    let mut map = TrackMap::new();
    assert!(map.push(String::from("/stage/feature_1.vob"), 700));
    assert!(map.push(String::from("/stage/feature_2.vob"), 800));
    let (_key, track) = map.take_largest().expect("a main track");
    let args = track.ffmpeg_args("night of the disc", "/out/video", "mp4");
    assert_eq!(
        args,
        vec![
            "-i",
            "/stage/feature_1.vob",
            "-i",
            "/stage/feature_2.vob",
            "-filter_complex",
            "[0:v][0:a][1:v][1:a]concat=n=2:v=1:a=1[v][a]",
            "-map",
            "[v]",
            "-map",
            "[a]",
            "-vcodec",
            "h264_nvenc",
            "-preset",
            "medium",
            "/out/video/night of the disc.mp4",
            "-hide_banner",
        ]
    );
}

#[test]
fn end_to_end_disc_scenario() {
    // staged input: menu.vob, feature_1.vob, feature_2.vob, poster.jpg
    let entries = [
        ("menu.vob", false, 400u64),
        ("feature_1.vob", false, 300u64),
        ("feature_2.vob", false, 350u64),
        ("poster.jpg", false, 9u64),
    ];
    let mut map = TrackMap::new();
    let mut copied: Vec<&str> = Vec::new();
    for (name, is_dir, size) in entries {
        match classify_entry(name, is_dir) {
            EntryKind::Stream => {
                assert!(map.push(String::from(name), size));
            }
            EntryKind::Directory => unreachable!("no subdirectories staged"),
            EntryKind::Plain => copied.push(name),
        }
    }
    assert_eq!(copied, vec!["poster.jpg"]);
    assert_eq!(map.tracks.len(), 2);

    let plan = map.export_plan(String::from("disc name"));
    // the exporter runs exactly once per track, main title first
    assert_eq!(plan.len(), 2);
    assert_eq!(plan[0].0, "disc name");
    assert_eq!(plan[0].1.files, vec!["feature_1.vob", "feature_2.vob"]);
    assert_eq!(plan[1].0, "menu");
    assert_eq!(plan[1].1.files, vec!["menu.vob"]);

    let feature_args = plan[0].1.ffmpeg_args(&plan[0].0, "/out", "mp4");
    let i_args: Vec<&str> = feature_args
        .iter()
        .zip(feature_args.iter().skip(1))
        .filter(|(flag, _)| flag.as_str() == "-i")
        .map(|(_, value)| value.as_str())
        .collect();
    assert_eq!(i_args, vec!["feature_1.vob", "feature_2.vob"]);
    assert!(feature_args.contains(&String::from(
        "[0:v][0:a][1:v][1:a]concat=n=2:v=1:a=1[v][a]"
    )));
    let menu_args = plan[1].1.ffmpeg_args(&plan[1].0, "/out", "mp4");
    assert!(menu_args.contains(&String::from("[0:v][0:a]concat=n=1:v=1:a=1[v][a]")));
}
