//! Destination naming, collision handling, and the mux argument contract.

use oondl::paths::{check_mp4_path, concat_args, concat_list, dest_file_stem, mux_args,
    segment_file_name};

#[test]
fn test_check_mp4_path() {
    let existing: Vec<String> = vec![];
    let p = check_mp4_path("foo", &existing).unwrap();
    assert_eq!(p, "foo.mp4");
}

#[test]
fn test_check_mp4_path_file_exists() {
    let existing = vec!["foo.mp4".to_owned()];
    let p = check_mp4_path("foo", &existing).unwrap();
    assert_eq!(p, "foo_(1).mp4");
}

#[test]
fn test_check_mp4_path_2_files_exist() {
    let existing = vec!["foo.mp4".to_owned(), "foo_(1).mp4".to_owned()];
    let p = check_mp4_path("foo", &existing).unwrap();
    assert_eq!(p, "foo_(2).mp4");
}

#[test]
fn test_check_mp4_path_256_files_exist() {
    let mut existing = vec!["foo.mp4".to_owned()];
    for n in 1..=255 {
        existing.push(format!("foo_({}).mp4", n));
    }
    let e = check_mp4_path("foo", &existing).unwrap_err();
    assert_eq!(e.message(), "error writing to file: entity already exists");
}

#[test]
fn test_check_mp4_path_gap_is_taken() {
    // only the plain name and the second suffix exist: the first suffix wins
    let existing = vec!["foo.mp4".to_owned(), "foo_(2).mp4".to_owned()];
    let p = check_mp4_path("foo", &existing).unwrap();
    assert_eq!(p, "foo_(1).mp4");
}

#[test]
fn test_dest_file_stem() {
    assert_eq!(dest_file_stem("a b", "1"), "a_b_1");
    // a path separator in a title is no longer one in the file name
    assert_eq!(dest_file_stem("a/b", "1"), "a_b_1");
}

#[test]
fn test_segment_file_name() {
    assert_eq!(segment_file_name(0), "0.mp4");
    assert_eq!(segment_file_name(12), "12.mp4");
}

#[test]
fn test_concat_list() {
    assert_eq!(concat_list(0), "");
    assert_eq!(concat_list(2), "file '0.mp4'\nfile '1.mp4'\n");
}

#[test]
fn test_mux_args() {
    assert_eq!(
        mux_args("/t/video.mp4", "/t/audio.mp4", "/d/out.mp4"),
        vec![
            "-i".to_owned(),
            "/t/video.mp4".to_owned(),
            "-i".to_owned(),
            "/t/audio.mp4".to_owned(),
            "-codec".to_owned(),
            "copy".to_owned(),
            "-map".to_owned(),
            "0:v".to_owned(),
            "-map".to_owned(),
            "1:a".to_owned(),
            "/d/out.mp4".to_owned(),
        ]
    );
}

#[test]
fn test_concat_args() {
    assert_eq!(
        concat_args("/d/out.mp4"),
        vec![
            "-f".to_owned(),
            "concat".to_owned(),
            "-i".to_owned(),
            "concat.txt".to_owned(),
            "-codec".to_owned(),
            "copy".to_owned(),
            "/d/out.mp4".to_owned(),
        ]
    );
}
