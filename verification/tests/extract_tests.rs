//! Watch-page extraction: titles and manifest locations.

use oondl::extract::{extract_segment_url, extract_title, extract_video_info, VideoInfo};

const UNSEG: &str = "https://apasfiis.sf.apa.at/dash/cms-austria/123_456_QXB.mp4/manifest.mpd";
const ANY1: &str = "https://apasfiis.sf.apa.at/dash/cms-worldwide/abc-def_QXB.mp4/manifest.mpd";
const ANY2: &str =
    "https://apasfiis.sf.apa.at/dash/cms-worldwide_episodes/ep_01_QXB.mp4/manifest.mpd";
const SEG1: &str = "https://h.apa.at/dash/cms-austria/nnn__s111_x_QXB.mp4/manifest.mpd";
const SEG2: &str = "https://h.apa.at/dash/cms-austria/nnn__s222_y_QXB.mp4/manifest.mpd";

#[test]
fn test_extract_one_manifest_is_unsegmented() {
    let html = format!("<html>... \"{}\" ...</html>", ANY1);
    match extract_video_info(&html).unwrap() {
        VideoInfo::Unsegmented(u) => assert_eq!(u, ANY1),
        VideoInfo::Segmented(_) => panic!("expected an unsegmented video"),
    }
}

#[test]
fn test_extract_two_manifests_are_segmented_in_order() {
    let html = format!("<html>a \"{}\" b \"{}\" c</html>", ANY1, ANY2);
    match extract_video_info(&html).unwrap() {
        VideoInfo::Segmented(v) => assert_eq!(v, vec![ANY1.to_owned(), ANY2.to_owned()]),
        VideoInfo::Unsegmented(_) => panic!("expected a segmented video"),
    }
}

#[test]
fn test_extract_no_manifest_is_an_error() {
    let e = extract_video_info("<html>nothing to see</html>").unwrap_err();
    assert_eq!(e.message(), "could not extract mpd-urls");
}

#[test]
fn test_extract_unsegmented_shape_wins() {
    // the digit-shaped manifest is preferred over other manifests around it
    let html = format!("<html>\"{}\" and \"{}\"</html>", ANY1, UNSEG);
    match extract_video_info(&html).unwrap() {
        VideoInfo::Unsegmented(u) => assert_eq!(u, UNSEG),
        VideoInfo::Segmented(_) => panic!("expected the unsegmented manifest"),
    }
}

#[test]
fn test_extract_segment_url() {
    let html = format!("<html>\"{}\" \"{}\"</html>", SEG1, SEG2);
    assert_eq!(extract_segment_url(&html, "222").unwrap(), SEG2);
    assert_eq!(extract_segment_url(&html, "111").unwrap(), SEG1);
}

#[test]
fn test_extract_segment_url_no_match() {
    let html = format!("<html>\"{}\"</html>", SEG1);
    let e = extract_segment_url(&html, "333").unwrap_err();
    assert_eq!(e.message(), "could not extract segment url");
}

#[test]
fn test_extract_title() {
    let html = "<html><head>\n<meta property=\"og:title\" content=\"ZIB 1 vom 08.05.2024\">\n</head><body></body></html>";
    assert_eq!(extract_title(html).unwrap(), "ZIB 1 vom 08.05.2024");
}

#[test]
fn test_extract_title_escaped() {
    let html = "<html><head>\n<meta property=\"og:title\" content=\"ORF-Hilfsaktion &quot;Leute helfen Leuten&quot; - heute\">\n</head></html>";
    assert_eq!(
        extract_title(html).unwrap(),
        "ORF-Hilfsaktion \"Leute helfen Leuten\" - heute"
    );
}

#[test]
fn test_extract_title_missing() {
    let e = extract_title("<html><head></head></html>").unwrap_err();
    assert_eq!(e.message(), "could not extract title");
}
