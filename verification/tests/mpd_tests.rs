//! Manifest resolution: quality selection and timeline expansion.

use oondl::models::Quality;
use oondl::mpd::{get_urls, node_not_found};

const BASE: &str = "http://example.com/123/abc/321/manifest.mpd";

fn test_mpd() -> String {
    "<?xml version=\"1.0\" encoding=\"utf-8\"?>\n<MPD xmlns=\"urn:mpeg:dash:schema:mpd:2011\">\n  <Period>\n    <AdaptationSet mimeType=\"video/mp4\">\n      <Representation id=\"v_low\" bandwidth=\"100\"/>\n      <Representation id=\"v_mid\" bandwidth=\"500\"/>\n      <Representation id=\"v_high\" bandwidth=\"900\"/>\n      <SegmentTemplate initialization=\"init_$RepresentationID$.mp4\" media=\"seg_$RepresentationID$_$Time$.m4s\">\n        <SegmentTimeline>\n          <S t=\"0\" d=\"10\" r=\"2\"/>\n          <S d=\"5\"/>\n        </SegmentTimeline>\n      </SegmentTemplate>\n    </AdaptationSet>\n    <AdaptationSet mimeType=\"audio/mp4\">\n      <Representation id=\"a1\" bandwidth=\"64\"/>\n      <SegmentTemplate initialization=\"ainit_$RepresentationID$.mp4\" media=\"aseg_$RepresentationID$_$Time$.m4s\">\n        <SegmentTimeline>\n          <S d=\"7\"/>\n        </SegmentTimeline>\n      </SegmentTemplate>\n    </AdaptationSet>\n  </Period>\n</MPD>\n"
    .to_owned()
}

#[test]
fn test_mpd_low_picks_min_bandwidth() {
    let m = get_urls(BASE, &test_mpd(), Quality::Low).unwrap();
    assert_eq!(
        m.video,
        vec![
            "http://example.com/123/abc/321/init_v_low.mp4".to_owned(),
            "http://example.com/123/abc/321/seg_v_low_0.m4s".to_owned(),
            "http://example.com/123/abc/321/seg_v_low_10.m4s".to_owned(),
            "http://example.com/123/abc/321/seg_v_low_20.m4s".to_owned(),
            "http://example.com/123/abc/321/seg_v_low_30.m4s".to_owned(),
        ]
    );
    assert_eq!(
        m.audio,
        vec![
            "http://example.com/123/abc/321/ainit_a1.mp4".to_owned(),
            "http://example.com/123/abc/321/aseg_a1_0.m4s".to_owned(),
        ]
    );
}

#[test]
fn test_mpd_high_picks_max_bandwidth() {
    let m = get_urls(BASE, &test_mpd(), Quality::High).unwrap();
    assert_eq!(m.video[0], "http://example.com/123/abc/321/init_v_high.mp4");
}

#[test]
fn test_mpd_medium_picks_closest_to_mean() {
    // the mean bandwidth of {100, 500, 900} is 500
    let m = get_urls(BASE, &test_mpd(), Quality::Medium).unwrap();
    assert_eq!(m.video[0], "http://example.com/123/abc/321/init_v_mid.mp4");
}

#[test]
fn test_mpd_medium_tie_takes_first() {
    let xml = "<MPD><Period><AdaptationSet mimeType=\"video/mp4\"><Representation id=\"a\" bandwidth=\"100\"/><Representation id=\"b\" bandwidth=\"300\"/><SegmentTemplate initialization=\"i_$RepresentationID$.mp4\" media=\"m_$Time$.m4s\"><SegmentTimeline><S d=\"1\"/></SegmentTimeline></SegmentTemplate></AdaptationSet><AdaptationSet mimeType=\"audio/mp4\"><Representation id=\"au\" bandwidth=\"64\"/><SegmentTemplate initialization=\"ai.mp4\" media=\"am_$Time$.m4s\"><SegmentTimeline><S d=\"1\"/></SegmentTimeline></SegmentTemplate></AdaptationSet></Period></MPD>";
    // both bandwidths sit 100 away from the mean of 200: the first wins
    let m = get_urls(BASE, xml, Quality::Medium).unwrap();
    assert_eq!(m.video[0], "http://example.com/123/abc/321/i_a.mp4");
}

#[test]
fn test_mpd_timeline_implicit_continuation() {
    // an entry without an explicit time starts at the running cursor
    let xml = "<MPD><Period><AdaptationSet mimeType=\"video/mp4\"><Representation id=\"v\" bandwidth=\"1\"/><SegmentTemplate initialization=\"i.mp4\" media=\"m_$Time$.m4s\"><SegmentTimeline><S t=\"100\" d=\"10\"/><S d=\"5\" r=\"1\"/></SegmentTimeline></SegmentTemplate></AdaptationSet><AdaptationSet mimeType=\"audio/mp4\"><Representation id=\"au\" bandwidth=\"64\"/><SegmentTemplate initialization=\"ai.mp4\" media=\"am_$Time$.m4s\"><SegmentTimeline><S d=\"1\"/></SegmentTimeline></SegmentTemplate></AdaptationSet></Period></MPD>";
    let m = get_urls(BASE, xml, Quality::Low).unwrap();
    assert_eq!(
        m.video,
        vec![
            "http://example.com/123/abc/321/i.mp4".to_owned(),
            "http://example.com/123/abc/321/m_100.m4s".to_owned(),
            "http://example.com/123/abc/321/m_110.m4s".to_owned(),
            "http://example.com/123/abc/321/m_115.m4s".to_owned(),
        ]
    );
}

#[test]
fn test_mpd_missing_period() {
    let e = get_urls(BASE, "<MPD></MPD>", Quality::Low).unwrap_err();
    assert_eq!(e.message(), "node not found: Period");
}

#[test]
fn test_mpd_missing_audio_track() {
    let xml = "<MPD><Period><AdaptationSet mimeType=\"video/mp4\"></AdaptationSet></Period></MPD>";
    let e = get_urls(BASE, xml, Quality::Low).unwrap_err();
    assert_eq!(e.message(), "node not found: AdaptationSet[@mimeType=audio/mp4]");
}

#[test]
fn test_mpd_no_representations() {
    let xml = "<MPD><Period><AdaptationSet mimeType=\"video/mp4\"></AdaptationSet><AdaptationSet mimeType=\"audio/mp4\"></AdaptationSet></Period></MPD>";
    let e = get_urls(BASE, xml, Quality::Low).unwrap_err();
    assert_eq!(e.message(), "no representation nodes found");
}

#[test]
fn test_mpd_bad_bandwidth() {
    let xml = "<MPD><Period><AdaptationSet mimeType=\"video/mp4\"><Representation id=\"v\" bandwidth=\"many\"/></AdaptationSet><AdaptationSet mimeType=\"audio/mp4\"></AdaptationSet></Period></MPD>";
    let e = get_urls(BASE, xml, Quality::Low).unwrap_err();
    assert_eq!(e.message(), "could not parse bandwidth");
}

#[test]
fn test_mpd_timeline_overflow() {
    let xml = "<MPD><Period><AdaptationSet mimeType=\"video/mp4\"><Representation id=\"v\" bandwidth=\"1\"/><SegmentTemplate initialization=\"i.mp4\" media=\"m_$Time$.m4s\"><SegmentTimeline><S t=\"18446744073709551615\" d=\"1\"/></SegmentTimeline></SegmentTemplate></AdaptationSet><AdaptationSet mimeType=\"audio/mp4\"><Representation id=\"au\" bandwidth=\"64\"/><SegmentTemplate initialization=\"ai.mp4\" media=\"am_$Time$.m4s\"><SegmentTimeline><S d=\"1\"/></SegmentTimeline></SegmentTemplate></AdaptationSet></Period></MPD>";
    let e = get_urls(BASE, xml, Quality::Low).unwrap_err();
    assert_eq!(e.message(), "segment timeline overflows");
}

#[test]
fn test_mpd_not_xml() {
    assert!(get_urls(BASE, "this is no manifest <", Quality::Low).is_err());
}

#[test]
fn test_node_not_found_message() {
    assert_eq!(node_not_found("Period").message(), "node not found: Period");
}
