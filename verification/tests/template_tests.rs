//! The template mini-language: scanning and rendering.

use oondl::template::{SegmentTemplate, Token};

#[test]
fn test_token() {
    let t1 = Token::scan("abc_$Time$123").unwrap();
    let e1 = vec![
        Token::Literal("abc_".to_owned()),
        Token::Time,
        Token::Literal("123".to_owned()),
    ];
    assert_eq!(t1, e1);

    let t2 = Token::scan("abc_$Time$").unwrap();
    let e2 = vec![Token::Literal("abc_".to_owned()), Token::Time];
    assert_eq!(t2, e2);

    let t3 = Token::scan("$Time$__eee333").unwrap();
    let e3 = vec![Token::Time, Token::Literal("__eee333".to_owned())];
    assert_eq!(t3, e3);
}

#[test]
fn test_invalid_variable() {
    let t = Token::scan("abc_$Foo$");
    assert_eq!(t.unwrap_err().message(), "invalid template variable: Foo");
}

#[test]
fn test_unterminated_variable() {
    let t = Token::scan("abc_$Foo");
    assert_eq!(t.unwrap_err().message(), "unterminated variable");
}

#[test]
fn test_seg_templ() {
    let base_url = "http://example.com/123/abc/321/manifest.mpd";
    let template = "seg_$RepresentationID$_foo$Time$_mpd.m4s";
    let representation_id = "v123xyz";

    let s = SegmentTemplate::new(base_url, template).unwrap();
    assert_eq!(
        s.render(representation_id, Some(500)).unwrap(),
        "http://example.com/123/abc/321/seg_v123xyz_foo500_mpd.m4s"
    );
    assert_eq!(
        s.render(representation_id, Some(800)).unwrap(),
        "http://example.com/123/abc/321/seg_v123xyz_foo800_mpd.m4s"
    );
}

#[test]
fn test_render_init_without_time() {
    let base_url = "http://example.com/123/abc/321/manifest.mpd";
    let s = SegmentTemplate::new(base_url, "init_$RepresentationID$$Time$.mp4").unwrap();
    assert_eq!(
        s.render("v1", None).unwrap(),
        "http://example.com/123/abc/321/init_v1.mp4"
    );
}

#[test]
fn test_render_absolute_template() {
    let base_url = "http://example.com/a/manifest.mpd";
    let s = SegmentTemplate::new(base_url, "/root_$Time$.m4s").unwrap();
    assert_eq!(s.render("x", Some(7)).unwrap(), "http://example.com/root_7.m4s");
}

#[test]
fn test_scan_empty_template() {
    let t = Token::scan("").unwrap();
    assert_eq!(t, vec![]);
}

#[test]
fn test_render_unresolvable_base() {
    let s = SegmentTemplate::new("not a base url", "seg_$Time$.m4s").unwrap();
    let e = s.render("v1", Some(1)).unwrap_err();
    assert_eq!(e.message(), "could not resolve segment url");
}
