//! The watch-page locator: finds the display title and the manifest URLs
//! that the markup embeds. A manifest URL is an absolute `http(s)` URL on
//! an `.apa.at` host, path `/dash/cms-<variant>/...`, whose last path
//! component ends in `_QXB` before `.mp4/manifest.mpd`.

use vstd::prelude::*;

use crate::errors::Error;
use crate::text::{run_end, scan_run, starts_with_at, starts_lit, CharClass};

verus! {

/// Which manifest-URL shape a scan looks for: the unsegmented form (the
/// last path component is `<digits>_<digits>_QXB`), any manifest, or one
/// naming a sub-segment (`...__s<digits>_..._QXB`).
#[derive(Clone, Copy, PartialEq, Eq, Structural)]
pub enum UrlKind {
    Unsegmented,
    AnyManifest,
    SegmentRef,
}

/// The position after the scheme-host-variant head of a manifest URL
/// starting at `i`: `http://` or `https://`, a host-character run ending in
/// `.apa.at`, the literal `/dash/cms-`, and one of the three variants.
pub open spec fn match_head(s: Seq<char>, i: int) -> Option<int> {
    let h = if starts_with_at(s, "https://"@, i) {
        Some(i + 8)
    } else if starts_with_at(s, "http://"@, i) {
        Some(i + 7)
    } else {
        None::<int>
    };
    match h {
        None => None,
        Some(hs) => {
            let k = run_end(s, hs, CharClass::Host);
            if k - hs >= 8 && s.subrange(k - 7, k) == ".apa.at"@ && starts_with_at(
                s,
                "/dash/cms-"@,
                k,
            ) {
                let v = k + 10;
                if starts_with_at(s, "worldwide_episodes"@, v) {
                    Some(v + 18)
                } else if starts_with_at(s, "worldwide"@, v) {
                    Some(v + 9)
                } else if starts_with_at(s, "austria"@, v) {
                    Some(v + 7)
                } else {
                    None
                }
            } else {
                None
            }
        },
    }
}

/// Whether a sub-segment marker stands at `t` inside the last path
/// component `s[rs..w2end]`: the literal `__s`, one or more digits, an
/// underscore, and at least one more word character before `w2end`.
pub open spec fn marker_at(s: Seq<char>, rs: int, w2end: int, t: int) -> bool {
    &&& t >= rs + 1
    &&& t + 3 <= w2end
    &&& s.subrange(t, t + 3) == "__s"@
    &&& run_end(s, t + 3, CharClass::Digit) > t + 3
    &&& run_end(s, t + 3, CharClass::Digit) + 1 < w2end
    &&& s[run_end(s, t + 3, CharClass::Digit)] == '_'
}

/// The rightmost marker position at or below `t`, or `None`: the greedy
/// scan takes the last marker of the component.
pub open spec fn marker_from(s: Seq<char>, rs: int, w2end: int, t: int) -> Option<int>
    decreases t - rs,
{
    if t < rs + 1 {
        None
    } else if marker_at(s, rs, w2end, t) {
        Some(t)
    } else {
        marker_from(s, rs, w2end, t - 1)
    }
}

/// Whether the last path component `s[rs..re)` fits the kind, and the
/// sub-segment digit group where the kind names one.
pub open spec fn final_seg_ok(s: Seq<char>, rs: int, re: int, kind: UrlKind) -> Option<(int, int)> {
    if re - rs >= 5 && s.subrange(re - 4, re) == "_QXB"@ {
        match kind {
            UrlKind::AnyManifest => Some((0, 0)),
            UrlKind::Unsegmented => {
                let d1 = run_end(s, rs, CharClass::Digit);
                if d1 > rs && d1 < re && s[d1] == '_' {
                    let d2 = run_end(s, d1 + 1, CharClass::Digit);
                    if d2 > d1 + 1 && d2 == re - 4 {
                        Some((0, 0))
                    } else {
                        None
                    }
                } else {
                    None
                }
            },
            UrlKind::SegmentRef => {
                match marker_from(s, rs, re - 4, re - 10) {
                    None => None,
                    Some(t) => Some((t + 3, run_end(s, t + 3, CharClass::Digit))),
                }
            },
        }
    } else {
        None
    }
}

/// The end of a manifest-URL tail from the slash at `p` on: `/`-separated
/// word-character components, the last one fitting the kind and followed by
/// `.mp4/manifest.mpd`. Yields the end position and the digit group.
pub open spec fn match_tail(s: Seq<char>, p: int, kind: UrlKind) -> Option<(int, int, int)>
    decreases s.len() - p,
    via match_tail_dec
{
    if p < 0 || p >= s.len() || s[p] != '/' {
        None
    } else {
        let q = run_end(s, p + 1, CharClass::Word);
        if q == p + 1 {
            None
        } else if starts_with_at(s, ".mp4/manifest.mpd"@, q) {
            match final_seg_ok(s, p + 1, q, kind) {
                None => None,
                Some(g) => Some((q + 17, g.0, g.1)),
            }
        } else if q < s.len() && s[q] == '/' {
            match_tail(s, q, kind)
        } else {
            None
        }
    }
}

#[via_fn]
proof fn match_tail_dec(s: Seq<char>, p: int, kind: UrlKind) {
    if 0 <= p && p < s.len() {
        crate::text::lemma_run_end_bounds(s, p + 1, CharClass::Word);
    }
}

/// The whole-URL match at `i`: the head, then the tail. Yields the end and
/// the digit group.
pub open spec fn match_at(s: Seq<char>, i: int, kind: UrlKind) -> Option<(int, int, int)> {
    match match_head(s, i) {
        None => None,
        Some(v) => match_tail(s, v, kind),
    }
}

/// Every match in the text from `i` on, in document order, successive
/// matches not overlapping: `(start, end, group start, group end)` each.
pub open spec fn matches_from(s: Seq<char>, i: int, kind: UrlKind) -> Seq<(int, int, int, int)>
    decreases s.len() - i,
{
    if i < 0 || i >= s.len() {
        seq![]
    } else {
        match match_at(s, i, kind) {
            Some(m) => {
                let nx = if i < m.0 && m.0 <= s.len() {
                    m.0
                } else {
                    i + 1
                };
                seq![(i, m.0, m.1, m.2)] + matches_from(s, nx, kind)
            },
            None => matches_from(s, i + 1, kind),
        }
    }
}

/// Every match in the whole text, in document order.
pub open spec fn spec_matches(s: Seq<char>, kind: UrlKind) -> Seq<(int, int, int, int)> {
    matches_from(s, 0, kind)
}

/// Matches the URL head at `i`.
fn match_head_at(s: &str, i: usize) -> (r: Option<usize>)
    requires
        i <= s@.len(),
    ensures
        match r {
            Some(v) => match_head(s@, i as int) == Some(v as int) && i < v && v <= s@.len(),
            None => match_head(s@, i as int) is None,
        },
{
    proof {
        reveal_strlit("https://");
        reveal_strlit("http://");
        reveal_strlit(".apa.at");
        reveal_strlit("/dash/cms-");
        reveal_strlit("worldwide_episodes");
        reveal_strlit("worldwide");
        reveal_strlit("austria");
    }
    let n = s.unicode_len();
    assert(n == s@.len());
    let hs: usize;
    if starts_lit(s, "https://", i) {
        hs = i + 8;
    } else if starts_lit(s, "http://", i) {
        hs = i + 7;
    } else {
        return None;
    }
    let k = scan_run(s, hs, CharClass::Host);
    if k - hs < 8 {
        return None;
    }
    if !starts_lit(s, ".apa.at", k - 7) {
        assert(s@.subrange(k - 7, k as int) != ".apa.at"@);
        return None;
    }
    assert(s@.subrange(k - 7, k as int) == ".apa.at"@);
    if !starts_lit(s, "/dash/cms-", k) {
        return None;
    }
    let v = k + 10;
    if starts_lit(s, "worldwide_episodes", v) {
        Some(v + 18)
    } else if starts_lit(s, "worldwide", v) {
        Some(v + 9)
    } else if starts_lit(s, "austria", v) {
        Some(v + 7)
    } else {
        None
    }
}

/// Checks the last path component `s[rs..re)` against the kind.
fn final_seg_at(s: &str, rs: usize, re: usize, kind: UrlKind) -> (r: Option<(usize, usize)>)
    requires
        rs <= re && re <= s@.len(),
    ensures
        match r {
            Some(g) => final_seg_ok(s@, rs as int, re as int, kind) == Some((g.0 as int, g.1 as int))
                && g.0 <= g.1 <= s@.len(),
            None => final_seg_ok(s@, rs as int, re as int, kind) is None,
        },
{
    proof {
        reveal_strlit("_QXB");
        reveal_strlit("__s");
    }
    if re - rs < 5 {
        return None;
    }
    if !starts_lit(s, "_QXB", re - 4) {
        assert(s@.subrange(re - 4, re as int) != "_QXB"@);
        return None;
    }
    assert(s@.subrange(re - 4, re as int) == "_QXB"@);
    match kind {
        UrlKind::AnyManifest => Some((0, 0)),
        UrlKind::Unsegmented => {
            let d1 = scan_run(s, rs, CharClass::Digit);
            if d1 > rs && d1 < re && s.get_char(d1) == '_' {
                let d2 = scan_run(s, d1 + 1, CharClass::Digit);
                if d2 > d1 + 1 && d2 == re - 4 {
                    Some((0, 0))
                } else {
                    None
                }
            } else {
                None
            }
        },
        UrlKind::SegmentRef => {
            if re - rs < 11 {
                assert(marker_from(s@, rs as int, re - 4, re - 10) is None);
                return None;
            }
            let w2end = re - 4;
            let mut t = re - 10;
            while t > rs
                invariant
                    rs <= t && t <= re - 10,
                    rs < re - 10 && re <= s@.len() && re - rs >= 11,
                    w2end == re - 4,
                    kind == UrlKind::SegmentRef,
                    s@.subrange(re - 4, re as int) == "_QXB"@,
                    marker_from(s@, rs as int, w2end as int, re - 10) == marker_from(
                        s@,
                        rs as int,
                        w2end as int,
                        t as int,
                    ),
                decreases t,
            {
                proof {
                    reveal_strlit("__s");
                }
                let m_ok = starts_lit(s, "__s", t) && {
                    let de = scan_run(s, t + 3, CharClass::Digit);
                    de > t + 3 && de < w2end - 1 && s.get_char(de) == '_'
                };
                if m_ok {
                    assert(marker_at(s@, rs as int, w2end as int, t as int));
                    let de = scan_run(s, t + 3, CharClass::Digit);
                    return Some((t + 3, de));
                }
                assert(!marker_at(s@, rs as int, w2end as int, t as int));
                t = t - 1;
            }
            assert(marker_from(s@, rs as int, w2end as int, t as int) is None);
            None
        },
    }
}

/// Matches the URL tail from the slash at `p` on.
fn match_tail_at(s: &str, p: usize, kind: UrlKind) -> (r: Option<(usize, usize, usize)>)
    requires
        p <= s@.len(),
    ensures
        match r {
            Some(m) => match_tail(s@, p as int, kind) == Some(
                (m.0 as int, m.1 as int, m.2 as int),
            ) && p < m.0 && m.0 <= s@.len() && m.1 <= m.2 && m.2 <= s@.len(),
            None => match_tail(s@, p as int, kind) is None,
        },
    decreases s@.len() - p,
{
    proof {
        reveal_strlit(".mp4/manifest.mpd");
    }
    let n = s.unicode_len();
    if p >= n || s.get_char(p) != '/' {
        return None;
    }
    let q = scan_run(s, p + 1, CharClass::Word);
    if q == p + 1 {
        return None;
    }
    if starts_lit(s, ".mp4/manifest.mpd", q) {
        match final_seg_at(s, p + 1, q, kind) {
            None => None,
            Some(g) => Some((q + 17, g.0, g.1)),
        }
    } else if q < n && s.get_char(q) == '/' {
        match_tail_at(s, q, kind)
    } else {
        None
    }
}

/// Matches a whole manifest URL at `i`.
fn match_at_pos(s: &str, i: usize, kind: UrlKind) -> (r: Option<(usize, usize, usize)>)
    requires
        i <= s@.len(),
    ensures
        match r {
            Some(m) => match_at(s@, i as int, kind) == Some((m.0 as int, m.1 as int, m.2 as int))
                && i < m.0 && m.0 <= s@.len() && m.1 <= m.2 <= s@.len(),
            None => match_at(s@, i as int, kind) is None,
        },
{
    match match_head_at(s, i) {
        None => None,
        Some(v) => match match_tail_at(s, v, kind) {
            None => None,
            Some(m) => Some(m),
        },
    }
}

/// The values of found spans, as the mathematical spans they stand for.
pub open spec fn spans_as_ints(v: Seq<(usize, usize, usize, usize)>) -> Seq<(int, int, int, int)> {
    v.map_values(|m: (usize, usize, usize, usize)| (m.0 as int, m.1 as int, m.2 as int, m.3 as int))
}

/// Collects every match of the kind, in document order.
fn find_all(s: &str, kind: UrlKind) -> (r: Vec<(usize, usize, usize, usize)>)
    ensures
        spans_as_ints(r@) == spec_matches(s@, kind),
        forall|j: int|
            0 <= j < r@.len() ==> (#[trigger] r@[j]).0 <= r@[j].1 && r@[j].1 <= s@.len()
                && r@[j].2 <= r@[j].3 && r@[j].3 <= s@.len(),
{
    let n = s.unicode_len();
    let mut found: Vec<(usize, usize, usize, usize)> = Vec::new();
    let mut i: usize = 0;
    while i < n
        invariant
            i <= n == s@.len(),
            spec_matches(s@, kind) == spans_as_ints(found@) + matches_from(s@, i as int, kind),
            forall|j: int|
                0 <= j < found@.len() ==> (#[trigger] found@[j]).0 <= found@[j].1 && found@[j].1
                    <= s@.len() && found@[j].2 <= found@[j].3 && found@[j].3 <= s@.len(),
        decreases n - i,
    {
        let ghost pre = found@;
        match match_at_pos(s, i, kind) {
            Some(m) => {
                found.push((i, m.0, m.1, m.2));
                proof {
                    assert(spans_as_ints(found@) =~= spans_as_ints(pre).push(
                        (i as int, m.0 as int, m.1 as int, m.2 as int),
                    ));
                    assert(spans_as_ints(pre) + (seq![(i as int, m.0 as int, m.1 as int, m.2 as int)]
                        + matches_from(s@, m.0 as int, kind)) =~= spans_as_ints(found@)
                        + matches_from(s@, m.0 as int, kind));
                }
                i = m.0;
            },
            None => {
                i = i + 1;
            },
        }
    }
    proof {
        assert(matches_from(s@, i as int, kind) =~= Seq::<(int, int, int, int)>::empty());
        assert(spans_as_ints(found@) + Seq::<(int, int, int, int)>::empty() =~= spans_as_ints(
            found@,
        ));
    }
    found
}

/// The text of one match.
pub open spec fn match_text(s: Seq<char>, m: (int, int, int, int)) -> Seq<char> {
    s.subrange(m.0, m.1)
}

/// The texts of a list of matches, in order.
pub open spec fn match_texts(s: Seq<char>, ms: Seq<(int, int, int, int)>) -> Seq<Seq<char>> {
    ms.map_values(|m: (int, int, int, int)| match_text(s, m))
}

/// The manifest locations of a watch page: one non-split manifest, or the
/// manifest list of a segmented video in document order.
#[derive(Debug)]
pub enum VideoInfo {
    Unsegmented(String),
    Segmented(Vec<String>),
}

/// The mathematical shape of the located manifests.
pub enum VideoInfoModel {
    Unsegmented(Seq<char>),
    Segmented(Seq<Seq<char>>),
}

impl View for VideoInfo {
    type V = VideoInfoModel;

    open spec fn view(&self) -> VideoInfoModel {
        match self {
            VideoInfo::Unsegmented(u) => VideoInfoModel::Unsegmented(u@),
            VideoInfo::Segmented(v) => VideoInfoModel::Segmented(v.deep_view()),
        }
    }
}

/// What locating the manifests yields: the first URL of the unsegmented
/// shape where the markup has one; otherwise every manifest-shaped URL in
/// document order — none is an error, exactly one counts as unsegmented,
/// two or more make a segmented video.
pub open spec fn spec_video_info(s: Seq<char>) -> Result<VideoInfoModel, Seq<char>> {
    let un = spec_matches(s, UrlKind::Unsegmented);
    if un.len() > 0 {
        Ok(VideoInfoModel::Unsegmented(match_text(s, un[0])))
    } else {
        let all = spec_matches(s, UrlKind::AnyManifest);
        if all.len() == 0 {
            Err("could not extract mpd-urls"@)
        } else if all.len() == 1 {
            Ok(VideoInfoModel::Unsegmented(match_text(s, all[0])))
        } else {
            Ok(VideoInfoModel::Segmented(match_texts(s, all)))
        }
    }
}

/// Locates the manifests of a watch page: tries the unsegmented shape
/// first; otherwise collects every manifest-shaped URL in document order,
/// treating exactly one as unsegmented and two or more as segmented. No
/// match at all is an error.
pub fn extract_video_info(html: &str) -> (r: Result<VideoInfo, Error>)
    ensures
        match r {
            Ok(v) => spec_video_info(html@) == Ok::<VideoInfoModel, Seq<char>>(v@),
            Err(e) => e matches Error::UnexpectedError(m) && spec_video_info(html@) == Err::<
                VideoInfoModel,
                Seq<char>,
            >(m@),
        },
{
    let un = find_all(html, UrlKind::Unsegmented);
    if un.len() > 0 {
        let m = un[0];
        assert(spans_as_ints(un@)[0] == (m.0 as int, m.1 as int, m.2 as int, m.3 as int));
        let u = html.substring_char(m.0, m.1).to_owned();
        return Ok(VideoInfo::Unsegmented(u));
    }
    assert(spec_matches(html@, UrlKind::Unsegmented).len() == 0);
    let all = find_all(html, UrlKind::AnyManifest);
    if all.len() == 0 {
        assert(spec_matches(html@, UrlKind::AnyManifest).len() == 0);
        return Err(Error::UnexpectedError(String::from_str("could not extract mpd-urls")));
    }
    if all.len() == 1 {
        let m = all[0];
        assert(spans_as_ints(all@)[0] == (m.0 as int, m.1 as int, m.2 as int, m.3 as int));
        let u = html.substring_char(m.0, m.1).to_owned();
        return Ok(VideoInfo::Unsegmented(u));
    }
    let ghost ms = spec_matches(html@, UrlKind::AnyManifest);
    let mut urls: Vec<String> = Vec::new();
    let mut j: usize = 0;
    let total = all.len();
    while j < total
        invariant
            j <= total == all@.len(),
            ms == spec_matches(html@, UrlKind::AnyManifest),
            spans_as_ints(all@) == ms,
            forall|i: int|
                0 <= i < all@.len() ==> (#[trigger] all@[i]).0 <= all@[i].1 && all@[i].1
                    <= html@.len(),
            urls.deep_view().len() == j,
            forall|i: int| 0 <= i < j ==> urls.deep_view()[i] == match_text(html@, ms[i]),
        decreases total - j,
    {
        let m = all[j];
        assert(ms[j as int] == (m.0 as int, m.1 as int, m.2 as int, m.3 as int));
        let ghost pre = urls.deep_view();
        let u = html.substring_char(m.0, m.1).to_owned();
        let ghost uv = u@;
        urls.push(u);
        proof {
            assert(urls.deep_view() =~= pre.push(uv));
            assert(uv == match_text(html@, ms[j as int]));
        }
        j = j + 1;
    }
    assert(urls.deep_view() =~= match_texts(html@, ms));
    Ok(VideoInfo::Segmented(urls))
}

/// The first match from `j` on whose digit group is the wanted segment id.
pub open spec fn seg_hit_from(
    s: Seq<char>,
    ms: Seq<(int, int, int, int)>,
    seg: Seq<char>,
    j: int,
) -> Option<int>
    decreases ms.len() - j,
{
    if j < 0 || j >= ms.len() {
        None
    } else if s.subrange(ms[j].2, ms[j].3) == seg {
        Some(j)
    } else {
        seg_hit_from(s, ms, seg, j + 1)
    }
}

/// What looking a sub-segment up yields: the first manifest-shaped URL
/// whose embedded segment identifier is the wanted one.
pub open spec fn spec_segment_url(s: Seq<char>, seg: Seq<char>) -> Option<Seq<char>> {
    let ms = spec_matches(s, UrlKind::SegmentRef);
    match seg_hit_from(s, ms, seg, 0) {
        None => None,
        Some(j) => Some(match_text(s, ms[j])),
    }
}

/// Scans the markup's manifest-shaped URLs and returns the one whose
/// embedded segment identifier is `segment_id`; fails if none matches.
pub fn extract_segment_url(html: &str, segment_id: &str) -> (r: Result<String, Error>)
    ensures
        match r {
            Ok(u) => spec_segment_url(html@, segment_id@) == Some(u@),
            Err(e) => spec_segment_url(html@, segment_id@) is None && (
            e matches Error::UnexpectedError(m) && m@ == "could not extract segment url"@),
        },
{
    let ghost ms = spec_matches(html@, UrlKind::SegmentRef);
    let all = find_all(html, UrlKind::SegmentRef);
    let mut j: usize = 0;
    let total = all.len();
    while j < total
        invariant
            j <= total == all@.len(),
            ms == spec_matches(html@, UrlKind::SegmentRef),
            spans_as_ints(all@) == ms,
            forall|i: int|
                0 <= i < all@.len() ==> (#[trigger] all@[i]).0 <= all@[i].1 && all@[i].1
                    <= html@.len() && all@[i].2 <= all@[i].3 && all@[i].3 <= html@.len(),
            seg_hit_from(html@, ms, segment_id@, 0) == seg_hit_from(
                html@,
                ms,
                segment_id@,
                j as int,
            ),
        decreases total - j,
    {
        let m = all[j];
        assert(ms[j as int] == (m.0 as int, m.1 as int, m.2 as int, m.3 as int));
        let g = html.substring_char(m.2, m.3);
        if crate::text::str_eq(g, segment_id) {
            let u = html.substring_char(m.0, m.1).to_owned();
            return Ok(u);
        }
        j = j + 1;
    }
    Err(Error::UnexpectedError(String::from_str("could not extract segment url")))
}

/// What `html_escape::decode_html_entities` turns a text into: exact named
/// and numeric character references decoded, everything else unchanged. The
/// outcome is a function of the text alone.
pub uninterp spec fn html_decoded(s: Seq<char>) -> Seq<char>;

/// Relies on `html_escape::decode_html_entities`: decodes the HTML entity
/// references of the text.
#[verifier::external_body]
fn decode_entities(s: &str) -> (r: String)
    ensures
        r@ == html_decoded(s@),
{
    html_escape::decode_html_entities(s).into_owned()
}

/// The rightmost quote at or below `j` with nothing but non-quote text
/// after `g`: the end of a greedy attribute-value span.
pub open spec fn quote_before(s: Seq<char>, g: int, j: int) -> Option<int>
    decreases j - g + 1,
{
    if j < g || j >= s.len() {
        None
    } else if s[j] == '"' {
        Some(j)
    } else {
        quote_before(s, g, j - 1)
    }
}

/// The title span of a metadata tag starting at `i`: the literal `<meta`,
/// white space, `property="og:title"`, white space, `content="`, then the
/// longest quote-closed span on that line.
pub open spec fn title_match_at(s: Seq<char>, i: int) -> Option<(int, int)> {
    if !starts_with_at(s, "<meta"@, i) {
        None
    } else {
        let a = run_end(s, i + 5, CharClass::Space);
        if !starts_with_at(s, "property=\"og:title\""@, a) {
            None
        } else {
            let b = run_end(s, a + 19, CharClass::Space);
            if !starts_with_at(s, "content=\""@, b) {
                None
            } else {
                let g = b + 9;
                let nl = run_end(s, g, CharClass::NotNl);
                match quote_before(s, g, nl - 1) {
                    None => None,
                    Some(j) => Some((g, j)),
                }
            }
        }
    }
}

/// The first title span in the text from `i` on.
pub open spec fn title_from(s: Seq<char>, i: int) -> Option<(int, int)>
    decreases s.len() - i,
{
    if i < 0 || i >= s.len() {
        None
    } else {
        match title_match_at(s, i) {
            Some(g) => Some(g),
            None => title_from(s, i + 1),
        }
    }
}

/// Matches the title tag at `i`.
fn title_at(s: &str, i: usize) -> (r: Option<(usize, usize)>)
    requires
        i <= s@.len(),
    ensures
        match r {
            Some(g) => title_match_at(s@, i as int) == Some((g.0 as int, g.1 as int)) && g.0 <= g.1
                && g.1 <= s@.len(),
            None => title_match_at(s@, i as int) is None,
        },
{
    proof {
        reveal_strlit("<meta");
        reveal_strlit("property=\"og:title\"");
        reveal_strlit("content=\"");
    }
    let n = s.unicode_len();
    if !starts_lit(s, "<meta", i) {
        return None;
    }
    let a = scan_run(s, i + 5, CharClass::Space);
    if !starts_lit(s, "property=\"og:title\"", a) {
        return None;
    }
    let b = scan_run(s, a + 19, CharClass::Space);
    if !starts_lit(s, "content=\"", b) {
        return None;
    }
    let g = b + 9;
    let nl = scan_run(s, g, CharClass::NotNl);
    let mut j = nl;
    while j > g
        invariant
            g <= j <= nl <= s@.len(),
            quote_before(s@, g as int, nl - 1) == quote_before(s@, g as int, j - 1),
            title_match_at(s@, i as int) == (match quote_before(s@, g as int, nl - 1) {
                None => None::<(int, int)>,
                Some(q) => Some((g as int, q)),
            }),
        decreases j,
    {
        if s.get_char(j - 1) == '"' {
            return Some((g, j - 1));
        }
        j = j - 1;
    }
    assert(quote_before(s@, g as int, j - 1) is None);
    None
}

/// Locates the metadata tag carrying the display title and decodes its
/// HTML entities; fails if the tag is absent.
pub fn extract_title(html: &str) -> (r: Result<String, Error>)
    ensures
        match title_from(html@, 0) {
            Some(g) => r matches Ok(t) && t@ == html_decoded(html@.subrange(g.0, g.1)),
            None => r matches Err(e) && (e matches Error::UnexpectedError(m) && m@
                == "could not extract title"@),
        },
{
    let n = html.unicode_len();
    let mut i: usize = 0;
    while i < n
        invariant
            i <= n == html@.len(),
            title_from(html@, 0) == title_from(html@, i as int),
        decreases n - i,
    {
        match title_at(html, i) {
            Some(g) => {
                let span = html.substring_char(g.0, g.1);
                return Ok(decode_entities(span));
            },
            None => {
                i = i + 1;
            },
        }
    }
    Err(Error::UnexpectedError(String::from_str("could not extract title")))
}

} // verus!
