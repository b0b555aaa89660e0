//! The manifest resolver: reads the manifest document, selects a rendition
//! per the quality policy, and expands the segment timeline into the
//! ordered chunk-URL lists for the video and audio tracks.

use vstd::prelude::*;

use crate::errors::Error;
use crate::models::Quality;
use crate::template::{joined_url, rendered_path, spec_scan, SegmentTemplate, TokenModel};
use crate::text::{parse_u32, parse_u64, spec_parse_u32, spec_parse_u64, str_eq};

verus! {

/// One node of the parsed manifest document: the element's local tag name,
/// its attributes under their local names in document order, and its child
/// nodes in document order. A non-element node carries an empty tag and no
/// attributes, so that tag and attribute searches pass over it.
pub struct XmlNode {
    pub tag: String,
    pub attrs: Vec<(String, String)>,
    pub children: Vec<XmlNode>,
}

/// What `roxmltree::Document::parse` yields for a text: `Some` of the root
/// element's tree where the text is well-formed XML, `None` where it is
/// not. The outcome is a function of the text alone.
pub uninterp spec fn xml_doc_of(s: Seq<char>) -> Option<XmlNode>;

/// The node type of `roxmltree`, declared so that the conversion below can
/// take it.
#[verifier::external_type_specification]
#[verifier::external_body]
pub struct ExNode<'a, 'input>(roxmltree::Node<'a, 'input>)
    where 'input: 'a;

/// Relies on `roxmltree::Node`: `tag_name().name()`, `attributes()` (local
/// `name()` and `value()`, document order) and `children()` (document
/// order). Copies the node tree one node for one; together with
/// `parse_xml` below it realizes the tree that `xml_doc_of` names.
#[verifier::external_body]
fn xml_node_of(n: roxmltree::Node) -> XmlNode {
    XmlNode {
        tag: n.tag_name().name().to_owned(),
        attrs: n.attributes().map(|a| (a.name().to_owned(), a.value().to_owned())).collect(),
        children: n.children().map(|c| xml_node_of(c)).collect(),
    }
}

/// Relies on `roxmltree::Document::parse` and `Document::root_element`:
/// parses the manifest text and hands its root element's tree out, or the
/// parser's message where the text is not well-formed XML.
#[verifier::external_body]
fn parse_xml(s: &str) -> (r: Result<XmlNode, Error>)
    ensures
        match r {
            Ok(t) => xml_doc_of(s@) == Some(t),
            Err(e) => xml_doc_of(s@) is None && e matches Error::UnexpectedError(_),
        },
{
    match roxmltree::Document::parse(s) {
        Ok(doc) => Ok(xml_node_of(doc.root_element())),
        Err(e) => Err(Error::UnexpectedError(e.to_string())),
    }
}

/// The value of the first attribute named `name`, scanning from index `k`.
pub open spec fn attr_from(attrs: Seq<(String, String)>, name: Seq<char>, k: int) -> Option<
    Seq<char>,
>
    decreases attrs.len() - k,
{
    if k < 0 || k >= attrs.len() {
        None
    } else if attrs[k].0@ == name {
        Some(attrs[k].1@)
    } else {
        attr_from(attrs, name, k + 1)
    }
}

/// The value of the node's attribute `name`, if the node carries one.
pub open spec fn spec_attr(n: XmlNode, name: Seq<char>) -> Option<Seq<char>> {
    attr_from(n.attrs@, name, 0)
}

/// Looks the attribute `name` up on a node.
fn attr_value<'a>(n: &'a XmlNode, name: &str) -> (r: Option<&'a String>)
    ensures
        match r {
            Some(v) => spec_attr(*n, name@) == Some(v@),
            None => spec_attr(*n, name@) is None,
        },
{
    let mut k: usize = 0;
    let len = n.attrs.len();
    while k < len
        invariant
            k <= len == n.attrs@.len(),
            attr_from(n.attrs@, name@, 0) == attr_from(n.attrs@, name@, k as int),
        decreases len - k,
    {
        if str_eq(n.attrs[k].0.as_str(), name) {
            return Some(&n.attrs[k].1);
        }
        k = k + 1;
    }
    None
}

/// The index of the first child carrying the tag, scanning from index `k`.
pub open spec fn child_tag_from(cs: Seq<XmlNode>, tag: Seq<char>, k: int) -> Option<int>
    decreases cs.len() - k,
{
    if k < 0 || k >= cs.len() {
        None
    } else if cs[k].tag@ == tag {
        Some(k)
    } else {
        child_tag_from(cs, tag, k + 1)
    }
}

/// Finds the first child carrying the tag.
fn find_child_by_tag(cs: &Vec<XmlNode>, tag: &str) -> (r: Option<usize>)
    ensures
        match r {
            Some(i) => child_tag_from(cs@, tag@, 0) == Some(i as int) && i < cs@.len(),
            None => child_tag_from(cs@, tag@, 0) is None,
        },
{
    let mut k: usize = 0;
    let len = cs.len();
    while k < len
        invariant
            k <= len == cs@.len(),
            child_tag_from(cs@, tag@, 0) == child_tag_from(cs@, tag@, k as int),
        decreases len - k,
    {
        if str_eq(cs[k].tag.as_str(), tag) {
            return Some(k);
        }
        k = k + 1;
    }
    None
}

/// The index of the first child whose attribute `name` holds `value`,
/// scanning from index `k`.
pub open spec fn child_attr_from(
    cs: Seq<XmlNode>,
    name: Seq<char>,
    value: Seq<char>,
    k: int,
) -> Option<int>
    decreases cs.len() - k,
{
    if k < 0 || k >= cs.len() {
        None
    } else if spec_attr(cs[k], name) == Some(value) {
        Some(k)
    } else {
        child_attr_from(cs, name, value, k + 1)
    }
}

/// Finds the first child whose attribute `name` holds `value`.
fn find_child_by_attr(cs: &Vec<XmlNode>, name: &str, value: &str) -> (r: Option<usize>)
    ensures
        match r {
            Some(i) => child_attr_from(cs@, name@, value@, 0) == Some(i as int) && i < cs@.len(),
            None => child_attr_from(cs@, name@, value@, 0) is None,
        },
{
    let mut k: usize = 0;
    let len = cs.len();
    while k < len
        invariant
            k <= len == cs@.len(),
            child_attr_from(cs@, name@, value@, 0) == child_attr_from(cs@, name@, value@, k as int),
        decreases len - k,
    {
        let hit = match attr_value(&cs[k], name) {
            Some(v) => str_eq(v.as_str(), value),
            None => false,
        };
        if hit {
            return Some(k);
        }
        k = k + 1;
    }
    None
}

/// The error for a node or attribute the manifest is missing.
pub fn node_not_found(name: &str) -> (e: Error)
    ensures
        e matches Error::UnexpectedError(m) && m@ == "node not found: "@ + name@,
{
    let mut m = String::from_str("node not found: ");
    m.append(name);
    Error::UnexpectedError(m)
}

/// One rendition of an adaptation set: its id and its bandwidth.
pub struct Representation {
    pub id: String,
    pub bandwidth: u32,
}

/// The mathematical shape of a representation.
pub struct RepModel {
    pub id: Seq<char>,
    pub bandwidth: u32,
}

impl View for Representation {
    type V = RepModel;

    open spec fn view(&self) -> RepModel {
        RepModel { id: self.id@, bandwidth: self.bandwidth }
    }
}

impl DeepView for Representation {
    type V = RepModel;

    open spec fn deep_view(&self) -> RepModel {
        self.view()
    }
}

/// The `(id, bandwidth)` pairs of the `Representation` children from index
/// `k` on, in document order, or the first error: a missing `id`, a missing
/// `bandwidth`, or a bandwidth that does not read as a number.
pub open spec fn reps_from(cs: Seq<XmlNode>, k: int) -> Result<Seq<RepModel>, Seq<char>>
    decreases cs.len() - k,
{
    if k < 0 || k >= cs.len() {
        Ok(seq![])
    } else if cs[k].tag@ != "Representation"@ {
        reps_from(cs, k + 1)
    } else {
        match spec_attr(cs[k], "id"@) {
            None => Err("node not found: Representation[@id]"@),
            Some(id) => match spec_attr(cs[k], "bandwidth"@) {
                None => Err("node not found: "@),
                Some(bw) => match spec_parse_u32(bw) {
                    None => Err("could not parse bandwidth"@),
                    Some(b) => match reps_from(cs, k + 1) {
                        Ok(rest) => Ok(seq![RepModel { id, bandwidth: b }] + rest),
                        Err(e) => Err(e),
                    },
                },
            },
        }
    }
}

/// Collects the representations of an adaptation set, in document order.
fn collect_representations(cs: &Vec<XmlNode>) -> (r: Result<Vec<Representation>, Error>)
    ensures
        match r {
            Ok(v) => reps_from(cs@, 0) == Ok::<Seq<RepModel>, Seq<char>>(v.deep_view()),
            Err(e) => e matches Error::UnexpectedError(m) && reps_from(cs@, 0) == Err::<
                Seq<RepModel>,
                Seq<char>,
            >(m@),
        },
{
    let mut reps: Vec<Representation> = Vec::new();
    let mut k: usize = 0;
    let len = cs.len();
    while k < len
        invariant
            k <= len == cs@.len(),
            match reps_from(cs@, k as int) {
                Ok(rest) => reps_from(cs@, 0) == Ok::<Seq<RepModel>, Seq<char>>(
                    reps.deep_view() + rest,
                ),
                Err(e) => reps_from(cs@, 0) == Err::<Seq<RepModel>, Seq<char>>(e),
            },
        decreases len - k,
    {
        let ghost pre = reps.deep_view();
        if str_eq(cs[k].tag.as_str(), "Representation") {
            let id = match attr_value(&cs[k], "id") {
                Some(v) => v.clone(),
                None => {
                    proof {
                        reveal_strlit("node not found: ");
                        reveal_strlit("Representation[@id]");
                        reveal_strlit("node not found: Representation[@id]");
                        assert("node not found: "@ + "Representation[@id]"@
                            =~= "node not found: Representation[@id]"@);
                    }
                    return Err(node_not_found("Representation[@id]"));
                },
            };
            let bw_text = match attr_value(&cs[k], "bandwidth") {
                Some(v) => v,
                None => {
                    proof {
                        reveal_strlit("node not found: ");
                        reveal_strlit("");
                        assert("node not found: "@ + ""@ =~= "node not found: "@);
                    }
                    return Err(node_not_found(""));
                },
            };
            let bandwidth = match parse_u32(bw_text.as_str()) {
                Some(b) => b,
                None => {
                    return Err(
                        Error::UnexpectedError(String::from_str("could not parse bandwidth")),
                    );
                },
            };
            reps.push(Representation { id, bandwidth });
            proof {
                let m = RepModel { id: reps@[pre.len() as int].id@, bandwidth };
                assert(reps.deep_view() =~= pre.push(m));
                match reps_from(cs@, k + 1) {
                    Ok(rest) => {
                        assert(reps.deep_view() + rest =~= pre + (seq![m] + rest));
                    },
                    Err(_) => {},
                }
            }
        }
        k = k + 1;
    }
    Ok(reps)
}

/// The positive difference of two bandwidth-scale numbers.
pub open spec fn bw_diff(a: nat, b: nat) -> nat {
    if a >= b {
        (a - b) as nat
    } else {
        (b - a) as nat
    }
}

/// The sum of the first `k` representations' bandwidths.
pub open spec fn sum_bw(reps: Seq<RepModel>, k: int) -> nat
    decreases k,
{
    if k <= 0 {
        0
    } else {
        sum_bw(reps, k - 1) + reps[k - 1].bandwidth as nat
    }
}

/// The arithmetic mean bandwidth, rounded down.
pub open spec fn mean_bw(reps: Seq<RepModel>) -> nat
    recommends
        reps.len() > 0,
{
    sum_bw(reps, reps.len() as int) / reps.len()
}

/// Whether the representation at `k` beats the one at `best` under the
/// policy: a strictly lower bandwidth for `Low`, a bandwidth at least as
/// high for `High` (so of equal bandwidths the later entry wins), a
/// strictly smaller distance to the mean for `Medium`.
pub open spec fn beats(reps: Seq<RepModel>, k: int, best: int, q: Quality, avg: nat) -> bool {
    match q {
        Quality::Low => reps[k].bandwidth < reps[best].bandwidth,
        Quality::High => reps[k].bandwidth >= reps[best].bandwidth,
        Quality::Medium => bw_diff(avg, reps[k].bandwidth as nat) < bw_diff(
            avg,
            reps[best].bandwidth as nat,
        ),
    }
}

/// The selected index after weighing entries `k` on against `best`.
pub open spec fn pick_from(reps: Seq<RepModel>, k: int, best: int, q: Quality, avg: nat) -> int
    decreases reps.len() - k,
{
    if k < 0 || k >= reps.len() {
        best
    } else if beats(reps, k, best, q, avg) {
        pick_from(reps, k + 1, k, q, avg)
    } else {
        pick_from(reps, k + 1, best, q, avg)
    }
}

/// The index the quality policy selects: minimum bandwidth for `Low`,
/// maximum for `High`, closest to the arithmetic mean for `Medium`.
pub open spec fn select_index(reps: Seq<RepModel>, q: Quality) -> int
    recommends
        reps.len() > 0,
{
    pick_from(reps, 1, 0, q, mean_bw(reps))
}

proof fn lemma_sum_bw_le(reps: Seq<RepModel>, k: int)
    requires
        0 <= k <= reps.len(),
    ensures
        sum_bw(reps, k) <= k * 0xffff_ffff,
    decreases k,
{
    if k > 0 {
        lemma_sum_bw_le(reps, k - 1);
        assert(k * 0xffff_ffff == (k - 1) * 0xffff_ffff + 0xffff_ffff) by (nonlinear_arith);
    }
}

/// Selects a representation per the quality policy. The selection order
/// keeps the first minimum for `Low`, the last maximum for `High`, and the
/// first distance minimizer for `Medium`.
pub fn select_representation(reps: &Vec<Representation>, quality: Quality) -> (r: usize)
    requires
        reps@.len() > 0,
    ensures
        r < reps@.len(),
        r as int == select_index(reps.deep_view(), quality),
{
    let ghost rs = reps.deep_view();
    let len = reps.len();
    proof {
        assert(rs.len() == len);
    }
    let mut sum: u128 = 0;
    let mut k: usize = 0;
    while k < len
        invariant
            k <= len == rs.len(),
            rs == reps.deep_view(),
            sum == sum_bw(rs, k as int),
            sum <= k as int * 0xffff_ffff,
        decreases len - k,
    {
        proof {
            assert((k + 1) as int * 0xffff_ffff == k as int * 0xffff_ffff + 0xffff_ffff)
                by (nonlinear_arith);
            assert(rs[k as int].bandwidth == reps@[k as int]@.bandwidth);
        }
        sum = sum + reps[k].bandwidth as u128;
        k = k + 1;
    }
    let avg: u128 = sum / (len as u128);
    proof {
        assert(avg == mean_bw(rs));
    }
    let mut best: usize = 0;
    let mut j: usize = 1;
    while j < len
        invariant
            1 <= j <= len == rs.len(),
            rs == reps.deep_view(),
            best < j,
            avg == mean_bw(rs),
            select_index(rs, quality) == pick_from(rs, j as int, best as int, quality, avg as nat),
        decreases len - j,
    {
        let better = match quality {
            Quality::Low => reps[j].bandwidth < reps[best].bandwidth,
            Quality::High => reps[j].bandwidth >= reps[best].bandwidth,
            Quality::Medium => {
                let bj = reps[j].bandwidth as u128;
                let bb = reps[best].bandwidth as u128;
                let dj = if avg >= bj {
                    avg - bj
                } else {
                    bj - avg
                };
                let db = if avg >= bb {
                    avg - bb
                } else {
                    bb - avg
                };
                dj < db
            },
        };
        assert(better == beats(rs, j as int, best as int, quality, avg as nat));
        if better {
            best = j;
        }
        j = j + 1;
    }
    best
}

proof fn lemma_pick_from_props(reps: Seq<RepModel>, k: int, best: int, q: Quality, avg: nat)
    requires
        0 < k <= reps.len(),
        0 <= best < k,
        match q {
            Quality::Low => (forall|j: int| #![trigger reps[j]]
                0 <= j < k ==> reps[best].bandwidth <= reps[j].bandwidth) && (forall|j: int| #![trigger reps[j]]
                0 <= j < best ==> reps[j].bandwidth > reps[best].bandwidth),
            Quality::High => (forall|j: int| #![trigger reps[j]]
                0 <= j < k ==> reps[j].bandwidth <= reps[best].bandwidth) && (forall|j: int| #![trigger reps[j]]
                best < j < k ==> reps[j].bandwidth < reps[best].bandwidth),
            Quality::Medium => (forall|j: int| #![trigger reps[j]]
                0 <= j < k ==> bw_diff(avg, reps[best].bandwidth as nat) <= bw_diff(
                    avg,
                    reps[j].bandwidth as nat,
                )) && (forall|j: int| #![trigger reps[j]]
                0 <= j < best ==> bw_diff(avg, reps[j].bandwidth as nat) > bw_diff(
                    avg,
                    reps[best].bandwidth as nat,
                )),
        },
    ensures
        0 <= pick_from(reps, k, best, q, avg) < reps.len(),
        match q {
            Quality::Low => (forall|j: int| #![trigger reps[j]]
                0 <= j < reps.len() ==> reps[pick_from(reps, k, best, q, avg)].bandwidth
                    <= reps[j].bandwidth) && (forall|j: int| #![trigger reps[j]]
                0 <= j < pick_from(reps, k, best, q, avg) ==> reps[j].bandwidth > reps[pick_from(
                    reps,
                    k,
                    best,
                    q,
                    avg,
                )].bandwidth),
            Quality::High => (forall|j: int| #![trigger reps[j]]
                0 <= j < reps.len() ==> reps[j].bandwidth <= reps[pick_from(
                    reps,
                    k,
                    best,
                    q,
                    avg,
                )].bandwidth) && (forall|j: int| #![trigger reps[j]]
                pick_from(reps, k, best, q, avg) < j < reps.len() ==> reps[j].bandwidth
                    < reps[pick_from(reps, k, best, q, avg)].bandwidth),
            Quality::Medium => (forall|j: int| #![trigger reps[j]]
                0 <= j < reps.len() ==> bw_diff(
                    avg,
                    reps[pick_from(reps, k, best, q, avg)].bandwidth as nat,
                ) <= bw_diff(avg, reps[j].bandwidth as nat)) && (forall|j: int| #![trigger reps[j]]
                0 <= j < pick_from(reps, k, best, q, avg) ==> bw_diff(
                    avg,
                    reps[j].bandwidth as nat,
                ) > bw_diff(avg, reps[pick_from(reps, k, best, q, avg)].bandwidth as nat)),
        },
    decreases reps.len() - k,
{
    if k < reps.len() {
        if beats(reps, k, best, q, avg) {
            lemma_pick_from_props(reps, k + 1, k, q, avg);
        } else {
            lemma_pick_from_props(reps, k + 1, best, q, avg);
        }
    }
}

/// Law: the quality policy selects the first representation of minimal
/// bandwidth for `Low`, the last one of maximal bandwidth for `High`, and
/// the first one whose bandwidth lies closest to the arithmetic mean for
/// `Medium`.
pub proof fn lemma_select_quality(reps: Seq<RepModel>, q: Quality)
    requires
        reps.len() > 0,
    ensures
        0 <= select_index(reps, q) < reps.len(),
        match q {
            Quality::Low => (forall|j: int| #![trigger reps[j]]
                0 <= j < reps.len() ==> reps[select_index(reps, q)].bandwidth
                    <= reps[j].bandwidth) && (forall|j: int| #![trigger reps[j]]
                0 <= j < select_index(reps, q) ==> reps[j].bandwidth > reps[select_index(
                    reps,
                    q,
                )].bandwidth),
            Quality::High => (forall|j: int| #![trigger reps[j]]
                0 <= j < reps.len() ==> reps[j].bandwidth <= reps[select_index(
                    reps,
                    q,
                )].bandwidth) && (forall|j: int| #![trigger reps[j]]
                select_index(reps, q) < j < reps.len() ==> reps[j].bandwidth < reps[select_index(
                    reps,
                    q,
                )].bandwidth),
            Quality::Medium => (forall|j: int| #![trigger reps[j]]
                0 <= j < reps.len() ==> bw_diff(
                    mean_bw(reps),
                    reps[select_index(reps, q)].bandwidth as nat,
                ) <= bw_diff(mean_bw(reps), reps[j].bandwidth as nat)) && (forall|j: int| #![trigger reps[j]]
                0 <= j < select_index(reps, q) ==> bw_diff(
                    mean_bw(reps),
                    reps[j].bandwidth as nat,
                ) > bw_diff(mean_bw(reps), reps[select_index(reps, q)].bandwidth as nat)),
        },
{
    lemma_pick_from_props(reps, 1, 0, q, mean_bw(reps));
}

/// One segment-timeline entry: an optional explicit start time, a
/// duration, and an optional repeat count.
#[derive(Clone, Copy)]
pub struct Segment {
    pub time: Option<u64>,
    pub duration: u64,
    pub repeat: Option<u64>,
}

/// What one `S` entry parses to: its `t`, `d` and `r` attributes, where
/// `t` and `r` may be absent, or the first error.
pub open spec fn seg_of(n: XmlNode) -> Result<Segment, Seq<char>> {
    let t = match spec_attr(n, "t"@) {
        None => Ok(None),
        Some(ts) => match spec_parse_u64(ts) {
            None => Err("could not parse time"@),
            Some(v) => Ok(Some(v)),
        },
    };
    match t {
        Err(e) => Err(e),
        Ok(time) => match spec_attr(n, "d"@) {
            None => Err("node not found: S[@d]"@),
            Some(ds) => match spec_parse_u64(ds) {
                None => Err("could not parse duration"@),
                Some(duration) => {
                    let rr = match spec_attr(n, "r"@) {
                        None => Ok(None),
                        Some(rs) => match spec_parse_u64(rs) {
                            None => Err("could not parse repeat"@),
                            Some(v) => Ok(Some(v)),
                        },
                    };
                    match rr {
                        Err(e) => Err(e),
                        Ok(repeat) => Ok(Segment { time, duration, repeat }),
                    }
                },
            },
        },
    }
}

/// The parsed `S` entries from index `k` on, in document order, or the
/// first parse error.
pub open spec fn segs_from(cs: Seq<XmlNode>, k: int) -> Result<Seq<Segment>, Seq<char>>
    decreases cs.len() - k,
{
    if k < 0 || k >= cs.len() {
        Ok(seq![])
    } else if cs[k].tag@ != "S"@ {
        segs_from(cs, k + 1)
    } else {
        match seg_of(cs[k]) {
            Err(e) => Err(e),
            Ok(s) => match segs_from(cs, k + 1) {
                Ok(rest) => Ok(seq![s] + rest),
                Err(e) => Err(e),
            },
        }
    }
}

/// Parses one `S` entry.
fn seg_of_node(n: &XmlNode) -> (r: Result<Segment, Error>)
    ensures
        match r {
            Ok(s) => seg_of(*n) == Ok::<Segment, Seq<char>>(s),
            Err(e) => e matches Error::UnexpectedError(m) && seg_of(*n) == Err::<
                Segment,
                Seq<char>,
            >(m@),
        },
{
    let time = match attr_value(n, "t") {
        None => None,
        Some(ts) => match parse_u64(ts.as_str()) {
            None => {
                return Err(Error::UnexpectedError(String::from_str("could not parse time")));
            },
            Some(v) => Some(v),
        },
    };
    let duration = match attr_value(n, "d") {
        None => {
            proof {
                reveal_strlit("node not found: ");
                reveal_strlit("S[@d]");
                reveal_strlit("node not found: S[@d]");
                assert("node not found: "@ + "S[@d]"@ =~= "node not found: S[@d]"@);
            }
            return Err(node_not_found("S[@d]"));
        },
        Some(ds) => match parse_u64(ds.as_str()) {
            None => {
                return Err(Error::UnexpectedError(String::from_str("could not parse duration")));
            },
            Some(v) => v,
        },
    };
    let repeat = match attr_value(n, "r") {
        None => None,
        Some(rs) => match parse_u64(rs.as_str()) {
            None => {
                return Err(Error::UnexpectedError(String::from_str("could not parse repeat")));
            },
            Some(v) => Some(v),
        },
    };
    Ok(Segment { time, duration, repeat })
}

/// Collects the `S` entries of a segment timeline, in document order.
fn collect_segments(cs: &Vec<XmlNode>) -> (r: Result<Vec<Segment>, Error>)
    ensures
        match r {
            Ok(v) => segs_from(cs@, 0) == Ok::<Seq<Segment>, Seq<char>>(v@),
            Err(e) => e matches Error::UnexpectedError(m) && segs_from(cs@, 0) == Err::<
                Seq<Segment>,
                Seq<char>,
            >(m@),
        },
{
    let mut segs: Vec<Segment> = Vec::new();
    let mut k: usize = 0;
    let len = cs.len();
    while k < len
        invariant
            k <= len == cs@.len(),
            match segs_from(cs@, k as int) {
                Ok(rest) => segs_from(cs@, 0) == Ok::<Seq<Segment>, Seq<char>>(segs@ + rest),
                Err(e) => segs_from(cs@, 0) == Err::<Seq<Segment>, Seq<char>>(e),
            },
        decreases len - k,
    {
        let ghost pre = segs@;
        if str_eq(cs[k].tag.as_str(), "S") {
            match seg_of_node(&cs[k]) {
                Ok(s) => {
                    segs.push(s);
                    proof {
                        match segs_from(cs@, k + 1) {
                            Ok(rest) => {
                                assert(segs@ + rest =~= pre + (seq![s] + rest));
                            },
                            Err(_) => {},
                        }
                    }
                },
                Err(e) => {
                    return Err(e);
                },
            }
        }
        k = k + 1;
    }
    assert(segs@ + Seq::<Segment>::empty() =~= segs@);
    Ok(segs)
}

/// The chunk times of one entry: `count` times starting at `st`, each a
/// `d` step after the one before, and the cursor the entry advances to.
pub open spec fn expand_entry(st: nat, d: nat, count: nat) -> (Seq<nat>, nat)
    decreases count,
{
    if count == 0 {
        (seq![], st)
    } else {
        let rest = expand_entry(st + d, d, (count - 1) as nat);
        (seq![st] + rest.0, rest.1)
    }
}

/// The effective start of an entry: its explicit time, or the running
/// cursor.
pub open spec fn seg_start(s: Segment, cursor: nat) -> nat {
    match s.time {
        Some(t) => t as nat,
        None => cursor,
    }
}

/// How many chunks an entry yields: its repeat count plus one, with an
/// absent repeat count meaning exactly one.
pub open spec fn seg_count(s: Segment) -> nat {
    1 + match s.repeat {
        Some(r) => r as nat,
        None => 0,
    }
}

/// The chunk times of the timeline from entry `k` on, walking it with the
/// running cursor, and the final cursor.
pub open spec fn expand_from(segs: Seq<Segment>, k: int, cursor: nat) -> (Seq<nat>, nat)
    decreases segs.len() - k,
{
    if k < 0 || k >= segs.len() {
        (seq![], cursor)
    } else {
        let e = expand_entry(seg_start(segs[k], cursor), segs[k].duration as nat, seg_count(
            segs[k],
        ));
        let rest = expand_from(segs, k + 1, e.1);
        (e.0 + rest.0, rest.1)
    }
}

/// Whether every time the walk computes stays a 64-bit value.
pub open spec fn expand_fits(segs: Seq<Segment>, k: int, cursor: nat) -> bool
    decreases segs.len() - k,
{
    if k < 0 || k >= segs.len() {
        true
    } else {
        let e = expand_entry(seg_start(segs[k], cursor), segs[k].duration as nat, seg_count(
            segs[k],
        ));
        e.1 <= u64::MAX && expand_fits(segs, k + 1, e.1)
    }
}

/// The chunk times of a whole timeline, the cursor seeded at zero.
pub open spec fn expand_times(segs: Seq<Segment>) -> Seq<nat> {
    expand_from(segs, 0, 0).0
}

/// The times of one entry, written out: `count` times in arithmetic
/// progression from `st` with step `d`, the cursor advancing to
/// `st + count * d`.
pub proof fn lemma_expand_entry(st: nat, d: nat, count: nat)
    ensures
        expand_entry(st, d, count).0.len() == count,
        expand_entry(st, d, count).1 == st + count * d,
        forall|i: int| 0 <= i < count ==> expand_entry(st, d, count).0[i] == st + i * d,
    decreases count,
{
    if count == 0 {
        assert(st + 0 * d == st) by (nonlinear_arith);
    } else {
        lemma_expand_entry(st + d, d, (count - 1) as nat);
        let e = expand_entry(st, d, count);
        let rest = expand_entry(st + d, d, (count - 1) as nat);
        assert(st + d + (count - 1) * d == st + count * d) by (nonlinear_arith)
            requires
                count >= 1,
        ;
        assert forall|i: int| 0 <= i < count implies e.0[i] == st + i * d by {
            if i == 0 {
                assert(st + 0 * d == st) by (nonlinear_arith);
            } else {
                assert(rest.0[i - 1] == st + d + (i - 1) * d);
                assert(st + d + (i - 1) * d == st + i * d) by (nonlinear_arith)
                    requires
                        i >= 1,
                ;
            }
        }
    }
}

/// The values of a list of 64-bit times, as the mathematical times they
/// stand for.
pub open spec fn u64s_as_nats(s: Seq<u64>) -> Seq<nat> {
    s.map_values(|x: u64| x as nat)
}

/// Walks the timeline in order, seeding the running cursor at zero: each
/// entry starts at its explicit time, or at the cursor; it yields one time
/// per repetition, the duration apart; the cursor follows the last end.
/// Fails only where a computed time would no longer be a 64-bit value.
pub fn expand_timeline(segs: &Vec<Segment>) -> (r: Result<Vec<u64>, Error>)
    ensures
        match r {
            Ok(ts) => {
                &&& expand_fits(segs@, 0, 0)
                &&& u64s_as_nats(ts@) == expand_times(segs@)
            },
            Err(e) => !expand_fits(segs@, 0, 0) && (e matches Error::UnexpectedError(m) && m@
                == "segment timeline overflows"@),
        },
{
    let mut times: Vec<u64> = Vec::new();
    let mut cursor: u64 = 0;
    let mut k: usize = 0;
    let len = segs.len();
    while k < len
        invariant
            k <= len == segs@.len(),
            expand_fits(segs@, 0, 0) == expand_fits(segs@, k as int, cursor as nat),
            expand_times(segs@) == u64s_as_nats(times@) + expand_from(
                segs@,
                k as int,
                cursor as nat,
            ).0,
        decreases len - k,
    {
        let s = segs[k];
        let st0: u64 = match s.time {
            Some(t) => t,
            None => cursor,
        };
        let d = s.duration;
        let rep: u64 = match s.repeat {
            Some(r) => r,
            None => 0,
        };
        let count: u128 = rep as u128 + 1;
        let ghost e = expand_entry(st0 as nat, d as nat, seg_count(s));
        proof {
            assert(s == segs@[k as int]);
            assert(seg_start(segs@[k as int], cursor as nat) == st0 as nat);
            assert(seg_count(segs@[k as int]) == count as nat);
            assert(expand_from(segs@, k as int, cursor as nat).0 == e.0 + expand_from(
                segs@,
                k + 1,
                e.1,
            ).0);
            assert(expand_fits(segs@, k as int, cursor as nat) == (e.1 <= u64::MAX && expand_fits(
                segs@,
                k + 1,
                e.1,
            )));
        }
        let mut start = st0;
        let mut done: u128 = 0;
        while done < count
            invariant
                done <= count,
                count == seg_count(s),
                k < len == segs@.len(),
                s == segs@[k as int],
                d == s.duration,
                e == expand_entry(st0 as nat, d as nat, seg_count(s)),
                e.1 == expand_entry(start as nat, d as nat, (count - done) as nat).1,
                expand_times(segs@) == u64s_as_nats(times@) + expand_entry(
                    start as nat,
                    d as nat,
                    (count - done) as nat,
                ).0 + expand_from(segs@, k + 1, e.1).0,
                expand_fits(segs@, 0, 0) == (e.1 <= u64::MAX && expand_fits(segs@, k + 1, e.1)),
            decreases count - done,
        {
            let ghost pre = times@;
            let ghost remaining = (count - done) as nat;
            times.push(start);
            proof {
                assert(u64s_as_nats(times@) =~= u64s_as_nats(pre).push(start as nat));
                assert(expand_entry(start as nat, d as nat, remaining).0 == seq![start as nat]
                    + expand_entry(start as nat + d as nat, d as nat, (remaining - 1) as nat).0);
                assert(u64s_as_nats(pre) + expand_entry(start as nat, d as nat, remaining).0
                    + expand_from(segs@, k + 1, e.1).0 =~= u64s_as_nats(times@) + expand_entry(
                    start as nat + d as nat,
                    d as nat,
                    (remaining - 1) as nat,
                ).0 + expand_from(segs@, k + 1, e.1).0);
            }
            if d > u64::MAX - start {
                proof {
                    lemma_expand_entry(start as nat + d as nat, d as nat, (remaining - 1) as nat);
                    assert(e.1 >= start as nat + d as nat);
                }
                return Err(Error::UnexpectedError(String::from_str("segment timeline overflows")));
            }
            start = start + d;
            done = done + 1;
        }
        proof {
            assert(expand_entry(start as nat, d as nat, 0).0 =~= Seq::<nat>::empty());
            assert(e.1 == start as nat);
            assert(u64s_as_nats(times@) + Seq::<nat>::empty() + expand_from(segs@, k + 1, e.1).0
                =~= u64s_as_nats(times@) + expand_from(segs@, k + 1, start as nat).0);
        }
        cursor = start;
        k = k + 1;
    }
    proof {
        assert(expand_from(segs@, len as int, cursor as nat).0 =~= Seq::<nat>::empty());
        assert(u64s_as_nats(times@) + Seq::<nat>::empty() =~= u64s_as_nats(times@));
    }
    Ok(times)
}

/// The first `k` media-chunk URLs: the media template rendered with each
/// time in turn, resolved against the base URL; `None` where a resolution
/// fails.
pub open spec fn media_urls_prefix(
    toks: Seq<TokenModel>,
    rid: Seq<char>,
    base: Seq<char>,
    times: Seq<nat>,
    k: int,
) -> Option<Seq<Seq<char>>>
    decreases k,
{
    if k <= 0 {
        Some(seq![])
    } else {
        match media_urls_prefix(toks, rid, base, times, k - 1) {
            None => None,
            Some(us) => match joined_url(base, rendered_path(toks, rid, Some(times[k - 1] as u64))) {
                None => None,
                Some(u) => Some(us.push(u)),
            },
        }
    }
}

proof fn lemma_media_prefix_none(
    toks: Seq<TokenModel>,
    rid: Seq<char>,
    base: Seq<char>,
    times: Seq<nat>,
    j: int,
    k2: int,
)
    requires
        media_urls_prefix(toks, rid, base, times, j) is None,
        j <= k2,
    ensures
        media_urls_prefix(toks, rid, base, times, k2) is None,
    decreases k2 - j,
{
    if k2 > j {
        lemma_media_prefix_none(toks, rid, base, times, j, k2 - 1);
    }
}

/// What resolving one adaptation set yields: the selected representation's
/// id (by the quality policy for the video track, the first representation
/// for audio), the initialization URL first, then one URL per timeline
/// repetition — or the first error on the way there.
pub open spec fn spec_adaptation_urls(
    base: Seq<char>,
    n: XmlNode,
    q: Option<Quality>,
) -> Result<Seq<Seq<char>>, Seq<char>> {
    let rid_res: Result<Seq<char>, Seq<char>> = match q {
        Some(quality) => match reps_from(n.children@, 0) {
            Err(e) => Err(e),
            Ok(reps) => if reps.len() == 0 {
                Err("no representation nodes found"@)
            } else {
                Ok(reps[select_index(reps, quality)].id)
            },
        },
        None => match child_tag_from(n.children@, "Representation"@, 0) {
            None => Err("node not found: Representation"@),
            Some(i) => match spec_attr(n.children@[i], "id"@) {
                None => Err("node not found: Representation[@id]"@),
                Some(id) => Ok(id),
            },
        },
    };
    match rid_res {
        Err(e) => Err(e),
        Ok(rid) => match child_tag_from(n.children@, "SegmentTemplate"@, 0) {
            None => Err("node not found: SegmentTemplate"@),
            Some(sti) => match spec_attr(n.children@[sti], "initialization"@) {
                None => Err("node not found: SegmentTemplate[@intialization]"@),
                Some(init_t) => match spec_attr(n.children@[sti], "media"@) {
                    None => Err("node not found: SegmentTemplate[@media]"@),
                    Some(media_t) => match child_tag_from(
                        n.children@[sti].children@,
                        "SegmentTimeline"@,
                        0,
                    ) {
                        None => Err("node not found: SegmentTimeline"@),
                        Some(tli) => match segs_from(n.children@[sti].children@[tli].children@, 0) {
                            Err(e) => Err(e),
                            Ok(segs) => if segs.len() == 0 {
                                Err("no segments found"@)
                            } else {
                                match spec_scan(init_t) {
                                    Err(e) => Err(e),
                                    Ok(init_toks) => match joined_url(
                                        base,
                                        rendered_path(init_toks, rid, None),
                                    ) {
                                        None => Err("could not resolve segment url"@),
                                        Some(init_url) => match spec_scan(media_t) {
                                            Err(e) => Err(e),
                                            Ok(media_toks) => if !expand_fits(segs, 0, 0) {
                                                Err("segment timeline overflows"@)
                                            } else {
                                                let times = expand_times(segs);
                                                match media_urls_prefix(
                                                    media_toks,
                                                    rid,
                                                    base,
                                                    times,
                                                    times.len() as int,
                                                ) {
                                                    None => Err("could not resolve segment url"@),
                                                    Some(us) => Ok(seq![init_url] + us),
                                                }
                                            },
                                        },
                                    },
                                }
                            },
                        },
                    },
                },
            },
        },
    }
}

/// Resolves one adaptation set: selects a representation (per the quality
/// policy for video, the first one for audio), reads the segment template
/// and its timeline, and yields the initialization URL followed by every
/// media chunk URL in playback order.
pub fn urls_from_adaptation_set(
    base_url: &str,
    as_node: &XmlNode,
    maybe_quality: Option<Quality>,
) -> (r: Result<Vec<String>, Error>)
    ensures
        match r {
            Ok(v) => spec_adaptation_urls(base_url@, *as_node, maybe_quality) == Ok::<
                Seq<Seq<char>>,
                Seq<char>,
            >(v.deep_view()),
            Err(e) => e matches Error::UnexpectedError(m) && spec_adaptation_urls(
                base_url@,
                *as_node,
                maybe_quality,
            ) == Err::<Seq<Seq<char>>, Seq<char>>(m@),
        },
{
    let representation_id: String = match maybe_quality {
        Some(quality) => {
            let reps = match collect_representations(&as_node.children) {
                Ok(v) => v,
                Err(e) => {
                    return Err(e);
                },
            };
            if reps.len() == 0 {
                return Err(
                    Error::UnexpectedError(String::from_str("no representation nodes found")),
                );
            }
            let idx = select_representation(&reps, quality);
            let id = reps[idx].id.clone();
            assert(id@ == reps.deep_view()[idx as int].id);
            id
        },
        None => {
            let i = match find_child_by_tag(&as_node.children, "Representation") {
                Some(i) => i,
                None => {
                    proof {
                        reveal_strlit("node not found: ");
                        reveal_strlit("Representation");
                        reveal_strlit("node not found: Representation");
                        assert("node not found: "@ + "Representation"@
                            =~= "node not found: Representation"@);
                    }
                    return Err(node_not_found("Representation"));
                },
            };
            match attr_value(&as_node.children[i], "id") {
                Some(v) => v.clone(),
                None => {
                    proof {
                        reveal_strlit("node not found: ");
                        reveal_strlit("Representation[@id]");
                        reveal_strlit("node not found: Representation[@id]");
                        assert("node not found: "@ + "Representation[@id]"@
                            =~= "node not found: Representation[@id]"@);
                    }
                    return Err(node_not_found("Representation[@id]"));
                },
            }
        },
    };
    let sti = match find_child_by_tag(&as_node.children, "SegmentTemplate") {
        Some(i) => i,
        None => {
            proof {
                reveal_strlit("node not found: ");
                reveal_strlit("SegmentTemplate");
                reveal_strlit("node not found: SegmentTemplate");
                assert("node not found: "@ + "SegmentTemplate"@
                    =~= "node not found: SegmentTemplate"@);
            }
            return Err(node_not_found("SegmentTemplate"));
        },
    };
    let st_node = &as_node.children[sti];
    let init_template = match attr_value(st_node, "initialization") {
        Some(v) => v,
        None => {
            proof {
                reveal_strlit("node not found: ");
                reveal_strlit("SegmentTemplate[@intialization]");
                reveal_strlit("node not found: SegmentTemplate[@intialization]");
                assert("node not found: "@ + "SegmentTemplate[@intialization]"@
                    =~= "node not found: SegmentTemplate[@intialization]"@);
            }
            return Err(node_not_found("SegmentTemplate[@intialization]"));
        },
    };
    let media_template = match attr_value(st_node, "media") {
        Some(v) => v,
        None => {
            proof {
                reveal_strlit("node not found: ");
                reveal_strlit("SegmentTemplate[@media]");
                reveal_strlit("node not found: SegmentTemplate[@media]");
                assert("node not found: "@ + "SegmentTemplate[@media]"@
                    =~= "node not found: SegmentTemplate[@media]"@);
            }
            return Err(node_not_found("SegmentTemplate[@media]"));
        },
    };
    let tli = match find_child_by_tag(&st_node.children, "SegmentTimeline") {
        Some(i) => i,
        None => {
            proof {
                reveal_strlit("node not found: ");
                reveal_strlit("SegmentTimeline");
                reveal_strlit("node not found: SegmentTimeline");
                assert("node not found: "@ + "SegmentTimeline"@
                    =~= "node not found: SegmentTimeline"@);
            }
            return Err(node_not_found("SegmentTimeline"));
        },
    };
    let segs = match collect_segments(&st_node.children[tli].children) {
        Ok(v) => v,
        Err(e) => {
            return Err(e);
        },
    };
    if segs.len() == 0 {
        return Err(Error::UnexpectedError(String::from_str("no segments found")));
    }
    let init_st = match SegmentTemplate::new(base_url, init_template.as_str()) {
        Ok(st) => st,
        Err(e) => {
            return Err(e);
        },
    };
    let init_url = match init_st.render(representation_id.as_str(), None) {
        Ok(u) => u,
        Err(e) => {
            return Err(e);
        },
    };
    let media_st = match SegmentTemplate::new(base_url, media_template.as_str()) {
        Ok(st) => st,
        Err(e) => {
            return Err(e);
        },
    };
    let times = match expand_timeline(&segs) {
        Ok(ts) => ts,
        Err(e) => {
            return Err(e);
        },
    };
    let ghost toks = media_st.tokens.deep_view();
    let ghost rid = representation_id@;
    let ghost base = base_url@;
    let ghost tms = expand_times(segs@);
    proof {
        assert(tms == u64s_as_nats(times@));
    }
    let mut urls: Vec<String> = Vec::new();
    urls.push(init_url);
    let mut j: usize = 0;
    let total = times.len();
    while j < total
        invariant
            j <= total == times@.len(),
            toks == media_st.tokens.deep_view(),
            rid == representation_id@,
            base == media_st.base_url@,
            tms == u64s_as_nats(times@),
            urls.deep_view().len() == j + 1,
            urls.deep_view()[0] == init_url@,
            media_urls_prefix(toks, rid, base, tms, j as int) == Some(
                urls.deep_view().subrange(1, j + 1),
            ),
            spec_adaptation_urls(base_url@, *as_node, maybe_quality) == (match media_urls_prefix(
                toks,
                rid,
                base,
                tms,
                tms.len() as int,
            ) {
                None => Err::<Seq<Seq<char>>, Seq<char>>("could not resolve segment url"@),
                Some(us) => Ok::<Seq<Seq<char>>, Seq<char>>(seq![init_url@] + us),
            }),
        decreases total - j,
    {
        let ghost pre = urls.deep_view();
        proof {
            assert(tms[j as int] == times@[j as int] as nat);
            assert(tms[j as int] as u64 == times@[j as int]);
        }
        match media_st.render(representation_id.as_str(), Some(times[j])) {
            Ok(u) => {
                urls.push(u);
                proof {
                    assert(urls.deep_view() =~= pre.push(urls.deep_view()[(j + 1) as int]));
                    assert(urls.deep_view().subrange(1, j + 2) =~= pre.subrange(1, j + 1).push(
                        urls.deep_view()[(j + 1) as int],
                    ));
                }
            },
            Err(e) => {
                proof {
                    assert(media_urls_prefix(toks, rid, base, tms, j + 1) is None);
                    lemma_media_prefix_none(toks, rid, base, tms, j + 1, tms.len() as int);
                }
                return Err(e);
            },
        }
        j = j + 1;
    }
    proof {
        assert(urls.deep_view() =~= seq![init_url@] + urls.deep_view().subrange(
            1,
            (total + 1) as int,
        ));
    }
    Ok(urls)
}

/// The ordered chunk URLs of the two tracks of one manifest: the video
/// list and the audio list, the initialization segment first in each.
#[derive(Debug)]
pub struct MediaUrls {
    pub video: Vec<String>,
    pub audio: Vec<String>,
}

/// What resolving a whole manifest tree yields: the video adaptation set
/// resolved under the quality policy and the audio one under none, or the
/// first error: a missing playback period or a missing track.
pub open spec fn spec_resolve(doc: XmlNode, base: Seq<char>, q: Quality) -> Result<
    (Seq<Seq<char>>, Seq<Seq<char>>),
    Seq<char>,
> {
    match child_tag_from(doc.children@, "Period"@, 0) {
        None => Err("node not found: Period"@),
        Some(pi) => match child_attr_from(doc.children@[pi].children@, "mimeType"@, "video/mp4"@, 0) {
            None => Err("node not found: AdaptationSet[@mimeType=video/mp4]"@),
            Some(vi) => match child_attr_from(
                doc.children@[pi].children@,
                "mimeType"@,
                "audio/mp4"@,
                0,
            ) {
                None => Err("node not found: AdaptationSet[@mimeType=audio/mp4]"@),
                Some(ai) => match spec_adaptation_urls(base, doc.children@[pi].children@[vi], Some(q)) {
                    Err(e) => Err(e),
                    Ok(v) => match spec_adaptation_urls(base, doc.children@[pi].children@[ai], None) {
                        Err(e) => Err(e),
                        Ok(a) => Ok((v, a)),
                    },
                },
            },
        },
    }
}

/// Parses the manifest document and resolves both tracks: the playback
/// period's video adaptation set under the quality policy, its audio set
/// under none. Each list is in download order, initialization segment
/// first.
pub fn get_urls(base_url: &str, xml: &str, quality: Quality) -> (r: Result<MediaUrls, Error>)
    ensures
        match xml_doc_of(xml@) {
            Some(doc) => match spec_resolve(doc, base_url@, quality) {
                Ok(va) => r matches Ok(m) && m.video.deep_view() == va.0 && m.audio.deep_view()
                    == va.1,
                Err(msg) => r matches Err(e) && (e matches Error::UnexpectedError(m) && m@ == msg),
            },
            None => r matches Err(e) && e matches Error::UnexpectedError(_),
        },
{
    let doc = match parse_xml(xml) {
        Ok(t) => t,
        Err(e) => {
            return Err(e);
        },
    };
    let pi = match find_child_by_tag(&doc.children, "Period") {
        Some(i) => i,
        None => {
            proof {
                reveal_strlit("node not found: ");
                reveal_strlit("Period");
                reveal_strlit("node not found: Period");
                assert("node not found: "@ + "Period"@ =~= "node not found: Period"@);
            }
            return Err(node_not_found("Period"));
        },
    };
    let period = &doc.children[pi];
    let vi = match find_child_by_attr(&period.children, "mimeType", "video/mp4") {
        Some(i) => i,
        None => {
            proof {
                reveal_strlit("node not found: ");
                reveal_strlit("AdaptationSet[@mimeType=video/mp4]");
                reveal_strlit("node not found: AdaptationSet[@mimeType=video/mp4]");
                assert("node not found: "@ + "AdaptationSet[@mimeType=video/mp4]"@
                    =~= "node not found: AdaptationSet[@mimeType=video/mp4]"@);
            }
            return Err(node_not_found("AdaptationSet[@mimeType=video/mp4]"));
        },
    };
    let ai = match find_child_by_attr(&period.children, "mimeType", "audio/mp4") {
        Some(i) => i,
        None => {
            proof {
                reveal_strlit("node not found: ");
                reveal_strlit("AdaptationSet[@mimeType=audio/mp4]");
                reveal_strlit("node not found: AdaptationSet[@mimeType=audio/mp4]");
                assert("node not found: "@ + "AdaptationSet[@mimeType=audio/mp4]"@
                    =~= "node not found: AdaptationSet[@mimeType=audio/mp4]"@);
            }
            return Err(node_not_found("AdaptationSet[@mimeType=audio/mp4]"));
        },
    };
    let video = match urls_from_adaptation_set(base_url, &period.children[vi], Some(quality)) {
        Ok(v) => v,
        Err(e) => {
            return Err(e);
        },
    };
    let audio = match urls_from_adaptation_set(base_url, &period.children[ai], None) {
        Ok(v) => v,
        Err(e) => {
            return Err(e);
        },
    };
    Ok(MediaUrls { video, audio })
}

} // verus!
