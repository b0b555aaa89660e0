//! Destination naming and the mux stage's argument contract: the
//! filesystem-safe stem, collision-free `.mp4` names, the intermediate
//! segment names, the concat list, and the exact argument lists the
//! external muxer is invoked with.

use vstd::prelude::*;

use crate::errors::Error;
use crate::text::{dec_digits, push_char, spec_is_space, str_eq, u64_to_string, CharClass,
    is_in_class};

verus! {

/// The title with every white-space character turned into an underscore.
pub open spec fn ws_mapped(s: Seq<char>) -> Seq<char> {
    s.map_values(|c: char| if spec_is_space(c) {
        '_'
    } else {
        c
    })
}

/// What `sanitise_file_name::sanitise` turns a text into: a name safe to
/// use as a file name. The outcome is a function of the text alone.
pub uninterp spec fn sanitised(s: Seq<char>) -> Seq<char>;

/// Relies on `sanitise_file_name::sanitise`: derives a filesystem-safe
/// name; the crate documents that the result is never empty.
#[verifier::external_body]
fn sanitise_name(s: &str) -> (r: String)
    ensures
        r@ == sanitised(s@),
        r@.len() > 0,
{
    sanitise_file_name::sanitise(s)
}

/// Derives the destination file stem from the title and the video id:
/// white space becomes underscores, the result is sanitized, and the id is
/// appended after an underscore.
pub fn dest_file_stem(title: &str, video_id: &str) -> (r: String)
    ensures
        r@ == sanitised(ws_mapped(title@)) + "_"@ + video_id@,
{
    let n = title.unicode_len();
    let mut mapped = String::new();
    let mut i: usize = 0;
    while i < n
        invariant
            i <= n == title@.len(),
            mapped@.len() == i,
            forall|k: int|
                0 <= k < i ==> mapped@[k] == (if spec_is_space(title@[k]) {
                    '_'
                } else {
                    title@[k]
                }),
        decreases n - i,
    {
        let c = title.get_char(i);
        if is_in_class(c, CharClass::Space) {
            push_char(&mut mapped, '_');
        } else {
            push_char(&mut mapped, c);
        }
        i = i + 1;
    }
    assert(mapped@ =~= ws_mapped(title@));
    let mut stem = sanitise_name(mapped.as_str());
    stem.append("_");
    stem.append(video_id);
    stem
}

/// The `n`-th candidate file name: the stem with `.mp4`, or with a
/// ` _(n)` suffix before the extension for `n` above zero.
pub open spec fn candidate_name(stem: Seq<char>, n: nat) -> Seq<char> {
    if n == 0 {
        stem + ".mp4"@
    } else {
        stem + "_("@ + dec_digits(n) + ")"@ + ".mp4"@
    }
}

/// Builds the `n`-th candidate file name.
pub fn mp4_candidate(stem: &str, n: u64) -> (r: String)
    ensures
        r@ == candidate_name(stem@, n as nat),
{
    let mut s = stem.to_owned();
    if n == 0 {
        s.append(".mp4");
    } else {
        s.append("_(");
        let d = u64_to_string(n);
        s.append(d.as_str());
        s.append(")");
        s.append(".mp4");
    }
    s
}

/// Whether a name stands among the existing ones.
pub open spec fn name_taken(existing: Seq<Seq<char>>, name: Seq<char>) -> bool {
    exists|i: int| 0 <= i < existing.len() && existing[i] == name
}

fn taken(existing: &Vec<String>, name: &str) -> (r: bool)
    ensures
        r == name_taken(existing.deep_view(), name@),
{
    let mut k: usize = 0;
    let len = existing.len();
    while k < len
        invariant
            k <= len == existing@.len(),
            existing.deep_view().len() == len,
            forall|i: int| 0 <= i < k ==> existing.deep_view()[i] != name@,
        decreases len - k,
    {
        if str_eq(existing[k].as_str(), name) {
            assert(existing.deep_view()[k as int] == name@);
            return true;
        }
        assert(existing.deep_view()[k as int] == existing@[k as int]@);
        k = k + 1;
    }
    false
}

/// The first suffix number up to 254 whose candidate name is free, from
/// `n` on.
pub open spec fn first_free(stem: Seq<char>, existing: Seq<Seq<char>>, n: int) -> Option<int>
    decreases 255 - n,
{
    if n < 0 || n > 254 {
        None
    } else if !name_taken(existing, candidate_name(stem, n as nat)) {
        Some(n)
    } else {
        first_free(stem, existing, n + 1)
    }
}

/// Law: the resolved suffix is the least free one — its candidate is free
/// and every candidate below it is taken; where none resolves, every
/// candidate up to 254 is taken.
pub proof fn lemma_first_free(stem: Seq<char>, existing: Seq<Seq<char>>, n: int)
    requires
        0 <= n <= 254,
    ensures
        match first_free(stem, existing, n) {
            Some(m) => n <= m <= 254 && !name_taken(existing, candidate_name(stem, m as nat)) && (
            forall|k: int|
                n <= k < m ==> name_taken(existing, #[trigger] candidate_name(stem, k as nat))),
            None => forall|k: int|
                n <= k <= 254 ==> name_taken(existing, #[trigger] candidate_name(stem, k as nat)),
        },
    decreases 255 - n,
{
    if name_taken(existing, candidate_name(stem, n as nat)) {
        if n < 254 {
            lemma_first_free(stem, existing, n + 1);
        }
    }
}

/// Resolves the destination name against the names already present: the
/// plain `.mp4` name if it is free, else ` _(n)` suffixes for rising `n`;
/// exhausting the suffixes is an already-exists failure, never an
/// overwrite.
pub fn check_mp4_path(stem: &str, existing: &Vec<String>) -> (r: Result<String, Error>)
    ensures
        match r {
            Ok(p) => first_free(stem@, existing.deep_view(), 0) matches Some(n) && p@
                == candidate_name(stem@, n as nat),
            Err(e) => first_free(stem@, existing.deep_view(), 0) is None && (
            e matches Error::FileError(m) && m@ == "entity already exists"@),
        },
{
    let mut n: u64 = 0;
    while n <= 254
        invariant
            n <= 255,
            first_free(stem@, existing.deep_view(), 0) == first_free(
                stem@,
                existing.deep_view(),
                n as int,
            ),
        decreases 255 - n,
    {
        let cand = mp4_candidate(stem, n);
        if !taken(existing, cand.as_str()) {
            return Ok(cand);
        }
        n = n + 1;
    }
    Err(Error::FileError(String::from_str("entity already exists")))
}

/// The intermediate file name of the `idx`-th manifest of a segmented
/// video.
pub fn segment_file_name(idx: u64) -> (r: String)
    ensures
        r@ == dec_digits(idx as nat) + ".mp4"@,
{
    let mut s = u64_to_string(idx);
    s.append(".mp4");
    s
}

/// The concat list naming the first `n` intermediate files in order, one
/// `file '<idx>.mp4'` line each.
pub open spec fn concat_list_to(n: int) -> Seq<char>
    decreases n,
{
    if n <= 0 {
        Seq::empty()
    } else {
        concat_list_to(n - 1) + "file '"@ + dec_digits((n - 1) as nat) + ".mp4'\n"@
    }
}

/// Writes the concat list for `count` intermediate files.
pub fn concat_list(count: u64) -> (r: String)
    ensures
        r@ == concat_list_to(count as int),
{
    let mut s = String::new();
    let mut i: u64 = 0;
    while i < count
        invariant
            i <= count,
            s@ == concat_list_to(i as int),
        decreases count - i,
    {
        s.append("file '");
        let d = u64_to_string(i);
        s.append(d.as_str());
        s.append(".mp4'\n");
        i = i + 1;
    }
    s
}

/// The argument list of one mux run: two inputs copied without
/// re-encoding, the first mapped to the video stream and the second to the
/// audio stream, written to the destination path.
pub fn mux_args(video_path: &str, audio_path: &str, dest_path: &str) -> (r: Vec<String>)
    ensures
        r.deep_view() =~= seq![
            "-i"@,
            video_path@,
            "-i"@,
            audio_path@,
            "-codec"@,
            "copy"@,
            "-map"@,
            "0:v"@,
            "-map"@,
            "1:a"@,
            dest_path@,
        ],
{
    let mut v: Vec<String> = Vec::new();
    v.push(String::from_str("-i"));
    v.push(video_path.to_owned());
    v.push(String::from_str("-i"));
    v.push(audio_path.to_owned());
    v.push(String::from_str("-codec"));
    v.push(String::from_str("copy"));
    v.push(String::from_str("-map"));
    v.push(String::from_str("0:v"));
    v.push(String::from_str("-map"));
    v.push(String::from_str("1:a"));
    v.push(dest_path.to_owned());
    v
}

/// The argument list of the concat pass of a segmented video: the concat
/// list as input, streams copied, written to the destination path.
pub fn concat_args(dest_path: &str) -> (r: Vec<String>)
    ensures
        r.deep_view() =~= seq![
            "-f"@,
            "concat"@,
            "-i"@,
            "concat.txt"@,
            "-codec"@,
            "copy"@,
            dest_path@,
        ],
{
    let mut v: Vec<String> = Vec::new();
    v.push(String::from_str("-f"));
    v.push(String::from_str("concat"));
    v.push(String::from_str("-i"));
    v.push(String::from_str("concat.txt"));
    v.push(String::from_str("-codec"));
    v.push(String::from_str("copy"));
    v.push(dest_path.to_owned());
    v
}

} // verus!
