//! Exploration maps: body compression, stored stale reasons, and the
//! consumer-feedback and review decisions.
use vstd::prelude::*;
use crate::rows::BrokenAnchor;
use crate::lexical::sort_dedup;

verus! {

/// zstd compression level for map bodies (matches the CLI upload level).
pub const BODY_COMPRESSION_LEVEL: i32 = 3;

/// The zstd frame `zstd::stream::encode_all` produces for `data` at `level`.
pub uninterp spec fn zstd_frame(data: Seq<u8>, level: i32) -> Seq<u8>;

#[verifier::external_type_specification]
#[verifier::external_body]
pub struct ExIoError(std::io::Error);

#[verifier::external_type_specification]
#[verifier::external_body]
pub struct ExFromUtf8Error(std::string::FromUtf8Error);

/// What `zstd::stream::decode_all` gives back for `data`: the decompressed
/// bytes, or `None` when `data` is not a zstd stream.
pub uninterp spec fn zstd_decoded(data: Seq<u8>) -> Option<Seq<u8>>;

/// `zstd::stream::encode_all`: compress `data` into one zstd frame. For
/// in-memory input at a standard level the encoder reads a slice and writes
/// a `Vec`, neither of which fails, so the frame is always produced.
#[verifier::external_body]
fn zstd_encode_all(data: &[u8], level: i32) -> (r: Result<Vec<u8>, std::io::Error>)
    requires
        1 <= level <= 22,
    ensures
        r is Ok,
        r is Ok ==> r->Ok_0@ == zstd_frame(data@, level),
{
    zstd::stream::encode_all(data, level)
}

/// `zstd::stream::decode_all`: decompress a zstd stream. zstd is lossless:
/// a frame made from some data decodes back to that data.
#[verifier::external_body]
fn zstd_decode_all(data: &[u8]) -> (r: Result<Vec<u8>, std::io::Error>)
    ensures
        r is Ok ==> zstd_decoded(data@) == Some(r->Ok_0@),
        r is Err ==> zstd_decoded(data@) is None,
        forall|orig: Seq<u8>, level: i32| data@ == #[trigger] zstd_frame(orig, level) ==> r is Ok && r->Ok_0@ == orig,
{
    zstd::stream::decode_all(data)
}

/// `String::from_utf8`: the string the bytes encode, when they are valid
/// UTF-8.
#[verifier::external_body]
fn string_from_utf8(bytes: Vec<u8>) -> (r: Result<String, std::string::FromUtf8Error>)
    ensures
        match r {
            Ok(s) => vstd::utf8::valid_utf8(bytes@) && s@ == vstd::utf8::decode_utf8(bytes@),
            Err(_) => !vstd::utf8::valid_utf8(bytes@),
        },
{
    String::from_utf8(bytes)
}

/// Why a stored map body could not be produced or read back.
#[derive(Debug, Clone, Copy, PartialEq, Eq)]
pub enum BodyError {
    /// zstd could not compress the body.
    Compress,
    /// The stored bytes are not a zstd stream.
    Decompress,
    /// The decompressed bytes are not UTF-8.
    NotUtf8,
}

/// The stored form of a markdown body: its UTF-8 bytes in one zstd frame.
pub open spec fn compressed_body_spec(markdown: Seq<char>) -> Seq<u8> {
    zstd_frame(vstd::utf8::encode_utf8(markdown), BODY_COMPRESSION_LEVEL)
}

/// Compress a markdown body for storage.
pub fn compress_body(markdown: &str) -> (r: Result<Vec<u8>, BodyError>)
    ensures
        r matches Ok(v) && v@ == compressed_body_spec(markdown@),
{
    match zstd_encode_all(markdown.as_bytes(), BODY_COMPRESSION_LEVEL) {
        Ok(v) => Ok(v),
        Err(_) => Err(BodyError::Compress),
    }
}

/// What reading back stored body bytes gives: the markdown their zstd stream
/// decodes to, `Decompress` when they are no zstd stream, `NotUtf8` when the
/// decoded bytes are not UTF-8.
pub open spec fn decompressed_body_spec(bytes: Seq<u8>) -> Result<Seq<char>, BodyError> {
    match zstd_decoded(bytes) {
        None => Err(BodyError::Decompress),
        Some(raw) => if vstd::utf8::valid_utf8(raw) {
            Ok(vstd::utf8::decode_utf8(raw))
        } else {
            Err(BodyError::NotUtf8)
        },
    }
}

/// Decompress a stored body back to markdown. A body stored by
/// [`compress_body`] always reads back as the markdown that was written.
pub fn decompress_body(bytes: &[u8]) -> (r: Result<String, BodyError>)
    ensures
        forall|markdown: Seq<char>| bytes@ == #[trigger] compressed_body_spec(markdown)
            ==> (r matches Ok(s) && s@ == markdown),
        match r {
            Ok(s) => decompressed_body_spec(bytes@) == Ok::<Seq<char>, BodyError>(s@),
            Err(e) => decompressed_body_spec(bytes@) == Err::<Seq<char>, BodyError>(e),
        },
{
    match zstd_decode_all(bytes) {
        Ok(raw) => {
            let ghost raw_view = raw@;
            let r = string_from_utf8(raw);
            proof {
                assert forall|markdown: Seq<char>| bytes@ == #[trigger] compressed_body_spec(markdown)
                    implies (r matches Ok(s) && s@ == markdown) by {
                    let enc = vstd::utf8::encode_utf8(markdown);
                    assert(bytes@ == zstd_frame(enc, BODY_COMPRESSION_LEVEL));
                    assert(raw_view == enc);
                    vstd::utf8::encode_utf8_valid_utf8(markdown);
                    vstd::utf8::encode_utf8_decode_utf8(markdown);
                }
            }
            match r {
                Ok(s) => Ok(s),
                Err(_) => Err(BodyError::NotUtf8),
            }
        }
        Err(_) => {
            proof {
                assert forall|markdown: Seq<char>| bytes@ == #[trigger] compressed_body_spec(markdown) implies false by {
                    assert(bytes@ == zstd_frame(vstd::utf8::encode_utf8(markdown), BODY_COMPRESSION_LEVEL));
                }
            }
            Err(BodyError::Decompress)
        }
    }
}

/// The list of strings a JSON text denotes, when it is a JSON array of
/// strings, as `serde_json::from_str::<Vec<String>>` reads it.
pub uninterp spec fn json_string_array(text: Seq<char>) -> Option<Seq<Seq<char>>>;

/// `serde_json::from_str::<Vec<String>>`: parse a JSON array of strings.
#[verifier::external_body]
fn parse_json_string_array(text: &str) -> (r: Option<Vec<String>>)
    ensures
        match json_string_array(text@) {
            Some(v) => r matches Some(items) && items@.map_values(|s: String| s@) == v,
            None => r is None,
        },
{
    serde_json::from_str::<Vec<String>>(text).ok()
}

/// Strings held by a nullable JSON string-array column: empty when NULL,
/// empty text or malformed.
pub open spec fn json_column_spec(text: Option<Seq<char>>) -> Seq<Seq<char>> {
    match text {
        Some(s) => if s.len() > 0 {
            match json_string_array(s) {
                Some(v) => v,
                None => Seq::empty(),
            }
        } else {
            Seq::empty()
        },
        None => Seq::empty(),
    }
}

/// Parse a nullable JSON string-array column, tolerating malformed data
/// (treated as empty) and NULL/empty values.
pub fn parse_json_array(text: Option<String>) -> (v: Vec<String>)
    ensures
        v@.map_values(|s: String| s@) == json_column_spec(match text { Some(s) => Some(s@), None => None }),
{
    match text {
        Some(s) => {
            if s.as_str().unicode_len() > 0 {
                match parse_json_string_array(s.as_str()) {
                    Some(v) => v,
                    None => {
                        let v: Vec<String> = Vec::new();
                        proof {
                            assert(v@.map_values(|s: String| s@) =~= Seq::<Seq<char>>::empty());
                        }
                        v
                    }
                }
            } else {
                let v: Vec<String> = Vec::new();
                proof {
                    assert(v@.map_values(|s: String| s@) =~= Seq::<Seq<char>>::empty());
                }
                v
            }
        }
        None => {
            let v: Vec<String> = Vec::new();
            proof {
                assert(v@.map_values(|s: String| s@) =~= Seq::<Seq<char>>::empty());
            }
            v
        }
    }
}

/// Parse the `stale_reason` JSON column into a list of broken paths.
pub fn parse_stale_reason(text: Option<String>) -> (v: Vec<String>)
    ensures
        v@.map_values(|s: String| s@) == json_column_spec(match text { Some(s) => Some(s@), None => None }),
{
    parse_json_array(text)
}

/// The contract version a map is stored under: the one it was submitted
/// with, or `default` when it came with none.
pub fn effective_template_version(given: &str, default: &str) -> (v: String)
    ensures
        v@ == if given@.len() == 0 { default@ } else { given@ },
{
    if given.unicode_len() == 0 {
        default.to_owned()
    } else {
        given.to_owned()
    }
}

/// Direction of consumer feedback.
#[derive(Debug, Clone, Copy, PartialEq, Eq, Structural)]
pub enum FeedbackKind {
    /// Consumer verified the described mechanism in current code.
    Confirm,
    /// Consumer found evidence contradicting the map.
    Contradict,
}

/// Outcome of a feedback submission.
#[derive(Debug, Clone, Copy, PartialEq, Eq, Structural)]
pub enum FeedbackOutcome {
    /// The map was confirmed; counter updated.
    Confirmed {
        /// Total confirms after this submission.
        confirmed: i64,
    },
    /// The map was contradicted; counter updated.
    Contradicted {
        /// Total contradictions after this submission.
        contradicted: i64,
        /// Whether this contradiction crossed the limit and retired the map.
        auto_retired: bool,
    },
}

/// Whether a map with `contradicted` contradictions must be retired under a
/// `contradiction_limit` (a non-positive limit disables retirement).
pub fn crosses_retire_threshold(contradicted: i64, contradiction_limit: i64) -> (r: bool)
    ensures
        r == (contradiction_limit > 0 && contradicted >= contradiction_limit),
{
    contradiction_limit > 0 && contradicted >= contradiction_limit
}

/// Outcome reported for a contradiction: `retired_now` says whether the
/// retirement update changed the map (it was not retired already).
pub fn contradiction_outcome(contradicted: i64, contradiction_limit: i64, retired_now: bool) -> (o: FeedbackOutcome)
    ensures
        o == (FeedbackOutcome::Contradicted {
            contradicted,
            auto_retired: contradiction_limit > 0 && contradicted >= contradiction_limit && retired_now,
        }),
{
    let crossed = crosses_retire_threshold(contradicted, contradiction_limit);
    FeedbackOutcome::Contradicted { contradicted, auto_retired: crossed && retired_now }
}

/// Status a reviewed map moves to: `fresh` when approved, `retired` when
/// rejected.
pub fn review_target_status(approved: bool) -> (s: &'static str)
    ensures
        approved ==> s@ == seq!['f', 'r', 'e', 's', 'h'],
        !approved ==> s@ == seq!['r', 'e', 't', 'i', 'r', 'e', 'd'],
{
    if approved {
        proof {
            reveal_strlit("fresh");
        }
        "fresh"
    } else {
        proof {
            reveal_strlit("retired");
        }
        "retired"
    }
}


/// The JSON text `serde_json::to_string` writes for a list of strings.
pub uninterp spec fn json_of_strings(items: Seq<Seq<char>>) -> Seq<char>;

/// `serde_json::to_string::<Vec<String>>`: render a JSON array of strings.
/// Its documentation says serialization fails only when a `Serialize` impl
/// decides to fail or a map has non-string keys; the impls for `Vec` and
/// `String` write to an in-memory buffer and never fail, so a list of strings
/// always renders. Reading the text back with
/// `serde_json::from_str::<Vec<String>>` gives the same list.
#[verifier::external_body]
pub(crate) fn to_json_string_array(items: &Vec<String>) -> (r: Option<String>)
    ensures
        r is Some,
        r matches Some(s) ==> s@ == json_of_strings(items@.map_values(|x: String| x@))
            && json_string_array(s@) == Some(items@.map_values(|x: String| x@)),
{
    serde_json::to_string(items).ok()
}

/// Broken anchors of one exploration map, gathered for its stale reason.
#[derive(Debug)]
pub struct StaleGroup {
    /// Numeric rowid of the map.
    pub id: i64,
    /// Stable id of the map (as first reported).
    pub exploration_id: String,
    /// Broken paths, sorted and de-duplicated.
    pub paths: Vec<String>,
}

/// Paths reported broken for map `id`.
pub open spec fn paths_of(broken: Seq<BrokenAnchor>, id: i64) -> Set<Seq<char>> {
    Set::new(|p: Seq<char>| exists|k: int| 0 <= k < broken.len() && broken[k].id == id && broken[k].path@ == p)
}

/// Some anchor of map `id` was reported broken.
pub open spec fn has_report(broken: Seq<BrokenAnchor>, id: i64) -> bool {
    exists|k: int| 0 <= k < broken.len() && broken[k].id == id
}

/// Some group is about map `id`.
pub open spec fn has_group(groups: Seq<StaleGroup>, id: i64) -> bool {
    exists|g: int| 0 <= g < groups.len() && groups[g].id == id
}

/// `k` is the first report for map `id`.
pub open spec fn first_report(broken: Seq<BrokenAnchor>, id: i64, k: int) -> bool {
    &&& 0 <= k < broken.len()
    &&& broken[k].id == id
    &&& forall|t: int| 0 <= t < k ==> broken[t].id != id
}

fn first_report_of(broken: &Vec<BrokenAnchor>, id: i64) -> (k: usize)
    requires
        exists|t: int| 0 <= t < broken@.len() && broken@[t].id == id,
    ensures
        first_report(broken@, id, k as int),
{
    let mut k: usize = 0;
    while k < broken.len()
        invariant
            k <= broken@.len(),
            forall|t: int| 0 <= t < k ==> broken@[t].id != id,
            exists|t: int| 0 <= t < broken@.len() && broken@[t].id == id,
        decreases broken@.len() - k,
    {
        if broken[k].id == id {
            return k;
        }
        k = k + 1;
    }
    proof {
        let t = choose|t: int| 0 <= t < broken@.len() && broken@[t].id == id;
        assert(false);
    }
    0
}

/// Distinct map rowids among the reports, ascending.
fn distinct_report_ids(broken: &Vec<BrokenAnchor>) -> (ids: Vec<i64>)
    ensures
        forall|a: int, b: int| 0 <= a < b < ids@.len() ==> ids@[a] < ids@[b],
        forall|id: i64| ids@.contains(id) <==> (exists|k: int| 0 <= k < broken@.len() && broken@[k].id == id),
{
    // Distinct rowids, ascending.
    let mut ids: Vec<i64> = Vec::new();
    let mut i: usize = 0;
    while i < broken.len()
        invariant
            i <= broken@.len(),
            forall|a: int, b: int| 0 <= a < b < ids@.len() ==> ids@[a] < ids@[b],
            forall|id: i64| ids@.contains(id) <==> (exists|k: int| 0 <= k < i && broken@[k].id == id),
        decreases broken@.len() - i,
    {
        let id = broken[i].id;
        let mut j: usize = 0;
        while j < ids.len() && ids[j] < id
            invariant
                j <= ids@.len(),
                forall|t: int| 0 <= t < j ==> ids@[t] < id,
            decreases ids@.len() - j,
        {
            j = j + 1;
        }
        if !(j < ids.len() && ids[j] == id) {
            let ghost before = ids@;
            ids.insert(j, id);
            proof {
                assert(ids@ =~= before.insert(j as int, id));
                assert forall|a: int, b: int| 0 <= a < b < ids@.len() implies ids@[a] < ids@[b] by {
                    if b < j {
                    } else if b == j {
                    } else if a == j {
                        assert(ids@[b] == before[b - 1]);
                        if b - 1 > j {
                            assert(before[j as int] < before[b - 1]);
                        }
                        assert(before[j as int] >= id);
                    } else if a < j {
                        assert(ids@[b] == before[b - 1]);
                    } else {
                    }
                }
                assert forall|x: i64| ids@.contains(x) <==> (exists|k: int| 0 <= k < i + 1 && broken@[k].id == x) by {
                    if ids@.contains(x) {
                        let t = choose|t: int| 0 <= t < ids@.len() && ids@[t] == x;
                        if t < j {
                            assert(before[t] == x);
                            assert(before.contains(x));
                        } else if t > j {
                            assert(before[t - 1] == x);
                            assert(before.contains(x));
                        } else {
                            assert(broken@[i as int].id == x);
                        }
                    }
                    if exists|k: int| 0 <= k < i + 1 && broken@[k].id == x {
                        if x == id {
                            assert(ids@[j as int] == x);
                        } else {
                            let k = choose|k: int| 0 <= k < i + 1 && broken@[k].id == x;
                            assert(k < i);
                            assert(before.contains(x));
                            let t = choose|t: int| 0 <= t < before.len() && before[t] == x;
                            if t < j {
                                assert(ids@[t] == x);
                            } else {
                                assert(ids@[t + 1] == x);
                            }
                        }
                    }
                }
            }
        } else {
            proof {
                assert forall|x: i64| ids@.contains(x) <==> (exists|k: int| 0 <= k < i + 1 && broken@[k].id == x) by {
                    if x == id {
                        assert(ids@[j as int] == x);
                    }
                    if exists|k: int| 0 <= k < i + 1 && broken@[k].id == x {
                        let k = choose|k: int| 0 <= k < i + 1 && broken@[k].id == x;
                        if k == i {
                            assert(ids@[j as int] == x);
                        }
                    }
                }
            }
        }
        i = i + 1;
    }
    ids
}

/// Paths reported broken for map `id`, in report order (repeats kept).
fn reported_paths(broken: &Vec<BrokenAnchor>, id: i64) -> (raw: Vec<String>)
    ensures
        raw@.map_values(|s: String| s@).to_set() == paths_of(broken@, id),
{
    let mut raw: Vec<String> = Vec::new();
    let mut k: usize = 0;
    while k < broken.len()
        invariant
            k <= broken@.len(),
            raw@.map_values(|s: String| s@).to_set() ==
                Set::new(|p: Seq<char>| exists|t: int| 0 <= t < k && broken@[t].id == id && broken@[t].path@ == p),
        decreases broken@.len() - k,
    {
        let ghost before = raw@.map_values(|s: String| s@);
        if broken[k].id == id {
            raw.push(broken[k].path.clone());
            proof {
                let nv = raw@.map_values(|s: String| s@);
                assert(nv =~= before.push(broken@[k as int].path@));
                before.lemma_push_to_set_commute(broken@[k as int].path@);
            }
        }
        proof {
            let nv = raw@.map_values(|s: String| s@);
            assert(nv.to_set() =~= Set::new(|p: Seq<char>| exists|t: int| 0 <= t < k + 1 && broken@[t].id == id && broken@[t].path@ == p)) by {
                assert forall|p: Seq<char>| nv.to_set().contains(p) <==>
                    (exists|t: int| 0 <= t < k + 1 && broken@[t].id == id && broken@[t].path@ == p) by {
                    if exists|t: int| 0 <= t < k + 1 && broken@[t].id == id && broken@[t].path@ == p {
                        let t = choose|t: int| 0 <= t < k + 1 && broken@[t].id == id && broken@[t].path@ == p;
                        if t < k {
                            assert(before.to_set().contains(p));
                        }
                    }
                }
            }
        }
        k = k + 1;
    }
    proof {
        assert(raw@.map_values(|s: String| s@).to_set() =~= paths_of(broken@, id));
    }
    raw
}

/// Group broken anchors by map, in ascending rowid order: each map once,
/// with the id it was first reported under and its broken paths sorted and
/// de-duplicated.
#[verifier::spinoff_prover]
pub fn group_broken_anchors(broken: &Vec<BrokenAnchor>) -> (groups: Vec<StaleGroup>)
    ensures
        forall|a: int, b: int| 0 <= a < b < groups@.len() ==> groups@[a].id < groups@[b].id,
        forall|id: i64| #[trigger] has_group(groups@, id) <==> has_report(broken@, id),
        forall|g: int| 0 <= g < groups@.len() ==> {
            &&& exists|k: int| first_report(broken@, groups@[g].id, k) && groups@[g].exploration_id@ == broken@[k].exploration_id@
            &&& crate::lexical::strictly_sorted(groups@[g].paths@.map_values(|s: String| s@))
            &&& groups@[g].paths@.map_values(|s: String| s@).to_set() == paths_of(broken@, groups@[g].id)
        },
{
    let ids = distinct_report_ids(broken);
    let mut groups: Vec<StaleGroup> = Vec::new();
    let mut g: usize = 0;
    while g < ids.len()
        invariant
            g <= ids@.len(),
            groups@.len() == g,
            forall|a: int, b: int| 0 <= a < b < ids@.len() ==> ids@[a] < ids@[b],
            forall|id: i64| ids@.contains(id) <==> (exists|k: int| 0 <= k < broken@.len() && broken@[k].id == id),
            forall|t: int| 0 <= t < g ==> groups@[t].id == ids@[t],
            forall|t: int| 0 <= t < g ==> {
                &&& exists|k: int| first_report(broken@, groups@[t].id, k) && groups@[t].exploration_id@ == broken@[k].exploration_id@
                &&& crate::lexical::strictly_sorted(groups@[t].paths@.map_values(|s: String| s@))
                &&& groups@[t].paths@.map_values(|s: String| s@).to_set() == paths_of(broken@, groups@[t].id)
            },
        decreases ids@.len() - g,
    {
        let id = ids[g];
        proof {
            assert(ids@.contains(id));
        }
        let first = first_report_of(broken, id);
        let raw = reported_paths(broken, id);
        let paths = sort_dedup(&raw);
        let ghost before_groups = groups@;
        let eid = broken[first].exploration_id.clone();
        groups.push(StaleGroup { id, exploration_id: eid, paths });
        proof {
            assert(groups@[g as int].exploration_id@ == broken@[first as int].exploration_id@);
            assert(first_report(broken@, groups@[g as int].id, first as int));
            assert forall|t: int| 0 <= t < g implies groups@[t] == before_groups[t] by {}
        }
        g = g + 1;
    }
    proof {
        assert forall|a: int, b: int| 0 <= a < b < groups@.len() implies groups@[a].id < groups@[b].id by {
            assert(groups@[a].id == ids@[a]);
            assert(groups@[b].id == ids@[b]);
        }
        assert forall|id: i64| #[trigger] has_group(groups@, id) <==> has_report(broken@, id) by {
            if has_group(groups@, id) {
                let t = choose|t: int| 0 <= t < groups@.len() && groups@[t].id == id;
                assert(ids@.contains(id));
            }
            if has_report(broken@, id) {
                assert(ids@.contains(id));
                let t = choose|t: int| 0 <= t < ids@.len() && ids@[t] == id;
                assert(groups@[t].id == id);
            }
        }
    }
    groups
}

/// The stale reason stored for a map: its broken paths as a JSON array
/// (always rendered). Read back with [`parse_stale_reason`], it gives the
/// same paths.
pub fn stale_reason_json(paths: &Vec<String>) -> (r: Option<String>)
    ensures
        r is Some,
        r matches Some(s) ==> s@ == json_of_strings(paths@.map_values(|x: String| x@))
            && json_string_array(s@) == Some(paths@.map_values(|x: String| x@)),
{
    to_json_string_array(paths)
}

} // verus!
