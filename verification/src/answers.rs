//! Column values of a stored QA answer.
use vstd::prelude::*;
use crate::explorations::to_json_string_array;
use crate::rows::StoreAnswerInput;

verus! {

/// Snapshot stored for an answer that came without one: an empty JSON
/// object.
pub open spec fn empty_snapshot() -> Seq<char> {
    seq!['{', '}']
}

/// The text columns a stored answer writes besides its own fields.
#[derive(Debug, Clone)]
pub struct AnswerColumns {
    /// `source_chunk_ids` as a JSON array of strings.
    pub chunk_ids_json: String,
    /// `source_hashes` as a JSON array of strings.
    pub hashes_json: String,
    /// The thresholds snapshot, `{}` when none was given.
    pub snapshot: String,
}

/// Render the JSON provenance columns and the snapshot of an answer.
pub fn answer_columns(input: &StoreAnswerInput) -> (c: AnswerColumns)
    ensures
        c.chunk_ids_json@ == crate::explorations::json_of_strings(input.source_chunk_ids@.map_values(|x: String| x@)),
        c.hashes_json@ == crate::explorations::json_of_strings(input.source_hashes@.map_values(|x: String| x@)),
        c.snapshot@ == match input.tier_snapshot {
            Some(s) => s@,
            None => empty_snapshot(),
        },
{
    let chunk_ids_json = match to_json_string_array(&input.source_chunk_ids) {
        Some(s) => s,
        None => String::new(),
    };
    let hashes_json = match to_json_string_array(&input.source_hashes) {
        Some(s) => s,
        None => String::new(),
    };
    let snapshot = match &input.tier_snapshot {
        Some(s) => s.clone(),
        None => {
            proof {
                reveal_strlit("{}");
                assert("{}"@ =~= empty_snapshot());
            }
            "{}".to_owned()
        }
    };
    AnswerColumns { chunk_ids_json, hashes_json, snapshot }
}

} // verus!
