//! The stored form of the hold marks of a poker game.

use vstd::prelude::*;

verus! {

/// A truth value in JSON.
pub open spec fn bool_json(b: bool) -> Seq<char> {
    if b {
        "true"@
    } else {
        "false"@
    }
}

/// The elements of a JSON array of truth values.
pub open spec fn elements_json(list: Seq<bool>) -> Seq<char>
    decreases list.len(),
{
    if list.len() == 0 {
        Seq::empty()
    } else if list.len() == 1 {
        bool_json(list[0])
    } else {
        elements_json(list.drop_last()) + ","@ + bool_json(list.last())
    }
}

/// A list of truth values as a JSON array, without white space.
pub open spec fn holds_json(list: Seq<bool>) -> Seq<char> {
    "["@ + elements_json(list) + "]"@
}

/// `serde_json::to_string` of `serde_json`, on a list of truth values: the JSON
/// array in its compact form. Such a list can always be written.
#[verifier::external_body]
fn write_bools(list: &Vec<bool>) -> (json: String)
    ensures
        json@ == holds_json(list@),
{
    serde_json::to_string(list).unwrap()
}

/// What `serde_json::from_str` reads from a text as an array of truth values;
/// nothing where the text is not such an array.
pub uninterp spec fn parsed_bools(json: Seq<char>) -> Option<Seq<bool>>;

/// `serde_json::from_str` of `serde_json`, into a list of truth values. The result
/// depends on the text alone, and a list that was written reads back as it was.
#[verifier::external_body]
fn read_bools(json: &str) -> (result: Result<Vec<bool>, serde_json::Error>)
    ensures
        match parsed_bools(json@) {
            Some(list) => result is Ok && result->Ok_0@ == list,
            None => result is Err,
        },
        forall|list: Seq<bool>|
            json@ == #[trigger] holds_json(list) ==> result is Ok && result->Ok_0@ == list,
{
    serde_json::from_str(json)
}

/// Writes the hold marks of a game.
pub fn encode_holds(holds: &Vec<bool>) -> (json: String)
    ensures
        json@ == holds_json(holds@),
{
    write_bools(holds)
}

/// Reads the hold marks of a game: none where the text does not hold any. What was
/// written reads back as it was.
pub fn decode_holds(json: &str) -> (holds: Vec<bool>)
    ensures
        holds@ == match parsed_bools(json@) {
            Some(list) => list,
            None => Seq::empty(),
        },
        forall|list: Seq<bool>| json@ == #[trigger] holds_json(list) ==> holds@ == list,
{
    match read_bools(json) {
        Ok(list) => list,
        Err(_) => {
            let none: Vec<bool> = Vec::new();
            proof {
                assert(none@ =~= Seq::<bool>::empty());
            }
            none
        },
    }
}

} // verus!
