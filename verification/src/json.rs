//! Lists of texts as JSON.

use vstd::prelude::*;
use vstd::string::*;

use crate::text::texts;

verus! {

/// The JSON text that `serde_json::to_string` makes of a list of texts.
pub uninterp spec fn json_of_list(list: Seq<Seq<char>>) -> Seq<char>;

/// The list of texts that `serde_json::from_str` reads out of a JSON text, or
/// the text of its error.
pub uninterp spec fn list_in_json(json: Seq<char>) -> Result<Seq<Seq<char>>, Seq<char>>;

/// A list of texts, or the text of an error.
pub open spec fn list_model(value: Result<Vec<String>, String>) -> Result<
    Seq<Seq<char>>,
    Seq<char>,
> {
    match value {
        Ok(list) => Ok(texts(list@)),
        Err(error) => Err(error@),
    }
}

/// `serde_json::to_string` writes a list of texts. What it writes depends on
/// the list alone, and `serde_json::from_str` reads the same list out of it.
/// Writing texts to memory does not fail.
#[verifier::external_body]
pub(crate) fn list_to_json(list: &Vec<String>) -> (r: Result<String, String>)
    ensures
        r is Ok,
        r matches Ok(json) ==> json@ == json_of_list(texts(list@)),
        r matches Ok(json) ==> list_in_json(json@) is Ok && list_in_json(json@)->Ok_0 == texts(
            list@,
        ),
{
    serde_json::to_string(list).map_err(|error| error.to_string())
}

/// `serde_json::from_str` reads a list of texts. What it reads, and the text
/// of its error, depend on the JSON text alone.
#[verifier::external_body]
pub(crate) fn list_from_json(json: &str) -> (r: Result<Vec<String>, String>)
    ensures
        list_model(r) == list_in_json(json@),
{
    serde_json::from_str::<Vec<String>>(json).map_err(|error| error.to_string())
}

/// What is reported of stored JSON that cannot be read.
pub open spec fn corrupt(context: Seq<char>, error: Seq<char>) -> Seq<char> {
    context + "格式损坏："@ + error
}

/// What is reported of stored JSON that cannot be read.
pub fn corrupt_message(context: &str, error: &str) -> (r: String)
    ensures
        r@ == corrupt(context@, error@),
{
    context.to_string().concat("格式损坏：").concat(error)
}

/// A list that was read, or what is reported of JSON that cannot be read.
pub open spec fn read_list(
    context: Seq<char>,
    parsed: Result<Seq<Seq<char>>, Seq<char>>,
) -> Result<Seq<Seq<char>>, Seq<char>> {
    match parsed {
        Ok(list) => Ok(list),
        Err(error) => Err(corrupt(context, error)),
    }
}

/// A list that was read, or what is reported of JSON that cannot be read.
pub fn report_list(parsed: Result<Vec<String>, String>, context: &str) -> (r: Result<
    Vec<String>,
    String,
>)
    ensures
        list_model(r) == read_list(context@, list_model(parsed)),
{
    match parsed {
        Ok(list) => Ok(list),
        Err(error) => Err(corrupt_message(context, error.as_str())),
    }
}

/// The list of texts in stored JSON.
pub fn parse_string_list_json(value: &str, context: &str) -> (r: Result<Vec<String>, String>)
    ensures
        list_model(r) == read_list(context@, list_in_json(value@)),
{
    report_list(list_from_json(value), context)
}

} // verus!
