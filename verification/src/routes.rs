//! The texts that the web routes answer with.

use vstd::prelude::*;

verus! {

/// The greeting of the API's `/hello` route.
pub const HELLO_MESSAGE: &'static str = "{\n    'status': 'success',\n    'message': 'Hello API!'\n  }";

/// The greeting that the API's `/hello` route sends as a JSON string.
pub fn hello() -> (r: &'static str)
    ensures
        r@ == HELLO_MESSAGE@,
{
    HELLO_MESSAGE
}

/// The start of the answer for a path that no route serves.
pub const NOT_FOUND_PREFIX: &'static str = "Oh no! We couldn't find the requested path '";

/// The answer for a request to `uri` that no route serves.
pub fn not_found(uri: &str) -> (r: String)
    ensures
        r@ == NOT_FOUND_PREFIX@ + uri@ + "'"@,
{
    let mut answer = String::from_str(NOT_FOUND_PREFIX);
    answer.append(uri);
    answer.append("'");
    answer
}

/// The start of the answer to a submitted ticker import.
pub const INIT_SUBMIT_PREFIX: &'static str = "Done, column ";

/// The answer to a submitted ticker import that names `isin_column`.
pub fn init_submit(isin_column: &String) -> (r: String)
    ensures
        r@ == INIT_SUBMIT_PREFIX@ + isin_column@,
{
    let mut answer = String::from_str(INIT_SUBMIT_PREFIX);
    answer.append(isin_column.as_str());
    answer
}

} // verus!
