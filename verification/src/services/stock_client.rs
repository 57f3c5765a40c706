//! What the client of the quote service computes before it asks.

use vstd::prelude::*;
use vstd::string::StringExecFns;

verus! {

/// The address of the quote of `symbol` at the service at `base_url`, for the holder of
/// `api_key`.
pub open spec fn quote_address(base_url: Seq<char>, symbol: Seq<char>, api_key: Seq<char>) -> Seq<
    char,
> {
    base_url + "/quote?symbol="@ + symbol + "&token="@ + api_key
}

/// The address from which the quote of `symbol` is fetched. The three texts are put in as
/// they are.
pub fn quote_url(base_url: &str, symbol: &str, api_key: &str) -> (url: String)
    ensures
        url@ == quote_address(base_url@, symbol@, api_key@),
{
    String::from_str(base_url).concat("/quote?symbol=").concat(symbol).concat("&token=").concat(
        api_key,
    )
}

} // verus!
