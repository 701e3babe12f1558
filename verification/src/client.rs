//! Text shown by the web client.
use crate::text::{decimal_int, push_signed_decimal};
use vstd::prelude::*;
use vstd::string::*;

verus! {

/// The greeting shown with the current time as a Unix timestamp in seconds.
pub fn greeting(timestamp: i64) -> (s: String)
    ensures
        s@ == "Hello, wasm-rs! Now is "@ + decimal_int(timestamp as int),
{
    let mut s = String::from_str("Hello, wasm-rs! Now is ");
    push_signed_decimal(&mut s, timestamp);
    s
}

} // verus!
