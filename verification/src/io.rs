//! Turning the bytes of a message file into text.

use crate::trusted::string_from_utf8;
use vstd::prelude::*;
use vstd::utf8::decode_utf8;
use vstd::utf8::valid_utf8;

verus! {

/// Reads the bytes of a file as UTF-8 text.
pub fn read_string(data: Vec<u8>) -> (r: Result<String, &'static str>)
    ensures
        match r {
            Ok(text) => valid_utf8(data@) && text@ == decode_utf8(data@),
            Err(m) => !valid_utf8(data@) && m@ == "failed-parse-string"@,
        },
{
    match string_from_utf8(data) {
        Ok(text) => Ok(text),
        Err(_) => Err("failed-parse-string"),
    }
}

} // verus!
