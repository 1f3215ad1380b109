use vstd::prelude::*;

use crate::outside::{base64_bytes, base64_of, decode_base64, encode_base64, text_from_utf8, utf8_text};
use crate::parse::ConfError;
use crate::text::{trim, trim_str};

verus! {

/// Decodes the trimmed text from base64 into UTF-8 text, or encodes the text as base64,
/// or leaves it as it is.
pub fn apply_base64_transform(input: &str, decode: bool, encode: bool) -> (r: Result<String, ConfError>)
    ensures
        decode ==> match base64_bytes(trim(input@)) {
            None => r matches Err(ConfError::Base64Decode),
            Some(b) => match utf8_text(b) {
                None => r matches Err(ConfError::Utf8),
                Some(t) => r matches Ok(x) && x@ == t,
            },
        },
        !decode && encode ==> (r matches Ok(x) && x@ == base64_of(input@)),
        !decode && !encode ==> (r matches Ok(x) && x@ == input@),
{
    if decode {
        let trimmed = trim_str(input);
        match decode_base64(trimmed.as_str()) {
            Some(bytes) => match text_from_utf8(bytes) {
                Some(t) => Ok(t),
                None => Err(ConfError::Utf8),
            },
            None => Err(ConfError::Base64Decode),
        }
    } else if encode {
        Ok(encode_base64(input))
    } else {
        Ok(String::from_str(input))
    }
}

} // verus!
