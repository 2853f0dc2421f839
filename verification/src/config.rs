use vstd::prelude::*;

use crate::error::{AppError, AppResult};
use crate::security::b64_decode_of;
use vstd::slice::slice_subrange;

verus! {

/// Whether the raw key material starts with the ASCII marker `base64:`.
pub open spec fn has_base64_marker(s: Seq<u8>) -> bool {
    &&& s.len() >= 7
    &&& s[0] == 98  // 'b'
    &&& s[1] == 97  // 'a'
    &&& s[2] == 115  // 's'
    &&& s[3] == 101  // 'e'
    &&& s[4] == 54  // '6'
    &&& s[5] == 52  // '4'
    &&& s[6] == 58  // ':'
}

/// The application key as configured: either raw bytes, or a base64 string
/// carrying the ASCII marker `base64:` — then only the suffix after the
/// marker is decoded. A marked key whose suffix is not valid base64 is a
/// configuration error.
pub fn decode_app_key(raw_key: &[u8]) -> (r: AppResult<Vec<u8>>)
    ensures
        match r {
            Ok(v) => {
                if has_base64_marker(raw_key@) {
                    b64_decode_of(raw_key@.skip(7)) == Some(v@)
                } else {
                    v@ == raw_key@
                }
            },
            Err(e) => {
                &&& e is ConfigError
                &&& has_base64_marker(raw_key@)
                &&& b64_decode_of(raw_key@.skip(7)) is None
            },
        },
{
    let marked = raw_key.len() >= 7 && raw_key[0] == 98 && raw_key[1] == 97 && raw_key[2] == 115
        && raw_key[3] == 101 && raw_key[4] == 54 && raw_key[5] == 52 && raw_key[6] == 58;
    if marked {
        let suffix = slice_subrange(raw_key, 7, raw_key.len());
        assert(suffix@ == raw_key@.skip(7));
        match crate::security::decode_base64(suffix) {
            Some(v) => Ok(v),
            None => Err(AppError::ConfigError),
        }
    } else {
        let mut out: Vec<u8> = Vec::new();
        out.extend_from_slice(raw_key);
        assert(out@ == raw_key@);
        Ok(out)
    }
}

} // verus!
