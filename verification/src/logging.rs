use vstd::prelude::*;

verus! {

/// Shortens an over-long payload for the request log, marking the cut with
/// an ellipsis; anything within the limit passes through unchanged.
pub fn truncate(payload: &str, limit: usize) -> (r: String)
    ensures
        r@ == if payload@.len() > limit {
            payload@.subrange(0, limit as int) + "..."@
        } else {
            payload@
        },
{
    if payload.unicode_len() > limit {
        let head = payload.substring_char(0, limit);
        let mut s = String::from_str(head);
        s.append("...");
        s
    } else {
        String::from_str(payload)
    }
}

} // verus!
