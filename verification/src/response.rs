//! The fixed response: a minimal `HTTP/1.1 200` message with a
//! `Content-Length` header naming its fixed 12-byte body, sent unchanged for
//! every non-empty request. The engine treats a send completion that wrote
//! any other number of bytes as an internal-consistency violation.

use vstd::prelude::*;

verus! {

/// The full length of the fixed response in bytes.
pub const RESPONSE_LEN: usize = 51;

/// The bytes of the fixed response:
/// `HTTP/1.1 200 OK\r\nContent-Length: 12\r\n\r\nHello world\n`.
pub open spec fn response_spec() -> Seq<u8> {
    seq![
        72u8, 84, 84, 80, 47, 49, 46, 49, 32, 50, 48, 48, 32, 79, 75, 13, 10, 67, 111, 110, 116,
        101, 110, 116, 45, 76, 101, 110, 103, 116, 104, 58, 32, 49, 50, 13, 10, 13, 10, 72, 101,
        108, 108, 111, 32, 119, 111, 114, 108, 100, 10,
    ]
}

/// Law: the fixed response is exactly `RESPONSE_LEN` bytes long, so a send
/// completion is whole exactly when its result equals `RESPONSE_LEN`.
pub proof fn lemma_response_len()
    ensures
        response_spec().len() == RESPONSE_LEN,
{
}

/// The fixed response as an owned byte vector, ready to hand to a send
/// submission.
pub fn response() -> (r: Vec<u8>)
    ensures
        r@ == response_spec(),
        r@.len() == RESPONSE_LEN,
{
    let r: Vec<u8> = vec![
        72u8, 84, 84, 80, 47, 49, 46, 49, 32, 50, 48, 48, 32, 79, 75, 13, 10, 67, 111, 110, 116,
        101, 110, 116, 45, 76, 101, 110, 103, 116, 104, 58, 32, 49, 50, 13, 10, 13, 10, 72, 101,
        108, 108, 111, 32, 119, 111, 114, 108, 100, 10,
    ];
    proof {
        assert(r@ =~= response_spec());
    }
    r
}

} // verus!
