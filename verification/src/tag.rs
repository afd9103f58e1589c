//! Completion tags: an operation kind and a 32-bit correlation id packed
//! losslessly into the single 64-bit value that the kernel echoes back on
//! every completion.
//!
//! The correlation id is a connection token for `Receive` and `Send`, an
//! accept-slot handle for `Accept`, and unused for `ReturnBuffer`.

use vstd::arithmetic::div_mod::{
    lemma_fundamental_div_mod_converse_div, lemma_fundamental_div_mod_converse_mod,
};
use vstd::prelude::*;

verus! {

/// The kind of submitted operation a completion belongs to.
#[derive(Clone, Copy, Debug, PartialEq, Eq, Structural)]
pub enum OpKind {
    Accept,
    Receive,
    Send,
    ReturnBuffer,
}

/// Size of the id field; the kind code is stored above the low 32 bits.
pub const ID_SPAN: u64 = 0x1_0000_0000;

/// The code under which a kind is stored inside a tag.
pub open spec fn kind_code(kind: OpKind) -> u64 {
    match kind {
        OpKind::Accept => 0,
        OpKind::Receive => 1,
        OpKind::Send => 2,
        OpKind::ReturnBuffer => 3,
    }
}

/// The kind stored under a code, if the code is one a tag can carry.
pub open spec fn kind_of_code(code: u64) -> Option<OpKind> {
    if code == 0 {
        Some(OpKind::Accept)
    } else if code == 1 {
        Some(OpKind::Receive)
    } else if code == 2 {
        Some(OpKind::Send)
    } else if code == 3 {
        Some(OpKind::ReturnBuffer)
    } else {
        None
    }
}

/// The tag that carries `kind` and `id`.
pub open spec fn encode_spec(kind: OpKind, id: u32) -> u64 {
    (kind_code(kind) * ID_SPAN + id) as u64
}

/// The kind and id a tag carries; `None` for a code no operation uses.
pub open spec fn decode_spec(tag: u64) -> Option<(OpKind, u32)> {
    match kind_of_code(tag / ID_SPAN) {
        Some(kind) => Some((kind, (tag % ID_SPAN) as u32)),
        None => None,
    }
}

/// Packs an operation kind and a correlation id into a completion tag.
pub fn encode(kind: OpKind, id: u32) -> (tag: u64)
    ensures
        tag == encode_spec(kind, id),
{
    let code: u64 = match kind {
        OpKind::Accept => 0,
        OpKind::Receive => 1,
        OpKind::Send => 2,
        OpKind::ReturnBuffer => 3,
    };
    code * ID_SPAN + (id as u64)
}

/// Unpacks a completion tag into the kind and correlation id it carries.
pub fn decode(tag: u64) -> (r: Option<(OpKind, u32)>)
    ensures
        r == decode_spec(tag),
{
    let code: u64 = tag / ID_SPAN;
    let id: u32 = (tag % ID_SPAN) as u32;
    if code == 0 {
        Some((OpKind::Accept, id))
    } else if code == 1 {
        Some((OpKind::Receive, id))
    } else if code == 2 {
        Some((OpKind::Send, id))
    } else if code == 3 {
        Some((OpKind::ReturnBuffer, id))
    } else {
        None
    }
}

/// Law: decoding an encoded tag gives back exactly the kind and id that were
/// packed into it, for every kind and every 32-bit id.
pub proof fn lemma_tag_round_trip(kind: OpKind, id: u32)
    ensures
        decode_spec(encode_spec(kind, id)) == Some((kind, id)),
{
    let code = kind_code(kind);
    assert(code <= 3);
    let tag = encode_spec(kind, id);
    assert(tag == code * ID_SPAN + id);
    lemma_fundamental_div_mod_converse_div(tag as int, ID_SPAN as int, code as int, id as int);
    lemma_fundamental_div_mod_converse_mod(tag as int, ID_SPAN as int, code as int, id as int);
    assert(tag / ID_SPAN == code);
    assert(tag % ID_SPAN == id);
}

} // verus!
