//! The self-describing document model.
//!
//! A prefab travels through any format that can carry tagged variants,
//! structs with named fields, and sequences.  The engine is independent
//! of the concrete encoding: it reads and writes trees of [`Node`]
//! values, and the host maps those trees to its wire format of choice.
//! Field order within a struct is significant and is preserved.

use vstd::prelude::*;

use crate::ids::u64_from_be;
use crate::ids::uuid_of_text;
use crate::ids::UuidValue;

verus! {

/// One node of a self-describing document.
#[derive(Debug, PartialEq)]
pub enum Node {
    /// A scalar string, e.g. a UUID in canonical text form.
    Text(String),
    /// Raw bytes, e.g. a UUID as its 16-byte value.
    Bytes(Vec<u8>),
    /// A sequence of values.
    List(Vec<Node>),
    /// A struct: named fields in document order.
    Fields(Vec<(String, Node)>),
    /// A tagged enum variant with its payload.
    Variant(String, Box<Node>),
}

/// The UUID a node denotes: either canonical text or the 16-byte value.
pub open spec fn spec_node_uuid(n: Node) -> Option<UuidValue> {
    match n {
        Node::Text(s) => uuid_of_text(s@),
        Node::Bytes(b) => if b@.len() == 16 {
            Some(
                UuidValue {
                    hi: u64_from_be(b@.subrange(0, 8)),
                    lo: u64_from_be(b@.subrange(8, 16)),
                },
            )
        } else {
            None
        },
        _ => None,
    }
}

/// Reads the UUID a node denotes, if any.
pub fn node_uuid(n: &Node) -> (r: Option<UuidValue>)
    ensures
        r == spec_node_uuid(*n),
{
    match n {
        Node::Text(s) => crate::ids::parse_uuid_text(s.as_str()),
        Node::Bytes(b) => UuidValue::from_bytes(b),
        _ => None,
    }
}

/// True when the key string equals the literal.
pub fn key_is(k: &String, lit: &str) -> (b: bool)
    ensures
        b == (k@ == lit@),
{
    *k == lit.to_owned()
}

} // verus!
