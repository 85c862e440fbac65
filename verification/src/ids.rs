//! Stable 128-bit identifiers.
//!
//! Three kinds of identity run through the engine: the identity of a
//! prefab document, the stable identity of an entity within a prefab,
//! and the stable identity of a component kind.  All three are 16-byte
//! UUID values, held here as two 64-bit halves in big-endian order so
//! that equality is structural.

use vstd::prelude::*;

verus! {

/// A 16-byte UUID held as its big-endian high and low halves.
#[derive(Clone, Copy, PartialEq, Eq, Structural, Debug)]
pub struct UuidValue {
    pub hi: u64,
    pub lo: u64,
}

/// Identity of a prefab document.
pub type PrefabUuid = UuidValue;

/// Stable identity of an entity within a prefab.
pub type EntityUuid = UuidValue;

/// Stable identity of a component kind across builds and processes.
pub type ComponentTypeUuid = UuidValue;

/// The eight bytes of `x` in big-endian order.
pub open spec fn u64_be_bytes(x: u64) -> Seq<u8> {
    seq![
        (x >> 56) as u8,
        (x >> 48) as u8,
        (x >> 40) as u8,
        (x >> 32) as u8,
        (x >> 24) as u8,
        (x >> 16) as u8,
        (x >> 8) as u8,
        x as u8,
    ]
}

/// The value read from eight big-endian bytes.
pub open spec fn u64_from_be(s: Seq<u8>) -> u64
    recommends
        s.len() == 8,
{
    (((s[0] as u64) << 56) | ((s[1] as u64) << 48) | ((s[2] as u64) << 40) | ((s[3] as u64) << 32)
        | ((s[4] as u64) << 24) | ((s[5] as u64) << 16) | ((s[6] as u64) << 8) | (s[7] as u64)) as u64
}

/// The canonical 16-byte form of a UUID value.
pub open spec fn uuid_bytes(u: UuidValue) -> Seq<u8> {
    u64_be_bytes(u.hi) + u64_be_bytes(u.lo)
}

/// Reading back the bytes of `x` yields `x`.
pub proof fn lemma_u64_be_round(x: u64)
    ensures
        u64_from_be(u64_be_bytes(x)) == x,
{
    assert((((((x >> 56) as u8) as u64) << 56) | ((((x >> 48) as u8) as u64) << 48) | ((((x
        >> 40) as u8) as u64) << 40) | ((((x >> 32) as u8) as u64) << 32) | ((((x
        >> 24) as u8) as u64) << 24) | ((((x >> 16) as u8) as u64) << 16) | ((((x
        >> 8) as u8) as u64) << 8) | (((x as u8) as u64))) == x) by (bit_vector);
}

/// Reading a UUID back from its canonical bytes yields the same value.
pub proof fn lemma_uuid_bytes_round(u: UuidValue)
    ensures
        uuid_bytes(u).len() == 16,
        u64_from_be(uuid_bytes(u).subrange(0, 8)) == u.hi,
        u64_from_be(uuid_bytes(u).subrange(8, 16)) == u.lo,
{
    assert(uuid_bytes(u).subrange(0, 8) =~= u64_be_bytes(u.hi));
    assert(uuid_bytes(u).subrange(8, 16) =~= u64_be_bytes(u.lo));
    lemma_u64_be_round(u.hi);
    lemma_u64_be_round(u.lo);
}

fn u64_to_be_vec(x: u64, out: &mut Vec<u8>)
    ensures
        final(out)@ == old(out)@ + u64_be_bytes(x),
{
    out.push((x >> 56) as u8);
    out.push((x >> 48) as u8);
    out.push((x >> 40) as u8);
    out.push((x >> 32) as u8);
    out.push((x >> 24) as u8);
    out.push((x >> 16) as u8);
    out.push((x >> 8) as u8);
    out.push(x as u8);
    assert(out@ =~= old(out)@ + u64_be_bytes(x));
}

impl UuidValue {
    /// The canonical 16-byte encoding of this UUID.
    pub fn to_bytes(&self) -> (r: Vec<u8>)
        ensures
            r@ == uuid_bytes(*self),
    {
        let mut out: Vec<u8> = Vec::new();
        u64_to_be_vec(self.hi, &mut out);
        u64_to_be_vec(self.lo, &mut out);
        assert(out@ =~= uuid_bytes(*self));
        out
    }

    /// Reads a UUID from its 16-byte canonical form; rejects any other
    /// length.
    pub fn from_bytes(b: &Vec<u8>) -> (r: Option<UuidValue>)
        ensures
            b@.len() == 16 ==> r == Some(
                UuidValue {
                    hi: u64_from_be(b@.subrange(0, 8)),
                    lo: u64_from_be(b@.subrange(8, 16)),
                },
            ),
            b@.len() != 16 ==> r is None,
    {
        if b.len() != 16 {
            return None;
        }
        let hi = u64_from_be_at(b, 0);
        let lo = u64_from_be_at(b, 8);
        Some(UuidValue { hi, lo })
    }
}

fn u64_from_be_at(b: &Vec<u8>, off: usize) -> (r: u64)
    requires
        off + 8 <= b@.len(),
    ensures
        r == u64_from_be(b@.subrange(off as int, off + 8)),
{
    let n: usize = b.len();
    proof {
        // The index sums below stay within the machine's range.
        assert(off + 8 <= n);
    }
    let r = ((b[off] as u64) << 56) | ((b[off + 1] as u64) << 48) | ((b[off + 2] as u64) << 40) | ((
    b[off + 3] as u64) << 32) | ((b[off + 4] as u64) << 24) | ((b[off + 5] as u64) << 16) | ((b[off
        + 6] as u64) << 8) | (b[off + 7] as u64);
    proof {
        let s = b@.subrange(off as int, off + 8);
        assert(s[0] == b@[off as int] && s[1] == b@[off + 1] && s[2] == b@[off + 2] && s[3] == b@[
            off + 3] && s[4] == b@[off + 4] && s[5] == b@[off + 5] && s[6] == b@[off + 6] && s[7]
            == b@[off + 7]);
    }
    r
}

/// What `uuid::Uuid::parse_str` makes of a string: the parsed value as
/// big-endian halves, or nothing where the string is not a UUID in one
/// of the textual forms that crate accepts.
pub uninterp spec fn uuid_of_text(s: Seq<char>) -> Option<UuidValue>;

/// Relies on `uuid::Uuid::parse_str` and `uuid::Uuid::as_u64_pair`:
/// parsing is a deterministic function of the string alone, and the
/// u64 pair is the 16 parsed bytes read big-endian.
#[verifier::external_body]
pub fn parse_uuid_text(s: &str) -> (r: Option<UuidValue>)
    ensures
        r == uuid_of_text(s@),
{
    match uuid::Uuid::parse_str(s) {
        Ok(u) => {
            let (hi, lo) = u.as_u64_pair();
            Some(UuidValue { hi, lo })
        },
        Err(_) => None,
    }
}

/// Relies on `uuid::Uuid::new_v4`: a freshly generated random UUID.
/// Nothing is promised of the value, and the call aborts the process
/// if the operating system's random source fails.
#[verifier::external_body]
pub fn fresh_uuid() -> UuidValue {
    let (hi, lo) = uuid::Uuid::new_v4().as_u64_pair();
    UuidValue { hi, lo }
}

} // verus!
