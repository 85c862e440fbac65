//! Per-component diffs.
//!
//! A diff inspects a component on a source and a destination side —
//! either of which may be absent — decides one of four outcomes, and
//! emits a payload consistent with the outcome.  Component values are
//! carried in their canonical wire form, a byte string, so two values
//! are equal exactly when their bytes are.
//!
//! Readers pick the branch to take from the outcome and the
//! transactional context, never by sniffing the payload.

use vstd::prelude::*;

verus! {

/// The outcome of diffing one component on two sides.
#[derive(Clone, Copy, PartialEq, Eq, Structural, Debug)]
pub enum DiffSingleResult {
    /// Both sides agree (or both are absent): nothing to do.
    NoChange,
    /// Present on both sides with different values.
    Change,
    /// Present only on the destination side.
    Add,
    /// Present only on the source side.
    Remove,
}

/// What a diff writes to its stream.
#[derive(Debug)]
pub enum DiffPayload {
    /// Nothing was written.
    Empty,
    /// A field-level delta: the new value where the sides differ, or
    /// no change at all.
    FieldDiff(Option<Vec<u8>>),
    /// The complete destination value.
    Full(Vec<u8>),
}

/// The mathematical shape of a diff payload.
pub enum DiffPayloadModel {
    Empty,
    FieldDiff(Option<Seq<u8>>),
    Full(Seq<u8>),
}

impl View for DiffPayload {
    type V = DiffPayloadModel;

    open spec fn view(&self) -> DiffPayloadModel {
        match self {
            DiffPayload::Empty => DiffPayloadModel::Empty,
            DiffPayload::FieldDiff(d) => DiffPayloadModel::FieldDiff(
                match d {
                    Some(v) => Some(v@),
                    None => None,
                },
            ),
            DiffPayload::Full(v) => DiffPayloadModel::Full(v@),
        }
    }
}

/// The outcome the table of the diff operation assigns to the two
/// sides.
pub open spec fn spec_diff_result(src: Option<Seq<u8>>, dst: Option<Seq<u8>>) -> DiffSingleResult {
    match (src, dst) {
        (Some(x), Some(y)) => if x == y {
            DiffSingleResult::NoChange
        } else {
            DiffSingleResult::Change
        },
        (None, Some(_)) => DiffSingleResult::Add,
        (Some(_), None) => DiffSingleResult::Remove,
        (None, None) => DiffSingleResult::NoChange,
    }
}

/// The payload the table of the diff operation assigns to the two
/// sides.
pub open spec fn spec_diff_payload(src: Option<Seq<u8>>, dst: Option<Seq<u8>>) -> DiffPayloadModel {
    match (src, dst) {
        (Some(x), Some(y)) => if x == y {
            DiffPayloadModel::FieldDiff(None)
        } else {
            DiffPayloadModel::FieldDiff(Some(y))
        },
        (None, Some(y)) => DiffPayloadModel::Full(y),
        (Some(_), None) => DiffPayloadModel::Empty,
        (None, None) => DiffPayloadModel::Empty,
    }
}

/// Applying a field-level delta to a value: an empty delta keeps the
/// value, a delta with changes yields the changed value.  Any other
/// payload kind is not applicable.
pub open spec fn spec_apply_diff(value: Seq<u8>, payload: DiffPayloadModel) -> Option<Seq<u8>> {
    match payload {
        DiffPayloadModel::FieldDiff(None) => Some(value),
        DiffPayloadModel::FieldDiff(Some(n)) => Some(n),
        _ => None,
    }
}

/// Compares two byte strings.
pub fn bytes_eq(a: &Vec<u8>, b: &Vec<u8>) -> (r: bool)
    ensures
        r == (a@ == b@),
{
    if a.len() != b.len() {
        return false;
    }
    let n = a.len();
    let mut i: usize = 0;
    while i < n
        invariant
            n == a@.len(),
            n == b@.len(),
            i <= n,
            forall|j: int| 0 <= j < i ==> a@[j] == b@[j],
        decreases n - i,
    {
        if a[i] != b[i] {
            return false;
        }
        i += 1;
    }
    proof {
        assert(a@ =~= b@);
    }
    true
}

/// Diffs one component over its two sides and returns the outcome
/// together with the payload the outcome calls for.
pub fn diff_values(src: Option<&Vec<u8>>, dst: Option<&Vec<u8>>) -> (r: (
    DiffSingleResult,
    DiffPayload,
))
    ensures
        r.0 == spec_diff_result(view_side(src), view_side(dst)),
        r.1@ == spec_diff_payload(view_side(src), view_side(dst)),
{
    match (src, dst) {
        (Some(x), Some(y)) => {
            if bytes_eq(x, y) {
                (DiffSingleResult::NoChange, DiffPayload::FieldDiff(None))
            } else {
                (DiffSingleResult::Change, DiffPayload::FieldDiff(Some(y.clone())))
            }
        },
        (None, Some(y)) => (DiffSingleResult::Add, DiffPayload::Full(y.clone())),
        (Some(_), None) => (DiffSingleResult::Remove, DiffPayload::Empty),
        (None, None) => (DiffSingleResult::NoChange, DiffPayload::Empty),
    }
}

/// The byte view of an optional component value.
pub open spec fn view_side(side: Option<&Vec<u8>>) -> Option<Seq<u8>> {
    match side {
        Some(v) => Some(v@),
        None => None,
    }
}

/// Applies a field-level delta to an existing component value.
///
/// The payload must be a field-level delta, as diffing two present
/// sides emits; handing any other payload here is a programmer error
/// and is ruled out by the precondition.
pub fn apply_diff_value(value: &Vec<u8>, payload: &DiffPayload) -> (r: Vec<u8>)
    requires
        payload@ is FieldDiff,
    ensures
        Some(r@) == spec_apply_diff(value@, payload@),
{
    match payload {
        DiffPayload::FieldDiff(Some(n)) => n.clone(),
        _ => value.clone(),
    }
}

/// Diff idempotence, equal sides: diffing a value against itself
/// reports no change, and applying the emitted delta to a fresh copy
/// of the value leaves it as it was.
pub proof fn lemma_diff_no_change(x: Seq<u8>)
    ensures
        spec_diff_result(Some(x), Some(x)) == DiffSingleResult::NoChange,
        spec_apply_diff(x, spec_diff_payload(Some(x), Some(x))) == Some(x),
{
}

/// Diff idempotence, different sides: diffing two different values
/// reports a change, and applying the emitted delta to the source
/// yields the destination.
pub proof fn lemma_diff_change(x: Seq<u8>, y: Seq<u8>)
    requires
        x != y,
    ensures
        spec_diff_result(Some(x), Some(y)) == DiffSingleResult::Change,
        spec_apply_diff(x, spec_diff_payload(Some(x), Some(y))) == Some(y),
{
}

/// Add/remove symmetry: a value only on the destination side is an
/// addition carrying the full value; one only on the source side is a
/// removal carrying nothing; two absent sides are no change and carry
/// nothing.
pub proof fn lemma_add_remove_symmetry(y: Seq<u8>)
    ensures
        spec_diff_result(None, Some(y)) == DiffSingleResult::Add,
        spec_diff_payload(None, Some(y)) == DiffPayloadModel::Full(y),
        spec_diff_result(Some(y), None) == DiffSingleResult::Remove,
        spec_diff_payload(Some(y), None) == DiffPayloadModel::Empty,
        spec_diff_result(None, None) == DiffSingleResult::NoChange,
        spec_diff_payload(None, None) == DiffPayloadModel::Empty,
{
}

} // verus!
