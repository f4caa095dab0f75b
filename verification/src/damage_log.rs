use vstd::prelude::*;
use smallvec::SmallVec;

verus! {

/// A phase's log of damage instances, kept in an inline small-vector so that
/// short logs stay allocation-free. The vector type's trait bound cannot be
/// declared to the verifier, so the collection lives in an opaque struct and
/// is reached only through the wrappers below, whose contracts speak of
/// `log_items`.
#[verifier::external_body]
pub struct DamageLog {
    entries: SmallVec<[u16; 16]>,
}

/// The sequence of damage entries that a log holds, in insertion order.
pub uninterp spec fn log_items(v: DamageLog) -> Seq<u16>;

/// Relies on `smallvec::SmallVec::new`: a freshly created small-vector holds
/// no elements.
#[verifier::external_body]
pub fn log_new() -> (v: DamageLog)
    ensures
        log_items(v) == Seq::<u16>::empty(),
{
    DamageLog { entries: SmallVec::new() }
}

/// Relies on `smallvec::SmallVec::push`: it appends the element at the end
/// and keeps the ones already there.
#[verifier::external_body]
pub fn log_push(v: &mut DamageLog, x: u16)
    ensures
        log_items(*final(v)) == log_items(*old(v)).push(x),
{
    v.entries.push(x)
}

/// Relies on `smallvec::SmallVec::clone`: cloning a small-vector of `u16`
/// clones each element, and a cloned `u16` equals the original.
#[verifier::external_body]
pub fn log_clone(v: &DamageLog) -> (r: DamageLog)
    ensures
        log_items(r) == log_items(*v),
{
    DamageLog { entries: v.entries.clone() }
}

/// Relies on `smallvec::SmallVec::as_slice`: it exposes the elements in
/// insertion order; they are copied out here as plain values.
#[verifier::external_body]
pub fn log_to_vec(v: &DamageLog) -> (r: Vec<u16>)
    ensures
        r@ == log_items(*v),
{
    v.entries.as_slice().to_vec()
}

} // verus!
