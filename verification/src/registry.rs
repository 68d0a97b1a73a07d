//! The protocol glue: registering the combinator's entry points with the
//! host's type registry.
//!
//! The host drives the combinator through named slots: a construction entry
//! point, a step entry point, a self-iterator entry point, and a purely
//! informational documentation string. [`init`] appends those four slots,
//! in that order, to a registry.

use vstd::prelude::*;

verus! {

/// The documentation string associated with the combinator's type,
/// for introspection by the host. Purely informational.
pub const MAP_DOC: &'static str = "map(func, *iterables) --> map object\n\nMake an iterator that computes the function using arguments from\neach of the iterables.  Stops when the shortest iterable is exhausted.";

/// One of the combinator's entry points, or its documentation metadata.
#[derive(Debug, PartialEq, Eq)]
pub enum SlotValue {
    /// The construction entry point: one callable and a variable-length
    /// list of iterables, returning a combinator or a construction error.
    Construct,
    /// The step entry point: one advance of the combinator.
    Step,
    /// The self-iterator entry point: the combinator's own identity.
    SelfIterator,
    /// The documentation string.
    Doc(&'static str),
}

/// A named slot of the host's type registry.
#[derive(Debug, PartialEq, Eq)]
pub struct Slot {
    pub name: &'static str,
    pub value: SlotValue,
}

/// The host's registry for one type: its named slots, in registration
/// order.
pub struct Registry {
    pub slots: Vec<Slot>,
}

impl Registry {
    /// A registry with no slots yet.
    pub fn new() -> (r: Self)
        ensures
            r.slots@.len() == 0,
    {
        Registry { slots: Vec::new() }
    }
}

/// Register the combinator's three entry points and its documentation
/// string, appending four slots to the registry in a fixed order and
/// leaving the slots already present untouched.
pub fn init(registry: &mut Registry)
    ensures
        final(registry).slots@.len() == old(registry).slots@.len() + 4,
        forall|j: int|
            0 <= j < old(registry).slots@.len() ==> final(registry).slots@[j] == old(
                registry,
            ).slots@[j],
        ({
            let base = old(registry).slots@.len() as int;
            &&& final(registry).slots@[base].name@ == "__new__"@
            &&& final(registry).slots@[base].value is Construct
            &&& final(registry).slots@[base + 1].name@ == "__next__"@
            &&& final(registry).slots@[base + 1].value is Step
            &&& final(registry).slots@[base + 2].name@ == "__iter__"@
            &&& final(registry).slots@[base + 2].value is SelfIterator
            &&& final(registry).slots@[base + 3].name@ == "__doc__"@
            &&& final(registry).slots@[base + 3].value == SlotValue::Doc(MAP_DOC)
        }),
{
    registry.slots.push(Slot { name: "__new__", value: SlotValue::Construct });
    registry.slots.push(Slot { name: "__next__", value: SlotValue::Step });
    registry.slots.push(Slot { name: "__iter__", value: SlotValue::SelfIterator });
    registry.slots.push(Slot { name: "__doc__", value: SlotValue::Doc(MAP_DOC) });
}

} // verus!
