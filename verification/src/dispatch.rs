//! Hardfork gating of function selectors in precompile calls.

use vstd::prelude::*;

use crate::spec::{spec_rank, BaseBSpec};

verus! {

/// Whether `selectors` holds `selector`.
pub open spec fn lists(selectors: Seq<[u8; 4]>, selector: Seq<u8>) -> bool {
    exists|i: int| 0 <= i < selectors.len() && #[trigger] selectors[i]@ == selector
}

/// The selectors that a hardfork boundary introduces and removes.
///
/// Before the hardfork activates, the added selectors are unknown; once it activates, the
/// dropped ones are.
#[derive(Clone, Copy, Debug)]
pub struct SelectorSchedule<'a> {
    /// The hardfork at the boundary.
    pub hardfork: BaseBSpec,
    /// Selectors introduced at the boundary.
    pub added: &'a [[u8; 4]],
    /// Selectors removed at the boundary.
    pub dropped: &'a [[u8; 4]],
}

/// Whether `selectors` holds `selector`.
fn contains_selector(selectors: &[[u8; 4]], selector: [u8; 4]) -> (r: bool)
    ensures
        r == lists(selectors@, selector@),
{
    let mut i: usize = 0;
    while i < selectors.len()
        invariant
            i <= selectors@.len(),
            forall|j: int| 0 <= j < i ==> selectors@[j]@ != selector@,
        decreases selectors@.len() - i,
    {
        let s = selectors[i];
        if s[0] == selector[0] && s[1] == selector[1] && s[2] == selector[2] && s[3]
            == selector[3] {
            assert(selectors@[i as int]@ =~= selector@);
            return true;
        }
        assert(selectors@[i as int]@[0] != selector@[0] || selectors@[i as int]@[1]
            != selector@[1] || selectors@[i as int]@[2] != selector@[2]
            || selectors@[i as int]@[3] != selector@[3]);
        i = i + 1;
    }
    false
}

impl<'a> SelectorSchedule<'a> {
    /// A schedule at `hardfork` with no selectors yet.
    pub fn new(hardfork: BaseBSpec) -> (r: SelectorSchedule<'a>)
        ensures
            r.hardfork == hardfork,
            r.added@ == Seq::<[u8; 4]>::empty(),
            r.dropped@ == Seq::<[u8; 4]>::empty(),
    {
        let none: &[[u8; 4]] = &[];
        SelectorSchedule { hardfork, added: none, dropped: none }
    }

    /// Registers the selectors introduced at the boundary.
    pub fn with_added(self, selectors: &'a [[u8; 4]]) -> (r: SelectorSchedule<'a>)
        ensures
            r == (SelectorSchedule { added: selectors, ..self }),
    {
        SelectorSchedule { added: selectors, ..self }
    }

    /// Registers the selectors removed at the boundary.
    pub fn with_dropped(self, selectors: &'a [[u8; 4]]) -> (r: SelectorSchedule<'a>)
        ensures
            r == (SelectorSchedule { dropped: selectors, ..self }),
    {
        SelectorSchedule { dropped: selectors, ..self }
    }

    /// Whether this schedule treats `selector` as unknown under the `active` hardfork.
    pub open spec fn spec_rejects(self, selector: Seq<u8>, active: BaseBSpec) -> bool {
        if spec_rank(self.hardfork) <= spec_rank(active) {
            lists(self.dropped@, selector)
        } else {
            lists(self.added@, selector)
        }
    }

    /// Whether this schedule gates out `selector` under the `active` hardfork: a dropped
    /// selector once the hardfork is active, an added one before.
    pub fn rejects(self, selector: [u8; 4], active: BaseBSpec) -> (r: bool)
        ensures
            r == self.spec_rejects(selector@, active),
    {
        if active.is_enabled_in(self.hardfork) {
            contains_selector(self.dropped, selector)
        } else {
            contains_selector(self.added, selector)
        }
    }
}

/// How a call's selector is screened before its arguments are decoded.
#[derive(Clone, Copy, Debug)]
pub enum SelectorGate {
    /// The calldata is shorter than a selector: the call reverts with empty data.
    TooShort,
    /// A schedule gates the selector out: the call fails with `UnknownFunctionSelector`.
    Gated([u8; 4]),
    /// The selector may be decoded.
    Open([u8; 4]),
}

/// Screens the selector of `calldata` against the hardfork schedules under `active`.
pub fn screen_selector(calldata: &[u8], hardforks: &[SelectorSchedule<'_>], active: BaseBSpec) -> (r:
    SelectorGate)
    ensures
        calldata@.len() < 4 ==> r == SelectorGate::TooShort,
        calldata@.len() >= 4 ==> {
            &&& r matches SelectorGate::Gated(s) ==> s@ == calldata@.subrange(0, 4)
            &&& r matches SelectorGate::Open(s) ==> s@ == calldata@.subrange(0, 4)
            &&& !(r is TooShort)
            &&& (r is Gated) == (exists|i: int|
                0 <= i < hardforks@.len() && #[trigger] hardforks@[i].spec_rejects(
                    calldata@.subrange(0, 4),
                    active,
                ))
        },
{
    if calldata.len() < 4 {
        return SelectorGate::TooShort;
    }
    let selector: [u8; 4] = [calldata[0], calldata[1], calldata[2], calldata[3]];
    assert(selector@ =~= calldata@.subrange(0, 4));
    let mut i: usize = 0;
    while i < hardforks.len()
        invariant
            i <= hardforks@.len(),
            calldata@.len() >= 4,
            selector@ == calldata@.subrange(0, 4),
            forall|j: int| 0 <= j < i ==> !(#[trigger] hardforks@[j].spec_rejects(selector@, active)),
        decreases hardforks@.len() - i,
    {
        if hardforks[i].rejects(selector, active) {
            return SelectorGate::Gated(selector);
        }
        i = i + 1;
    }
    SelectorGate::Open(selector)
}

} // verus!
