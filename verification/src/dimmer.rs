//! The dimmer bank: eight brightness levels in the range 0..=15, shared
//! between the command dispatcher and the output driver, together with a
//! single-slot coalescing wake signal that couples the two.

use vstd::prelude::*;

verus! {

/// A bank of levels is well formed when it holds exactly eight entries,
/// each within 0..=15.
pub open spec fn levels_wf(levels: Seq<u8>) -> bool {
    &&& levels.len() == 8
    &&& forall|i: int| 0 <= i < levels.len() ==> levels[i] <= 15
}

/// Reading a level: a valid index yields its entry, an out-of-range index
/// yields 0.
pub open spec fn spec_get_level(levels: Seq<u8>, idx: int) -> u8 {
    if 0 <= idx < 8 {
        levels[idx]
    } else {
        0
    }
}

/// Writing a level: a valid index is overwritten, an out-of-range index
/// leaves the bank unchanged.
pub open spec fn spec_set_level(levels: Seq<u8>, idx: int, val: u8) -> Seq<u8> {
    if 0 <= idx < 8 {
        levels.update(idx, val)
    } else {
        levels
    }
}

/// A write raises the wake signal exactly when the index is valid.
pub open spec fn spec_set_wakes(idx: int) -> bool {
    0 <= idx < 8
}

/// Saturating increment: below 15 the level grows by one, at 15 (or out of
/// range) nothing changes.
pub open spec fn spec_inc_level(levels: Seq<u8>, idx: int) -> Seq<u8> {
    if 0 <= idx < 8 && levels[idx] < 15 {
        levels.update(idx, (levels[idx] + 1) as u8)
    } else {
        levels
    }
}

/// An increment raises the wake signal exactly when it changes a level.
pub open spec fn spec_inc_wakes(levels: Seq<u8>, idx: int) -> bool {
    0 <= idx < 8 && levels[idx] < 15
}

/// Saturating decrement: above 0 the level shrinks by one, at 0 (or out of
/// range) nothing changes.
pub open spec fn spec_dec_level(levels: Seq<u8>, idx: int) -> Seq<u8> {
    if 0 <= idx < 8 && levels[idx] > 0 {
        levels.update(idx, (levels[idx] - 1) as u8)
    } else {
        levels
    }
}

/// A decrement raises the wake signal exactly when it changes a level.
pub open spec fn spec_dec_wakes(levels: Seq<u8>, idx: int) -> bool {
    0 <= idx < 8 && levels[idx] > 0
}

/// The shared brightness state: eight levels plus the pending wake flag.
/// The flag models the single-slot notification that wakes the output
/// driver: raising it while it is already raised coalesces into one wake.
pub struct DimmerBank {
    levels: Vec<u8>,
    update: bool,
}

impl DimmerBank {
    /// The eight brightness levels.
    pub closed spec fn level_seq(&self) -> Seq<u8> {
        self.levels@
    }

    /// Whether a wake is pending for the output driver.
    pub closed spec fn pending(&self) -> bool {
        self.update
    }

    /// Well-formedness: the levels form a valid bank.
    pub open spec fn inv(&self) -> bool {
        levels_wf(self.level_seq())
    }

    /// A fresh bank: all eight channels at level 0, no wake pending.
    pub fn new() -> (b: DimmerBank)
        ensures
            b.inv(),
            b.level_seq().len() == 8,
            forall|i: int| 0 <= i < 8 ==> b.level_seq()[i] == 0,
            !b.pending(),
    {
        let mut levels: Vec<u8> = Vec::new();
        let mut n: usize = 0;
        while n < 8
            invariant
                n <= 8,
                levels@.len() == n,
                forall|i: int| 0 <= i < n ==> levels@[i] == 0,
            decreases 8 - n,
        {
            levels.push(0);
            n = n + 1;
        }
        DimmerBank { levels, update: false }
    }

    /// Read one channel's level; an out-of-range index reads as 0 and, the
    /// receiver being shared, cannot change any state.
    pub fn get_dimmer(&self, idx: usize) -> (r: u8)
        requires
            self.inv(),
        ensures
            r == spec_get_level(self.level_seq(), idx as int),
            r <= 15,
    {
        if idx > 7 {
            return 0;
        }
        self.levels[idx]
    }

    /// Overwrite one channel's level with a pre-clamped value and raise the
    /// wake signal; an out-of-range index changes nothing and wakes nobody.
    pub fn set_dimmer(&mut self, idx: usize, val: u8)
        requires
            old(self).inv(),
            val <= 15,
        ensures
            final(self).inv(),
            final(self).level_seq() == spec_set_level(old(self).level_seq(), idx as int, val),
            final(self).pending() == (old(self).pending() || spec_set_wakes(idx as int)),
    {
        if idx > 7 {
            return;
        }
        self.levels.set(idx, val);
        self.update = true;
    }

    /// Saturating increment of one channel; the wake signal is raised only
    /// when the level actually changed. Out-of-range indices are no-ops.
    pub fn inc_dimmer(&mut self, idx: usize)
        requires
            old(self).inv(),
        ensures
            final(self).inv(),
            final(self).level_seq() == spec_inc_level(old(self).level_seq(), idx as int),
            final(self).pending() == (old(self).pending() || spec_inc_wakes(
                old(self).level_seq(),
                idx as int,
            )),
    {
        if idx > 7 {
            return;
        }
        let a = self.levels[idx];
        if a < 15 {
            self.levels.set(idx, a + 1);
            self.update = true;
        }
    }

    /// Saturating decrement of one channel; the wake signal is raised only
    /// when the level actually changed. Out-of-range indices are no-ops.
    pub fn dec_dimmer(&mut self, idx: usize)
        requires
            old(self).inv(),
        ensures
            final(self).inv(),
            final(self).level_seq() == spec_dec_level(old(self).level_seq(), idx as int),
            final(self).pending() == (old(self).pending() || spec_dec_wakes(
                old(self).level_seq(),
                idx as int,
            )),
    {
        if idx > 7 {
            return;
        }
        let a = self.levels[idx];
        if a > 0 {
            self.levels.set(idx, a - 1);
            self.update = true;
        }
    }

    /// Resolve one wait on the wake signal: reports whether a wake was
    /// pending and consumes it. All mutations since the previous wait are
    /// credited as this one wake; the levels are untouched.
    pub fn wait_dimmer(&mut self) -> (r: bool)
        requires
            old(self).inv(),
        ensures
            final(self).inv(),
            r == old(self).pending(),
            !final(self).pending(),
            final(self).level_seq() == old(self).level_seq(),
    {
        let r = self.update;
        self.update = false;
        r
    }
}

/// One mutation of the bank, for stating laws over arbitrary call
/// sequences. The index is unconstrained on purpose: out-of-range
/// operations are part of the statement.
pub enum BankOp {
    Inc { idx: int },
    Dec { idx: int },
    SetLevel { idx: int, val: u8 },
}

/// Effect of one operation on the levels and the wake flag.
pub open spec fn apply_op(levels: Seq<u8>, pending: bool, op: BankOp) -> (Seq<u8>, bool) {
    match op {
        BankOp::Inc { idx } => (
            spec_inc_level(levels, idx),
            pending || spec_inc_wakes(levels, idx),
        ),
        BankOp::Dec { idx } => (
            spec_dec_level(levels, idx),
            pending || spec_dec_wakes(levels, idx),
        ),
        BankOp::SetLevel { idx, val } => (
            spec_set_level(levels, idx, val),
            pending || spec_set_wakes(idx),
        ),
    }
}

/// Effect of a whole sequence of operations, first to last.
pub open spec fn run_ops(levels: Seq<u8>, pending: bool, ops: Seq<BankOp>) -> (Seq<u8>, bool)
    decreases ops.len(),
{
    if ops.len() == 0 {
        (levels, pending)
    } else {
        let (l, p) = apply_op(levels, pending, ops[0]);
        run_ops(l, p, ops.skip(1))
    }
}

/// Whether every `SetLevel` in a sequence carries a pre-clamped value, as
/// the bank's callers owe.
pub open spec fn ops_clamped(ops: Seq<BankOp>) -> bool {
    forall|k: int|
        0 <= k < ops.len() ==> (#[trigger] ops[k] matches BankOp::SetLevel { idx, val } ==> val
            <= 15)
}

/// Law: under any sequence of increments, decrements and pre-clamped
/// writes, every brightness level stays within 0..=15 — the operations
/// saturate and never wrap.
pub proof fn lemma_levels_saturate(levels: Seq<u8>, pending: bool, ops: Seq<BankOp>)
    requires
        levels_wf(levels),
        ops_clamped(ops),
    ensures
        levels_wf(run_ops(levels, pending, ops).0),
    decreases ops.len(),
{
    if ops.len() > 0 {
        let (l, p) = apply_op(levels, pending, ops[0]);
        assert(levels_wf(l));
        assert(ops_clamped(ops.skip(1))) by {
            assert(forall|k: int|
                0 <= k < ops.skip(1).len() ==> ops.skip(1)[k] == ops[k + 1]);
        }
        lemma_levels_saturate(l, p, ops.skip(1));
    }
}

/// Law: reading, writing, incrementing or decrementing an out-of-range
/// index neither changes any level nor raises the wake signal, and an
/// out-of-range read yields 0.
pub proof fn lemma_out_of_range_noop(levels: Seq<u8>, idx: int, val: u8)
    requires
        !(0 <= idx < 8),
    ensures
        spec_get_level(levels, idx) == 0,
        spec_set_level(levels, idx, val) == levels,
        !spec_set_wakes(idx),
        spec_inc_level(levels, idx) == levels,
        !spec_inc_wakes(levels, idx),
        spec_dec_level(levels, idx) == levels,
        !spec_dec_wakes(levels, idx),
{
}

/// Once the wake signal is pending, no later operation clears it; only a
/// resolved wait does.
pub proof fn lemma_pending_stays(levels: Seq<u8>, ops: Seq<BankOp>)
    ensures
        run_ops(levels, true, ops).1,
    decreases ops.len(),
{
    if ops.len() > 0 {
        let (l, p) = apply_op(levels, true, ops[0]);
        lemma_pending_stays(l, ops.skip(1));
    }
}

/// Law: no wake is missed — after any batch of operations that changed at
/// least one level, the wake signal is pending, however many of the
/// operations were redundant.
pub proof fn lemma_no_missed_wake(levels: Seq<u8>, pending: bool, ops: Seq<BankOp>)
    requires
        run_ops(levels, pending, ops).0 != levels,
    ensures
        run_ops(levels, pending, ops).1,
    decreases ops.len(),
{
    if ops.len() > 0 {
        let (l, p) = apply_op(levels, pending, ops[0]);
        if l == levels {
            lemma_no_missed_wake(levels, p, ops.skip(1));
        } else {
            assert(p) by {
                match ops[0] {
                    BankOp::Inc { idx } => {
                        if !spec_inc_wakes(levels, idx) {
                            assert(l == levels);
                        }
                    },
                    BankOp::Dec { idx } => {
                        if !spec_dec_wakes(levels, idx) {
                            assert(l == levels);
                        }
                    },
                    BankOp::SetLevel { idx, val } => {
                        if !spec_set_wakes(idx) {
                            assert(l == levels);
                        }
                    },
                }
            }
            lemma_pending_stays(l, ops.skip(1));
        }
    }
}

/// Observing the wake signal: reports whether it was pending and leaves it
/// clear. This is the whole effect of a resolved wait.
pub open spec fn spec_observe(pending: bool) -> (bool, bool) {
    (pending, false)
}

/// Law: a pending batch of coalesced mutations resolves exactly one wait —
/// the first observation reports it and consumes it, and a second
/// observation with no mutation in between finds nothing.
pub proof fn lemma_wake_resolves_once(pending: bool)
    ensures
        spec_observe(pending).0 == pending,
        !spec_observe(spec_observe(pending).1).0,
        !spec_observe(spec_observe(pending).1).1,
{
}

} // verus!
