//! Bounded fan-out: hands out the items `0..total` in order while fewer than
//! `cap` of them are running, and counts how they end. A failed item is only
//! counted: it never holds back the items after it.
use vstd::prelude::*;

verus! {

/// The state of a fan-out as mathematical values.
pub struct FanOutModel {
    pub total: nat,
    pub cap: nat,
    /// The next item to hand out; every item before it has been handed out.
    pub next: nat,
    pub running: nat,
    pub finished: nat,
    pub failed: nat,
}

/// One thing that can happen to a fan-out.
#[derive(Debug, Clone, Copy, PartialEq, Eq, Structural)]
pub enum FanOutOp {
    /// Ask for the next item to start.
    Launch,
    /// A running item ended, with success or not.
    Complete(bool),
}

/// The counts agree with each other and the cap holds.
pub open spec fn fan_out_wf(m: FanOutModel) -> bool {
    &&& m.cap > 0
    &&& m.running <= m.cap
    &&& m.next == m.finished + m.running
    &&& m.next <= m.total
    &&& m.failed <= m.finished
}

/// A fan-out over `total` items with nothing started.
pub open spec fn fan_out_start(total: nat, cap: nat) -> FanOutModel {
    FanOutModel { total, cap, next: 0, running: 0, finished: 0, failed: 0 }
}

/// Whether a launch hands out an item.
pub open spec fn can_launch(m: FanOutModel) -> bool {
    m.running < m.cap && m.next < m.total
}

/// The state after `op`. A launch that cannot hand out an item and a
/// completion while nothing runs change nothing.
pub open spec fn apply(m: FanOutModel, op: FanOutOp) -> FanOutModel {
    match op {
        FanOutOp::Launch => if can_launch(m) {
            FanOutModel { next: m.next + 1, running: m.running + 1, ..m }
        } else {
            m
        },
        FanOutOp::Complete(ok) => if m.running > 0 {
            FanOutModel {
                running: (m.running - 1) as nat,
                finished: m.finished + 1,
                failed: if ok { m.failed } else { m.failed + 1 },
                ..m
            }
        } else {
            m
        },
    }
}

/// The state after each of `ops` in turn.
pub open spec fn apply_all(m: FanOutModel, ops: Seq<FanOutOp>) -> FanOutModel
    decreases ops.len(),
{
    if ops.len() == 0 {
        m
    } else {
        apply_all(apply(m, ops[0]), ops.drop_first())
    }
}

/// Every item has been handed out and has ended.
pub open spec fn all_done(m: FanOutModel) -> bool {
    m.finished == m.total
}

/// Every operation keeps a well-formed fan-out well formed.
pub proof fn lemma_apply_wf(m: FanOutModel, op: FanOutOp)
    requires
        fan_out_wf(m),
    ensures
        fan_out_wf(apply(m, op)),
{
}

/// The cap is never exceeded: after any sequence of operations, no more than
/// `cap` items are running at once.
pub proof fn lemma_cap_never_exceeded(total: nat, cap: nat, ops: Seq<FanOutOp>)
    requires
        cap > 0,
    ensures
        apply_all(fan_out_start(total, cap), ops).running <= cap,
        fan_out_wf(apply_all(fan_out_start(total, cap), ops)),
{
    lemma_wf_along(fan_out_start(total, cap), ops);
}

proof fn lemma_wf_along(m: FanOutModel, ops: Seq<FanOutOp>)
    requires
        fan_out_wf(m),
    ensures
        fan_out_wf(apply_all(m, ops)),
        apply_all(m, ops).cap == m.cap,
    decreases ops.len(),
{
    if ops.len() > 0 {
        lemma_apply_wf(m, ops[0]);
        lemma_wf_along(apply(m, ops[0]), ops.drop_first());
    }
}

/// Failures are isolated: an item that ends in failure leaves the fan-out
/// exactly as a success would, but for one more failure counted, so the items
/// after it are handed out just the same.
pub proof fn lemma_failure_isolated(m: FanOutModel)
    requires
        fan_out_wf(m),
        m.running > 0,
    ensures
        apply(m, FanOutOp::Complete(false)) == (FanOutModel {
            failed: apply(m, FanOutOp::Complete(true)).failed + 1,
            ..apply(m, FanOutOp::Complete(true))
        }),
        can_launch(apply(m, FanOutOp::Complete(false))) == can_launch(
            apply(m, FanOutOp::Complete(true)),
        ),
{
}

/// No stall: until every item has ended, either a launch hands out the next
/// item or some item is running and its end is awaited.
pub proof fn lemma_no_stall(m: FanOutModel)
    requires
        fan_out_wf(m),
        !all_done(m),
    ensures
        can_launch(m) || m.running > 0,
{
}

/// Hands out items `0..total` with at most `cap` running at once.
pub struct FanOut {
    total: usize,
    cap: usize,
    next: usize,
    running: usize,
    finished: usize,
    failed: usize,
}

impl FanOut {
    pub closed spec fn view(&self) -> FanOutModel {
        FanOutModel {
            total: self.total as nat,
            cap: self.cap as nat,
            next: self.next as nat,
            running: self.running as nat,
            finished: self.finished as nat,
            failed: self.failed as nat,
        }
    }

    #[verifier::type_invariant]
    spec fn inv(&self) -> bool {
        fan_out_wf(self.view())
    }

    /// A fan-out over `total` items, at most `cap` of them at once. A cap of
    /// zero is a configuration error that callers reject before this point.
    pub fn new(total: usize, cap: usize) -> (r: FanOut)
        requires
            cap > 0,
        ensures
            r@ == fan_out_start(total as nat, cap as nat),
    {
        FanOut { total, cap, next: 0, running: 0, finished: 0, failed: 0 }
    }

    /// The next item to start, if one is left and a slot is free.
    pub fn launch(&mut self) -> (r: Option<usize>)
        ensures
            final(self)@ == apply(old(self)@, FanOutOp::Launch),
            r is Some <==> can_launch(old(self)@),
            r matches Some(i) ==> i == old(self)@.next,
    {
        proof {
            use_type_invariant(&*self);
        }
        if self.running < self.cap && self.next < self.total {
            let i = self.next;
            *self = FanOut {
                total: self.total,
                cap: self.cap,
                next: self.next + 1,
                running: self.running + 1,
                finished: self.finished,
                failed: self.failed,
            };
            Some(i)
        } else {
            None
        }
    }

    /// Records that a running item ended, with success or not.
    pub fn complete(&mut self, ok: bool)
        ensures
            final(self)@ == apply(old(self)@, FanOutOp::Complete(ok)),
    {
        proof {
            use_type_invariant(&*self);
        }
        if self.running > 0 {
            let failed = if ok {
                self.failed
            } else {
                self.failed + 1
            };
            *self = FanOut {
                total: self.total,
                cap: self.cap,
                next: self.next,
                running: self.running - 1,
                finished: self.finished + 1,
                failed,
            };
        }
    }

    /// Whether every item has been handed out and has ended.
    pub fn is_done(&self) -> (r: bool)
        ensures
            r == all_done(self@),
    {
        self.finished == self.total
    }

    /// How many items are running.
    pub fn running(&self) -> (r: usize)
        ensures
            r == self@.running,
    {
        self.running
    }

    /// How many items ended in failure.
    pub fn failures(&self) -> (r: usize)
        ensures
            r == self@.failed,
    {
        self.failed
    }
}

} // verus!
