//! Bounded prefixes of what native programs print. The logs of a fabric share one retained-byte
//! budget; what exceeds it is read and dropped, so that no writer is ever blocked.

use vstd::prelude::*;
use vstd::string::*;

verus! {

/// Most bytes that one log retains: 16 MiB.
pub const PER_LOG: usize = 16_777_216;

/// Most bytes that the logs of a fabric retain together: 64 MiB.
pub const PER_FABRIC: usize = 67_108_864;

pub open spec fn least(a: nat, b: nat) -> nat {
    if a <= b {
        a
    } else {
        b
    }
}

/// How many bytes of `len` a log keeps that has `log` bytes left under a budget with `budget`
/// bytes left.
pub open spec fn kept(len: nat, log: nat, budget: nat) -> nat {
    least(len, least(log, budget))
}

fn smaller(a: usize, b: usize) -> (r: usize)
    ensures
        r == least(a as nat, b as nat),
{
    if a <= b {
        a
    } else {
        b
    }
}

/// What the logs of a fabric may still retain together.
#[derive(Debug)]
pub struct Budget {
    remaining: usize,
}

impl View for Budget {
    type V = nat;

    closed spec fn view(&self) -> nat {
        self.remaining as nat
    }
}

/// A log that can retain no more.
#[derive(Clone, Copy, Debug, PartialEq, Eq, Structural)]
pub struct BudgetExhausted;

impl Budget {
    pub fn new() -> (r: Self)
        ensures
            r@ == PER_FABRIC,
    {
        Budget { remaining: PER_FABRIC }
    }

    /// A budget of so many bytes.
    pub fn of(bytes: usize) -> (r: Self)
        ensures
            r@ == bytes,
    {
        Budget { remaining: bytes }
    }

    /// A new log under this budget.
    pub fn file(&self) -> (r: CappedFile)
        ensures
            r@ == PER_LOG,
    {
        CappedFile { remaining: PER_LOG }
    }
}

/// What one log may still retain.
#[derive(Debug)]
pub struct CappedFile {
    remaining: usize,
}

impl View for CappedFile {
    type V = nat;

    closed spec fn view(&self) -> nat {
        self.remaining as nat
    }
}

impl CappedFile {
    /// Reserves room for the first of `len` bytes, and says for how many. The room is gone even if
    /// writing them fails later.
    pub fn write(&mut self, budget: &mut Budget, len: usize) -> (r: Result<usize, BudgetExhausted>)
        ensures
            match r {
                Ok(n) => {
                    &&& n == kept(len as nat, old(self)@, old(budget)@)
                    &&& n == 0 ==> len == 0
                    &&& final(self)@ == old(self)@ - n
                    &&& final(budget)@ == old(budget)@ - n
                },
                Err(_) => {
                    &&& len > 0
                    &&& kept(len as nat, old(self)@, old(budget)@) == 0
                    &&& final(self)@ == old(self)@
                    &&& final(budget)@ == old(budget)@
                },
            },
    {
        let keep: usize = smaller(len, smaller(self.remaining, budget.remaining));
        if keep == 0 && len != 0 {
            return Err(BudgetExhausted);
        }
        budget.remaining = budget.remaining - keep;
        self.remaining = self.remaining - keep;
        Ok(keep)
    }

    /// Reserves room for as many of `len` bytes as there is. Gives their number, and whether that
    /// is all of them.
    pub fn write_all(&mut self, budget: &mut Budget, len: usize) -> (r: (usize, bool))
        ensures
            r.0 == kept(len as nat, old(self)@, old(budget)@),
            r.1 == (r.0 == len),
            final(self)@ == old(self)@ - r.0,
            final(budget)@ == old(budget)@ - r.0,
    {
        let mut done: usize = 0;
        while done < len
            invariant
                done <= kept(len as nat, old(self)@, old(budget)@) <= len,
                self@ == old(self)@ - done,
                budget@ == old(budget)@ - done,
            decreases len - done,
        {
            match self.write(budget, len - done) {
                Ok(n) => {
                    done = done + n;
                },
                Err(_) => {
                    return (done, false);
                },
            }
        }
        (done, true)
    }
}

/// What to do with bytes that were read from a stream.
#[derive(Clone, Copy, Debug, PartialEq, Eq, Structural)]
pub enum DrainStep {
    /// Put them into the log.
    Keep,
    /// Drop them, and read on.
    Discard,
    /// The stream has ended: flush the log.
    Flush,
    /// The stream has ended, and the log is not whole.
    Incomplete,
}

/// A stream on its way into a log. It is read to its end, even after the log has failed.
#[derive(Debug)]
pub struct Drain {
    failed: bool,
}

impl View for Drain {
    type V = bool;

    /// Whether the log has failed.
    closed spec fn view(&self) -> bool {
        self.failed
    }
}

/// What to do with `count` bytes, where none means that the stream has ended.
pub open spec fn drain_step(failed: bool, count: nat) -> DrainStep {
    if count == 0 {
        if failed {
            DrainStep::Incomplete
        } else {
            DrainStep::Flush
        }
    } else if failed {
        DrainStep::Discard
    } else {
        DrainStep::Keep
    }
}

impl Drain {
    pub fn new() -> (r: Self)
        ensures
            r@ == false,
    {
        Drain { failed: false }
    }

    /// What to do with `count` bytes that were read.
    pub fn read(&self, count: usize) -> (r: DrainStep)
        ensures
            r == drain_step(self@, count as nat),
    {
        if count == 0 {
            if self.failed {
                DrainStep::Incomplete
            } else {
                DrainStep::Flush
            }
        } else if self.failed {
            DrainStep::Discard
        } else {
            DrainStep::Keep
        }
    }

    /// Takes note of whether bytes could be put into the log.
    pub fn written(&mut self, whole: bool)
        ensures
            final(self)@ == (old(self)@ || !whole),
    {
        if !whole {
            self.failed = true;
        }
    }
}

/// How long a drain may still take, in milliseconds, once it is waited for.
pub const DRAIN_DEADLINE: u64 = 2_000;

/// What came of waiting for a drain.
#[derive(Debug)]
pub enum Drained {
    /// It has ended; this went wrong with it, if anything did.
    Ended { failure: Option<String> },
    /// It had not ended at its deadline.
    TimedOut,
    /// It went away without a word; this is reported of it.
    Lost(String),
}

/// What is wrong with a log whose drain was waited for, if anything is.
pub open spec fn log_failure(drained: Drained) -> Option<Seq<char>> {
    match drained {
        Drained::Ended { failure: Some(m) } => Some(m@),
        Drained::Ended { failure: None } => None,
        Drained::TimedOut => Some("IB log drain timed out"@),
        Drained::Lost(m) => Some(m@),
    }
}

/// Whether a log is whole whose drain was waited for; if not, what is wrong with it.
pub fn finish(drained: Drained) -> (r: Result<(), String>)
    ensures
        match r {
            Ok(()) => log_failure(drained) is None,
            Err(m) => log_failure(drained) == Some(m@),
        },
{
    match drained {
        Drained::Ended { failure } => match failure {
            Some(m) => Err(m),
            None => Ok(()),
        },
        Drained::TimedOut => Err("IB log drain timed out".to_owned()),
        Drained::Lost(m) => Err(m),
    }
}

/// All the sizes together.
pub open spec fn total(chunks: Seq<nat>) -> nat
    decreases chunks.len(),
{
    if chunks.len() == 0 {
        0
    } else {
        total(chunks.drop_last()) + chunks.last()
    }
}

/// A log under a budget while a stream is drained into it.
pub struct Draining {
    pub failed: bool,
    pub log: nat,
    pub budget: nat,
    /// Bytes that the log holds.
    pub held: nat,
}

/// A stream into a fresh log, chunk by chunk.
pub open spec fn draining(log: nat, budget: nat, chunks: Seq<nat>) -> Draining
    decreases chunks.len(),
{
    if chunks.len() == 0 {
        Draining { failed: false, log, budget, held: 0 }
    } else {
        let d = draining(log, budget, chunks.drop_last());
        if drain_step(d.failed, chunks.last()) == DrainStep::Keep {
            let n = kept(chunks.last(), d.log, d.budget);
            Draining {
                failed: n != chunks.last(),
                log: (d.log - n) as nat,
                budget: (d.budget - n) as nat,
                held: d.held + n,
            }
        } else {
            d
        }
    }
}

/// A drained log holds a prefix of the stream: all of it, or as much as its own limit and the
/// shared budget leave room for; it is incomplete exactly if something was dropped; and what it
/// holds is what the budget has lost.
pub proof fn law_bounded_prefix(log: nat, budget: nat, chunks: Seq<nat>)
    ensures
        draining(log, budget, chunks).held == kept(total(chunks), log, budget),
        draining(log, budget, chunks).failed == (draining(log, budget, chunks).held != total(chunks)),
        draining(log, budget, chunks).held + draining(log, budget, chunks).budget == budget,
        draining(log, budget, chunks).held + draining(log, budget, chunks).log == log,
    decreases chunks.len(),
{
    if chunks.len() > 0 {
        law_bounded_prefix(log, budget, chunks.drop_last());
    }
}

/// The logs under one budget.
pub struct Pool {
    pub budget: nat,
    /// What each log holds.
    pub held: Seq<nat>,
}

/// `logs` fresh logs under one budget, after writes in any order: each names its log and the
/// number of bytes offered.
pub open spec fn pool(budget: nat, logs: nat, writes: Seq<(int, nat)>) -> Pool
    decreases writes.len(),
{
    if writes.len() == 0 {
        Pool { budget, held: Seq::new(logs, |i: int| 0nat) }
    } else {
        let p = pool(budget, logs, writes.drop_last());
        let (i, len) = writes.last();
        if 0 <= i < logs {
            let n = kept(len, (PER_LOG - p.held[i]) as nat, p.budget);
            Pool {
                budget: (p.budget - n) as nat,
                held: p.held.update(i, p.held[i] + n),
            }
        } else {
            p
        }
    }
}

proof fn lemma_total_update(held: Seq<nat>, i: int, n: nat)
    requires
        0 <= i < held.len(),
    ensures
        total(held.update(i, held[i] + n)) == total(held) + n,
    decreases held.len(),
{
    let more = held.update(i, held[i] + n);
    if i == held.len() - 1 {
        assert(more.drop_last() =~= held.drop_last());
    } else {
        lemma_total_update(held.drop_last(), i, n);
        assert(more.drop_last() =~= held.drop_last().update(i, held[i] + n));
    }
}

proof fn lemma_total_none(logs: nat)
    ensures
        total(Seq::new(logs, |i: int| 0nat)) == 0,
    decreases logs,
{
    if logs > 0 {
        let none = Seq::new(logs, |i: int| 0nat);
        lemma_total_none((logs - 1) as nat);
        assert(none.drop_last() =~= Seq::new((logs - 1) as nat, |i: int| 0nat));
    }
}

/// However noisy the streams and however they interleave, what the logs of a fabric hold together
/// is what its budget has lost, so never more than that; and none holds more than its own limit.
pub proof fn law_shared_budget(budget: nat, logs: nat, writes: Seq<(int, nat)>)
    ensures
        total(pool(budget, logs, writes).held) + pool(budget, logs, writes).budget == budget,
        pool(budget, logs, writes).held.len() == logs,
        forall|i: int|
            0 <= i < logs ==> #[trigger] pool(budget, logs, writes).held[i] <= PER_LOG,
    decreases writes.len(),
{
    if writes.len() == 0 {
        lemma_total_none(logs);
    } else {
        law_shared_budget(budget, logs, writes.drop_last());
        let p = pool(budget, logs, writes.drop_last());
        let q = pool(budget, logs, writes);
        let (k, len) = writes.last();
        if 0 <= k < logs {
            lemma_total_update(p.held, k, kept(len, (PER_LOG - p.held[k]) as nat, p.budget));
        }
        assert forall|i: int| 0 <= i < logs implies #[trigger] q.held[i] <= PER_LOG by {
            assert(p.held[i] <= PER_LOG);
        }
    }
}

/// A log keeps as much as it can: never more than it is offered, than it has room for or than the
/// budget has left, and never less than one of these.
pub proof fn law_as_much_as_there_is_room_for(len: nat, log: nat, budget: nat)
    ensures
        kept(len, log, budget) <= len,
        kept(len, log, budget) <= log,
        kept(len, log, budget) <= budget,
        kept(len, log, budget) == len || kept(len, log, budget) == log || kept(len, log, budget)
            == budget,
{
}

/// A stream is kept until its log fails, then dropped, and ends as its log did; the end is an empty
/// read and nothing else.
pub proof fn law_streams_are_read_to_their_end(failed: bool, count: nat)
    ensures
        drain_step(failed, count) == DrainStep::Keep <==> count > 0 && !failed,
        drain_step(failed, count) == DrainStep::Discard <==> count > 0 && failed,
        drain_step(failed, count) == DrainStep::Flush <==> count == 0 && !failed,
        drain_step(failed, count) == DrainStep::Incomplete <==> count == 0 && failed,
{
}

/// A log is whole exactly if its drain has ended, and without a failure; otherwise what was reported
/// is what is reported.
pub proof fn law_whole_logs(drained: Drained, m: String)
    ensures
        log_failure(drained) is None <==> (drained matches Drained::Ended { failure } && failure
            is None),
        log_failure(Drained::Ended { failure: Some(m) }) == Some(m@),
        log_failure(Drained::Lost(m)) == Some(m@),
        log_failure(Drained::TimedOut) == Some("IB log drain timed out"@),
{
}

} // verus!
