//! The wait between two attempts to connect: it starts at a base, doubles with every
//! failure in a row up to a cap, and starts again at the base after a success.

use vstd::prelude::*;

verus! {

/// The wait before the attempt that follows `failures` failures in a row: the base doubled
/// once for each failure but the first, and the cap at most; nothing before any failure.
pub open spec fn delay_after(base: nat, cap: nat, failures: nat) -> nat
    decreases failures,
{
    if failures == 0 {
        0
    } else if failures == 1 {
        if base <= cap {
            base
        } else {
            cap
        }
    } else if 2 * delay_after(base, cap, (failures - 1) as nat) <= cap {
        2 * delay_after(base, cap, (failures - 1) as nat)
    } else {
        cap
    }
}

/// The waits never exceed the cap, and never shrink from one failure to the next.
pub proof fn lemma_delay_monotone(base: nat, cap: nat, failures: nat)
    ensures
        delay_after(base, cap, failures) <= cap,
        delay_after(base, cap, failures) <= delay_after(base, cap, failures + 1),
    decreases failures,
{
    if failures > 0 {
        lemma_delay_monotone(base, cap, (failures - 1) as nat);
    }
}

/// The waits never shrink over any number of failures in a row.
pub proof fn lemma_delay_non_decreasing(base: nat, cap: nat, earlier: nat, later: nat)
    requires
        earlier <= later,
    ensures
        delay_after(base, cap, earlier) <= delay_after(base, cap, later),
    decreases later - earlier,
{
    if earlier < later {
        lemma_delay_monotone(base, cap, earlier);
        lemma_delay_non_decreasing(base, cap, earlier + 1, later);
    }
}

/// The backoff of one connection slot, in milliseconds.
#[derive(Clone, Copy, Debug, PartialEq, Eq)]
pub struct Backoff {
    base_delay: u64,
    max_delay: u64,
    attempt_count: u64,
    current_delay: u64,
}

impl Backoff {
    /// The wait after the first failure.
    pub closed spec fn base(&self) -> nat {
        self.base_delay as nat
    }

    /// The longest wait.
    pub closed spec fn cap(&self) -> nat {
        self.max_delay as nat
    }

    /// How many attempts have failed in a row.
    pub closed spec fn failures(&self) -> nat {
        self.attempt_count as nat
    }

    /// The wait before the next attempt.
    pub closed spec fn delay(&self) -> nat {
        self.current_delay as nat
    }

    /// The wait is the one that belongs to the count of failures.
    pub closed spec fn wf(&self) -> bool {
        self.current_delay as nat == delay_after(
            self.base_delay as nat,
            self.max_delay as nat,
            self.attempt_count as nat,
        )
    }

    /// A slot that has not failed, with the base and the cap of its waits.
    pub fn new(base_delay: u64, max_delay: u64) -> (b: Backoff)
        ensures
            b.wf(),
            b.base() == base_delay,
            b.cap() == max_delay,
            b.failures() == 0,
            b.delay() == 0,
    {
        Backoff { base_delay, max_delay, attempt_count: 0, current_delay: 0 }
    }

    /// How many attempts have failed in a row.
    pub fn attempt_count(&self) -> (n: u64)
        ensures
            n == self.failures(),
    {
        self.attempt_count
    }

    /// The wait before the next attempt.
    pub fn current_delay(&self) -> (d: u64)
        ensures
            d == self.delay(),
    {
        self.current_delay
    }

    /// Whether the wait has reached the cap: a dial on behalf of one local connection
    /// gives up then, while the control connection of reverse tunnels keeps trying.
    pub fn is_at_cap(&self) -> (r: bool)
        ensures
            r == (self.failures() > 0 && self.delay() >= self.cap()),
    {
        self.attempt_count > 0 && self.current_delay >= self.max_delay
    }

    /// Records a failed attempt and gives the wait before the next one.
    pub fn on_failure(&mut self) -> (delay: u64)
        requires
            old(self).wf(),
            old(self).failures() < u64::MAX,
        ensures
            final(self).wf(),
            final(self).base() == old(self).base(),
            final(self).cap() == old(self).cap(),
            final(self).failures() == old(self).failures() + 1,
            delay == final(self).delay(),
            delay == delay_after(old(self).base(), old(self).cap(), old(self).failures() + 1),
            old(self).delay() <= delay <= old(self).cap(),
    {
        proof {
            lemma_delay_monotone(self.base(), self.cap(), self.failures());
            lemma_delay_monotone(self.base(), self.cap(), self.failures() + 1);
        }
        let next = if self.attempt_count == 0 {
            if self.base_delay <= self.max_delay {
                self.base_delay
            } else {
                self.max_delay
            }
        } else if self.current_delay <= self.max_delay / 2 {
            self.current_delay * 2
        } else {
            self.max_delay
        };
        self.attempt_count = self.attempt_count + 1;
        self.current_delay = next;
        next
    }

    /// Records a successful attempt: the next failure waits for the base again.
    pub fn on_success(&mut self)
        ensures
            final(self).wf(),
            final(self).base() == old(self).base(),
            final(self).cap() == old(self).cap(),
            final(self).failures() == 0,
            final(self).delay() == 0,
    {
        self.attempt_count = 0;
        self.current_delay = 0;
    }
}

/// After any number of failures and one success, the first failure waits for the base,
/// or for the cap where the base exceeds it.
pub proof fn lemma_success_resets(base: nat, cap: nat)
    ensures
        delay_after(base, cap, 1) == if base <= cap {
            base
        } else {
            cap
        },
{
}

} // verus!
