//! Waiting between attempts: the retry delay after a failed request, and
//! the pause between two pages.
use vstd::prelude::*;

verus! {

/// The first retry delay, in milliseconds.
pub const INITIAL_DELAY_MS: u64 = 1000;

/// The factor by which the retry delay grows after each failure.
pub const DELAY_FACTOR: u64 = 2;

/// The longest retry delay, in milliseconds.
pub const MAX_DELAY_MS: u64 = 20_000;

/// Least pause between two pages, in milliseconds.
pub const PAGE_PAUSE_MS: u64 = 1000;

/// Bound of the random part of the pause between two pages, in milliseconds.
pub const PAGE_PAUSE_JITTER_MS: u64 = 500;

/// The retry delay before jitter after `n` failures: it starts at
/// `INITIAL_DELAY_MS` and is multiplied by `DELAY_FACTOR` after each
/// failure, up to `MAX_DELAY_MS`.
pub open spec fn base_delay(n: nat) -> nat
    decreases n,
{
    if n == 0 {
        INITIAL_DELAY_MS as nat
    } else {
        let d = (base_delay((n - 1) as nat) * DELAY_FACTOR) as nat;
        if d > MAX_DELAY_MS {
            MAX_DELAY_MS as nat
        } else {
            d
        }
    }
}

/// Relies on `fure::backoff::jitter`: the delay scaled by a random factor
/// in `[0, 1)`, its seconds and nanoseconds each rounded up, so never longer
/// than the delay given.
#[verifier::external_body]
fn jitter_ms(delay_ms: u64) -> (r: u64)
    ensures
        r <= delay_ms,
{
    fure::backoff::jitter(std::time::Duration::from_millis(delay_ms)).as_millis() as u64
}

/// Relies on `rand::Rng::gen_range` over `rand::thread_rng()`: a number in
/// `0..bound`.
#[verifier::external_body]
fn random_below(bound: u64) -> (r: u64)
    requires
        bound > 0,
    ensures
        r < bound,
{
    rand::Rng::gen_range(&mut rand::thread_rng(), 0..bound)
}

/// The retry policy of one operation: exponential delays with a ceiling,
/// without a limit on the number of attempts.
pub struct Backoff {
    delay_ms: u64,
    failures: Ghost<nat>,
}

impl Backoff {
    /// Failures so far.
    pub closed spec fn failures(&self) -> nat {
        self.failures@
    }

    pub closed spec fn wf(&self) -> bool {
        self.delay_ms == base_delay(self.failures@)
    }

    pub fn new() -> (r: Backoff)
        ensures
            r.wf(),
            r.failures() == 0,
    {
        Backoff { delay_ms: INITIAL_DELAY_MS, failures: Ghost(0) }
    }

    /// Records a failure and returns the delay before the next attempt,
    /// without jitter.
    pub fn next_delay(&mut self) -> (r: u64)
        requires
            old(self).wf(),
        ensures
            final(self).wf(),
            final(self).failures() == old(self).failures() + 1,
            r == base_delay(old(self).failures()),
    {
        proof {
            lemma_base_delay_bounded(self.failures@);
        }
        let r = self.delay_ms;
        let d = self.delay_ms * DELAY_FACTOR;
        self.delay_ms = if d > MAX_DELAY_MS { MAX_DELAY_MS } else { d };
        self.failures = Ghost(self.failures@ + 1);
        r
    }

    /// Records a failure and returns the delay before the next attempt,
    /// with jitter: never longer than the delay without it.
    pub fn next_wait(&mut self) -> (r: u64)
        requires
            old(self).wf(),
        ensures
            final(self).wf(),
            final(self).failures() == old(self).failures() + 1,
            r <= base_delay(old(self).failures()),
    {
        let d = self.next_delay();
        jitter_ms(d)
    }
}

proof fn lemma_base_delay_bounded(n: nat)
    ensures
        1 <= base_delay(n) <= MAX_DELAY_MS,
    decreases n,
{
    if n > 0 {
        lemma_base_delay_bounded((n - 1) as nat);
    }
}

/// Without jitter, repeated failures wait 1 s, 2 s, 4 s, 8 s, 16 s, and
/// 20 s from then on.
pub proof fn lemma_delay_sequence(n: nat)
    ensures
        base_delay(n) == (if n >= 5 {
            20_000
        } else {
            seq![1000nat, 2000, 4000, 8000, 16000][n as int]
        }),
    decreases n,
{
    if n > 0 {
        lemma_delay_sequence((n - 1) as nat);
    }
}

/// The pause between two pages for a drawn jitter: `PAGE_PAUSE_MS` plus
/// the jitter.
pub fn page_pause(jitter_ms: u64) -> (r: u64)
    requires
        jitter_ms < PAGE_PAUSE_JITTER_MS,
    ensures
        r == PAGE_PAUSE_MS + jitter_ms,
{
    PAGE_PAUSE_MS + jitter_ms
}

/// The pause between two pages: `PAGE_PAUSE_MS` and a random part below
/// `PAGE_PAUSE_JITTER_MS` (see `page_pause`).
pub fn page_pause_ms() -> (r: u64)
    ensures
        PAGE_PAUSE_MS <= r < PAGE_PAUSE_MS + PAGE_PAUSE_JITTER_MS,
{
    page_pause(random_below(PAGE_PAUSE_JITTER_MS))
}

} // verus!
