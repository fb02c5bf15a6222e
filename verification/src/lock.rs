//! The retry policy of the state lock: up to fifteen attempts, each failed
//! one followed by a full-jitter sleep of up to `min(2000, 10 * 2^attempt)`
//! milliseconds, giving up once the total timeout has elapsed.
use vstd::prelude::*;

use crate::git::{parse_u64, parse_u64_chars};
use crate::text::{chars_of, words, words_of};

verus! {

/// Attempts made to take the state lock before giving up.
pub const MAX_LOCK_ATTEMPTS: u32 = 15;

/// Two to the power `n`.
pub open spec fn pow2(n: nat) -> nat
    decreases n,
{
    if n == 0 {
        1
    } else {
        2 * pow2((n - 1) as nat)
    }
}

/// The longest sleep after failed attempt `attempt` (counted from 0), in
/// milliseconds: `min(2000, 10 * 2^attempt)`.
pub open spec fn backoff_cap(attempt: nat) -> int {
    if 10 * pow2(attempt) < 2000 {
        (10 * pow2(attempt)) as int
    } else {
        2000
    }
}

proof fn lemma_pow2_grows(a: nat, b: nat)
    requires
        a <= b,
    ensures
        pow2(a) <= pow2(b),
    decreases b,
{
    if a < b {
        lemma_pow2_grows(a, (b - 1) as nat);
    }
}

/// The longest sleep after failed attempt `attempt`.
pub fn max_backoff_ms(attempt: u32) -> (ms: u64)
    ensures
        ms == backoff_cap(attempt as nat),
        ms <= 2000,
{
    let mut base: u64 = 10;
    let mut i: u32 = 0;
    while i < attempt && base < 2000
        invariant
            i <= attempt,
            base == 10 * pow2(i as nat),
            base < 4000,
        decreases attempt - i,
    {
        base = base * 2;
        i = i + 1;
    }
    proof {
        if i < attempt {
            lemma_pow2_grows(i as nat, attempt as nat);
        }
    }
    if base < 2000 {
        base
    } else {
        2000
    }
}

/// Draws a random `u64` with `rand::random`, from the thread-local
/// generator. Nothing is claimed of the value.
#[verifier::external_body]
fn random_u64() -> u64 {
    rand::random::<u64>()
}

/// The full-jitter sleep after failed attempt `attempt` for the random draw
/// `draw`: the draw reduced modulo one more than the attempt's cap.
pub open spec fn jitter_of(attempt: nat, draw: u64) -> int {
    (draw as int) % (backoff_cap(attempt) + 1)
}

/// The full-jitter sleep after failed attempt `attempt` for the random draw
/// `draw`, in milliseconds from 0 up to the attempt's cap.
pub fn jittered_sleep_ms(attempt: u32, draw: u64) -> (ms: u64)
    ensures
        ms == jitter_of(attempt as nat, draw),
        ms <= backoff_cap(attempt as nat),
{
    let cap = max_backoff_ms(attempt);
    draw % (cap + 1)
}

/// A full-jitter sleep after failed attempt `attempt`: a random number of
/// milliseconds from 0 up to the attempt's cap. The draw is random, so what
/// holds of every outcome is stated: the sleep is the jitter of some draw.
pub fn backoff_sleep_ms(attempt: u32) -> (ms: u64)
    ensures
        ms <= backoff_cap(attempt as nat),
        exists|draw: u64| ms == jitter_of(attempt as nat, draw),
{
    let draw = random_u64();
    jittered_sleep_ms(attempt, draw)
}

/// What follows a failed attempt to take the lock.
#[derive(Debug, Clone, Copy, PartialEq, Eq, Structural)]
pub enum LockRetry {
    /// Sleep this many milliseconds, then try again.
    Sleep(u64),
    /// Give up with `StateLockContention`.
    GiveUp,
}

/// After failed attempt `attempt` (from 0), with `elapsed_ms` spent since
/// the first: give up once `timeout_ms` has passed or the attempts are
/// used up, else sleep a jittered backoff.
pub fn after_failed_attempt(attempt: u32, elapsed_ms: u64, timeout_ms: u64) -> (r: LockRetry)
    ensures
        (r == LockRetry::GiveUp) <==> (elapsed_ms >= timeout_ms || attempt + 1 >= MAX_LOCK_ATTEMPTS),
        r matches LockRetry::Sleep(ms) ==> ms <= backoff_cap(attempt as nat),
{
    if elapsed_ms >= timeout_ms || attempt >= MAX_LOCK_ATTEMPTS - 1 {
        return LockRetry::GiveUp;
    }
    LockRetry::Sleep(backoff_sleep_ms(attempt))
}

/// Whether `i` is the position of the last `)` in `s`.
pub open spec fn last_paren(s: Seq<char>, i: int) -> bool {
    0 <= i < s.len() && s[i] == ')' && forall|j: int| i < j < s.len() ==> s[j] != ')'
}

/// The start time recorded in `/proc/self/stat`: the twentieth field after
/// the one that follows the command name (which ends at the last `)`), as
/// an unsigned integer; 0 when the text has no `)`, too few fields, or a
/// field that does not parse.
pub open spec fn start_time_of(stat: Seq<char>) -> u64 {
    if exists|i: int| last_paren(stat, i) {
        let i = choose|i: int| last_paren(stat, i);
        let w = words(stat.skip(i + 2));
        if w.len() > 19 {
            match parse_u64(w[19]) {
                Some(v) => v,
                None => 0,
            }
        } else {
            0
        }
    } else {
        0
    }
}

/// The process start time from the text of `/proc/self/stat`. The text must
/// go on for two characters after its last `)` (the kernel writes a space
/// and the state there).
pub fn process_start_time_from(stat: &str) -> (t: u64)
    requires
        forall|i: int| last_paren(stat@, i) ==> i + 2 <= stat@.len(),
    ensures
        t == start_time_of(stat@),
{
    let c = chars_of(stat);
    let n = c.len();
    let mut k: usize = n;
    while k > 0
        invariant
            k <= n,
            n == c@.len(),
            c@ == stat@,
            forall|i: int| last_paren(stat@, i) ==> i + 2 <= stat@.len(),
            forall|j: int| k <= j < n ==> c@[j] != ')',
        decreases k,
    {
        if c[k - 1] == ')' {
            let pos = k - 1;
            proof {
                assert(last_paren(stat@, pos as int));
                assert forall|i: int| last_paren(stat@, i) implies i == pos by {
                    if i < pos {
                        assert(stat@[pos as int] == ')');
                    }
                }
            }
            let rest = crate::text::sub_chars(&c, pos + 2, n);
            let w = words_of(&rest);
            if w.len() > 19 {
                return match parse_u64_chars(&w[19]) {
                    Some(v) => v,
                    None => 0,
                };
            }
            return 0;
        }
        k = k - 1;
    }
    0
}

} // verus!
