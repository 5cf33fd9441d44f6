//! When a failed call to the registry is repeated, and after what pause.

use vstd::prelude::*;
use vstd::arithmetic::power::*;
use crate::error::{is_grpc_retriable, retriable, GrpcError, GrpcErrorView};

verus! {

/// How often a call is tried and how the pauses between the tries grow.
/// The delays are in milliseconds.
#[derive(Clone, Copy, Debug, PartialEq, Eq, Structural)]
pub struct RetryConfig {
    pub max_attempts: u32,
    pub min_delay: u64,
    pub max_delay: u64,
    pub multiplier: u32,
}

/// How often the first pause has been multiplied after `attempts` tries.
pub open spec fn growth_steps(attempts: u64) -> nat {
    if attempts >= 1 {
        (attempts - 1) as nat
    } else {
        0
    }
}

/// The pause after the given number of tries: the shortest pause,
/// multiplied once for each try after the first, and never more than the
/// longest pause.
pub open spec fn backoff(config: RetryConfig, attempts: u64) -> int {
    let grown = pow(config.multiplier as int, growth_steps(attempts)) * config.min_delay;
    if grown < config.max_delay {
        grown
    } else {
        config.max_delay as int
    }
}

/// The pause before the next try, or none where no try is left.
pub open spec fn delay_after(config: RetryConfig, attempts: u64) -> Option<u64> {
    if attempts >= config.max_attempts {
        None
    } else {
        Some(backoff(config, attempts) as u64)
    }
}

/// What follows a failed try.
#[derive(Clone, Copy, Debug, PartialEq, Eq, Structural)]
pub enum RetryDecision {
    /// Try again after a pause of so many milliseconds.
    RetryAfter(u64),
    /// Report the failure.
    GiveUp,
}

/// A failure is answered by another try exactly when it is worth
/// repeating and a try is left.
pub open spec fn decide(config: RetryConfig, attempts: u64, error: GrpcErrorView) -> RetryDecision {
    if retriable(error) {
        match delay_after(config, attempts) {
            Some(d) => RetryDecision::RetryAfter(d),
            None => RetryDecision::GiveUp,
        }
    } else {
        RetryDecision::GiveUp
    }
}

/// The pause lies between nothing and the longest pause.
pub proof fn lemma_backoff_bounds(config: RetryConfig, attempts: u64)
    ensures
        0 <= backoff(config, attempts) <= config.max_delay,
{
    let p = pow(config.multiplier as int, growth_steps(attempts));
    if config.multiplier > 0 {
        lemma_pow_positive(config.multiplier as int, growth_steps(attempts));
    } else {
        if growth_steps(attempts) > 0 {
            lemma0_pow(growth_steps(attempts));
        } else {
            lemma_pow0(0);
        }
    }
    assert(p >= 0);
    assert(p * config.min_delay >= 0) by (nonlinear_arith)
        requires
            p >= 0,
            config.min_delay >= 0,
    ;
}

fn saturating_power(base: u64, steps: u64) -> (r: u64)
    ensures
        pow(base as int, steps as nat) <= u64::MAX ==> r == pow(base as int, steps as nat),
        pow(base as int, steps as nat) > u64::MAX ==> r == u64::MAX,
{
    if steps == 0 {
        proof {
            lemma_pow0(base as int);
        }
        return 1;
    }
    if base == 0 {
        proof {
            lemma0_pow(steps as nat);
        }
        return 0;
    }
    if base == 1 {
        proof {
            lemma1_pow(steps as nat);
        }
        return 1;
    }
    let mut acc: u64 = 1;
    let mut i: u64 = 0;
    proof {
        lemma_pow0(base as int);
    }
    while i < steps
        invariant
            base >= 2,
            i <= steps,
            acc == pow(base as int, i as nat),
        decreases steps - i,
    {
        proof {
            reveal(pow);
            assert(pow(base as int, (i + 1) as nat) == base * pow(base as int, i as nat));
            assert(base * pow(base as int, i as nat) == acc * base) by (nonlinear_arith)
                requires
                    acc == pow(base as int, i as nat),
            ;
        }
        match acc.checked_mul(base) {
            Some(v) => {
                acc = v;
            },
            None => {
                proof {
                    lemma_pow_increases(base as nat, (i + 1) as nat, steps as nat);
                }
                return u64::MAX;
            },
        }
        i = i + 1;
    }
    acc
}

/// The pause before the next try, or none where no try is left.
pub fn get_delay(config: &RetryConfig, attempts: u64) -> (r: Option<u64>)
    ensures
        r == delay_after(*config, attempts),
{
    if attempts >= config.max_attempts as u64 {
        return None;
    }
    let steps: u64 = if attempts >= 1 {
        attempts - 1
    } else {
        0
    };
    let factor = saturating_power(config.multiplier as u64, steps);
    let ghost p = pow(config.multiplier as int, growth_steps(attempts));
    proof {
        lemma_backoff_bounds(*config, attempts);
    }
    let delay = match factor.checked_mul(config.min_delay) {
        Some(grown) => {
            proof {
                if p > u64::MAX {
                    assert(factor == u64::MAX);
                    if config.min_delay > 0 {
                        assert(p * config.min_delay >= p) by (nonlinear_arith)
                            requires
                                p > 0,
                                config.min_delay >= 1,
                        ;
                        assert(factor * config.min_delay >= factor) by (nonlinear_arith)
                            requires
                                factor > 0,
                                config.min_delay >= 1,
                        ;
                    } else {
                        assert(p * config.min_delay == 0) by (nonlinear_arith)
                            requires
                                config.min_delay == 0,
                        ;
                        assert(factor * config.min_delay == 0) by (nonlinear_arith)
                            requires
                                config.min_delay == 0,
                        ;
                    }
                }
            }
            if grown < config.max_delay {
                grown
            } else {
                config.max_delay
            }
        },
        None => {
            proof {
                assert(factor <= p);
                assert(factor * config.min_delay <= p * config.min_delay) by (nonlinear_arith)
                    requires
                        0 <= factor <= p,
                        config.min_delay >= 0,
                ;
            }
            config.max_delay
        },
    };
    Some(delay)
}

/// Decides what follows the failure of the try with the given number.
pub fn on_failure(config: &RetryConfig, attempts: u64, error: &GrpcError) -> (r: RetryDecision)
    ensures
        r == decide(*config, attempts, error@),
{
    if is_grpc_retriable(error) {
        match get_delay(config, attempts) {
            Some(d) => RetryDecision::RetryAfter(d),
            None => RetryDecision::GiveUp,
        }
    } else {
        RetryDecision::GiveUp
    }
}

/// How many tries a call gets when try number `made + 1` and the tries
/// after it fail with the given errors, one after the other.
pub open spec fn tries_from(config: RetryConfig, failures: Seq<GrpcErrorView>, made: nat) -> nat
    decreases failures.len(),
{
    if failures.len() == 0 {
        0
    } else {
        match decide(config, (made + 1) as u64, failures[0]) {
            RetryDecision::RetryAfter(_) => 1 + tries_from(
                config,
                failures.drop_first(),
                made + 1,
            ),
            RetryDecision::GiveUp => 1,
        }
    }
}

/// No failure of the last try that the configuration allows, or of a
/// later one, is answered by another try.
pub proof fn lemma_last_try_gives_up(config: RetryConfig, attempts: u64, error: GrpcErrorView)
    requires
        attempts >= config.max_attempts,
    ensures
        decide(config, attempts, error) == RetryDecision::GiveUp,
{
}

/// A failure that is not worth repeating is never answered by another try.
pub proof fn lemma_permanent_failure_gives_up(
    config: RetryConfig,
    attempts: u64,
    error: GrpcErrorView,
)
    requires
        !retriable(error),
    ensures
        decide(config, attempts, error) == RetryDecision::GiveUp,
{
}

/// The effort is bounded: whatever the failures are, a call is tried at
/// most as often as the configuration allows, and once where it allows
/// no try at all.
pub proof fn lemma_tries_bounded(config: RetryConfig, failures: Seq<GrpcErrorView>, made: nat)
    requires
        made <= config.max_attempts,
    ensures
        made + tries_from(config, failures, made) <= if config.max_attempts > made {
            config.max_attempts as nat
        } else {
            made + 1
        },
    decreases failures.len(),
{
    if failures.len() > 0 {
        match decide(config, (made + 1) as u64, failures[0]) {
            RetryDecision::RetryAfter(_) => {
                assert(made + 1 < config.max_attempts);
                lemma_tries_bounded(config, failures.drop_first(), made + 1);
            },
            RetryDecision::GiveUp => {},
        }
    }
}

/// The pauses never shrink from one try to the next, unless the
/// multiplier is zero.
pub proof fn lemma_backoff_grows(config: RetryConfig, earlier: u64, later: u64)
    requires
        config.multiplier >= 1,
        earlier <= later,
    ensures
        backoff(config, earlier) <= backoff(config, later),
{
    let a = pow(config.multiplier as int, growth_steps(earlier));
    let b = pow(config.multiplier as int, growth_steps(later));
    lemma_pow_increases(config.multiplier as nat, growth_steps(earlier), growth_steps(later));
    assert(a * config.min_delay <= b * config.min_delay) by (nonlinear_arith)
        requires
            a <= b,
            config.min_delay >= 0,
    ;
}

/// The first pause is the shortest pause, unless the longest is shorter.
pub proof fn lemma_first_backoff(config: RetryConfig)
    ensures
        backoff(config, 1) == if config.min_delay < config.max_delay {
            config.min_delay
        } else {
            config.max_delay
        },
{
    lemma_pow0(config.multiplier as int);
}

} // verus!
